//! The inbound bot poller's logic: reading the provider's update feed,
//! recognising `/start <open_id>` messages, and binding the chat to the user's
//! transport. The long-poll HTTP call itself stays in the surrounding program.

use vstd::prelude::*;
use vstd::string::*;

use crate::model::transport::rebound_to;
use crate::model::transport::Transport;
use crate::model::DbError;
use crate::service::Context;
use crate::strutil::i64_dec;
use crate::strutil::i64_to_string;
use crate::strutil::starts_with;
use crate::strutil::str_starts_with;

verus! {

pub struct Chat {
    pub id: i32,
    pub chat_type: String,
    pub username: Option<String>,
}

pub struct Message {
    pub message_id: i32,
    pub chat: Chat,
    pub text: Option<String>,
}

pub struct Update {
    pub update_id: i32,
    pub message: Option<Message>,
}

/// The parameters of one update poll.
pub struct GetUpdates {
    pub offset: Option<i32>,
    pub limit: Option<i32>,
    pub timeout: Option<i32>,
    pub allowed_updates: Option<Vec<String>>,
}

/// One poll asks for up to 100 message updates with the provider's 5-second
/// long-poll timeout, from the tracked offset once one exists.
pub fn build_get_updates(offset: i32) -> (r: GetUpdates)
    ensures
        r.limit == Some(100i32),
        r.timeout == Some(5i32),
        offset > 0 ==> r.offset == Some(offset),
        offset <= 0 ==> r.offset is None,
        r.allowed_updates matches Some(a) && a@.len() == 1 && a@[0]@ == "message"@,
{
    let mut allowed: Vec<String> = Vec::new();
    allowed.push(String::from_str("message"));
    GetUpdates {
        offset: if offset > 0 {
            Some(offset)
        } else {
            None
        },
        limit: Some(100),
        timeout: Some(5),
        allowed_updates: Some(allowed),
    }
}

/// The offset to poll from next: one past the highest update seen.
pub fn next_offset(updates: &Vec<Update>, offset: i32) -> (r: i32)
    requires
        updates@.len() > 0 ==> updates@.last().update_id < i32::MAX,
    ensures
        updates@.len() == 0 ==> r == offset,
        updates@.len() > 0 ==> r == updates@.last().update_id + 1,
{
    if updates.len() == 0 {
        offset
    } else {
        updates[updates.len() - 1].update_id + 1
    }
}

/// Reads the provider's update-feed envelope: a reported error is surfaced
/// with its description, a missing result is refused, and otherwise the
/// updates come through unchanged.
pub fn interpret_updates_response(
    ok: bool,
    description: Option<String>,
    result: Option<Vec<Update>>,
) -> (r: Result<Vec<Update>, String>)
    ensures
        (!ok && description is Some) ==> (r matches Err(e) && e@ == description.unwrap()@),
        (ok || description is None) ==> match result {
            None => r matches Err(e) && e@ == "invalid result"@,
            Some(u) => r matches Ok(o) && o == u,
        },
{
    if !ok {
        match description {
            Some(d) => {
                return Err(d);
            },
            None => {},
        }
    }
    match result {
        None => Err(String::from_str("invalid result")),
        Some(updates) => Ok(updates),
    }
}

/// The `/start <open_id>` payload, when the text is that command.
pub fn parse_start_text(text: &str) -> (r: Option<String>)
    ensures
        r is Some <==> starts_with(text@, "/start "@),
        r matches Some(s) ==> s@ == text@.skip(7),
{
    if str_starts_with(text, "/start ") {
        proof {
            reveal_strlit("/start ");
        }
        let len = text.unicode_len();
        let suffix = text.substring_char(7, len);
        proof {
            assert(suffix@ =~= text@.skip(7));
        }
        Some(String::from_str(suffix))
    } else {
        None
    }
}

/// The confirmation sent back once a chat is bound.
pub fn confirmation_text() -> (r: String)
    ensures
        r@
            == "Your Telegram transport has been configured. You can now receive notifications from simple push service."@,
{
    String::from_str(
        "Your Telegram transport has been configured. You can now receive notifications from simple push service.",
    )
}

/// The inbound message is a `/start` command.
pub open spec fn is_start(m: Message) -> bool {
    m.text is Some && starts_with(m.text.unwrap()@, "/start "@)
}

/// The `open_id` payload of a `/start` command.
pub open spec fn start_payload(m: Message) -> Seq<char> {
    m.text.unwrap()@.skip(7)
}

/// What one inbound message led to.
pub enum BotReply {
    /// Not a `/start` command: nothing happened.
    Ignored,
    /// The chat was bound to the user's transport; confirm to this chat.
    Bound { chat_id: String },
}

/// Handles one inbound message: on `/start <open_id>` from a known user,
/// binds the chat to the user's chat-bot transport — in place when one
/// exists (never creating a second row), freshly connected otherwise.
pub fn handle_message(ctx: &mut Context, message: &Message) -> (r: Result<BotReply, DbError>)
    requires
        old(ctx).inv(),
        old(ctx).transports.next_id < i64::MAX,
    ensures
        final(ctx).inv(),
        final(ctx).conf == old(ctx).conf,
        final(ctx).users == old(ctx).users,
        final(ctx).messages == old(ctx).messages,
        final(ctx).tasks == old(ctx).tasks,
        final(ctx).queue == old(ctx).queue,
        final(ctx).in_flight == old(ctx).in_flight,
        final(ctx).skipped == old(ctx).skipped,
        !is_start(*message) ==> (r matches Ok(b) && b is Ignored) && *final(ctx) == *old(ctx),
        (is_start(*message) && !old(ctx).users.has_open_id(start_payload(*message))) ==> (r matches
            Err(e) && e is NotFound) && *final(ctx) == *old(ctx),
        (is_start(*message) && old(ctx).users.has_open_id(start_payload(*message))) ==> {
            let u = old(ctx).users.user_by_open_id(start_payload(*message));
            let cid = i64_dec(message.chat.id as int);
            &&& r matches Ok(b) && b matches BotReply::Bound { chat_id } && chat_id@ == cid
            // afterwards the user owns a chat-bot transport, so a repeated
            // command can only re-bind in place
            &&& final(ctx).transports.has_user_type(u.id, "telegram"@)
            &&& if old(ctx).transports.has_user_type(u.id, "telegram"@) {
                // re-bound in place: same row count, only that row's binding
                &&& final(ctx).transports.rows@.len() == old(ctx).transports.rows@.len()
                &&& forall|i: int|
                    0 <= i < old(ctx).transports.rows@.len() ==> if (old(
                        ctx,
                    ).transports.rows@[i].user_id == u.id && old(
                        ctx,
                    ).transports.rows@[i].transport_type@ == "telegram"@) {
                        rebound_to(
                            old(ctx).transports.rows@[i],
                            #[trigger] final(ctx).transports.rows@[i],
                            message.chat.username,
                            cid,
                        )
                    } else {
                        final(ctx).transports.rows@[i] == old(ctx).transports.rows@[i]
                    }
            } else {
                // first contact: exactly one new, connected, bound row
                &&& final(ctx).transports.rows@.len() == old(ctx).transports.rows@.len() + 1
                &&& forall|i: int|
                    0 <= i < old(ctx).transports.rows@.len() ==> final(ctx).transports.rows@[i]
                        == old(ctx).transports.rows@[i]
                &&& final(ctx).transports.rows@.last().user_id == u.id
                &&& final(ctx).transports.rows@.last().transport_type@ == "telegram"@
                &&& final(ctx).transports.rows@.last().connected
                &&& final(ctx).transports.rows@.last().chat_id matches Some(c) && c@ == cid
                &&& final(ctx).transports.rows@.last().username is None
            }
        },
{
    let text = match &message.text {
        None => {
            return Ok(BotReply::Ignored);
        },
        Some(t) => t,
    };
    let open_id = match parse_start_text(text.as_str()) {
        None => {
            return Ok(BotReply::Ignored);
        },
        Some(o) => o,
    };
    let user = match ctx.users.find_one_by_open_id(open_id.as_str()) {
        Err(e) => {
            return Err(e);
        },
        Ok(u) => u,
    };
    let chat_id = i64_to_string(message.chat.id as i64);
    let existing = ctx.transports.find_one_by_user_id_type(user.id, "telegram");
    match existing {
        Ok(_) => {
            let username = match &message.chat.username {
                Some(u) => Some(u.clone()),
                None => None,
            };
            ctx.transports.update_chat_id(user.id, username, "telegram", chat_id.as_str());
            proof {
                let j = choose|j: int|
                    0 <= j < old(ctx).transports.rows@.len() && (#[trigger] old(
                        ctx,
                    ).transports.rows@[j]).user_id == user.id && old(
                        ctx,
                    ).transports.rows@[j].transport_type@ == "telegram"@;
                assert(ctx.transports.rows@[j].user_id == user.id
                    && ctx.transports.rows@[j].transport_type@ == "telegram"@);
            }
        },
        Err(_) => {
            let mut transport = Transport::new(user.id, "telegram");
            transport.connected = true;
            transport.chat_id = Some(chat_id.clone());
            match ctx.transports.insert(&transport) {
                Ok(_) => {
                    proof {
                        let n = ctx.transports.rows@.len() - 1;
                        assert(ctx.transports.rows@[n].user_id == user.id
                            && ctx.transports.rows@[n].transport_type@ == "telegram"@);
                    }
                },
                Err(_) => {
                    proof {
                        assert(false);
                    }
                },
            }
        },
    }
    Ok(BotReply::Bound { chat_id })
}

} // verus!
