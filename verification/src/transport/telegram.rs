//! The chat-bot driver: formats the message text, frames the `sendMessage`
//! request body, and interprets the provider's response envelope.

use vstd::prelude::*;
use vstd::string::*;

use crate::json::json_escaped;
use crate::json::append_escaped;
use crate::strutil::push_char;

verus! {

pub struct Telegram {
    /// The full `sendMessage` endpoint of the provider.
    pub uri: String,
}

impl Telegram {
    pub fn new(url: &str, access_token: &str) -> (r: Telegram)
        ensures
            r.uri@ == url@ + "bot"@ + access_token@ + "/sendMessage"@,
    {
        let mut uri = String::from_str(url);
        uri.append("bot");
        uri.append(access_token);
        uri.append("/sendMessage");
        Telegram { uri }
    }
}

/// The delivered text: the body alone when the title is empty, otherwise the
/// title in brackets, a blank line, then the body.
pub open spec fn push_text_spec(title: Seq<char>, message: Seq<char>) -> Seq<char> {
    if title.len() == 0 {
        message
    } else {
        seq!['['] + title + seq![']', '\n', '\n'] + message
    }
}

pub fn format_push_text(title: &str, message: &str) -> (r: String)
    ensures
        r@ == push_text_spec(title@, message@),
{
    if title.unicode_len() == 0 {
        String::from_str(message)
    } else {
        let mut out = String::new();
        push_char(&mut out, '[');
        out.append(title);
        push_char(&mut out, ']');
        push_char(&mut out, '\n');
        push_char(&mut out, '\n');
        out.append(message);
        proof {
            assert(out@ =~= push_text_spec(title@, message@));
        }
        out
    }
}

/// The `sendMessage` request body for a chat and a text.
pub open spec fn send_body_spec(chat_id: Seq<char>, text: Seq<char>) -> Seq<char> {
    "{\"chat_id\":\""@ + json_escaped(chat_id) + "\",\"text\":\""@ + json_escaped(text) + "\"}"@
}

pub fn send_message_body(chat_id: &str, text: &str) -> (r: String)
    ensures
        r@ == send_body_spec(chat_id@, text@),
{
    let mut out = String::from_str("{\"chat_id\":\"");
    append_escaped(&mut out, chat_id);
    out.append("\",\"text\":\"");
    append_escaped(&mut out, text);
    out.append("\"}");
    proof {
        assert(out@ =~= send_body_spec(chat_id@, text@));
    }
    out
}

/// Reads the provider's response envelope: delivery failed exactly when the
/// provider reported `ok = false`, and its description is the reason.
pub fn interpret_send_response(ok: bool, description: Option<String>) -> (r: Result<(), String>)
    ensures
        ok <==> r is Ok,
        !ok ==> (r matches Err(e) && (match description {
            Some(d) => e@ == d@,
            None => e@ =~= Seq::<char>::empty(),
        })),
{
    if ok {
        Ok(())
    } else {
        match description {
            Some(d) => Err(d),
            None => Err(String::new()),
        }
    }
}

} // verus!
