use sps::config::{Config, Postgres, Redis, Server, Telegram};
use sps::job::pusher::{pop_due_tasks, worker_finish, worker_prepare, worker_skip, WorkerPlan};
use sps::job::telegram::{handle_message, BotReply, Chat, Message};
use sps::logic::get_me_logic::get_me;
use sps::logic::push_message_logic::push_message;
use sps::model::task::TaskState;
use sps::model::user::User;
use sps::model::{db_error_text, is_not_found_record_err, DbError};
use sps::service::Context;
use sps::transport::telegram::format_push_text;

fn demo_config() -> Config {
    Config {
        server: Server {
            port: 8080,
            access_expire: 3600,
            access_secret: String::from("SECRET-REDACTED"),
        },
        postgres: Postgres { dsn: String::from("postgres://localhost/demo") },
        redis: Redis {
            url: String::from("redis://localhost"),
            queue_name: String::from("task_queue"),
        },
        telegram: Telegram {
            url: String::from("https://example.invalid/"),
            token: String::from("SECRET-REDACTED"),
        },
    }
}

fn context_with_bound_user(chat: i32) -> (Context, String, String) {
    let mut ctx = Context::new(demo_config());
    let user = User::new("0x1111111111111111111111111111111111111111");
    let open_id = user.open_id.clone();
    let project_id = user.project_id.clone();
    ctx.users.insert(&user).unwrap();
    let start = format!("/start {}", open_id);
    let reply = handle_message(
        &mut ctx,
        &Message {
            message_id: 1,
            chat: Chat { id: chat, chat_type: String::from("private"), username: None },
            text: Some(start),
        },
    )
    .unwrap();
    assert!(matches!(reply, BotReply::Bound { .. }));
    (ctx, open_id, project_id)
}

#[test]
fn happy_path_delivers_once_and_marks_done() {
    let now = 1_700_000_000;
    let (mut ctx, _open_id, project_id) = context_with_bound_user(42);
    let resp = push_message(&mut ctx, &project_id, "T", "C", now).unwrap();
    assert_eq!(resp.status.as_str(), "queued");
    assert_eq!(ctx.messages.rows.len(), 1);
    assert_eq!(ctx.tasks.rows.len(), 1);

    let ids = pop_due_tasks(&mut ctx, now);
    assert_eq!(ids.len(), 1);
    let plan = worker_prepare(&mut ctx, ids[0], now, 3);
    match plan {
        WorkerPlan::Deliver { chat_id, title, content } => {
            assert_eq!(chat_id.as_str(), "42");
            assert_eq!(format_push_text(title.as_str(), content.as_str()).as_str(), "[T]\n\nC");
        },
        _ => panic!("expected a delivery"),
    }
    worker_finish(&mut ctx, ids[0], Ok(()), now, 3);
    let task = ctx.tasks.find_one_by_id(ids[0]).unwrap();
    assert_eq!(task.state, TaskState::Done);
    assert_eq!(task.retry_count, 0);
    assert_eq!(ctx.queue.len(), 0);
    assert!(ctx.in_flight.is_empty());
}

#[test]
fn retry_twice_then_succeed() {
    let mut now = 1_700_000_000;
    let (mut ctx, _o, project_id) = context_with_bound_user(7);
    push_message(&mut ctx, &project_id, "T", "C", now).unwrap();

    // first attempt fails
    let ids = pop_due_tasks(&mut ctx, now);
    assert_eq!(ids.len(), 1);
    let id = ids[0];
    assert!(matches!(worker_prepare(&mut ctx, id, now, 9), WorkerPlan::Deliver { .. }));
    worker_finish(&mut ctx, id, Err(String::from("connection reset")), now, 9);
    let task = ctx.tasks.find_one_by_id(id).unwrap();
    assert_eq!(task.state, TaskState::Retrying);
    assert_eq!(task.retry_count, 1);
    assert_eq!(task.reason.as_deref(), Some("connection reset"));
    // rescheduled with the back-off of retry count 0
    let fire1 = ctx.queue.entries[0].fire_at;
    assert!(fire1 >= now + 15 && fire1 < now + 45);

    // second attempt fails
    now = fire1;
    let ids = pop_due_tasks(&mut ctx, now);
    assert_eq!(ids, vec![id]);
    assert!(matches!(worker_prepare(&mut ctx, id, now, 0), WorkerPlan::Deliver { .. }));
    worker_finish(&mut ctx, id, Err(String::from("timeout")), now, 0);
    let task = ctx.tasks.find_one_by_id(id).unwrap();
    assert_eq!(task.retry_count, 2);
    // back-off of retry count 1
    let fire2 = ctx.queue.entries[0].fire_at;
    assert!(fire2 >= now + 16 && fire2 < now + 76);

    // third attempt succeeds
    now = fire2;
    let ids = pop_due_tasks(&mut ctx, now);
    assert_eq!(ids, vec![id]);
    assert!(matches!(worker_prepare(&mut ctx, id, now, 0), WorkerPlan::Deliver { .. }));
    worker_finish(&mut ctx, id, Ok(()), now, 0);
    let task = ctx.tasks.find_one_by_id(id).unwrap();
    assert_eq!(task.state, TaskState::Done);
    assert_eq!(task.retry_count, 2);
    assert_eq!(ctx.queue.len(), 0);
}

#[test]
fn fan_out_creates_one_task_per_deliverable_transport() {
    let now = 1_700_000_000;
    let (mut ctx, open_id, project_id) = context_with_bound_user(1);
    // a second deliverable transport of another type
    let user_id = ctx.users.rows[0].id;
    let mut second = sps::model::transport::Transport::new(user_id, "sms");
    second.connected = true;
    second.chat_id = Some(String::from("555"));
    ctx.transports.insert(&second).unwrap();
    // and one that is not deliverable (second user, never bound)
    let other = User::new("0x2222222222222222222222222222222222222222");
    ctx.users.insert(&other).unwrap();
    assert_eq!(open_id.len(), 36);

    push_message(&mut ctx, &project_id, "hi", "there", now).unwrap();
    assert_eq!(ctx.messages.rows.len(), 1);
    assert_eq!(ctx.tasks.rows.len(), 2);
    // both enqueued at the same fire time
    assert_eq!(ctx.queue.len(), 2);
    assert!(ctx.queue.entries.iter().all(|e| e.fire_at == now));
}

#[test]
fn unknown_transport_type_is_skipped_not_retried() {
    let now = 1_700_000_000;
    let (mut ctx, _o, project_id) = context_with_bound_user(1);
    let user_id = ctx.users.rows[0].id;
    let mut sms = sps::model::transport::Transport::new(user_id, "sms");
    sms.connected = true;
    sms.chat_id = Some(String::from("555"));
    ctx.transports.insert(&sms).unwrap();

    push_message(&mut ctx, &project_id, "T", "C", now).unwrap();
    let ids = pop_due_tasks(&mut ctx, now);
    assert_eq!(ids.len(), 2);
    let mut skipped = 0;
    let mut delivered = 0;
    for id in ids {
        match worker_prepare(&mut ctx, id, now, 0) {
            WorkerPlan::Skipped => {
                skipped += 1;
                let t = ctx.tasks.find_one_by_id(id).unwrap();
                // not retried: still pending, never re-queued
                assert_eq!(t.state, TaskState::Pending);
                assert_eq!(t.retry_count, 0);
            },
            WorkerPlan::Deliver { .. } => {
                delivered += 1;
                worker_finish(&mut ctx, id, Ok(()), now, 0);
            },
            _ => panic!("unexpected plan"),
        }
    }
    assert_eq!((skipped, delivered), (1, 1));
    assert_eq!(ctx.queue.len(), 0);
    assert_eq!(ctx.skipped.len(), 1);
}

#[test]
fn missing_task_row_is_abandoned() {
    let mut ctx = Context::new(demo_config());
    ctx.tasks.next_id = 10;
    ctx.in_flight.push(5);
    let plan = worker_prepare(&mut ctx, 5, 1_700_000_000, 0);
    assert!(matches!(plan, WorkerPlan::Lost));
    assert!(ctx.in_flight.is_empty());
    assert_eq!(ctx.skipped, vec![5]);
}

#[test]
fn missing_message_row_reschedules() {
    let now = 1_700_000_000;
    let (mut ctx, _o, project_id) = context_with_bound_user(8);
    push_message(&mut ctx, &project_id, "T", "C", now).unwrap();
    // the message disappears (simulating a torn read elsewhere)
    ctx.messages.rows.clear();
    let ids = pop_due_tasks(&mut ctx, now);
    let plan = worker_prepare(&mut ctx, ids[0], now, 4);
    assert!(matches!(plan, WorkerPlan::Rescheduled));
    let t = ctx.tasks.find_one_by_id(ids[0]).unwrap();
    assert_eq!(t.state, TaskState::Retrying);
    assert_eq!(t.retry_count, 1);
    assert_eq!(ctx.queue.len(), 1);
}

#[test]
fn explicit_skip_abandons_the_id() {
    let now = 1_700_000_000;
    let (mut ctx, _o, project_id) = context_with_bound_user(8);
    push_message(&mut ctx, &project_id, "T", "C", now).unwrap();
    let ids = pop_due_tasks(&mut ctx, now);
    worker_skip(&mut ctx, ids[0]);
    assert!(ctx.in_flight.is_empty());
    assert_eq!(ctx.skipped, ids);
    // the task stays pending and unscheduled
    let t = ctx.tasks.find_one_by_id(ids[0]).unwrap();
    assert_eq!(t.state, TaskState::Pending);
    assert_eq!(ctx.queue.len(), 0);
}

#[test]
fn push_with_unknown_project_is_refused() {
    let mut ctx = Context::new(demo_config());
    let r = push_message(&mut ctx, "no-such-project", "T", "C", 1);
    assert_eq!(r.err(), Some(DbError::NotFound));
    assert_eq!(ctx.messages.rows.len(), 0);
    assert_eq!(ctx.tasks.rows.len(), 0);
}

#[test]
fn inbound_start_binds_then_rebinds_in_place() {
    let mut ctx = Context::new(demo_config());
    let user = User::new("0x3333333333333333333333333333333333333333");
    let open_id = user.open_id.clone();
    ctx.users.insert(&user).unwrap();

    let msg = |chat: i32, text: &str| Message {
        message_id: 1,
        chat: Chat { id: chat, chat_type: String::from("private"), username: Some(String::from("ada")) },
        text: Some(String::from(text)),
    };

    let start = format!("/start {}", open_id);
    let reply = handle_message(&mut ctx, &msg(42, &start)).unwrap();
    match reply {
        BotReply::Bound { chat_id } => assert_eq!(chat_id.as_str(), "42"),
        _ => panic!("expected a binding"),
    }
    assert_eq!(ctx.transports.rows.len(), 1);
    assert!(ctx.transports.rows[0].connected);
    assert_eq!(ctx.transports.rows[0].chat_id.as_deref(), Some("42"));

    // the same command again updates in place: still exactly one row
    let reply = handle_message(&mut ctx, &msg(43, &start)).unwrap();
    assert!(matches!(reply, BotReply::Bound { .. }));
    assert_eq!(ctx.transports.rows.len(), 1);
    assert_eq!(ctx.transports.rows[0].chat_id.as_deref(), Some("43"));
    assert_eq!(ctx.transports.rows[0].username.as_deref(), Some("ada"));

    // non-commands are ignored; unknown open ids are reported absent
    assert!(matches!(handle_message(&mut ctx, &msg(1, "hello")).unwrap(), BotReply::Ignored));
    let mut silent = msg(1, "x");
    silent.text = None;
    assert!(matches!(handle_message(&mut ctx, &silent).unwrap(), BotReply::Ignored));
    let r = handle_message(&mut ctx, &msg(1, "/start 00000000-0000-0000-0000-000000000000"));
    assert_eq!(r.err(), Some(DbError::NotFound));
    assert_eq!(ctx.transports.rows.len(), 1);
}

#[test]
fn get_me_lists_the_transports() {
    let (ctx, open_id, project_id) = context_with_bound_user(42);
    let me = get_me(&ctx, "0x1111111111111111111111111111111111111111").unwrap();
    assert_eq!(me.open_id.as_str(), open_id.as_str());
    assert_eq!(me.project_id.as_str(), project_id.as_str());
    assert_eq!(me.transports.len(), 1);
    assert_eq!(me.transports[0].transport_type.as_str(), "telegram");
    assert!(me.transports[0].connected);
    assert_eq!(me.transports[0].chat_id.as_deref(), Some("42"));
    assert_eq!(get_me(&ctx, "0x9999").err(), Some(DbError::NotFound));
}

#[test]
fn generated_credentials_have_the_documented_shape() {
    let u = User::new("0xabc");
    assert_eq!(u.open_id.len(), 36);
    assert_eq!(u.project_id.len(), 45);
    assert!(u.project_id.chars().all(|c| c.is_ascii_alphanumeric()));
    let v = User::new("0xabc");
    // two generations collide only with negligible probability
    assert_ne!(u.open_id, v.open_id);
    assert_ne!(u.project_id, v.project_id);
}

#[test]
fn store_errors_distinguish_not_found() {
    assert!(is_not_found_record_err(&DbError::NotFound));
    assert!(!is_not_found_record_err(&DbError::Conflict));
    assert_eq!(db_error_text(&DbError::NotFound).as_str(), "record not found");
    assert_eq!(db_error_text(&DbError::Conflict).as_str(), "unique constraint violated");
}

#[test]
fn clock_reads_a_recent_timestamp() {
    let t = sps::clock::now_ts();
    assert!(t > 1_600_000_000);
}
