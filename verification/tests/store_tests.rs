use sps::model::message::{Message, MessageModel};
use sps::model::task::{Task, TaskModel, TaskState};
use sps::model::token::{Token, TokenModel};
use sps::model::transport::{telegram_type, Transport, TransportModel};
use sps::model::user::{gen_project_id, User, UserModel};
use sps::model::DbError;

#[test]
fn user_store_assigns_ids_and_guards_unique_columns() {
    let mut users = UserModel::new();
    let a = User::new("0xaaa");
    let id = users.insert(&a).unwrap();
    assert_eq!(id, 1);
    assert_eq!(users.find_one_by_wallet_address("0xaaa").unwrap().id, 1);
    assert_eq!(users.find_one_by_open_id(&a.open_id).unwrap().id, 1);
    assert_eq!(users.find_one_by_project_id(&a.project_id).unwrap().id, 1);
    assert_eq!(users.find_one_by_wallet_address("0xbbb").err(), Some(DbError::NotFound));
    // the same wallet cannot register twice
    let again = User::new("0xaaa");
    assert_eq!(users.insert(&again).err(), Some(DbError::Conflict));
    assert_eq!(users.rows.len(), 1);
}

#[test]
fn transport_store_keeps_one_row_per_user_and_type() {
    let mut transports = TransportModel::new();
    let t = Transport::new(9, telegram_type());
    let id = transports.insert(&t).unwrap();
    assert_eq!(id, 1);
    assert_eq!(transports.find_one_by_id(1).unwrap().user_id, 9);
    assert_eq!(transports.insert(&Transport::new(9, "telegram")).err(), Some(DbError::Conflict));
    transports.insert(&Transport::new(9, "sms")).unwrap();
    transports.insert(&Transport::new(10, "telegram")).unwrap();
    let of_nine = transports.find_all_by_user_id(9);
    assert_eq!(of_nine.len(), 2);
    assert_eq!(of_nine[0].transport_type.as_str(), "telegram");
    assert_eq!(of_nine[1].transport_type.as_str(), "sms");
    let found = transports.find_one_by_user_id_type(9, "sms").unwrap();
    assert_eq!(found.id, 2);
    assert_eq!(transports.find_one_by_user_id_type(11, "telegram").err(), Some(DbError::NotFound));
}

#[test]
fn rebinding_updates_only_the_binding_columns() {
    let mut transports = TransportModel::new();
    let mut t = Transport::new(9, "telegram");
    t.connected = true;
    transports.insert(&t).unwrap();
    transports.update_chat_id(9, Some(String::from("ada")), "telegram", "77");
    let row = transports.find_one_by_id(1).unwrap();
    assert_eq!(row.chat_id.as_deref(), Some("77"));
    assert_eq!(row.username.as_deref(), Some("ada"));
    assert!(row.connected);
    // untouched pairs stay as they are
    transports.update_chat_id(9, None, "sms", "88");
    assert_eq!(transports.find_one_by_id(1).unwrap().chat_id.as_deref(), Some("77"));
}

#[test]
fn message_store_lists_newest_first() {
    let mut messages = MessageModel::new();
    messages.insert(&Message::new(4, "first", "a"));
    messages.insert(&Message::new(4, "second", "b"));
    messages.insert(&Message::new(5, "other user", "c"));
    let mine = messages.find_all_by_user_id(4);
    assert_eq!(mine.len(), 2);
    assert_eq!(mine[0].title.as_str(), "second");
    assert_eq!(mine[1].title.as_str(), "first");
    assert_eq!(messages.find_one_by_id(3).unwrap().user_id, 5);
    assert_eq!(messages.find_one_by_id(9).err(), Some(DbError::NotFound));
}

#[test]
fn task_store_walks_the_state_machine() {
    let mut tasks = TaskModel::new();
    let mut tr = Transport::new(4, "telegram");
    tr.chat_id = Some(String::from("42"));
    let id = tasks.insert(&Task::new(7, 4, &tr));
    let t = tasks.find_one_by_id(id).unwrap();
    assert_eq!(t.state, TaskState::Pending);
    assert_eq!(t.chat_id.as_str(), "42");
    assert_eq!(t.message_id, 7);
    assert_eq!(t.transport_type.as_str(), "telegram");

    tasks.update_retry_state(id, "no route");
    let t = tasks.find_one_by_id(id).unwrap();
    assert_eq!(t.state, TaskState::Retrying);
    assert_eq!(t.retry_count, 1);
    assert_eq!(t.reason.as_deref(), Some("no route"));

    tasks.set_done(id);
    assert_eq!(tasks.find_one_by_id(id).unwrap().state, TaskState::Done);
}

#[test]
fn task_states_have_schema_names() {
    assert_eq!(TaskState::Pending.as_str(), "pending");
    assert_eq!(TaskState::Retrying.as_str(), "retrying");
    assert_eq!(TaskState::Fail.as_str(), "fail");
    assert_eq!(TaskState::Done.as_str(), "done");
}

#[test]
fn token_store_finds_by_user_and_by_token() {
    let mut tokens = TokenModel::new();
    let id = tokens.insert(&Token::new(3, "tok-a"));
    tokens.insert(&Token::new(4, "tok-b"));
    assert_eq!(id, 1);
    assert_eq!(tokens.find_one_by_user_id(3).unwrap().access_token.as_str(), "tok-a");
    assert_eq!(tokens.find_one_by_access_token("tok-b").unwrap().user_id, 4);
    assert_eq!(tokens.find_one_by_user_id(5).err(), Some(DbError::NotFound));
    assert_eq!(tokens.find_one_by_access_token("nope").err(), Some(DbError::NotFound));
}

#[test]
fn project_ids_are_alphanumeric_and_fresh() {
    let a = gen_project_id();
    let b = gen_project_id();
    assert_eq!(a.len(), 45);
    assert!(a.chars().all(|c| c.is_ascii_alphanumeric()));
    assert_ne!(a, b);
}
