//! The ingestion endpoints' logic: wallet authentication, the profile read,
//! and push submission. The surrounding program parses HTTP and hands these
//! functions plain values.

pub mod auth_logic;
pub mod get_me_logic;
pub mod push_message_logic;
