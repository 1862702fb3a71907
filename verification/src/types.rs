//! Request and response bodies of the HTTP surface, as plain values.

use vstd::prelude::*;

verus! {

pub struct AuthRequest {
    pub address: String,
    pub timestamp: i64,
    pub signature: String,
}

pub struct AuthResponse {
    pub access_token: String,
}

pub struct Transport {
    pub transport_type: String,
    pub chat_id: Option<String>,
    pub connected: bool,
}

pub struct GetMeResponse {
    pub id: i64,
    pub open_id: String,
    pub project_id: String,
    pub transports: Vec<Transport>,
}

pub struct PushMessageRequest {
    pub title: String,
    pub content: String,
}

pub struct PushMessageResponse {
    pub status: String,
}

} // verus!
