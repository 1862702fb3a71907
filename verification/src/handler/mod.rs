//! The HTTP layer's verified parts: bearer-token authorization and the JSON
//! response envelope. Routing and the server itself stay in the surrounding
//! program.

pub mod middleware;
