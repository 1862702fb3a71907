//! Transport drivers: the message formatting and response interpretation of
//! each channel. The surrounding program performs the HTTP calls; everything a
//! driver decides or composes is verified here.

pub mod telegram;
