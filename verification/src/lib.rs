//! A push-notification service core: users register transports (channels such
//! as a chat bot), obtain a per-user project credential, and submit titled
//! messages; the service fans each message out to every deliverable transport
//! of that user as durable delivery tasks, scheduled through a sorted delay
//! queue, delivered by a worker pool, and retried on failure with jittered
//! exponential back-off.

pub mod clock;
pub mod config;
pub mod handler;
pub mod job;
pub mod json;
pub mod logic;
pub mod model;
pub mod queue;
pub mod service;
pub mod strutil;
pub mod transport;
pub mod types;
