//! The long-running jobs' decision logic: the dispatcher that drains the
//! delay queue and round-robins ids across workers, the worker steps that
//! drive a task through delivery, retry or skip, and the inbound bot poller
//! that binds chats to users. The surrounding program owns the loops, the
//! channels and the sleeps; every decision and state change is verified here.

pub mod pusher;
pub mod telegram;
