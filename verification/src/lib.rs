//! A message-queue broker core: queue configuration, lease-based
//! reservation of messages, and retrying webhook delivery, with every
//! operation specified over a mathematical model of the broker's state.

pub mod api;
pub mod auth;
pub mod error;
pub mod ids;
pub mod message;
pub mod queue;
pub mod queue_info;
pub mod subscribers;
pub mod user;
pub mod mq;
pub mod pusher;
