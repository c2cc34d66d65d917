//! Per-account mailbox manager of a private-messaging protocol: quota-tracked
//! inboxes and outboxes, and the handler that answers Put and Post requests.

pub mod name;
pub mod name_map;
pub mod mailbox;
pub mod wire;
pub mod account;
pub mod store;
pub mod request;
pub mod manager;
