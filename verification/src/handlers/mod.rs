//! What the plugin does with the events of its host.

pub mod chat_handler;
