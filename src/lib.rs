//! A conversation engine that drives a chat-completion provider through a
//! bounded tool-use loop, with verified transcript handling and history stores.

pub mod chat;
pub mod dto;
pub mod funcs;
pub mod history;
pub mod payload;

