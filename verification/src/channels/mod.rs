//! The chat channels: message types, errors, permission rules, and the
//! content extraction and reply planning of each platform.

pub mod dingtalk;
pub mod email;
pub mod email_fetch;
pub mod email_parse;
pub mod email_send;
pub mod error;
pub mod feishu;
pub mod manager;
pub mod media;
pub mod messages;
