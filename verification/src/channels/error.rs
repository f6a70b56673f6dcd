//! Channel errors.

use vstd::prelude::*;

use crate::text::{chars_of, push_str, string_of};

verus! {

/// What can go wrong in a channel. Errors of I/O, JSON, YAML and HTTP libraries
/// are carried as their message text.
#[derive(Debug)]
pub enum ChannelError {
    /// The channel failed to start.
    StartFailed(String),
    /// The channel failed to stop.
    StopFailed(String),
    /// A message could not be sent.
    SendFailed(String),
    /// Configuration error.
    Config(String),
    /// Platform API error.
    Api(String),
    /// Authentication error.
    Auth(String),
    /// Network error.
    Network(String),
    /// Permission error.
    Permission(String),
    /// A message could not be parsed.
    Parse(String),
    /// I/O error.
    Io(String),
    /// JSON error.
    Json(String),
    /// YAML error.
    Yaml(String),
    /// HTTP error.
    Http(String),
}

/// The result of a channel operation.
pub type ChannelResult<T> = Result<T, ChannelError>;

/// The label that each kind of error is displayed with, and its detail.
pub open spec fn error_parts(e: ChannelError) -> (Seq<char>, Seq<char>) {
    match e {
        ChannelError::StartFailed(s) => ("通道启动失败: "@, s@),
        ChannelError::StopFailed(s) => ("通道停止失败: "@, s@),
        ChannelError::SendFailed(s) => ("消息发送失败: "@, s@),
        ChannelError::Config(s) => ("配置错误: "@, s@),
        ChannelError::Api(s) => ("API 错误: "@, s@),
        ChannelError::Auth(s) => ("认证错误: "@, s@),
        ChannelError::Network(s) => ("网络错误: "@, s@),
        ChannelError::Permission(s) => ("权限错误: "@, s@),
        ChannelError::Parse(s) => ("消息解析错误: "@, s@),
        ChannelError::Io(s) => ("IO 错误: "@, s@),
        ChannelError::Json(s) => ("JSON 错误: "@, s@),
        ChannelError::Yaml(s) => ("YAML 错误: "@, s@),
        ChannelError::Http(s) => ("HTTP 错误: "@, s@),
    }
}

impl ChannelError {
    /// The error's display text: its label followed by its detail.
    pub fn message(&self) -> (m: String)
        ensures
            m@ == error_parts(*self).0 + error_parts(*self).1,
    {
        let (label, detail) = match self {
            ChannelError::StartFailed(s) => ("通道启动失败: ", s),
            ChannelError::StopFailed(s) => ("通道停止失败: ", s),
            ChannelError::SendFailed(s) => ("消息发送失败: ", s),
            ChannelError::Config(s) => ("配置错误: ", s),
            ChannelError::Api(s) => ("API 错误: ", s),
            ChannelError::Auth(s) => ("认证错误: ", s),
            ChannelError::Network(s) => ("网络错误: ", s),
            ChannelError::Permission(s) => ("权限错误: ", s),
            ChannelError::Parse(s) => ("消息解析错误: ", s),
            ChannelError::Io(s) => ("IO 错误: ", s),
            ChannelError::Json(s) => ("JSON 错误: ", s),
            ChannelError::Yaml(s) => ("YAML 错误: ", s),
            ChannelError::Http(s) => ("HTTP 错误: ", s),
        };
        let mut v = chars_of(label);
        push_str(&mut v, detail.as_str());
        string_of(v.as_slice())
    }
}

} // verus!
