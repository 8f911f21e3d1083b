//! The library's error type.
use vstd::prelude::*;

use crate::text::{append_str, string_of};

verus! {

/// Errors that the library reports, each with its message.
#[derive(Debug, Clone, PartialEq, Eq)]
pub enum CrabClawError {
    Config(String),
    Io(String),
    Serialization(String),
    Network(String),
    Auth(String),
    Api(String),
    RateLimit(String),
    Http(String),
}

/// The text that describes an error.
pub open spec fn error_text(e: CrabClawError) -> Seq<char> {
    match e {
        CrabClawError::Config(m) => "config error: "@ + m@,
        CrabClawError::Io(m) => "io error: "@ + m@,
        CrabClawError::Serialization(m) => "serialization error: "@ + m@,
        CrabClawError::Network(m) => "network error: "@ + m@,
        CrabClawError::Auth(m) => "auth error: "@ + m@,
        CrabClawError::Api(m) => "api error: "@ + m@,
        CrabClawError::RateLimit(m) => "rate limited: "@ + m@,
        CrabClawError::Http(m) => "http error: "@ + m@,
    }
}

impl CrabClawError {
    /// The text that describes the error.
    pub fn message(&self) -> (r: String)
        ensures
            r@ == error_text(*self),
    {
        let mut v: Vec<char> = Vec::new();
        let m = match self {
            CrabClawError::Config(m) => {
                append_str(&mut v, "config error: ");
                m
            },
            CrabClawError::Io(m) => {
                append_str(&mut v, "io error: ");
                m
            },
            CrabClawError::Serialization(m) => {
                append_str(&mut v, "serialization error: ");
                m
            },
            CrabClawError::Network(m) => {
                append_str(&mut v, "network error: ");
                m
            },
            CrabClawError::Auth(m) => {
                append_str(&mut v, "auth error: ");
                m
            },
            CrabClawError::Api(m) => {
                append_str(&mut v, "api error: ");
                m
            },
            CrabClawError::RateLimit(m) => {
                append_str(&mut v, "rate limited: ");
                m
            },
            CrabClawError::Http(m) => {
                append_str(&mut v, "http error: ");
                m
            },
        };
        append_str(&mut v, m.as_str());
        string_of(&v)
    }
}

} // verus!
