//! The closed error taxonomy shared by every operation: logic errors, sent as
//! they are, and internal errors, whose cause stays in the local log.

use vstd::prelude::*;
use crate::wire::{decimal, json_string, json_string_of, render_decimal};

verus! {

/// The kinds of logic error a caller can branch on.
#[derive(Clone, Copy, PartialEq, Eq, Structural, Debug)]
pub enum ErrorKey {
    Internal,
    Auth,
}

impl ErrorKey {
    pub open spec fn spec_label(self) -> Seq<char> {
        match self {
            ErrorKey::Internal => "INTERNAL"@,
            ErrorKey::Auth => "AUTH"@,
        }
    }

    /// The stable name of the kind.
    pub fn label(&self) -> (r: String)
        ensures
            r@ == self.spec_label(),
    {
        match self {
            ErrorKey::Internal => String::from_str("INTERNAL"),
            ErrorKey::Auth => String::from_str("AUTH"),
        }
    }
}

/// The code that every internal error carries on the wire.
pub const INTERNAL_CODE: i32 = 500;

/// The one error type of every operation.
#[derive(Debug)]
pub enum Error {
    /// An expected failure of an operation: its message and code are sent as
    /// they are.
    LogicError { msg: String, key: i32 },
    /// An unexpected failure. The description of the lower-level cause, if
    /// any, only ever reaches the local log.
    InternalError { msg: String, source: Option<String> },
}

/// The message that every internal error carries on the wire.
pub open spec fn internal_wire_message() -> Seq<char> {
    "內部錯誤"@
}

/// The wire object `{"code":<code>,"message":<message>}`.
pub open spec fn error_json(code: int, message: Seq<char>) -> Seq<char> {
    "{\"code\":"@ + decimal(code) + ",\"message\":"@ + json_string_of(message) + "}"@
}

/// Whether `t` occurs in `s` as a contiguous piece.
pub open spec fn contains(s: Seq<char>, t: Seq<char>) -> bool {
    exists|i: int| 0 <= i && i + t.len() <= s.len() && #[trigger] s.subrange(i, i + t.len()) == t
}

impl Error {
    /// The code sent to remote callers.
    pub open spec fn spec_code(&self) -> int {
        match self {
            Error::LogicError { key, .. } => *key as int,
            Error::InternalError { .. } => INTERNAL_CODE as int,
        }
    }

    /// The message sent to remote callers.
    pub open spec fn spec_wire_message(&self) -> Seq<char> {
        match self {
            Error::LogicError { msg, .. } => msg@,
            Error::InternalError { .. } => internal_wire_message(),
        }
    }

    /// The error as sent to remote callers.
    pub open spec fn spec_json(&self) -> Seq<char> {
        error_json(self.spec_code(), self.spec_wire_message())
    }

    /// The line written to the local log, which keeps the cause.
    pub open spec fn spec_log_record(&self) -> Seq<char> {
        match self {
            Error::LogicError { msg, key } => "邏輯錯誤："@ + msg@ + "，錯誤種類："@ + decimal(
                *key as int,
            ),
            Error::InternalError { msg, source } => "內部錯誤："@ + msg@ + "，原始錯誤："@ + match source {
                Some(c) => c@,
                None => "無"@,
            },
        }
    }

    pub fn new_logic(msg: &str, key: i32) -> (r: Error)
        ensures
            r matches Error::LogicError { msg: m, key: k } && m@ == msg@ && k == key,
    {
        Error::LogicError { msg: String::from_str(msg), key }
    }

    /// An internal error whose lower-level cause is described by `err`.
    pub fn new_internal(msg: &str, err: &str) -> (r: Error)
        ensures
            r matches Error::InternalError { msg: m, source: Some(c) } && m@ == msg@ && c@
                == err@,
    {
        Error::InternalError { msg: String::from_str(msg), source: Some(String::from_str(err)) }
    }

    pub fn internal_without_source(msg: &str) -> (r: Error)
        ensures
            r matches Error::InternalError { msg: m, source: None } && m@ == msg@,
    {
        Error::InternalError { msg: String::from_str(msg), source: None }
    }

    pub fn code(&self) -> (r: i32)
        ensures
            r as int == self.spec_code(),
    {
        match self {
            Error::LogicError { key, .. } => *key,
            Error::InternalError { .. } => INTERNAL_CODE,
        }
    }

    pub fn wire_message(&self) -> (r: String)
        ensures
            r@ == self.spec_wire_message(),
    {
        match self {
            Error::LogicError { msg, .. } => msg.clone(),
            Error::InternalError { .. } => String::from_str("內部錯誤"),
        }
    }

    /// The error as sent to remote callers: its code and its message, and for
    /// an internal error nothing of its cause.
    pub fn to_json(&self) -> (r: String)
        ensures
            r@ == self.spec_json(),
    {
        let mut r = String::from_str("{\"code\":");
        let code = render_decimal(self.code());
        r.append(code.as_str());
        r.append(",\"message\":");
        let message = self.wire_message();
        let quoted = json_string(message.as_str());
        r.append(quoted.as_str());
        r.append("}");
        assert(r@ =~= self.spec_json());
        r
    }

    /// The error as written to the local log.
    pub fn log_line(&self) -> (r: String)
        ensures
            r@ == self.spec_log_record(),
    {
        match self {
            Error::LogicError { msg, key } => {
                let mut r = String::from_str("邏輯錯誤：");
                r.append(msg.as_str());
                r.append("，錯誤種類：");
                let k = render_decimal(*key);
                r.append(k.as_str());
                assert(r@ =~= self.spec_log_record());
                r
            },
            Error::InternalError { msg, source } => {
                let mut r = String::from_str("內部錯誤：");
                r.append(msg.as_str());
                r.append("，原始錯誤：");
                match source {
                    Some(c) => r.append(c.as_str()),
                    None => r.append("無"),
                }
                assert(r@ =~= self.spec_log_record());
                r
            },
        }
    }
}

/// Redaction: every internal error has the same wire form, whatever its
/// message and cause, so a cause reaches the wire only where its text is
/// already a piece of that fixed form; its log record always holds the text
/// of its cause.
pub proof fn lemma_internal_cause_redacted(e: Error, f: Error)
    requires
        e is InternalError,
        f is InternalError,
    ensures
        e.spec_json() == f.spec_json(),
        e.spec_json() == error_json(INTERNAL_CODE as int, internal_wire_message()),
        e matches Error::InternalError { source: Some(c), .. } ==> (!contains(
            error_json(INTERNAL_CODE as int, internal_wire_message()),
            c@,
        ) ==> !contains(e.spec_json(), c@)),
        e matches Error::InternalError { source: Some(c), .. } ==> contains(
            e.spec_log_record(),
            c@,
        ),
{
    if let Error::InternalError { msg, source: Some(c) } = e {
        let s = e.spec_log_record();
        let i = ("內部錯誤："@ + msg@ + "，原始錯誤："@).len() as int;
        assert(s.subrange(i, i + c@.len()) =~= c@);
    }
}

} // verus!
