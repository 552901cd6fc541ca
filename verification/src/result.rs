//! The envelope in which every reply of the service is sent.

use vstd::prelude::*;

verus! {

/// A reply: a code, a message and, on success, the data.
#[derive(Debug, PartialEq, Eq)]
pub struct CqResult<T> {
    pub code: i32,
    pub message: String,
    pub data: Option<T>,
}

/// The data of a reply that carries none.
#[derive(Debug, PartialEq, Eq)]
pub struct Nothing;

impl<T> CqResult<T> {
    /// The reply that hands `data` out: code 200 and the message `Success`.
    pub fn success(data: T) -> (reply: Self)
        ensures
            reply.code == 200,
            reply.message@ == "Success"@,
            reply.data == Some(data),
    {
        CqResult { code: 200, message: "Success".to_owned(), data: Some(data) }
    }

    /// The reply that reports a failure with `code` and `message`, without
    /// data.
    pub fn error(code: i32, message: &str) -> (reply: Self)
        ensures
            reply.code == code,
            reply.message@ == message@,
            reply.data is None,
    {
        CqResult { code, message: message.to_owned(), data: None }
    }
}

} // verus!
