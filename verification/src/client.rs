//! The client's side of the protocol: limits, errors, and which errors pass.

use vstd::prelude::*;
use vstd::string::*;

use crate::path::{join_path, joined_path};
use crate::server::{MAX_LINE_BYTES, SOCKET_NAME};
use crate::text::{concat2, concat3, decimal, u64_to_string};

verus! {

/// Kinds of I/O failures that are told apart.
#[derive(Debug, Clone, Copy, PartialEq, Eq, Structural)]
pub enum IoKind {
    ConnectionReset,
    ConnectionAborted,
    BrokenPipe,
    NotConnected,
    WouldBlock,
    TimedOut,
    Interrupted,
    Other,
}

/// An I/O failure.
#[derive(Debug, Clone, PartialEq, Eq)]
pub struct IoFailure {
    pub kind: IoKind,
    pub message: String,
}

/// Why a request got no response.
#[derive(Debug, Clone, PartialEq, Eq)]
pub enum ClientError {
    Connect(IoFailure),
    Io(IoFailure),
    Protocol(String),
}

impl ClientError {
    /// The message shown for the error.
    pub open spec fn text(self) -> Seq<char> {
        match self {
            ClientError::Connect(e) => "connect failed: "@ + e.message@,
            ClientError::Io(e) => "io error: "@ + e.message@,
            ClientError::Protocol(m) => "protocol error: "@ + m@,
        }
    }

    /// The message shown for the error.
    pub fn to_text(&self) -> (r: String)
        ensures
            r@ == self.text(),
    {
        match self {
            ClientError::Connect(e) => concat2("connect failed: ", e.message.as_str()),
            ClientError::Io(e) => concat2("io error: ", e.message.as_str()),
            ClientError::Protocol(m) => concat2("protocol error: ", m.as_str()),
        }
    }

    /// The server is gone: it cannot be connected to, or the connection broke.
    pub open spec fn is_gone(self) -> bool {
        match self {
            ClientError::Connect(_) => true,
            ClientError::Io(e) => e.kind == IoKind::ConnectionReset || e.kind
                == IoKind::ConnectionAborted || e.kind == IoKind::BrokenPipe || e.kind
                == IoKind::NotConnected,
            ClientError::Protocol(_) => false,
        }
    }

    /// The error may pass by itself.
    pub open spec fn may_pass(self) -> bool {
        match self {
            ClientError::Connect(_) => true,
            ClientError::Io(e) => e.kind == IoKind::WouldBlock || e.kind == IoKind::TimedOut
                || e.kind == IoKind::Interrupted || e.kind == IoKind::ConnectionReset || e.kind
                == IoKind::ConnectionAborted,
            ClientError::Protocol(_) => false,
        }
    }

    /// Whether the server is gone.
    pub fn is_connect_like(&self) -> (r: bool)
        ensures
            r == self.is_gone(),
    {
        match self {
            ClientError::Connect(_) => true,
            ClientError::Io(e) => match e.kind {
                IoKind::ConnectionReset => true,
                IoKind::ConnectionAborted => true,
                IoKind::BrokenPipe => true,
                IoKind::NotConnected => true,
                _ => false,
            },
            ClientError::Protocol(_) => false,
        }
    }

    /// Whether the error may pass by itself.
    pub fn is_transient(&self) -> (r: bool)
        ensures
            r == self.may_pass(),
    {
        match self {
            ClientError::Connect(_) => true,
            ClientError::Io(e) => match e.kind {
                IoKind::WouldBlock => true,
                IoKind::TimedOut => true,
                IoKind::Interrupted => true,
                IoKind::ConnectionReset => true,
                IoKind::ConnectionAborted => true,
                _ => false,
            },
            ClientError::Protocol(_) => false,
        }
    }
}

/// Whether a request line of `len` bytes may be sent.
pub fn check_request_len(len: usize) -> (r: Result<(), ClientError>)
    ensures
        match r {
            Ok(_) => len <= MAX_LINE_BYTES,
            Err(e) => len > MAX_LINE_BYTES && e is Protocol && e->Protocol_0@
                == "request too large"@,
        },
{
    if len > MAX_LINE_BYTES {
        Err(ClientError::Protocol("request too large".to_owned()))
    } else {
        Ok(())
    }
}

/// Whether `len` bytes that were read, one more than the limit at most, are a
/// response line.
pub fn check_response_len(len: usize) -> (r: Result<(), ClientError>)
    ensures
        match r {
            Ok(_) => 0 < len <= MAX_LINE_BYTES,
            Err(e) => if len == 0 {
                e is Protocol && e->Protocol_0@ == "empty response from server"@
            } else {
                len > MAX_LINE_BYTES && e is Protocol && e->Protocol_0@
                    == "response line too large"@
            },
        },
{
    if len == 0 {
        Err(ClientError::Protocol("empty response from server".to_owned()))
    } else if len > MAX_LINE_BYTES {
        Err(ClientError::Protocol("response line too large".to_owned()))
    } else {
        Ok(())
    }
}

/// A line that the server read.
#[derive(Debug, Clone, PartialEq, Eq)]
pub enum LineRead {
    Eof,
    TooLong(String),
    Line,
}

/// What `len` bytes that the server read, one more than the limit at most, are.
pub fn classify_line(len: usize) -> (r: LineRead)
    ensures
        if len == 0 {
            r is Eof
        } else if len > MAX_LINE_BYTES {
            r matches LineRead::TooLong(m) && m@ == "request line exceeds "@ + decimal(
                MAX_LINE_BYTES as nat,
            ) + " bytes"@
        } else {
            r is Line
        },
{
    if len == 0 {
        LineRead::Eof
    } else if len > MAX_LINE_BYTES {
        LineRead::TooLong(
            concat3(
                "request line exceeds ",
                u64_to_string(MAX_LINE_BYTES as u64).as_str(),
                " bytes",
            ),
        )
    } else {
        LineRead::Line
    }
}

/// Whether a response line of `len` bytes may be sent.
pub fn check_reply_len(len: usize) -> (r: Result<(), String>)
    ensures
        match r {
            Ok(_) => len <= MAX_LINE_BYTES,
            Err(m) => len > MAX_LINE_BYTES && m@ == "response too large"@,
        },
{
    if len > MAX_LINE_BYTES {
        Err("response too large".to_owned())
    } else {
        Ok(())
    }
}

/// The control socket below a runtime directory.
pub fn socket_in_runtime(runtime_dir: &str) -> (r: String)
    ensures
        r@ == joined_path(runtime_dir@, "record-ui.sock"@),
{
    join_path(runtime_dir, SOCKET_NAME)
}

} // verus!
