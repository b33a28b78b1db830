//! The command protocol between callers and the worker: the closed set of
//! commands, what may become of a command on its way, and the error texts.

use vstd::prelude::*;
use vstd::string::*;

verus! {

/// A request to the worker. The identifier `0` stands for "not registered"
/// and never travels as a real identifier.
#[derive(Debug, PartialEq, Eq)]
pub enum ServiceCommand {
    Stop,
    ParsedQuery { query: String },
    DiscardQuery { query_id: i32 },
    Subscribe { query_id: i32, operation_name: String, variables: String },
    Unsubscribe { subscription_id: i32 },
}

/// The mathematical value of a command.
pub enum CommandModel {
    Stop,
    ParsedQuery { query: Seq<char> },
    DiscardQuery { query_id: i32 },
    Subscribe { query_id: i32, operation_name: Seq<char>, variables: Seq<char> },
    Unsubscribe { subscription_id: i32 },
}

impl View for ServiceCommand {
    type V = CommandModel;

    open spec fn view(&self) -> CommandModel {
        match self {
            ServiceCommand::Stop => CommandModel::Stop,
            ServiceCommand::ParsedQuery { query } => CommandModel::ParsedQuery { query: query@ },
            ServiceCommand::DiscardQuery { query_id } => CommandModel::DiscardQuery {
                query_id: *query_id,
            },
            ServiceCommand::Subscribe {
                query_id,
                operation_name,
                variables,
            } => CommandModel::Subscribe {
                query_id: *query_id,
                operation_name: operation_name@,
                variables: variables@,
            },
            ServiceCommand::Unsubscribe { subscription_id } => CommandModel::Unsubscribe {
                subscription_id: *subscription_id,
            },
        }
    }
}

/// A command to put on the worker's queue, and the thread to wake once it
/// is there, so that a worker waiting on its message pump notices it.
#[derive(Debug, PartialEq, Eq)]
pub struct Request {
    pub command: ServiceCommand,
    pub wake: u32,
}

/// What became of a command on its way to the queue. A failure carries the
/// text of its cause.
#[derive(Debug, PartialEq, Eq)]
pub enum Submission {
    /// The lock on the queue's sending end was poisoned.
    LockFailed(String),
    /// The worker has gone and dropped the receiving end.
    SendFailed(String),
    Sent,
}

/// What became of a command that is answered: it may fail on its way as any
/// command may, the worker may go before it answers, or the answer comes: an
/// identifier, or the engine's own words on why not.
#[derive(Debug, PartialEq, Eq)]
pub enum RoundTrip {
    LockFailed(String),
    SendFailed(String),
    ReceiveFailed(String),
    Replied(Result<i32, String>),
}

/// The error text for a poisoned lock.
pub open spec fn lock_error_text(detail: Seq<char>) -> Seq<char> {
    "Error locking mutex: "@ + detail
}

/// The error text for a command that could not be sent.
pub open spec fn send_error_text(detail: Seq<char>) -> Seq<char> {
    "Error sending message: "@ + detail
}

/// The error text for an answer that could not be received.
pub open spec fn recv_error_text(detail: Seq<char>) -> Seq<char> {
    "Error receiving message: "@ + detail
}

/// The error text for a poisoned lock, from the text of its cause.
pub fn map_lock_error(detail: &str) -> (message: String)
    ensures
        message@ == lock_error_text(detail@),
{
    String::from_str("Error locking mutex: ").concat(detail)
}

/// The error text for a command that could not be sent, from the text of
/// its cause.
pub fn map_send_error(detail: &str) -> (message: String)
    ensures
        message@ == send_error_text(detail@),
{
    String::from_str("Error sending message: ").concat(detail)
}

/// The error text for an answer that could not be received, from the text
/// of its cause.
pub fn map_recv_error(detail: &str) -> (message: String)
    ensures
        message@ == recv_error_text(detail@),
{
    String::from_str("Error receiving message: ").concat(detail)
}

/// The engine's diagnostic text, word for word.
pub fn map_exception(what: &str) -> (message: String)
    ensures
        message@ == what@,
{
    String::from_str(what)
}

impl Submission {
    /// The error text of a submission that failed, or nothing for one that
    /// was sent.
    pub open spec fn failure(self) -> Option<Seq<char>> {
        match self {
            Submission::LockFailed(detail) => Some(lock_error_text(detail@)),
            Submission::SendFailed(detail) => Some(send_error_text(detail@)),
            Submission::Sent => None,
        }
    }

    /// `Ok` for a command that was sent, else the error text.
    pub fn result(&self) -> (result: Result<(), String>)
        ensures
            match result {
                Ok(_) => self.failure() is None,
                Err(message) => self.failure() == Some(message@),
            },
    {
        match self {
            Submission::LockFailed(detail) => Err(map_lock_error(detail.as_str())),
            Submission::SendFailed(detail) => Err(map_send_error(detail.as_str())),
            Submission::Sent => Ok(()),
        }
    }
}

impl RoundTrip {
    /// The identifier that came back, or the error text: that of the
    /// failure on the way, or the engine's own.
    pub open spec fn outcome(self) -> Result<i32, Seq<char>> {
        match self {
            RoundTrip::LockFailed(detail) => Err(lock_error_text(detail@)),
            RoundTrip::SendFailed(detail) => Err(send_error_text(detail@)),
            RoundTrip::ReceiveFailed(detail) => Err(recv_error_text(detail@)),
            RoundTrip::Replied(Ok(id)) => Ok(id),
            RoundTrip::Replied(Err(what)) => Err(what@),
        }
    }

    /// The identifier that came back, or the error text.
    pub fn result(&self) -> (result: Result<i32, String>)
        ensures
            match result {
                Ok(id) => self.outcome() == Ok::<i32, Seq<char>>(id),
                Err(message) => self.outcome() == Err::<i32, Seq<char>>(message@),
            },
    {
        match self {
            RoundTrip::LockFailed(detail) => Err(map_lock_error(detail.as_str())),
            RoundTrip::SendFailed(detail) => Err(map_send_error(detail.as_str())),
            RoundTrip::ReceiveFailed(detail) => Err(map_recv_error(detail.as_str())),
            RoundTrip::Replied(Ok(id)) => Ok(*id),
            RoundTrip::Replied(Err(what)) => Err(map_exception(what.as_str())),
        }
    }
}

} // verus!
