//! The worker of a ping service: it answers each `Ping` with a `Pong`,
//! complains about a `Pong`, and stops at a `Pang`.
use vstd::prelude::*;

verus! {

/// The messages of a connectivity check.
#[derive(Debug, Clone, Copy, PartialEq, Eq, Structural)]
pub enum ConnectivityCheck {
    Ping,
    Pong,
    Pang,
}

/// What the worker does with one request.
#[derive(Debug, Clone, Copy, PartialEq, Eq, Structural)]
pub enum WorkerAction {
    /// Send this message back.
    Reply(ConnectivityCheck),
    /// Report that a response arrived where a request was expected.
    ReportUnexpected,
    /// Stop serving.
    Stop,
}

/// The worker's answer to `request`.
pub fn respond(request: ConnectivityCheck) -> (a: WorkerAction)
    ensures
        request == ConnectivityCheck::Ping ==> a == WorkerAction::Reply(ConnectivityCheck::Pong),
        request == ConnectivityCheck::Pong ==> a == WorkerAction::ReportUnexpected,
        request == ConnectivityCheck::Pang ==> a == WorkerAction::Stop,
{
    match request {
        ConnectivityCheck::Pong => WorkerAction::ReportUnexpected,
        ConnectivityCheck::Ping => WorkerAction::Reply(ConnectivityCheck::Pong),
        ConnectivityCheck::Pang => WorkerAction::Stop,
    }
}

} // verus!
