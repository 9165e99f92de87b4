//! The IoT emulation that sends periodic requests to deployed functions:
//! how an answer is judged and when a job stops.
use vstd::prelude::*;

verus! {

/// What one request of a job gave.
#[derive(Clone, Copy, Debug, PartialEq, Eq)]
pub enum PingOutcome {
    /// The request went through.
    Delivered,
    /// The request could not be sent, or the server failed: a failure is
    /// counted and the job goes on.
    Failed,
    /// The server refused the request (a client error): the job stops.
    Refused,
}

/// Judge a request by its HTTP status, or by its absence when the request
/// could not be sent.
pub fn ping_outcome(status: Option<u16>) -> (r: PingOutcome)
    ensures
        r == (match status {
            None => PingOutcome::Failed,
            Some(c) => if 400 <= c < 500 {
                PingOutcome::Refused
            } else if 500 <= c < 600 {
                PingOutcome::Failed
            } else {
                PingOutcome::Delivered
            },
        }),
{
    match status {
        None => PingOutcome::Failed,
        Some(c) => {
            if 400 <= c && c < 500 {
                PingOutcome::Refused
            } else if 500 <= c && c < 600 {
                PingOutcome::Failed
            } else {
                PingOutcome::Delivered
            }
        },
    }
}

/// Whether a job sends again after a request: not when the request was
/// refused, nor once the time it has run (in nanoseconds, when the clock
/// could tell it) is past its duration.
pub fn keep_sending(outcome: PingOutcome, elapsed_nanos: Option<u128>, until_nanos: u128) -> (r: bool)
    ensures
        r == (outcome != PingOutcome::Refused && match elapsed_nanos {
            None => true,
            Some(e) => e <= until_nanos,
        }),
{
    match outcome {
        PingOutcome::Refused => return false,
        _ => {},
    }
    match elapsed_nanos {
        None => true,
        Some(e) => e <= until_nanos,
    }
}

} // verus!
