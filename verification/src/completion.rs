//! What crosses from the background runtime to the tick thread: the outcome
//! of one request, and what the tick thread is to do with it.
//!
//! These are plain owned values. Nothing in them is shared with the thread
//! that produced them.

use vstd::prelude::*;

verus! {

/// Why an exchange failed after it was started.
#[derive(Clone, Copy, Debug, PartialEq, Eq, Structural)]
pub enum TransportFailure {
    /// No answer came in time.
    Timeout,
    /// The connection could not be made or broke.
    Connection,
    /// The secure channel could not be set up.
    Tls,
    /// The answer could not be decoded.
    Decode,
}

impl TransportFailure {
    /// The number that tells a callback why there is no answer. It is
    /// negative, so that it cannot be taken for an HTTP status.
    pub open spec fn indicator(self) -> i32 {
        match self {
            TransportFailure::Timeout => -1i32,
            TransportFailure::Connection => -2i32,
            TransportFailure::Tls => -3i32,
            TransportFailure::Decode => -4i32,
        }
    }

    /// The number that tells a callback why there is no answer.
    pub fn to_cell(&self) -> (cell: i32)
        ensures
            cell == self.indicator(),
            cell < 0,
    {
        match self {
            TransportFailure::Timeout => -1,
            TransportFailure::Connection => -2,
            TransportFailure::Tls => -3,
            TransportFailure::Decode => -4,
        }
    }
}

/// The status that a callback is given for `outcome`: the HTTP status of the
/// answer, or the indicator of the failure.
pub open spec fn outcome_status(outcome: Result<Response, TransportFailure>) -> i32 {
    match outcome {
        Ok(response) => response.status as i32,
        Err(failure) => failure.indicator(),
    }
}

/// The answer to one request.
#[derive(Clone, Debug, PartialEq, Eq)]
pub struct Response {
    /// The request that this answers.
    pub request_id: i32,
    /// The HTTP status code.
    pub status: u16,
    /// The response headers, in the order received.
    pub headers: Vec<(String, String)>,
    /// The response body.
    pub body: Vec<u8>,
}

/// The message that a finished request puts on the completion channel.
#[derive(Debug, PartialEq, Eq)]
pub struct CompletionEvent {
    /// The request that finished. Correlation goes by this identifier.
    pub request_id: i32,
    /// Its answer, or why there is none.
    pub outcome: Result<Response, TransportFailure>,
}

impl CompletionEvent {
    /// The event of a request that was answered.
    pub fn completed(response: Response) -> (event: Self)
        ensures
            event.request_id == response.request_id,
            event.outcome == Ok::<Response, TransportFailure>(response),
    {
        CompletionEvent { request_id: response.request_id, outcome: Ok(response) }
    }

    /// The event of a request that failed in transport.
    pub fn failed(request_id: i32, failure: TransportFailure) -> (event: Self)
        ensures
            event.request_id == request_id,
            event.outcome == Err::<Response, TransportFailure>(failure),
    {
        CompletionEvent { request_id, outcome: Err(failure) }
    }
}

/// One callback that the tick thread is to invoke.
#[derive(Debug, PartialEq, Eq)]
pub struct Delivery {
    /// The name of the script function to call.
    pub callback: String,
    /// The request that finished.
    pub request_id: i32,
    /// Its answer, or why there is none.
    pub outcome: Result<Response, TransportFailure>,
}

impl Delivery {
    /// The status to hand to the callback: the HTTP status of the answer, or
    /// a negative number where the exchange failed.
    pub fn status(&self) -> (cell: i32)
        ensures
            cell == outcome_status(self.outcome),
            (cell < 0) == (self.outcome is Err),
    {
        match &self.outcome {
            Ok(response) => response.status as i32,
            Err(failure) => failure.to_cell(),
        }
    }
}

} // verus!
