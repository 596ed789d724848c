//! The health endpoint: one selection per request, answered with the host
//! that was selected or with the reason why none was.

use crate::error::SelectError;
use crate::http_status;
use crate::selector::{outcome, selection, RoundRobin};
use vstd::prelude::*;

verus! {

/// The answer to a request that selected a host.
///
/// The view is the pair of its fields as characters, `health` first.
#[derive(Debug)]
pub struct HealthReport {
    /// The word `ok`: a report is made only of a selection that succeeded.
    pub health: String,
    /// The host that the request selected.
    pub host: String,
}

impl HealthReport {
    /// The status code of the answer.
    pub fn status(&self) -> (code: u16)
        ensures
            code == http_status::OK,
    {
        http_status::OK
    }
}

impl View for HealthReport {
    type V = (Seq<char>, Seq<char>);

    open spec fn view(&self) -> (Seq<char>, Seq<char>) {
        (self.health@, self.host@)
    }
}

/// The answer to a request that selected no host: the failure of the
/// selection, reported as an error of the server.
#[derive(Clone, Copy, Debug, PartialEq, Eq, Structural)]
pub struct ApiError {
    pub cause: SelectError,
}

impl From<SelectError> for ApiError {
    fn from(cause: SelectError) -> (error: ApiError) {
        ApiError { cause }
    }
}

impl vstd::std_specs::convert::FromSpecImpl<SelectError> for ApiError {
    open spec fn obeys_from_spec() -> bool {
        true
    }

    open spec fn from_spec(cause: SelectError) -> ApiError {
        ApiError { cause }
    }
}

impl ApiError {
    /// The body of the answer: a fixed heading, then the report of the cause.
    pub open spec fn text(self) -> Seq<char> {
        "internal server error "@ + self.cause.text()
    }

    /// The status code of the answer.
    pub fn status(&self) -> (code: u16)
        ensures
            code == http_status::INTERNAL_SERVER_ERROR,
    {
        http_status::INTERNAL_SERVER_ERROR
    }

    /// Writes out the body of the answer.
    pub fn body(&self) -> (body: String)
        ensures
            body@ == self.text(),
    {
        let mut body = String::from_str("internal server error ");
        let cause = self.cause.message();
        body.append(cause.as_str());
        body
    }
}

/// What the endpoint answers to a selection: the selected host under the
/// heading `ok`, or the selection's failure as an error of the server.
pub open spec fn answer_to(selected: Result<Seq<char>, SelectError>) -> Result<
    (Seq<char>, Seq<char>),
    ApiError,
> {
    match selected {
        Ok(host) => Ok(("ok"@, host)),
        Err(cause) => Err(ApiError { cause }),
    }
}

/// The model of an answer: a report as its view, an error as it is.
pub open spec fn answer_view(answer: Result<HealthReport, ApiError>) -> Result<
    (Seq<char>, Seq<char>),
    ApiError,
> {
    match answer {
        Ok(report) => Ok(report@),
        Err(error) => Err(error),
    }
}

/// Turns the result of a selection into the endpoint's answer.
pub fn respond(selected: Result<&str, SelectError>) -> (answer: Result<HealthReport, ApiError>)
    ensures
        answer_view(answer) == answer_to(outcome(selected)),
{
    match selected {
        Ok(host) => Ok(
            HealthReport { health: String::from_str("ok"), host: String::from_str(host) },
        ),
        Err(cause) => Err(ApiError::from(cause)),
    }
}

/// Serves one request: selects the next host of `state`, moving its cursor
/// on, and answers with it.
///
/// Which host that is depends on the cursor, which other requests share: the
/// answer is the one that belongs to some position the cursor could have held.
pub fn health(state: &RoundRobin) -> (answer: Result<HealthReport, ApiError>)
    ensures
        exists|index: usize|
            answer_view(answer) == answer_to(#[trigger] selection(state@, Ok(index))),
{
    respond(state.advance())
}

} // verus!
