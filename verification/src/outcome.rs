//! What one request brought back, and the status it earns.

use crate::status::{Status, StatusView};
use vstd::prelude::*;

verus! {

/// The `User-Agent` header that requests carry. Some sites turn away
/// requests that do not look as if they came from a browser.
pub const USER_AGENT: &'static str =
    "Mozilla/5.0 (Macintosh; Intel Mac OS X 10_15_7) AppleWebKit/537.36 (KHTML, like Gecko) Chrome/122.0.0.0 Safari/537.36";

/// What a single GET request for a URL brought back.
///
/// The caller performs the request and describes the result in these terms;
/// the texts are passed on into the status unchanged.
#[derive(Debug)]
pub enum Outcome {
    /// No response arrived (name not resolved, connection refused, timed
    /// out, and the like). `reason` describes the failure.
    Unreachable { reason: String },
    /// A response arrived with HTTP status `code`. `description` says what
    /// the status means, for use when it is a failure.
    Answered { code: u16, description: String },
}

/// Mathematical model of an [`Outcome`].
pub ghost enum OutcomeView {
    Unreachable { reason: Seq<char> },
    Answered { code: u16, description: Seq<char> },
}

impl View for Outcome {
    type V = OutcomeView;

    open spec fn view(&self) -> OutcomeView {
        match *self {
            Outcome::Unreachable { reason } => OutcomeView::Unreachable { reason: reason@ },
            Outcome::Answered { code, description } => OutcomeView::Answered {
                code,
                description: description@,
            },
        }
    }
}

/// Whether an HTTP status code reports success: the codes 200 to 299.
pub open spec fn is_success(code: u16) -> bool {
    200 <= code <= 299
}

/// The status that an outcome earns: `OK` for a response with a successful
/// status code, `Error` for everything else, with the text that describes
/// the failure.
pub open spec fn verdict(outcome: OutcomeView) -> StatusView {
    match outcome {
        OutcomeView::Unreachable { reason } => StatusView::Error(reason),
        OutcomeView::Answered { code, description } => if is_success(code) {
            StatusView::OK
        } else {
            StatusView::Error(description)
        },
    }
}

/// Whether a status is one that checking a URL can earn: `OK` or `Error`.
pub open spec fn is_verdict(status: StatusView) -> bool {
    status is OK || status is Error
}

/// Checking a URL never earns `Warning` or `Skipped`.
pub proof fn lemma_verdict_is_ok_or_error(outcome: OutcomeView)
    ensures
        is_verdict(verdict(outcome)),
{
}

/// Classifies what a request brought back.
pub fn classify(outcome: Outcome) -> (status: Status)
    ensures
        status@ == verdict(outcome@),
{
    match outcome {
        Outcome::Unreachable { reason } => Status::Error(reason),
        Outcome::Answered { code, description } => if 200 <= code && code <= 299 {
            Status::OK
        } else {
            Status::Error(description)
        },
    }
}

} // verus!
