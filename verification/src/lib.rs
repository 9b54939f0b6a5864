//! Link auditing: finds the HTTP(S) URLs in text documents and records,
//! for every occurrence, whether its target answered successfully.
//!
//! The library holds the rules and the bookkeeping; performing the
//! requests is left to the caller, who drives a [`Scan`] by asking it what
//! to do next and reporting what each request brought back.

pub mod link;
pub mod outcome;
pub mod pattern;
pub mod scanner;
pub mod status;
pub mod tally;

pub use link::{Link, LinkView};
pub use outcome::{classify, Outcome, OutcomeView, USER_AGENT};
pub use pattern::{PatternError, UrlPattern, URL_PATTERN};
pub use scanner::{scan, Action, ActionView, Document, DocumentView, JobView, Scan, ScanView};
pub use status::{Status, StatusView};
pub use tally::{tally, Tally};
