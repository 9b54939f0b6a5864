//! The outcome recorded for one checked URL.

use vstd::prelude::*;

verus! {

/// Classification of a checked URL.
///
/// `Warning` and `Skipped` are reserved for callers that want to grade or
/// exclude URLs; a scan itself only produces `OK` and `Error`.
#[derive(Debug, PartialEq, Eq)]
pub enum Status {
    /// The target answered with a successful response.
    OK,
    /// The target answered, with a caveat described by the message.
    Warning(String),
    /// The target could not be reached or answered with a failure.
    Error(String),
    /// The URL was deliberately not checked.
    Skipped,
}

/// Mathematical model of a [`Status`]: messages are character sequences.
pub ghost enum StatusView {
    OK,
    Warning(Seq<char>),
    Error(Seq<char>),
    Skipped,
}

impl View for Status {
    type V = StatusView;

    open spec fn view(&self) -> StatusView {
        match *self {
            Status::OK => StatusView::OK,
            Status::Warning(msg) => StatusView::Warning(msg@),
            Status::Error(msg) => StatusView::Error(msg@),
            Status::Skipped => StatusView::Skipped,
        }
    }
}

impl Clone for Status {
    fn clone(&self) -> (copy: Status)
        ensures
            copy@ == self@,
    {
        match self {
            Status::OK => Status::OK,
            Status::Warning(msg) => Status::Warning(msg.clone()),
            Status::Error(msg) => Status::Error(msg.clone()),
            Status::Skipped => Status::Skipped,
        }
    }
}

/// The text shown for a status: a bracketed tag, followed by the message in
/// parentheses where there is one. A skipped URL shows as the empty text.
pub open spec fn status_text(status: StatusView) -> Seq<char> {
    match status {
        StatusView::OK => "[OK]"@,
        StatusView::Warning(msg) => "[WARN] ("@ + msg + ")"@,
        StatusView::Error(msg) => "[ERROR] ("@ + msg + ")"@,
        StatusView::Skipped => Seq::empty(),
    }
}

impl Status {
    /// Renders the status as text.
    pub fn to_text(&self) -> (text: String)
        ensures
            text@ == status_text(self@),
    {
        match self {
            Status::OK => String::from_str("[OK]"),
            Status::Warning(msg) => {
                let mut text = String::from_str("[WARN] (");
                text.append(msg.as_str());
                text.append(")");
                text
            },
            Status::Error(msg) => {
                let mut text = String::from_str("[ERROR] (");
                text.append(msg.as_str());
                text.append(")");
                text
            },
            Status::Skipped => String::new(),
        }
    }

    /// Whether the status is `Error`.
    pub fn is_error(&self) -> (yes: bool)
        ensures
            yes == (self@ is Error),
    {
        match self {
            Status::Error(_) => true,
            _ => false,
        }
    }
}

} // verus!
