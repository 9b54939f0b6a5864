//! The record kept for one occurrence of a URL.

use crate::status::{status_text, Status, StatusView};
use vstd::prelude::*;

verus! {

/// One checked occurrence of a URL.
#[derive(Debug, PartialEq, Eq)]
pub struct Link {
    /// The URL exactly as it stands in the text.
    pub url: String,
    /// What checking it showed.
    pub status: Status,
    /// Names the text in which the URL stands, for instance a file path.
    pub referrer: String,
}

/// Mathematical model of a [`Link`].
pub ghost struct LinkView {
    pub url: Seq<char>,
    pub status: StatusView,
    pub referrer: Seq<char>,
}

impl View for Link {
    type V = LinkView;

    open spec fn view(&self) -> LinkView {
        LinkView { url: self.url@, status: self.status@, referrer: self.referrer@ }
    }
}

/// The models of the links held by a vector, in order.
pub open spec fn link_views(links: Seq<Link>) -> Seq<LinkView> {
    Seq::new(links.len(), |i: int| links[i]@)
}

/// The line shown for a link: its status, its URL and where it was found.
pub open spec fn link_text(link: LinkView) -> Seq<char> {
    status_text(link.status) + " "@ + link.url + " - referrer: "@ + link.referrer
}

/// Whether a link is listed in a report: failures always, the rest only
/// when a verbose report is asked for.
pub open spec fn listed(link: LinkView, verbose: bool) -> bool {
    link.status is Error || verbose
}

impl Link {
    /// Renders the link as one line of text.
    pub fn to_text(&self) -> (text: String)
        ensures
            text@ == link_text(self@),
    {
        let mut text = self.status.to_text();
        text.append(" ");
        text.append(self.url.as_str());
        text.append(" - referrer: ");
        text.append(self.referrer.as_str());
        text
    }

    /// Whether the link is listed in a report of the given verbosity.
    pub fn is_listed(&self, verbose: bool) -> (yes: bool)
        ensures
            yes == listed(self@, verbose),
    {
        self.status.is_error() || verbose
    }
}

} // verus!
