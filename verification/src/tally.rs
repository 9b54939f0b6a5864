//! Counting links by status.

use crate::link::{link_views, Link, LinkView};
use crate::outcome::is_verdict;
use crate::status::Status;
use vstd::prelude::*;

verus! {

/// How many links of a collection carry each status.
#[derive(Debug, PartialEq, Eq)]
pub struct Tally {
    /// Links with status `OK`.
    pub ok: usize,
    /// Links with status `Warning`.
    pub warnings: usize,
    /// Links with status `Error`.
    pub errors: usize,
    /// Links with status `Skipped`.
    pub skipped: usize,
}

/// Number of links with status `OK`.
pub open spec fn count_ok(links: Seq<LinkView>) -> nat
    decreases links.len(),
{
    if links.len() == 0 {
        0
    } else {
        count_ok(links.drop_last()) + if links.last().status is OK {
            1nat
        } else {
            0nat
        }
    }
}

/// Number of links with status `Warning`.
pub open spec fn count_warnings(links: Seq<LinkView>) -> nat
    decreases links.len(),
{
    if links.len() == 0 {
        0
    } else {
        count_warnings(links.drop_last()) + if links.last().status is Warning {
            1nat
        } else {
            0nat
        }
    }
}

/// Number of links with status `Error`.
pub open spec fn count_errors(links: Seq<LinkView>) -> nat
    decreases links.len(),
{
    if links.len() == 0 {
        0
    } else {
        count_errors(links.drop_last()) + if links.last().status is Error {
            1nat
        } else {
            0nat
        }
    }
}

/// Number of links with status `Skipped`.
pub open spec fn count_skipped(links: Seq<LinkView>) -> nat
    decreases links.len(),
{
    if links.len() == 0 {
        0
    } else {
        count_skipped(links.drop_last()) + if links.last().status is Skipped {
            1nat
        } else {
            0nat
        }
    }
}

/// Every link carries exactly one status: the four counts add up to the
/// number of links.
pub proof fn lemma_counts_sum_to_total(links: Seq<LinkView>)
    ensures
        count_ok(links) + count_warnings(links) + count_errors(links) + count_skipped(links)
            == links.len(),
    decreases links.len(),
{
    if links.len() > 0 {
        lemma_counts_sum_to_total(links.drop_last());
    }
}

/// Where every link carries `OK` or `Error`, none counts as a warning or
/// as skipped.
pub proof fn lemma_verdicts_only(links: Seq<LinkView>)
    requires
        forall|i: int| 0 <= i < links.len() ==> is_verdict((#[trigger] links[i]).status),
    ensures
        count_warnings(links) == 0,
        count_skipped(links) == 0,
    decreases links.len(),
{
    if links.len() > 0 {
        lemma_verdicts_only(links.drop_last());
        assert(is_verdict(links[links.len() - 1].status));
    }
}

/// Counts the links of each status.
pub fn tally(links: &Vec<Link>) -> (counts: Tally)
    ensures
        counts.ok == count_ok(link_views(links@)),
        counts.warnings == count_warnings(link_views(links@)),
        counts.errors == count_errors(link_views(links@)),
        counts.skipped == count_skipped(link_views(links@)),
        counts.ok + counts.warnings + counts.errors + counts.skipped == links.len(),
{
    let ghost all = link_views(links@);
    let mut counts = Tally { ok: 0, warnings: 0, errors: 0, skipped: 0 };
    let mut i: usize = 0;
    while i < links.len()
        invariant
            i <= links.len(),
            all == link_views(links@),
            counts.ok == count_ok(all.take(i as int)),
            counts.warnings == count_warnings(all.take(i as int)),
            counts.errors == count_errors(all.take(i as int)),
            counts.skipped == count_skipped(all.take(i as int)),
        decreases links.len() - i,
    {
        proof {
            let seen = all.take(i as int + 1);
            assert(seen.drop_last() =~= all.take(i as int));
            lemma_counts_sum_to_total(seen);
        }
        match &links[i].status {
            Status::OK => {
                counts.ok += 1;
            },
            Status::Warning(_) => {
                counts.warnings += 1;
            },
            Status::Error(_) => {
                counts.errors += 1;
            },
            Status::Skipped => {
                counts.skipped += 1;
            },
        }
        i += 1;
    }
    proof {
        assert(all.take(i as int) =~= all);
        lemma_counts_sum_to_total(all);
    }
    counts
}

} // verus!
