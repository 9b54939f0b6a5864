//! The bookkeeping of a scan.
//!
//! A scan is a list of jobs, one per occurrence of a URL in the documents,
//! and a slot per job for the status that checking it earns. The requests
//! themselves are made by the caller: [`Scan::next_action`] says which
//! request to start or whether to wait for one that is under way, and
//! [`Scan::record`] takes what a request brought back. The number of
//! requests under way at a time is bounded by the scan's limit.

use crate::link::{link_views, Link, LinkView};
use crate::outcome::{classify, is_verdict, lemma_verdict_is_ok_or_error, verdict, Outcome};
use crate::pattern::UrlPattern;
use crate::status::{Status, StatusView};
use crate::tally::{
    count_errors, count_ok, count_skipped, count_warnings, lemma_counts_sum_to_total,
    lemma_verdicts_only,
};
use vstd::prelude::*;

verus! {

/// A text to scan, with the name it is known by.
#[derive(Debug)]
pub struct Document {
    /// The text in which URLs are looked for.
    pub text: String,
    /// Names the text in the links that come out of it.
    pub referrer: String,
}

/// Mathematical model of a [`Document`].
pub ghost struct DocumentView {
    pub text: Seq<char>,
    pub referrer: Seq<char>,
}

impl View for Document {
    type V = DocumentView;

    open spec fn view(&self) -> DocumentView {
        DocumentView { text: self.text@, referrer: self.referrer@ }
    }
}

/// One occurrence of a URL that is to be checked.
pub ghost struct JobView {
    pub url: Seq<char>,
    pub referrer: Seq<char>,
}

#[derive(Debug)]
struct Job {
    url: String,
    referrer: String,
}

impl Job {
    spec fn view(&self) -> JobView {
        JobView { url: self.url@, referrer: self.referrer@ }
    }
}

/// What the caller of a scan is to do next.
#[derive(Debug, PartialEq, Eq)]
pub enum Action {
    /// Start a request for `url`, and report what it brings back under
    /// `ticket`.
    Check { ticket: usize, url: String },
    /// Start nothing; wait for a request that is under way and report it.
    Wait,
    /// Every job has its status: the scan can be finished.
    Finished,
}

/// Mathematical model of an [`Action`].
pub ghost enum ActionView {
    Check { ticket: nat, url: Seq<char> },
    Wait,
    Finished,
}

impl View for Action {
    type V = ActionView;

    open spec fn view(&self) -> ActionView {
        match *self {
            Action::Check { ticket, url } => ActionView::Check { ticket: ticket as nat, url: url@ },
            Action::Wait => ActionView::Wait,
            Action::Finished => ActionView::Finished,
        }
    }
}

/// Mathematical model of a [`Scan`].
pub ghost struct ScanView {
    /// The jobs, in the order in which the URLs were found.
    pub jobs: Seq<JobView>,
    /// For each job, the status it earned, once its request was reported.
    pub results: Seq<Option<StatusView>>,
    /// How many jobs have been handed out: the jobs before this index.
    pub issued: nat,
    /// How many requests may be under way at a time.
    pub limit: nat,
}

/// The models of the documents held by a vector, in order.
pub open spec fn document_views(documents: Seq<Document>) -> Seq<DocumentView> {
    Seq::new(documents.len(), |i: int| documents[i]@)
}

/// The jobs that one document gives rise to: one per URL found in its text,
/// in order of appearance, each naming the document as its referrer.
pub open spec fn jobs_in(pattern: UrlPattern, document: DocumentView) -> Seq<JobView> {
    let urls = pattern.urls_in(document.text);
    Seq::new(urls.len(), |i: int| JobView { url: urls[i], referrer: document.referrer })
}

/// The jobs that a collection of documents gives rise to: those of the
/// first document, then those of the second, and so on.
pub open spec fn jobs_for(pattern: UrlPattern, documents: Seq<DocumentView>) -> Seq<JobView>
    decreases documents.len(),
{
    if documents.len() == 0 {
        Seq::empty()
    } else {
        jobs_for(pattern, documents.drop_last()) + jobs_in(pattern, documents.last())
    }
}

/// How many of the slots hold a status.
pub open spec fn settled(results: Seq<Option<StatusView>>) -> nat
    decreases results.len(),
{
    if results.len() == 0 {
        0
    } else {
        settled(results.drop_last()) + if results.last() is Some {
            1nat
        } else {
            0nat
        }
    }
}

impl ScanView {
    /// The state in which a scan of the given jobs begins. A limit of zero
    /// would let nothing start, so it counts as one.
    pub open spec fn start(jobs: Seq<JobView>, limit: nat) -> ScanView {
        ScanView {
            jobs,
            results: Seq::new(jobs.len(), |i: int| None),
            issued: 0,
            limit: if limit == 0 {
                1
            } else {
                limit
            },
        }
    }

    /// How many requests are under way: handed out and not yet reported.
    pub open spec fn in_flight(self) -> int {
        self.issued - settled(self.results)
    }

    /// The states that a scan can be in: a slot per job; jobs are handed out
    /// in order, and only a job that was handed out has a status, which is
    /// `OK` or `Error`; no more requests are under way than the limit allows.
    pub open spec fn wf(self) -> bool {
        &&& self.results.len() == self.jobs.len()
        &&& self.issued <= self.jobs.len()
        &&& forall|i: int| self.issued <= i < self.results.len() ==> self.results[i] is None
        &&& forall|i: int|
            0 <= i < self.results.len() && self.results[i] is Some ==> is_verdict(
                #[trigger] self.results[i]->Some_0,
            )
        &&& 1 <= self.limit
        &&& 0 <= self.in_flight() <= self.limit
    }

    /// Whether another request may be started now.
    pub open spec fn can_issue(self) -> bool {
        self.issued < self.jobs.len() && self.in_flight() < self.limit
    }

    /// Whether every job has its status.
    pub open spec fn done(self) -> bool {
        settled(self.results) == self.jobs.len()
    }

    /// What to do next: start the next job if one is left and the limit
    /// allows it; else wait, if a request is under way; else finish.
    pub open spec fn next_action(self) -> ActionView {
        if self.can_issue() {
            ActionView::Check { ticket: self.issued, url: self.jobs[self.issued as int].url }
        } else if self.in_flight() > 0 {
            ActionView::Wait
        } else {
            ActionView::Finished
        }
    }

    /// The state after the next action was handed out: starting a request
    /// marks its job as issued, the other actions change nothing.
    pub open spec fn advance(self) -> ScanView {
        if self.can_issue() {
            ScanView { issued: self.issued + 1, ..self }
        } else {
            self
        }
    }

    /// Whether a report under `ticket` is awaited: the job was handed out
    /// and has no status yet.
    pub open spec fn awaits(self, ticket: nat) -> bool {
        ticket < self.issued && ticket < self.results.len() && self.results[ticket as int] is None
    }

    /// The state after a request was reported: an awaited ticket gets
    /// its status, any other report changes nothing.
    pub open spec fn record(self, ticket: nat, status: StatusView) -> ScanView {
        if self.awaits(ticket) {
            ScanView { results: self.results.update(ticket as int, Some(status)), ..self }
        } else {
            self
        }
    }

    /// The links of a scan that is done: one per job, in the jobs' order,
    /// each with its job's URL and referrer and the status the job earned.
    pub open spec fn links(self) -> Seq<LinkView> {
        Seq::new(
            self.jobs.len(),
            |i: int|
                LinkView {
                    url: self.jobs[i].url,
                    status: self.results[i]->Some_0,
                    referrer: self.jobs[i].referrer,
                },
        )
    }
}

/// A scan in progress.
///
/// Created by [`scan`], driven by [`Scan::next_action`] and
/// [`Scan::record`], and turned into links by [`Scan::finish`].
#[derive(Debug)]
pub struct Scan {
    jobs: Vec<Job>,
    results: Vec<Option<Status>>,
    issued: usize,
    settled: usize,
    limit: usize,
}

spec fn job_views(jobs: Seq<Job>) -> Seq<JobView> {
    Seq::new(jobs.len(), |i: int| jobs[i].view())
}

spec fn result_view(result: Option<Status>) -> Option<StatusView> {
    match result {
        Some(status) => Some(status@),
        None => None,
    }
}

spec fn result_views(results: Seq<Option<Status>>) -> Seq<Option<StatusView>> {
    Seq::new(results.len(), |i: int| result_view(results[i]))
}

impl View for Scan {
    type V = ScanView;

    closed spec fn view(&self) -> ScanView {
        ScanView {
            jobs: job_views(self.jobs@),
            results: result_views(self.results@),
            issued: self.issued as nat,
            limit: self.limit as nat,
        }
    }
}

impl Scan {
    #[verifier::type_invariant]
    spec fn inv(self) -> bool {
        self@.wf() && self.settled == settled(self@.results)
    }

    /// What to do next, and the scan after that action was handed out.
    ///
    /// Starts the next job while one is left and fewer requests than the
    /// limit are under way; otherwise says to wait for a request that is
    /// under way, or, when none is, that the scan is finished.
    pub fn next_action(self) -> (step: (Scan, Action))
        ensures
            self@.wf(),
            step.0@ == self@.advance(),
            step.1@ == self@.next_action(),
            step.0@.wf(),
    {
        proof {
            use_type_invariant(&self);
            lemma_advance_wf(self@);
        }
        let Scan { jobs, results, issued, settled, limit } = self;
        if issued < jobs.len() && issued - settled < limit {
            let url = jobs[issued].url.clone();
            let next = Scan { jobs, results, issued: issued + 1, settled, limit };
            (next, Action::Check { ticket: issued, url })
        } else if settled < issued {
            (Scan { jobs, results, issued, settled, limit }, Action::Wait)
        } else {
            (Scan { jobs, results, issued, settled, limit }, Action::Finished)
        }
    }

    /// Takes what the request under `ticket` brought back, and returns the
    /// scan after it together with whether the report was awaited.
    ///
    /// An awaited report gives its job the status that the outcome earns and
    /// touches no other job. A report under a ticket that was not handed
    /// out, or was reported before, is dropped.
    pub fn record(self, ticket: usize, outcome: Outcome) -> (step: (Scan, bool))
        ensures
            self@.wf(),
            step.1 == self@.awaits(ticket as nat),
            step.0@ == self@.record(ticket as nat, verdict(outcome@)),
            step.0@.wf(),
    {
        proof {
            use_type_invariant(&self);
            lemma_verdict_is_ok_or_error(outcome@);
            lemma_record_wf(self@, ticket as nat, verdict(outcome@));
            lemma_settled_at_most_len(self@.record(ticket as nat, verdict(outcome@)).results);
        }
        let ghost before = self@;
        let Scan { jobs, mut results, issued, settled, limit } = self;
        if ticket < issued && results[ticket].is_none() {
            let status = classify(outcome);
            results.set(ticket, Some(status));
            assert(result_views(results@) =~= before.results.update(
                ticket as int,
                Some(verdict(outcome@)),
            ));
            (Scan { jobs, results, issued, settled: settled + 1, limit }, true)
        } else {
            (Scan { jobs, results, issued, settled, limit }, false)
        }
    }

    /// Whether every job has its status.
    pub fn is_done(&self) -> (done: bool)
        ensures
            self@.wf(),
            done == self@.done(),
    {
        proof {
            use_type_invariant(self);
        }
        self.settled == self.jobs.len()
    }

    /// Ends the scan. Once every job has its status, the links come out:
    /// one per job, in the order in which the URLs were found. Before that,
    /// the scan comes back unchanged.
    pub fn finish(self) -> (ended: Result<Vec<Link>, Scan>)
        ensures
            self@.wf(),
            match ended {
                Ok(links) => self@.done() && links.len() == self@.jobs.len() && link_views(links@)
                    == self@.links(),
                Err(scan) => !self@.done() && scan@ == self@,
            },
    {
        proof {
            use_type_invariant(&self);
            lemma_settled_all(self@.results);
        }
        if self.settled != self.jobs.len() {
            return Err(self);
        }
        let ghost state = self@;
        let mut links: Vec<Link> = Vec::new();
        let mut i: usize = 0;
        while i < self.jobs.len()
            invariant
                i <= self.jobs.len(),
                state == self@,
                state.results.len() == state.jobs.len(),
                forall|k: int| 0 <= k < state.results.len() ==> state.results[k] is Some,
                links.len() == i,
                forall|k: int| 0 <= k < i ==> (#[trigger] links@[k])@ == state.links()[k],
            decreases self.jobs.len() - i,
        {
            assert(state.results[i as int] is Some);
            let status = match &self.results[i] {
                Some(status) => status.clone(),
                None => vstd::pervasive::unreached(),
            };
            let job = &self.jobs[i];
            links.push(Link { url: job.url.clone(), status, referrer: job.referrer.clone() });
            i += 1;
        }
        Ok(links)
    }
}

/// Plans a scan of the given documents: finds the URLs in each text and
/// lines up one job per occurrence, in the order of the documents and,
/// within a document, in order of appearance. At most `limit` requests
/// will be under way at a time; a limit of zero counts as one.
pub fn scan(pattern: &UrlPattern, documents: &Vec<Document>, limit: usize) -> (run: Scan)
    ensures
        run@ == ScanView::start(jobs_for(*pattern, document_views(documents@)), limit as nat),
        run@.wf(),
{
    let ghost all = document_views(documents@);
    let mut jobs: Vec<Job> = Vec::new();
    let mut results: Vec<Option<Status>> = Vec::new();
    let mut d: usize = 0;
    while d < documents.len()
        invariant
            d <= documents.len(),
            all == document_views(documents@),
            job_views(jobs@) == jobs_for(*pattern, all.take(d as int)),
            results.len() == jobs.len(),
            forall|k: int| 0 <= k < results.len() ==> results@[k] is None,
        decreases documents.len() - d,
    {
        let document = &documents[d];
        let urls = pattern.find_urls(document.text.as_str());
        let ghost found = jobs_in(*pattern, all[d as int]);
        let ghost before = job_views(jobs@);
        let mut u: usize = 0;
        while u < urls.len()
            invariant
                u <= urls.len(),
                d < documents.len(),
                document == documents@[d as int],
                all[d as int] == document@,
                urls.deep_view() == pattern.urls_in(document.text@),
                found == jobs_in(*pattern, all[d as int]),
                job_views(jobs@) == before + found.take(u as int),
                results.len() == jobs.len(),
                forall|k: int| 0 <= k < results.len() ==> results@[k] is None,
            decreases urls.len() - u,
        {
            let url = urls[u];
            let ghost old_jobs = jobs@;
            let job = Job { url: String::from_str(url), referrer: document.referrer.clone() };
            jobs.push(job);
            results.push(None);
            assert(job_views(jobs@) =~= job_views(old_jobs).push(job.view()));
            u += 1;
        }
        proof {
            let seen = all.take(d as int + 1);
            assert(seen.drop_last() =~= all.take(d as int));
        }
        d += 1;
    }
    let limit = if limit == 0 {
        1
    } else {
        limit
    };
    proof {
        assert(all.take(d as int) =~= all);
        let start = ScanView::start(jobs_for(*pattern, all), limit as nat);
        lemma_start_wf(jobs_for(*pattern, all), limit as nat);
        assert(result_views(results@) =~= start.results);
    }
    Scan { jobs, results, issued: 0, settled: 0, limit }
}

/// No more slots hold a status than there are slots.
pub proof fn lemma_settled_at_most_len(results: Seq<Option<StatusView>>)
    ensures
        settled(results) <= results.len(),
    decreases results.len(),
{
    if results.len() > 0 {
        lemma_settled_at_most_len(results.drop_last());
    }
}

/// Where all slots from `bound` on are empty, at most `bound` slots hold a
/// status.
pub proof fn lemma_settled_below(results: Seq<Option<StatusView>>, bound: int)
    requires
        0 <= bound <= results.len(),
        forall|i: int| bound <= i < results.len() ==> results[i] is None,
    ensures
        settled(results) <= bound,
    decreases results.len(),
{
    if results.len() == bound {
        lemma_settled_at_most_len(results);
    } else {
        lemma_settled_below(results.drop_last(), bound);
    }
}

/// Filling an empty slot raises the number of settled slots by one.
pub proof fn lemma_settled_after_fill(
    results: Seq<Option<StatusView>>,
    index: int,
    status: StatusView,
)
    requires
        0 <= index < results.len(),
        results[index] is None,
    ensures
        settled(results.update(index, Some(status))) == settled(results) + 1,
    decreases results.len(),
{
    let filled = results.update(index, Some(status));
    if index == results.len() - 1 {
        assert(filled.drop_last() =~= results.drop_last());
    } else {
        assert(filled.drop_last() =~= results.drop_last().update(index, Some(status)));
        lemma_settled_after_fill(results.drop_last(), index, status);
    }
}

/// All slots are settled exactly when each of them holds a status.
pub proof fn lemma_settled_all(results: Seq<Option<StatusView>>)
    ensures
        settled(results) == results.len() <==> forall|i: int|
            0 <= i < results.len() ==> results[i] is Some,
    decreases results.len(),
{
    if results.len() > 0 {
        let front = results.drop_last();
        lemma_settled_all(front);
        lemma_settled_at_most_len(front);
        if settled(results) == results.len() {
            assert forall|i: int| 0 <= i < results.len() implies results[i] is Some by {
                if i < front.len() {
                    assert(front[i] is Some);
                }
            }
        } else if results.last() is Some {
            let i = choose|i: int| 0 <= i < front.len() && !(front[i] is Some);
            assert(results[i] == front[i]);
        }
    }
}

/// A scan begins in a well-formed state, with nothing handed out and
/// nothing settled.
pub proof fn lemma_start_wf(jobs: Seq<JobView>, limit: nat)
    ensures
        ScanView::start(jobs, limit).wf(),
        settled(ScanView::start(jobs, limit).results) == 0,
{
    let state = ScanView::start(jobs, limit);
    lemma_settled_below(state.results, 0);
}

/// Handing out the next action keeps the state well formed.
pub proof fn lemma_advance_wf(state: ScanView)
    requires
        state.wf(),
    ensures
        state.advance().wf(),
{
}

/// Recording a report keeps the state well formed, and an awaited report
/// settles exactly one more job.
pub proof fn lemma_record_wf(state: ScanView, ticket: nat, status: StatusView)
    requires
        state.wf(),
        is_verdict(status),
    ensures
        state.record(ticket, status).wf(),
        settled(state.record(ticket, status).results) == settled(state.results) + if state.awaits(
            ticket,
        ) {
            1nat
        } else {
            0nat
        },
{
    if state.awaits(ticket) {
        let after = state.record(ticket, status);
        lemma_settled_after_fill(state.results, ticket as int, status);
        lemma_settled_below(after.results, state.issued as int);
    }
}

/// A report settles its own job and touches no other: every other job keeps
/// what it had, whatever the report says.
pub proof fn lemma_record_touches_one_job(
    state: ScanView,
    ticket: nat,
    status: StatusView,
    other: int,
)
    requires
        0 <= other < state.results.len(),
        other != ticket,
    ensures
        state.record(ticket, status).results[other] == state.results[other],
        state.record(ticket, status).jobs == state.jobs,
{
}

/// Reports for different jobs can arrive in either order: the scan ends up
/// in the same state.
pub proof fn lemma_reports_commute(
    state: ScanView,
    first: nat,
    first_status: StatusView,
    second: nat,
    second_status: StatusView,
)
    requires
        first != second,
    ensures
        state.record(first, first_status).record(second, second_status) == state.record(
            second,
            second_status,
        ).record(first, first_status),
{
    let one_way = state.record(first, first_status).record(second, second_status);
    let other_way = state.record(second, second_status).record(first, first_status);
    assert(one_way.results =~= other_way.results);
}

/// A scan never stalls: in a well-formed state the next action is to wait
/// only while a request is under way, and to finish only when every job has
/// its status; and a scan that is done has nothing left to start or await.
pub proof fn lemma_progress(state: ScanView)
    requires
        state.wf(),
    ensures
        state.next_action() is Wait ==> state.in_flight() > 0,
        state.next_action() is Finished <==> state.done(),
        state.done() ==> state.issued == state.jobs.len() && state.in_flight() == 0,
{
    lemma_settled_below(state.results, state.issued as int);
}

/// A finished scan holds exactly one link per job, in the jobs' order.
pub proof fn lemma_one_link_per_job(state: ScanView)
    ensures
        state.links().len() == state.jobs.len(),
        forall|i: int|
            0 <= i < state.jobs.len() ==> (#[trigger] state.links()[i]).url == state.jobs[i].url
                && state.links()[i].referrer == state.jobs[i].referrer,
{
}

/// Documents are scanned independently of each other: the jobs of two
/// collections taken together are the jobs of the first followed by the
/// jobs of the second.
pub proof fn lemma_jobs_for_concat(
    pattern: UrlPattern,
    first: Seq<DocumentView>,
    second: Seq<DocumentView>,
)
    ensures
        jobs_for(pattern, first + second) == jobs_for(pattern, first) + jobs_for(pattern, second),
    decreases second.len(),
{
    if second.len() == 0 {
        assert(first + second =~= first);
        assert(jobs_for(pattern, first) + jobs_for(pattern, second) =~= jobs_for(pattern, first));
    } else {
        let both = first + second;
        assert(both.drop_last() =~= first + second.drop_last());
        assert(both.last() == second.last());
        lemma_jobs_for_concat(pattern, first, second.drop_last());
        assert(jobs_for(pattern, both) =~= jobs_for(pattern, first) + jobs_for(pattern, second));
    }
}

/// A scan of one document holds exactly one job per URL found in its text,
/// with the URLs in order of appearance.
pub proof fn lemma_one_job_per_url(pattern: UrlPattern, document: DocumentView)
    ensures
        jobs_for(pattern, seq![document]).len() == pattern.urls_in(document.text).len(),
        forall|i: int|
            0 <= i < pattern.urls_in(document.text).len() ==> (#[trigger] jobs_for(
                pattern,
                seq![document],
            )[i]).url == pattern.urls_in(document.text)[i],
{
    let documents = seq![document];
    assert(documents.drop_last() =~= Seq::<DocumentView>::empty());
    assert(jobs_for(pattern, documents.drop_last()) =~= Seq::<JobView>::empty());
    assert(jobs_for(pattern, documents) =~= jobs_in(pattern, document));
}

/// The links of a scan that is done carry `OK` or `Error`, nothing else: the
/// two counts add up to the number of links.
pub proof fn lemma_links_are_ok_or_error(state: ScanView)
    requires
        state.wf(),
        state.done(),
    ensures
        forall|i: int| 0 <= i < state.links().len() ==> is_verdict((#[trigger] state.links()[i]).status),
        count_warnings(state.links()) == 0,
        count_skipped(state.links()) == 0,
        count_ok(state.links()) + count_errors(state.links()) == state.jobs.len(),
{
    lemma_settled_all(state.results);
    assert forall|i: int| 0 <= i < state.links().len() implies is_verdict(
        (#[trigger] state.links()[i]).status,
    ) by {
        assert(state.results[i] is Some);
    }
    lemma_verdicts_only(state.links());
    lemma_counts_sum_to_total(state.links());
}

/// Scanning one document yields exactly one link per URL found in its
/// text: as many links as URLs, the i-th link holding the i-th URL and
/// naming the document.
pub proof fn lemma_one_link_per_url(pattern: UrlPattern, document: DocumentView, state: ScanView)
    requires
        state.jobs == jobs_for(pattern, seq![document]),
    ensures
        state.links().len() == pattern.urls_in(document.text).len(),
        forall|i: int|
            0 <= i < state.links().len() ==> (#[trigger] state.links()[i]).url == pattern.urls_in(
                document.text,
            )[i] && state.links()[i].referrer == document.referrer,
{
    lemma_one_job_per_url(pattern, document);
    lemma_one_link_per_job(state);
    assert(jobs_for(pattern, seq![document]) =~= jobs_in(pattern, document)) by {
        assert(seq![document].drop_last() =~= Seq::<DocumentView>::empty());
    }
}

} // verus!
