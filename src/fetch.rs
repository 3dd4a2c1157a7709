//! Querying the sources with bounded retries.
//!
//! A run walks the configured sources in order. The caller performs each
//! fetch and reports how it went; the run decides whether to move on, try the
//! same source again, or give up on it. A source that fails every attempt
//! contributes an empty list and a recorded cause: no single failure ends the
//! run, and every configured source ends up with exactly one list.

use vstd::prelude::*;

use crate::company::{Company, CompanyView};
use crate::correlation::listing_view;
use crate::sources::Parser;

verus! {

/// How many times a failed source is tried again before it is given up.
pub const MAX_RERUNS: usize = 1;

/// What became of one attempt.
#[derive(Debug, Clone, Copy, PartialEq, Eq, Structural)]
pub enum AttemptOutcome {
    /// The source delivered its list; the run moves on.
    Delivered,
    /// The attempt failed and the source will be tried again.
    Retrying,
    /// The attempt failed and no retry is left: the source contributes nothing.
    GaveUp,
}

/// A progress notification for one attempt.
#[derive(Debug, Clone, Copy, PartialEq, Eq, Structural)]
pub struct AttemptReport {
    pub source: Parser,
    /// The number of this attempt on this source, counting from one.
    pub attempt: usize,
    pub outcome: AttemptOutcome,
}

/// The state of a run over the configured sources.
pub struct FetchRun {
    sources: Vec<Parser>,
    max_reruns: usize,
    current: usize,
    reruns_left: usize,
    lists: Vec<Vec<Company>>,
    causes: Vec<Option<String>>,
}

/// The mathematical value of a [`FetchRun`].
pub struct FetchRunView {
    /// The sources, in the order in which they are queried.
    pub sources: Seq<Parser>,
    /// How many retries each source gets.
    pub max_reruns: nat,
    /// The index of the source being fetched; all before it are finished.
    pub current: nat,
    /// How many retries the current source has left.
    pub reruns_left: nat,
    /// One list per finished source: what it delivered, or nothing.
    pub lists: Seq<Seq<CompanyView>>,
    /// One entry per finished source: the cause of its failure, if it failed.
    pub causes: Seq<Option<Seq<char>>>,
}

impl View for FetchRun {
    type V = FetchRunView;

    closed spec fn view(&self) -> FetchRunView {
        FetchRunView {
            sources: self.sources@,
            max_reruns: self.max_reruns as nat,
            current: self.current as nat,
            reruns_left: self.reruns_left as nat,
            lists: self.lists@.map_values(|l: Vec<Company>| listing_view(l)),
            causes: self.causes@.map_values(|c: Option<String>| cause_view(c)),
        }
    }
}

impl FetchRunView {
    /// The run's own consistency: one list and one cause per finished source.
    pub open spec fn wf(self) -> bool {
        &&& self.current <= self.sources.len()
        &&& self.lists.len() == self.current
        &&& self.causes.len() == self.current
        &&& self.reruns_left <= self.max_reruns
        &&& self.max_reruns < usize::MAX
    }

    /// Whether every source has been finished.
    pub open spec fn is_done(self) -> bool {
        self.current == self.sources.len()
    }

    /// The number of the next attempt on the current source, counting from one.
    pub open spec fn attempt_number(self) -> nat {
        (self.max_reruns - self.reruns_left + 1) as nat
    }

    /// An upper bound on the attempts still to come.
    pub open spec fn pending_attempts(self) -> int {
        if self.current < self.sources.len() {
            self.reruns_left + 1 + (self.sources.len() - self.current - 1) * (self.max_reruns + 1)
        } else {
            0
        }
    }
}

impl FetchRun {
    /// A run over `sources` in the given order, each source getting up to
    /// `max_reruns` retries after a failed attempt.
    pub fn new(sources: Vec<Parser>, max_reruns: usize) -> (r: FetchRun)
        requires
            max_reruns < usize::MAX,
        ensures
            r@.wf(),
            r@.sources == sources@,
            r@.max_reruns == max_reruns,
            r@.current == 0,
            r@.reruns_left == max_reruns,
    {
        let r = FetchRun {
            sources,
            max_reruns,
            current: 0,
            reruns_left: max_reruns,
            lists: Vec::new(),
            causes: Vec::new(),
        };
        assert(r@.lists =~= Seq::<Seq<CompanyView>>::empty());
        assert(r@.causes =~= Seq::<Option<Seq<char>>>::empty());
        r
    }

    /// The source to fetch next, or `None` once every source is finished.
    pub fn next_source(&self) -> (r: Option<Parser>)
        requires
            self@.wf(),
        ensures
            self@.is_done() ==> r is None,
            !self@.is_done() ==> r == Some(self@.sources[self@.current as int]),
    {
        if self.current < self.sources.len() {
            Some(self.sources[self.current])
        } else {
            None
        }
    }

    /// Takes in how the attempt on the current source went: its list, or
    /// the cause of its failure. Success moves on at once, even with an
    /// empty list. A failure is retried while retries are left; after the
    /// last one the source is given up with an empty list and its cause.
    pub fn record(&mut self, outcome: Result<Vec<Company>, String>) -> (report: AttemptReport)
        requires
            old(self)@.wf(),
            !old(self)@.is_done(),
        ensures
            final(self)@.wf(),
            final(self)@.sources == old(self)@.sources,
            final(self)@.max_reruns == old(self)@.max_reruns,
            report.source == old(self)@.sources[old(self)@.current as int],
            report.attempt == old(self)@.attempt_number(),
            final(self)@.pending_attempts() < old(self)@.pending_attempts(),
            match outcome {
                Ok(list) => {
                    &&& report.outcome == AttemptOutcome::Delivered
                    &&& final(self)@.current == old(self)@.current + 1
                    &&& final(self)@.reruns_left == old(self)@.max_reruns
                    &&& final(self)@.lists == old(self)@.lists.push(listing_view(list))
                    &&& final(self)@.causes == old(self)@.causes.push(None)
                },
                Err(cause) => if old(self)@.reruns_left > 0 {
                    &&& report.outcome == AttemptOutcome::Retrying
                    &&& final(self)@.current == old(self)@.current
                    &&& final(self)@.reruns_left == old(self)@.reruns_left - 1
                    &&& final(self)@.lists == old(self)@.lists
                    &&& final(self)@.causes == old(self)@.causes
                } else {
                    &&& report.outcome == AttemptOutcome::GaveUp
                    &&& final(self)@.current == old(self)@.current + 1
                    &&& final(self)@.reruns_left == old(self)@.max_reruns
                    &&& final(self)@.lists == old(self)@.lists.push(Seq::empty())
                    &&& final(self)@.causes == old(self)@.causes.push(Some(cause@))
                },
            },
    {
        let ghost before = self@;
        let source = self.sources[self.current];
        let attempt = self.max_reruns - self.reruns_left + 1;
        let n = self.sources.len();
        proof {
            let m = before.max_reruns as int;
            let rest = n - before.current - 1;
            assert(rest * (m + 1) >= 0) by (nonlinear_arith)
                requires
                    rest >= 0,
                    m >= 0,
            ;
            if rest > 0 {
                assert((rest - 1) * (m + 1) == rest * (m + 1) - (m + 1)) by (nonlinear_arith);
            }
        }
        match outcome {
            Ok(list) => {
                self.lists.push(list);
                self.causes.push(None);
                self.current = self.current + 1;
                self.reruns_left = self.max_reruns;
                proof {
                    assert(self@.lists =~= before.lists.push(listing_view(list)));
                    assert(self@.causes =~= before.causes.push(None));
                }
                AttemptReport { source, attempt, outcome: AttemptOutcome::Delivered }
            },
            Err(cause) => {
                if self.reruns_left > 0 {
                    self.reruns_left = self.reruns_left - 1;
                    AttemptReport { source, attempt, outcome: AttemptOutcome::Retrying }
                } else {
                    let ghost cause_view = cause@;
                    let nothing: Vec<Company> = Vec::new();
                    assert(listing_view(nothing) =~= Seq::empty());
                    self.lists.push(nothing);
                    self.causes.push(Some(cause));
                    self.current = self.current + 1;
                    self.reruns_left = self.max_reruns;
                    proof {
                        assert(self@.lists =~= before.lists.push(Seq::empty()));
                        assert(self@.causes =~= before.causes.push(Some(cause_view)));
                    }
                    AttemptReport { source, attempt, outcome: AttemptOutcome::GaveUp }
                }
            },
        }
    }

    /// How many finished sources delivered a list.
    pub fn sources_succeeded(&self) -> (r: usize)
        requires
            self@.wf(),
        ensures
            r == succeeded_count(self@.causes),
    {
        let mut count: usize = 0;
        let mut i: usize = 0;
        while i < self.causes.len()
            invariant
                self@.wf(),
                i <= self.causes.len(),
                count == succeeded_count(self@.causes.subrange(0, i as int)),
                count <= i,
            decreases self.causes.len() - i,
        {
            proof {
                assert(self@.causes.subrange(0, i + 1).drop_last() =~= self@.causes.subrange(0, i as int));
            }
            if self.causes[i].is_none() {
                count = count + 1;
            }
            i = i + 1;
        }
        proof {
            assert(self@.causes.subrange(0, i as int) =~= self@.causes);
        }
        count
    }

    /// Ends a finished run: one list per configured source, in source
    /// order, and the number of sources attempted.
    pub fn finish(self) -> (r: (Vec<Vec<Company>>, usize))
        requires
            self@.wf(),
            self@.is_done(),
        ensures
            r.0@.map_values(|l: Vec<Company>| listing_view(l)) == self@.lists,
            r.0.len() == self@.sources.len(),
            r.1 == self@.sources.len(),
    {
        let attempted = self.sources.len();
        (self.lists, attempted)
    }
}

/// A recorded failure cause, as a value.
pub open spec fn cause_view(c: Option<String>) -> Option<Seq<char>> {
    match c {
        Some(s) => Some(s@),
        None => None,
    }
}

/// The number of finished sources that delivered a list.
pub open spec fn succeeded_count(causes: Seq<Option<Seq<char>>>) -> nat
    decreases causes.len(),
{
    if causes.len() == 0 {
        0
    } else {
        succeeded_count(causes.drop_last()) + if causes.last() is None {
            1nat
        } else {
            0nat
        }
    }
}

} // verus!
