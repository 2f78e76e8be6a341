//! Executable discovery: the ordered candidate plan and the fallback
//! state machine that drives attempts against it.
//!
//! Probing a location and running the tool are host capabilities; the
//! machine here only decides, after each reported attempt, whether to try
//! the next candidate, finish with the attempt's outcome, or give up.

use vstd::prelude::*;

use crate::error::Error;
use crate::text::split_sep;
use vstd::string::StrSliceExecFns;
use vstd::string::StringExecFns;

verus! {

/// The captured outcome of one run of the external tool.
#[derive(Debug)]
pub struct ToolOutput {
    pub exit_code: i32,
    pub stdout: Vec<u8>,
    pub stderr: Vec<u8>,
}

/// What one attempt at a candidate location came to.
#[derive(Debug)]
pub enum AttemptResult {
    /// No runnable executable at this location.
    NotFound,
    /// The attempt failed for a reason other than absence (the spawn
    /// failed, or the host could not resolve the location at all).
    Failed(Error),
    /// The tool ran to completion; its exit status and captured streams.
    Ran(ToolOutput),
}

/// One location to probe for the executable.
#[derive(Debug)]
pub enum Candidate {
    /// A concrete executable path.
    AtPath(String),
    /// The well-known installer folder, resolved by the host's
    /// known-folder capability at attempt time.
    InstallerFolder,
}

/// The candidate executable path within one search directory.
pub open spec fn dir_candidate_chars(dir: Seq<char>) -> Seq<char> {
    dir + "\\vswhere.exe"@
}

/// The ordered candidate locations for one discovery run: an explicit
/// override path is the only candidate; otherwise each search directory
/// is probed for the executable by name, in listed order, and the
/// installer folder is the final fallback.
pub fn discovery_plan(override_path: Option<String>, search_dirs: &Vec<String>) -> (r: Vec<
    Candidate,
>)
    ensures
        r@.len() >= 1,
        match override_path {
            Some(p) => r@ == seq![Candidate::AtPath(p)],
            None => {
                &&& r@.len() == search_dirs@.len() + 1
                &&& forall|i: int|
                    0 <= i < search_dirs@.len() ==> ((#[trigger] r@[i]) matches Candidate::AtPath(q)
                        && q@ == dir_candidate_chars(search_dirs@[i]@))
                &&& r@[search_dirs@.len() as int] is InstallerFolder
            },
        },
{
    let mut plan: Vec<Candidate> = Vec::new();
    match override_path {
        Some(p) => {
            plan.push(Candidate::AtPath(p));
        },
        None => {
            let mut i: usize = 0;
            while i < search_dirs.len()
                invariant
                    i <= search_dirs@.len(),
                    plan@.len() == i,
                    forall|k: int|
                        0 <= k < i ==> ((#[trigger] plan@[k]) matches Candidate::AtPath(q) && q@
                            == dir_candidate_chars(search_dirs@[k]@)),
                decreases search_dirs@.len() - i,
            {
                let full = search_dirs[i].clone().concat("\\vswhere.exe");
                plan.push(Candidate::AtPath(full));
                i = i + 1;
            }
            plan.push(Candidate::InstallerFolder);
        },
    }
    plan
}

/// Splits a PATH-like search list on `;`, keeping order and empty entries.
pub fn split_search_list(list: &str) -> (r: Vec<String>)
    ensures
        r.deep_view() == split_sep(list@, ';'),
{
    let ghost segs = split_sep(list@, ';');
    let n = list.unicode_len();
    let mut pieces: Vec<String> = Vec::new();
    let mut pos: usize = 0;
    proof {
        assert(list@.skip(0) =~= list@);
        assert(segs.skip(0) =~= segs);
        assert(pieces.deep_view() =~= segs.take(0));
    }
    loop
        invariant_except_break
            split_sep(list@.skip(pos as int), ';') =~= segs.skip(pieces@.len() as int),
        invariant
            n == list@.len(),
            pos <= n,
            segs == split_sep(list@, ';'),
            pieces@.len() <= segs.len(),
            pieces.deep_view() =~= segs.take(pieces@.len() as int),
        ensures
            pieces@.len() == segs.len(),
            pieces.deep_view() =~= segs.take(pieces@.len() as int),
        decreases n - pos,
    {
        let ghost k = pieces@.len() as int;
        proof {
            assert(segs.skip(k + 1) =~= segs.skip(k).drop_first());
        }
        match crate::text::find_char(list, pos, n, ';') {
            Some(d) => {
                proof {
                    let suffix = list@.skip(pos as int);
                    assert(suffix[d - pos] == ';');
                    assert(forall|j: int| 0 <= j < d - pos ==> suffix[j] != ';');
                    crate::text::lemma_split_sep_at(suffix, ';', d - pos);
                    assert(suffix.take(d - pos) =~= list@.subrange(pos as int, d as int));
                    assert(suffix.skip(d - pos + 1) =~= list@.skip(d + 1));
                    assert(segs.skip(k)[0] == segs[k]);
                    assert(segs[k] == list@.subrange(pos as int, d as int));
                    assert(segs.skip(k + 1) =~= split_sep(list@.skip(d + 1), ';'));
                }
                let piece = String::from_str(list.substring_char(pos, d));
                pieces.push(piece);
                proof {
                    assert(pieces.deep_view() =~= segs.take(k + 1));
                }
                pos = d + 1;
            },
            None => {
                proof {
                    let suffix = list@.skip(pos as int);
                    assert(forall|j: int| 0 <= j < suffix.len() ==> suffix[j] != ';');
                    crate::text::lemma_split_sep_none(suffix, ';');
                    assert(segs.skip(k)[0] == segs[k]);
                    assert(segs[k] == suffix);
                    assert(suffix =~= list@.subrange(pos as int, n as int));
                    assert(segs.len() == k + 1);
                }
                let piece = String::from_str(list.substring_char(pos, n));
                pieces.push(piece);
                proof {
                    assert(pieces.deep_view() =~= segs.take(k + 1));
                }
                break ;
            },
        }
    }
    proof {
        assert(segs.take(segs.len() as int) =~= segs);
    }
    pieces
}

/// The decision one attempt's result forces: a completed run or a hard
/// failure ends discovery at once; absence does not.
pub open spec fn decision(r: AttemptResult) -> Option<Result<ToolOutput, Error>> {
    match r {
        AttemptResult::NotFound => None,
        AttemptResult::Failed(e) => Some(Err(e)),
        AttemptResult::Ran(o) => Some(Ok(o)),
    }
}

/// The aggregate result of trying candidates in order, one attempt result
/// per candidate tried: the first decisive result ends the run, and a run
/// that exhausts all candidates without a decisive result ends in
/// `NotFound`.
pub open spec fn discovery_result(results: Seq<AttemptResult>) -> Result<ToolOutput, Error>
    decreases results.len(),
{
    if results.len() == 0 {
        Err(Error::NotFound)
    } else {
        match decision(results[0]) {
            Some(d) => d,
            None => discovery_result(results.drop_first()),
        }
    }
}

/// Discovery tries strategies in declared order and stops at the first
/// decisive result: if attempt `i` is the first decisive one, the
/// aggregate result is exactly its decision — whatever the later attempts
/// would have returned.
pub proof fn lemma_discovery_first_decisive(results: Seq<AttemptResult>, i: int)
    requires
        0 <= i < results.len(),
        decision(results[i]) is Some,
        forall|j: int| 0 <= j < i ==> decision(#[trigger] results[j]) is None,
    ensures
        discovery_result(results) == decision(results[i]).unwrap(),
    decreases i,
{
    if i > 0 {
        lemma_discovery_first_decisive(results.drop_first(), i - 1);
    }
}

/// A run whose every attempt found nothing aggregates to `NotFound`.
pub proof fn lemma_discovery_all_absent(results: Seq<AttemptResult>)
    requires
        forall|j: int| 0 <= j < results.len() ==> decision(#[trigger] results[j]) is None,
    ensures
        discovery_result(results) == Err::<ToolOutput, Error>(Error::NotFound),
    decreases results.len(),
{
    if results.len() > 0 {
        lemma_discovery_all_absent(results.drop_first());
    }
}

/// The fallback state machine over an ordered candidate plan. A host
/// repeatedly attempts `current()` and feeds the outcome to `report`,
/// which either continues with the next candidate or finishes.
#[derive(Debug)]
pub struct Discovery {
    candidates: Vec<Candidate>,
    next: usize,
}

/// What the machine decides after one reported attempt.
#[derive(Debug)]
pub enum DiscoveryOutcome {
    /// Attempt the enclosed machine's current candidate next.
    Continue(Discovery),
    /// Discovery is over, with the tool's output or the aggregate error.
    Finished(Result<ToolOutput, Error>),
}

impl Discovery {
    /// The remaining and already-tried candidates, in plan order.
    pub closed spec fn plan(&self) -> Seq<Candidate> {
        self.candidates@
    }

    /// The index of the candidate to try next.
    pub closed spec fn cursor(&self) -> int {
        self.next as int
    }

    /// A live machine still has a candidate to try.
    pub open spec fn wf(&self) -> bool {
        0 <= self.cursor() < self.plan().len()
    }

    /// Starts a discovery run over a non-empty candidate plan.
    pub fn new(candidates: Vec<Candidate>) -> (r: Self)
        requires
            candidates@.len() >= 1,
        ensures
            r.wf(),
            r.plan() == candidates@,
            r.cursor() == 0,
    {
        Discovery { candidates, next: 0 }
    }

    /// The candidate the host should attempt now.
    pub fn current(&self) -> (r: &Candidate)
        requires
            self.wf(),
        ensures
            *r == self.plan()[self.cursor()],
    {
        &self.candidates[self.next]
    }

    /// Feeds back the result of attempting `current()`. A completed run or
    /// a hard failure finishes discovery with that outcome at once; an
    /// absent executable falls through to the next candidate, or to the
    /// aggregate `NotFound` once the plan is exhausted.
    pub fn report(self, result: AttemptResult) -> (r: DiscoveryOutcome)
        requires
            self.wf(),
        ensures
            match result {
                AttemptResult::Ran(out) => r == DiscoveryOutcome::Finished(
                    Ok::<ToolOutput, Error>(out),
                ),
                AttemptResult::Failed(e) => r == DiscoveryOutcome::Finished(
                    Err::<ToolOutput, Error>(e),
                ),
                AttemptResult::NotFound => if self.cursor() + 1 < self.plan().len() {
                    r matches DiscoveryOutcome::Continue(d) && d.wf() && d.plan() == self.plan()
                        && d.cursor() == self.cursor() + 1
                } else {
                    r == DiscoveryOutcome::Finished(Err::<ToolOutput, Error>(Error::NotFound))
                },
            },
    {
        match result {
            AttemptResult::Ran(out) => DiscoveryOutcome::Finished(Ok(out)),
            AttemptResult::Failed(e) => DiscoveryOutcome::Finished(Err(e)),
            AttemptResult::NotFound => {
                if self.next < self.candidates.len() - 1 {
                    DiscoveryOutcome::Continue(
                        Discovery { candidates: self.candidates, next: self.next + 1 },
                    )
                } else {
                    DiscoveryOutcome::Finished(Err(Error::NotFound))
                }
            },
        }
    }
}

/// Replays a discovery run against a fixed sequence of attempt results,
/// one per candidate: exactly what a host loop does, with the attempts
/// already made. The outcome is the first decisive result, or `NotFound`
/// when there is none.
pub fn run_with_results(candidates: Vec<Candidate>, results: Vec<AttemptResult>) -> (r: Result<
    ToolOutput,
    Error,
>)
    requires
        candidates@.len() >= 1,
        results@.len() == candidates@.len(),
    ensures
        r == discovery_result(results@),
{
    let mut machine = Discovery::new(candidates);
    let mut remaining = results;
    loop
        invariant
            machine.wf(),
            machine.plan().len() - machine.cursor() == remaining@.len(),
            remaining@.len() >= 1,
            discovery_result(results@) == discovery_result(remaining@),
        decreases remaining@.len(),
    {
        let ghost pre = remaining@;
        let attempt = remaining.remove(0);
        proof {
            assert(attempt == pre[0]);
            assert(remaining@ =~= pre.drop_first());
        }
        match machine.report(attempt) {
            DiscoveryOutcome::Continue(d) => {
                machine = d;
            },
            DiscoveryOutcome::Finished(outcome) => {
                return outcome;
            },
        }
    }
}

} // verus!
