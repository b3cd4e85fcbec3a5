//! The answer to a solve, made of the results of its jobs.

use crate::accelerator::{
    gpu_status_from_report, merged_report, merging_reports_loses_nothing, summary_of,
    AcceleratorReport, GpuStatus, Report,
};
use crate::config::NodeRole;
use crate::jobs::{copy_lp, findings, lp_view, Finding, SubproblemResult};
use crate::model::{copy_numbers, text_view};
use crate::number::{total_order_tells_encodings_apart, Double};
use crate::response::{Answer, SolveResponse};
use crate::text::{same, texts};
use crate::verification::{check_view, CheckReport, ExternalVerificationReport};
use vstd::prelude::*;
use vstd::string::*;

verus! {

/// Whether a result holds a solution.
pub open spec fn is_feasible(r: Finding) -> bool {
    r.ok && r.z is Some && r.x.len() > 0
}

/// Whether an objective is better than another one.
pub open spec fn better(maximize: bool, a: Double, b: Double) -> bool {
    if maximize {
        b.total_rank() < a.total_rank()
    } else {
        a.total_rank() < b.total_rank()
    }
}

/// Whether a result is the incumbent: it holds a solution, none is better, and no
/// earlier one is as good.
pub open spec fn is_incumbent(results: Seq<Finding>, maximize: bool, i: int) -> bool {
    &&& 0 <= i < results.len()
    &&& is_feasible(results[i])
    &&& forall|j: int|
        0 <= j < results.len() && is_feasible(#[trigger] results[j]) ==> !better(
            maximize,
            results[j].z->0,
            results[i].z->0,
        )
    &&& forall|j: int|
        0 <= j < i && is_feasible(#[trigger] results[j]) ==> better(
            maximize,
            results[i].z->0,
            results[j].z->0,
        )
}

/// Finds the incumbent.
pub fn incumbent(results: &Vec<SubproblemResult>, maximize: bool) -> (r: Option<usize>)
    ensures
        match r {
            Some(i) => is_incumbent(findings(results@), maximize, i as int),
            None => forall|j: int|
                0 <= j < results@.len() ==> !is_feasible(#[trigger] findings(results@)[j]),
        },
{
    let ghost all = findings(results@);
    let mut best: Option<usize> = None;
    let mut i: usize = 0;
    while i < results.len()
        invariant
            i <= results@.len(),
            all == findings(results@),
            match best {
                Some(b) => {
                    &&& b < i
                    &&& is_feasible(all[b as int])
                    &&& forall|j: int|
                        0 <= j < i && is_feasible(#[trigger] all[j]) ==> !better(
                            maximize,
                            all[j].z->0,
                            all[b as int].z->0,
                        )
                    &&& forall|j: int|
                        0 <= j < b && is_feasible(#[trigger] all[j]) ==> better(
                            maximize,
                            all[b as int].z->0,
                            all[j].z->0,
                        )
                },
                None => forall|j: int| 0 <= j < i ==> !is_feasible(#[trigger] all[j]),
            },
        decreases results@.len() - i,
    {
        let r = &results[i];
        assert(all[i as int] == r@);
        if r.ok && r.x.len() > 0 {
            if let Some(z) = r.z {
                match best {
                    None => {
                        best = Some(i);
                    },
                    Some(b) => {
                        assert(all[b as int] == results@[b as int]@);
                        if let Some(top) = results[b].z {
                            let is_better = if maximize {
                                top.is_before(z)
                            } else {
                                z.is_before(top)
                            };
                            if is_better {
                                best = Some(i);
                            }
                        }
                    },
                }
            }
        }
        i = i + 1;
    }
    best
}

/// Whether a bound is at least as wide as another one: the greatest where the
/// objective is maximised, the least where it is minimised; an undefined bound
/// gives way.
pub open spec fn wider(maximize: bool, a: Double, b: Double) -> bool {
    b.nan() || (!a.nan() && if maximize {
        b.rank() <= a.rank()
    } else {
        a.rank() <= b.rank()
    })
}

/// Whether a bound is the bound of a list of results: that of one of them, and as
/// wide as that of any.
pub open spec fn is_overall_bound(results: Seq<Finding>, maximize: bool, bound: Option<Double>) -> bool {
    match bound {
        None => forall|j: int|
            0 <= j < results.len() ==> (#[trigger] results[j]).best_bound is None,
        Some(b) => {
            &&& exists|j: int|
                0 <= j < results.len() && (#[trigger] results[j]).best_bound == Some(b)
            &&& forall|j: int|
                0 <= j < results.len() && (#[trigger] results[j]).best_bound is Some ==> wider(
                    maximize,
                    b,
                    results[j].best_bound->0,
                )
        },
    }
}

/// The bound of a list of results.
pub fn overall_bound(results: &Vec<SubproblemResult>, maximize: bool) -> (r: Option<Double>)
    ensures
        is_overall_bound(findings(results@), maximize, r),
{
    let ghost all = findings(results@);
    let mut best: Option<Double> = None;
    let mut i: usize = 0;
    while i < results.len()
        invariant
            i <= results@.len(),
            all == findings(results@),
            match best {
                None => forall|j: int| 0 <= j < i ==> (#[trigger] all[j]).best_bound is None,
                Some(b) => {
                    &&& exists|j: int| 0 <= j < i && (#[trigger] all[j]).best_bound == Some(b)
                    &&& forall|j: int|
                        0 <= j < i && (#[trigger] all[j]).best_bound is Some ==> wider(
                            maximize,
                            b,
                            all[j].best_bound->0,
                        )
                },
            },
        decreases results@.len() - i,
    {
        assert(all[i as int] == results@[i as int]@);
        if let Some(c) = results[i].best_bound {
            match best {
                None => {
                    best = Some(c);
                },
                Some(b) => {
                    let replace = if b.is_nan() {
                        true
                    } else if c.is_nan() {
                        false
                    } else if maximize {
                        b.is_below(c)
                    } else {
                        c.is_below(b)
                    };
                    if replace {
                        best = Some(c);
                    }
                },
            }
        }
        i = i + 1;
    }
    best
}

/// Whether some result ended in a given way.
pub open spec fn some_status(results: Seq<Finding>, status: Seq<char>) -> bool {
    exists|i: int| 0 <= i < results.len() && (#[trigger] results[i]).status == status
}

/// Whether every job ended with an optimum or without a solution.
pub open spec fn all_decided(results: Seq<Finding>) -> bool {
    forall|i: int|
        0 <= i < results.len() ==> (#[trigger] results[i]).status == "optimal"@ || results[i].status
            == "infeasible"@
}

/// How a solve ended.
pub open spec fn overall_status(
    results: Seq<Finding>,
    has_incumbent: bool,
    jobs_expected: nat,
    timed_out: bool,
) -> Seq<char> {
    if has_incumbent && results.len() == jobs_expected && !timed_out && all_decided(results) {
        "optimal"@
    } else if has_incumbent {
        "feasible-partial"@
    } else if some_status(results, "unbounded"@) {
        "unbounded"@
    } else if timed_out {
        "timeout"@
    } else if some_status(results, "error"@) || some_status(results, "iter-limit"@) || some_status(
        results,
        "numerical-error"@,
    ) {
        "error"@
    } else {
        "infeasible"@
    }
}

fn has_status(results: &Vec<SubproblemResult>, status: &str) -> (r: bool)
    ensures
        r == some_status(findings(results@), status@),
{
    let ghost all = findings(results@);
    let mut i: usize = 0;
    while i < results.len()
        invariant
            i <= results@.len(),
            all == findings(results@),
            forall|j: int| 0 <= j < i ==> (#[trigger] all[j]).status != status@,
        decreases results@.len() - i,
    {
        assert(all[i as int] == results@[i as int]@);
        if same(results[i].status.as_str(), status) {
            return true;
        }
        i = i + 1;
    }
    false
}

fn are_all_decided(results: &Vec<SubproblemResult>) -> (r: bool)
    ensures
        r == all_decided(findings(results@)),
{
    let ghost all = findings(results@);
    let mut i: usize = 0;
    while i < results.len()
        invariant
            i <= results@.len(),
            all == findings(results@),
            forall|j: int|
                0 <= j < i ==> (#[trigger] all[j]).status == "optimal"@ || all[j].status
                    == "infeasible"@,
        decreases results@.len() - i,
    {
        assert(all[i as int] == results@[i as int]@);
        let s = results[i].status.as_str();
        if !same(s, "optimal") && !same(s, "infeasible") {
            return false;
        }
        i = i + 1;
    }
    true
}

/// How a solve ended, given whether it has an incumbent.
pub fn solve_status(
    results: &Vec<SubproblemResult>,
    has_incumbent: bool,
    jobs_expected: usize,
    timed_out: bool,
) -> (r: &'static str)
    ensures
        r@ == overall_status(findings(results@), has_incumbent, jobs_expected as nat, timed_out),
{
    if has_incumbent {
        if results.len() == jobs_expected && !timed_out && are_all_decided(results) {
            "optimal"
        } else {
            "feasible-partial"
        }
    } else if has_status(results, "unbounded") {
        "unbounded"
    } else if timed_out {
        "timeout"
    } else if has_status(results, "error") || has_status(results, "iter-limit") || has_status(
        results,
        "numerical-error",
    ) {
        "error"
    } else {
        "infeasible"
    }
}

/// A report with the reports of the results taken in.
pub open spec fn merged_reports(start: Report, results: Seq<Finding>) -> Report
    decreases results.len(),
{
    if results.len() == 0 {
        start
    } else {
        merged_report(merged_reports(start, results.drop_last()), results.last().accelerator)
    }
}

/// The summary of what the node and its workers used.
pub fn aggregate_gpu_status(start: AcceleratorReport, results: &Vec<SubproblemResult>) -> (r:
    GpuStatus)
    ensures
        r@ == summary_of(merged_reports(start@, findings(results@))),
{
    let ghost all = findings(results@);
    let mut report = start;
    let mut i: usize = 0;
    assert(all.take(0) =~= Seq::empty());
    while i < results.len()
        invariant
            i <= results@.len(),
            all == findings(results@),
            report@ == merged_reports(start@, all.take(i as int)),
        decreases results@.len() - i,
    {
        assert(all.take(i + 1).drop_last() =~= all.take(i as int));
        assert(all.take(i + 1).last() == results@[i as int]@);
        report.merge(&results[i].accelerator);
        i = i + 1;
    }
    assert(all.take(i as int) =~= all);
    gpu_status_from_report(&report)
}

/// What a solve is, and how far it has come.
#[derive(Debug)]
pub struct SolveTally {
    pub solve_id: String,
    pub request_id: String,
    pub problem_id: Option<String>,
    pub revision: u64,
    pub maximize: bool,
    pub jobs_expected: usize,
    pub jobs_published: usize,
    pub jobs_redelegated: usize,
    pub jobs_split: usize,
    pub timed_out: bool,
    pub distributed: bool,
    pub node_id: String,
    pub role: NodeRole,
    pub warnings: Vec<String>,
    pub generated_at_ms: u128,
}

/// What the jobs of a solve came to.
#[derive(Debug)]
pub struct SolveTotals {
    pub results: Vec<SubproblemResult>,
    pub jobs_expected: usize,
    pub jobs_published: usize,
    pub jobs_redelegated: usize,
    pub jobs_split: usize,
    pub timed_out: bool,
    pub warnings: Vec<String>,
}

/// What the jobs of a solve came to, by contents.
#[verifier::ext_equal]
pub struct Totals {
    pub results: Seq<Finding>,
    pub jobs_expected: usize,
    pub jobs_published: usize,
    pub jobs_redelegated: usize,
    pub jobs_split: usize,
    pub timed_out: bool,
    pub warnings: Seq<Seq<char>>,
}

impl View for SolveTotals {
    type V = Totals;

    open spec fn view(&self) -> Totals {
        Totals {
            results: findings(self.results@),
            jobs_expected: self.jobs_expected,
            jobs_published: self.jobs_published,
            jobs_redelegated: self.jobs_redelegated,
            jobs_split: self.jobs_split,
            timed_out: self.timed_out,
            warnings: texts(self.warnings@),
        }
    }
}

/// What a linear program came to: its one job was sent out once.
pub fn lp_totals(result: SubproblemResult) -> (r: SolveTotals)
    ensures
        r@ == (Totals {
            results: seq![result@],
            jobs_expected: 1,
            jobs_published: 1,
            jobs_redelegated: 0,
            jobs_split: 0,
            timed_out: false,
            warnings: Seq::empty(),
        }),
{
    let mut results: Vec<SubproblemResult> = Vec::new();
    results.push(result);
    let r = SolveTotals {
        results,
        jobs_expected: 1,
        jobs_published: 1,
        jobs_redelegated: 0,
        jobs_split: 0,
        timed_out: false,
        warnings: Vec::new(),
    };
    assert(findings(r.results@) =~= seq![result@]);
    assert(texts(r.warnings@) =~= Seq::empty());
    r
}

/// What a solve without jobs came to.
pub fn no_job_totals(warnings: Vec<String>) -> (r: SolveTotals)
    ensures
        r@ == (Totals {
            results: Seq::empty(),
            jobs_expected: 0,
            jobs_published: 0,
            jobs_redelegated: 0,
            jobs_split: 0,
            timed_out: false,
            warnings: texts(warnings@),
        }),
{
    let r = SolveTotals {
        results: Vec::new(),
        jobs_expected: 0,
        jobs_published: 0,
        jobs_redelegated: 0,
        jobs_split: 0,
        timed_out: false,
        warnings,
    };
    assert(findings(r.results@) =~= Seq::empty());
    r
}

/// The warning about a solve that ran out of time.
pub open spec fn timeout_warning() -> Seq<char> {
    "solve timed out before every subproblem result returned"@
}

/// The warnings of an answer.
pub open spec fn all_warnings(
    given: Seq<Seq<char>>,
    timed_out: bool,
    check: Option<(CheckReport, Option<Seq<char>>)>,
) -> Seq<Seq<char>> {
    let w = if timed_out {
        given.push(timeout_warning())
    } else {
        given
    };
    match check {
        Some((_, Some(warning))) => w.push(warning),
        _ => w,
    }
}

/// The answer that results make, given which of them is the incumbent and the
/// bound of all. The gap counts only where both are there.
pub open spec fn answer_of(
    tally: SolveTally,
    results: Seq<Finding>,
    best: Option<int>,
    bound: Option<Double>,
    gap: Double,
    check: Option<(CheckReport, Option<Seq<char>>)>,
    start: Report,
) -> Answer {
    let status = overall_status(
        results,
        best is Some,
        tally.jobs_expected as nat,
        tally.timed_out,
    );
    Answer {
        ok: best is Some || status == "infeasible"@,
        solve_id: tally.solve_id@,
        request_id: tally.request_id@,
        problem_id: text_view(tally.problem_id),
        status,
        revision: tally.revision,
        z: match best {
            Some(i) => results[i].z,
            None => None,
        },
        x: match best {
            Some(i) => results[i].x,
            None => Seq::empty(),
        },
        best_bound: bound,
        gap: if best is Some && bound is Some {
            Some(gap)
        } else {
            None
        },
        lp: match best {
            Some(i) => results[i].lp,
            None => None,
        },
        jobs_expected: tally.jobs_expected,
        jobs_published: tally.jobs_published,
        jobs_completed: results.len() as usize,
        jobs_redelegated: tally.jobs_redelegated,
        jobs_split: tally.jobs_split,
        timed_out: tally.timed_out,
        distributed: tally.distributed,
        node_id: tally.node_id@,
        role: tally.role,
        gpu: summary_of(merged_reports(start, results)),
        external_verification: match check {
            Some((report, _)) => Some(report),
            None => None,
        },
        warnings: all_warnings(texts(tally.warnings@), tally.timed_out, check),
        generated_at_ms: tally.generated_at_ms,
    }
}

/// Makes the answer to a solve of the results of its jobs. `gap` is the distance
/// between the incumbent and the bound; `verification` is what came of checking
/// the result.
pub fn aggregate_results(
    tally: SolveTally,
    results: Vec<SubproblemResult>,
    gap: Double,
    verification: Option<(ExternalVerificationReport, Option<String>)>,
    start: AcceleratorReport,
) -> (r: SolveResponse)
    ensures
        exists|best: Option<int>, bound: Option<Double>|
            {
                &&& (match best {
                    Some(i) => is_incumbent(findings(results@), tally.maximize, i),
                    None => forall|j: int|
                        0 <= j < results@.len() ==> !is_feasible(#[trigger] findings(results@)[j]),
                })
                &&& is_overall_bound(findings(results@), tally.maximize, bound)
                &&& r@ == #[trigger] answer_of(
                    tally,
                    findings(results@),
                    best,
                    bound,
                    gap,
                    check_view(verification),
                    start@,
                )
            },
        // The answer holds the solution of one result, which no other one beats.
        r.z is Some ==> exists|i: int|
            {
                &&& 0 <= i < results@.len()
                &&& (#[trigger] findings(results@)[i]).ok
                &&& findings(results@)[i].x.len() > 0
                &&& r.z == findings(results@)[i].z
                &&& r.x@ == findings(results@)[i].x
                &&& lp_view(r.lp) == findings(results@)[i].lp
            },
        forall|j: int|
            0 <= j < results@.len() && (#[trigger] findings(results@)[j]).ok && findings(
                results@,
            )[j].z is Some && findings(results@)[j].x.len() > 0 ==> r.z is Some && if tally.maximize {
                findings(results@)[j].z->0.total_rank() <= r.z->0.total_rank()
            } else {
                r.z->0.total_rank() <= findings(results@)[j].z->0.total_rank()
            },
        r.z is None ==> r.x@.len() == 0 && r.lp is None,
        // The bound is that of a result, and as wide as that of any.
        r.best_bound is Some ==> exists|i: int|
            0 <= i < results@.len() && (#[trigger] findings(results@)[i]).best_bound
                == r.best_bound,
        forall|j: int|
            0 <= j < results@.len() && (#[trigger] findings(results@)[j]).best_bound is Some
                ==> r.best_bound is Some && (findings(results@)[j].best_bound->0.nan()
                || !if tally.maximize {
                r.best_bound->0.below(findings(results@)[j].best_bound->0)
            } else {
                findings(results@)[j].best_bound->0.below(r.best_bound->0)
            }),
        r.gap == if r.z is Some && r.best_bound is Some {
            Some(gap)
        } else {
            None
        },
        // It is optimal exactly where it has a solution and every job was decided in
        // time, and good where it is that or says that there is no solution.
        r.status@ == "optimal"@ <==> {
            &&& r.z is Some
            &&& !tally.timed_out
            &&& results@.len() == tally.jobs_expected
            &&& forall|j: int|
                0 <= j < results@.len() ==> (#[trigger] findings(results@)[j]).status
                    == "optimal"@ || findings(results@)[j].status == "infeasible"@
        },
        r.status@ == "infeasible"@ ==> r.z is None && !tally.timed_out && forall|j: int|
            0 <= j < results@.len() ==> (#[trigger] findings(results@)[j]).status != "unbounded"@
                && findings(results@)[j].status != "error"@,
        r.ok == (r.z is Some || r.status@ == "infeasible"@),
        // It counts as the solve did, and keeps what was warned of.
        r.jobs_expected == tally.jobs_expected,
        r.jobs_published == tally.jobs_published,
        r.jobs_completed == results@.len(),
        r.jobs_redelegated == tally.jobs_redelegated,
        r.jobs_split == tally.jobs_split,
        r.timed_out == tally.timed_out,
        r.distributed == tally.distributed,
        r.revision == tally.revision,
        r.solve_id@ == tally.solve_id@,
        r.request_id@ == tally.request_id@,
        text_view(r.problem_id) == text_view(tally.problem_id),
        texts(r.warnings@).len() >= tally.warnings@.len(),
        forall|j: int|
            0 <= j < tally.warnings@.len() ==> texts(r.warnings@)[j]
                == #[trigger] tally.warnings@[j]@,
        tally.timed_out ==> texts(r.warnings@).contains(
            "solve timed out before every subproblem result returned"@,
        ),
{
    let ghost given = tally;
    let ghost start_report = start@;
    let ghost check = check_view(verification);
    let ghost all = findings(results@);
    let best = incumbent(&results, tally.maximize);
    let bound = overall_bound(&results, tally.maximize);
    let status = solve_status(&results, best.is_some(), tally.jobs_expected, tally.timed_out);
    let mut warnings = tally.warnings;
    if tally.timed_out {
        let ghost before = warnings@;
        warnings.push("solve timed out before every subproblem result returned".to_owned());
        assert(texts(warnings@) =~= texts(before).push(timeout_warning()));
    }
    let report = match verification {
        Some((report, warning)) => {
            if let Some(w) = warning {
                let ghost before = warnings@;
                warnings.push(w);
                assert(texts(warnings@) =~= texts(before).push(w@));
            }
            Some(report)
        },
        None => None,
    };
    let (z, x, lp) = match best {
        Some(i) => {
            assert(all[i as int] == results@[i as int]@);
            (results[i].z, copy_numbers(&results[i].x), copy_lp(&results[i].lp))
        },
        None => (None, Vec::new(), None),
    };
    let ok = best.is_some() || same(status, "infeasible");
    let completed: usize = results.len();
    let r = SolveResponse {
        ok,
        solve_id: tally.solve_id,
        request_id: tally.request_id,
        problem_id: tally.problem_id,
        status: status.to_owned(),
        revision: tally.revision,
        z,
        x,
        best_bound: bound,
        gap: if best.is_some() && bound.is_some() {
            Some(gap)
        } else {
            None
        },
        lp,
        jobs_expected: tally.jobs_expected,
        jobs_published: tally.jobs_published,
        jobs_completed: completed,
        jobs_redelegated: tally.jobs_redelegated,
        jobs_split: tally.jobs_split,
        timed_out: tally.timed_out,
        distributed: tally.distributed,
        node_id: tally.node_id,
        role: tally.role,
        gpu: aggregate_gpu_status(start, &results),
        external_verification: report,
        warnings,
        generated_at_ms: tally.generated_at_ms,
    };
    proof {
        let b = match best {
            Some(i) => Some(i as int),
            None => None::<int>,
        };
        assert(r@ =~= answer_of(given, all, b, bound, gap, check, start_report));
        statuses_differ();
        let told = texts(r.warnings@);
        let first = texts(given.warnings@);
        assert(told =~= all_warnings(first, given.timed_out, check));
        assert forall|j: int| 0 <= j < given.warnings@.len() implies told[j]
            == #[trigger] given.warnings@[j]@ by {
            assert(first[j] == given.warnings@[j]@);
        }
        if given.timed_out {
            assert(told[first.len() as int] == timeout_warning());
        }
    }
    r
}

/// An answer is called optimal only where every expected job has been decided in
/// time and one of them holds a solution.
pub proof fn optimal_answers_are_complete(
    tally: SolveTally,
    results: Seq<Finding>,
    best: Option<int>,
    bound: Option<Double>,
    gap: Double,
    check: Option<(CheckReport, Option<Seq<char>>)>,
    start: Report,
)
    requires
        answer_of(tally, results, best, bound, gap, check, start).status == "optimal"@,
    ensures
        best is Some,
        results.len() == tally.jobs_expected,
        !tally.timed_out,
        all_decided(results),
        answer_of(tally, results, best, bound, gap, check, start).ok,
{
    statuses_differ();
}

proof fn statuses_differ()
    ensures
        "optimal"@ != "feasible-partial"@,
        "optimal"@ != "unbounded"@,
        "optimal"@ != "timeout"@,
        "optimal"@ != "error"@,
        "optimal"@ != "infeasible"@,
        "infeasible"@ != "feasible-partial"@,
        "infeasible"@ != "unbounded"@,
        "infeasible"@ != "timeout"@,
        "infeasible"@ != "error"@,
{
    reveal_strlit("optimal");
    reveal_strlit("feasible-partial");
    reveal_strlit("unbounded");
    reveal_strlit("timeout");
    reveal_strlit("error");
    reveal_strlit("infeasible");
    assert("optimal"@.len() == 7);
    assert("optimal"@[0] == 'o');
    assert("timeout"@[0] == 't');
    assert("infeasible"@.len() == 10);
}

/// No solve that ran out of time is called optimal or infeasible.
pub proof fn timeouts_decide_nothing(
    results: Seq<Finding>,
    has_incumbent: bool,
    jobs_expected: nat,
)
    ensures
        overall_status(results, has_incumbent, jobs_expected, true) == "feasible-partial"@
            || overall_status(results, has_incumbent, jobs_expected, true) == "unbounded"@
            || overall_status(results, has_incumbent, jobs_expected, true) == "timeout"@,
{
}

/// The node and its workers used what any of them used, and had what any of them had;
/// the mode is that of the node.
pub proof fn reports_are_gathered(start: Report, results: Seq<Finding>)
    ensures
        merged_reports(start, results).used_gpu <==> start.used_gpu || exists|i: int|
            0 <= i < results.len() && (#[trigger] results[i]).accelerator.used_gpu,
        merged_reports(start, results).gpu_available <==> start.gpu_available || exists|i: int|
            0 <= i < results.len() && (#[trigger] results[i]).accelerator.gpu_available,
        merged_reports(start, results).used_cpu_parallel <==> start.used_cpu_parallel || exists|
            i: int,
        |
            0 <= i < results.len() && (#[trigger] results[i]).accelerator.used_cpu_parallel,
        merged_reports(start, results).mode == start.mode,
    decreases results.len(),
{
    if results.len() > 0 {
        let front = results.drop_last();
        reports_are_gathered(start, front);
        let last = results[results.len() - 1];
        assert forall|i: int| 0 <= i < front.len() implies front[i] == #[trigger] results[i] by {}
        merging_reports_loses_nothing(merged_reports(start, front), last.accelerator);
        assert(merged_reports(start, results).used_gpu == (merged_reports(start, front).used_gpu
            || last.accelerator.used_gpu));
        if exists|i: int| 0 <= i < results.len() && (#[trigger] results[i]).accelerator.used_gpu {
            let i = choose|i: int|
                0 <= i < results.len() && (#[trigger] results[i]).accelerator.used_gpu;
            if i < front.len() {
                assert(front[i].accelerator.used_gpu);
            }
        }
        if exists|i: int|
            0 <= i < results.len() && (#[trigger] results[i]).accelerator.gpu_available {
            let i = choose|i: int|
                0 <= i < results.len() && (#[trigger] results[i]).accelerator.gpu_available;
            if i < front.len() {
                assert(front[i].accelerator.gpu_available);
            }
        }
        if exists|i: int|
            0 <= i < results.len() && (#[trigger] results[i]).accelerator.used_cpu_parallel {
            let i = choose|i: int|
                0 <= i < results.len() && (#[trigger] results[i]).accelerator.used_cpu_parallel;
            if i < front.len() {
                assert(front[i].accelerator.used_cpu_parallel);
            }
        }
    }
}

/// The answer holds the objective, the point and the linear report of one and the same
/// result, which is feasible and which no other feasible one beats; without a feasible
/// result it holds none of them. Its bound is that of a result, and no result has a wider
/// one.
pub proof fn answers_hold_one_solution(
    tally: SolveTally,
    results: Seq<Finding>,
    best: Option<int>,
    bound: Option<Double>,
    gap: Double,
    check: Option<(CheckReport, Option<Seq<char>>)>,
    start: Report,
)
    requires
        match best {
            Some(i) => is_incumbent(results, tally.maximize, i),
            None => forall|j: int| 0 <= j < results.len() ==> !is_feasible(#[trigger] results[j]),
        },
        is_overall_bound(results, tally.maximize, bound),
    ensures
        ({
            let a = answer_of(tally, results, best, bound, gap, check, start);
            &&& a.z is Some ==> exists|i: int|
                {
                    &&& 0 <= i < results.len()
                    &&& (#[trigger] results[i]).ok && results[i].x.len() > 0
                    &&& a.z == results[i].z && a.x == results[i].x && a.lp == results[i].lp
                }
            &&& forall|j: int|
                0 <= j < results.len() && (#[trigger] results[j]).ok && results[j].z is Some
                    && results[j].x.len() > 0 ==> a.z is Some && if tally.maximize {
                    !a.z->0.below(results[j].z->0)
                } else {
                    !results[j].z->0.below(a.z->0)
                }
            &&& a.z is None ==> a.x.len() == 0 && a.lp is None && a.gap is None
            &&& a.best_bound is None <==> forall|j: int|
                0 <= j < results.len() ==> (#[trigger] results[j]).best_bound is None
            &&& a.best_bound is Some ==> exists|i: int|
                0 <= i < results.len() && (#[trigger] results[i]).best_bound == a.best_bound
            &&& forall|j: int|
                0 <= j < results.len() && (#[trigger] results[j]).best_bound is Some
                    ==> if tally.maximize {
                    !a.best_bound->0.below(results[j].best_bound->0)
                } else {
                    !results[j].best_bound->0.below(a.best_bound->0)
                }
            &&& a.gap is Some <==> a.z is Some && a.best_bound is Some
            &&& a.gap is Some ==> a.gap == Some(gap)
        }),
{
    let a = answer_of(tally, results, best, bound, gap, check, start);
    assert forall|j: int|
        0 <= j < results.len() && (#[trigger] results[j]).ok && results[j].z is Some
            && results[j].x.len() > 0 implies a.z is Some && if tally.maximize {
        !a.z->0.below(results[j].z->0)
    } else {
        !results[j].z->0.below(a.z->0)
    } by {
        assert(is_feasible(results[j]));
        total_order_tells_encodings_apart(a.z->0, results[j].z->0);
        total_order_tells_encodings_apart(results[j].z->0, a.z->0);
    }
}

/// The status of a solve follows from its results: what is complete and in time is
/// optimal; any other solution is partial; without one the solve is unbounded, out of
/// time, in error or infeasible, in this order.
pub proof fn statuses_tell_the_results(
    results: Seq<Finding>,
    has_incumbent: bool,
    jobs_expected: nat,
    timed_out: bool,
)
    ensures
        ({
            let s = overall_status(results, has_incumbent, jobs_expected, timed_out);
            let unbounded = exists|i: int|
                0 <= i < results.len() && (#[trigger] results[i]).status == "unbounded"@;
            let broken = exists|i: int|
                0 <= i < results.len() && ((#[trigger] results[i]).status == "error"@
                    || results[i].status == "iter-limit"@ || results[i].status
                    == "numerical-error"@);
            let decided = forall|i: int|
                0 <= i < results.len() ==> (#[trigger] results[i]).status == "optimal"@
                    || results[i].status == "infeasible"@;
            &&& s == "optimal"@ <==> has_incumbent && !timed_out && results.len() == jobs_expected
                && decided
            &&& s == "feasible-partial"@ <==> has_incumbent && s != "optimal"@
            &&& s == "unbounded"@ <==> !has_incumbent && unbounded
            &&& s == "timeout"@ <==> !has_incumbent && !unbounded && timed_out
            &&& s == "error"@ <==> !has_incumbent && !unbounded && !timed_out && broken
            &&& s == "infeasible"@ <==> !has_incumbent && !unbounded && !timed_out && !broken
        }),
{
    statuses_differ();
    reveal_strlit("optimal");
    reveal_strlit("feasible-partial");
    reveal_strlit("unbounded");
    reveal_strlit("timeout");
    reveal_strlit("error");
    reveal_strlit("infeasible");
    assert("feasible-partial"@.len() == 16 && "unbounded"@.len() == 9 && "timeout"@.len() == 7
        && "error"@.len() == 5);
    if exists|i: int|
        0 <= i < results.len() && ((#[trigger] results[i]).status == "error"@ || results[i].status
            == "iter-limit"@ || results[i].status == "numerical-error"@) {
        let i = choose|i: int|
            0 <= i < results.len() && ((#[trigger] results[i]).status == "error"@
                || results[i].status == "iter-limit"@ || results[i].status == "numerical-error"@);
        assert(some_status(results, results[i].status));
    }
}

/// The answer tells which solve it answers, how many jobs there were of each kind, and
/// what was warned of, in order.
pub proof fn answers_tell_the_solve(
    tally: SolveTally,
    results: Seq<Finding>,
    best: Option<int>,
    bound: Option<Double>,
    gap: Double,
    check: Option<(CheckReport, Option<Seq<char>>)>,
    start: Report,
)
    requires
        results.len() <= usize::MAX,
    ensures
        ({
            let a = answer_of(tally, results, best, bound, gap, check, start);
            &&& a.solve_id == tally.solve_id@ && a.request_id == tally.request_id@
            &&& a.problem_id == text_view(tally.problem_id) && a.revision == tally.revision
            &&& a.jobs_expected == tally.jobs_expected
            &&& a.jobs_published == tally.jobs_published
            &&& a.jobs_completed == results.len()
            &&& a.jobs_redelegated == tally.jobs_redelegated
            &&& a.jobs_split == tally.jobs_split
            &&& a.timed_out == tally.timed_out && a.distributed == tally.distributed
            &&& a.node_id == tally.node_id@ && a.role == tally.role
            &&& a.generated_at_ms == tally.generated_at_ms
            &&& a.ok <==> best is Some || a.status == "infeasible"@
            &&& check is None ==> a.external_verification is None
            &&& check matches Some((report, _)) ==> a.external_verification == Some(report)
            &&& texts(tally.warnings@).is_prefix_of(a.warnings)
            &&& tally.timed_out ==> a.warnings.contains(
                "solve timed out before every subproblem result returned"@,
            )
            &&& check matches Some((_, Some(w))) ==> a.warnings.last() == w
            &&& !tally.timed_out && check is None ==> a.warnings == texts(tally.warnings@)
        }),
{
    let a = answer_of(tally, results, best, bound, gap, check, start);
    let given = texts(tally.warnings@);
    assert(a.warnings.subrange(0, given.len() as int) =~= given);
    if tally.timed_out {
        assert(a.warnings[given.len() as int] == timeout_warning());
    }
}

}
