//! The answer to a solve request.

use crate::accelerator::{GpuStatus, GpuSummary};
use crate::config::NodeRole;
use crate::jobs::{lp_view, LpReport, LpSolveReport};
use crate::model::{copy_names, text_view};
use crate::number::Double;
use crate::registry::{with_change, SolveEntry, SolveRegistryEntry};
use crate::table::Table;
use crate::text::texts;
use crate::verification::{CheckReport, ExternalVerificationReport};
use vstd::prelude::*;
use vstd::string::*;

verus! {

/// The answer to a solve request.
#[derive(Debug)]
pub struct SolveResponse {
    pub ok: bool,
    pub solve_id: String,
    pub request_id: String,
    pub problem_id: Option<String>,
    pub status: String,
    pub revision: u64,
    pub z: Option<Double>,
    pub x: Vec<Double>,
    pub best_bound: Option<Double>,
    pub gap: Option<Double>,
    pub lp: Option<LpSolveReport>,
    pub jobs_expected: usize,
    pub jobs_published: usize,
    pub jobs_completed: usize,
    pub jobs_redelegated: usize,
    pub jobs_split: usize,
    pub timed_out: bool,
    pub distributed: bool,
    pub node_id: String,
    pub role: NodeRole,
    pub gpu: GpuStatus,
    pub external_verification: Option<ExternalVerificationReport>,
    pub warnings: Vec<String>,
    pub generated_at_ms: u128,
}

/// The contents of an answer.
#[verifier::ext_equal]
pub struct Answer {
    pub ok: bool,
    pub solve_id: Seq<char>,
    pub request_id: Seq<char>,
    pub problem_id: Option<Seq<char>>,
    pub status: Seq<char>,
    pub revision: u64,
    pub z: Option<Double>,
    pub x: Seq<Double>,
    pub best_bound: Option<Double>,
    pub gap: Option<Double>,
    pub lp: Option<LpReport>,
    pub jobs_expected: usize,
    pub jobs_published: usize,
    pub jobs_completed: usize,
    pub jobs_redelegated: usize,
    pub jobs_split: usize,
    pub timed_out: bool,
    pub distributed: bool,
    pub node_id: Seq<char>,
    pub role: NodeRole,
    pub gpu: GpuSummary,
    pub external_verification: Option<CheckReport>,
    pub warnings: Seq<Seq<char>>,
    pub generated_at_ms: u128,
}

impl View for SolveResponse {
    type V = Answer;

    open spec fn view(&self) -> Answer {
        Answer {
            ok: self.ok,
            solve_id: self.solve_id@,
            request_id: self.request_id@,
            problem_id: text_view(self.problem_id),
            status: self.status@,
            revision: self.revision,
            z: self.z,
            x: self.x@,
            best_bound: self.best_bound,
            gap: self.gap,
            lp: lp_view(self.lp),
            jobs_expected: self.jobs_expected,
            jobs_published: self.jobs_published,
            jobs_completed: self.jobs_completed,
            jobs_redelegated: self.jobs_redelegated,
            jobs_split: self.jobs_split,
            timed_out: self.timed_out,
            distributed: self.distributed,
            node_id: self.node_id@,
            role: self.role,
            gpu: self.gpu@,
            external_verification: match self.external_verification {
                Some(r) => Some(r@),
                None => None,
            },
            warnings: texts(self.warnings@),
            generated_at_ms: self.generated_at_ms,
        }
    }
}

/// A solve that has been answered.
pub open spec fn after_answer(e: SolveEntry, a: Answer) -> SolveEntry {
    SolveEntry {
        status: a.status,
        problem_id: if a.problem_id is Some {
            a.problem_id
        } else {
            e.problem_id
        },
        jobs_expected: a.jobs_expected,
        jobs_published: a.jobs_published,
        jobs_completed: a.jobs_completed,
        jobs_redelegated: a.jobs_redelegated,
        jobs_split: a.jobs_split,
        timed_out: a.timed_out,
        warnings: a.warnings,
        updated_at_ms: a.generated_at_ms,
        finished_at_ms: Some(a.generated_at_ms),
        ..e
    }
}

/// Notes that a solve has been answered.
pub fn track_solve_finished(solves: &mut Table<SolveRegistryEntry>, response: &SolveResponse)
    ensures
        final(solves)@ == with_change(
            old(solves)@,
            response.solve_id@,
            |e: SolveEntry| after_answer(e, response@),
        ),
{
    let ghost before = solves@;
    if let Some(mut solve) = solves.remove(response.solve_id.as_str()) {
        solve.status = response.status.clone();
        if response.problem_id.is_some() {
            solve.problem_id = response.problem_id.clone();
        }
        solve.jobs_expected = response.jobs_expected;
        solve.jobs_published = response.jobs_published;
        solve.jobs_completed = response.jobs_completed;
        solve.jobs_redelegated = response.jobs_redelegated;
        solve.jobs_split = response.jobs_split;
        solve.timed_out = response.timed_out;
        solve.warnings = copy_names(&response.warnings);
        solve.updated_at_ms = response.generated_at_ms;
        solve.finished_at_ms = Some(response.generated_at_ms);
        solves.insert(response.solve_id.clone(), solve);
    }
    assert(solves@ =~= with_change(
        before,
        response.solve_id@,
        |e: SolveEntry| after_answer(e, response@),
    ));
}

/// A solve that is answered has ended as the answer says, when the answer was made, with
/// the numbers and the warnings of the answer; its name and its beginning stay.
pub proof fn answered_solves_have_ended(e: SolveEntry, a: Answer)
    ensures
        ({
            let r = after_answer(e, a);
            &&& r.status == a.status
            &&& r.finished_at_ms == Some(a.generated_at_ms)
            &&& r.updated_at_ms == a.generated_at_ms
            &&& r.jobs_expected == a.jobs_expected
            &&& r.jobs_published == a.jobs_published
            &&& r.jobs_completed == a.jobs_completed
            &&& r.jobs_redelegated == a.jobs_redelegated
            &&& r.jobs_split == a.jobs_split
            &&& r.timed_out == a.timed_out
            &&& r.warnings == a.warnings
            &&& a.problem_id is Some ==> r.problem_id == a.problem_id
            &&& a.problem_id is None ==> r.problem_id == e.problem_id
            &&& r.solve_id == e.solve_id && r.request_id == e.request_id && r.started_at_ms
                == e.started_at_ms && r.jobs == e.jobs
        }),
{
}

/// An answer is seen part by part, with nothing left out.
pub proof fn answers_are_seen_part_by_part(v: SolveResponse)
    ensures
        v@.ok == v.ok,
        v@.solve_id == v.solve_id@,
        v@.request_id == v.request_id@,
        v@.problem_id == text_view(v.problem_id),
        v@.status == v.status@,
        v@.revision == v.revision,
        v@.z == v.z,
        v@.x == v.x@,
        v@.best_bound == v.best_bound,
        v@.gap == v.gap,
        v@.lp == lp_view(v.lp),
        v@.jobs_expected == v.jobs_expected,
        v@.jobs_published == v.jobs_published,
        v@.jobs_completed == v.jobs_completed,
        v@.jobs_redelegated == v.jobs_redelegated,
        v@.jobs_split == v.jobs_split,
        v@.timed_out == v.timed_out,
        v@.distributed == v.distributed,
        v@.node_id == v.node_id@,
        v@.role == v.role,
        v@.gpu == v.gpu@,
        v.external_verification matches Some(r) ==> v@.external_verification == Some(r@),
        v.external_verification is None ==> v@.external_verification is None,
        v@.warnings == texts(v.warnings@),
        v@.generated_at_ms == v.generated_at_ms,
{
}

}
