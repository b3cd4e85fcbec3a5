//! What a master does next in a solve, and what it does where the solve has been
//! cancelled.

use crate::cancel::{cancellation_of, solve_cancel_info, CancelInfo, Cancellation, Cancellations};
use crate::jobs::{jobs_view, Finding, Job, SubproblemJob};
use crate::local_run::{in_hand, job_in_hand, Local};
use crate::master::{counts, Run};
use crate::table::Table;
use vstd::prelude::*;
use vstd::string::*;

verus! {

/// What a master does next.
#[derive(Debug)]
pub enum Move {
    /// It ends the solve as cancelled.
    Cancel(CancelInfo),
    /// It sends a job out, or works on it.
    Send(SubproblemJob),
    /// It goes on; nothing is to be sent at this point.
    GoOn,
    /// It has every result.
    Finish,
}

/// What a master does next, by contents.
pub enum Act {
    Cancel(Cancellation),
    Send(Job),
    GoOn,
    Finish,
}

impl View for Move {
    type V = Act;

    open spec fn view(&self) -> Act {
        match self {
            Move::Cancel(info) => Act::Cancel(info@),
            Move::Send(job) => Act::Send(job@),
            Move::GoOn => Act::GoOn,
            Move::Finish => Act::Finish,
        }
    }
}

/// A point in a solve at which a master looks for cancellations.
pub enum Moment {
    /// Nothing is to be sent: the solve begins, a result is in hand, or a job is
    /// being worked on.
    Between,
    /// Some of a list of jobs have been sent out: those of the frontier, the parts
    /// of a job, or a job that is tried again.
    Sending { jobs: Seq<Job>, sent: int },
    /// It turns to the results of the jobs that are out.
    Turning { run: Run },
    /// A result comes in.
    Arriving { run: Run, found: Finding },
    /// It turns to the next job that it works on by itself.
    Working { run: Local },
}

/// What a master does unless the solve is cancelled.
pub open spec fn planned(moment: Moment) -> Act {
    match moment {
        Moment::Between => Act::GoOn,
        Moment::Sending { jobs, sent } => if 0 <= sent < jobs.len() {
            Act::Send(jobs[sent])
        } else {
            Act::GoOn
        },
        Moment::Turning { run } => if run.results.len() < run.jobs_expected {
            Act::GoOn
        } else {
            Act::Finish
        },
        Moment::Arriving { .. } => Act::GoOn,
        Moment::Working { run } => if in_hand(run).current is Some {
            Act::Send(job_in_hand(in_hand(run)))
        } else {
            Act::Finish
        },
    }
}

/// Whether a master looks for cancellations: not where everything has been sent,
/// where it has every result, or where a result does not count.
pub open spec fn looks(moment: Moment) -> bool {
    match moment {
        Moment::Between => true,
        Moment::Sending { jobs, sent } => 0 <= sent < jobs.len(),
        Moment::Turning { run } => run.results.len() < run.jobs_expected,
        Moment::Arriving { run, found } => counts(run, found),
        Moment::Working { run } => in_hand(run).current is Some,
    }
}

/// What a master does next.
pub open spec fn act_at(moment: Moment, cancelled: Option<Cancellation>) -> Act {
    match cancelled {
        Some(c) => if looks(moment) {
            Act::Cancel(c)
        } else {
            planned(moment)
        },
        None => planned(moment),
    }
}

/// Looks for a cancellation where nothing is to be sent.
pub fn look(solve_id: &str, cancels: &Table<CancelInfo>) -> (r: Move)
    ensures
        r@ == act_at(Moment::Between, cancellation_of(cancels@, solve_id@)),
{
    match solve_cancel_info(cancels, solve_id) {
        Some(info) => Move::Cancel(info),
        None => Move::GoOn,
    }
}

/// The next of a list of jobs, of which some have been sent out.
pub fn next_to_send(
    jobs: &Vec<SubproblemJob>,
    sent: usize,
    solve_id: &str,
    cancels: &Table<CancelInfo>,
) -> (r: Move)
    ensures
        r@ == act_at(
            Moment::Sending { jobs: jobs_view(jobs@), sent: sent as int },
            cancellation_of(cancels@, solve_id@),
        ),
{
    if sent >= jobs.len() {
        return Move::GoOn;
    }
    match solve_cancel_info(cancels, solve_id) {
        Some(info) => Move::Cancel(info),
        None => Move::Send(jobs[sent].clone()),
    }
}

/// A cancelled solve sends no further job, and works on none: at every point where
/// one would be sent, and wherever results are awaited or a result counts, the solve
/// ends as cancelled instead. The jobs of silent workers are sent out in a turn that
/// goes on, and there is no such turn any more.
pub proof fn cancelled_solves_send_nothing(moment: Moment, c: Cancellation)
    ensures
        !(act_at(moment, Some(c)) is Send),
        planned(moment) is Send ==> act_at(moment, Some(c)) == Act::Cancel(c),
        moment matches Moment::Turning { run } ==> run.results.len() < run.jobs_expected ==> act_at(
            moment,
            Some(c),
        ) == Act::Cancel(c),
        moment matches Moment::Arriving { run, found } ==> counts(run, found) ==> act_at(
            moment,
            Some(c),
        ) == Act::Cancel(c),
        moment is Between ==> act_at(moment, Some(c)) == Act::Cancel(c),
{
}

/// A solve that nobody cancels does not end as cancelled.
pub proof fn other_solves_go_on(
    moment: Moment,
    cancels: Cancellations,
    id: Seq<char>,
    other: Seq<char>,
    asked: Cancellation,
)
    requires
        other != id,
    ensures
        !cancels.contains_key(id) ==> act_at(
            moment,
            cancellation_of(cancels.insert(other, asked), id),
        ) == planned(moment),
        !(planned(moment) is Cancel),
{
}

/// A solve that is not cancelled sends its jobs in order, one after the other; it ends
/// exactly when it has as many results as it expects, or when no job is left to work on.
pub proof fn solves_end_with_every_result(moment: Moment)
    ensures
        moment is Between ==> act_at(moment, None) is GoOn,
        moment matches Moment::Sending { jobs, sent } ==> 0 <= sent < jobs.len() ==> act_at(
            moment,
            None,
        ) == Act::Send(jobs[sent]),
        moment matches Moment::Sending { jobs, sent } ==> sent == jobs.len() ==> act_at(
            moment,
            None,
        ) is GoOn,
        moment matches Moment::Turning { run } ==> (act_at(moment, None) is Finish <==>
            run.jobs_expected <= run.results.len()),
        moment matches Moment::Turning { run } ==> (act_at(moment, None) is GoOn <==>
            run.results.len() < run.jobs_expected),
        moment is Arriving ==> act_at(moment, None) is GoOn,
        moment matches Moment::Working { run } ==> (act_at(moment, None) is Finish <==> run.current
            is None && run.pending.len() == 0),
        moment matches Moment::Working { run } ==> run.current is None && run.pending.len() > 0
            ==> act_at(moment, None) == Act::Send(run.pending[0]),
{
}

}
