//! The frontier: a model parted by branching into subproblems that workers solve
//! on their own.

use std::collections::VecDeque;
use crate::branching::{
    branch_constraints, branches, copy_branches, left_branch, right_branch, Branch,
    BranchConstraint, BranchPoint,
};
use crate::ids::{is_random_uuid, new_uuid_string};
use crate::jobs::{jobs_view, payload_error, Job, LpStatus, SubproblemJob};
use crate::model::MipProblemSpec;
use crate::options::{Choices, SolveOptions};
use crate::text::{dec, decimal, texts};
use vstd::prelude::*;
use vstd::string::*;

verus! {

/// The deepest splitting, whatever is asked for.
pub const HARD_MAX_SPLIT_DEPTH: usize = 8;

/// The most subproblems, whatever is asked for.
pub const HARD_MAX_SUBPROBLEMS: usize = 100_000;

/// How deep a model is split.
pub open spec fn split_depth_of(o: Choices) -> nat {
    let d = match o.split_depth {
        Some(d) => d,
        None => 1,
    };
    if d <= HARD_MAX_SPLIT_DEPTH {
        d as nat
    } else {
        HARD_MAX_SPLIT_DEPTH as nat
    }
}

/// How many subproblems a model is parted into at most.
pub open spec fn max_subproblems_of(o: Choices) -> nat {
    let n = match o.max_subproblems {
        Some(n) => n,
        None => 256,
    };
    if n < 1 {
        1
    } else if n > HARD_MAX_SUBPROBLEMS {
        HARD_MAX_SUBPROBLEMS as nat
    } else {
        n as nat
    }
}

/// How deep a model is split.
pub fn split_depth(options: &SolveOptions) -> (r: usize)
    ensures
        r == split_depth_of(options@),
{
    let d: usize = match options.split_depth {
        Some(d) => d,
        None => 1,
    };
    if d <= HARD_MAX_SPLIT_DEPTH {
        d
    } else {
        HARD_MAX_SPLIT_DEPTH
    }
}

/// How many subproblems a model is parted into at most.
pub fn max_subproblems(options: &SolveOptions) -> (r: usize)
    ensures
        r == max_subproblems_of(options@),
{
    let n: usize = match options.max_subproblems {
        Some(n) => n,
        None => 256,
    };
    if n < 1 {
        1
    } else if n > HARD_MAX_SUBPROBLEMS {
        HARD_MAX_SUBPROBLEMS
    } else {
        n
    }
}

/// A part of a model: how often it was split, and the rows that splitting added.
#[derive(Debug)]
pub struct FrontierNode {
    pub depth: usize,
    pub extra_constraints: Vec<BranchConstraint>,
}

/// The contents of a part.
#[verifier::ext_equal]
pub struct Node {
    pub depth: usize,
    pub extra: Seq<Branch>,
}

impl View for FrontierNode {
    type V = Node;

    open spec fn view(&self) -> Node {
        Node { depth: self.depth, extra: branches(self.extra_constraints@) }
    }
}

/// The contents of each part.
pub open spec fn nodes(v: Seq<FrontierNode>) -> Seq<Node> {
    v.map_values(|n: FrontierNode| n@)
}

/// What relaxing a part gave: how the LP engine ended, its name for that, and
/// where to branch, where the solution is fractional.
#[derive(Debug)]
pub struct Relaxation {
    pub status: LpStatus,
    pub status_text: String,
    pub branch: Option<BranchPoint>,
}

/// What every job of a frontier has in common.
#[derive(Debug)]
pub struct FrontierPlan {
    pub solve_id: String,
    pub request_id: String,
    pub problem_id: String,
    pub revision: u64,
    pub master_node: String,
    pub problem: MipProblemSpec,
    pub options: SolveOptions,
    pub problem_stored: bool,
}

/// A frontier in the making.
#[verifier::ext_equal]
pub struct Frontier {
    pub queue: Seq<Node>,
    pub jobs: Seq<Job>,
    pub warnings: Seq<Seq<char>>,
    pub warned: bool,
}

/// The job that solves a part as it is.
pub open spec fn job_for(plan: FrontierPlan, node: Node, number: nat, uuid: Seq<char>, now: u128) -> Job {
    Job {
        solve_id: plan.solve_id@,
        request_id: plan.request_id@,
        job_id: plan.solve_id@ + "-"@ + dec(number),
        job_uuid: uuid,
        problem_id: Some(plan.problem_id@),
        problem_stored: plan.problem_stored,
        revision: plan.revision,
        depth: node.depth,
        master_node: plan.master_node@,
        problem: if plan.problem_stored {
            None
        } else {
            Some(plan.problem@)
        },
        extra_constraints: node.extra,
        avoid_worker_nodes: Seq::empty(),
        options: plan.options@,
        submitted_at_ms: now,
    }
}

/// What is worth a warning about a relaxation.
pub open spec fn relaxation_warning(depth: nat, relaxation: Relaxation) -> Option<Seq<char>> {
    match relaxation.status {
        LpStatus::NumericalError | LpStatus::IterLimit => Some(
            "LP relaxation at depth "@ + dec(depth) + " returned "@ + relaxation.status_text@
                + "; keeping it as a subtree job"@,
        ),
        LpStatus::Unbounded => Some(
            "LP relaxation at depth "@ + dec(depth)
                + " is unbounded; keeping it as a subtree job"@,
        ),
        _ => None,
    }
}

/// The warning that no more parts are made.
pub open spec fn cap_warning(max: nat) -> Seq<char> {
    "frontier split capped at "@ + dec(max)
        + " subproblems; remaining fractional nodes will be delegated as subtree jobs"@
}

/// A list with a warning added, where there is one.
pub open spec fn with_warning(warnings: Seq<Seq<char>>, w: Option<Seq<char>>) -> Seq<Seq<char>> {
    match w {
        Some(w) => warnings.push(w),
        None => warnings,
    }
}

/// A part below another one.
pub open spec fn child(node: Node, branch: Branch) -> Node {
    Node { depth: (node.depth + 1) as usize, extra: node.extra.push(branch) }
}

/// Whether a relaxation calls for a split.
pub open spec fn wants_split(plan: FrontierPlan, node: Node, relaxation: Relaxation) -> bool {
    relaxation.status == LpStatus::Optimal && node.depth < split_depth_of(plan.options@)
        && relaxation.branch is Some
}

/// The frontier after the first part of the queue has been relaxed. A part
/// without solutions is dropped; a fractional one that may still be split is
/// split, as long as there is room for both halves; any other becomes a job.
pub open spec fn advanced(
    plan: FrontierPlan,
    f: Frontier,
    relaxation: Relaxation,
    uuid: Seq<char>,
    now: u128,
) -> Frontier {
    let node = f.queue[0];
    let rest = f.queue.drop_first();
    if relaxation.status == LpStatus::Infeasible {
        Frontier { queue: rest, ..f }
    } else {
        let warnings = with_warning(f.warnings, relaxation_warning(node.depth as nat, relaxation));
        let max = max_subproblems_of(plan.options@);
        if wants_split(plan, node, relaxation) && f.jobs.len() + rest.len() + 2 <= max {
            let point = relaxation.branch->0;
            let n = plan.problem@.c.len();
            Frontier {
                queue: rest.push(child(node, left_branch(point, n, node.depth as nat))).push(
                    child(node, right_branch(point, n, node.depth as nat)),
                ),
                warnings,
                ..f
            }
        } else {
            let capped = wants_split(plan, node, relaxation);
            Frontier {
                queue: rest,
                jobs: f.jobs.push(job_for(plan, node, f.jobs.len(), uuid, now)),
                warnings: if capped && !f.warned {
                    warnings.push(cap_warning(max))
                } else {
                    warnings
                },
                warned: f.warned || capped,
            }
        }
    }
}

/// The frontier before anything has been relaxed: the whole model is the only
/// part.
pub open spec fn initial_frontier() -> Frontier {
    Frontier {
        queue: seq![Node { depth: 0, extra: Seq::empty() }],
        jobs: Seq::empty(),
        warnings: Seq::empty(),
        warned: false,
    }
}

/// What holds of every frontier: never more parts than are allowed; no part
/// split deeper than is allowed; a row added for each split; and the jobs are
/// numbered from zero, belong to the plan and can be solved.
pub open spec fn frontier_sound(plan: FrontierPlan, f: Frontier) -> bool {
    &&& f.jobs.len() + f.queue.len() <= max_subproblems_of(plan.options@)
    &&& forall|i: int|
        0 <= i < f.queue.len() ==> node_sound(plan, #[trigger] f.queue[i])
    &&& forall|i: int|
        0 <= i < f.jobs.len() ==> {
            &&& (#[trigger] f.jobs[i]).job_id == plan.solve_id@ + "-"@ + dec(i as nat)
            &&& f.jobs[i].depth == f.jobs[i].extra_constraints.len()
            &&& f.jobs[i].depth <= split_depth_of(plan.options@)
            &&& job_sound(plan, f.jobs[i])
        }
}

/// Whether a job belongs to a plan and can be solved: it carries the model, or
/// refers to the stored one, and never both.
pub open spec fn job_sound(plan: FrontierPlan, job: Job) -> bool {
    &&& payload_error(job) is None
    &&& job.problem_stored == plan.problem_stored
    &&& !plan.problem_stored ==> job.problem == Some(plan.problem@)
    &&& plan.problem_stored ==> job.problem is None
    &&& job.problem_id == Some(plan.problem_id@)
    &&& job.revision == plan.revision
    &&& job.solve_id == plan.solve_id@
    &&& job.request_id == plan.request_id@
    &&& job.master_node == plan.master_node@
    &&& job.options == plan.options@
    &&& job.avoid_worker_nodes.len() == 0
}

/// Whether a part of a plan has a row for each split, and no more splits than are allowed.
pub open spec fn node_sound(plan: FrontierPlan, node: Node) -> bool {
    node.depth == node.extra.len() && node.depth <= split_depth_of(plan.options@)
}

/// A new frontier is sound.
pub proof fn initial_frontier_is_sound(plan: FrontierPlan)
    ensures
        frontier_sound(plan, initial_frontier()),
{
}

/// Relaxing a part keeps a frontier sound.
pub proof fn advancing_keeps_sound(
    plan: FrontierPlan,
    f: Frontier,
    relaxation: Relaxation,
    uuid: Seq<char>,
    now: u128,
)
    requires
        frontier_sound(plan, f),
        f.queue.len() > 0,
    ensures
        frontier_sound(plan, advanced(plan, f, relaxation, uuid, now)),
{
    let next = advanced(plan, f, relaxation, uuid, now);
    let rest = f.queue.drop_first();
    assert(forall|i: int| 0 <= i < rest.len() ==> rest[i] == f.queue[i + 1]);
    assert(node_sound(plan, f.queue[0]));
    assert forall|i: int| 0 <= i < next.queue.len() implies node_sound(
        plan,
        #[trigger] next.queue[i],
    ) by {
        if i < rest.len() {
            assert(next.queue[i] == f.queue[i + 1]);
            assert(node_sound(plan, f.queue[i + 1]));
        }
    }
    assert forall|i: int| 0 <= i < next.jobs.len() implies {
        &&& (#[trigger] next.jobs[i]).job_id == plan.solve_id@ + "-"@ + dec(i as nat)
        &&& next.jobs[i].depth == next.jobs[i].extra_constraints.len()
        &&& next.jobs[i].depth <= split_depth_of(plan.options@)
        &&& job_sound(plan, next.jobs[i])
    } by {
        if i < f.jobs.len() {
            assert(next.jobs[i] == f.jobs[i]);
        }
    }
}

/// How many parts a part can still be split into, itself included.
pub open spec fn possible_parts(levels: nat) -> nat
    decreases levels,
{
    if levels == 0 {
        1
    } else {
        1 + 2 * possible_parts((levels - 1) as nat)
    }
}

/// How many relaxations a queue can still take.
pub open spec fn relaxations_left(plan: FrontierPlan, queue: Seq<Node>) -> nat
    decreases queue.len(),
{
    if queue.len() == 0 {
        0
    } else {
        relaxations_left(plan, queue.drop_last()) + possible_parts(
            (split_depth_of(plan.options@) - queue.last().depth) as nat,
        )
    }
}

proof fn relaxations_left_of_first(plan: FrontierPlan, queue: Seq<Node>)
    requires
        queue.len() > 0,
    ensures
        relaxations_left(plan, queue) == possible_parts(
            (split_depth_of(plan.options@) - queue[0].depth) as nat,
        ) + relaxations_left(plan, queue.drop_first()),
    decreases queue.len(),
{
    if queue.len() > 1 {
        relaxations_left_of_first(plan, queue.drop_last());
        assert(queue.drop_last().drop_first() =~= queue.drop_first().drop_last());
    } else {
        assert(queue.drop_last() =~= Seq::empty());
        assert(queue.drop_first() =~= Seq::empty());
    }
}

proof fn some_part_is_possible(levels: nat)
    ensures
        possible_parts(levels) > 0,
{
}

/// Relaxing a part brings a sound frontier nearer to its end: the number of
/// relaxations that can still follow shrinks.
pub proof fn frontiers_come_to_an_end(
    plan: FrontierPlan,
    f: Frontier,
    relaxation: Relaxation,
    uuid: Seq<char>,
    now: u128,
)
    requires
        frontier_sound(plan, f),
        f.queue.len() > 0,
    ensures
        relaxations_left(plan, advanced(plan, f, relaxation, uuid, now).queue)
            < relaxations_left(plan, f.queue),
{
    let next = advanced(plan, f, relaxation, uuid, now);
    let node = f.queue[0];
    let rest = f.queue.drop_first();
    assert(node_sound(plan, node));
    relaxations_left_of_first(plan, f.queue);
    some_part_is_possible((split_depth_of(plan.options@) - node.depth) as nat);
    if next.queue != rest {
        let point = relaxation.branch->0;
        let n = plan.problem@.c.len();
        let left = child(node, left_branch(point, n, node.depth as nat));
        let right = child(node, right_branch(point, n, node.depth as nat));
        assert(next.queue == rest.push(left).push(right));
        assert(rest.push(left).push(right).drop_last() =~= rest.push(left));
        assert(rest.push(left).drop_last() =~= rest);
        let levels = (split_depth_of(plan.options@) - node.depth) as nat;
        assert(possible_parts(levels) == 1 + 2 * possible_parts((levels - 1) as nat));
        assert(left.depth == node.depth + 1 && right.depth == node.depth + 1);
        assert(rest.push(left).last() == left);
        assert(relaxations_left(plan, rest.push(left)) == relaxations_left(plan, rest)
            + possible_parts((levels - 1) as nat));
        assert(next.queue.last() == right);
        assert(relaxations_left(plan, next.queue) == relaxations_left(plan, rest.push(left))
            + possible_parts((levels - 1) as nat));
    }
}

/// Whether a point lies in a part: it meets every row that splitting added. A
/// point is given by the rows that it meets.
pub open spec fn lies_in(rows: Seq<Branch>, point: spec_fn(Branch) -> bool) -> bool {
    forall|i: int| 0 <= i < rows.len() ==> point(#[trigger] rows[i])
}

/// How many parts that wait hold a point.
pub open spec fn waiting_with(queue: Seq<Node>, point: spec_fn(Branch) -> bool) -> nat
    decreases queue.len(),
{
    if queue.len() == 0 {
        0
    } else {
        waiting_with(queue.drop_last(), point) + if lies_in(queue.last().extra, point) {
            1nat
        } else {
            0
        }
    }
}

/// How many jobs hold a point.
pub open spec fn jobs_with(jobs: Seq<Job>, point: spec_fn(Branch) -> bool) -> nat
    decreases jobs.len(),
{
    if jobs.len() == 0 {
        0
    } else {
        jobs_with(jobs.drop_last(), point) + if lies_in(jobs.last().extra_constraints, point) {
            1nat
        } else {
            0
        }
    }
}

/// How many parts and jobs of a frontier hold a point.
pub open spec fn times_held(f: Frontier, point: spec_fn(Branch) -> bool) -> nat {
    waiting_with(f.queue, point) + jobs_with(f.jobs, point)
}

proof fn waiting_with_first(queue: Seq<Node>, point: spec_fn(Branch) -> bool)
    requires
        queue.len() > 0,
    ensures
        waiting_with(queue, point) == waiting_with(queue.drop_first(), point) + if lies_in(
            queue[0].extra,
            point,
        ) {
            1nat
        } else {
            0
        },
    decreases queue.len(),
{
    if queue.len() > 1 {
        waiting_with_first(queue.drop_last(), point);
        assert(queue.drop_last().drop_first() =~= queue.drop_first().drop_last());
    } else {
        assert(queue.drop_last() =~= Seq::empty());
        assert(queue.drop_first() =~= Seq::empty());
    }
}

pub(crate) proof fn one_more_row(rows: Seq<Branch>, row: Branch, point: spec_fn(Branch) -> bool)
    ensures
        lies_in(rows.push(row), point) == (lies_in(rows, point) && point(row)),
{
    let more = rows.push(row);
    if lies_in(more, point) {
        assert forall|i: int| 0 <= i < rows.len() implies point(#[trigger] rows[i]) by {
            assert(more[i] == rows[i]);
        }
        assert(more[rows.len() as int] == row);
    }
}

/// A new frontier holds every point once.
pub proof fn every_point_is_held_at_first(point: spec_fn(Branch) -> bool)
    ensures
        times_held(initial_frontier(), point) == 1,
{
    let queue = initial_frontier().queue;
    assert(queue.drop_last() =~= Seq::empty());
    assert(waiting_with(queue.drop_last(), point) == 0);
    assert(lies_in(queue.last().extra, point));
}

/// Relaxing a part loses no point and searches none twice: where the two rows of a
/// branch part the points of the part between them, and a part that is dropped
/// holds none, a point lies in as many parts and jobs after as before. So each
/// point of a frontier lies in exactly one, from the beginning to the end.
pub proof fn advancing_keeps_every_point(
    plan: FrontierPlan,
    f: Frontier,
    relaxation: Relaxation,
    uuid: Seq<char>,
    now: u128,
    point: spec_fn(Branch) -> bool,
)
    requires
        f.queue.len() > 0,
        relaxation.status == LpStatus::Infeasible ==> !lies_in(f.queue[0].extra, point),
        relaxation.branch is Some && lies_in(f.queue[0].extra, point) ==> point(
            left_branch(relaxation.branch->0, plan.problem@.c.len(), f.queue[0].depth as nat),
        ) != point(
            right_branch(relaxation.branch->0, plan.problem@.c.len(), f.queue[0].depth as nat),
        ),
    ensures
        times_held(advanced(plan, f, relaxation, uuid, now), point) == times_held(f, point),
{
    let next = advanced(plan, f, relaxation, uuid, now);
    let node = f.queue[0];
    let rest = f.queue.drop_first();
    waiting_with_first(f.queue, point);
    if next.queue != rest {
        let n = plan.problem@.c.len();
        let left = left_branch(relaxation.branch->0, n, node.depth as nat);
        let right = right_branch(relaxation.branch->0, n, node.depth as nat);
        one_more_row(node.extra, left, point);
        one_more_row(node.extra, right, point);
        assert(next.queue == rest.push(child(node, left)).push(child(node, right)));
        assert(next.queue.drop_last() =~= rest.push(child(node, left)));
        assert(rest.push(child(node, left)).drop_last() =~= rest);
        let half = waiting_with(rest.push(child(node, left)), point);
        assert(half == waiting_with(rest, point) + if lies_in(node.extra.push(left), point) {
            1nat
        } else {
            0
        });
        assert(waiting_with(next.queue, point) == half + if lies_in(
            node.extra.push(right),
            point,
        ) {
            1nat
        } else {
            0
        });
    } else if relaxation.status != LpStatus::Infeasible {
        let job = job_for(plan, node, f.jobs.len(), uuid, now);
        assert(next.jobs == f.jobs.push(job));
        assert(next.jobs.drop_last() =~= f.jobs);
    }
}

/// Builds a frontier: the caller relaxes the part that is next in line and hands
/// back what came of it, until no part is left.
#[derive(Debug)]
pub struct FrontierBuilder {
    plan: FrontierPlan,
    queue: VecDeque<FrontierNode>,
    jobs: Vec<SubproblemJob>,
    warnings: Vec<String>,
    warned: bool,
}

impl FrontierBuilder {
    /// What the jobs have in common.
    pub closed spec fn plan(self) -> FrontierPlan {
        self.plan
    }

    /// The frontier so far.
    pub closed spec fn frontier(self) -> Frontier {
        Frontier {
            queue: nodes(self.queue@),
            jobs: jobs_view(self.jobs@),
            warnings: texts(self.warnings@),
            warned: self.warned,
        }
    }

    /// The frontier is sound.
    pub open spec fn well_formed(self) -> bool {
        frontier_sound(self.plan(), self.frontier())
    }

    /// Begins a frontier with the whole model.
    pub fn new(plan: FrontierPlan) -> (r: FrontierBuilder)
        ensures
            r.well_formed(),
            r.plan() == plan,
            r.frontier() == initial_frontier(),
    {
        let mut queue: VecDeque<FrontierNode> = VecDeque::new();
        let whole = FrontierNode { depth: 0, extra_constraints: Vec::new() };
        assert(whole@ =~= (Node { depth: 0, extra: Seq::empty() }));
        queue.push_back(whole);
        let r = FrontierBuilder {
            plan,
            queue,
            jobs: Vec::new(),
            warnings: Vec::new(),
            warned: false,
        };
        assert(r.frontier() =~= initial_frontier()) by {
            assert(nodes(r.queue@) =~= initial_frontier().queue);
            assert(jobs_view(r.jobs@) =~= Seq::empty());
            assert(texts(r.warnings@) =~= Seq::empty());
        }
        proof {
            initial_frontier_is_sound(plan);
        }
        r
    }

    /// The rows of the part that is to be relaxed next; `None` where no part is
    /// left.
    pub fn next_constraints(&self) -> (r: Option<Vec<BranchConstraint>>)
        ensures
            match r {
                Some(v) => self.frontier().queue.len() > 0 && branches(v@)
                    == self.frontier().queue[0].extra,
                None => self.frontier().queue.len() == 0,
            },
    {
        if self.queue.len() == 0 {
            None
        } else {
            assert(nodes(self.queue@)[0] == self.queue@[0]@);
            Some(copy_branches(&self.queue[0].extra_constraints))
        }
    }

    /// Takes in what relaxing the next part gave, given the identifier that a new
    /// job would get.
    pub fn advance_with(&mut self, relaxation: Relaxation, job_uuid: String, now_ms: u128)
        requires
            old(self).well_formed(),
            old(self).frontier().queue.len() > 0,
            relaxation.branch is Some ==> relaxation.branch->0.var < old(self).plan().problem@.c.len(),
        ensures
            final(self).well_formed(),
            final(self).plan() == old(self).plan(),
            final(self).frontier() == advanced(
                old(self).plan(),
                old(self).frontier(),
                relaxation,
                job_uuid@,
                now_ms,
            ),
    {
        let ghost f = self.frontier();
        let ghost plan = self.plan;
        let ghost all = self.queue@;
        let node = match self.queue.pop_front() {
            Some(node) => node,
            None => {
                return;
            },
        };
        let ghost rest = nodes(self.queue@);
        assert(rest =~= f.queue.drop_first());
        assert(node@ == f.queue[0]);
        proof {
            advancing_keeps_sound(plan, f, relaxation, job_uuid@, now_ms);
            assert(node_sound(plan, f.queue[0]));
        }
        if relaxation.status == LpStatus::Infeasible {
            assert(self.frontier() =~= advanced(plan, f, relaxation, job_uuid@, now_ms));
            return;
        }
        let ghost old_warnings = texts(self.warnings@);
        if relaxation.status == LpStatus::NumericalError || relaxation.status
            == LpStatus::IterLimit {
            let mut w = "LP relaxation at depth ".to_owned();
            w.append(decimal(node.depth).as_str());
            w.append(" returned ");
            w.append(relaxation.status_text.as_str());
            w.append("; keeping it as a subtree job");
            self.warnings.push(w);
            assert(texts(self.warnings@) =~= old_warnings.push(w@));
        } else if relaxation.status == LpStatus::Unbounded {
            let mut w = "LP relaxation at depth ".to_owned();
            w.append(decimal(node.depth).as_str());
            w.append(" is unbounded; keeping it as a subtree job");
            self.warnings.push(w);
            assert(texts(self.warnings@) =~= old_warnings.push(w@));
        }
        assert(texts(self.warnings@) == with_warning(
            f.warnings,
            relaxation_warning(node.depth as nat, relaxation),
        ));
        let depth: usize = split_depth(&self.plan.options);
        let max: usize = max_subproblems(&self.plan.options);
        assert(self.jobs@.len() + self.queue@.len() < max);
        if relaxation.status == LpStatus::Optimal && node.depth < depth {
            if let Some(point) = &relaxation.branch {
                if max - self.jobs.len() - self.queue.len() >= 2 {
                    let n: usize = self.plan.problem.c.len();
                    let (left, right) = branch_constraints(point, n, node.depth);
                    let ghost given = node@;
                    let mut left_rows = copy_branches(&node.extra_constraints);
                    let ghost before_left = left_rows@;
                    left_rows.push(left);
                    assert(branches(left_rows@) =~= branches(before_left).push(left@));
                    let next_depth: usize = node.depth + 1;
                    let left_node = FrontierNode {
                        depth: next_depth,
                        extra_constraints: left_rows,
                    };
                    let mut right_rows = node.extra_constraints;
                    let ghost before_right = right_rows@;
                    right_rows.push(right);
                    assert(branches(right_rows@) =~= branches(before_right).push(right@));
                    let right_node = FrontierNode {
                        depth: next_depth,
                        extra_constraints: right_rows,
                    };
                    assert(left_node@ =~= child(
                        given,
                        left_branch(*point, n as nat, given.depth as nat),
                    ));
                    assert(right_node@ =~= child(
                        given,
                        right_branch(*point, n as nat, given.depth as nat),
                    ));
                    let ghost q = self.queue@;
                    self.queue.push_back(left_node);
                    self.queue.push_back(right_node);
                    assert(nodes(self.queue@) =~= rest.push(left_node@).push(right_node@));
                    assert(self.frontier() =~= advanced(
                        plan,
                        f,
                        relaxation,
                        job_uuid@,
                        now_ms,
                    ));
                    return;
                }
                if !self.warned {
                    let ghost so_far = texts(self.warnings@);
                    let mut w = "frontier split capped at ".to_owned();
                    w.append(decimal(max).as_str());
                    w.append(
                        " subproblems; remaining fractional nodes will be delegated as subtree jobs",
                    );
                    self.warnings.push(w);
                    self.warned = true;
                    assert(texts(self.warnings@) =~= so_far.push(w@));
                }
            }
        }
        let mut job_id = self.plan.solve_id.clone();
        job_id.append("-");
        job_id.append(decimal(self.jobs.len()).as_str());
        let problem = if self.plan.problem_stored {
            None
        } else {
            Some(self.plan.problem.clone())
        };
        let ghost given = node@;
        let job = SubproblemJob {
            solve_id: self.plan.solve_id.clone(),
            request_id: self.plan.request_id.clone(),
            job_id,
            job_uuid,
            problem_id: Some(self.plan.problem_id.clone()),
            problem_stored: self.plan.problem_stored,
            revision: self.plan.revision,
            depth: node.depth,
            master_node: self.plan.master_node.clone(),
            problem,
            extra_constraints: node.extra_constraints,
            avoid_worker_nodes: Vec::new(),
            options: self.plan.options.clone(),
            submitted_at_ms: now_ms,
        };
        assert(job@ =~= job_for(plan, given, f.jobs.len(), job_uuid@, now_ms)) by {
            assert(texts(job.avoid_worker_nodes@) =~= Seq::empty());
        }
        let ghost before = self.jobs@;
        self.jobs.push(job);
        assert(jobs_view(self.jobs@) =~= jobs_view(before).push(job@));
        assert(self.frontier() =~= advanced(plan, f, relaxation, job_uuid@, now_ms));
    }

    /// Takes in what relaxing the next part gave. A new job gets a fresh
    /// identifier.
    pub fn advance(&mut self, relaxation: Relaxation, now_ms: u128)
        requires
            old(self).well_formed(),
            old(self).frontier().queue.len() > 0,
            relaxation.branch is Some ==> relaxation.branch->0.var < old(self).plan().problem@.c.len(),
        ensures
            final(self).well_formed(),
            final(self).plan() == old(self).plan(),
            exists|uuid: Seq<char>| #[trigger]
                is_random_uuid(uuid) && final(self).frontier() == advanced(
                    old(self).plan(),
                    old(self).frontier(),
                    relaxation,
                    uuid,
                    now_ms,
                ),
    {
        self.advance_with(relaxation, new_uuid_string(), now_ms)
    }

    /// The jobs and the warnings.
    pub fn finish(self) -> (r: (Vec<SubproblemJob>, Vec<String>))
        ensures
            jobs_view(r.0@) == self.frontier().jobs,
            texts(r.1@) == self.frontier().warnings,
    {
        (self.jobs, self.warnings)
    }
}

/// How deep a model is split and into how many parts: as the options say, once and
/// into 256 where they say nothing, at least one part, and never beyond the hard
/// limits.
pub proof fn frontiers_have_limits(o: Choices)
    ensures
        o.split_depth matches Some(d) ==> d <= 8 ==> split_depth_of(o) == d,
        o.split_depth is None ==> split_depth_of(o) == 1,
        split_depth_of(o) <= 8,
        o.max_subproblems matches Some(n) ==> 1 <= n <= 100_000 ==> max_subproblems_of(o) == n,
        o.max_subproblems is None ==> max_subproblems_of(o) == 256,
        1 <= max_subproblems_of(o) <= 100_000,
{
}

/// What relaxing a part does: a part without solutions is dropped; one that is
/// fractional, may still be split and leaves room is replaced by its two halves at
/// the end of the queue, one level deeper; any other becomes a job with its rows.
/// What stood in the frontier before stays.
pub proof fn relaxing_takes_one_part(
    plan: FrontierPlan,
    f: Frontier,
    relaxation: Relaxation,
    uuid: Seq<char>,
    now: u128,
)
    requires
        frontier_sound(plan, f),
        f.queue.len() > 0,
    ensures
        ({
            let next = advanced(plan, f, relaxation, uuid, now);
            let rest = f.queue.len() - 1;
            let fractional = relaxation.status == LpStatus::Optimal && relaxation.branch is Some
                && f.queue[0].depth < split_depth_of(plan.options@);
            let room = f.jobs.len() + rest + 2 <= max_subproblems_of(plan.options@);
            &&& forall|i: int| 0 <= i < rest ==> #[trigger] next.queue[i] == f.queue[i + 1]
            &&& forall|i: int| 0 <= i < f.jobs.len() ==> #[trigger] next.jobs[i] == f.jobs[i]
            &&& if relaxation.status == LpStatus::Infeasible {
                next.queue.len() == rest && next.jobs.len() == f.jobs.len()
            } else if fractional && room {
                &&& next.queue.len() == rest + 2
                &&& next.jobs.len() == f.jobs.len()
                &&& forall|i: int|
                    rest <= i < rest + 2 ==> {
                        &&& (#[trigger] next.queue[i]).depth == f.queue[0].depth + 1
                        &&& next.queue[i].extra.drop_last() == f.queue[0].extra
                    }
            } else {
                &&& next.queue.len() == rest
                &&& next.jobs.len() == f.jobs.len() + 1
                &&& next.jobs.last().extra_constraints == f.queue[0].extra
                &&& next.jobs.last().depth == f.queue[0].depth
                &&& next.jobs.last().job_uuid == uuid
                &&& next.jobs.last().submitted_at_ms == now
            }
            &&& fractional && !room ==> next.warned && (!f.warned ==> next.warnings.len()
                > f.warnings.len())
        }),
{
    let next = advanced(plan, f, relaxation, uuid, now);
    let node = f.queue[0];
    let rest = f.queue.drop_first();
    assert(forall|i: int| 0 <= i < rest.len() ==> rest[i] == f.queue[i + 1]);
    assert(node_sound(plan, node));
    if next.queue.len() == rest.len() + 2 {
        let n = plan.problem@.c.len();
        let left = left_branch(relaxation.branch->0, n, node.depth as nat);
        let right = right_branch(relaxation.branch->0, n, node.depth as nat);
        assert(next.queue == rest.push(child(node, left)).push(child(node, right)));
        assert(node.extra.push(left).drop_last() =~= node.extra);
        assert(node.extra.push(right).drop_last() =~= node.extra);
    }
}

}
