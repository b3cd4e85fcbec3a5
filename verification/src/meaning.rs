//! What models mean: the points that solve them. Numbers are read as integers on
//! a common scale, on which the reading of one is the unit; a point gives each
//! variable a value on that scale.

use crate::bounds::{
    always_holds, bounded_shape, falls_without_bound, grows_without_bound, negative_part,
    never_holds, positive_part, splits, upper_bound, BoundSplit,
};
use crate::branching::{
    extended, left_branch, relaxes, right_branch, sense_meaning, unit_row, Branch, BranchPoint,
    LpProblem,
};
use crate::frontier::{
    advanced, advancing_keeps_every_point, lies_in, times_held, Frontier, FrontierPlan, Relaxation,
};
use crate::config::RuntimeConfig;
use crate::jobs::{Job, LpStatus};
use crate::model::{normalized, normalizing_shapes, rows, well_shaped, Limits, Model};
use crate::number::{all_finite, minus_one, one, zero, Double};
use crate::options::{algorithm_named, Choices, LpAlgorithm};
use crate::subproblem::{
    halves, halves_keep_every_point, is_lp_task, is_mip_step, LpTask, SubproblemTask,
};
use vstd::prelude::*;

verus! {

/// Whether a reading of numbers is faithful: zero and the units are read as such,
/// and finite numbers keep their order.
pub open spec fn faithful(v: spec_fn(Double) -> int) -> bool {
    &&& v(zero()) == 0
    &&& v(one()) > 0
    &&& v(minus_one()) == -v(one())
    &&& forall|a: Double, b: Double|
        #![trigger v(a), v(b)]
        a.finite() && b.finite() ==> (a.below(b) <==> v(a) < v(b))
}

/// The value of a row at a point.
pub open spec fn activity(v: spec_fn(Double) -> int, row: Seq<Double>, x: Seq<int>) -> int
    decreases row.len(),
{
    if row.len() == 0 {
        0
    } else {
        activity(v, row.drop_last(), x) + v(row.last()) * x[row.len() - 1]
    }
}

/// Whether a point meets a row: its value is at most the right-hand side.
pub open spec fn holds(
    v: spec_fn(Double) -> int,
    row: Seq<Double>,
    rhs: Double,
    x: Seq<int>,
) -> bool {
    activity(v, row, x) <= v(rhs) * v(one())
}

/// Whether a point lies within the bounds of the variables: none is negative, and
/// none is above a finite upper bound.
pub open spec fn in_box(v: spec_fn(Double) -> int, m: Model, x: Seq<int>) -> bool {
    &&& x.len() == m.c.len()
    &&& forall|i: int| 0 <= i < x.len() ==> #[trigger] x[i] >= 0
    &&& forall|i: int|
        0 <= i < x.len() && m.ub is Some && m.ub->0[i].finite() ==> #[trigger] x[i] <= v(
            m.ub->0[i],
        )
}

/// Whether the variables that must be integral are.
pub open spec fn integral(v: spec_fn(Double) -> int, m: Model, x: Seq<int>) -> bool {
    forall|i: int|
        0 <= i < x.len() && i < m.integer_vars.len() && m.integer_vars[i] ==> (#[trigger] x[i])
            % v(one()) == 0
}

/// Whether a point solves a model.
pub open spec fn solution(v: spec_fn(Double) -> int, m: Model, x: Seq<int>) -> bool {
    &&& in_box(v, m, x)
    &&& integral(v, m, x)
    &&& forall|i: int| 0 <= i < m.a.len() ==> holds(v, #[trigger] m.a[i], m.b[i], x)
}

// The bounds.

/// Parting a row loses no coefficient at a bounded variable: one part holds it, the
/// other zero, by its sign.
pub proof fn parts_add_up(v: spec_fn(Double) -> int, m: Model, row: Seq<Double>, i: int)
    requires
        faithful(v),
        0 <= i < row.len(),
        row[i].finite(),
        upper_bound(m, i).finite(),
    ensures
        v(positive_part(m, row)[i]) + v(negative_part(m, row)[i]) == v(row[i]),
        v(positive_part(m, row)[i]) >= 0 >= v(negative_part(m, row)[i]),
        zero().below(row[i]) ==> positive_part(m, row)[i] == row[i] && negative_part(m, row)[i]
            == zero(),
        row[i].below(zero()) ==> negative_part(m, row)[i] == row[i] && positive_part(m, row)[i]
            == zero(),
{
    assert(v(zero()) == 0);
    assert(zero().below(row[i]) <==> v(zero()) < v(row[i]));
    assert(row[i].below(zero()) <==> v(row[i]) < v(zero()));
}

/// The bounds of the variables where they are finite, else zero, as they are read.
pub open spec fn corner(v: spec_fn(Double) -> int, finite_ub: Seq<Double>) -> Seq<int> {
    finite_ub.map_values(|u: Double| v(u))
}

/// The upper bounds that are finite, with zero for the others.
pub open spec fn finite_upper(m: Model) -> Seq<Double> {
    Seq::new(
        m.c.len(),
        |i: int|
            if upper_bound(m, i).finite() {
                upper_bound(m, i)
            } else {
                zero()
            },
    )
}

proof fn least_of_the_first(
    v: spec_fn(Double) -> int,
    m: Model,
    row: Seq<Double>,
    x: Seq<int>,
    k: nat,
)
    requires
        faithful(v),
        in_box(v, m, x),
        bounded_shape(m),
        row.len() == m.c.len(),
        all_finite(row),
        k <= row.len(),
    ensures
        !falls_without_bound(m, row) ==> activity(
            v,
            negative_part(m, row).take(k as int),
            corner(v, finite_upper(m)),
        ) <= activity(v, row.take(k as int), x),
        !grows_without_bound(m, row) ==> activity(v, row.take(k as int), x) <= activity(
            v,
            positive_part(m, row).take(k as int),
            corner(v, finite_upper(m)),
        ),
    decreases k,
{
    let least = negative_part(m, row);
    let greatest = positive_part(m, row);
    let ub = corner(v, finite_upper(m));
    if k > 0 {
        let i = k - 1;
        least_of_the_first(v, m, row, x, (k - 1) as nat);
        assert(row.take(k as int).drop_last() =~= row.take(i));
        assert(least.take(k as int).drop_last() =~= least.take(i));
        assert(greatest.take(k as int).drop_last() =~= greatest.take(i));
        let c = v(row[i]);
        let low = v(least[i]);
        let high = v(greatest[i]);
        assert(activity(v, row.take(k as int), x) == activity(v, row.take(i), x) + c * x[i]);
        assert(activity(v, least.take(k as int), ub) == activity(v, least.take(i), ub) + low * ub[i]);
        assert(activity(v, greatest.take(k as int), ub) == activity(v, greatest.take(i), ub) + high
            * ub[i]);
        assert(row[i].finite());
        assert(zero().below(row[i]) <==> v(zero()) < c);
        assert(row[i].below(zero()) <==> c < v(zero()));
        assert(x[i] >= 0);
        if upper_bound(m, i).finite() {
            assert(ub[i] == v(upper_bound(m, i)));
            assert(x[i] <= ub[i]);
            parts_add_up(v, m, row, i);
            let (y, u) = (x[i], ub[i]);
            assert(low * u <= c * y) by (nonlinear_arith)
                requires
                    0 <= y <= u,
                    low <= 0,
                    low == c || (low == 0 && c >= 0),
            ;
            assert(c * y <= high * u) by (nonlinear_arith)
                requires
                    0 <= y <= u,
                    high >= 0,
                    high == c || (high == 0 && c <= 0),
            ;
        } else {
            assert(least[i] == zero() && greatest[i] == zero());
            let u = ub[i];
            assert(0 * u == 0) by (nonlinear_arith);
            let y = x[i];
            if !falls_without_bound(m, row) {
                assert(c >= 0);
                assert(c * y >= 0) by (nonlinear_arith)
                    requires
                        y >= 0,
                        c >= 0,
                ;
            }
            if !grows_without_bound(m, row) {
                assert(c <= 0);
                assert(c * y <= 0) by (nonlinear_arith)
                    requires
                        y >= 0,
                        c <= 0,
                ;
            }
        }
    }
}

/// Within the bounds, a row is at least the value that its negative part has at the
/// upper bounds, where it cannot fall without bound; and at most the value that its
/// positive part has there, where it cannot grow without bound.
pub proof fn parts_bound_the_row(
    v: spec_fn(Double) -> int,
    m: Model,
    row: Seq<Double>,
    x: Seq<int>,
)
    requires
        faithful(v),
        in_box(v, m, x),
        bounded_shape(m),
        row.len() == m.c.len(),
        all_finite(row),
    ensures
        !falls_without_bound(m, row) ==> activity(
            v,
            negative_part(m, row),
            corner(v, finite_upper(m)),
        ) <= activity(v, row, x),
        !grows_without_bound(m, row) ==> activity(v, row, x) <= activity(
            v,
            positive_part(m, row),
            corner(v, finite_upper(m)),
        ),
{
    least_of_the_first(v, m, row, x, row.len());
    assert(row.take(row.len() as int) =~= row);
    assert(negative_part(m, row).take(row.len() as int) =~= negative_part(m, row));
    assert(positive_part(m, row).take(row.len() as int) =~= positive_part(m, row));
}

/// The point at which a row is least: the upper bound at the negative coefficients,
/// zero elsewhere.
pub open spec fn lowest_point(v: spec_fn(Double) -> int, m: Model, row: Seq<Double>) -> Seq<int> {
    Seq::new(
        m.c.len(),
        |i: int|
            if row[i].below(zero()) && upper_bound(m, i).finite() {
                v(upper_bound(m, i))
            } else {
                0
            },
    )
}

proof fn lowest_of_the_first(v: spec_fn(Double) -> int, m: Model, row: Seq<Double>, k: nat)
    requires
        faithful(v),
        bounded_shape(m),
        row.len() == m.c.len(),
        all_finite(row),
        !falls_without_bound(m, row),
        k <= row.len(),
    ensures
        activity(v, row.take(k as int), lowest_point(v, m, row)) == activity(
            v,
            negative_part(m, row).take(k as int),
            corner(v, finite_upper(m)),
        ),
    decreases k,
{
    if k > 0 {
        let i = k - 1;
        let least = negative_part(m, row);
        lowest_of_the_first(v, m, row, (k - 1) as nat);
        assert(row.take(k as int).drop_last() =~= row.take(i));
        assert(least.take(k as int).drop_last() =~= least.take(i));
        let at = lowest_point(v, m, row)[i];
        let u = corner(v, finite_upper(m))[i];
        if row[i].below(zero()) && upper_bound(m, i).finite() {
            assert(at == u);
        } else {
            assert(at == 0);
            assert(v(least[i]) == 0);
            let c = v(row[i]);
            assert(c * 0 == 0 * u) by (nonlinear_arith);
        }
    }
}

/// That least value is reached: there is a point within the bounds at which the row
/// has it.
pub proof fn least_values_are_reached(v: spec_fn(Double) -> int, m: Model, row: Seq<Double>)
    requires
        faithful(v),
        bounded_shape(m),
        row.len() == m.c.len(),
        all_finite(row),
        !falls_without_bound(m, row),
        forall|i: int|
            0 <= i < m.c.len() && m.ub is Some ==> !(#[trigger] m.ub->0[i]).below(zero()),
    ensures
        in_box(v, m, lowest_point(v, m, row)),
        activity(v, row, lowest_point(v, m, row)) == activity(
            v,
            negative_part(m, row),
            corner(v, finite_upper(m)),
        ),
{
    let x = lowest_point(v, m, row);
    lowest_of_the_first(v, m, row, row.len());
    assert(row.take(row.len() as int) =~= row);
    assert(negative_part(m, row).take(row.len() as int) =~= negative_part(m, row));
    assert forall|i: int| 0 <= i < x.len() implies #[trigger] x[i] >= 0 && (m.ub is Some
        && m.ub->0[i].finite() ==> x[i] <= v(m.ub->0[i])) by {
        if m.ub is Some && m.ub->0[i].finite() {
            assert(!m.ub->0[i].below(zero()));
            assert(m.ub->0[i].below(zero()) <==> v(m.ub->0[i]) < v(zero()));
        }
    }
}

/// A row that some point within the bounds meets is never judged infeasible, where
/// the least value is the one that the negative part has and the slack only widens
/// the right-hand side.
pub proof fn rows_that_can_hold_are_kept(
    v: spec_fn(Double) -> int,
    split: BoundSplit,
    m: Model,
    least: Seq<Double>,
    slack: Seq<Double>,
    i: int,
    x: Seq<int>,
)
    requires
        faithful(v),
        splits(split, m),
        bounded_shape(m),
        m.b.len() == m.a.len(),
        0 <= i < m.a.len(),
        all_finite(m.a[i]),
        in_box(v, m, x),
        holds(v, m.a[i], m.b[i], x),
        least[i].finite(),
        v(least[i]) * v(one()) == activity(
            v,
            split.negative@[i]@,
            corner(v, split.finite_ub@),
        ),
        slack[i].finite(),
        v(split.rhs@[i]) <= v(slack[i]),
    ensures
        !never_holds(split, least, slack, i),
{
    let row = m.a[i];
    assert(rows(split.negative@).len() == m.a.len());
    assert(rows(split.negative@)[i] == split.negative@[i]@);
    assert(rows(split.negative@)[i] == negative_part(m, row));
    assert(split.finite_ub@ =~= finite_upper(m));
    parts_bound_the_row(v, m, row, x);
    let (l, s, b, unit) = (v(least[i]), v(slack[i]), v(m.b[i]), v(one()));
    if !falls_without_bound(m, row) {
        assert(l <= s) by (nonlinear_arith)
            requires
                l * unit <= b * unit,
                b <= s,
                unit > 0,
        ;
        assert(slack[i].below(least[i]) <==> s < l);
    }
}

/// A row that is counted as one that always holds is met, up to its slack, by every
/// point within the bounds.
pub proof fn rows_that_always_hold_do(
    v: spec_fn(Double) -> int,
    split: BoundSplit,
    m: Model,
    greatest: Seq<Double>,
    slack: Seq<Double>,
    i: int,
    x: Seq<int>,
)
    requires
        faithful(v),
        splits(split, m),
        bounded_shape(m),
        0 <= i < m.a.len(),
        all_finite(m.a[i]),
        in_box(v, m, x),
        v(greatest[i]) * v(one()) == activity(
            v,
            split.positive@[i]@,
            corner(v, split.finite_ub@),
        ),
        slack[i].finite(),
        always_holds(split, greatest, slack, i),
    ensures
        holds(v, m.a[i], slack[i], x),
{
    let row = m.a[i];
    assert(rows(split.positive@).len() == m.a.len());
    assert(rows(split.positive@)[i] == split.positive@[i]@);
    assert(rows(split.positive@)[i] == positive_part(m, row));
    assert(split.finite_ub@ =~= finite_upper(m));
    parts_bound_the_row(v, m, row, x);
    let (g, s, unit) = (v(greatest[i]), v(slack[i]), v(one()));
    assert(!grows_without_bound(m, row));
    assert(slack[i].below(greatest[i]) <==> s < g);
    assert(g * unit <= s * unit) by (nonlinear_arith)
        requires
            g <= s,
            unit > 0,
    ;
}

// Branching.

proof fn zeros_add_nothing(
    v: spec_fn(Double) -> int,
    n: nat,
    var: int,
    c: Double,
    x: Seq<int>,
    k: nat,
)
    requires
        faithful(v),
        0 <= var < n,
        k <= n,
        x.len() == n,
    ensures
        activity(v, unit_row(n, var, c).take(k as int), x) == if var < k {
            v(c) * x[var]
        } else {
            0
        },
    decreases k,
{
    if k > 0 {
        let row = unit_row(n, var, c);
        zeros_add_nothing(v, n, var, c, x, (k - 1) as nat);
        assert(row.take(k as int).drop_last() =~= row.take(k - 1));
        let y = x[k - 1];
        assert(0 * y == 0) by (nonlinear_arith);
    }
}

/// The rows of a branch part the points at the variable: a point meets the one
/// where the variable is at most the lower integer, the other where it is at least
/// the upper one.
pub proof fn branches_part_the_values(
    v: spec_fn(Double) -> int,
    point: BranchPoint,
    n: nat,
    depth: nat,
    x: Seq<int>,
)
    requires
        faithful(v),
        point.var < n,
        x.len() == n,
    ensures
        ({
            let left = left_branch(point, n, depth);
            let right = right_branch(point, n, depth);
            &&& left.coefs.len() == n && right.coefs.len() == n
            &&& holds(v, left.coefs, left.rhs, x) <==> x[point.var as int] <= v(point.floor)
            &&& holds(v, right.coefs, right.rhs, x) <==> -x[point.var as int] <= v(
                point.negated_ceil,
            )
        }),
{
    let at = point.var as int;
    let left = left_branch(point, n, depth);
    let right = right_branch(point, n, depth);
    zeros_add_nothing(v, n, at, one(), x, n);
    zeros_add_nothing(v, n, at, minus_one(), x, n);
    assert(left.coefs.take(n as int) =~= left.coefs);
    assert(right.coefs.take(n as int) =~= right.coefs);
    let (unit, y, f, c) = (v(one()), x[at], v(point.floor), v(point.negated_ceil));
    assert(unit * y <= f * unit <==> y <= f) by (nonlinear_arith)
        requires
            unit > 0,
    ;
    assert((-unit) * y <= c * unit <==> -y <= c) by (nonlinear_arith)
        requires
            unit > 0,
    ;
}

/// Whether a branch point lies between two neighbouring integers.
pub open spec fn between_neighbours(v: spec_fn(Double) -> int, point: BranchPoint) -> bool {
    &&& v(point.floor) % v(one()) == 0
    &&& -v(point.negated_ceil) == v(point.floor) + v(one())
}

/// The rows that a point meets.
pub open spec fn met_by(v: spec_fn(Double) -> int, x: Seq<int>) -> spec_fn(Branch) -> bool {
    |k: Branch| holds(v, k.coefs, k.rhs, x)
}

/// A point with an integer at the variable meets exactly one of the two rows.
pub proof fn integers_take_one_branch(
    v: spec_fn(Double) -> int,
    point: BranchPoint,
    n: nat,
    depth: nat,
    x: Seq<int>,
)
    requires
        faithful(v),
        point.var < n,
        x.len() == n,
        between_neighbours(v, point),
        x[point.var as int] % v(one()) == 0,
    ensures
        met_by(v, x)(left_branch(point, n, depth)) != met_by(v, x)(right_branch(point, n, depth)),
{
    branches_part_the_values(v, point, n, depth, x);
    let (unit, y, f) = (v(one()), x[point.var as int], v(point.floor));
    if f < y < f + unit {
        assert(false) by {
            let (a, b) = (y / unit, f / unit);
            assert(y == a * unit && f == b * unit) by (nonlinear_arith)
                requires
                    unit > 0,
                    y % unit == 0,
                    f % unit == 0,
                    a == y / unit,
                    b == f / unit,
            ;
            assert(b < a < b + 1) by (nonlinear_arith)
                requires
                    unit > 0,
                    y == a * unit,
                    f == b * unit,
                    f < y < f + unit,
            ;
        }
    }
}

/// No solution is lost to the frontier and none is searched twice: relaxing a part
/// leaves each point with an integer at the branch variable in as many parts and
/// jobs as before, where the branch lies between neighbouring integers and a part
/// that is dropped does not hold the point.
pub proof fn frontiers_keep_every_solution(
    v: spec_fn(Double) -> int,
    plan: FrontierPlan,
    f: Frontier,
    relaxation: Relaxation,
    uuid: Seq<char>,
    now: u128,
    x: Seq<int>,
)
    requires
        faithful(v),
        f.queue.len() > 0,
        x.len() == plan.problem@.c.len(),
        relaxation.status == LpStatus::Infeasible ==> !lies_in(f.queue[0].extra, met_by(v, x)),
        relaxation.branch matches Some(point) ==> {
            &&& point.var < x.len()
            &&& between_neighbours(v, point)
            &&& x[point.var as int] % v(one()) == 0
        },
    ensures
        times_held(advanced(plan, f, relaxation, uuid, now), met_by(v, x)) == times_held(
            f,
            met_by(v, x),
        ),
{
    if let Some(point) = relaxation.branch {
        integers_take_one_branch(v, point, x.len(), f.queue[0].depth as nat, x);
    }
    advancing_keeps_every_point(plan, f, relaxation, uuid, now, met_by(v, x));
}

/// Splitting a job loses no solution and searches none twice: each point of the job
/// with an integer at the branch variable lies in exactly one half.
pub proof fn halves_keep_every_solution(
    v: spec_fn(Double) -> int,
    job: Job,
    point: BranchPoint,
    left_uuid: Seq<char>,
    right_uuid: Seq<char>,
    now: u128,
    x: Seq<int>,
)
    requires
        faithful(v),
        point.var < x.len(),
        between_neighbours(v, point),
        x[point.var as int] % v(one()) == 0,
    ensures
        ({
            let h = halves(job, point, x.len(), left_uuid, right_uuid, now);
            let inside = lies_in(job.extra_constraints, met_by(v, x));
            let left = lies_in(h[0].extra_constraints, met_by(v, x));
            let right = lies_in(h[1].extra_constraints, met_by(v, x));
            &&& inside <==> left || right
            &&& !(left && right)
        }),
{
    integers_take_one_branch(v, point, x.len(), job.depth as nat, x);
    halves_keep_every_point(job, point, x.len(), left_uuid, right_uuid, now, met_by(v, x));
}

// What the engines are given.

/// Normalising a model changes none of its solutions, and neither its objective nor
/// its sense.
pub proof fn normalizing_keeps_solutions(v: spec_fn(Double) -> int, m: Model, x: Seq<int>)
    requires
        m.integer_vars.len() <= m.c.len(),
    ensures
        solution(v, normalized(m), x) <==> solution(v, m, x),
        normalized(m).c == m.c,
        normalized(m).sense == m.sense,
{
    let n = normalized(m);
    assert(in_box(v, n, x) <==> in_box(v, m, x));
    if x.len() == m.c.len() {
        if integral(v, n, x) {
            assert forall|i: int|
                0 <= i < x.len() && i < m.integer_vars.len() && m.integer_vars[i] implies (
            #[trigger] x[i]) % v(one()) == 0 by {
                assert(n.integer_vars[i]);
            }
        }
        if integral(v, m, x) {
            assert forall|i: int|
                0 <= i < x.len() && i < n.integer_vars.len() && n.integer_vars[i] implies (
            #[trigger] x[i]) % v(one()) == 0 by {
                assert(m.integer_vars[i]);
            }
        }
    }
    assert(n.a == m.a && n.b == m.b);
}

/// The solutions of a model with rows added are those of the model that meet the
/// rows as well; the objective and the sense are the model's.
pub proof fn added_rows_only_narrow(
    v: spec_fn(Double) -> int,
    m: Model,
    extra: Seq<Branch>,
    limits: Limits,
    x: Seq<int>,
)
    requires
        extended(m, extra, limits) is Ok,
    ensures
        ({
            let e = extended(m, extra, limits)->Ok_0;
            &&& solution(v, e, x) <==> solution(v, m, x) && lies_in(extra, met_by(v, x))
            &&& e.c == m.c
            &&& e.sense == m.sense
        }),
{
    let base = normalized(m);
    let e = extended(m, extra, limits)->Ok_0;
    normalizing_shapes(m, limits);
    normalizing_keeps_solutions(v, m, x);
    assert(in_box(v, e, x) <==> in_box(v, base, x));
    assert(integral(v, e, x) <==> integral(v, base, x));
    let met = met_by(v, x);
    if forall|i: int| 0 <= i < e.a.len() ==> holds(v, #[trigger] e.a[i], e.b[i], x) {
        assert forall|i: int| 0 <= i < base.a.len() implies holds(
            v,
            #[trigger] base.a[i],
            base.b[i],
            x,
        ) by {
            assert(e.a[i] == base.a[i] && e.b[i] == base.b[i]);
        }
        assert forall|i: int| 0 <= i < extra.len() implies met(#[trigger] extra[i]) by {
            let k = base.a.len() + i;
            assert(e.a[k] == extra[i].coefs && e.b[k] == extra[i].rhs);
        }
    }
    if lies_in(extra, met) && (forall|i: int|
        0 <= i < base.a.len() ==> holds(v, #[trigger] base.a[i], base.b[i], x)) {
        assert forall|i: int| 0 <= i < e.a.len() implies holds(v, #[trigger] e.a[i], e.b[i], x) by {
            if i < base.a.len() {
                assert(e.a[i] == base.a[i] && e.b[i] == base.b[i]);
            } else {
                let k = i - base.a.len();
                assert(e.a[i] == extra[k].coefs && e.b[i] == extra[k].rhs);
                assert(met(extra[k]));
            }
        }
    }
}

/// Whether a point meets the rows and the bounds of a linear problem.
pub open spec fn lp_solution(v: spec_fn(Double) -> int, lp: LpProblem, x: Seq<int>) -> bool {
    &&& x.len() == lp.c@.len()
    &&& forall|i: int| 0 <= i < lp.a_ub@.len() ==> holds(v, (#[trigger] lp.a_ub@[i])@, lp.b_ub@[i], x)
    &&& forall|i: int|
        0 <= i < x.len() && lp.lb@[i] is Some ==> v(lp.lb@[i]->0) <= #[trigger] x[i]
    &&& forall|i: int|
        0 <= i < x.len() && lp.ub is Some && lp.ub->0@[i] is Some ==> #[trigger] x[i] <= v(
            lp.ub->0@[i]->0,
        )
}

/// The relaxation of a model has the model's objective and sense, and its solutions
/// are those of the model but for integrality.
pub proof fn relaxations_drop_integrality_alone(
    v: spec_fn(Double) -> int,
    lp: LpProblem,
    m: Model,
    x: Seq<int>,
)
    requires
        faithful(v),
        relaxes(lp, m),
        well_shaped(m),
    ensures
        lp.c@ == m.c,
        lp.sense == sense_meaning(m.sense),
        solution(v, m, x) <==> lp_solution(v, lp, x) && integral(v, m, x),
{
    assert(rows(lp.a_ub@).len() == lp.a_ub@.len());
    assert forall|i: int| 0 <= i < m.a.len() implies #[trigger] m.a[i] == lp.a_ub@[i]@ by {
        assert(rows(lp.a_ub@)[i] == lp.a_ub@[i]@);
    }
    if x.len() == m.c.len() {
        if solution(v, m, x) {
            assert forall|i: int| 0 <= i < lp.a_ub@.len() implies holds(
                v,
                (#[trigger] lp.a_ub@[i])@,
                lp.b_ub@[i],
                x,
            ) by {
                assert(holds(v, m.a[i], m.b[i], x));
            }
        }
        if lp_solution(v, lp, x) {
            assert forall|i: int| 0 <= i < m.a.len() implies holds(
                v,
                #[trigger] m.a[i],
                m.b[i],
                x,
            ) by {
                assert(holds(v, lp.a_ub@[i]@, lp.b_ub@[i], x));
            }
            assert forall|i: int| 0 <= i < x.len() implies #[trigger] x[i] >= 0 by {
                assert(lp.lb@[i] == Some(zero()));
            }
            assert forall|i: int|
                0 <= i < x.len() && m.ub is Some && m.ub->0[i].finite() implies #[trigger] x[i]
                <= v(m.ub->0[i]) by {
                assert(lp.ub->0@[i] == Some(m.ub->0[i]));
            }
        }
    }
}

/// A linear task has the solutions of the job, but for integrality: those of the model
/// that meet every added row. Its objective, its sense and its limit of iterations are
/// those that the job asks for.
pub proof fn linear_tasks_keep_the_solutions(
    v: spec_fn(Double) -> int,
    task: LpTask,
    m: Model,
    extra: Seq<Branch>,
    o: Choices,
    limits: Limits,
    x: Seq<int>,
)
    requires
        faithful(v),
        is_lp_task(task, m, extra, o, limits),
        well_shaped(extended(m, extra, limits)->Ok_0),
    ensures
        lp_solution(v, task.lp, x) && integral(v, m, x) <==> solution(v, m, x) && lies_in(
            extra,
            met_by(v, x),
        ),
        task.lp.c@ == m.c,
        task.lp.sense == sense_meaning(m.sense),
        o.lp_max_iters matches Some(n) ==> task.max_iter == n,
        o.lp_max_iters is None ==> task.max_iter == 5_000,
        algorithm_named(o.lp_algorithm) == Ok::<LpAlgorithm, Seq<char>>(task.algorithm),
{
    let e = extended(m, extra, limits)->Ok_0;
    added_rows_only_narrow(v, m, extra, limits, x);
    relaxations_drop_integrality_alone(v, task.lp, e, x);
    normalizing_keeps_integrality(v, m, extra, limits, x);
}

proof fn normalizing_keeps_integrality(
    v: spec_fn(Double) -> int,
    m: Model,
    extra: Seq<Branch>,
    limits: Limits,
    x: Seq<int>,
)
    requires
        extended(m, extra, limits) is Ok,
    ensures
        x.len() == m.c.len() ==> (integral(v, extended(m, extra, limits)->Ok_0, x) <==> integral(
            v,
            m,
            x,
        )),
{
    let e = extended(m, extra, limits)->Ok_0;
    assert(m.integer_vars.len() <= m.c.len());
    if x.len() == m.c.len() {
        if integral(v, e, x) {
            assert forall|i: int|
                0 <= i < x.len() && i < m.integer_vars.len() && m.integer_vars[i] implies (
            #[trigger] x[i]) % v(one()) == 0 by {
                assert(e.integer_vars[i] == m.integer_vars[i]);
            }
        }
        if integral(v, m, x) {
            assert forall|i: int|
                0 <= i < x.len() && i < e.integer_vars.len() && e.integer_vars[i] implies (
            #[trigger] x[i]) % v(one()) == 0 by {
                assert(i < m.integer_vars.len());
                assert(e.integer_vars[i] == m.integer_vars[i]);
            }
        }
    }
}

/// A task of branch and bound has the solutions of the job: those of the model that meet
/// every added row; and it is told what the job asks for.
pub proof fn branching_tasks_keep_the_solutions(
    v: spec_fn(Double) -> int,
    task: SubproblemTask,
    m: Model,
    extra: Seq<Branch>,
    o: Choices,
    limits: Limits,
    config: RuntimeConfig,
    x: Seq<int>,
)
    requires
        is_mip_step(task, m, extra, o, limits, config),
    ensures
        task is SolveMip || task is Fail,
        task is Fail <==> extended(m, extra, limits) is Err || algorithm_named(o.lp_algorithm)
            is Err,
        task matches SubproblemTask::SolveMip(t) ==> {
            &&& solution(v, t.problem.problem@, x) <==> solution(v, m, x) && lies_in(
                extra,
                met_by(v, x),
            )
            &&& t.problem.problem@.c == m.c
            &&& t.problem.sense == sense_meaning(m.sense)
            &&& t.options.max_nodes == o.max_nodes
            &&& t.options.int_tol == o.int_tol
            &&& !t.options.allow_external_solvers
        },
{
    if task is SolveMip {
        added_rows_only_narrow(v, m, extra, limits, x);
    }
}

}
