//! What the variable bounds alone say of the rows of a model.

use crate::accelerator::{noted, AcceleratorReport};
use crate::branching::{branches, extend_problem, extended, extended_shape, BranchConstraint};
use crate::model::{copy_numbers, repeated, rows, Limits, MipProblemSpec, Model};
use crate::number::{infinity, neg_infinity, zero, Double};
use crate::text::{dec, decimal, texts};
use vstd::prelude::*;
use vstd::string::*;

verus! {

/// The rows of a model parted by the sign of their coefficients, as far as the
/// variables are bounded, and which rows have a coefficient of each sign at an
/// unbounded variable.
#[derive(Debug)]
pub struct BoundSplit {
    pub positive: Vec<Vec<Double>>,
    pub negative: Vec<Vec<Double>>,
    pub positive_infinite: Vec<bool>,
    pub negative_infinite: Vec<bool>,
    pub finite_ub: Vec<Double>,
    pub rhs: Vec<Double>,
}

/// The upper bound of a variable.
pub open spec fn upper_bound(m: Model, i: int) -> Double {
    match m.ub {
        Some(ub) => ub[i],
        None => infinity(),
    }
}

/// A row with its positive coefficients at bounded variables; all else is zero.
pub open spec fn positive_part(m: Model, row: Seq<Double>) -> Seq<Double> {
    Seq::new(
        row.len(),
        |i: int|
            if zero().below(row[i]) && upper_bound(m, i).finite() {
                row[i]
            } else {
                zero()
            },
    )
}

/// A row with its negative coefficients at bounded variables; all else is zero.
pub open spec fn negative_part(m: Model, row: Seq<Double>) -> Seq<Double> {
    Seq::new(
        row.len(),
        |i: int|
            if row[i].below(zero()) && upper_bound(m, i).finite() {
                row[i]
            } else {
                zero()
            },
    )
}

/// Whether a row has a positive coefficient at an unbounded variable.
pub open spec fn grows_without_bound(m: Model, row: Seq<Double>) -> bool {
    exists|i: int|
        0 <= i < row.len() && zero().below(#[trigger] row[i]) && !upper_bound(m, i).finite()
}

/// Whether a row has a negative coefficient at an unbounded variable.
pub open spec fn falls_without_bound(m: Model, row: Seq<Double>) -> bool {
    exists|i: int|
        0 <= i < row.len() && (#[trigger] row[i]).below(zero()) && !upper_bound(m, i).finite()
}

/// Whether a split is that of an extended model.
pub open spec fn splits(split: BoundSplit, m: Model) -> bool {
    &&& rows(split.positive@) == m.a.map_values(|row: Seq<Double>| positive_part(m, row))
    &&& rows(split.negative@) == m.a.map_values(|row: Seq<Double>| negative_part(m, row))
    &&& split.positive_infinite@ == m.a.map_values(|row: Seq<Double>| grows_without_bound(m, row))
    &&& split.negative_infinite@ == m.a.map_values(|row: Seq<Double>| falls_without_bound(m, row))
    &&& split.finite_ub@ == Seq::new(
        m.c.len(),
        |i: int|
            if upper_bound(m, i).finite() {
                upper_bound(m, i)
            } else {
                zero()
            },
    )
    &&& split.rhs@ == m.b
}

/// Whether the upper bound of each variable is there to be read.
pub open spec fn bounded_shape(m: Model) -> bool {
    &&& m.ub is Some ==> m.ub->0.len() == m.c.len()
    &&& forall|i: int| 0 <= i < m.a.len() ==> (#[trigger] m.a[i]).len() == m.c.len()
}

struct RowSplit {
    positive: Vec<Double>,
    negative: Vec<Double>,
    grows: bool,
    falls: bool,
}

fn split_row(p: &MipProblemSpec, row: &Vec<Double>, upper: &Vec<Double>) -> (r: RowSplit)
    requires
        row@.len() == upper@.len(),
        forall|i: int| 0 <= i < upper@.len() ==> #[trigger] upper@[i] == upper_bound(p@, i),
    ensures
        r.positive@ == positive_part(p@, row@),
        r.negative@ == negative_part(p@, row@),
        r.grows == grows_without_bound(p@, row@),
        r.falls == falls_without_bound(p@, row@),
{
    let mut positive: Vec<Double> = Vec::new();
    let mut negative: Vec<Double> = Vec::new();
    let mut grows = false;
    let mut falls = false;
    let mut i: usize = 0;
    while i < row.len()
        invariant
            i <= row@.len(),
            row@.len() == upper@.len(),
            forall|k: int| 0 <= k < upper@.len() ==> #[trigger] upper@[k] == upper_bound(p@, k),
            positive@ == positive_part(p@, row@).take(i as int),
            negative@ == negative_part(p@, row@).take(i as int),
            grows == exists|k: int|
                0 <= k < i && zero().below(#[trigger] row@[k]) && !upper_bound(p@, k).finite(),
            falls == exists|k: int|
                0 <= k < i && (#[trigger] row@[k]).below(zero()) && !upper_bound(p@, k).finite(),
        decreases row@.len() - i,
    {
        let x = row[i];
        let bounded = upper[i].is_finite();
        let ghost old_grows = grows;
        let ghost old_falls = falls;
        assert(upper@[i as int] == upper_bound(p@, i as int));
        if zero().is_below(x) {
            positive.push(
                if bounded {
                    x
                } else {
                    zero()
                },
            );
            negative.push(zero());
            if !bounded {
                grows = true;
                assert(zero().below(row@[i as int]));
            }
        } else if x.is_below(zero()) {
            positive.push(zero());
            negative.push(
                if bounded {
                    x
                } else {
                    zero()
                },
            );
            if !bounded {
                falls = true;
                assert(row@[i as int].below(zero()));
            }
        } else {
            positive.push(zero());
            negative.push(zero());
        }
        assert(positive@ =~= positive_part(p@, row@).take(i + 1));
        assert(negative@ =~= negative_part(p@, row@).take(i + 1));
        i = i + 1;
    }
    assert(positive@ =~= positive_part(p@, row@));
    assert(negative@ =~= negative_part(p@, row@));
    RowSplit { positive, negative, grows, falls }
}

/// Parts the rows of a model with rows added.
pub fn bound_split(
    problem: &MipProblemSpec,
    extra_constraints: &Vec<BranchConstraint>,
    limits: Limits,
) -> (r: Result<BoundSplit, String>)
    ensures
        match (r, extended(problem@, branches(extra_constraints@), limits)) {
            (Ok(split), Ok(m)) => splits(split, m),
            (Err(e), Err(m)) => e@ == m,
            _ => false,
        },
{
    let p = match extend_problem(problem, extra_constraints, limits) {
        Err(e) => {
            return Err(e);
        },
        Ok(p) => p,
    };
    proof {
        extended_shape(problem@, branches(extra_constraints@), limits);
    }
    let n: usize = p.c.len();
    let upper = match &p.ub {
        Some(ub) => copy_numbers(ub),
        None => repeated(infinity(), n),
    };
    assert(upper@.len() == n);
    assert(forall|i: int| 0 <= i < n ==> #[trigger] upper@[i] == upper_bound(p@, i));
    let mut finite_ub: Vec<Double> = Vec::new();
    let mut i: usize = 0;
    while i < n
        invariant
            i <= n,
            upper@.len() == n,
            forall|k: int| 0 <= k < n ==> #[trigger] upper@[k] == upper_bound(p@, k),
            finite_ub@ == Seq::new(
                i as nat,
                |k: int|
                    if upper_bound(p@, k).finite() {
                        upper_bound(p@, k)
                    } else {
                        zero()
                    },
            ),
        decreases n - i,
    {
        finite_ub.push(
            if upper[i].is_finite() {
                upper[i]
            } else {
                zero()
            },
        );
        i = i + 1;
    }
    let mut positive: Vec<Vec<Double>> = Vec::new();
    let mut negative: Vec<Vec<Double>> = Vec::new();
    let mut positive_infinite: Vec<bool> = Vec::new();
    let mut negative_infinite: Vec<bool> = Vec::new();
    let mut k: usize = 0;
    while k < p.a.len()
        invariant
            k <= p.a@.len(),
            upper@.len() == n,
            n == p@.c.len(),
            bounded_shape(p@),
            forall|j: int| 0 <= j < n ==> #[trigger] upper@[j] == upper_bound(p@, j),
            positive@.len() == k,
            negative@.len() == k,
            positive_infinite@.len() == k,
            negative_infinite@.len() == k,
            forall|j: int| 0 <= j < k ==> (#[trigger] positive@[j])@ == positive_part(p@, p@.a[j]),
            forall|j: int| 0 <= j < k ==> (#[trigger] negative@[j])@ == negative_part(p@, p@.a[j]),
            forall|j: int|
                0 <= j < k ==> #[trigger] positive_infinite@[j] == grows_without_bound(
                    p@,
                    p@.a[j],
                ),
            forall|j: int|
                0 <= j < k ==> #[trigger] negative_infinite@[j] == falls_without_bound(
                    p@,
                    p@.a[j],
                ),
        decreases p.a@.len() - k,
    {
        assert(p@.a[k as int] == p.a@[k as int]@);
        let parts = split_row(&p, &p.a[k], &upper);
        positive.push(parts.positive);
        negative.push(parts.negative);
        positive_infinite.push(parts.grows);
        negative_infinite.push(parts.falls);
        k = k + 1;
    }
    assert(rows(positive@) =~= p@.a.map_values(|row: Seq<Double>| positive_part(p@, row)));
    assert(rows(negative@) =~= p@.a.map_values(|row: Seq<Double>| negative_part(p@, row)));
    assert(positive_infinite@ =~= p@.a.map_values(
        |row: Seq<Double>| grows_without_bound(p@, row),
    ));
    assert(negative_infinite@ =~= p@.a.map_values(
        |row: Seq<Double>| falls_without_bound(p@, row),
    ));
    Ok(
        BoundSplit {
            positive,
            negative,
            positive_infinite,
            negative_infinite,
            finite_ub,
            rhs: p.b,
        },
    )
}

/// What the bounds say of the rows: that one of them can never hold, or how many
/// of them always hold.
#[derive(Debug)]
pub enum BoundVerdict {
    Infeasible { row: usize, min_activity: Double },
    Open { always_satisfied: usize },
}

/// The least value of a row.
pub open spec fn min_activity(infinite: Seq<bool>, finite: Seq<Double>, i: int) -> Double {
    if infinite[i] {
        neg_infinity()
    } else {
        finite[i]
    }
}

/// The greatest value of a row.
pub open spec fn max_activity(infinite: Seq<bool>, finite: Seq<Double>, i: int) -> Double {
    if infinite[i] {
        infinity()
    } else {
        finite[i]
    }
}

/// Whether a row can never hold: its least value is above its right-hand side,
/// which is given with its slack.
pub open spec fn never_holds(split: BoundSplit, least: Seq<Double>, slack: Seq<Double>, i: int) -> bool {
    slack[i].below(min_activity(split.negative_infinite@, least, i))
}

/// Whether a row always holds: its greatest value is finite and not above its
/// right-hand side.
pub open spec fn always_holds(
    split: BoundSplit,
    greatest: Seq<Double>,
    slack: Seq<Double>,
    i: int,
) -> bool {
    let m = max_activity(split.positive_infinite@, greatest, i);
    m.finite() && !slack[i].nan() && m.rank() <= slack[i].rank()
}

/// How many of the first rows always hold.
pub open spec fn satisfied_count(
    split: BoundSplit,
    greatest: Seq<Double>,
    slack: Seq<Double>,
    k: nat,
) -> nat
    decreases k,
{
    if k == 0 {
        0
    } else {
        satisfied_count(split, greatest, slack, (k - 1) as nat) + if always_holds(
            split,
            greatest,
            slack,
            k - 1,
        ) {
            1nat
        } else {
            0nat
        }
    }
}

/// Judges the rows, given the least and the greatest values that their finite
/// parts have and the right-hand sides with their slack. The first row that can
/// never hold decides.
pub fn bound_verdict(
    split: &BoundSplit,
    greatest: &Vec<Double>,
    least: &Vec<Double>,
    slack: &Vec<Double>,
) -> (r: BoundVerdict)
    requires
        split.positive_infinite@.len() == split.rhs@.len(),
        split.negative_infinite@.len() == split.rhs@.len(),
        greatest@.len() == split.rhs@.len(),
        least@.len() == split.rhs@.len(),
        slack@.len() == split.rhs@.len(),
    ensures
        match r {
            BoundVerdict::Infeasible { row, min_activity: found } => {
                &&& row < split.rhs@.len()
                &&& never_holds(*split, least@, slack@, row as int)
                &&& forall|j: int| 0 <= j < row ==> !never_holds(*split, least@, slack@, j)
                &&& found == min_activity(split.negative_infinite@, least@, row as int)
            },
            BoundVerdict::Open { always_satisfied } => {
                &&& forall|j: int|
                    0 <= j < split.rhs@.len() ==> !never_holds(*split, least@, slack@, j)
                &&& always_satisfied == satisfied_count(
                    *split,
                    greatest@,
                    slack@,
                    split.rhs@.len(),
                )
            },
        },
{
    let mut satisfied: usize = 0;
    let mut i: usize = 0;
    while i < split.rhs.len()
        invariant
            i <= split.rhs@.len(),
            split.positive_infinite@.len() == split.rhs@.len(),
            split.negative_infinite@.len() == split.rhs@.len(),
            greatest@.len() == split.rhs@.len(),
            least@.len() == split.rhs@.len(),
            slack@.len() == split.rhs@.len(),
            satisfied <= i,
            satisfied == satisfied_count(*split, greatest@, slack@, i as nat),
            forall|j: int| 0 <= j < i ==> !never_holds(*split, least@, slack@, j),
        decreases split.rhs@.len() - i,
    {
        let low = if split.negative_infinite[i] {
            neg_infinity()
        } else {
            least[i]
        };
        let high = if split.positive_infinite[i] {
            infinity()
        } else {
            greatest[i]
        };
        if slack[i].is_below(low) {
            return BoundVerdict::Infeasible { row: i, min_activity: low };
        }
        if high.is_finite() && !slack[i].is_nan() && !slack[i].is_below(high) {
            satisfied = satisfied + 1;
        }
        i = i + 1;
    }
    BoundVerdict::Open { always_satisfied: satisfied }
}

/// Why a model is infeasible, given the two numbers as text.
pub fn infeasible_reason(row: usize, min_text: &str, rhs_text: &str) -> (r: String)
    ensures
        r@ == "bound preprocessing proved row "@ + dec(row as nat)
            + " infeasible: min activity "@ + min_text@ + " > rhs "@ + rhs_text@,
{
    let mut e = "bound preprocessing proved row ".to_owned();
    e.append(decimal(row).as_str());
    e.append(" infeasible: min activity ");
    e.append(min_text);
    e.append(" > rhs ");
    e.append(rhs_text);
    e
}

/// The report with a note on the rows that always hold, where there are any.
pub fn note_satisfied_rows(report: AcceleratorReport, always_satisfied: usize) -> (r:
    AcceleratorReport)
    ensures
        r@ == if always_satisfied > 0 {
            noted(
                report@,
                "bound preprocessing found "@ + dec(always_satisfied as nat)
                    + " rows always satisfied by variable bounds"@,
            )
        } else {
            report@
        },
{
    let mut report = report;
    if always_satisfied > 0 {
        let mut note = "bound preprocessing found ".to_owned();
        note.append(decimal(always_satisfied).as_str());
        note.append(" rows always satisfied by variable bounds");
        let ghost before = report.notes@;
        report.notes.push(note);
        assert(texts(report.notes@) =~= texts(before).push(note@));
    }
    report
}

/// The number of rows that always hold counts each such row once.
pub proof fn held_rows_are_counted(
    split: BoundSplit,
    greatest: Seq<Double>,
    slack: Seq<Double>,
    k: nat,
)
    ensures
        satisfied_count(split, greatest, slack, k) == Set::new(
            |i: int| 0 <= i < k && always_holds(split, greatest, slack, i),
        ).len(),
        Set::new(|i: int| 0 <= i < k && always_holds(split, greatest, slack, i)).finite(),
    decreases k,
{
    let rows = Set::new(|i: int| 0 <= i < k && always_holds(split, greatest, slack, i));
    if k == 0 {
        assert(rows =~= Set::empty());
    } else {
        let fewer = Set::new(|i: int| 0 <= i < k - 1 && always_holds(split, greatest, slack, i));
        held_rows_are_counted(split, greatest, slack, (k - 1) as nat);
        assert(fewer =~= Set::new(
            |i: int| 0 <= i < (k - 1) as nat && always_holds(split, greatest, slack, i),
        ));
        if always_holds(split, greatest, slack, k - 1) {
            assert(rows =~= fewer.insert(k - 1));
            assert(!fewer.contains(k - 1));
        } else {
            assert(rows =~= fewer);
        }
    }
}

/// A row that can fall or grow without bound is never judged to fail, nor to hold.
pub proof fn unbounded_rows_stay_open(
    split: BoundSplit,
    least: Seq<Double>,
    greatest: Seq<Double>,
    slack: Seq<Double>,
    i: int,
)
    ensures
        split.negative_infinite@[i] && slack[i].finite() ==> !never_holds(split, least, slack, i),
        split.positive_infinite@[i] ==> !always_holds(split, greatest, slack, i),
        !split.negative_infinite@[i] ==> (never_holds(split, least, slack, i) <==> slack[i].below(
            least[i],
        )),
{
}

}
