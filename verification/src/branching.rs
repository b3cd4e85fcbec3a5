//! Branching: rows added to a model, the relaxed problems that the engines
//! solve, and the rows that the variable bounds alone decide.

use crate::model::{
    copy_numbers, model_error, names_view, normalized, normalized_problem, normalized_result,
    normalizing_shapes, repeated, rows, unit_result, valid, well_shaped, Limits, MipProblemSpec,
    Model,
};
use crate::number::{all_finite, are_all_finite, minus_one, one, zero, Double};
use crate::text::{dec, decimal, lowered, same, texts, to_lower};
use vstd::prelude::*;
use vstd::string::*;

verus! {

/// The sense of an objective.
#[derive(Clone, Copy, Debug, PartialEq, Eq, Structural)]
pub enum Sense {
    Min,
    Max,
}

/// What a sense means: `min`, `minimize` and `minimise`, in any case, are
/// minimisation; all else is maximisation.
pub open spec fn sense_meaning(raw: Seq<char>) -> Sense {
    let low = lowered(raw);
    if low == "min"@ || low == "minimize"@ || low == "minimise"@ {
        Sense::Min
    } else {
        Sense::Max
    }
}

/// Reads a sense.
pub fn sense_of(raw: &str) -> (r: Sense)
    ensures
        r == sense_meaning(raw@),
{
    let low = to_lower(raw);
    if same(low.as_str(), "min") || same(low.as_str(), "minimize") || same(
        low.as_str(),
        "minimise",
    ) {
        Sense::Min
    } else {
        Sense::Max
    }
}

/// A row that branching adds to a model.
#[derive(Debug)]
pub struct BranchConstraint {
    pub coefs: Vec<Double>,
    pub rhs: Double,
    pub name: String,
}

/// The contents of a row.
#[verifier::ext_equal]
pub struct Branch {
    pub coefs: Seq<Double>,
    pub rhs: Double,
    pub name: Seq<char>,
}

impl View for BranchConstraint {
    type V = Branch;

    open spec fn view(&self) -> Branch {
        Branch { coefs: self.coefs@, rhs: self.rhs, name: self.name@ }
    }
}

impl Clone for BranchConstraint {
    fn clone(&self) -> (r: Self)
        ensures
            r@ == self@,
    {
        BranchConstraint {
            coefs: copy_numbers(&self.coefs),
            rhs: self.rhs,
            name: self.name.clone(),
        }
    }
}

/// The contents of each row.
pub open spec fn branches(v: Seq<BranchConstraint>) -> Seq<Branch> {
    v.map_values(|k: BranchConstraint| k@)
}

/// Copies a list of rows.
pub fn copy_branches(v: &Vec<BranchConstraint>) -> (r: Vec<BranchConstraint>)
    ensures
        branches(r@) == branches(v@),
{
    let mut out: Vec<BranchConstraint> = Vec::new();
    let mut i: usize = 0;
    while i < v.len()
        invariant
            i <= v@.len(),
            out@.len() == i,
            forall|j: int| 0 <= j < i ==> (#[trigger] out@[j])@ == v@[j]@,
        decreases v@.len() - i,
    {
        out.push(v[i].clone());
        i = i + 1;
    }
    assert(branches(out@) =~= branches(v@));
    out
}

/// What is wrong with a row of a model of `n` variables.
pub open spec fn branch_error(k: Branch, n: nat) -> Option<Seq<char>> {
    if k.coefs.len() != n {
        Some(
            "branch constraint "@ + k.name + " has length "@ + dec(k.coefs.len()) + ", expected "@
                + dec(n),
        )
    } else if !all_finite(k.coefs) {
        Some("branch constraint "@ + k.name + " contains a non-finite coefficient"@)
    } else if !k.rhs.finite() {
        Some("branch constraint "@ + k.name + " rhs must be finite"@)
    } else {
        None
    }
}

/// Checks a row of a model of `n` variables.
pub fn validate_branch_constraint(constraint: &BranchConstraint, n: usize) -> (r: Result<
    (),
    String,
>)
    ensures
        unit_result(r) == branch_error(constraint@, n as nat),
{
    let mut e = "branch constraint ".to_owned();
    e.append(constraint.name.as_str());
    if constraint.coefs.len() != n {
        e.append(" has length ");
        e.append(decimal(constraint.coefs.len()).as_str());
        e.append(", expected ");
        e.append(decimal(n).as_str());
        return Err(e);
    }
    if !are_all_finite(&constraint.coefs) {
        e.append(" contains a non-finite coefficient");
        return Err(e);
    }
    if !constraint.rhs.is_finite() {
        e.append(" rhs must be finite");
        return Err(e);
    }
    Ok(())
}

/// What is wrong with the rows, the first bad one deciding.
pub open spec fn branches_error(extra: Seq<Branch>, n: nat) -> Option<Seq<char>>
    decreases extra.len(),
{
    if extra.len() == 0 {
        None
    } else {
        match branches_error(extra.drop_last(), n) {
            Some(e) => Some(e),
            None => branch_error(extra.last(), n),
        }
    }
}

proof fn branch_errors_stay(extra: Seq<Branch>, k: int, n: nat)
    requires
        0 <= k <= extra.len(),
        branches_error(extra.take(k), n) is Some,
    ensures
        branches_error(extra, n) == branches_error(extra.take(k), n),
    decreases extra.len() - k,
{
    if k == extra.len() {
        assert(extra.take(k) =~= extra);
    } else {
        assert(extra.take(k + 1).drop_last() =~= extra.take(k));
        branch_errors_stay(extra, k + 1, n);
    }
}

/// A normalised model with rows added, and a name for each where rows have names.
pub open spec fn with_branches(m: Model, extra: Seq<Branch>) -> Model {
    Model {
        a: m.a + extra.map_values(|k: Branch| k.coefs),
        b: m.b + extra.map_values(|k: Branch| k.rhs),
        con_names: match m.con_names {
            Some(names) => Some(names + extra.map_values(|k: Branch| k.name)),
            None => None,
        },
        ..m
    }
}

/// A model, checked and normalised, with checked rows added.
pub open spec fn extended(m: Model, extra: Seq<Branch>, limits: Limits) -> Result<
    Model,
    Seq<char>,
> {
    match normalized_result(m, limits) {
        Err(e) => Err(e),
        Ok(base) => match branches_error(extra, base.c.len()) {
            Some(e) => Err(e),
            None => Ok(with_branches(base, extra)),
        },
    }
}

/// Checks and normalises a model and adds checked rows.
pub fn extend_problem(
    problem: &MipProblemSpec,
    extra: &Vec<BranchConstraint>,
    limits: Limits,
) -> (r: Result<MipProblemSpec, String>)
    ensures
        match (r, extended(problem@, branches(extra@), limits)) {
            (Ok(p), Ok(m)) => p@ == m,
            (Err(e), Err(m)) => e@ == m,
            _ => false,
        },
{
    let mut out = match normalized_problem(problem.clone(), limits) {
        Err(e) => {
            return Err(e);
        },
        Ok(p) => p,
    };
    let ghost base = out@;
    let ghost all = branches(extra@);
    let mut i: usize = 0;
    assert(out@ =~= with_branches(base, all.take(0)));
    while i < extra.len()
        invariant
            i <= extra@.len(),
            all == branches(extra@),
            base == normalized(problem@),
            valid(problem@, limits),
            branches_error(all.take(i as int), base.c.len()) is None,
            out@ == with_branches(base, all.take(i as int)),
        decreases extra@.len() - i,
    {
        let ghost before = all.take(i as int);
        let ghost after = all.take(i + 1);
        assert(after.drop_last() =~= before);
        assert(after.last() == extra@[i as int]@);
        match validate_branch_constraint(&extra[i], out.c.len()) {
            Err(e) => {
                proof {
                    branch_errors_stay(all, i + 1, base.c.len());
                }
                return Err(e);
            },
            Ok(_) => {},
        }
        let ghost old_a = out.a@;
        let ghost old_out = out@;
        out.a.push(copy_numbers(&extra[i].coefs));
        assert(rows(out.a@) =~= rows(old_a).push(extra@[i as int].coefs@));
        out.b.push(extra[i].rhs);
        if let Some(names) = &mut out.con_names {
            let ghost old_names = names@;
            names.push(extra[i].name.clone());
            assert(texts(names@) =~= texts(old_names).push(extra@[i as int].name@));
        }
        assert(after =~= before.push(extra@[i as int]@));
        assert(rows(out.a@) =~= with_branches(base, after).a);
        assert(out.b@ =~= with_branches(base, after).b);
        assert(names_view(out.con_names) =~= with_branches(base, after).con_names) by {
            if let Some(names) = base.con_names {
                assert(names + after.map_values(|k: Branch| k.name) =~= (names
                    + before.map_values(|k: Branch| k.name)).push(extra@[i as int].name@));
            }
        }
        assert(out@ =~= with_branches(base, after));
        i = i + 1;
    }
    assert(all.take(i as int) =~= all);
    Ok(out)
}

/// A mixed-integer problem as the branch-and-bound engine takes it.
#[derive(Debug)]
pub struct IpMipProblem {
    pub sense: Sense,
    pub problem: MipProblemSpec,
}

/// The mixed-integer problem of a model with rows added: the extended model with
/// its sense read.
pub fn to_ipmip_problem(
    problem: &MipProblemSpec,
    extra_constraints: &Vec<BranchConstraint>,
    limits: Limits,
) -> (r: Result<IpMipProblem, String>)
    ensures
        match (r, extended(problem@, branches(extra_constraints@), limits)) {
            (Ok(p), Ok(m)) => p.problem@ == m && p.sense == sense_meaning(m.sense),
            (Err(e), Err(m)) => e@ == m,
            _ => false,
        },
{
    match extend_problem(problem, extra_constraints, limits) {
        Err(e) => Err(e),
        Ok(p) => {
            let sense = sense_of(p.sense.as_str());
            Ok(IpMipProblem { sense, problem: p })
        },
    }
}

/// A linear problem as the LP engines take it: rows `a_ub x <= b_ub`, a lower and
/// an upper bound for each variable where it has one.
#[derive(Debug)]
pub struct LpProblem {
    pub sense: Sense,
    pub c: Vec<Double>,
    pub a_ub: Vec<Vec<Double>>,
    pub b_ub: Vec<Double>,
    pub lb: Vec<Option<Double>>,
    pub ub: Option<Vec<Option<Double>>>,
    pub var_names: Option<Vec<String>>,
    pub con_names: Option<Vec<String>>,
}

/// Bounds in which an infinite one is no bound.
pub open spec fn finite_bounds(ub: Option<Seq<Double>>) -> Option<Seq<Option<Double>>> {
    match ub {
        Some(v) => Some(
            v.map_values(
                |x: Double|
                    if x.finite() {
                        Some(x)
                    } else {
                        None::<Double>
                    },
            ),
        ),
        None => None,
    }
}

/// Whether a linear problem is the relaxation of an extended model: its rows are
/// the model's rows, every variable is non-negative, finite upper bounds stay.
pub open spec fn relaxes(lp: LpProblem, m: Model) -> bool {
    &&& lp.sense == sense_meaning(m.sense)
    &&& lp.c@ == m.c
    &&& rows(lp.a_ub@) == m.a
    &&& lp.b_ub@ == m.b
    &&& lp.lb@ == Seq::new(m.c.len(), |i: int| Some(zero()))
    &&& (match lp.ub {
        Some(v) => Some(v@),
        None => None,
    }) == finite_bounds(m.ub)
    &&& names_view(lp.var_names) == m.var_names
    &&& names_view(lp.con_names) == m.con_names
}

/// The linear relaxation of a model with rows added.
pub fn to_lp_problem(
    problem: &MipProblemSpec,
    extra_constraints: &Vec<BranchConstraint>,
    limits: Limits,
) -> (r: Result<LpProblem, String>)
    ensures
        match (r, extended(problem@, branches(extra_constraints@), limits)) {
            (Ok(lp), Ok(m)) => relaxes(lp, m),
            (Err(e), Err(m)) => e@ == m,
            _ => false,
        },
{
    let p = match extend_problem(problem, extra_constraints, limits) {
        Err(e) => {
            return Err(e);
        },
        Ok(p) => p,
    };
    let n: usize = p.c.len();
    let mut lb: Vec<Option<Double>> = Vec::new();
    let mut i: usize = 0;
    while i < n
        invariant
            i <= n,
            lb@ == Seq::new(i as nat, |j: int| Some(zero())),
        decreases n - i,
    {
        lb.push(Some(zero()));
        i = i + 1;
    }
    let ub = match &p.ub {
        None => None,
        Some(bounds) => {
            let mut out: Vec<Option<Double>> = Vec::new();
            let mut k: usize = 0;
            while k < bounds.len()
                invariant
                    k <= bounds@.len(),
                    Some(out@) == finite_bounds(Some(bounds@.take(k as int))),
                decreases bounds@.len() - k,
            {
                let ghost before = out@;
                out.push(bounds[k].if_finite());
                assert(out@ =~= finite_bounds(Some(bounds@.take(k + 1)))->0);
                k = k + 1;
            }
            assert(bounds@.take(k as int) =~= bounds@);
            Some(out)
        },
    };
    Ok(
        LpProblem {
            sense: sense_of(p.sense.as_str()),
            c: p.c,
            a_ub: p.a,
            b_ub: p.b,
            lb,
            ub,
            var_names: p.var_names,
            con_names: p.con_names,
        },
    )
}

/// Whether no variable of a model must be integral.
pub open spec fn all_continuous(m: Model) -> bool {
    forall|i: int| 0 <= i < m.c.len() && i < m.integer_vars.len() ==> !#[trigger] m.integer_vars[i]
}

/// Whether a model that passes the checks is a pure linear problem.
pub fn is_pure_lp(problem: &MipProblemSpec, limits: Limits) -> (r: Result<bool, String>)
    ensures
        match (r, normalized_result(problem@, limits)) {
            (Ok(b), Ok(_)) => b == all_continuous(problem@),
            (Err(e), Err(m)) => e@ == m,
            _ => false,
        },
{
    let p = match normalized_problem(problem.clone(), limits) {
        Err(e) => {
            return Err(e);
        },
        Ok(p) => p,
    };
    let ghost flags = problem@.integer_vars;
    let mut i: usize = 0;
    while i < p.integer_vars.len()
        invariant
            i <= p.integer_vars@.len(),
            p@ == normalized(problem@),
            flags == problem@.integer_vars,
            valid(problem@, limits),
            forall|j: int| 0 <= j < i ==> !#[trigger] p.integer_vars@[j],
        decreases p.integer_vars@.len() - i,
    {
        if p.integer_vars[i] {
            assert(flags[i as int]);
            return Ok(false);
        }
        i = i + 1;
    }
    assert forall|j: int| 0 <= j < problem@.c.len() && j < flags.len() implies !#[trigger] flags[j] by {
        assert(p.integer_vars@[j] == flags[j]);
    }
    Ok(true)
}

/// Whether variable `i` must be integral and is fractional in a solution that
/// has a value for it.
pub open spec fn fractional_at(integer_vars: Seq<bool>, fractional: Seq<bool>, i: int) -> bool {
    0 <= i < integer_vars.len() && i < fractional.len() && integer_vars[i] && fractional[i]
}

/// The first variable that must be integral and is not. `fractional` tells, for
/// each value of a solution, whether it is farther from an integer than the
/// tolerance.
pub fn first_fractional(integer_vars: &Vec<bool>, fractional: &Vec<bool>) -> (r: Option<usize>)
    ensures
        match r {
            Some(i) => fractional_at(integer_vars@, fractional@, i as int) && forall|j: int|
                0 <= j < i ==> !fractional_at(integer_vars@, fractional@, j),
            None => forall|j: int| !fractional_at(integer_vars@, fractional@, j),
        },
{
    let mut i: usize = 0;
    while i < integer_vars.len() && i < fractional.len()
        invariant
            i <= integer_vars@.len(),
            i <= fractional@.len(),
            forall|j: int| 0 <= j < i ==> !fractional_at(integer_vars@, fractional@, j),
        decreases integer_vars@.len() - i,
    {
        if integer_vars[i] && fractional[i] {
            return Some(i);
        }
        i = i + 1;
    }
    None
}

/// A value to branch on: the variable, the next integers below and above (the
/// upper one negated), and the three as text.
#[derive(Debug)]
pub struct BranchPoint {
    pub var: usize,
    pub floor: Double,
    pub negated_ceil: Double,
    pub value_text: String,
    pub floor_text: String,
    pub ceil_text: String,
}

/// A row that is zero but for one coefficient.
pub open spec fn unit_row(n: nat, var: int, x: Double) -> Seq<Double> {
    Seq::new(
        n,
        |i: int|
            if i == var {
                x
            } else {
                zero()
            },
    )
}

/// The name of a branch.
pub open spec fn branch_name(depth: nat, var: nat, side: Seq<char>, bound: Seq<char>) -> Seq<char> {
    "branch_d"@ + dec(depth) + "_x"@ + dec(var) + side + bound
}

/// The row that keeps the variable at or below the branch value.
pub open spec fn left_branch(point: BranchPoint, n: nat, depth: nat) -> Branch {
    Branch {
        coefs: unit_row(n, point.var as int, one()),
        rhs: point.floor,
        name: branch_name(depth, point.var as nat, "_le_"@, point.floor_text@),
    }
}

/// The row that keeps the variable at or above the branch value.
pub open spec fn right_branch(point: BranchPoint, n: nat, depth: nat) -> Branch {
    Branch {
        coefs: unit_row(n, point.var as int, minus_one()),
        rhs: point.negated_ceil,
        name: branch_name(depth, point.var as nat, "_ge_"@, point.ceil_text@),
    }
}

fn make_branch_name(depth: usize, var: usize, side: &str, bound: &str) -> (r: String)
    ensures
        r@ == branch_name(depth as nat, var as nat, side@, bound@),
{
    let mut out = "branch_d".to_owned();
    out.append(decimal(depth).as_str());
    out.append("_x");
    out.append(decimal(var).as_str());
    out.append(side);
    out.append(bound);
    out
}

/// The two rows that part the values of a variable at a branch point.
pub fn branch_constraints(point: &BranchPoint, n: usize, depth: usize) -> (r: (
    BranchConstraint,
    BranchConstraint,
))
    requires
        point.var < n,
    ensures
        r.0@ == left_branch(*point, n as nat, depth as nat),
        r.1@ == right_branch(*point, n as nat, depth as nat),
{
    let mut left = repeated(zero(), n);
    left.set(point.var, one());
    let mut right = repeated(zero(), n);
    right.set(point.var, minus_one());
    assert(left@ =~= unit_row(n as nat, point.var as int, one()));
    assert(right@ =~= unit_row(n as nat, point.var as int, minus_one()));
    (
        BranchConstraint {
            coefs: left,
            rhs: point.floor,
            name: make_branch_name(depth, point.var, "_le_", point.floor_text.as_str()),
        },
        BranchConstraint {
            coefs: right,
            rhs: point.negated_ceil,
            name: make_branch_name(depth, point.var, "_ge_", point.ceil_text.as_str()),
        },
    )
}

/// The rows of a branch pass the check of a model with that many variables,
/// where the next integers are finite.
pub proof fn branches_are_accepted(point: BranchPoint, n: nat, depth: nat)
    requires
        point.floor.finite(),
        point.negated_ceil.finite(),
    ensures
        branch_error(left_branch(point, n, depth), n) is None,
        branch_error(right_branch(point, n, depth), n) is None,
{
}

/// An extended model has rows as long as its objective, and a bound for each
/// variable where it has bounds.
pub proof fn extended_shape(m: Model, extra: Seq<Branch>, limits: Limits)
    ensures
        extended(m, extra, limits) matches Ok(e) ==> well_shaped(e),
{
    if let Ok(e) = extended(m, extra, limits) {
        normalizing_shapes(m, limits);
        let base = normalized(m);
        good_branches(extra, base.c.len());
        assert forall|i: int| 0 <= i < e.a.len() implies (#[trigger] e.a[i]).len() == e.c.len() by {
            if i < base.a.len() {
                assert(e.a[i] == base.a[i]);
            } else {
                assert(e.a[i] == extra[i - base.a.len()].coefs);
            }
        }
    }
}

proof fn good_branches(extra: Seq<Branch>, n: nat)
    requires
        branches_error(extra, n) is None,
    ensures
        forall|i: int| 0 <= i < extra.len() ==> branch_error(#[trigger] extra[i], n) is None,
    decreases extra.len(),
{
    if extra.len() > 0 {
        good_branches(extra.drop_last(), n);
        assert forall|i: int| 0 <= i < extra.len() implies branch_error(
            #[trigger] extra[i],
            n,
        ) is None by {
            if i < extra.len() - 1 {
                assert(extra.drop_last()[i] == extra[i]);
            }
        }
    }
}

/// What the names of the senses mean, however they are written: `min`, `minimize`
/// and `minimise` ask for the least value, and any other text for the greatest.
pub proof fn senses_are_read(raw: Seq<char>)
    ensures
        sense_meaning("min"@) == Sense::Min,
        sense_meaning("minimize"@) == Sense::Min,
        sense_meaning("minimise"@) == Sense::Min,
        sense_meaning("MIN"@) == Sense::Min,
        sense_meaning("Minimize"@) == Sense::Min,
        sense_meaning("max"@) == Sense::Max,
        sense_meaning("maximize"@) == Sense::Max,
        lowered(raw) == "min"@ || lowered(raw) == "minimize"@ || lowered(raw) == "minimise"@
            <==> sense_meaning(raw) == Sense::Min,
        sense_meaning(raw) == Sense::Min || sense_meaning(raw) == Sense::Max,
        sense_meaning(lowered(raw)) == sense_meaning(raw),
{
    reveal_strlit("min");
    reveal_strlit("minimize");
    reveal_strlit("minimise");
    reveal_strlit("MIN");
    reveal_strlit("Minimize");
    reveal_strlit("max");
    reveal_strlit("maximize");
    assert(lowered("min"@) =~= "min"@);
    assert(lowered("minimize"@) =~= "minimize"@);
    assert(lowered("minimise"@) =~= "minimise"@);
    assert(lowered("MIN"@) =~= "min"@);
    assert(lowered("Minimize"@) =~= "minimize"@);
    assert(lowered("max"@)[1] == 'a');
    assert(lowered("maximize"@)[1] == 'a');
    assert("min"@[1] == 'i' && "minimize"@[1] == 'i' && "minimise"@[1] == 'i');
    assert(lowered(lowered(raw)) =~= lowered(raw));
}

proof fn fitting_rows_pass(extra: Seq<Branch>, n: nat)
    ensures
        branches_error(extra, n) is None <==> forall|i: int|
            0 <= i < extra.len() ==> branch_error(#[trigger] extra[i], n) is None,
    decreases extra.len(),
{
    if extra.len() > 0 {
        let front = extra.drop_last();
        fitting_rows_pass(front, n);
        assert(extra[extra.len() - 1] == extra.last());
        if branches_error(extra, n) is None {
            assert forall|i: int| 0 <= i < extra.len() implies branch_error(
                #[trigger] extra[i],
                n,
            ) is None by {
                if i < front.len() {
                    assert(front[i] == extra[i]);
                }
            }
        }
        if forall|i: int| 0 <= i < extra.len() ==> branch_error(#[trigger] extra[i], n) is None {
            assert forall|i: int| 0 <= i < front.len() implies branch_error(
                #[trigger] front[i],
                n,
            ) is None by {
                assert(front[i] == extra[i]);
            }
        }
    }
}

/// Rows are added to a model exactly where the model passes the checks and each of them
/// has a finite coefficient for each variable and a finite right-hand side; they stand
/// behind the rows of the model, in order, with their names where the rows have names.
pub proof fn added_rows_fit_the_model(m: Model, extra: Seq<Branch>, limits: Limits, i: int)
    ensures
        extended(m, extra, limits) is Ok <==> model_error(m, limits) is None && forall|k: int|
            0 <= k < extra.len() ==> (#[trigger] extra[k]).coefs.len() == m.c.len() && all_finite(
                extra[k].coefs,
            ) && extra[k].rhs.finite(),
        extended(m, extra, limits) matches Ok(e) ==> {
            &&& e.a.len() == m.a.len() + extra.len() && e.b.len() == m.b.len() + extra.len()
            &&& 0 <= i < m.a.len() ==> e.a[i] == m.a[i]
            &&& 0 <= i < m.b.len() ==> e.b[i] == m.b[i]
            &&& 0 <= i < extra.len() ==> e.a[m.a.len() + i] == extra[i].coefs && e.b[m.b.len() + i]
                == extra[i].rhs
            &&& m.con_names is None ==> e.con_names is None
            &&& m.con_names matches Some(names) ==> e.con_names is Some && (0 <= i < extra.len()
                ==> e.con_names->0[names.len() + i] == extra[i].name)
            &&& e.ub == m.ub && e.var_names == m.var_names
        },
{
    fitting_rows_pass(extra, m.c.len());
    assert(forall|k: int|
        0 <= k < extra.len() ==> (branch_error(#[trigger] extra[k], m.c.len()) is None <==>
            extra[k].coefs.len() == m.c.len() && all_finite(extra[k].coefs)
            && extra[k].rhs.finite()));
}

/// The rows of a split are named by their depth, their variable, their side and their
/// bound.
pub proof fn branches_are_named(point: BranchPoint, n: nat, depth: nat)
    ensures
        left_branch(point, n, depth).name == "branch_d"@ + dec(depth) + "_x"@ + dec(
            point.var as nat,
        ) + "_le_"@ + point.floor_text@,
        right_branch(point, n, depth).name == "branch_d"@ + dec(depth) + "_x"@ + dec(
            point.var as nat,
        ) + "_ge_"@ + point.ceil_text@,
{
}

/// A variable is branched on only where it must be integral and is not.
pub proof fn integral_variables_are_branched_on(
    integer_vars: Seq<bool>,
    fractional: Seq<bool>,
    i: int,
)
    requires
        fractional_at(integer_vars, fractional, i),
    ensures
        0 <= i < integer_vars.len() && integer_vars[i],
        0 <= i < fractional.len() && fractional[i],
{
}

}
