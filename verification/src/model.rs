//! The optimisation model: a linear objective over non-negative variables, rows
//! `a x <= b`, optional upper bounds, and the variables that must be integral.

use crate::number::{all_finite, are_all_finite, zero, Double};
use crate::text::{dec, decimal, texts};
use vstd::prelude::*;
use vstd::string::*;

verus! {

/// The contents of each row.
pub open spec fn rows(v: Seq<Vec<Double>>) -> Seq<Seq<Double>> {
    v.map_values(|r: Vec<Double>| r@)
}

/// An optional vector by its contents.
pub open spec fn numbers_view(v: Option<Vec<Double>>) -> Option<Seq<Double>> {
    match v {
        Some(v) => Some(v@),
        None => None,
    }
}

/// An optional list of strings by its characters.
pub open spec fn names_view(v: Option<Vec<String>>) -> Option<Seq<Seq<char>>> {
    match v {
        Some(v) => Some(texts(v@)),
        None => None,
    }
}

/// An optional string by its characters.
pub open spec fn text_view(v: Option<String>) -> Option<Seq<char>> {
    match v {
        Some(s) => Some(s@),
        None => None,
    }
}

/// Copies a list of strings.
pub fn copy_names(v: &Vec<String>) -> (r: Vec<String>)
    ensures
        texts(r@) == texts(v@),
        r@.len() == v@.len(),
{
    let mut out: Vec<String> = Vec::new();
    let mut i: usize = 0;
    while i < v.len()
        invariant
            i <= v@.len(),
            out@.len() == i,
            forall|j: int| 0 <= j < i ==> (#[trigger] out@[j])@ == v@[j]@,
        decreases v@.len() - i,
    {
        out.push(v[i].clone());
        i = i + 1;
    }
    assert(texts(out@) =~= texts(v@));
    out
}

/// Copies a vector of numbers.
pub fn copy_numbers(v: &Vec<Double>) -> (r: Vec<Double>)
    ensures
        r@ == v@,
{
    let mut out: Vec<Double> = Vec::new();
    let mut i: usize = 0;
    while i < v.len()
        invariant
            i <= v@.len(),
            out@ == v@.take(i as int),
        decreases v@.len() - i,
    {
        out.push(v[i]);
        i = i + 1;
    }
    out
}

/// Copies a vector of flags.
pub fn copy_flags(v: &Vec<bool>) -> (r: Vec<bool>)
    ensures
        r@ == v@,
{
    let mut out: Vec<bool> = Vec::new();
    let mut i: usize = 0;
    while i < v.len()
        invariant
            i <= v@.len(),
            out@ == v@.take(i as int),
        decreases v@.len() - i,
    {
        out.push(v[i]);
        i = i + 1;
    }
    out
}

/// Copies rows of numbers.
pub fn copy_rows(v: &Vec<Vec<Double>>) -> (r: Vec<Vec<Double>>)
    ensures
        rows(r@) == rows(v@),
        r@.len() == v@.len(),
{
    let mut out: Vec<Vec<Double>> = Vec::new();
    let mut i: usize = 0;
    while i < v.len()
        invariant
            i <= v@.len(),
            out@.len() == i,
            forall|j: int| 0 <= j < i ==> (#[trigger] out@[j])@ == v@[j]@,
        decreases v@.len() - i,
    {
        out.push(copy_numbers(&v[i]));
        i = i + 1;
    }
    assert(rows(out@) =~= rows(v@));
    out
}

/// A vector of `n` equal numbers.
pub fn repeated(x: Double, n: usize) -> (r: Vec<Double>)
    ensures
        r@ == Seq::new(n as nat, |i: int| x),
{
    let mut out: Vec<Double> = Vec::new();
    let mut i: usize = 0;
    while i < n
        invariant
            i <= n,
            out@ == Seq::new(i as nat, |j: int| x),
        decreases n - i,
    {
        out.push(x);
        i = i + 1;
    }
    out
}

/// Copies an optional vector of numbers.
pub fn copy_optional_numbers(v: &Option<Vec<Double>>) -> (r: Option<Vec<Double>>)
    ensures
        numbers_view(r) == numbers_view(*v),
{
    match v {
        Some(v) => Some(copy_numbers(v)),
        None => None,
    }
}

/// Copies an optional list of strings.
pub fn copy_optional_names(v: &Option<Vec<String>>) -> (r: Option<Vec<String>>)
    ensures
        names_view(r) == names_view(*v),
{
    match v {
        Some(v) => Some(copy_names(v)),
        None => None,
    }
}

/// A mixed-integer model.
#[derive(Debug)]
pub struct MipProblemSpec {
    pub sense: String,
    pub c: Vec<Double>,
    pub a: Vec<Vec<Double>>,
    pub b: Vec<Double>,
    pub integer_vars: Vec<bool>,
    pub ub: Option<Vec<Double>>,
    pub var_names: Option<Vec<String>>,
    pub con_names: Option<Vec<String>>,
}

/// The contents of a model.
#[verifier::ext_equal]
pub struct Model {
    pub sense: Seq<char>,
    pub c: Seq<Double>,
    pub a: Seq<Seq<Double>>,
    pub b: Seq<Double>,
    pub integer_vars: Seq<bool>,
    pub ub: Option<Seq<Double>>,
    pub var_names: Option<Seq<Seq<char>>>,
    pub con_names: Option<Seq<Seq<char>>>,
}

impl View for MipProblemSpec {
    type V = Model;

    open spec fn view(&self) -> Model {
        Model {
            sense: self.sense@,
            c: self.c@,
            a: rows(self.a@),
            b: self.b@,
            integer_vars: self.integer_vars@,
            ub: numbers_view(self.ub),
            var_names: names_view(self.var_names),
            con_names: names_view(self.con_names),
        }
    }
}

/// An optional model by its contents.
pub open spec fn model_view(p: Option<MipProblemSpec>) -> Option<Model> {
    match p {
        Some(p) => Some(p@),
        None => None,
    }
}

impl Clone for MipProblemSpec {
    fn clone(&self) -> (r: Self)
        ensures
            r@ == self@,
    {
        MipProblemSpec {
            sense: self.sense.clone(),
            c: copy_numbers(&self.c),
            a: copy_rows(&self.a),
            b: copy_numbers(&self.b),
            integer_vars: copy_flags(&self.integer_vars),
            ub: copy_optional_numbers(&self.ub),
            var_names: copy_optional_names(&self.var_names),
            con_names: copy_optional_names(&self.con_names),
        }
    }
}

/// The sizes that a model may have.
#[derive(Clone, Copy, Debug, PartialEq, Eq, Structural)]
pub struct Limits {
    pub max_vars: usize,
    pub max_constraints: usize,
}

/// Whether an upper bound is a number that is not negative; it may be infinite.
pub open spec fn bound_allowed(x: Double) -> bool {
    !x.nan() && !x.below(zero())
}

/// What is wrong with the rows, the first bad row deciding.
pub open spec fn row_error(a: Seq<Seq<Double>>, n: nat) -> Option<Seq<char>>
    decreases a.len(),
{
    if a.len() == 0 {
        None
    } else {
        match row_error(a.drop_last(), n) {
            Some(e) => Some(e),
            None => {
                let i = (a.len() - 1) as nat;
                if a.last().len() != n {
                    Some(
                        "row "@ + dec(i) + " has length "@ + dec(a.last().len()) + ", expected "@
                            + dec(n),
                    )
                } else if !all_finite(a.last()) {
                    Some("row "@ + dec(i) + " contains a non-finite coefficient"@)
                } else {
                    None
                }
            },
        }
    }
}

/// What is wrong with a model: the first of these that applies.
pub open spec fn model_error(m: Model, limits: Limits) -> Option<Seq<char>> {
    let n = m.c.len();
    if n == 0 {
        Some("objective vector `c` must not be empty"@)
    } else if n > limits.max_vars {
        Some("variable count "@ + dec(n) + " exceeds limit "@ + dec(limits.max_vars as nat))
    } else if m.a.len() != m.b.len() {
        Some("`a` has "@ + dec(m.a.len()) + " rows but `b` has "@ + dec(m.b.len()) + " entries"@)
    } else if m.a.len() > limits.max_constraints {
        Some(
            "constraint count "@ + dec(m.a.len()) + " exceeds limit "@ + dec(
                limits.max_constraints as nat,
            ),
        )
    } else if !all_finite(m.c) {
        Some("objective coefficients must be finite"@)
    } else if !all_finite(m.b) {
        Some("right-hand sides must be finite"@)
    } else if row_error(m.a, n) is Some {
        row_error(m.a, n)
    } else if m.integer_vars.len() > n {
        Some("integerVars length must not exceed len(c)"@)
    } else if m.ub is Some && m.ub->0.len() != n {
        Some("ub length must equal len(c)"@)
    } else if m.ub is Some && exists|i: int|
        0 <= i < m.ub->0.len() && !bound_allowed(#[trigger] m.ub->0[i]) {
        Some("ub entries must be non-negative or infinite"@)
    } else if m.var_names is Some && m.var_names->0.len() != n {
        Some("varNames length must equal len(c)"@)
    } else if m.con_names is Some && m.con_names->0.len() != m.a.len() {
        Some("conNames length must equal constraint count"@)
    } else {
        None
    }
}

/// Whether a model passes every check.
pub open spec fn valid(m: Model, limits: Limits) -> bool {
    model_error(m, limits) is None
}

/// A result without a value, its error by its characters.
pub open spec fn unit_result(r: Result<(), String>) -> Option<Seq<char>> {
    match r {
        Ok(_) => None,
        Err(e) => Some(e@),
    }
}

fn are_bounds_allowed(ub: &Vec<Double>) -> (r: bool)
    ensures
        r == !(exists|i: int| 0 <= i < ub@.len() && !bound_allowed(#[trigger] ub@[i])),
{
    let mut i: usize = 0;
    while i < ub.len()
        invariant
            i <= ub@.len(),
            forall|j: int| 0 <= j < i ==> bound_allowed(#[trigger] ub@[j]),
        decreases ub@.len() - i,
    {
        if ub[i].is_nan() || ub[i].is_below(zero()) {
            assert(!bound_allowed(ub@[i as int]));
            return false;
        }
        i = i + 1;
    }
    true
}

fn check_rows(a: &Vec<Vec<Double>>, n: usize) -> (r: Result<(), String>)
    ensures
        unit_result(r) == row_error(rows(a@), n as nat),
{
    let mut i: usize = 0;
    assert(rows(a@).take(0) =~= Seq::empty());
    while i < a.len()
        invariant
            i <= a@.len(),
            row_error(rows(a@).take(i as int), n as nat) is None,
        decreases a@.len() - i,
    {
        let ghost before = rows(a@).take(i as int);
        let ghost after = rows(a@).take(i + 1);
        assert(after.drop_last() =~= before);
        assert(after.last() == a@[i as int]@);
        if a[i].len() != n {
            let mut e = "row ".to_owned();
            e.append(decimal(i).as_str());
            e.append(" has length ");
            e.append(decimal(a[i].len()).as_str());
            e.append(", expected ");
            e.append(decimal(n).as_str());
            proof {
                row_error_stays(rows(a@), i + 1, n as nat);
            }
            return Err(e);
        }
        if !are_all_finite(&a[i]) {
            let mut e = "row ".to_owned();
            e.append(decimal(i).as_str());
            e.append(" contains a non-finite coefficient");
            proof {
                row_error_stays(rows(a@), i + 1, n as nat);
            }
            return Err(e);
        }
        i = i + 1;
    }
    assert(rows(a@).take(i as int) =~= rows(a@));
    Ok(())
}

proof fn row_error_stays(a: Seq<Seq<Double>>, k: int, n: nat)
    requires
        0 <= k <= a.len(),
        row_error(a.take(k), n) is Some,
    ensures
        row_error(a, n) == row_error(a.take(k), n),
    decreases a.len() - k,
{
    if k == a.len() {
        assert(a.take(k) =~= a);
    } else {
        assert(a.take(k + 1).drop_last() =~= a.take(k));
        row_error_stays(a, k + 1, n);
    }
}

/// A model without row errors has rows of the objective's length, all finite.
pub proof fn good_rows(a: Seq<Seq<Double>>, n: nat)
    ensures
        row_error(a, n) is None <==> forall|i: int|
            0 <= i < a.len() ==> (#[trigger] a[i]).len() == n && all_finite(a[i]),
    decreases a.len(),
{
    if a.len() > 0 {
        good_rows(a.drop_last(), n);
        let front = a.drop_last();
        assert(forall|i: int| 0 <= i < front.len() ==> front[i] == a[i]);
        if row_error(a, n) is None {
            assert forall|i: int| 0 <= i < a.len() implies (#[trigger] a[i]).len() == n
                && all_finite(a[i]) by {
                if i < a.len() - 1 {
                    assert(front[i] == a[i]);
                }
            }
        }
        if forall|i: int|
            0 <= i < a.len() ==> (#[trigger] a[i]).len() == n && all_finite(a[i]) {
            assert(a[a.len() - 1].len() == n);
            assert forall|i: int| 0 <= i < front.len() implies (#[trigger] front[i]).len() == n
                && all_finite(front[i]) by {
                assert(a[i].len() == n);
            }
        }
    }
}

/// Checks a model against the limits; the error names the first thing wrong.
pub fn validate_problem(problem: &MipProblemSpec, limits: Limits) -> (r: Result<(), String>)
    ensures
        unit_result(r) == model_error(problem@, limits),
{
    let n: usize = problem.c.len();
    if n == 0 {
        return Err("objective vector `c` must not be empty".to_owned());
    }
    if n > limits.max_vars {
        let mut e = "variable count ".to_owned();
        e.append(decimal(n).as_str());
        e.append(" exceeds limit ");
        e.append(decimal(limits.max_vars).as_str());
        return Err(e);
    }
    if problem.a.len() != problem.b.len() {
        let mut e = "`a` has ".to_owned();
        e.append(decimal(problem.a.len()).as_str());
        e.append(" rows but `b` has ");
        e.append(decimal(problem.b.len()).as_str());
        e.append(" entries");
        return Err(e);
    }
    if problem.a.len() > limits.max_constraints {
        let mut e = "constraint count ".to_owned();
        e.append(decimal(problem.a.len()).as_str());
        e.append(" exceeds limit ");
        e.append(decimal(limits.max_constraints).as_str());
        return Err(e);
    }
    if !are_all_finite(&problem.c) {
        return Err("objective coefficients must be finite".to_owned());
    }
    if !are_all_finite(&problem.b) {
        return Err("right-hand sides must be finite".to_owned());
    }
    let rows_checked = check_rows(&problem.a, n);
    if rows_checked.is_err() {
        return rows_checked;
    }
    if problem.integer_vars.len() > n {
        return Err("integerVars length must not exceed len(c)".to_owned());
    }
    if let Some(ub) = &problem.ub {
        if ub.len() != n {
            return Err("ub length must equal len(c)".to_owned());
        }
        if !are_bounds_allowed(ub) {
            return Err("ub entries must be non-negative or infinite".to_owned());
        }
    }
    if let Some(names) = &problem.var_names {
        if names.len() != n {
            return Err("varNames length must equal len(c)".to_owned());
        }
    }
    if let Some(names) = &problem.con_names {
        if names.len() != problem.a.len() {
            return Err("conNames length must equal constraint count".to_owned());
        }
    }
    Ok(())
}

/// Flags made as long as `n`, new ones being `false`, surplus ones cut off.
pub open spec fn resized(flags: Seq<bool>, n: nat) -> Seq<bool> {
    Seq::new(
        n,
        |i: int|
            if i < flags.len() {
                flags[i]
            } else {
                false
            },
    )
}

/// A model with one integrality flag for each variable.
pub open spec fn normalized(m: Model) -> Model {
    Model { integer_vars: resized(m.integer_vars, m.c.len()), ..m }
}

/// A model result by its contents.
pub open spec fn model_result(r: Result<MipProblemSpec, String>) -> Result<Model, Seq<char>> {
    match r {
        Ok(p) => Ok(p@),
        Err(e) => Err(e@),
    }
}

/// What normalising gives: the error of the checks, or the model with one
/// integrality flag for each variable.
pub open spec fn normalized_result(m: Model, limits: Limits) -> Result<Model, Seq<char>> {
    match model_error(m, limits) {
        Some(e) => Err(e),
        None => Ok(normalized(m)),
    }
}

/// Checks a model and gives it one integrality flag for each variable.
pub fn normalized_problem(problem: MipProblemSpec, limits: Limits) -> (r: Result<
    MipProblemSpec,
    String,
>)
    ensures
        model_result(r) == normalized_result(problem@, limits),
{
    match validate_problem(&problem, limits) {
        Err(e) => Err(e),
        Ok(_) => {
            let mut out = problem;
            let ghost given = problem.integer_vars@;
            let n: usize = out.c.len();
            while out.integer_vars.len() < n
                invariant
                    n == problem.c@.len(),
                    given.len() <= out.integer_vars@.len() <= n,
                    out.integer_vars@ == resized(given, out.integer_vars@.len()),
                    out.sense == problem.sense,
                    out.c == problem.c,
                    out.a == problem.a,
                    out.b == problem.b,
                    out.ub == problem.ub,
                    out.var_names == problem.var_names,
                    out.con_names == problem.con_names,
                decreases n - out.integer_vars@.len(),
            {
                out.integer_vars.push(false);
            }
            assert(out@ =~= normalized(problem@));
            Ok(out)
        },
    }
}

/// Whether the parts of a model fit together: a row for each right-hand side and
/// for each name, a coefficient, a flag, a bound and a name for each variable.
pub open spec fn well_shaped(m: Model) -> bool {
    &&& m.a.len() == m.b.len()
    &&& forall|i: int| 0 <= i < m.a.len() ==> (#[trigger] m.a[i]).len() == m.c.len()
    &&& m.integer_vars.len() == m.c.len()
    &&& m.ub is Some ==> m.ub->0.len() == m.c.len()
    &&& m.var_names is Some ==> m.var_names->0.len() == m.c.len()
    &&& m.con_names is Some ==> m.con_names->0.len() == m.a.len()
}

/// A normalised model fits together and still passes the checks.
pub proof fn normalizing_shapes(m: Model, limits: Limits)
    requires
        valid(m, limits),
    ensures
        well_shaped(normalized(m)),
        valid(normalized(m), limits),
{
    good_rows(m.a, m.c.len());
}

/// Normalising twice is normalising once.
pub proof fn normalizing_twice(m: Model)
    ensures
        normalized(normalized(m)) == normalized(m),
{
    assert(normalized(normalized(m)) =~= normalized(m));
}

/// A model passes the checks exactly where it has variables and keeps to the limits,
/// its parts are as long as they should be, its numbers are finite, and no upper
/// bound is negative or undefined.
pub proof fn valid_models(m: Model, limits: Limits)
    ensures
        valid(m, limits) <==> {
            &&& 0 < m.c.len() <= limits.max_vars
            &&& m.a.len() == m.b.len()
            &&& m.a.len() <= limits.max_constraints
            &&& forall|j: int| 0 <= j < m.c.len() ==> (#[trigger] m.c[j]).finite()
            &&& forall|i: int| 0 <= i < m.b.len() ==> (#[trigger] m.b[i]).finite()
            &&& forall|i: int|
                0 <= i < m.a.len() ==> (#[trigger] m.a[i]).len() == m.c.len() && forall|j: int|
                    0 <= j < m.a[i].len() ==> (#[trigger] m.a[i][j]).finite()
            &&& m.integer_vars.len() <= m.c.len()
            &&& m.ub matches Some(ub) ==> ub.len() == m.c.len() && forall|j: int|
                0 <= j < ub.len() ==> !(#[trigger] ub[j]).nan() && !ub[j].below(zero())
            &&& m.var_names matches Some(names) ==> names.len() == m.c.len()
            &&& m.con_names matches Some(names) ==> names.len() == m.a.len()
        },
{
    good_rows(m.a, m.c.len());
    if m.ub is Some {
        assert(forall|j: int|
            bound_allowed(#[trigger] m.ub->0[j]) <==> !m.ub->0[j].nan() && !m.ub->0[j].below(
                zero(),
            ));
    }
}

/// Normalising gives every variable a flag, unset where the model has none, and
/// changes nothing else.
pub proof fn normalizing_only_fills_flags(m: Model)
    ensures
        ({
            let n = normalized(m);
            &&& n.integer_vars.len() == m.c.len()
            &&& forall|j: int|
                0 <= j < m.c.len() ==> #[trigger] n.integer_vars[j] == (j < m.integer_vars.len()
                    && m.integer_vars[j])
            &&& n.sense == m.sense
            &&& n.c == m.c
            &&& n.a == m.a
            &&& n.b == m.b
            &&& n.ub == m.ub
            &&& n.var_names == m.var_names
            &&& n.con_names == m.con_names
        }),
{
}

/// A model is seen part by part, with nothing left out.
pub proof fn models_are_seen_part_by_part(v: MipProblemSpec)
    ensures
        v@.sense == v.sense@,
        v@.c == v.c@,
        v@.a == rows(v.a@),
        v@.b == v.b@,
        v@.integer_vars == v.integer_vars@,
        v@.ub == numbers_view(v.ub),
        v@.var_names == names_view(v.var_names),
        v@.con_names == names_view(v.con_names),
{
}

/// What is optional is seen where it is there, and rows and names are seen one by one.
pub proof fn optional_parts_are_seen(
    text: Option<String>,
    numbers: Option<Vec<Double>>,
    names: Option<Vec<String>>,
    matrix: Seq<Vec<Double>>,
    i: int,
)
    ensures
        text matches Some(s) ==> text_view(text) == Some(s@),
        text is None ==> text_view(text) is None,
        numbers matches Some(v) ==> numbers_view(numbers) == Some(v@),
        numbers is None ==> numbers_view(numbers) is None,
        names is None ==> names_view(names) is None,
        names matches Some(v) ==> names_view(names) is Some && names_view(names)->0.len()
            == v@.len() && (0 <= i < v@.len() ==> names_view(names)->0[i] == v@[i]@),
        rows(matrix).len() == matrix.len(),
        0 <= i < matrix.len() ==> rows(matrix)[i] == matrix[i]@,
{
}

}
