//! Live editing of a model by a stream of commands.

use crate::fields::{
    bool_at, f64_at, flag_field, flags_field, index_field, number_field, numbers_field, rows_field,
    str_at, string_field, strings_field, usize_at, vec_bool, vec_f64, vec_string, vec_vec_f64,
};
use crate::json::Json;
use crate::model::{
    copy_flags, model_error, model_result, model_view, names_view, normalized_problem,
    normalized_result, normalizing_shapes, repeated, rows, text_view, valid, validate_problem,
    well_shaped, Limits, MipProblemSpec, Model,
};
use crate::number::{infinity, zero, Double};
use crate::text::{dec, decimal, same, texts};
use vstd::prelude::*;
use vstd::string::*;

verus! {

/// One command of a stream: its fields, and the model that its `problem` field
/// holds where it has one, or why that field holds none.
#[derive(Debug)]
pub struct StreamCommand {
    pub fields: Json,
    pub problem: Option<Result<MipProblemSpec, String>>,
}

/// What a stream of commands answers.
#[derive(Debug)]
pub enum StreamFrame {
    Initialized { revision: u64 },
    Applied { op: String, revision: u64 },
    Snapshot { revision: u64, num_vars: usize, num_constraints: usize, integer_vars: Vec<bool> },
    Rejected { message: String, revision: u64 },
}

/// The contents of a frame.
pub enum Frame {
    Initialized { revision: u64 },
    Applied { op: Seq<char>, revision: u64 },
    Snapshot { revision: u64, num_vars: usize, num_constraints: usize, integer_vars: Seq<bool> },
    Rejected { message: Seq<char>, revision: u64 },
}

impl View for StreamFrame {
    type V = Frame;

    open spec fn view(&self) -> Frame {
        match *self {
            StreamFrame::Initialized { revision } => Frame::Initialized { revision },
            StreamFrame::Applied { op, revision } => Frame::Applied { op: op@, revision },
            StreamFrame::Snapshot { revision, num_vars, num_constraints, integer_vars } =>
                Frame::Snapshot {
                    revision,
                    num_vars,
                    num_constraints,
                    integer_vars: integer_vars@,
                },
            StreamFrame::Rejected { message, revision } => Frame::Rejected {
                message: message@,
                revision,
            },
        }
    }
}

/// The contents of each frame.
pub open spec fn frames_view(v: Seq<StreamFrame>) -> Seq<Frame> {
    v.map_values(|f: StreamFrame| f@)
}

/// How a command ended. `OutOfRange` is a command that addresses a part of the
/// model which is shorter than the model's other parts say.
pub enum Ending {
    Applied,
    Failed(Seq<char>),
    OutOfRange,
}

/// The model after an edit, and how the edit ended. An edit that fails keeps
/// what it had changed before.
#[verifier::ext_equal]
pub struct Edit {
    pub model: Model,
    pub ending: Ending,
}

pub open spec fn applied(m: Model) -> Edit {
    Edit { model: m, ending: Ending::Applied }
}

pub open spec fn failed(m: Model, e: Seq<char>) -> Edit {
    Edit { model: m, ending: Ending::Failed(e) }
}

pub open spec fn out_of_range(m: Model) -> Edit {
    Edit { model: m, ending: Ending::OutOfRange }
}

/// A vector, empty where it is absent.
pub open spec fn or_empty<T>(v: Option<Seq<T>>) -> Seq<T> {
    match v {
        Some(v) => v,
        None => Seq::empty(),
    }
}

/// `n` times the same number.
pub open spec fn all_equal(x: Double, n: nat) -> Seq<Double> {
    Seq::new(n, |i: int| x)
}

/// The required index in a field.
pub open spec fn required_index(command: Json, key: Seq<char>, missing: Seq<char>) -> Result<
    usize,
    Seq<char>,
> {
    match index_field(command, key) {
        Err(e) => Err(e),
        Ok(None) => Err(missing),
        Ok(Some(i)) => Ok(i),
    }
}

fn read_index(command: &Json, key: &str, missing: &str) -> (r: Result<usize, String>)
    ensures
        match (r, required_index(*command, key@, missing@)) {
            (Ok(a), Ok(b)) => a == b,
            (Err(e), Err(m)) => e@ == m,
            _ => false,
        },
{
    match usize_at(command, key) {
        Err(e) => Err(e),
        Ok(None) => Err(missing.to_owned()),
        Ok(Some(i)) => Ok(i),
    }
}

/// How an executed edit ended.
pub enum EditEnd {
    Applied,
    Failed(String),
    OutOfRange,
}

impl View for EditEnd {
    type V = Ending;

    open spec fn view(&self) -> Ending {
        match *self {
            EditEnd::Applied => Ending::Applied,
            EditEnd::Failed(e) => Ending::Failed(e@),
            EditEnd::OutOfRange => Ending::OutOfRange,
        }
    }
}

/// What an executed edit must have done.
pub open spec fn performed(edit: Edit, model: Model, end: EditEnd) -> bool {
    &&& end@ == edit.ending
    &&& !(end is OutOfRange) ==> model == edit.model
}

fn fail(e: &str) -> (r: EditEnd)
    ensures
        r@ == Ending::Failed(e@),
{
    EditEnd::Failed(e.to_owned())
}

// Adding a row.

/// The name of a new row: the one given, or one made of its number.
pub open spec fn row_name(given: Option<Seq<char>>, number: nat) -> Seq<char> {
    match given {
        Some(s) => s,
        None => "constraint"@ + dec(number),
    }
}

/// Appends a row with its right-hand side, and a name where rows have names.
pub open spec fn add_constraint(m: Model, command: Json) -> Edit {
    match numbers_field(command, "coefs"@) {
        Err(e) => failed(m, e),
        Ok(given) => {
            let coefs = or_empty(given);
            if coefs.len() != m.c.len() {
                failed(m, "coefs length must equal variable count"@)
            } else {
                match number_field(command, "rhs"@, zero()) {
                    Err(e) => failed(m, e),
                    Ok(rhs) => {
                        let next = Model { a: m.a.push(coefs), b: m.b.push(rhs), ..m };
                        match m.con_names {
                            None => applied(next),
                            Some(names) => match string_field(command, "name"@) {
                                Err(e) => failed(next, e),
                                Ok(name) => applied(
                                    Model {
                                        con_names: Some(names.push(row_name(name, m.a.len()))),
                                        ..next
                                    },
                                ),
                            },
                        }
                    },
                }
            }
        },
    }
}

fn run_add_constraint(p: &mut MipProblemSpec, command: &Json) -> (r: EditEnd)
    ensures
        performed(add_constraint(old(p)@, *command), final(p)@, r),
{
    let coefs = match vec_f64(command, "coefs") {
        Err(e) => {
            return EditEnd::Failed(e);
        },
        Ok(Some(v)) => v,
        Ok(None) => Vec::new(),
    };
    assert(coefs@ =~= or_empty(numbers_field(*command, "coefs"@)->Ok_0));
    if coefs.len() != p.c.len() {
        return fail("coefs length must equal variable count");
    }
    let rhs = match f64_at(command, "rhs", zero()) {
        Err(e) => {
            return EditEnd::Failed(e);
        },
        Ok(x) => x,
    };
    let ghost before = p.a@;
    let number: usize = p.a.len();
    p.a.push(coefs);
    p.b.push(rhs);
    assert(rows(p.a@) =~= rows(before).push(coefs@));
    if p.con_names.is_some() {
        let name = match str_at(command, "name") {
            Err(e) => {
                return EditEnd::Failed(e);
            },
            Ok(Some(s)) => s,
            Ok(None) => {
                let mut s = "constraint".to_owned();
                s.append(decimal(number).as_str());
                s
            },
        };
        if let Some(names) = &mut p.con_names {
            let ghost old_names = names@;
            names.push(name);
            assert(texts(names@) =~= texts(old_names).push(name@));
        }
    }
    EditEnd::Applied
}

// Changing a row.

/// Replaces the coefficients of a row where they are given.
pub open spec fn row_with_coefs(m: Model, i: usize, command: Json) -> Result<Model, Seq<char>> {
    match numbers_field(command, "coefs"@) {
        Err(e) => Err(e),
        Ok(None) => Ok(m),
        Ok(Some(coefs)) => if coefs.len() != m.c.len() {
            Err("coefs length must equal variable count"@)
        } else {
            Ok(Model { a: m.a.update(i as int, coefs), ..m })
        },
    }
}

/// The new right-hand side of a row: the one given, else the one it has.
pub open spec fn new_rhs(m: Model, i: usize, command: Json) -> Result<Double, Seq<char>> {
    match number_field(command, "rhs"@, m.b[i as int]) {
        Err(e) => Err(e),
        Ok(x) => if x.finite() {
            Ok(x)
        } else {
            Err("rhs must be finite"@)
        },
    }
}

/// Gives an item of a list a name, where there is one to give and a list to
/// take it.
pub open spec fn renamed(names: Option<Seq<Seq<char>>>, i: usize, name: Option<Seq<char>>) -> Option<
    Seq<Seq<char>>,
> {
    match (names, name) {
        (Some(names), Some(name)) => Some(names.update(i as int, name)),
        _ => names,
    }
}

/// Changes the coefficients, the right-hand side and the name of a row, as far
/// as they are given.
pub open spec fn set_constraint(m: Model, command: Json) -> Edit {
    match required_index(command, "index"@, "index is required"@) {
        Err(e) => failed(m, e),
        Ok(i) => if i >= m.a.len() {
            failed(m, "constraint index out of range"@)
        } else {
            match row_with_coefs(m, i, command) {
                Err(e) => failed(m, e),
                Ok(m1) => if command.field("rhs"@) is Some && i >= m1.b.len() {
                    out_of_range(m1)
                } else if command.field("rhs"@) is Some && new_rhs(m1, i, command) is Err {
                    failed(m1, new_rhs(m1, i, command)->Err_0)
                } else {
                    let m2 = if command.field("rhs"@) is Some {
                        Model { b: m1.b.update(i as int, new_rhs(m1, i, command)->Ok_0), ..m1 }
                    } else {
                        m1
                    };
                    match string_field(command, "name"@) {
                        Err(e) => failed(m2, e),
                        Ok(name) => if name is Some && m2.con_names is Some && i
                            >= m2.con_names->0.len() {
                            out_of_range(m2)
                        } else {
                            applied(Model { con_names: renamed(m2.con_names, i, name), ..m2 })
                        },
                    }
                },
            }
        },
    }
}

fn rename(names: &mut Option<Vec<String>>, i: usize, name: Option<String>) -> (r: bool)
    ensures
        r == !(name is Some && (*old(names)) is Some && i >= (*old(names))->0@.len()),
        r ==> names_view(*final(names)) == renamed(
            names_view(*old(names)),
            i,
            text_view(name),
        ),
{
    if let Some(name) = name {
        if let Some(list) = names {
            if i >= list.len() {
                return false;
            }
            let ghost before = list@;
            list.set(i, name);
            assert(texts(list@) =~= texts(before).update(i as int, name@));
        }
    }
    true
}

fn run_set_constraint(p: &mut MipProblemSpec, command: &Json) -> (r: EditEnd)
    ensures
        performed(set_constraint(old(p)@, *command), final(p)@, r),
{
    let i: usize = match read_index(command, "index", "index is required") {
        Err(e) => {
            return EditEnd::Failed(e);
        },
        Ok(i) => i,
    };
    if i >= p.a.len() {
        return fail("constraint index out of range");
    }
    match vec_f64(command, "coefs") {
        Err(e) => {
            return EditEnd::Failed(e);
        },
        Ok(None) => {},
        Ok(Some(coefs)) => {
            if coefs.len() != p.c.len() {
                return fail("coefs length must equal variable count");
            }
            let ghost before = p.a@;
            p.a.set(i, coefs);
            assert(rows(p.a@) =~= rows(before).update(i as int, coefs@));
        },
    }
    if command.get("rhs").is_some() {
        if i >= p.b.len() {
            return EditEnd::OutOfRange;
        }
        match f64_at(command, "rhs", p.b[i]) {
            Err(e) => {
                return EditEnd::Failed(e);
            },
            Ok(x) => {
                if !x.is_finite() {
                    return fail("rhs must be finite");
                }
                p.b.set(i, x);
            },
        }
    }
    let name = match str_at(command, "name") {
        Err(e) => {
            return EditEnd::Failed(e);
        },
        Ok(name) => name,
    };
    if !rename(&mut p.con_names, i, name) {
        return EditEnd::OutOfRange;
    }
    EditEnd::Applied
}

// Removing a row.

/// A list without one of its items, where there is a list.
pub open spec fn without<T>(v: Option<Seq<T>>, i: usize) -> Option<Seq<T>> {
    match v {
        Some(v) => Some(v.remove(i as int)),
        None => None,
    }
}

/// Whether a list, where there is one, is too short to have an item `i`.
pub open spec fn too_short<T>(v: Option<Seq<T>>, i: usize) -> bool {
    v is Some && i >= v->0.len()
}

/// Removes a row with its right-hand side and its name.
pub open spec fn remove_constraint(m: Model, command: Json) -> Edit {
    match required_index(command, "index"@, "index is required"@) {
        Err(e) => failed(m, e),
        Ok(i) => if i >= m.a.len() {
            failed(m, "constraint index out of range"@)
        } else if i >= m.b.len() || too_short(m.con_names, i) {
            out_of_range(m)
        } else {
            applied(
                Model {
                    a: m.a.remove(i as int),
                    b: m.b.remove(i as int),
                    con_names: without(m.con_names, i),
                    ..m
                },
            )
        },
    }
}

fn remove_name(names: &mut Option<Vec<String>>, i: usize)
    requires
        (*old(names)) is Some ==> i < (*old(names))->0@.len(),
    ensures
        names_view(*final(names)) == without(names_view(*old(names)), i),
{
    if let Some(list) = names {
        let ghost before = list@;
        list.remove(i);
        assert(texts(list@) =~= texts(before).remove(i as int));
    }
}

fn names_too_short(names: &Option<Vec<String>>, i: usize) -> (r: bool)
    ensures
        r == too_short(names_view(*names), i),
{
    match names {
        Some(list) => i >= list.len(),
        None => false,
    }
}

fn run_remove_constraint(p: &mut MipProblemSpec, command: &Json) -> (r: EditEnd)
    ensures
        performed(remove_constraint(old(p)@, *command), final(p)@, r),
{
    let i: usize = match read_index(command, "index", "index is required") {
        Err(e) => {
            return EditEnd::Failed(e);
        },
        Ok(i) => i,
    };
    if i >= p.a.len() {
        return fail("constraint index out of range");
    }
    if i >= p.b.len() || names_too_short(&p.con_names, i) {
        return EditEnd::OutOfRange;
    }
    let ghost before = p.a@;
    p.a.remove(i);
    assert(rows(p.a@) =~= rows(before).remove(i as int));
    p.b.remove(i);
    remove_name(&mut p.con_names, i);
    EditEnd::Applied
}

// Changing one right-hand side or one coefficient.

/// Changes the right-hand side of a row.
pub open spec fn set_rhs(m: Model, command: Json) -> Edit {
    match required_index(command, "index"@, "index is required"@) {
        Err(e) => failed(m, e),
        Ok(i) => if i >= m.b.len() {
            failed(m, "constraint index out of range"@)
        } else {
            match new_rhs(m, i, command) {
                Err(e) => failed(m, e),
                Ok(x) => applied(Model { b: m.b.update(i as int, x), ..m }),
            }
        },
    }
}

fn run_set_rhs(p: &mut MipProblemSpec, command: &Json) -> (r: EditEnd)
    ensures
        performed(set_rhs(old(p)@, *command), final(p)@, r),
{
    let i: usize = match read_index(command, "index", "index is required") {
        Err(e) => {
            return EditEnd::Failed(e);
        },
        Ok(i) => i,
    };
    if i >= p.b.len() {
        return fail("constraint index out of range");
    }
    match f64_at(command, "rhs", p.b[i]) {
        Err(e) => EditEnd::Failed(e),
        Ok(x) => {
            if !x.is_finite() {
                return fail("rhs must be finite");
            }
            p.b.set(i, x);
            EditEnd::Applied
        },
    }
}

/// Changes one coefficient of one row.
pub open spec fn set_coefficient(m: Model, command: Json) -> Edit {
    match required_index(command, "row"@, "row is required"@) {
        Err(e) => failed(m, e),
        Ok(row) => match required_index(command, "col"@, "col is required"@) {
            Err(e) => failed(m, e),
            Ok(col) => if row >= m.a.len() || col >= m.c.len() {
                failed(m, "coefficient index out of range"@)
            } else if col >= m.a[row as int].len() {
                out_of_range(m)
            } else {
                match number_field(command, "value"@, m.a[row as int][col as int]) {
                    Err(e) => failed(m, e),
                    Ok(x) => applied(
                        Model {
                            a: m.a.update(row as int, m.a[row as int].update(col as int, x)),
                            ..m
                        },
                    ),
                }
            },
        },
    }
}

fn run_set_coefficient(p: &mut MipProblemSpec, command: &Json) -> (r: EditEnd)
    ensures
        performed(set_coefficient(old(p)@, *command), final(p)@, r),
{
    let row: usize = match read_index(command, "row", "row is required") {
        Err(e) => {
            return EditEnd::Failed(e);
        },
        Ok(i) => i,
    };
    let col: usize = match read_index(command, "col", "col is required") {
        Err(e) => {
            return EditEnd::Failed(e);
        },
        Ok(i) => i,
    };
    if row >= p.a.len() || col >= p.c.len() {
        return fail("coefficient index out of range");
    }
    if col >= p.a[row].len() {
        return EditEnd::OutOfRange;
    }
    match f64_at(command, "value", p.a[row][col]) {
        Err(e) => EditEnd::Failed(e),
        Ok(x) => {
            let ghost before = p.a@;
            p.a[row].set(col, x);
            assert(rows(p.a@) =~= rows(before).update(
                row as int,
                rows(before)[row as int].update(col as int, x),
            ));
            EditEnd::Applied
        },
    }
}

// Adding a variable.

/// Each row with one more coefficient.
pub open spec fn rows_with_column(a: Seq<Seq<Double>>, column: Seq<Double>) -> Seq<Seq<Double>> {
    Seq::new(a.len(), |i: int| a[i].push(column[i]))
}

/// The name of a new variable: the one given, or one made of its number.
pub open spec fn variable_name(given: Option<Seq<char>>, number: nat) -> Seq<char> {
    match given {
        Some(s) => s,
        None => "x"@ + dec(number),
    }
}

/// The upper bounds, infinite ones where there are none yet.
pub open spec fn bounds_or_infinite(ub: Option<Seq<Double>>, n: nat) -> Seq<Double> {
    match ub {
        Some(v) => v,
        None => all_equal(infinity(), n),
    }
}

/// Gives the new variable a name where variables have names.
pub open spec fn with_variable_name(m: Model, command: Json, number: nat) -> Edit {
    match m.var_names {
        None => applied(m),
        Some(names) => match string_field(command, "name"@) {
            Err(e) => failed(m, e),
            Ok(name) => applied(
                Model { var_names: Some(names.push(variable_name(name, number))), ..m },
            ),
        },
    }
}

/// Appends a variable: its objective coefficient, its integrality, its column,
/// its bound where there are bounds or one is given, its name where variables
/// have names.
pub open spec fn add_variable(m: Model, command: Json) -> Edit {
    match numbers_field(command, "column"@) {
        Err(e) => failed(m, e),
        Ok(given) => {
            let column = match given {
                Some(v) => v,
                None => all_equal(zero(), m.a.len()),
            };
            if column.len() != m.a.len() {
                failed(m, "column length must equal constraint count"@)
            } else {
                match number_field(command, "c"@, zero()) {
                    Err(e) => failed(m, e),
                    Ok(cost) => {
                        let m1 = Model { c: m.c.push(cost), ..m };
                        match flag_field(command, "integer"@, false) {
                            Err(e) => failed(m1, e),
                            Ok(integer) => {
                                let m2 = Model {
                                    integer_vars: m.integer_vars.push(integer),
                                    a: rows_with_column(m.a, column),
                                    ..m1
                                };
                                if m.ub is Some || command.field("ub"@) is Some {
                                    match number_field(command, "ub"@, infinity()) {
                                        Err(e) => failed(m2, e),
                                        Ok(upper) => with_variable_name(
                                            Model {
                                                ub: Some(
                                                    bounds_or_infinite(m.ub, m.c.len()).push(upper),
                                                ),
                                                ..m2
                                            },
                                            command,
                                            m.c.len(),
                                        ),
                                    }
                                } else {
                                    with_variable_name(m2, command, m.c.len())
                                }
                            },
                        }
                    },
                }
            }
        },
    }
}

fn push_column(a: &mut Vec<Vec<Double>>, column: &Vec<Double>)
    requires
        column@.len() == old(a)@.len(),
    ensures
        rows(final(a)@) == rows_with_column(rows(old(a)@), column@),
{
    let ghost before = a@;
    let total: usize = a.len();
    let mut i: usize = 0;
    while i < total
        invariant
            i <= total,
            total == a@.len(),
            total == before.len(),
            column@.len() == total,
            forall|j: int| 0 <= j < i ==> (#[trigger] a@[j])@ == before[j]@.push(column@[j]),
            forall|j: int| i <= j < total ==> (#[trigger] a@[j])@ == before[j]@,
        decreases total - i,
    {
        a[i].push(column[i]);
        i = i + 1;
    }
    assert(rows(a@) =~= rows_with_column(rows(before), column@));
}

fn push_variable_name(p: &mut MipProblemSpec, command: &Json, number: usize) -> (r: EditEnd)
    ensures
        performed(with_variable_name(old(p)@, *command, number as nat), final(p)@, r),
        !(r is OutOfRange),
{
    if p.var_names.is_some() {
        let name = match str_at(command, "name") {
            Err(e) => {
                return EditEnd::Failed(e);
            },
            Ok(Some(s)) => s,
            Ok(None) => {
                let mut s = "x".to_owned();
                s.append(decimal(number).as_str());
                s
            },
        };
        if let Some(names) = &mut p.var_names {
            let ghost before = names@;
            names.push(name);
            assert(texts(names@) =~= texts(before).push(name@));
        }
    }
    EditEnd::Applied
}

fn run_add_variable(p: &mut MipProblemSpec, command: &Json) -> (r: EditEnd)
    ensures
        performed(add_variable(old(p)@, *command), final(p)@, r),
{
    let column = match vec_f64(command, "column") {
        Err(e) => {
            return EditEnd::Failed(e);
        },
        Ok(Some(v)) => v,
        Ok(None) => repeated(zero(), p.a.len()),
    };
    if column.len() != p.a.len() {
        return fail("column length must equal constraint count");
    }
    let cost = match f64_at(command, "c", zero()) {
        Err(e) => {
            return EditEnd::Failed(e);
        },
        Ok(x) => x,
    };
    let number: usize = p.c.len();
    p.c.push(cost);
    let integer = match bool_at(command, "integer", false) {
        Err(e) => {
            return EditEnd::Failed(e);
        },
        Ok(b) => b,
    };
    p.integer_vars.push(integer);
    push_column(&mut p.a, &column);
    if p.ub.is_some() || command.get("ub").is_some() {
        let upper = match f64_at(command, "ub", infinity()) {
            Err(e) => {
                return EditEnd::Failed(e);
            },
            Ok(x) => x,
        };
        if p.ub.is_none() {
            p.ub = Some(repeated(infinity(), number));
        }
        if let Some(bounds) = &mut p.ub {
            bounds.push(upper);
        }
    }
    push_variable_name(p, command, number)
}

// Changing a variable.

/// The new bounds where a variable gets one, infinite ones being put in where
/// there are none yet.
pub open spec fn with_bound(m: Model, i: usize, upper: Double) -> Model {
    Model { ub: Some(bounds_or_infinite(m.ub, m.c.len()).update(i as int, upper)), ..m }
}

/// Each row with one coefficient replaced.
pub open spec fn rows_with_replaced(a: Seq<Seq<Double>>, i: usize, column: Seq<Double>) -> Seq<
    Seq<Double>,
> {
    Seq::new(a.len(), |k: int| a[k].update(i as int, column[k]))
}

/// Whether some row has no coefficient `i`.
pub open spec fn some_row_short(a: Seq<Seq<Double>>, i: usize) -> bool {
    exists|k: int| 0 <= k < a.len() && i >= (#[trigger] a[k]).len()
}

/// The cost part of a change of a variable.
pub open spec fn variable_cost(m: Model, i: usize, command: Json) -> Edit {
    if command.field("c"@) is None {
        applied(m)
    } else {
        match number_field(command, "c"@, m.c[i as int]) {
            Err(e) => failed(m, e),
            Ok(x) => applied(Model { c: m.c.update(i as int, x), ..m }),
        }
    }
}

/// The integrality part.
pub open spec fn variable_integer(m: Model, i: usize, command: Json) -> Edit {
    if command.field("integer"@) is None {
        applied(m)
    } else if i >= m.integer_vars.len() {
        out_of_range(m)
    } else {
        match flag_field(command, "integer"@, m.integer_vars[i as int]) {
            Err(e) => failed(m, e),
            Ok(b) => applied(Model { integer_vars: m.integer_vars.update(i as int, b), ..m }),
        }
    }
}

/// The bound part, made whether or not a bound is given.
pub open spec fn variable_bound(m: Model, i: usize, command: Json) -> Edit {
    match number_field(command, "ub"@, infinity()) {
        Err(e) => failed(m, e),
        Ok(upper) => if i >= bounds_or_infinite(m.ub, m.c.len()).len() {
            out_of_range(m)
        } else {
            applied(with_bound(m, i, upper))
        },
    }
}

/// The bound part, made only where a bound is given.
pub open spec fn variable_given_bound(m: Model, i: usize, command: Json) -> Edit {
    if command.field("ub"@) is None {
        applied(m)
    } else {
        variable_bound(m, i, command)
    }
}

/// The column part.
pub open spec fn variable_column(m: Model, i: usize, command: Json) -> Edit {
    match numbers_field(command, "column"@) {
        Err(e) => failed(m, e),
        Ok(None) => applied(m),
        Ok(Some(column)) => if column.len() != m.a.len() {
            failed(m, "column length must equal constraint count"@)
        } else if some_row_short(m.a, i) {
            out_of_range(m)
        } else {
            applied(Model { a: rows_with_replaced(m.a, i, column), ..m })
        },
    }
}

/// The name part.
pub open spec fn variable_rename(m: Model, i: usize, command: Json) -> Edit {
    match string_field(command, "name"@) {
        Err(e) => failed(m, e),
        Ok(name) => if name is Some && too_short(m.var_names, i) {
            out_of_range(m)
        } else {
            applied(Model { var_names: renamed(m.var_names, i, name), ..m })
        },
    }
}

/// Changes the cost, the integrality, the bound, the column and the name of a
/// variable, in this order and as far as they are given; the first part that
/// does not succeed ends the change.
pub open spec fn set_variable(m: Model, command: Json) -> Edit {
    match required_index(command, "index"@, "index is required"@) {
        Err(e) => failed(m, e),
        Ok(i) => if i >= m.c.len() {
            failed(m, "variable index out of range"@)
        } else {
            let cost = variable_cost(m, i, command);
            let integer = variable_integer(cost.model, i, command);
            let bound = variable_given_bound(integer.model, i, command);
            let column = variable_column(bound.model, i, command);
            if !(cost.ending is Applied) {
                cost
            } else if !(integer.ending is Applied) {
                integer
            } else if !(bound.ending is Applied) {
                bound
            } else if !(column.ending is Applied) {
                column
            } else {
                variable_rename(column.model, i, command)
            }
        },
    }
}

fn run_bound(p: &mut MipProblemSpec, i: usize, command: &Json) -> (r: EditEnd)
    requires
        i < old(p)@.c.len(),
    ensures
        performed(variable_bound(old(p)@, i, *command), final(p)@, r),
{
    let upper = match f64_at(command, "ub", infinity()) {
        Err(e) => {
            return EditEnd::Failed(e);
        },
        Ok(x) => x,
    };
    if p.ub.is_none() {
        p.ub = Some(repeated(infinity(), p.c.len()));
    }
    if let Some(bounds) = &mut p.ub {
        if i >= bounds.len() {
            return EditEnd::OutOfRange;
        }
        bounds.set(i, upper);
    }
    EditEnd::Applied
}

fn replace_column(a: &mut Vec<Vec<Double>>, i: usize, column: &Vec<Double>) -> (r: bool)
    requires
        column@.len() == old(a)@.len(),
    ensures
        r == !some_row_short(rows(old(a)@), i),
        r ==> rows(final(a)@) == rows_with_replaced(rows(old(a)@), i, column@),
{
    let ghost before = a@;
    let total: usize = a.len();
    let mut k: usize = 0;
    while k < total
        invariant
            k <= total,
            total == a@.len(),
            total == before.len(),
            column@.len() == total,
            before == old(a)@,
            forall|j: int| 0 <= j < k ==> i < (#[trigger] before[j])@.len(),
            forall|j: int|
                0 <= j < k ==> (#[trigger] a@[j])@ == before[j]@.update(i as int, column@[j]),
            forall|j: int| k <= j < total ==> (#[trigger] a@[j])@ == before[j]@,
        decreases total - k,
    {
        assert(a@[k as int]@ == before[k as int]@);
        if i >= a[k].len() {
            assert(i >= rows(before)[k as int].len());
            return false;
        }
        a[k].set(i, column[k]);
        k = k + 1;
    }
    assert(rows(a@) =~= rows_with_replaced(rows(before), i, column@));
    true
}

fn run_set_variable(p: &mut MipProblemSpec, command: &Json) -> (r: EditEnd)
    ensures
        performed(set_variable(old(p)@, *command), final(p)@, r),
{
    let i: usize = match read_index(command, "index", "index is required") {
        Err(e) => {
            return EditEnd::Failed(e);
        },
        Ok(i) => i,
    };
    if i >= p.c.len() {
        return fail("variable index out of range");
    }
    if command.get("c").is_some() {
        match f64_at(command, "c", p.c[i]) {
            Err(e) => {
                return EditEnd::Failed(e);
            },
            Ok(x) => {
                p.c.set(i, x);
            },
        }
    }
    if command.get("integer").is_some() {
        if i >= p.integer_vars.len() {
            return EditEnd::OutOfRange;
        }
        match bool_at(command, "integer", p.integer_vars[i]) {
            Err(e) => {
                return EditEnd::Failed(e);
            },
            Ok(b) => {
                p.integer_vars.set(i, b);
            },
        }
    }
    if command.get("ub").is_some() {
        match run_bound(p, i, command) {
            EditEnd::Applied => {},
            end => {
                return end;
            },
        }
    }
    match vec_f64(command, "column") {
        Err(e) => {
            return EditEnd::Failed(e);
        },
        Ok(None) => {},
        Ok(Some(column)) => {
            if column.len() != p.a.len() {
                return fail("column length must equal constraint count");
            }
            if !replace_column(&mut p.a, i, &column) {
                return EditEnd::OutOfRange;
            }
        },
    }
    let name = match str_at(command, "name") {
        Err(e) => {
            return EditEnd::Failed(e);
        },
        Ok(name) => name,
    };
    if !rename(&mut p.var_names, i, name) {
        return EditEnd::OutOfRange;
    }
    EditEnd::Applied
}

// Removing a variable.

/// Each row without one of its coefficients.
pub open spec fn rows_without(a: Seq<Seq<Double>>, i: usize) -> Seq<Seq<Double>> {
    Seq::new(a.len(), |k: int| a[k].remove(i as int))
}

/// Removes a variable with its cost, its integrality, its column, its bound and
/// its name; the last variable stays.
pub open spec fn remove_variable(m: Model, command: Json) -> Edit {
    match required_index(command, "index"@, "index is required"@) {
        Err(e) => failed(m, e),
        Ok(i) => if i >= m.c.len() {
            failed(m, "variable index out of range"@)
        } else if m.c.len() == 1 {
            failed(m, "cannot remove the last variable"@)
        } else if i >= m.integer_vars.len() || some_row_short(m.a, i) || too_short(m.ub, i)
            || too_short(m.var_names, i) {
            out_of_range(m)
        } else {
            applied(
                Model {
                    c: m.c.remove(i as int),
                    integer_vars: m.integer_vars.remove(i as int),
                    a: rows_without(m.a, i),
                    ub: without(m.ub, i),
                    var_names: without(m.var_names, i),
                    ..m
                },
            )
        },
    }
}

fn remove_column(a: &mut Vec<Vec<Double>>, i: usize) -> (r: bool)
    ensures
        r == !some_row_short(rows(old(a)@), i),
        r ==> rows(final(a)@) == rows_without(rows(old(a)@), i),
{
    let ghost before = a@;
    let total: usize = a.len();
    let mut k: usize = 0;
    while k < total
        invariant
            k <= total,
            total == a@.len(),
            total == before.len(),
            before == old(a)@,
            forall|j: int| 0 <= j < k ==> i < (#[trigger] before[j])@.len(),
            forall|j: int| 0 <= j < k ==> (#[trigger] a@[j])@ == before[j]@.remove(i as int),
            forall|j: int| k <= j < total ==> (#[trigger] a@[j])@ == before[j]@,
        decreases total - k,
    {
        assert(a@[k as int]@ == before[k as int]@);
        if i >= a[k].len() {
            assert(i >= rows(before)[k as int].len());
            return false;
        }
        a[k].remove(i);
        k = k + 1;
    }
    assert(rows(a@) =~= rows_without(rows(before), i));
    true
}

fn run_remove_variable(p: &mut MipProblemSpec, command: &Json) -> (r: EditEnd)
    ensures
        performed(remove_variable(old(p)@, *command), final(p)@, r),
{
    let i: usize = match read_index(command, "index", "index is required") {
        Err(e) => {
            return EditEnd::Failed(e);
        },
        Ok(i) => i,
    };
    if i >= p.c.len() {
        return fail("variable index out of range");
    }
    if p.c.len() == 1 {
        return fail("cannot remove the last variable");
    }
    p.c.remove(i);
    if i >= p.integer_vars.len() {
        return EditEnd::OutOfRange;
    }
    p.integer_vars.remove(i);
    if !remove_column(&mut p.a, i) {
        return EditEnd::OutOfRange;
    }
    if let Some(bounds) = &mut p.ub {
        if i >= bounds.len() {
            return EditEnd::OutOfRange;
        }
        bounds.remove(i);
    }
    if names_too_short(&p.var_names, i) {
        return EditEnd::OutOfRange;
    }
    remove_name(&mut p.var_names, i);
    EditEnd::Applied
}

// Changing the objective, one flag, one bound or the sense.

/// Replaces the objective.
pub open spec fn set_objective(m: Model, command: Json) -> Edit {
    match numbers_field(command, "c"@) {
        Err(e) => failed(m, e),
        Ok(given) => if or_empty(given).len() != m.c.len() {
            failed(m, "c length must equal variable count"@)
        } else {
            applied(Model { c: or_empty(given), ..m })
        },
    }
}

fn run_set_objective(p: &mut MipProblemSpec, command: &Json) -> (r: EditEnd)
    ensures
        performed(set_objective(old(p)@, *command), final(p)@, r),
{
    let c = match vec_f64(command, "c") {
        Err(e) => {
            return EditEnd::Failed(e);
        },
        Ok(Some(v)) => v,
        Ok(None) => Vec::new(),
    };
    assert(c@ =~= or_empty(numbers_field(*command, "c"@)->Ok_0));
    if c.len() != p.c.len() {
        return fail("c length must equal variable count");
    }
    p.c = c;
    EditEnd::Applied
}

/// Changes whether a variable must be integral.
pub open spec fn set_integer(m: Model, command: Json) -> Edit {
    match required_index(command, "index"@, "index is required"@) {
        Err(e) => failed(m, e),
        Ok(i) => if i >= m.integer_vars.len() {
            failed(m, "variable index out of range"@)
        } else {
            match flag_field(command, "integer"@, true) {
                Err(e) => failed(m, e),
                Ok(b) => applied(Model { integer_vars: m.integer_vars.update(i as int, b), ..m }),
            }
        },
    }
}

fn run_set_integer(p: &mut MipProblemSpec, command: &Json) -> (r: EditEnd)
    ensures
        performed(set_integer(old(p)@, *command), final(p)@, r),
{
    let i: usize = match read_index(command, "index", "index is required") {
        Err(e) => {
            return EditEnd::Failed(e);
        },
        Ok(i) => i,
    };
    if i >= p.integer_vars.len() {
        return fail("variable index out of range");
    }
    match bool_at(command, "integer", true) {
        Err(e) => EditEnd::Failed(e),
        Ok(b) => {
            p.integer_vars.set(i, b);
            EditEnd::Applied
        },
    }
}

/// Changes the upper bound of a variable; without one it becomes infinite.
pub open spec fn set_upper_bound(m: Model, command: Json) -> Edit {
    match required_index(command, "index"@, "index is required"@) {
        Err(e) => failed(m, e),
        Ok(i) => if i >= m.c.len() {
            failed(m, "variable index out of range"@)
        } else {
            variable_bound(m, i, command)
        },
    }
}

fn run_set_upper_bound(p: &mut MipProblemSpec, command: &Json) -> (r: EditEnd)
    ensures
        performed(set_upper_bound(old(p)@, *command), final(p)@, r),
{
    let i: usize = match read_index(command, "index", "index is required") {
        Err(e) => {
            return EditEnd::Failed(e);
        },
        Ok(i) => i,
    };
    if i >= p.c.len() {
        return fail("variable index out of range");
    }
    run_bound(p, i, command)
}

/// A sense, `max` where none is given.
pub open spec fn sense_or_default(given: Option<Seq<char>>) -> Seq<char> {
    match given {
        Some(s) => s,
        None => "max"@,
    }
}

/// Changes the sense of the objective.
pub open spec fn set_sense(m: Model, command: Json) -> Edit {
    match string_field(command, "sense"@) {
        Err(e) => failed(m, e),
        Ok(given) => applied(Model { sense: sense_or_default(given), ..m }),
    }
}

fn run_set_sense(p: &mut MipProblemSpec, command: &Json) -> (r: EditEnd)
    ensures
        performed(set_sense(old(p)@, *command), final(p)@, r),
{
    match str_at(command, "sense") {
        Err(e) => EditEnd::Failed(e),
        Ok(Some(s)) => {
            p.sense = s;
            EditEnd::Applied
        },
        Ok(None) => {
            p.sense = default_sense();
            EditEnd::Applied
        },
    }
}

/// The sense of a model that names none.
pub fn default_sense() -> (r: String)
    ensures
        r@ == "max"@,
{
    "max".to_owned()
}

// Dispatch.

/// The operation that a command names, the empty text where it names none.
pub open spec fn operation(command: Json) -> Seq<char> {
    match command.text_field("op"@) {
        Some(s) => s,
        None => Seq::empty(),
    }
}

/// The edit that an operation makes of a model; `None` for no known edit.
pub open spec fn edit_of(op: Seq<char>, m: Model, command: Json) -> Option<Edit> {
    if op == "add_constraint"@ {
        Some(add_constraint(m, command))
    } else if op == "set_constraint"@ || op == "modify_constraint"@ || op
        == "change_constraint_weights"@ || op == "set_constraint_weights"@ {
        Some(set_constraint(m, command))
    } else if op == "remove_constraint"@ || op == "rm_constraint"@ {
        Some(remove_constraint(m, command))
    } else if op == "set_rhs"@ {
        Some(set_rhs(m, command))
    } else if op == "set_coefficient"@ || op == "set_constraint_weight"@ || op
        == "change_constraint_weight"@ {
        Some(set_coefficient(m, command))
    } else if op == "add_variable"@ {
        Some(add_variable(m, command))
    } else if op == "set_variable"@ || op == "modify_variable"@ {
        Some(set_variable(m, command))
    } else if op == "remove_variable"@ || op == "rm_variable"@ {
        Some(remove_variable(m, command))
    } else if op == "set_objective"@ {
        Some(set_objective(m, command))
    } else if op == "set_integer"@ {
        Some(set_integer(m, command))
    } else if op == "set_upper_bound"@ || op == "set_ub"@ {
        Some(set_upper_bound(m, command))
    } else if op == "set_sense"@ {
        Some(set_sense(m, command))
    } else {
        None
    }
}

fn run_edit(op: &str, p: &mut MipProblemSpec, command: &Json) -> (r: Option<EditEnd>)
    ensures
        match (r, edit_of(op@, old(p)@, *command)) {
            (Some(end), Some(edit)) => performed(edit, final(p)@, end),
            (None, None) => final(p)@ == old(p)@,
            _ => false,
        },
{
    if same(op, "add_constraint") {
        Some(run_add_constraint(p, command))
    } else if same(op, "set_constraint") || same(op, "modify_constraint") || same(
        op,
        "change_constraint_weights",
    ) || same(op, "set_constraint_weights") {
        Some(run_set_constraint(p, command))
    } else if same(op, "remove_constraint") || same(op, "rm_constraint") {
        Some(run_remove_constraint(p, command))
    } else if same(op, "set_rhs") {
        Some(run_set_rhs(p, command))
    } else if same(op, "set_coefficient") || same(op, "set_constraint_weight") || same(
        op,
        "change_constraint_weight",
    ) {
        Some(run_set_coefficient(p, command))
    } else if same(op, "add_variable") {
        Some(run_add_variable(p, command))
    } else if same(op, "set_variable") || same(op, "modify_variable") {
        Some(run_set_variable(p, command))
    } else if same(op, "remove_variable") || same(op, "rm_variable") {
        Some(run_remove_variable(p, command))
    } else if same(op, "set_objective") {
        Some(run_set_objective(p, command))
    } else if same(op, "set_integer") {
        Some(run_set_integer(p, command))
    } else if same(op, "set_upper_bound") || same(op, "set_ub") {
        Some(run_set_upper_bound(p, command))
    } else if same(op, "set_sense") {
        Some(run_set_sense(p, command))
    } else {
        None
    }
}

// A whole command.

/// What a command leaves behind: the model, its revision, the frame that it
/// answers with, and how it ended.
#[verifier::ext_equal]
pub struct Outcome {
    pub problem: Option<Model>,
    pub revision: int,
    pub frame: Option<Frame>,
    pub ending: Ending,
}

/// The model that the fields of an `init` command describe.
pub open spec fn described_model(command: Json) -> Result<Model, Seq<char>> {
    match string_field(command, "sense"@) {
        Err(e) => Err(e),
        Ok(sense) => match numbers_field(command, "c"@) {
            Err(e) => Err(e),
            Ok(c) => match rows_field(command, "a"@) {
                Err(e) => Err(e),
                Ok(a) => match numbers_field(command, "b"@) {
                    Err(e) => Err(e),
                    Ok(b) => match flags_field(command, "integerVars"@) {
                        Err(e) => Err(e),
                        Ok(integer_vars) => match numbers_field(command, "ub"@) {
                            Err(e) => Err(e),
                            Ok(ub) => match strings_field(command, "varNames"@) {
                                Err(e) => Err(e),
                                Ok(var_names) => match strings_field(command, "conNames"@) {
                                    Err(e) => Err(e),
                                    Ok(con_names) => Ok(
                                        Model {
                                            sense: sense_or_default(sense),
                                            c: or_empty(c),
                                            a: or_empty(a),
                                            b: or_empty(b),
                                            integer_vars: or_empty(integer_vars),
                                            ub,
                                            var_names,
                                            con_names,
                                        },
                                    ),
                                },
                            },
                        },
                    },
                },
            },
        },
    }
}

/// The model that an `init` command starts from: the one in its `problem` field,
/// else the one that its own fields describe.
pub open spec fn initial_model(command: StreamCommand) -> Result<Model, Seq<char>> {
    match command.problem {
        Some(Ok(p)) => Ok(p@),
        Some(Err(e)) => Err("invalid problem: "@ + e@),
        None => described_model(command.fields),
    }
}

pub open spec fn rejected(problem: Option<Model>, revision: int, e: Seq<char>) -> Outcome {
    Outcome { problem, revision, frame: None, ending: Ending::Failed(e) }
}

/// What a command does. A new model must pass the checks to replace the old one.
/// An edit raises the revision and is checked only then: a model that no longer
/// passes the checks is kept, and the command fails.
pub open spec fn command_outcome(
    problem: Option<Model>,
    revision: u64,
    command: StreamCommand,
    limits: Limits,
) -> Outcome {
    let op = operation(command.fields);
    if op == "init"@ {
        match initial_model(command) {
            Err(e) => rejected(problem, revision as int, e),
            Ok(raw) => match normalized_result(raw, limits) {
                Err(e) => rejected(problem, revision as int, e),
                Ok(next) => Outcome {
                    problem: Some(next),
                    revision: revision + 1,
                    frame: Some(Frame::Initialized { revision: (revision + 1) as u64 }),
                    ending: Ending::Applied,
                },
            },
        }
    } else {
        match problem {
            None => rejected(
                problem,
                revision as int,
                "no problem initialized; send init first"@,
            ),
            Some(m) => if op == "snapshot"@ {
                Outcome {
                    problem,
                    revision: revision as int,
                    frame: Some(
                        Frame::Snapshot {
                            revision,
                            num_vars: m.c.len() as usize,
                            num_constraints: m.a.len() as usize,
                            integer_vars: m.integer_vars,
                        },
                    ),
                    ending: Ending::Applied,
                }
            } else {
                match edit_of(op, m, command.fields) {
                    None => rejected(
                        problem,
                        revision as int,
                        "unknown stream op `"@ + op + "`"@,
                    ),
                    Some(edit) => match edit.ending {
                        Ending::Failed(e) => rejected(Some(edit.model), revision as int, e),
                        Ending::OutOfRange => Outcome {
                            problem,
                            revision: revision as int,
                            frame: None,
                            ending: Ending::OutOfRange,
                        },
                        Ending::Applied => match model_error(edit.model, limits) {
                            Some(e) => rejected(Some(edit.model), revision + 1, e),
                            None => Outcome {
                                problem: Some(edit.model),
                                revision: revision + 1,
                                frame: Some(
                                    Frame::Applied { op, revision: (revision + 1) as u64 },
                                ),
                                ending: Ending::Applied,
                            },
                        },
                    },
                }
            },
        }
    }
}

fn build_model(command: &Json) -> (r: Result<MipProblemSpec, String>)
    ensures
        model_result(r) == described_model(*command),
{
    let sense = match str_at(command, "sense") {
        Err(e) => {
            return Err(e);
        },
        Ok(Some(s)) => s,
        Ok(None) => default_sense(),
    };
    let c = match vec_f64(command, "c") {
        Err(e) => {
            return Err(e);
        },
        Ok(Some(v)) => v,
        Ok(None) => Vec::new(),
    };
    let a = match vec_vec_f64(command, "a") {
        Err(e) => {
            return Err(e);
        },
        Ok(Some(v)) => v,
        Ok(None) => Vec::new(),
    };
    let b = match vec_f64(command, "b") {
        Err(e) => {
            return Err(e);
        },
        Ok(Some(v)) => v,
        Ok(None) => Vec::new(),
    };
    let integer_vars = match vec_bool(command, "integerVars") {
        Err(e) => {
            return Err(e);
        },
        Ok(Some(v)) => v,
        Ok(None) => Vec::new(),
    };
    let ub = match vec_f64(command, "ub") {
        Err(e) => {
            return Err(e);
        },
        Ok(v) => v,
    };
    let var_names = match vec_string(command, "varNames") {
        Err(e) => {
            return Err(e);
        },
        Ok(v) => v,
    };
    let con_names = match vec_string(command, "conNames") {
        Err(e) => {
            return Err(e);
        },
        Ok(v) => v,
    };
    let out = MipProblemSpec { sense, c, a, b, integer_vars, ub, var_names, con_names };
    assert(out@ =~= described_model(*command)->Ok_0);
    Ok(out)
}

/// Adds a frame to the frames.
pub open spec fn with_frame(frames: Seq<Frame>, frame: Option<Frame>) -> Seq<Frame> {
    match frame {
        Some(f) => frames.push(f),
        None => frames,
    }
}

fn push_frame(frames: &mut Vec<StreamFrame>, frame: StreamFrame)
    ensures
        frames_view(final(frames)@) == frames_view(old(frames)@).push(frame@),
{
    let ghost before = frames@;
    frames.push(frame);
    assert(frames_view(frames@) =~= frames_view(before).push(frame@));
}

/// Performs a command whatever the shape of the model.
fn perform(
    problem: &mut Option<MipProblemSpec>,
    revision: &mut u64,
    command: &StreamCommand,
    frames: &mut Vec<StreamFrame>,
    limits: Limits,
) -> (r: EditEnd)
    requires
        *old(revision) < u64::MAX,
    ensures
        ({
            let out = command_outcome(model_view(*old(problem)), *old(revision), *command, limits);
            &&& r@ == out.ending
            &&& !(r is OutOfRange) ==> model_view(*final(problem)) == out.problem
            &&& *final(revision) == out.revision
            &&& frames_view(final(frames)@) == with_frame(frames_view(old(frames)@), out.frame)
        }),
{
    let op = match command.fields.get("op") {
        Some(value) => match value.as_text() {
            Some(s) => s.to_owned(),
            None => String::new(),
        },
        None => String::new(),
    };
    assert(op@ =~= operation(command.fields));
    if same(op.as_str(), "init") {
        let raw = match &command.problem {
            Some(Ok(p)) => p.clone(),
            Some(Err(e)) => {
                let mut message = "invalid problem: ".to_owned();
                message.append(e.as_str());
                return EditEnd::Failed(message);
            },
            None => match build_model(&command.fields) {
                Err(e) => {
                    return EditEnd::Failed(e);
                },
                Ok(p) => p,
            },
        };
        match normalized_problem(raw, limits) {
            Err(e) => {
                return EditEnd::Failed(e);
            },
            Ok(next) => {
                *problem = Some(next);
                *revision = *revision + 1;
                push_frame(frames, StreamFrame::Initialized { revision: *revision });
                return EditEnd::Applied;
            },
        }
    }
    match problem.take() {
        None => fail("no problem initialized; send init first"),
        Some(mut p) => {
            if same(op.as_str(), "snapshot") {
                push_frame(
                    frames,
                    StreamFrame::Snapshot {
                        revision: *revision,
                        num_vars: p.c.len(),
                        num_constraints: p.a.len(),
                        integer_vars: copy_flags(&p.integer_vars),
                    },
                );
                *problem = Some(p);
                return EditEnd::Applied;
            }
            let end = run_edit(op.as_str(), &mut p, &command.fields);
            match end {
                None => {
                    *problem = Some(p);
                    let mut message = "unknown stream op `".to_owned();
                    message.append(op.as_str());
                    message.append("`");
                    EditEnd::Failed(message)
                },
                Some(EditEnd::Applied) => {
                    *revision = *revision + 1;
                    let checked = validate_problem(&p, limits);
                    *problem = Some(p);
                    match checked {
                        Err(e) => EditEnd::Failed(e),
                        Ok(_) => {
                            push_frame(frames, StreamFrame::Applied { op, revision: *revision });
                            EditEnd::Applied
                        },
                    }
                },
                Some(other) => {
                    *problem = Some(p);
                    other
                },
            }
        },
    }
}

/// Applies one command to a model and its revision, and appends the frame that
/// answers it. The command must not address a part of the model that is shorter
/// than the model's other parts say; on a well-shaped model none does.
pub fn apply_stream_command(
    problem: &mut Option<MipProblemSpec>,
    revision: &mut u64,
    command: &StreamCommand,
    frames: &mut Vec<StreamFrame>,
    limits: Limits,
) -> (r: Result<(), String>)
    requires
        *old(revision) < u64::MAX,
        !(command_outcome(model_view(*old(problem)), *old(revision), *command, limits).ending
            is OutOfRange),
    ensures
        ({
            let out = command_outcome(model_view(*old(problem)), *old(revision), *command, limits);
            &&& model_view(*final(problem)) == out.problem
            &&& *final(revision) == out.revision
            &&& frames_view(final(frames)@) == with_frame(frames_view(old(frames)@), out.frame)
            &&& match r {
                Ok(_) => out.ending is Applied,
                Err(e) => out.ending == Ending::Failed(e@),
            }
        }),
{
    match perform(problem, revision, command, frames, limits) {
        EditEnd::Applied => Ok(()),
        EditEnd::Failed(e) => Err(e),
        EditEnd::OutOfRange => Ok(()),
    }
}

// What holds of every command.

/// An edit that addresses no missing part, and that leaves a well-shaped model
/// where it is applied.
pub open spec fn keeps_shape(edit: Edit) -> bool {
    &&& !(edit.ending is OutOfRange)
    &&& edit.ending is Applied ==> well_shaped(edit.model)
}

proof fn rows_are_long_enough(m: Model, i: usize)
    requires
        well_shaped(m),
        i < m.c.len(),
    ensures
        !some_row_short(m.a, i),
{
    if some_row_short(m.a, i) {
        let k = choose|k: int| 0 <= k < m.a.len() && i >= (#[trigger] m.a[k]).len();
        assert(m.a[k].len() == m.c.len());
    }
}

proof fn add_constraint_keeps_shape(m: Model, command: Json)
    requires
        well_shaped(m),
    ensures
        keeps_shape(add_constraint(m, command)),
{
}

proof fn set_constraint_keeps_shape(m: Model, command: Json)
    requires
        well_shaped(m),
    ensures
        keeps_shape(set_constraint(m, command)),
{
}

proof fn remove_constraint_keeps_shape(m: Model, command: Json)
    requires
        well_shaped(m),
    ensures
        keeps_shape(remove_constraint(m, command)),
{
}

proof fn set_rhs_keeps_shape(m: Model, command: Json)
    requires
        well_shaped(m),
    ensures
        keeps_shape(set_rhs(m, command)),
{
}

proof fn set_coefficient_keeps_shape(m: Model, command: Json)
    requires
        well_shaped(m),
    ensures
        keeps_shape(set_coefficient(m, command)),
{
}

proof fn add_variable_keeps_shape(m: Model, command: Json)
    requires
        well_shaped(m),
    ensures
        keeps_shape(add_variable(m, command)),
{
}

proof fn remove_variable_keeps_shape(m: Model, command: Json)
    requires
        well_shaped(m),
    ensures
        keeps_shape(remove_variable(m, command)),
{
    if let Ok(i) = required_index(command, "index"@, "index is required"@) {
        if i < m.c.len() {
            rows_are_long_enough(m, i);
        }
    }
}

proof fn set_objective_keeps_shape(m: Model, command: Json)
    requires
        well_shaped(m),
    ensures
        keeps_shape(set_objective(m, command)),
{
}

proof fn set_integer_keeps_shape(m: Model, command: Json)
    requires
        well_shaped(m),
    ensures
        keeps_shape(set_integer(m, command)),
{
}

proof fn set_sense_keeps_shape(m: Model, command: Json)
    requires
        well_shaped(m),
    ensures
        keeps_shape(set_sense(m, command)),
{
}

proof fn variable_bound_keeps_shape(m: Model, i: usize, command: Json)
    requires
        well_shaped(m),
        i < m.c.len(),
    ensures
        keeps_shape(variable_bound(m, i, command)),
        variable_bound(m, i, command).model.c == m.c,
{
}

proof fn variable_column_keeps_shape(m: Model, i: usize, command: Json)
    requires
        well_shaped(m),
        i < m.c.len(),
    ensures
        keeps_shape(variable_column(m, i, command)),
        variable_column(m, i, command).model.c == m.c,
{
    rows_are_long_enough(m, i);
}

proof fn set_variable_keeps_shape(m: Model, command: Json)
    requires
        well_shaped(m),
    ensures
        keeps_shape(set_variable(m, command)),
{
    if let Ok(i) = required_index(command, "index"@, "index is required"@) {
        if i < m.c.len() {
            let cost = variable_cost(m, i, command);
            let integer = variable_integer(cost.model, i, command);
            let bound = variable_given_bound(integer.model, i, command);
            let column = variable_column(bound.model, i, command);
            assert(keeps_shape(cost) && cost.model.c.len() == m.c.len());
            if cost.ending is Applied {
                assert(keeps_shape(integer) && integer.model.c.len() == m.c.len());
                if integer.ending is Applied {
                    variable_bound_keeps_shape(integer.model, i, command);
                    if bound.ending is Applied {
                        variable_column_keeps_shape(bound.model, i, command);
                    }
                }
            }
        }
    }
}

/// On a well-shaped model no edit addresses a missing part, and an edit that is
/// applied leaves a well-shaped model.
pub proof fn edits_keep_the_shape(op: Seq<char>, m: Model, command: Json)
    requires
        well_shaped(m),
        edit_of(op, m, command) is Some,
    ensures
        keeps_shape(edit_of(op, m, command)->0),
{
    add_constraint_keeps_shape(m, command);
    set_constraint_keeps_shape(m, command);
    remove_constraint_keeps_shape(m, command);
    set_rhs_keeps_shape(m, command);
    set_coefficient_keeps_shape(m, command);
    add_variable_keeps_shape(m, command);
    remove_variable_keeps_shape(m, command);
    set_objective_keeps_shape(m, command);
    set_integer_keeps_shape(m, command);
    set_sense_keeps_shape(m, command);
    set_variable_keeps_shape(m, command);
    if let Ok(i) = required_index(command, "index"@, "index is required"@) {
        if i < m.c.len() {
            variable_bound_keeps_shape(m, i, command);
        }
    }
}

/// A command that succeeds leaves a model that fits together and passes the
/// checks, where the model did so before; and no command addresses a missing
/// part of such a model.
pub proof fn commands_keep_models_valid(
    problem: Option<Model>,
    revision: u64,
    command: StreamCommand,
    limits: Limits,
)
    requires
        problem is Some ==> well_shaped(problem->0) && valid(problem->0, limits),
    ensures
        ({
            let out = command_outcome(problem, revision, command, limits);
            &&& !(out.ending is OutOfRange)
            &&& out.ending is Applied ==> out.problem is Some && well_shaped(out.problem->0)
                && valid(out.problem->0, limits)
        }),
{
    let op = operation(command.fields);
    if op == "init"@ {
        match initial_model(command) {
            Ok(raw) => {
                if valid(raw, limits) {
                    normalizing_shapes(raw, limits);
                }
            },
            Err(_) => {},
        }
    } else if let Some(m) = problem {
        if op != "snapshot"@ && edit_of(op, m, command.fields) is Some {
            edits_keep_the_shape(op, m, command.fields);
        }
    }
}

/// A command that is applied and is no snapshot raises the revision by one and
/// answers with that revision; a snapshot and a command that addresses nothing
/// leave it; a command that fails raises it by at most one and answers nothing.
pub proof fn commands_count_revisions(
    problem: Option<Model>,
    revision: u64,
    command: StreamCommand,
    limits: Limits,
)
    requires
        revision < u64::MAX,
    ensures
        ({
            let op = operation(command.fields);
            let out = command_outcome(problem, revision, command, limits);
            &&& op == "snapshot"@ && op != "init"@ ==> out.revision == revision && out.problem
                == problem
            &&& out.ending is Applied && (op == "init"@ || op != "snapshot"@) ==> out.revision
                == revision + 1 && (out.frame == Some(
                Frame::Initialized { revision: (revision + 1) as u64 },
            ) || out.frame == Some(Frame::Applied { op, revision: (revision + 1) as u64 }))
            &&& out.ending is Failed ==> out.frame is None && revision <= out.revision <= revision
                + 1
        }),
{
}

// A run of commands that stops at the first failure.

/// A model in the making.
#[verifier::ext_equal]
pub struct Run {
    pub problem: Option<Model>,
    pub revision: int,
    pub frames: Seq<Frame>,
    pub ending: Ending,
}

/// A model in the making after one more command.
pub open spec fn run_after(before: Run, out: Outcome) -> Run {
    Run {
        problem: out.problem,
        revision: out.revision,
        frames: with_frame(before.frames, out.frame),
        ending: out.ending,
    }
}

/// What the first commands of a list make of nothing, up to the first failure.
pub open spec fn run_of(commands: Seq<StreamCommand>, limits: Limits) -> Run
    decreases commands.len(),
{
    if commands.len() == 0 {
        Run { problem: None, revision: 0, frames: Seq::empty(), ending: Ending::Applied }
    } else {
        let before = run_of(commands.drop_last(), limits);
        if !(before.ending is Applied) {
            before
        } else {
            run_after(
                before,
                command_outcome(before.problem, before.revision as u64, commands.last(), limits),
            )
        }
    }
}

proof fn failed_runs_stay(commands: Seq<StreamCommand>, k: int, limits: Limits)
    requires
        0 <= k <= commands.len(),
        !(run_of(commands.take(k), limits).ending is Applied),
    ensures
        run_of(commands, limits) == run_of(commands.take(k), limits),
    decreases commands.len() - k,
{
    if k == commands.len() {
        assert(commands.take(k) =~= commands);
    } else {
        assert(commands.take(k + 1).drop_last() =~= commands.take(k));
        failed_runs_stay(commands, k + 1, limits);
    }
}

/// What building a model from commands gives: the model, its revision and the
/// frames, or why there is none.
pub open spec fn built_model(
    commands: Seq<StreamCommand>,
    max_commands: usize,
    limits: Limits,
) -> Result<(Model, int, Seq<Frame>), Seq<char>> {
    if commands.len() > max_commands {
        Err(
            "stream command count "@ + dec(commands.len()) + " exceeds limit "@ + dec(
                max_commands as nat,
            ),
        )
    } else {
        let run = run_of(commands, limits);
        match run.ending {
            Ending::Failed(e) => Err(e),
            _ => match run.problem {
                Some(m) => Ok((m, run.revision, run.frames)),
                None => Err(
                    "no problem initialized; first command must be {\"op\":\"init\", ...}"@,
                ),
            },
        }
    }
}

/// Builds a model from a list of commands; the first that fails ends it.
#[verifier::spinoff_prover]
#[verifier::rlimit(60)]
pub fn parse_problem_from_commands(
    commands: &Vec<StreamCommand>,
    max_commands: usize,
    limits: Limits,
) -> (r: Result<(MipProblemSpec, u64, Vec<StreamFrame>), String>)
    ensures
        match (r, built_model(commands@, max_commands, limits)) {
            (Ok((p, revision, frames)), Ok((m, n, f))) => p@ == m && revision == n && frames_view(
                frames@,
            ) == f,
            (Err(e), Err(m)) => e@ == m,
            _ => false,
        },
        r is Ok ==> well_shaped(r->Ok_0.0@) && valid(r->Ok_0.0@, limits),
{
    if commands.len() > max_commands {
        let mut e = "stream command count ".to_owned();
        e.append(decimal(commands.len()).as_str());
        e.append(" exceeds limit ");
        e.append(decimal(max_commands).as_str());
        return Err(e);
    }
    let mut problem: Option<MipProblemSpec> = None;
    let mut revision: u64 = 0;
    let mut frames: Vec<StreamFrame> = Vec::new();
    let mut i: usize = 0;
    assert(frames_view(frames@) =~= Seq::empty());
    assert(commands@.take(0) =~= Seq::empty());
    while i < commands.len()
        invariant
            i <= commands@.len(),
            commands@.len() <= max_commands,
            revision <= i,
            model_view(problem) is Some ==> well_shaped(model_view(problem)->0)
                && valid(model_view(problem)->0, limits),
            run_of(commands@.take(i as int), limits) == (Run {
                problem: model_view(problem),
                revision: revision as int,
                frames: frames_view(frames@),
                ending: Ending::Applied,
            }),
        decreases commands@.len() - i,
    {
        assert(commands@.take(i + 1).drop_last() =~= commands@.take(i as int));
        proof {
            commands_keep_models_valid(
                model_view(problem),
                revision,
                commands@[i as int],
                limits,
            );
            commands_count_revisions(
                model_view(problem),
                revision,
                commands@[i as int],
                limits,
            );
        }
        match apply_stream_command(&mut problem, &mut revision, &commands[i], &mut frames, limits) {
            Ok(_) => {},
            Err(e) => {
                proof {
                    failed_runs_stay(commands@, i + 1, limits);
                }
                return Err(e);
            },
        }
        i = i + 1;
    }
    assert(commands@.take(i as int) =~= commands@);
    match problem {
        Some(p) => Ok((p, revision, frames)),
        None => Err(
            "no problem initialized; first command must be {\"op\":\"init\", ...}".to_owned(),
        ),
    }
}

// A live session, in which a failed command is answered and the next one goes on.

/// A live session.
#[derive(Debug)]
pub struct LiveSession {
    pub problem: Option<MipProblemSpec>,
    pub revision: u64,
}

/// What a list of commands makes of a session: the model, the revision, the
/// frames, and how many commands succeeded and failed. `stopped` is set where a
/// command addresses a missing part of a model that an earlier failure left
/// incomplete; the commands from there on are not performed.
#[verifier::ext_equal]
pub struct SessionRun {
    pub problem: Option<Model>,
    pub revision: int,
    pub frames: Seq<Frame>,
    pub succeeded: int,
    pub failed: int,
    pub stopped: bool,
}

/// A session after one more command.
pub open spec fn session_after(before: SessionRun, out: Outcome) -> SessionRun {
    match out.ending {
        Ending::OutOfRange => SessionRun { stopped: true, ..before },
        Ending::Applied => SessionRun {
            problem: out.problem,
            revision: out.revision,
            frames: with_frame(before.frames, out.frame),
            succeeded: before.succeeded + 1,
            ..before
        },
        Ending::Failed(message) => SessionRun {
            problem: out.problem,
            revision: out.revision,
            frames: before.frames.push(
                Frame::Rejected { message, revision: out.revision as u64 },
            ),
            failed: before.failed + 1,
            ..before
        },
    }
}

/// The run of a session over a list of commands.
pub open spec fn session_run(
    problem: Option<Model>,
    revision: u64,
    commands: Seq<StreamCommand>,
    limits: Limits,
) -> SessionRun
    decreases commands.len(),
{
    if commands.len() == 0 {
        SessionRun {
            problem,
            revision: revision as int,
            frames: Seq::empty(),
            succeeded: 0,
            failed: 0,
            stopped: false,
        }
    } else {
        let before = session_run(problem, revision, commands.drop_last(), limits);
        if before.stopped {
            before
        } else {
            session_after(
                before,
                command_outcome(
                    before.problem,
                    before.revision as u64,
                    commands.last(),
                    limits,
                ),
            )
        }
    }
}

proof fn stopped_runs_stay(
    problem: Option<Model>,
    revision: u64,
    commands: Seq<StreamCommand>,
    k: int,
    limits: Limits,
)
    requires
        0 <= k <= commands.len(),
        session_run(problem, revision, commands.take(k), limits).stopped,
    ensures
        session_run(problem, revision, commands, limits) == session_run(
            problem,
            revision,
            commands.take(k),
            limits,
        ),
    decreases commands.len() - k,
{
    if k == commands.len() {
        assert(commands.take(k) =~= commands);
    } else {
        assert(commands.take(k + 1).drop_last() =~= commands.take(k));
        stopped_runs_stay(problem, revision, commands, k + 1, limits);
    }
}

/// What performing a list of commands on a session counted and answered.
#[derive(Debug)]
pub struct SessionReport {
    pub frames: Vec<StreamFrame>,
    pub succeeded: usize,
    pub failed: usize,
    pub stopped: bool,
}

/// Performs a list of commands on a session, each failure answered by a frame.
/// Where the run stops, nothing is said of the session's model.
#[verifier::spinoff_prover]
#[verifier::rlimit(60)]
pub fn apply_session_commands(
    session: &mut LiveSession,
    commands: &Vec<StreamCommand>,
    limits: Limits,
) -> (r: SessionReport)
    requires
        old(session).revision + commands@.len() <= u64::MAX,
    ensures
        ({
            let run = session_run(
                model_view(old(session).problem),
                old(session).revision,
                commands@,
                limits,
            );
            &&& r.stopped == run.stopped
            &&& r.succeeded == run.succeeded
            &&& r.failed == run.failed
            &&& frames_view(r.frames@) == run.frames
            &&& final(session).revision == run.revision
            &&& !r.stopped ==> model_view(final(session).problem) == run.problem
            &&& !r.stopped ==> r.succeeded + r.failed == commands@.len()
        }),
{
    let ghost start = model_view(session.problem);
    let ghost first_revision = session.revision;
    let mut frames: Vec<StreamFrame> = Vec::new();
    let mut succeeded: usize = 0;
    let mut failed_count: usize = 0;
    let mut i: usize = 0;
    assert(frames_view(frames@) =~= Seq::empty());
    assert(commands@.take(0) =~= Seq::empty());
    while i < commands.len()
        invariant
            i <= commands@.len(),
            succeeded + failed_count == i,
            session.revision <= first_revision + i,
            first_revision + commands@.len() <= u64::MAX,
            start == model_view(old(session).problem),
            first_revision == old(session).revision,
            session_run(start, first_revision, commands@.take(i as int), limits) == (SessionRun {
                problem: model_view(session.problem),
                revision: session.revision as int,
                frames: frames_view(frames@),
                succeeded: succeeded as int,
                failed: failed_count as int,
                stopped: false,
            }),
        decreases commands@.len() - i,
    {
        assert(commands@.take(i + 1).drop_last() =~= commands@.take(i as int));
        proof {
            commands_count_revisions(
                model_view(session.problem),
                session.revision,
                commands@[i as int],
                limits,
            );
        }
        match perform(
            &mut session.problem,
            &mut session.revision,
            &commands[i],
            &mut frames,
            limits,
        ) {
            EditEnd::Applied => {
                succeeded = succeeded + 1;
            },
            EditEnd::Failed(message) => {
                failed_count = failed_count + 1;
                push_frame(
                    &mut frames,
                    StreamFrame::Rejected { message, revision: session.revision },
                );
            },
            EditEnd::OutOfRange => {
                proof {
                    stopped_runs_stay(start, first_revision, commands@, i + 1, limits);
                }
                return SessionReport {
                    frames,
                    succeeded,
                    failed: failed_count,
                    stopped: true,
                };
            },
        }
        i = i + 1;
    }
    assert(commands@.take(i as int) =~= commands@);
    SessionReport { frames, succeeded, failed: failed_count, stopped: false }
}

/// A session whose commands all succeed is never stopped, and ends with a model
/// that passes the checks where it began with one or with none.
pub proof fn clean_sessions_never_stop(
    problem: Option<Model>,
    revision: u64,
    commands: Seq<StreamCommand>,
    limits: Limits,
)
    requires
        problem is Some ==> well_shaped(problem->0) && valid(problem->0, limits),
        session_run(problem, revision, commands, limits).failed == 0,
    ensures
        !session_run(problem, revision, commands, limits).stopped,
        ({
            let end = session_run(problem, revision, commands, limits).problem;
            end is Some ==> well_shaped(end->0) && valid(end->0, limits)
        }),
    decreases commands.len(),
{
    if commands.len() > 0 {
        let before = session_run(problem, revision, commands.drop_last(), limits);
        failures_are_counted(problem, revision, commands.drop_last(), limits);
        assert(before.failed == 0);
        clean_sessions_never_stop(problem, revision, commands.drop_last(), limits);
        commands_keep_models_valid(
            before.problem,
            before.revision as u64,
            commands.last(),
            limits,
        );
    }
}

proof fn failures_are_counted(
    problem: Option<Model>,
    revision: u64,
    commands: Seq<StreamCommand>,
    limits: Limits,
)
    ensures
        session_run(problem, revision, commands, limits).failed >= 0,
    decreases commands.len(),
{
    if commands.len() > 0 {
        failures_are_counted(problem, revision, commands.drop_last(), limits);
    }
}


proof fn revisions_grow_by_commands(
    problem: Option<Model>,
    revision: u64,
    commands: Seq<StreamCommand>,
    limits: Limits,
)
    requires
        revision + commands.len() <= u64::MAX,
    ensures
        revision <= session_run(problem, revision, commands, limits).revision <= revision
            + commands.len(),
    decreases commands.len(),
{
    if commands.len() > 0 {
        let before = session_run(problem, revision, commands.drop_last(), limits);
        revisions_grow_by_commands(problem, revision, commands.drop_last(), limits);
        commands_count_revisions(
            before.problem,
            before.revision as u64,
            commands.last(),
            limits,
        );
    }
}

/// A run that follows on another.
pub open spec fn following(first: SessionRun, second: SessionRun) -> SessionRun {
    SessionRun {
        frames: first.frames + second.frames,
        succeeded: first.succeeded + second.succeeded,
        failed: first.failed + second.failed,
        ..second
    }
}

proof fn commands_follow(first: SessionRun, second: SessionRun, out: Outcome)
    ensures
        session_after(following(first, second), out) == following(
            first,
            session_after(second, out),
        ),
{
    assert(with_frame(first.frames + second.frames, out.frame) =~= first.frames + with_frame(
        second.frames,
        out.frame,
    ));
    if let Ending::Failed(message) = out.ending {
        let told = Frame::Rejected { message, revision: out.revision as u64 };
        assert((first.frames + second.frames).push(told) =~= first.frames + second.frames.push(
            told,
        ));
    }
}

/// Commands may come in one request or in several: a session that goes on where
/// an earlier request left it ends as one that is sent everything at once, with
/// the same frames.
pub proof fn sessions_go_on(
    problem: Option<Model>,
    revision: u64,
    first: Seq<StreamCommand>,
    second: Seq<StreamCommand>,
    limits: Limits,
)
    requires
        revision + first.len() + second.len() <= u64::MAX,
        !session_run(problem, revision, first, limits).stopped,
    ensures
        ({
            let a = session_run(problem, revision, first, limits);
            let b = session_run(a.problem, a.revision as u64, second, limits);
            session_run(problem, revision, first + second, limits) == following(a, b)
        }),
    decreases second.len(),
{
    let a = session_run(problem, revision, first, limits);
    revisions_grow_by_commands(problem, revision, first, limits);
    if second.len() == 0 {
        assert(first + second =~= first);
        assert(a.frames + Seq::<Frame>::empty() =~= a.frames);
    } else {
        let b = session_run(a.problem, a.revision as u64, second.drop_last(), limits);
        sessions_go_on(problem, revision, first, second.drop_last(), limits);
        assert((first + second).drop_last() =~= first + second.drop_last());
        assert((first + second).last() == second.last());
        commands_follow(
            a,
            b,
            command_outcome(b.problem, b.revision as u64, second.last(), limits),
        );
    }
}

proof fn runs_stay_in_range(commands: Seq<StreamCommand>, limits: Limits)
    ensures
        ({
            let run = run_of(commands, limits);
            &&& !(run.ending is OutOfRange)
            &&& run.ending is Applied && run.problem is Some ==> well_shaped(run.problem->0)
                && valid(run.problem->0, limits)
        }),
    decreases commands.len(),
{
    if commands.len() > 0 {
        runs_stay_in_range(commands.drop_last(), limits);
        let before = run_of(commands.drop_last(), limits);
        if before.ending is Applied {
            commands_keep_models_valid(
                before.problem,
                before.revision as u64,
                commands.last(),
                limits,
            );
        }
    }
}

proof fn clean_runs_are_sessions(commands: Seq<StreamCommand>, limits: Limits)
    requires
        run_of(commands, limits).ending is Applied,
    ensures
        ({
            let run = run_of(commands, limits);
            session_run(None, 0, commands, limits) == (SessionRun {
                problem: run.problem,
                revision: run.revision,
                frames: run.frames,
                succeeded: commands.len() as int,
                failed: 0,
                stopped: false,
            })
        }),
    decreases commands.len(),
{
    if commands.len() > 0 {
        clean_runs_are_sessions(commands.drop_last(), limits);
    }
}

/// A model that is built from a list of commands is the one that a new session
/// comes to with the same commands, at the same revision and with the same frames.
pub proof fn requests_agree_with_sessions(
    commands: Seq<StreamCommand>,
    max_commands: usize,
    limits: Limits,
)
    requires
        built_model(commands, max_commands, limits) is Ok,
    ensures
        ({
            let (m, revision, frames) = built_model(commands, max_commands, limits)->Ok_0;
            let session = session_run(None, 0, commands, limits);
            &&& session.problem == Some(m)
            &&& session.revision == revision
            &&& session.frames == frames
            &&& session.failed == 0
            &&& !session.stopped
        }),
{
    runs_stay_in_range(commands, limits);
    clean_runs_are_sessions(commands, limits);
}

/// A request with more commands than are allowed is refused; one that keeps to the limit
/// is refused exactly where a command is, or where no command gives a model.
pub proof fn requests_keep_to_the_limit(
    commands: Seq<StreamCommand>,
    max_commands: usize,
    limits: Limits,
)
    ensures
        commands.len() > max_commands ==> built_model(commands, max_commands, limits) is Err,
        commands.len() <= max_commands ==> (built_model(commands, max_commands, limits) is Ok <==>
            !(run_of(commands, limits).ending is Failed) && run_of(commands, limits).problem
            is Some),
        commands.len() == 0 ==> built_model(commands, max_commands, limits) is Err,
{
}

/// Nothing is done after a command that was refused.
pub proof fn requests_stop_at_a_refusal(
    commands: Seq<StreamCommand>,
    more: Seq<StreamCommand>,
    limits: Limits,
)
    requires
        !(run_of(commands, limits).ending is Applied),
    ensures
        run_of(commands + more, limits) == run_of(commands, limits),
    decreases more.len(),
{
    if more.len() == 0 {
        assert(commands + more =~= commands);
    } else {
        requests_stop_at_a_refusal(commands, more.drop_last(), limits);
        assert((commands + more).drop_last() =~= commands + more.drop_last());
    }
}

/// Commands are done one after the other, each on what the ones before it left.
pub proof fn requests_are_done_in_order(
    commands: Seq<StreamCommand>,
    next: StreamCommand,
    limits: Limits,
)
    requires
        run_of(commands, limits).ending is Applied,
    ensures
        ({
            let before = run_of(commands, limits);
            let out = command_outcome(before.problem, before.revision as u64, next, limits);
            let after = run_of(commands.push(next), limits);
            &&& after.problem == out.problem && after.revision == out.revision && after.ending
                == out.ending
            &&& out.frame matches Some(f) ==> after.frames == before.frames.push(f)
            &&& out.frame is None ==> after.frames == before.frames
        }),
{
    assert(commands.push(next).drop_last() =~= commands);
}

}
