//! What the edits of a live model do: which parts of the model change, and which
//! stay as they were.

use crate::fields::{
    finite_numbers, finite_rows, flag_field, index_field, indexed, number_field, numbers_field,
    string_field,
};
use crate::json::Json;
use crate::model::{model_error, valid, well_shaped, Limits, Model};
use crate::number::{infinity, zero, Double};
use crate::stream::{
    add_constraint, add_variable, command_outcome, described_model, edit_of, edits_keep_the_shape,
    operation, remove_constraint, remove_variable, session_run, set_coefficient, set_constraint,
    set_integer, set_objective, set_rhs, set_sense, set_upper_bound, set_variable, Ending, Frame,
    StreamCommand,
};
use vstd::prelude::*;
use vstd::string::*;

verus! {

// What a command gives.

/// Whether a field holds an index.
pub open spec fn gives_index(command: Json, key: Seq<char>, i: usize) -> bool {
    command.field(key) matches Some(Json::Number(n)) && n.unsigned == Some(i as u64)
}

/// Whether a field holds a finite number, or is absent.
pub open spec fn gives_number(command: Json, key: Seq<char>, x: Option<Double>) -> bool {
    match x {
        Some(x) => x.finite() && (command.field(key) matches Some(Json::Number(n)) && n.value == x),
        None => command.field(key) is None,
    }
}

/// Whether a field holds a truth value, or is absent.
pub open spec fn gives_flag(command: Json, key: Seq<char>, x: Option<bool>) -> bool {
    match x {
        Some(x) => command.field(key) == Some(Json::Bool(x)),
        None => command.field(key) is None,
    }
}

/// Whether a field holds a text, or is absent.
pub open spec fn gives_text(command: Json, key: Seq<char>, x: Option<Seq<char>>) -> bool {
    match x {
        Some(x) => command.field(key) matches Some(Json::Text(s)) && s@ == x,
        None => command.field(key) is None,
    }
}

/// Whether a value is a list of finite numbers.
pub open spec fn holds_numbers(value: Json, x: Seq<Double>) -> bool {
    value matches Json::Array(items) && items@.len() == x.len() && forall|k: int|
        0 <= k < x.len() ==> (#[trigger] items@[k]) is Number && items@[k]->Number_0.value == x[k]
            && x[k].finite()
}

/// Whether a field holds a list of finite numbers, or is absent.
pub open spec fn gives_numbers(command: Json, key: Seq<char>, x: Option<Seq<Double>>) -> bool {
    match x {
        Some(x) => command.field(key) is Some && holds_numbers(command.field(key)->0, x),
        None => command.field(key) is None,
    }
}

proof fn numbers_are_read(items: Seq<Json>, x: Seq<Double>, label: Seq<char>)
    requires
        items.len() == x.len(),
        forall|k: int|
            0 <= k < x.len() ==> (#[trigger] items[k]) is Number && items[k]->Number_0.value
                == x[k] && x[k].finite(),
    ensures
        finite_numbers(items, label) == Ok::<Seq<Double>, Seq<char>>(x),
    decreases items.len(),
{
    if items.len() > 0 {
        let front = items.drop_last();
        assert forall|k: int| 0 <= k < front.len() implies (#[trigger] front[k]) is Number
            && front[k]->Number_0.value == x.drop_last()[k] && x.drop_last()[k].finite() by {
            assert(items[k] is Number);
        }
        numbers_are_read(front, x.drop_last(), label);
        assert(items[items.len() - 1] is Number);
        assert(x.drop_last().push(x.last()) =~= x);
    } else {
        assert(x =~= Seq::empty());
    }
}

proof fn fields_are_read(
    command: Json,
    key: Seq<char>,
    i: usize,
    number: Option<Double>,
    flag: Option<bool>,
    text: Option<Seq<char>>,
    numbers: Option<Seq<Double>>,
    fallback: Double,
    unset: bool,
)
    ensures
        gives_index(command, key, i) ==> index_field(command, key) == Ok::<Option<usize>, Seq<char>>(
            Some(i),
        ),
        gives_number(command, key, number) ==> number_field(command, key, fallback) == Ok::<
            Double,
            Seq<char>,
        >(
            match number {
                Some(x) => x,
                None => fallback,
            },
        ),
        gives_flag(command, key, flag) ==> flag_field(command, key, unset) == Ok::<bool, Seq<char>>(
            match flag {
                Some(x) => x,
                None => unset,
            },
        ),
        gives_text(command, key, text) ==> string_field(command, key) == Ok::<
            Option<Seq<char>>,
            Seq<char>,
        >(text),
        gives_numbers(command, key, numbers) ==> numbers_field(command, key) == Ok::<
            Option<Seq<Double>>,
            Seq<char>,
        >(numbers),
{
    if gives_numbers(command, key, numbers) && numbers is Some {
        numbers_are_read(command.field(key)->0->Array_0@, numbers->0, key);
    }
}

// The operations, by their names.

proof fn add_constraint_is_named(m: Model, command: Json)
    ensures
        edit_of("add_constraint"@, m, command) == Some(add_constraint(m, command)),
        "add_constraint"@ != "init"@,
        "add_constraint"@ != "snapshot"@,
{
    reveal_strlit("add_constraint");
    reveal_strlit("init");
    reveal_strlit("snapshot");
    assert("add_constraint"@.len() != "init"@.len());
    assert("add_constraint"@.len() != "snapshot"@.len());
}

proof fn set_constraint_is_named(m: Model, command: Json)
    ensures
        edit_of("set_constraint"@, m, command) == Some(set_constraint(m, command)),
        edit_of("modify_constraint"@, m, command) == Some(set_constraint(m, command)),
        edit_of("change_constraint_weights"@, m, command) == Some(set_constraint(m, command)),
        edit_of("set_constraint_weights"@, m, command) == Some(set_constraint(m, command)),
        "set_constraint"@ != "init"@,
        "set_constraint"@ != "snapshot"@,
        "modify_constraint"@ != "init"@,
        "modify_constraint"@ != "snapshot"@,
        "change_constraint_weights"@ != "init"@,
        "change_constraint_weights"@ != "snapshot"@,
        "set_constraint_weights"@ != "init"@,
        "set_constraint_weights"@ != "snapshot"@,
{
    reveal_strlit("add_constraint");
    reveal_strlit("change_constraint_weights");
    reveal_strlit("init");
    reveal_strlit("modify_constraint");
    reveal_strlit("set_constraint");
    reveal_strlit("set_constraint_weights");
    reveal_strlit("snapshot");
    assert("set_constraint"@[0] != "add_constraint"@[0]);
    assert("set_constraint"@.len() != "init"@.len());
    assert("set_constraint"@.len() != "snapshot"@.len());
    assert("modify_constraint"@.len() != "add_constraint"@.len());
    assert("modify_constraint"@.len() != "init"@.len());
    assert("modify_constraint"@.len() != "snapshot"@.len());
    assert("change_constraint_weights"@.len() != "add_constraint"@.len());
    assert("change_constraint_weights"@.len() != "init"@.len());
    assert("change_constraint_weights"@.len() != "snapshot"@.len());
    assert("set_constraint_weights"@.len() != "add_constraint"@.len());
    assert("set_constraint_weights"@.len() != "init"@.len());
    assert("set_constraint_weights"@.len() != "snapshot"@.len());
}

proof fn remove_constraint_is_named(m: Model, command: Json)
    ensures
        edit_of("remove_constraint"@, m, command) == Some(remove_constraint(m, command)),
        edit_of("rm_constraint"@, m, command) == Some(remove_constraint(m, command)),
        "remove_constraint"@ != "init"@,
        "remove_constraint"@ != "snapshot"@,
        "rm_constraint"@ != "init"@,
        "rm_constraint"@ != "snapshot"@,
{
    reveal_strlit("add_constraint");
    reveal_strlit("change_constraint_weights");
    reveal_strlit("init");
    reveal_strlit("modify_constraint");
    reveal_strlit("remove_constraint");
    reveal_strlit("rm_constraint");
    reveal_strlit("set_constraint");
    reveal_strlit("set_constraint_weights");
    reveal_strlit("snapshot");
    assert("remove_constraint"@.len() != "add_constraint"@.len());
    assert("remove_constraint"@.len() != "set_constraint"@.len());
    assert("remove_constraint"@[0] != "modify_constraint"@[0]);
    assert("remove_constraint"@.len() != "change_constraint_weights"@.len());
    assert("remove_constraint"@.len() != "set_constraint_weights"@.len());
    assert("remove_constraint"@.len() != "init"@.len());
    assert("remove_constraint"@.len() != "snapshot"@.len());
    assert("rm_constraint"@.len() != "add_constraint"@.len());
    assert("rm_constraint"@.len() != "set_constraint"@.len());
    assert("rm_constraint"@.len() != "modify_constraint"@.len());
    assert("rm_constraint"@.len() != "change_constraint_weights"@.len());
    assert("rm_constraint"@.len() != "set_constraint_weights"@.len());
    assert("rm_constraint"@.len() != "init"@.len());
    assert("rm_constraint"@.len() != "snapshot"@.len());
}

proof fn set_rhs_is_named(m: Model, command: Json)
    ensures
        edit_of("set_rhs"@, m, command) == Some(set_rhs(m, command)),
        "set_rhs"@ != "init"@,
        "set_rhs"@ != "snapshot"@,
{
    reveal_strlit("add_constraint");
    reveal_strlit("change_constraint_weights");
    reveal_strlit("init");
    reveal_strlit("modify_constraint");
    reveal_strlit("remove_constraint");
    reveal_strlit("rm_constraint");
    reveal_strlit("set_constraint");
    reveal_strlit("set_constraint_weights");
    reveal_strlit("set_rhs");
    reveal_strlit("snapshot");
    assert("set_rhs"@.len() != "add_constraint"@.len());
    assert("set_rhs"@.len() != "set_constraint"@.len());
    assert("set_rhs"@.len() != "modify_constraint"@.len());
    assert("set_rhs"@.len() != "change_constraint_weights"@.len());
    assert("set_rhs"@.len() != "set_constraint_weights"@.len());
    assert("set_rhs"@.len() != "remove_constraint"@.len());
    assert("set_rhs"@.len() != "rm_constraint"@.len());
    assert("set_rhs"@.len() != "init"@.len());
    assert("set_rhs"@.len() != "snapshot"@.len());
}

proof fn set_coefficient_is_named(m: Model, command: Json)
    ensures
        edit_of("set_coefficient"@, m, command) == Some(set_coefficient(m, command)),
        edit_of("set_constraint_weight"@, m, command) == Some(set_coefficient(m, command)),
        edit_of("change_constraint_weight"@, m, command) == Some(set_coefficient(m, command)),
        "set_coefficient"@ != "init"@,
        "set_coefficient"@ != "snapshot"@,
        "set_constraint_weight"@ != "init"@,
        "set_constraint_weight"@ != "snapshot"@,
        "change_constraint_weight"@ != "init"@,
        "change_constraint_weight"@ != "snapshot"@,
{
    reveal_strlit("add_constraint");
    reveal_strlit("change_constraint_weight");
    reveal_strlit("change_constraint_weights");
    reveal_strlit("init");
    reveal_strlit("modify_constraint");
    reveal_strlit("remove_constraint");
    reveal_strlit("rm_constraint");
    reveal_strlit("set_coefficient");
    reveal_strlit("set_constraint");
    reveal_strlit("set_constraint_weight");
    reveal_strlit("set_constraint_weights");
    reveal_strlit("set_rhs");
    reveal_strlit("snapshot");
    assert("set_coefficient"@.len() != "add_constraint"@.len());
    assert("set_coefficient"@.len() != "set_constraint"@.len());
    assert("set_coefficient"@.len() != "modify_constraint"@.len());
    assert("set_coefficient"@.len() != "change_constraint_weights"@.len());
    assert("set_coefficient"@.len() != "set_constraint_weights"@.len());
    assert("set_coefficient"@.len() != "remove_constraint"@.len());
    assert("set_coefficient"@.len() != "rm_constraint"@.len());
    assert("set_coefficient"@.len() != "set_rhs"@.len());
    assert("set_coefficient"@.len() != "init"@.len());
    assert("set_coefficient"@.len() != "snapshot"@.len());
    assert("set_constraint_weight"@.len() != "add_constraint"@.len());
    assert("set_constraint_weight"@.len() != "set_constraint"@.len());
    assert("set_constraint_weight"@.len() != "modify_constraint"@.len());
    assert("set_constraint_weight"@.len() != "change_constraint_weights"@.len());
    assert("set_constraint_weight"@.len() != "set_constraint_weights"@.len());
    assert("set_constraint_weight"@.len() != "remove_constraint"@.len());
    assert("set_constraint_weight"@.len() != "rm_constraint"@.len());
    assert("set_constraint_weight"@.len() != "set_rhs"@.len());
    assert("set_constraint_weight"@.len() != "init"@.len());
    assert("set_constraint_weight"@.len() != "snapshot"@.len());
    assert("change_constraint_weight"@.len() != "add_constraint"@.len());
    assert("change_constraint_weight"@.len() != "set_constraint"@.len());
    assert("change_constraint_weight"@.len() != "modify_constraint"@.len());
    assert("change_constraint_weight"@.len() != "change_constraint_weights"@.len());
    assert("change_constraint_weight"@.len() != "set_constraint_weights"@.len());
    assert("change_constraint_weight"@.len() != "remove_constraint"@.len());
    assert("change_constraint_weight"@.len() != "rm_constraint"@.len());
    assert("change_constraint_weight"@.len() != "set_rhs"@.len());
    assert("change_constraint_weight"@.len() != "init"@.len());
    assert("change_constraint_weight"@.len() != "snapshot"@.len());
}

proof fn add_variable_is_named(m: Model, command: Json)
    ensures
        edit_of("add_variable"@, m, command) == Some(add_variable(m, command)),
        "add_variable"@ != "init"@,
        "add_variable"@ != "snapshot"@,
{
    reveal_strlit("add_constraint");
    reveal_strlit("add_variable");
    reveal_strlit("change_constraint_weight");
    reveal_strlit("change_constraint_weights");
    reveal_strlit("init");
    reveal_strlit("modify_constraint");
    reveal_strlit("remove_constraint");
    reveal_strlit("rm_constraint");
    reveal_strlit("set_coefficient");
    reveal_strlit("set_constraint");
    reveal_strlit("set_constraint_weight");
    reveal_strlit("set_constraint_weights");
    reveal_strlit("set_rhs");
    reveal_strlit("snapshot");
    assert("add_variable"@.len() != "add_constraint"@.len());
    assert("add_variable"@.len() != "set_constraint"@.len());
    assert("add_variable"@.len() != "modify_constraint"@.len());
    assert("add_variable"@.len() != "change_constraint_weights"@.len());
    assert("add_variable"@.len() != "set_constraint_weights"@.len());
    assert("add_variable"@.len() != "remove_constraint"@.len());
    assert("add_variable"@.len() != "rm_constraint"@.len());
    assert("add_variable"@.len() != "set_rhs"@.len());
    assert("add_variable"@.len() != "set_coefficient"@.len());
    assert("add_variable"@.len() != "set_constraint_weight"@.len());
    assert("add_variable"@.len() != "change_constraint_weight"@.len());
    assert("add_variable"@.len() != "init"@.len());
    assert("add_variable"@.len() != "snapshot"@.len());
}

proof fn set_variable_is_named(m: Model, command: Json)
    ensures
        edit_of("set_variable"@, m, command) == Some(set_variable(m, command)),
        edit_of("modify_variable"@, m, command) == Some(set_variable(m, command)),
        "set_variable"@ != "init"@,
        "set_variable"@ != "snapshot"@,
        "modify_variable"@ != "init"@,
        "modify_variable"@ != "snapshot"@,
{
    reveal_strlit("add_constraint");
    reveal_strlit("add_variable");
    reveal_strlit("change_constraint_weight");
    reveal_strlit("change_constraint_weights");
    reveal_strlit("init");
    reveal_strlit("modify_constraint");
    reveal_strlit("modify_variable");
    reveal_strlit("remove_constraint");
    reveal_strlit("rm_constraint");
    reveal_strlit("set_coefficient");
    reveal_strlit("set_constraint");
    reveal_strlit("set_constraint_weight");
    reveal_strlit("set_constraint_weights");
    reveal_strlit("set_rhs");
    reveal_strlit("set_variable");
    reveal_strlit("snapshot");
    assert("set_variable"@.len() != "add_constraint"@.len());
    assert("set_variable"@.len() != "set_constraint"@.len());
    assert("set_variable"@.len() != "modify_constraint"@.len());
    assert("set_variable"@.len() != "change_constraint_weights"@.len());
    assert("set_variable"@.len() != "set_constraint_weights"@.len());
    assert("set_variable"@.len() != "remove_constraint"@.len());
    assert("set_variable"@.len() != "rm_constraint"@.len());
    assert("set_variable"@.len() != "set_rhs"@.len());
    assert("set_variable"@.len() != "set_coefficient"@.len());
    assert("set_variable"@.len() != "set_constraint_weight"@.len());
    assert("set_variable"@.len() != "change_constraint_weight"@.len());
    assert("set_variable"@[0] != "add_variable"@[0]);
    assert("set_variable"@.len() != "init"@.len());
    assert("set_variable"@.len() != "snapshot"@.len());
    assert("modify_variable"@.len() != "add_constraint"@.len());
    assert("modify_variable"@.len() != "set_constraint"@.len());
    assert("modify_variable"@.len() != "modify_constraint"@.len());
    assert("modify_variable"@.len() != "change_constraint_weights"@.len());
    assert("modify_variable"@.len() != "set_constraint_weights"@.len());
    assert("modify_variable"@.len() != "remove_constraint"@.len());
    assert("modify_variable"@.len() != "rm_constraint"@.len());
    assert("modify_variable"@.len() != "set_rhs"@.len());
    assert("modify_variable"@[0] != "set_coefficient"@[0]);
    assert("modify_variable"@.len() != "set_constraint_weight"@.len());
    assert("modify_variable"@.len() != "change_constraint_weight"@.len());
    assert("modify_variable"@.len() != "add_variable"@.len());
    assert("modify_variable"@.len() != "init"@.len());
    assert("modify_variable"@.len() != "snapshot"@.len());
}

proof fn remove_variable_is_named(m: Model, command: Json)
    ensures
        edit_of("remove_variable"@, m, command) == Some(remove_variable(m, command)),
        edit_of("rm_variable"@, m, command) == Some(remove_variable(m, command)),
        "remove_variable"@ != "init"@,
        "remove_variable"@ != "snapshot"@,
        "rm_variable"@ != "init"@,
        "rm_variable"@ != "snapshot"@,
{
    reveal_strlit("add_constraint");
    reveal_strlit("add_variable");
    reveal_strlit("change_constraint_weight");
    reveal_strlit("change_constraint_weights");
    reveal_strlit("init");
    reveal_strlit("modify_constraint");
    reveal_strlit("modify_variable");
    reveal_strlit("remove_constraint");
    reveal_strlit("remove_variable");
    reveal_strlit("rm_constraint");
    reveal_strlit("rm_variable");
    reveal_strlit("set_coefficient");
    reveal_strlit("set_constraint");
    reveal_strlit("set_constraint_weight");
    reveal_strlit("set_constraint_weights");
    reveal_strlit("set_rhs");
    reveal_strlit("set_variable");
    reveal_strlit("snapshot");
    assert("remove_variable"@.len() != "add_constraint"@.len());
    assert("remove_variable"@.len() != "set_constraint"@.len());
    assert("remove_variable"@.len() != "modify_constraint"@.len());
    assert("remove_variable"@.len() != "change_constraint_weights"@.len());
    assert("remove_variable"@.len() != "set_constraint_weights"@.len());
    assert("remove_variable"@.len() != "remove_constraint"@.len());
    assert("remove_variable"@.len() != "rm_constraint"@.len());
    assert("remove_variable"@.len() != "set_rhs"@.len());
    assert("remove_variable"@[0] != "set_coefficient"@[0]);
    assert("remove_variable"@.len() != "set_constraint_weight"@.len());
    assert("remove_variable"@.len() != "change_constraint_weight"@.len());
    assert("remove_variable"@.len() != "add_variable"@.len());
    assert("remove_variable"@.len() != "set_variable"@.len());
    assert("remove_variable"@[0] != "modify_variable"@[0]);
    assert("remove_variable"@.len() != "init"@.len());
    assert("remove_variable"@.len() != "snapshot"@.len());
    assert("rm_variable"@.len() != "add_constraint"@.len());
    assert("rm_variable"@.len() != "set_constraint"@.len());
    assert("rm_variable"@.len() != "modify_constraint"@.len());
    assert("rm_variable"@.len() != "change_constraint_weights"@.len());
    assert("rm_variable"@.len() != "set_constraint_weights"@.len());
    assert("rm_variable"@.len() != "remove_constraint"@.len());
    assert("rm_variable"@.len() != "rm_constraint"@.len());
    assert("rm_variable"@.len() != "set_rhs"@.len());
    assert("rm_variable"@.len() != "set_coefficient"@.len());
    assert("rm_variable"@.len() != "set_constraint_weight"@.len());
    assert("rm_variable"@.len() != "change_constraint_weight"@.len());
    assert("rm_variable"@.len() != "add_variable"@.len());
    assert("rm_variable"@.len() != "set_variable"@.len());
    assert("rm_variable"@.len() != "modify_variable"@.len());
    assert("rm_variable"@.len() != "init"@.len());
    assert("rm_variable"@.len() != "snapshot"@.len());
}

proof fn set_objective_is_named(m: Model, command: Json)
    ensures
        edit_of("set_objective"@, m, command) == Some(set_objective(m, command)),
        "set_objective"@ != "init"@,
        "set_objective"@ != "snapshot"@,
{
    reveal_strlit("add_constraint");
    reveal_strlit("add_variable");
    reveal_strlit("change_constraint_weight");
    reveal_strlit("change_constraint_weights");
    reveal_strlit("init");
    reveal_strlit("modify_constraint");
    reveal_strlit("modify_variable");
    reveal_strlit("remove_constraint");
    reveal_strlit("remove_variable");
    reveal_strlit("rm_constraint");
    reveal_strlit("rm_variable");
    reveal_strlit("set_coefficient");
    reveal_strlit("set_constraint");
    reveal_strlit("set_constraint_weight");
    reveal_strlit("set_constraint_weights");
    reveal_strlit("set_objective");
    reveal_strlit("set_rhs");
    reveal_strlit("set_variable");
    reveal_strlit("snapshot");
    assert("set_objective"@.len() != "add_constraint"@.len());
    assert("set_objective"@.len() != "set_constraint"@.len());
    assert("set_objective"@.len() != "modify_constraint"@.len());
    assert("set_objective"@.len() != "change_constraint_weights"@.len());
    assert("set_objective"@.len() != "set_constraint_weights"@.len());
    assert("set_objective"@.len() != "remove_constraint"@.len());
    assert("set_objective"@[0] != "rm_constraint"@[0]);
    assert("set_objective"@.len() != "set_rhs"@.len());
    assert("set_objective"@.len() != "set_coefficient"@.len());
    assert("set_objective"@.len() != "set_constraint_weight"@.len());
    assert("set_objective"@.len() != "change_constraint_weight"@.len());
    assert("set_objective"@.len() != "add_variable"@.len());
    assert("set_objective"@.len() != "set_variable"@.len());
    assert("set_objective"@.len() != "modify_variable"@.len());
    assert("set_objective"@.len() != "remove_variable"@.len());
    assert("set_objective"@.len() != "rm_variable"@.len());
    assert("set_objective"@.len() != "init"@.len());
    assert("set_objective"@.len() != "snapshot"@.len());
}

proof fn set_integer_is_named(m: Model, command: Json)
    ensures
        edit_of("set_integer"@, m, command) == Some(set_integer(m, command)),
        "set_integer"@ != "init"@,
        "set_integer"@ != "snapshot"@,
{
    reveal_strlit("add_constraint");
    reveal_strlit("add_variable");
    reveal_strlit("change_constraint_weight");
    reveal_strlit("change_constraint_weights");
    reveal_strlit("init");
    reveal_strlit("modify_constraint");
    reveal_strlit("modify_variable");
    reveal_strlit("remove_constraint");
    reveal_strlit("remove_variable");
    reveal_strlit("rm_constraint");
    reveal_strlit("rm_variable");
    reveal_strlit("set_coefficient");
    reveal_strlit("set_constraint");
    reveal_strlit("set_constraint_weight");
    reveal_strlit("set_constraint_weights");
    reveal_strlit("set_integer");
    reveal_strlit("set_objective");
    reveal_strlit("set_rhs");
    reveal_strlit("set_variable");
    reveal_strlit("snapshot");
    assert("set_integer"@.len() != "add_constraint"@.len());
    assert("set_integer"@.len() != "set_constraint"@.len());
    assert("set_integer"@.len() != "modify_constraint"@.len());
    assert("set_integer"@.len() != "change_constraint_weights"@.len());
    assert("set_integer"@.len() != "set_constraint_weights"@.len());
    assert("set_integer"@.len() != "remove_constraint"@.len());
    assert("set_integer"@.len() != "rm_constraint"@.len());
    assert("set_integer"@.len() != "set_rhs"@.len());
    assert("set_integer"@.len() != "set_coefficient"@.len());
    assert("set_integer"@.len() != "set_constraint_weight"@.len());
    assert("set_integer"@.len() != "change_constraint_weight"@.len());
    assert("set_integer"@.len() != "add_variable"@.len());
    assert("set_integer"@.len() != "set_variable"@.len());
    assert("set_integer"@.len() != "modify_variable"@.len());
    assert("set_integer"@.len() != "remove_variable"@.len());
    assert("set_integer"@[0] != "rm_variable"@[0]);
    assert("set_integer"@.len() != "set_objective"@.len());
    assert("set_integer"@.len() != "init"@.len());
    assert("set_integer"@.len() != "snapshot"@.len());
}

proof fn set_upper_bound_is_named(m: Model, command: Json)
    ensures
        edit_of("set_upper_bound"@, m, command) == Some(set_upper_bound(m, command)),
        edit_of("set_ub"@, m, command) == Some(set_upper_bound(m, command)),
        "set_upper_bound"@ != "init"@,
        "set_upper_bound"@ != "snapshot"@,
        "set_ub"@ != "init"@,
        "set_ub"@ != "snapshot"@,
{
    reveal_strlit("add_constraint");
    reveal_strlit("add_variable");
    reveal_strlit("change_constraint_weight");
    reveal_strlit("change_constraint_weights");
    reveal_strlit("init");
    reveal_strlit("modify_constraint");
    reveal_strlit("modify_variable");
    reveal_strlit("remove_constraint");
    reveal_strlit("remove_variable");
    reveal_strlit("rm_constraint");
    reveal_strlit("rm_variable");
    reveal_strlit("set_coefficient");
    reveal_strlit("set_constraint");
    reveal_strlit("set_constraint_weight");
    reveal_strlit("set_constraint_weights");
    reveal_strlit("set_integer");
    reveal_strlit("set_objective");
    reveal_strlit("set_rhs");
    reveal_strlit("set_ub");
    reveal_strlit("set_upper_bound");
    reveal_strlit("set_variable");
    reveal_strlit("snapshot");
    assert("set_upper_bound"@.len() != "add_constraint"@.len());
    assert("set_upper_bound"@.len() != "set_constraint"@.len());
    assert("set_upper_bound"@.len() != "modify_constraint"@.len());
    assert("set_upper_bound"@.len() != "change_constraint_weights"@.len());
    assert("set_upper_bound"@.len() != "set_constraint_weights"@.len());
    assert("set_upper_bound"@.len() != "remove_constraint"@.len());
    assert("set_upper_bound"@.len() != "rm_constraint"@.len());
    assert("set_upper_bound"@.len() != "set_rhs"@.len());
    assert("set_upper_bound"@[4] != "set_coefficient"@[4]);
    assert("set_upper_bound"@.len() != "set_constraint_weight"@.len());
    assert("set_upper_bound"@.len() != "change_constraint_weight"@.len());
    assert("set_upper_bound"@.len() != "add_variable"@.len());
    assert("set_upper_bound"@.len() != "set_variable"@.len());
    assert("set_upper_bound"@[0] != "modify_variable"@[0]);
    assert("set_upper_bound"@[0] != "remove_variable"@[0]);
    assert("set_upper_bound"@.len() != "rm_variable"@.len());
    assert("set_upper_bound"@.len() != "set_objective"@.len());
    assert("set_upper_bound"@.len() != "set_integer"@.len());
    assert("set_upper_bound"@.len() != "init"@.len());
    assert("set_upper_bound"@.len() != "snapshot"@.len());
    assert("set_ub"@.len() != "add_constraint"@.len());
    assert("set_ub"@.len() != "set_constraint"@.len());
    assert("set_ub"@.len() != "modify_constraint"@.len());
    assert("set_ub"@.len() != "change_constraint_weights"@.len());
    assert("set_ub"@.len() != "set_constraint_weights"@.len());
    assert("set_ub"@.len() != "remove_constraint"@.len());
    assert("set_ub"@.len() != "rm_constraint"@.len());
    assert("set_ub"@.len() != "set_rhs"@.len());
    assert("set_ub"@.len() != "set_coefficient"@.len());
    assert("set_ub"@.len() != "set_constraint_weight"@.len());
    assert("set_ub"@.len() != "change_constraint_weight"@.len());
    assert("set_ub"@.len() != "add_variable"@.len());
    assert("set_ub"@.len() != "set_variable"@.len());
    assert("set_ub"@.len() != "modify_variable"@.len());
    assert("set_ub"@.len() != "remove_variable"@.len());
    assert("set_ub"@.len() != "rm_variable"@.len());
    assert("set_ub"@.len() != "set_objective"@.len());
    assert("set_ub"@.len() != "set_integer"@.len());
    assert("set_ub"@.len() != "init"@.len());
    assert("set_ub"@.len() != "snapshot"@.len());
}

proof fn set_sense_is_named(m: Model, command: Json)
    ensures
        edit_of("set_sense"@, m, command) == Some(set_sense(m, command)),
        "set_sense"@ != "init"@,
        "set_sense"@ != "snapshot"@,
{
    reveal_strlit("add_constraint");
    reveal_strlit("add_variable");
    reveal_strlit("change_constraint_weight");
    reveal_strlit("change_constraint_weights");
    reveal_strlit("init");
    reveal_strlit("modify_constraint");
    reveal_strlit("modify_variable");
    reveal_strlit("remove_constraint");
    reveal_strlit("remove_variable");
    reveal_strlit("rm_constraint");
    reveal_strlit("rm_variable");
    reveal_strlit("set_coefficient");
    reveal_strlit("set_constraint");
    reveal_strlit("set_constraint_weight");
    reveal_strlit("set_constraint_weights");
    reveal_strlit("set_integer");
    reveal_strlit("set_objective");
    reveal_strlit("set_rhs");
    reveal_strlit("set_sense");
    reveal_strlit("set_ub");
    reveal_strlit("set_upper_bound");
    reveal_strlit("set_variable");
    reveal_strlit("snapshot");
    assert("set_sense"@.len() != "add_constraint"@.len());
    assert("set_sense"@.len() != "set_constraint"@.len());
    assert("set_sense"@.len() != "modify_constraint"@.len());
    assert("set_sense"@.len() != "change_constraint_weights"@.len());
    assert("set_sense"@.len() != "set_constraint_weights"@.len());
    assert("set_sense"@.len() != "remove_constraint"@.len());
    assert("set_sense"@.len() != "rm_constraint"@.len());
    assert("set_sense"@.len() != "set_rhs"@.len());
    assert("set_sense"@.len() != "set_coefficient"@.len());
    assert("set_sense"@.len() != "set_constraint_weight"@.len());
    assert("set_sense"@.len() != "change_constraint_weight"@.len());
    assert("set_sense"@.len() != "add_variable"@.len());
    assert("set_sense"@.len() != "set_variable"@.len());
    assert("set_sense"@.len() != "modify_variable"@.len());
    assert("set_sense"@.len() != "remove_variable"@.len());
    assert("set_sense"@.len() != "rm_variable"@.len());
    assert("set_sense"@.len() != "set_objective"@.len());
    assert("set_sense"@.len() != "set_integer"@.len());
    assert("set_sense"@.len() != "set_upper_bound"@.len());
    assert("set_sense"@.len() != "set_ub"@.len());
    assert("set_sense"@.len() != "init"@.len());
    assert("set_sense"@.len() != "snapshot"@.len());
}

// What each edit does.

/// Whether two models agree in all that belongs to rows.
pub open spec fn same_rows(a: Model, b: Model) -> bool {
    a.a == b.a && a.b == b.b && a.con_names == b.con_names
}

/// Whether two models agree in all that belongs to single variables, but for the
/// coefficients of rows.
pub open spec fn same_variables(a: Model, b: Model) -> bool {
    a.c == b.c && a.integer_vars == b.integer_vars && a.ub == b.ub && a.var_names == b.var_names
}

/// A new row stands behind the others with the coefficients, the right-hand side
/// and the name that are given (zero and a made-up name where none is), and nothing
/// else changes.
pub proof fn rows_are_added(
    m: Model,
    command: Json,
    coefs: Seq<Double>,
    rhs: Option<Double>,
    name: Option<Seq<char>>,
)
    requires
        well_shaped(m),
        coefs.len() == m.c.len(),
        gives_numbers(command, "coefs"@, Some(coefs)),
        gives_number(command, "rhs"@, rhs),
        gives_text(command, "name"@, name),
    ensures
        ({
            let e = edit_of("add_constraint"@, m, command)->0;
            let r = e.model;
            let n = m.a.len() as int;
            &&& edit_of("add_constraint"@, m, command) is Some
            &&& e.ending is Applied
            &&& r.a.len() == n + 1 && r.b.len() == n + 1
            &&& r.a[n] == coefs
            &&& r.b[n] == if rhs is Some {
                rhs->0
            } else {
                zero()
            }
            &&& forall|i: int| 0 <= i < n ==> #[trigger] r.a[i] == m.a[i]
            &&& forall|i: int| 0 <= i < n ==> #[trigger] r.b[i] == m.b[i]
            &&& (r.con_names is Some) == (m.con_names is Some)
            &&& m.con_names is Some ==> {
                &&& r.con_names->0.len() == n + 1
                &&& forall|i: int| 0 <= i < n ==> #[trigger] r.con_names->0[i] == m.con_names->0[i]
                &&& name is Some ==> r.con_names->0[n] == name->0
            }
            &&& same_variables(r, m)
            &&& r.sense == m.sense
        }),
{
    add_constraint_is_named(m, command);
    fields_are_read(command, "coefs"@, 0, None, None, None, Some(coefs), zero(), false);
    fields_are_read(command, "rhs"@, 0, rhs, None, None, None, zero(), false);
    fields_are_read(command, "name"@, 0, None, None, name, None, zero(), false);
}

/// A row that is removed goes with its right-hand side and its name; the rows behind
/// it move up, each with its own, and nothing else changes.
pub proof fn rows_are_removed(m: Model, command: Json, i: usize)
    requires
        well_shaped(m),
        i < m.a.len(),
        gives_index(command, "index"@, i),
    ensures
        ({
            let e = edit_of("remove_constraint"@, m, command)->0;
            let r = e.model;
            &&& edit_of("remove_constraint"@, m, command) is Some
            &&& edit_of("rm_constraint"@, m, command) == edit_of("remove_constraint"@, m, command)
            &&& e.ending is Applied
            &&& r.a.len() + 1 == m.a.len() && r.b.len() + 1 == m.b.len()
            &&& forall|j: int|
                0 <= j < r.a.len() ==> {
                    let k = if j < i {
                        j
                    } else {
                        j + 1
                    };
                    &&& #[trigger] r.a[j] == m.a[k]
                    &&& r.b[j] == m.b[k]
                    &&& m.con_names is Some ==> r.con_names->0[j] == m.con_names->0[k]
                }
            &&& (r.con_names is Some) == (m.con_names is Some)
            &&& same_variables(r, m)
            &&& r.sense == m.sense
        }),
{
    remove_constraint_is_named(m, command);
    fields_are_read(command, "index"@, i, None, None, None, None, zero(), false);
}

/// A row takes the coefficients, the right-hand side and the name that are given,
/// and keeps the others; no other row changes, and nothing else does.
pub proof fn rows_are_changed(
    m: Model,
    command: Json,
    i: usize,
    coefs: Option<Seq<Double>>,
    rhs: Option<Double>,
    name: Option<Seq<char>>,
)
    requires
        well_shaped(m),
        i < m.a.len(),
        coefs is Some ==> coefs->0.len() == m.c.len(),
        gives_index(command, "index"@, i),
        gives_numbers(command, "coefs"@, coefs),
        gives_number(command, "rhs"@, rhs),
        gives_text(command, "name"@, name),
    ensures
        ({
            let e = edit_of("set_constraint"@, m, command)->0;
            let r = e.model;
            &&& edit_of("set_constraint"@, m, command) is Some
            &&& edit_of("modify_constraint"@, m, command) == edit_of("set_constraint"@, m, command)
            &&& edit_of("set_constraint_weights"@, m, command) == edit_of(
                "set_constraint"@,
                m,
                command,
            )
            &&& e.ending is Applied
            &&& r.a.len() == m.a.len() && r.b.len() == m.b.len()
            &&& forall|j: int|
                0 <= j < m.a.len() ==> #[trigger] r.a[j] == if j == i && coefs is Some {
                    coefs->0
                } else {
                    m.a[j]
                }
            &&& forall|j: int|
                0 <= j < m.b.len() ==> #[trigger] r.b[j] == if j == i && rhs is Some {
                    rhs->0
                } else {
                    m.b[j]
                }
            &&& (r.con_names is Some) == (m.con_names is Some)
            &&& m.con_names is Some ==> {
                &&& r.con_names->0.len() == m.con_names->0.len()
                &&& forall|j: int|
                    0 <= j < m.a.len() ==> #[trigger] r.con_names->0[j] == if j == i && name is Some {
                        name->0
                    } else {
                        m.con_names->0[j]
                    }
            }
            &&& same_variables(r, m)
            &&& r.sense == m.sense
        }),
{
    set_constraint_is_named(m, command);
    fields_are_read(command, "index"@, i, None, None, None, None, zero(), false);
    fields_are_read(command, "coefs"@, 0, None, None, None, coefs, zero(), false);
    fields_are_read(command, "rhs"@, 0, rhs, None, None, None, m.b[i as int], false);
    fields_are_read(command, "name"@, 0, None, None, name, None, zero(), false);
}

/// A right-hand side is replaced, and nothing else changes.
pub proof fn right_hand_sides_are_set(m: Model, command: Json, i: usize, rhs: Double)
    requires
        well_shaped(m),
        i < m.b.len(),
        gives_index(command, "index"@, i),
        gives_number(command, "rhs"@, Some(rhs)),
    ensures
        ({
            let e = edit_of("set_rhs"@, m, command)->0;
            let r = e.model;
            &&& edit_of("set_rhs"@, m, command) is Some
            &&& e.ending is Applied
            &&& r.b.len() == m.b.len()
            &&& r.b[i as int] == rhs
            &&& forall|j: int| 0 <= j < m.b.len() && j != i ==> #[trigger] r.b[j] == m.b[j]
            &&& r.a == m.a && r.con_names == m.con_names
            &&& same_variables(r, m)
            &&& r.sense == m.sense
        }),
{
    set_rhs_is_named(m, command);
    fields_are_read(command, "index"@, i, None, None, None, None, zero(), false);
    fields_are_read(command, "rhs"@, 0, Some(rhs), None, None, None, m.b[i as int], false);
}

/// One coefficient of one row is replaced, and nothing else changes.
pub proof fn coefficients_are_set(m: Model, command: Json, row: usize, col: usize, x: Double)
    requires
        well_shaped(m),
        row < m.a.len(),
        col < m.c.len(),
        gives_index(command, "row"@, row),
        gives_index(command, "col"@, col),
        gives_number(command, "value"@, Some(x)),
    ensures
        ({
            let e = edit_of("set_coefficient"@, m, command)->0;
            let r = e.model;
            &&& edit_of("set_coefficient"@, m, command) is Some
            &&& edit_of("set_constraint_weight"@, m, command) == edit_of(
                "set_coefficient"@,
                m,
                command,
            )
            &&& e.ending is Applied
            &&& r.a.len() == m.a.len()
            &&& r.a[row as int][col as int] == x
            &&& forall|j: int, k: int|
                0 <= j < m.a.len() && 0 <= k < m.c.len() && !(j == row && k == col)
                    ==> #[trigger] r.a[j][k] == m.a[j][k]
            &&& forall|j: int| 0 <= j < m.a.len() ==> (#[trigger] r.a[j]).len() == m.a[j].len()
            &&& r.b == m.b && r.con_names == m.con_names
            &&& same_variables(r, m)
            &&& r.sense == m.sense
        }),
{
    set_coefficient_is_named(m, command);
    assert(m.a[row as int].len() == m.c.len());
    fields_are_read(command, "row"@, row, None, None, None, None, zero(), false);
    fields_are_read(command, "col"@, col, None, None, None, None, zero(), false);
    fields_are_read(
        command,
        "value"@,
        0,
        Some(x),
        None,
        None,
        None,
        m.a[row as int][col as int],
        false,
    );
}

/// A new variable stands behind the others with the cost, the integrality, the
/// column, the bound and the name that are given; where none is given the cost and
/// the column are zero, it need not be integral, and it is unbounded. Nothing else
/// changes.
pub proof fn variables_are_added(
    m: Model,
    command: Json,
    column: Option<Seq<Double>>,
    cost: Option<Double>,
    integer: Option<bool>,
    upper: Option<Double>,
    name: Option<Seq<char>>,
)
    requires
        well_shaped(m),
        column is Some ==> column->0.len() == m.a.len(),
        gives_numbers(command, "column"@, column),
        gives_number(command, "c"@, cost),
        gives_flag(command, "integer"@, integer),
        gives_number(command, "ub"@, upper),
        gives_text(command, "name"@, name),
    ensures
        ({
            let e = edit_of("add_variable"@, m, command)->0;
            let r = e.model;
            let n = m.c.len() as int;
            &&& edit_of("add_variable"@, m, command) is Some
            &&& e.ending is Applied
            &&& r.c.len() == n + 1 && r.integer_vars.len() == n + 1
            &&& forall|j: int|
                0 <= j < n ==> #[trigger] r.c[j] == m.c[j] && r.integer_vars[j] == m.integer_vars[j]
            &&& r.c[n] == if cost is Some {
                cost->0
            } else {
                zero()
            }
            &&& r.integer_vars[n] == (integer == Some(true))
            &&& r.a.len() == m.a.len()
            &&& forall|i: int|
                0 <= i < m.a.len() ==> {
                    &&& (#[trigger] r.a[i]).len() == n + 1
                    &&& forall|j: int| 0 <= j < n ==> #[trigger] r.a[i][j] == m.a[i][j]
                    &&& r.a[i][n] == if column is Some {
                        column->0[i]
                    } else {
                        zero()
                    }
                }
            &&& (r.ub is Some) == (m.ub is Some || upper is Some)
            &&& r.ub is Some ==> {
                &&& r.ub->0.len() == n + 1
                &&& forall|j: int|
                    0 <= j < n ==> #[trigger] r.ub->0[j] == if m.ub is Some {
                        m.ub->0[j]
                    } else {
                        infinity()
                    }
                &&& r.ub->0[n] == if upper is Some {
                    upper->0
                } else {
                    infinity()
                }
            }
            &&& (r.var_names is Some) == (m.var_names is Some)
            &&& m.var_names is Some ==> {
                &&& r.var_names->0.len() == n + 1
                &&& forall|j: int| 0 <= j < n ==> #[trigger] r.var_names->0[j] == m.var_names->0[j]
                &&& name is Some ==> r.var_names->0[n] == name->0
            }
            &&& r.b == m.b && r.con_names == m.con_names && r.sense == m.sense
        }),
{
    add_variable_is_named(m, command);
    fields_are_read(command, "column"@, 0, None, None, None, column, zero(), false);
    fields_are_read(command, "c"@, 0, cost, None, None, None, zero(), false);
    fields_are_read(command, "integer"@, 0, None, integer, None, None, zero(), false);
    fields_are_read(command, "ub"@, 0, upper, None, None, None, infinity(), false);
    fields_are_read(command, "name"@, 0, None, None, name, None, zero(), false);
}

/// A variable that is removed goes with its cost, its integrality, its column, its
/// bound and its name; the variables behind it move up, each with its own, and
/// nothing else changes.
pub proof fn variables_are_removed(m: Model, command: Json, i: usize)
    requires
        well_shaped(m),
        i < m.c.len(),
        m.c.len() > 1,
        gives_index(command, "index"@, i),
    ensures
        ({
            let e = edit_of("remove_variable"@, m, command)->0;
            let r = e.model;
            &&& edit_of("remove_variable"@, m, command) is Some
            &&& edit_of("rm_variable"@, m, command) == edit_of("remove_variable"@, m, command)
            &&& e.ending is Applied
            &&& r.c.len() + 1 == m.c.len()
            &&& r.integer_vars.len() == r.c.len()
            &&& forall|j: int|
                0 <= j < r.c.len() ==> {
                    let k = if j < i {
                        j
                    } else {
                        j + 1
                    };
                    &&& #[trigger] r.c[j] == m.c[k]
                    &&& r.integer_vars[j] == m.integer_vars[k]
                    &&& m.ub is Some ==> r.ub->0[j] == m.ub->0[k]
                    &&& m.var_names is Some ==> r.var_names->0[j] == m.var_names->0[k]
                    &&& forall|row: int| 0 <= row < m.a.len() ==> #[trigger] r.a[row][j] == m.a[row][k]
                }
            &&& r.a.len() == m.a.len()
            &&& forall|row: int| 0 <= row < m.a.len() ==> (#[trigger] r.a[row]).len() == r.c.len()
            &&& (r.ub is Some) == (m.ub is Some)
            &&& (r.var_names is Some) == (m.var_names is Some)
            &&& r.b == m.b && r.con_names == m.con_names && r.sense == m.sense
        }),
{
    remove_variable_is_named(m, command);
    fields_are_read(command, "index"@, i, None, None, None, None, zero(), false);
    assert(forall|row: int| 0 <= row < m.a.len() ==> (#[trigger] m.a[row]).len() == m.c.len());
}

/// A variable takes what is given of cost, integrality, bound, column and name, and
/// keeps the rest; no other variable changes, and nothing else does.
#[verifier::rlimit(40)]
pub proof fn variables_are_changed(
    m: Model,
    command: Json,
    i: usize,
    cost: Option<Double>,
    integer: Option<bool>,
    upper: Option<Double>,
    column: Option<Seq<Double>>,
    name: Option<Seq<char>>,
)
    requires
        well_shaped(m),
        i < m.c.len(),
        column is Some ==> column->0.len() == m.a.len(),
        gives_index(command, "index"@, i),
        gives_number(command, "c"@, cost),
        gives_flag(command, "integer"@, integer),
        gives_number(command, "ub"@, upper),
        gives_numbers(command, "column"@, column),
        gives_text(command, "name"@, name),
    ensures
        ({
            let e = edit_of("set_variable"@, m, command)->0;
            let r = e.model;
            &&& edit_of("set_variable"@, m, command) is Some
            &&& edit_of("modify_variable"@, m, command) == edit_of("set_variable"@, m, command)
            &&& e.ending is Applied
            &&& r.c.len() == m.c.len() && r.integer_vars.len() == m.integer_vars.len()
            &&& forall|j: int|
                0 <= j < m.c.len() ==> #[trigger] r.c[j] == if j == i && cost is Some {
                    cost->0
                } else {
                    m.c[j]
                }
            &&& forall|j: int|
                0 <= j < m.c.len() ==> #[trigger] r.integer_vars[j] == if j == i && integer is Some {
                    integer->0
                } else {
                    m.integer_vars[j]
                }
            &&& (r.ub is Some) == (m.ub is Some || upper is Some)
            &&& r.ub is Some ==> r.ub->0.len() == m.c.len() && forall|j: int|
                0 <= j < m.c.len() ==> #[trigger] r.ub->0[j] == if j == i && upper is Some {
                    upper->0
                } else if m.ub is Some {
                    m.ub->0[j]
                } else {
                    infinity()
                }
            &&& r.a.len() == m.a.len()
            &&& forall|row: int|
                0 <= row < m.a.len() ==> (#[trigger] r.a[row]).len() == m.c.len() && forall|j: int|
                    0 <= j < m.c.len() ==> #[trigger] r.a[row][j] == if j == i && column is Some {
                        column->0[row]
                    } else {
                        m.a[row][j]
                    }
            &&& (r.var_names is Some) == (m.var_names is Some)
            &&& m.var_names is Some ==> forall|j: int|
                0 <= j < m.c.len() ==> #[trigger] r.var_names->0[j] == if j == i && name is Some {
                    name->0
                } else {
                    m.var_names->0[j]
                }
            &&& r.b == m.b && r.con_names == m.con_names && r.sense == m.sense
        }),
{
    set_variable_is_named(m, command);
    fields_are_read(command, "index"@, i, None, None, None, None, zero(), false);
    fields_are_read(command, "c"@, 0, cost, None, None, None, m.c[i as int], false);
    fields_are_read(
        command,
        "integer"@,
        0,
        None,
        integer,
        None,
        None,
        zero(),
        m.integer_vars[i as int],
    );
    fields_are_read(command, "ub"@, 0, upper, None, None, None, infinity(), false);
    fields_are_read(command, "column"@, 0, None, None, None, column, zero(), false);
    fields_are_read(command, "name"@, 0, None, None, name, None, zero(), false);
    assert(forall|row: int| 0 <= row < m.a.len() ==> (#[trigger] m.a[row]).len() == m.c.len());
}

/// The objective is replaced by the one that is given, and nothing else changes.
pub proof fn objectives_are_set(m: Model, command: Json, c: Seq<Double>)
    requires
        c.len() == m.c.len(),
        gives_numbers(command, "c"@, Some(c)),
    ensures
        ({
            let e = edit_of("set_objective"@, m, command)->0;
            &&& edit_of("set_objective"@, m, command) is Some
            &&& e.ending is Applied
            &&& e.model.c == c
            &&& same_rows(e.model, m)
            &&& e.model.integer_vars == m.integer_vars && e.model.ub == m.ub && e.model.var_names
                == m.var_names
            &&& e.model.sense == m.sense
        }),
{
    set_objective_is_named(m, command);
    fields_are_read(command, "c"@, 0, None, None, None, Some(c), zero(), false);
}

/// A variable is made integral unless the command says otherwise, and nothing else
/// changes.
pub proof fn integrality_is_set(m: Model, command: Json, i: usize, integer: Option<bool>)
    requires
        i < m.integer_vars.len(),
        gives_index(command, "index"@, i),
        gives_flag(command, "integer"@, integer),
    ensures
        ({
            let e = edit_of("set_integer"@, m, command)->0;
            let r = e.model;
            &&& edit_of("set_integer"@, m, command) is Some
            &&& e.ending is Applied
            &&& r.integer_vars.len() == m.integer_vars.len()
            &&& r.integer_vars[i as int] == (integer != Some(false))
            &&& forall|j: int|
                0 <= j < m.integer_vars.len() && j != i ==> #[trigger] r.integer_vars[j]
                    == m.integer_vars[j]
            &&& same_rows(r, m)
            &&& r.c == m.c && r.ub == m.ub && r.var_names == m.var_names && r.sense == m.sense
        }),
{
    set_integer_is_named(m, command);
    fields_are_read(command, "index"@, i, None, None, None, None, zero(), false);
    fields_are_read(command, "integer"@, 0, None, integer, None, None, zero(), true);
}

/// A variable gets the bound that is given, or none where none is; the other
/// variables keep theirs, and nothing else changes.
pub proof fn bounds_are_set(m: Model, command: Json, i: usize, upper: Option<Double>)
    requires
        well_shaped(m),
        i < m.c.len(),
        gives_index(command, "index"@, i),
        gives_number(command, "ub"@, upper),
    ensures
        ({
            let e = edit_of("set_upper_bound"@, m, command)->0;
            let r = e.model;
            &&& edit_of("set_upper_bound"@, m, command) is Some
            &&& edit_of("set_ub"@, m, command) == edit_of("set_upper_bound"@, m, command)
            &&& e.ending is Applied
            &&& r.ub is Some && r.ub->0.len() == m.c.len()
            &&& forall|j: int|
                0 <= j < m.c.len() ==> #[trigger] r.ub->0[j] == if j == i {
                    if upper is Some {
                        upper->0
                    } else {
                        infinity()
                    }
                } else if m.ub is Some {
                    m.ub->0[j]
                } else {
                    infinity()
                }
            &&& same_rows(r, m)
            &&& r.c == m.c && r.integer_vars == m.integer_vars && r.var_names == m.var_names
                && r.sense == m.sense
        }),
{
    set_upper_bound_is_named(m, command);
    fields_are_read(command, "index"@, i, None, None, None, None, zero(), false);
    fields_are_read(command, "ub"@, 0, upper, None, None, None, infinity(), false);
}

/// The sense becomes the one that is given, or `max` where none is, and nothing else
/// changes.
pub proof fn senses_are_set(m: Model, command: Json, sense: Option<Seq<char>>)
    requires
        gives_text(command, "sense"@, sense),
    ensures
        ({
            let e = edit_of("set_sense"@, m, command)->0;
            &&& edit_of("set_sense"@, m, command) is Some
            &&& e.ending is Applied
            &&& e.model.sense == if sense is Some {
                sense->0
            } else {
                "max"@
            }
            &&& same_rows(e.model, m)
            &&& same_variables(e.model, m)
        }),
{
    set_sense_is_named(m, command);
    fields_are_read(command, "sense"@, 0, None, None, sense, None, zero(), false);
}

/// Adding a variable and removing it again gives the model back, but for bounds that
/// were put in for it.
pub proof fn removing_undoes_adding(
    m: Model,
    adding: Json,
    removing: Json,
    column: Option<Seq<Double>>,
    cost: Option<Double>,
    integer: Option<bool>,
    upper: Option<Double>,
    name: Option<Seq<char>>,
)
    requires
        well_shaped(m),
        0 < m.c.len() < usize::MAX,
        column is Some ==> column->0.len() == m.a.len(),
        gives_numbers(adding, "column"@, column),
        gives_number(adding, "c"@, cost),
        gives_flag(adding, "integer"@, integer),
        gives_number(adding, "ub"@, upper),
        gives_text(adding, "name"@, name),
        gives_index(removing, "index"@, m.c.len() as usize),
    ensures
        ({
            let more = edit_of("add_variable"@, m, adding)->0.model;
            let back = edit_of("remove_variable"@, more, removing)->0.model;
            &&& back == (Model { ub: back.ub, ..m })
            &&& m.ub is Some || upper is None ==> back == m
        }),
{
    let more = edit_of("add_variable"@, m, adding)->0.model;
    let back = edit_of("remove_variable"@, more, removing)->0.model;
    variables_are_added(m, adding, column, cost, integer, upper, name);
    assert(well_shaped(more));
    variables_are_removed(more, removing, m.c.len() as usize);
    assert(back.c =~= m.c);
    assert(back.integer_vars =~= m.integer_vars);
    assert forall|row: int| 0 <= row < m.a.len() implies back.a[row] == #[trigger] m.a[row] by {
        assert(m.a[row].len() == m.c.len());
        assert(back.a[row].len() == m.c.len());
        assert forall|j: int| 0 <= j < m.c.len() implies back.a[row][j] == m.a[row][j] by {
            assert(back.c[j] == more.c[j]);
            assert(back.a[row][j] == more.a[row][j]);
        }
        assert(back.a[row] =~= m.a[row]);
    }
    assert(back.a =~= m.a);
    edits_keep_the_shape("remove_variable"@, more, removing);
    assert(well_shaped(back));
    if m.var_names is Some {
        assert forall|j: int| 0 <= j < m.c.len() implies back.var_names->0[j] == m.var_names->0[j] by {
            assert(back.c[j] == more.c[j]);
        }
        assert(back.var_names->0 =~= m.var_names->0);
    }
    if m.ub is Some {
        assert forall|j: int| 0 <= j < m.c.len() implies back.ub->0[j] == m.ub->0[j] by {
            assert(back.c[j] == more.c[j]);
        }
        assert(back.ub->0 =~= m.ub->0);
    }
}

// Commands.

/// Whether a command names an operation.
pub open spec fn names_operation(command: StreamCommand, op: Seq<char>) -> bool {
    command.fields.field("op"@) matches Some(Json::Text(s)) && s@ == op
}

/// Before there is a model, every command but `init` is refused and leaves nothing
/// behind.
pub proof fn models_come_first(
    revision: u64,
    command: StreamCommand,
    op: Seq<char>,
    limits: Limits,
)
    requires
        names_operation(command, op),
        op != "init"@,
    ensures
        ({
            let out = command_outcome(None, revision, command, limits);
            &&& out.ending == Ending::Failed("no problem initialized; send init first"@)
            &&& out.problem is None
            &&& out.revision == revision
            &&& out.frame is None
        }),
{
}

/// A model that is given whole and passes the checks becomes the model, whatever was
/// there before; one that does not pass them is refused, and what was there stays.
pub proof fn given_models_are_taken(
    problem: Option<Model>,
    revision: u64,
    command: StreamCommand,
    limits: Limits,
)
    requires
        names_operation(command, "init"@),
        command.problem matches Some(Ok(_)),
        revision < u64::MAX,
    ensures
        ({
            let given = command.problem->0->Ok_0@;
            let out = command_outcome(problem, revision, command, limits);
            if valid(given, limits) {
                &&& out.ending is Applied
                &&& out.problem is Some
                &&& out.problem->0.c == given.c
                &&& out.problem->0.a == given.a
                &&& out.problem->0.b == given.b
                &&& out.problem->0.ub == given.ub
                &&& out.problem->0.sense == given.sense
                &&& out.problem->0.integer_vars.len() == given.c.len()
                &&& forall|j: int|
                    0 <= j < given.c.len() ==> #[trigger] out.problem->0.integer_vars[j] == (j
                        < given.integer_vars.len() && given.integer_vars[j])
                &&& out.revision == revision + 1
                &&& out.frame == Some(Frame::Initialized { revision: (revision + 1) as u64 })
            } else {
                &&& out.ending is Failed
                &&& out.problem == problem
                &&& out.revision == revision
                &&& out.frame is None
            }
        }),
{
}

/// An edit that is applied and leaves a model that passes the checks makes that model
/// the model, raises the revision by one and is answered with it.
pub proof fn applied_edits_are_answered(
    m: Model,
    revision: u64,
    command: StreamCommand,
    op: Seq<char>,
    limits: Limits,
)
    requires
        names_operation(command, op),
        op != "init"@,
        op != "snapshot"@,
        revision < u64::MAX,
        edit_of(op, m, command.fields) is Some,
        edit_of(op, m, command.fields)->0.ending is Applied,
    ensures
        ({
            let next = edit_of(op, m, command.fields)->0.model;
            let out = command_outcome(Some(m), revision, command, limits);
            &&& out.problem == Some(next)
            &&& out.revision == revision + 1
            &&& out.ending is Applied <==> valid(next, limits)
            &&& valid(next, limits) ==> out.frame == Some(
                Frame::Applied { op, revision: (revision + 1) as u64 },
            )
            &&& !valid(next, limits) ==> out.ending == Ending::Failed(
                model_error(next, limits)->0,
            ) && out.frame is None
        }),
{
}

/// A snapshot tells the sizes and the integrality of the model, and changes nothing.
pub proof fn snapshots_tell_the_model(
    m: Model,
    revision: u64,
    command: StreamCommand,
    limits: Limits,
)
    requires
        names_operation(command, "snapshot"@),
    ensures
        ({
            let out = command_outcome(Some(m), revision, command, limits);
            &&& out.problem == Some(m)
            &&& out.revision == revision
            &&& out.ending is Applied
            &&& out.frame == Some(
                Frame::Snapshot {
                    revision,
                    num_vars: m.c.len() as usize,
                    num_constraints: m.a.len() as usize,
                    integer_vars: m.integer_vars,
                },
            )
        }),
{
    reveal_strlit("init");
    reveal_strlit("snapshot");
    assert("init"@.len() != "snapshot"@.len());
}

/// An edit that names no row, no variable or no place that there is is refused, and
/// changes nothing; nor is the last variable removed, nor a row, a column or an objective
/// of another length taken.
pub proof fn edits_out_of_range_are_refused(
    m: Model,
    command: Json,
    i: usize,
    other: Seq<Double>,
)
    ensures
        gives_index(command, "index"@, i) && i >= m.a.len() ==> ({
            let removed = edit_of("remove_constraint"@, m, command)->0;
            let set = edit_of("set_constraint"@, m, command)->0;
            &&& removed.ending is Failed && removed.model == m
            &&& set.ending is Failed && set.model == m
        }),
        gives_index(command, "index"@, i) && i >= m.b.len() ==> ({
            let set = edit_of("set_rhs"@, m, command)->0;
            set.ending is Failed && set.model == m
        }),
        gives_index(command, "index"@, i) && i >= m.c.len() ==> ({
            let removed = edit_of("remove_variable"@, m, command)->0;
            let set = edit_of("set_variable"@, m, command)->0;
            let bound = edit_of("set_upper_bound"@, m, command)->0;
            &&& removed.ending is Failed && removed.model == m
            &&& set.ending is Failed && set.model == m
            &&& bound.ending is Failed && bound.model == m
        }),
        gives_index(command, "index"@, i) && i >= m.integer_vars.len() ==> ({
            let set = edit_of("set_integer"@, m, command)->0;
            set.ending is Failed && set.model == m
        }),
        gives_index(command, "index"@, i) && m.c.len() == 1 ==> ({
            let removed = edit_of("remove_variable"@, m, command)->0;
            removed.ending is Failed && removed.model == m
        }),
        gives_numbers(command, "coefs"@, Some(other)) && other.len() != m.c.len() ==> ({
            let added = edit_of("add_constraint"@, m, command)->0;
            added.ending is Failed && added.model == m
        }),
        gives_numbers(command, "column"@, Some(other)) && other.len() != m.a.len() ==> ({
            let added = edit_of("add_variable"@, m, command)->0;
            added.ending is Failed && added.model == m
        }),
        gives_numbers(command, "c"@, Some(other)) && other.len() != m.c.len() ==> ({
            let set = edit_of("set_objective"@, m, command)->0;
            set.ending is Failed && set.model == m
        }),
{
    add_constraint_is_named(m, command);
    set_constraint_is_named(m, command);
    remove_constraint_is_named(m, command);
    set_rhs_is_named(m, command);
    add_variable_is_named(m, command);
    set_variable_is_named(m, command);
    remove_variable_is_named(m, command);
    set_objective_is_named(m, command);
    set_integer_is_named(m, command);
    set_upper_bound_is_named(m, command);
    fields_are_read(command, "index"@, i, None, None, None, None, zero(), false);
    fields_are_read(command, "coefs"@, i, None, None, None, Some(other), zero(), false);
    fields_are_read(command, "column"@, i, None, None, None, Some(other), zero(), false);
    fields_are_read(command, "c"@, i, None, None, None, Some(other), zero(), false);
}

/// What is no operation changes nothing, and is refused by name.
pub proof fn unknown_operations_are_refused(
    m: Model,
    revision: u64,
    command: StreamCommand,
    limits: Limits,
)
    requires
        edit_of(operation(command.fields), m, command.fields) is None,
        operation(command.fields) != "init"@,
        operation(command.fields) != "snapshot"@,
    ensures
        ({
            let out = command_outcome(Some(m), revision, command, limits);
            &&& out.ending is Failed
            &&& out.problem == Some(m)
            &&& out.revision == revision
            &&& out.frame is None
        }),
        edit_of("no such operation"@, m, command.fields) is None,
{
    reveal_strlit("no such operation");
    reveal_strlit("add_constraint");
    reveal_strlit("set_constraint");
    reveal_strlit("modify_constraint");
    reveal_strlit("change_constraint_weights");
    reveal_strlit("set_constraint_weights");
    reveal_strlit("remove_constraint");
    reveal_strlit("rm_constraint");
    reveal_strlit("set_rhs");
    reveal_strlit("set_coefficient");
    reveal_strlit("set_constraint_weight");
    reveal_strlit("change_constraint_weight");
    reveal_strlit("add_variable");
    reveal_strlit("set_variable");
    reveal_strlit("modify_variable");
    reveal_strlit("remove_variable");
    reveal_strlit("rm_variable");
    reveal_strlit("set_objective");
    reveal_strlit("set_integer");
    reveal_strlit("set_upper_bound");
    reveal_strlit("set_ub");
    reveal_strlit("set_sense");
    assert("no such operation"@[0] == 'n');
    assert("add_constraint"@[0] == 'a' && "add_variable"@[0] == 'a');
    assert("modify_constraint"@[0] == 'm' && "modify_variable"@[0] == 'm');
    assert("change_constraint_weights"@[0] == 'c' && "change_constraint_weight"@[0] == 'c');
    assert("remove_constraint"@[0] == 'r' && "rm_constraint"@[0] == 'r' && "remove_variable"@[0]
        == 'r' && "rm_variable"@[0] == 'r');
    assert("set_constraint"@[0] == 's' && "set_constraint_weights"@[0] == 's' && "set_rhs"@[0]
        == 's' && "set_coefficient"@[0] == 's' && "set_constraint_weight"@[0] == 's'
        && "set_variable"@[0] == 's' && "set_objective"@[0] == 's' && "set_integer"@[0] == 's'
        && "set_upper_bound"@[0] == 's' && "set_ub"@[0] == 's' && "set_sense"@[0] == 's');
}

/// Whether a field holds a list of rows.
pub open spec fn gives_rows(command: Json, key: Seq<char>, x: Seq<Seq<Double>>) -> bool {
    command.field(key) matches Some(Json::Array(items)) && items@.len() == x.len() && forall|
        k: int,
    |
        0 <= k < x.len() ==> holds_numbers(#[trigger] items@[k], x[k])
}

proof fn rows_are_read(items: Seq<Json>, x: Seq<Seq<Double>>, label: Seq<char>)
    requires
        items.len() == x.len(),
        forall|k: int| 0 <= k < x.len() ==> holds_numbers(#[trigger] items[k], x[k]),
    ensures
        finite_rows(items, label) == Ok::<Seq<Seq<Double>>, Seq<char>>(x),
    decreases items.len(),
{
    if items.len() > 0 {
        let front = items.drop_last();
        assert forall|k: int| 0 <= k < front.len() implies holds_numbers(
            #[trigger] front[k],
            x.drop_last()[k],
        ) by {
            assert(holds_numbers(items[k], x[k]));
        }
        rows_are_read(front, x.drop_last(), label);
        let last = items[items.len() - 1];
        assert(holds_numbers(last, x.last()));
        numbers_are_read(
            last->Array_0@,
            x.last(),
            indexed(label, (items.len() - 1) as nat),
        );
        assert(x.drop_last().push(x.last()) =~= x);
    } else {
        assert(x =~= Seq::empty());
    }
}

/// A model that is described field by field has the objective, the rows, the right-hand
/// sides, the bounds and the sense of the fields; it is to be maximized where no sense
/// is told.
pub proof fn described_models_are_built(
    command: Json,
    sense: Option<Seq<char>>,
    c: Seq<Double>,
    a: Seq<Seq<Double>>,
    b: Seq<Double>,
    ub: Option<Seq<Double>>,
)
    requires
        gives_text(command, "sense"@, sense),
        gives_numbers(command, "c"@, Some(c)),
        gives_rows(command, "a"@, a),
        gives_numbers(command, "b"@, Some(b)),
        gives_numbers(command, "ub"@, ub),
        command.field("integerVars"@) is None,
        command.field("varNames"@) is None,
        command.field("conNames"@) is None,
    ensures
        described_model(command) is Ok,
        described_model(command)->Ok_0.c == c,
        described_model(command)->Ok_0.a == a,
        described_model(command)->Ok_0.b == b,
        described_model(command)->Ok_0.ub == ub,
        described_model(command)->Ok_0.integer_vars == Seq::<bool>::empty(),
        described_model(command)->Ok_0.var_names is None,
        described_model(command)->Ok_0.con_names is None,
        sense is None ==> described_model(command)->Ok_0.sense == "max"@,
        sense matches Some(s) ==> described_model(command)->Ok_0.sense == s,
{
    fields_are_read(command, "sense"@, 0, None, None, sense, None, zero(), false);
    fields_are_read(command, "c"@, 0, None, None, None, Some(c), zero(), false);
    fields_are_read(command, "b"@, 0, None, None, None, Some(b), zero(), false);
    fields_are_read(command, "ub"@, 0, None, None, None, ub, zero(), false);
    rows_are_read(command.field("a"@)->0->Array_0@, a, "a"@);
}

/// A session counts each command once, as done or as refused, and answers each; it keeps
/// on after a refused one.
pub proof fn sessions_count_commands(
    problem: Option<Model>,
    revision: u64,
    commands: Seq<StreamCommand>,
    limits: Limits,
)
    ensures
        ({
            let s = session_run(problem, revision, commands, limits);
            &&& s.succeeded >= 0 && s.failed >= 0
            &&& !s.stopped ==> s.succeeded + s.failed == commands.len()
            &&& !s.stopped ==> s.frames.len() == commands.len()
        }),
    decreases commands.len(),
{
    if commands.len() > 0 {
        sessions_count_commands(problem, revision, commands.drop_last(), limits);
    }
}

}
