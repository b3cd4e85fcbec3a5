//! Reading the fields of a command: each reader gives the value of a field, says
//! that it is absent, or says what it should have been.

use crate::json::Json;
use crate::model::rows;
use crate::number::Double;
use crate::text::{dec, decimal, texts};
use vstd::prelude::*;
use vstd::string::*;

verus! {

/// `label[index]`.
pub open spec fn indexed(label: Seq<char>, index: nat) -> Seq<char> {
    label + "["@ + dec(index) + "]"@
}

fn indexed_label(label: &str, index: usize) -> (r: String)
    ensures
        r@ == indexed(label@, index as nat),
{
    let mut out = label.to_owned();
    out.append("[");
    out.append(decimal(index).as_str());
    out.append("]");
    out
}

fn with_suffix(label: &str, suffix: &str) -> (r: String)
    ensures
        r@ == label@ + suffix@,
{
    let mut out = label.to_owned();
    out.append(suffix);
    out
}

/// A finite number, or the complaint that the labelled value is none.
pub open spec fn finite_number(value: Json, label: Seq<char>) -> Result<Double, Seq<char>> {
    match value.number() {
        Some(x) => if x.finite() {
            Ok(x)
        } else {
            Err(label + " must be a finite number"@)
        },
        None => Err(label + " must be a finite number"@),
    }
}

/// The finite numbers of an array; the first item that is none is complained of.
pub open spec fn finite_numbers(items: Seq<Json>, label: Seq<char>) -> Result<
    Seq<Double>,
    Seq<char>,
>
    decreases items.len(),
{
    if items.len() == 0 {
        Ok(Seq::empty())
    } else {
        match finite_numbers(items.drop_last(), label) {
            Err(e) => Err(e),
            Ok(front) => match finite_number(
                items.last(),
                indexed(label, (items.len() - 1) as nat),
            ) {
                Err(e) => Err(e),
                Ok(x) => Ok(front.push(x)),
            },
        }
    }
}

/// The numeric rows of an array of arrays.
pub open spec fn finite_rows(items: Seq<Json>, label: Seq<char>) -> Result<
    Seq<Seq<Double>>,
    Seq<char>,
>
    decreases items.len(),
{
    if items.len() == 0 {
        Ok(Seq::empty())
    } else {
        match finite_rows(items.drop_last(), label) {
            Err(e) => Err(e),
            Ok(front) => {
                let row_label = indexed(label, (items.len() - 1) as nat);
                match items.last().items() {
                    None => Err(row_label + " must be an array of finite numbers"@),
                    Some(cells) => match finite_numbers(cells, row_label) {
                        Err(e) => Err(e),
                        Ok(row) => Ok(front.push(row)),
                    },
                }
            },
        }
    }
}

/// The booleans of an array.
pub open spec fn booleans(items: Seq<Json>, label: Seq<char>) -> Result<Seq<bool>, Seq<char>>
    decreases items.len(),
{
    if items.len() == 0 {
        Ok(Seq::empty())
    } else {
        match booleans(items.drop_last(), label) {
            Err(e) => Err(e),
            Ok(front) => match items.last().boolean() {
                None => Err(indexed(label, (items.len() - 1) as nat) + " must be a boolean"@),
                Some(b) => Ok(front.push(b)),
            },
        }
    }
}

/// The strings of an array.
pub open spec fn strings(items: Seq<Json>, label: Seq<char>) -> Result<Seq<Seq<char>>, Seq<char>>
    decreases items.len(),
{
    if items.len() == 0 {
        Ok(Seq::empty())
    } else {
        match strings(items.drop_last(), label) {
            Err(e) => Err(e),
            Ok(front) => match items.last().text() {
                None => Err(indexed(label, (items.len() - 1) as nat) + " must be a string"@),
                Some(s) => Ok(front.push(s)),
            },
        }
    }
}

/// The numbers in a field.
pub open spec fn numbers_field(command: Json, key: Seq<char>) -> Result<
    Option<Seq<Double>>,
    Seq<char>,
> {
    match command.field(key) {
        None => Ok(None),
        Some(value) => match value.items() {
            None => Err(key + " must be an array of finite numbers"@),
            Some(items) => match finite_numbers(items, key) {
                Err(e) => Err(e),
                Ok(v) => Ok(Some(v)),
            },
        },
    }
}

/// The numeric rows in a field.
pub open spec fn rows_field(command: Json, key: Seq<char>) -> Result<
    Option<Seq<Seq<Double>>>,
    Seq<char>,
> {
    match command.field(key) {
        None => Ok(None),
        Some(value) => match value.items() {
            None => Err(key + " must be an array of numeric rows"@),
            Some(items) => match finite_rows(items, key) {
                Err(e) => Err(e),
                Ok(v) => Ok(Some(v)),
            },
        },
    }
}

/// The index in a field.
pub open spec fn index_field(command: Json, key: Seq<char>) -> Result<Option<usize>, Seq<char>> {
    match command.field(key) {
        None => Ok(None),
        Some(value) => match value.unsigned() {
            None => Err(key + " must be a non-negative integer"@),
            Some(n) => if n <= usize::MAX {
                Ok(Some(n as usize))
            } else {
                Err(key + " is too large for this platform"@)
            },
        },
    }
}

/// The finite number in a field, or a fallback where the field is absent.
pub open spec fn number_field(command: Json, key: Seq<char>, fallback: Double) -> Result<
    Double,
    Seq<char>,
> {
    match command.field(key) {
        None => Ok(fallback),
        Some(value) => finite_number(value, key),
    }
}

/// The boolean in a field, or a fallback where the field is absent.
pub open spec fn flag_field(command: Json, key: Seq<char>, fallback: bool) -> Result<
    bool,
    Seq<char>,
> {
    match command.field(key) {
        None => Ok(fallback),
        Some(value) => match value.boolean() {
            Some(b) => Ok(b),
            None => Err(key + " must be a boolean"@),
        },
    }
}

/// The booleans in a field.
pub open spec fn flags_field(command: Json, key: Seq<char>) -> Result<
    Option<Seq<bool>>,
    Seq<char>,
> {
    match command.field(key) {
        None => Ok(None),
        Some(value) => match value.items() {
            None => Err(key + " must be an array of booleans"@),
            Some(items) => match booleans(items, key) {
                Err(e) => Err(e),
                Ok(v) => Ok(Some(v)),
            },
        },
    }
}

/// The strings in a field.
pub open spec fn strings_field(command: Json, key: Seq<char>) -> Result<
    Option<Seq<Seq<char>>>,
    Seq<char>,
> {
    match command.field(key) {
        None => Ok(None),
        Some(value) => match value.items() {
            None => Err(key + " must be an array of strings"@),
            Some(items) => match strings(items, key) {
                Err(e) => Err(e),
                Ok(v) => Ok(Some(v)),
            },
        },
    }
}

/// The string in a field.
pub open spec fn string_field(command: Json, key: Seq<char>) -> Result<
    Option<Seq<char>>,
    Seq<char>,
> {
    match command.field(key) {
        None => Ok(None),
        Some(value) => match value.text() {
            Some(s) => Ok(Some(s)),
            None => Err(key + " must be a string"@),
        },
    }
}

/// A number result by its error's characters.
pub open spec fn number_result(r: Result<Double, String>) -> Result<Double, Seq<char>> {
    match r {
        Ok(x) => Ok(x),
        Err(e) => Err(e@),
    }
}

/// Reads a finite number.
pub fn finite_f64(value: &Json, label: &str) -> (r: Result<Double, String>)
    ensures
        number_result(r) == finite_number(*value, label@),
{
    match value.as_number() {
        Some(x) => if x.is_finite() {
            Ok(x)
        } else {
            Err(with_suffix(label, " must be a finite number"))
        },
        None => Err(with_suffix(label, " must be a finite number")),
    }
}

proof fn first_number_error(items: Seq<Json>, k: int, label: Seq<char>)
    requires
        0 <= k <= items.len(),
        finite_numbers(items.take(k), label) is Err,
    ensures
        finite_numbers(items, label) == finite_numbers(items.take(k), label),
    decreases items.len() - k,
{
    if k == items.len() {
        assert(items.take(k) =~= items);
    } else {
        assert(items.take(k + 1).drop_last() =~= items.take(k));
        first_number_error(items, k + 1, label);
    }
}

fn read_numbers(items: &Vec<Json>, label: &str) -> (r: Result<Vec<Double>, String>)
    ensures
        match (r, finite_numbers(items@, label@)) {
            (Ok(v), Ok(s)) => v@ == s,
            (Err(e), Err(m)) => e@ == m,
            _ => false,
        },
{
    let mut out: Vec<Double> = Vec::new();
    let mut i: usize = 0;
    while i < items.len()
        invariant
            i <= items@.len(),
            finite_numbers(items@.take(i as int), label@) == Ok::<Seq<Double>, Seq<char>>(out@),
        decreases items@.len() - i,
    {
        assert(items@.take(i + 1).drop_last() =~= items@.take(i as int));
        match finite_f64(&items[i], indexed_label(label, i).as_str()) {
            Ok(x) => {
                out.push(x);
            },
            Err(e) => {
                proof {
                    first_number_error(items@, i + 1, label@);
                }
                return Err(e);
            },
        }
        i = i + 1;
    }
    assert(items@.take(i as int) =~= items@);
    Ok(out)
}

/// Reads an array of finite numbers.
pub fn vec_f64(command: &Json, key: &str) -> (r: Result<Option<Vec<Double>>, String>)
    ensures
        match (r, numbers_field(*command, key@)) {
            (Ok(None), Ok(None)) => true,
            (Ok(Some(v)), Ok(Some(s))) => v@ == s,
            (Err(e), Err(m)) => e@ == m,
            _ => false,
        },
{
    match command.get(key) {
        None => Ok(None),
        Some(value) => match value.as_items() {
            None => Err(with_suffix(key, " must be an array of finite numbers")),
            Some(items) => match read_numbers(items, key) {
                Ok(v) => Ok(Some(v)),
                Err(e) => Err(e),
            },
        },
    }
}

proof fn first_rows_error(items: Seq<Json>, k: int, label: Seq<char>)
    requires
        0 <= k <= items.len(),
        finite_rows(items.take(k), label) is Err,
    ensures
        finite_rows(items, label) == finite_rows(items.take(k), label),
    decreases items.len() - k,
{
    if k == items.len() {
        assert(items.take(k) =~= items);
    } else {
        assert(items.take(k + 1).drop_last() =~= items.take(k));
        first_rows_error(items, k + 1, label);
    }
}

/// Reads an array of arrays of finite numbers.
pub fn vec_vec_f64(command: &Json, key: &str) -> (r: Result<Option<Vec<Vec<Double>>>, String>)
    ensures
        match (r, rows_field(*command, key@)) {
            (Ok(None), Ok(None)) => true,
            (Ok(Some(v)), Ok(Some(s))) => rows(v@) == s,
            (Err(e), Err(m)) => e@ == m,
            _ => false,
        },
{
    let value = match command.get(key) {
        None => {
            return Ok(None);
        },
        Some(value) => value,
    };
    let items = match value.as_items() {
        None => {
            return Err(with_suffix(key, " must be an array of numeric rows"));
        },
        Some(items) => items,
    };
    let mut out: Vec<Vec<Double>> = Vec::new();
    let mut i: usize = 0;
    assert(rows(out@) =~= Seq::empty());
    while i < items.len()
        invariant
            i <= items@.len(),
            finite_rows(items@.take(i as int), key@) == Ok::<Seq<Seq<Double>>, Seq<char>>(
                rows(out@),
            ),
            command.field(key@) == Some(*value),
            value.items() == Some(items@),
        decreases items@.len() - i,
    {
        assert(items@.take(i + 1).drop_last() =~= items@.take(i as int));
        let label = indexed_label(key, i);
        match items[i].as_items() {
            None => {
                proof {
                    first_rows_error(items@, i + 1, key@);
                }
                return Err(with_suffix(label.as_str(), " must be an array of finite numbers"));
            },
            Some(cells) => match read_numbers(cells, label.as_str()) {
                Ok(row) => {
                    let ghost before = out@;
                    out.push(row);
                    assert(rows(out@) =~= rows(before).push(row@));
                },
                Err(e) => {
                    proof {
                        first_rows_error(items@, i + 1, key@);
                    }
                    return Err(e);
                },
            },
        }
        i = i + 1;
    }
    assert(items@.take(i as int) =~= items@);
    Ok(Some(out))
}

/// Reads an index.
pub fn usize_at(command: &Json, key: &str) -> (r: Result<Option<usize>, String>)
    ensures
        match (r, index_field(*command, key@)) {
            (Ok(a), Ok(b)) => a == b,
            (Err(e), Err(m)) => e@ == m,
            _ => false,
        },
{
    match command.get(key) {
        None => Ok(None),
        Some(value) => match value.as_unsigned() {
            None => Err(with_suffix(key, " must be a non-negative integer")),
            Some(n) => if n <= usize::MAX as u64 {
                Ok(Some(n as usize))
            } else {
                Err(with_suffix(key, " is too large for this platform"))
            },
        },
    }
}

/// Reads a finite number, the fallback where the field is absent.
pub fn f64_at(command: &Json, key: &str, fallback: Double) -> (r: Result<Double, String>)
    ensures
        number_result(r) == number_field(*command, key@, fallback),
{
    match command.get(key) {
        None => Ok(fallback),
        Some(value) => finite_f64(value, key),
    }
}

/// Reads a boolean, the fallback where the field is absent.
pub fn bool_at(command: &Json, key: &str, fallback: bool) -> (r: Result<bool, String>)
    ensures
        match (r, flag_field(*command, key@, fallback)) {
            (Ok(a), Ok(b)) => a == b,
            (Err(e), Err(m)) => e@ == m,
            _ => false,
        },
{
    match command.get(key) {
        None => Ok(fallback),
        Some(value) => match value.as_boolean() {
            Some(b) => Ok(b),
            None => Err(with_suffix(key, " must be a boolean")),
        },
    }
}

proof fn first_boolean_error(items: Seq<Json>, k: int, label: Seq<char>)
    requires
        0 <= k <= items.len(),
        booleans(items.take(k), label) is Err,
    ensures
        booleans(items, label) == booleans(items.take(k), label),
    decreases items.len() - k,
{
    if k == items.len() {
        assert(items.take(k) =~= items);
    } else {
        assert(items.take(k + 1).drop_last() =~= items.take(k));
        first_boolean_error(items, k + 1, label);
    }
}

/// Reads an array of booleans.
pub fn vec_bool(command: &Json, key: &str) -> (r: Result<Option<Vec<bool>>, String>)
    ensures
        match (r, flags_field(*command, key@)) {
            (Ok(None), Ok(None)) => true,
            (Ok(Some(v)), Ok(Some(s))) => v@ == s,
            (Err(e), Err(m)) => e@ == m,
            _ => false,
        },
{
    let value = match command.get(key) {
        None => {
            return Ok(None);
        },
        Some(value) => value,
    };
    let items = match value.as_items() {
        None => {
            return Err(with_suffix(key, " must be an array of booleans"));
        },
        Some(items) => items,
    };
    let mut out: Vec<bool> = Vec::new();
    let mut i: usize = 0;
    while i < items.len()
        invariant
            i <= items@.len(),
            booleans(items@.take(i as int), key@) == Ok::<Seq<bool>, Seq<char>>(out@),
            command.field(key@) == Some(*value),
            value.items() == Some(items@),
        decreases items@.len() - i,
    {
        assert(items@.take(i + 1).drop_last() =~= items@.take(i as int));
        match items[i].as_boolean() {
            Some(b) => {
                out.push(b);
            },
            None => {
                proof {
                    first_boolean_error(items@, i + 1, key@);
                }
                return Err(with_suffix(indexed_label(key, i).as_str(), " must be a boolean"));
            },
        }
        i = i + 1;
    }
    assert(items@.take(i as int) =~= items@);
    Ok(Some(out))
}

proof fn first_string_error(items: Seq<Json>, k: int, label: Seq<char>)
    requires
        0 <= k <= items.len(),
        strings(items.take(k), label) is Err,
    ensures
        strings(items, label) == strings(items.take(k), label),
    decreases items.len() - k,
{
    if k == items.len() {
        assert(items.take(k) =~= items);
    } else {
        assert(items.take(k + 1).drop_last() =~= items.take(k));
        first_string_error(items, k + 1, label);
    }
}

/// Reads an array of strings.
pub fn vec_string(command: &Json, key: &str) -> (r: Result<Option<Vec<String>>, String>)
    ensures
        match (r, strings_field(*command, key@)) {
            (Ok(None), Ok(None)) => true,
            (Ok(Some(v)), Ok(Some(s))) => texts(v@) == s,
            (Err(e), Err(m)) => e@ == m,
            _ => false,
        },
{
    let value = match command.get(key) {
        None => {
            return Ok(None);
        },
        Some(value) => value,
    };
    let items = match value.as_items() {
        None => {
            return Err(with_suffix(key, " must be an array of strings"));
        },
        Some(items) => items,
    };
    let mut out: Vec<String> = Vec::new();
    let mut i: usize = 0;
    assert(texts(out@) =~= Seq::empty());
    while i < items.len()
        invariant
            i <= items@.len(),
            strings(items@.take(i as int), key@) == Ok::<Seq<Seq<char>>, Seq<char>>(texts(out@)),
            command.field(key@) == Some(*value),
            value.items() == Some(items@),
        decreases items@.len() - i,
    {
        assert(items@.take(i + 1).drop_last() =~= items@.take(i as int));
        match items[i].as_text() {
            Some(s) => {
                let ghost before = out@;
                out.push(s.to_owned());
                assert(texts(out@) =~= texts(before).push(s@));
            },
            None => {
                proof {
                    first_string_error(items@, i + 1, key@);
                }
                return Err(with_suffix(indexed_label(key, i).as_str(), " must be a string"));
            },
        }
        i = i + 1;
    }
    assert(items@.take(i as int) =~= items@);
    Ok(Some(out))
}

/// Reads a string.
pub fn str_at(command: &Json, key: &str) -> (r: Result<Option<String>, String>)
    ensures
        match (r, string_field(*command, key@)) {
            (Ok(None), Ok(None)) => true,
            (Ok(Some(v)), Ok(Some(s))) => v@ == s,
            (Err(e), Err(m)) => e@ == m,
            _ => false,
        },
{
    match command.get(key) {
        None => Ok(None),
        Some(value) => match value.as_text() {
            Some(s) => Ok(Some(s.to_owned())),
            None => Err(with_suffix(key, " must be a string")),
        },
    }
}

/// A list of numbers is read where each of them is a finite number, in order.
pub proof fn numbers_are_read_in_order(items: Seq<Json>, label: Seq<char>)
    ensures
        finite_numbers(items, label) is Ok <==> forall|i: int|
            0 <= i < items.len() ==> ((#[trigger] items[i]).number() is Some
                && items[i].number()->0.finite()),
        finite_numbers(items, label) matches Ok(v) ==> v.len() == items.len() && forall|i: int|
            0 <= i < items.len() ==> #[trigger] v[i] == items[i].number()->0,
    decreases items.len(),
{
    if items.len() > 0 {
        let front = items.drop_last();
        numbers_are_read_in_order(front, label);
        if finite_numbers(items, label) is Ok {
            assert forall|i: int|
                0 <= i < items.len() implies ((#[trigger] items[i]).number() is Some
                && items[i].number()->0.finite()) by {
                if i < front.len() {
                    assert(front[i] == items[i]);
                }
            }
            let v = finite_numbers(items, label)->Ok_0;
            assert forall|i: int|
                0 <= i < items.len() implies #[trigger] v[i] == items[i].number()->0 by {
                if i < front.len() {
                    assert(front[i] == items[i]);
                }
            }
        }
        if forall|i: int|
            0 <= i < items.len() ==> ((#[trigger] items[i]).number() is Some
                && items[i].number()->0.finite()) {
            assert forall|i: int|
                0 <= i < front.len() implies ((#[trigger] front[i]).number() is Some
                && front[i].number()->0.finite()) by {
                assert(front[i] == items[i]);
            }
            assert(items[items.len() - 1] == items.last());
        }
    }
}

/// A list of flags is read where each of them is a boolean, in order.
pub proof fn flags_are_read_in_order(items: Seq<Json>, label: Seq<char>)
    ensures
        booleans(items, label) is Ok <==> forall|i: int|
            0 <= i < items.len() ==> (#[trigger] items[i]).boolean() is Some,
        booleans(items, label) matches Ok(v) ==> v.len() == items.len() && forall|i: int|
            0 <= i < items.len() ==> #[trigger] v[i] == items[i].boolean()->0,
    decreases items.len(),
{
    if items.len() > 0 {
        let front = items.drop_last();
        flags_are_read_in_order(front, label);
        if booleans(items, label) is Ok {
            assert forall|i: int|
                0 <= i < items.len() implies (#[trigger] items[i]).boolean() is Some by {
                if i < front.len() {
                    assert(front[i] == items[i]);
                }
            }
            let v = booleans(items, label)->Ok_0;
            assert forall|i: int|
                0 <= i < items.len() implies #[trigger] v[i] == items[i].boolean()->0 by {
                if i < front.len() {
                    assert(front[i] == items[i]);
                }
            }
        }
        if forall|i: int| 0 <= i < items.len() ==> (#[trigger] items[i]).boolean() is Some {
            assert forall|i: int|
                0 <= i < front.len() implies (#[trigger] front[i]).boolean() is Some by {
                assert(front[i] == items[i]);
            }
            assert(items[items.len() - 1] == items.last());
        }
    }
}

/// A list of texts is read where each of them is a string, in order.
pub proof fn texts_are_read_in_order(items: Seq<Json>, label: Seq<char>)
    ensures
        strings(items, label) is Ok <==> forall|i: int|
            0 <= i < items.len() ==> (#[trigger] items[i]).text() is Some,
        strings(items, label) matches Ok(v) ==> v.len() == items.len() && forall|i: int|
            0 <= i < items.len() ==> #[trigger] v[i] == items[i].text()->0,
    decreases items.len(),
{
    if items.len() > 0 {
        let front = items.drop_last();
        texts_are_read_in_order(front, label);
        if strings(items, label) is Ok {
            assert forall|i: int|
                0 <= i < items.len() implies (#[trigger] items[i]).text() is Some by {
                if i < front.len() {
                    assert(front[i] == items[i]);
                }
            }
            let v = strings(items, label)->Ok_0;
            assert forall|i: int|
                0 <= i < items.len() implies #[trigger] v[i] == items[i].text()->0 by {
                if i < front.len() {
                    assert(front[i] == items[i]);
                }
            }
        }
        if forall|i: int| 0 <= i < items.len() ==> (#[trigger] items[i]).text() is Some {
            assert forall|i: int|
                0 <= i < front.len() implies (#[trigger] front[i]).text() is Some by {
                assert(front[i] == items[i]);
            }
            assert(items[items.len() - 1] == items.last());
        }
    }
}

/// Whether a value is a list of finite numbers.
pub open spec fn lists_finite_numbers(value: Json) -> bool {
    value.items() is Some && forall|j: int|
        0 <= j < value.items()->0.len() ==> ((#[trigger] value.items()->0[j]).number() is Some
            && value.items()->0[j].number()->0.finite())
}

/// Whether a row is what a list holds, number by number.
pub open spec fn is_row_of(row: Seq<Double>, value: Json) -> bool {
    row.len() == value.items()->0.len() && forall|j: int|
        0 <= j < row.len() ==> Some(#[trigger] row[j]) == value.items()->0[j].number()
}

/// Rows are read where each of them is a list of finite numbers, in order.
pub proof fn rows_are_read_in_order(items: Seq<Json>, label: Seq<char>)
    ensures
        finite_rows(items, label) is Ok <==> forall|i: int|
            0 <= i < items.len() ==> lists_finite_numbers(#[trigger] items[i]),
        finite_rows(items, label) matches Ok(v) ==> v.len() == items.len() && forall|i: int|
            0 <= i < items.len() ==> is_row_of(#[trigger] v[i], items[i]),
    decreases items.len(),
{
    if items.len() > 0 {
        let front = items.drop_last();
        rows_are_read_in_order(front, label);
        let row_label = indexed(label, (items.len() - 1) as nat);
        let last = items.last();
        if last.items() is Some {
            numbers_are_read_in_order(last.items()->0, row_label);
            assert(lists_finite_numbers(last) <==> finite_numbers(last.items()->0, row_label)
                is Ok);
        }
        if finite_rows(items, label) is Ok {
            let v = finite_rows(items, label)->Ok_0;
            let row = finite_numbers(last.items()->0, row_label)->Ok_0;
            assert forall|j: int| 0 <= j < row.len() implies Some(#[trigger] row[j])
                == last.items()->0[j].number() by {
                assert(last.items()->0[j].number() is Some);
            }
            assert(is_row_of(row, last));
            assert forall|i: int| 0 <= i < items.len() implies lists_finite_numbers(
                #[trigger] items[i],
            ) by {
                if i < front.len() {
                    assert(front[i] == items[i]);
                }
            }
            assert forall|i: int| 0 <= i < items.len() implies is_row_of(
                #[trigger] v[i],
                items[i],
            ) by {
                if i < front.len() {
                    assert(front[i] == items[i]);
                    assert(v[i] == finite_rows(front, label)->Ok_0[i]);
                }
            }
        }
        if forall|i: int| 0 <= i < items.len() ==> lists_finite_numbers(#[trigger] items[i]) {
            assert forall|i: int| 0 <= i < front.len() implies lists_finite_numbers(
                #[trigger] front[i],
            ) by {
                assert(front[i] == items[i]);
            }
            assert(items[items.len() - 1] == last);
        }
    }
}

/// A field that is absent is read as absent, or as the value that is given for that
/// case; a field that is present is read as what it holds, or refused.
pub proof fn fields_are_read(
    command: Json,
    key: Seq<char>,
    number: Double,
    flag: bool,
)
    ensures
        command.field(key) is None ==> numbers_field(command, key) == Ok::<
            Option<Seq<Double>>,
            Seq<char>,
        >(None) && rows_field(command, key) == Ok::<Option<Seq<Seq<Double>>>, Seq<char>>(None)
            && index_field(command, key) == Ok::<Option<usize>, Seq<char>>(None) && flags_field(
            command,
            key,
        ) == Ok::<Option<Seq<bool>>, Seq<char>>(None) && strings_field(command, key) == Ok::<
            Option<Seq<Seq<char>>>,
            Seq<char>,
        >(None) && string_field(command, key) == Ok::<Option<Seq<char>>, Seq<char>>(None)
            && number_field(command, key, number) == Ok::<Double, Seq<char>>(number) && flag_field(
            command,
            key,
            flag,
        ) == Ok::<bool, Seq<char>>(flag),
        command.field(key) matches Some(value) ==> {
            &&& index_field(command, key) is Ok <==> value.unsigned() is Some
                && value.unsigned()->0 <= usize::MAX
            &&& index_field(command, key) matches Ok(r) ==> r is Some && r->0
                == value.unsigned()->0
            &&& number_field(command, key, number) is Ok <==> value.number() is Some
                && value.number()->0.finite()
            &&& number_field(command, key, number) matches Ok(r) ==> Some(r) == value.number()
            &&& flag_field(command, key, flag) is Ok <==> value.boolean() is Some
            &&& flag_field(command, key, flag) matches Ok(r) ==> Some(r) == value.boolean()
            &&& string_field(command, key) is Ok <==> value.text() is Some
            &&& string_field(command, key) matches Ok(r) ==> r is Some && r == value.text()
            &&& numbers_field(command, key) matches Ok(r) ==> r is Some && value.items() is Some
                && r->0.len() == value.items()->0.len() && forall|i: int|
                0 <= i < r->0.len() ==> Some(#[trigger] r->0[i]) == value.items()->0[i].number()
                    && r->0[i].finite()
            &&& flags_field(command, key) matches Ok(r) ==> r is Some && value.items() is Some
                && r->0.len() == value.items()->0.len() && forall|i: int|
                0 <= i < r->0.len() ==> Some(#[trigger] r->0[i]) == value.items()->0[i].boolean()
            &&& strings_field(command, key) matches Ok(r) ==> r is Some && value.items() is Some
                && r->0.len() == value.items()->0.len() && forall|i: int|
                0 <= i < r->0.len() ==> Some(#[trigger] r->0[i]) == value.items()->0[i].text()
            &&& rows_field(command, key) matches Ok(r) ==> r is Some && value.items() is Some
                && r->0.len() == value.items()->0.len() && forall|i: int|
                0 <= i < r->0.len() ==> is_row_of(#[trigger] r->0[i], value.items()->0[i])
            &&& numbers_field(command, key) is Ok <==> lists_finite_numbers(value)
        },
{
    if command.field(key) is Some {
        let value = command.field(key)->0;
        if value.items() is Some {
            let items = value.items()->0;
            numbers_are_read_in_order(items, key);
            flags_are_read_in_order(items, key);
            texts_are_read_in_order(items, key);
            rows_are_read_in_order(items, key);
            assert(finite_numbers(items, key) matches Ok(v) ==> forall|i: int|
                0 <= i < items.len() ==> #[trigger] v[i] == items[i].number()->0
                    && items[i].number() is Some);
            assert(booleans(items, key) matches Ok(v) ==> forall|i: int|
                0 <= i < items.len() ==> #[trigger] v[i] == items[i].boolean()->0
                    && items[i].boolean() is Some);
            assert(strings(items, key) matches Ok(v) ==> forall|i: int|
                0 <= i < items.len() ==> #[trigger] v[i] == items[i].text()->0 && items[i].text()
                    is Some);
        }
    }
}

}
