//! Orderings: of texts, and of lists by a rank.

use crate::text::chars_of;
use vstd::prelude::*;
use vstd::string::*;

verus! {

/// Whether a text comes before another one: at the first character in which they
/// differ, or by being a beginning of it.
pub open spec fn text_before(a: Seq<char>, b: Seq<char>) -> bool
    decreases a.len(),
{
    if b.len() == 0 {
        false
    } else if a.len() == 0 {
        true
    } else if a[0] != b[0] {
        a[0] < b[0]
    } else {
        text_before(a.drop_first(), b.drop_first())
    }
}

/// Whether a text comes before another one.
pub fn is_text_before(a: &str, b: &str) -> (r: bool)
    ensures
        r == text_before(a@, b@),
{
    let x = chars_of(a);
    let y = chars_of(b);
    let mut i: usize = 0;
    assert(x@.skip(0) =~= x@);
    assert(y@.skip(0) =~= y@);
    while i < x.len() && i < y.len() && x[i] == y[i]
        invariant
            i <= x@.len(),
            i <= y@.len(),
            x@ == a@,
            y@ == b@,
            text_before(a@, b@) == text_before(x@.skip(i as int), y@.skip(i as int)),
        decreases x@.len() - i,
    {
        assert(x@.skip(i as int).drop_first() =~= x@.skip(i + 1));
        assert(y@.skip(i as int).drop_first() =~= y@.skip(i + 1));
        i = i + 1;
    }
    if i == y.len() {
        return false;
    }
    if i == x.len() {
        return true;
    }
    x[i] < y[i]
}

/// No text comes before itself, and of two texts one comes first.
pub proof fn text_order_is_total(a: Seq<char>, b: Seq<char>)
    ensures
        !text_before(a, a),
        text_before(a, b) ==> !text_before(b, a),
        text_before(a, b) || text_before(b, a) || a == b,
    decreases a.len(),
{
    if a.len() > 0 && b.len() > 0 {
        text_order_is_total(a.drop_first(), b.drop_first());
        if a[0] == b[0] && a.drop_first() == b.drop_first() {
            assert(a =~= seq![a[0]] + a.drop_first());
            assert(b =~= seq![b[0]] + b.drop_first());
        }
    } else if a.len() == 0 && b.len() == 0 {
        assert(a =~= b);
    } else if a.len() > 0 {
        text_order_is_total(a.drop_first(), a.drop_first());
    }
}

/// The order of texts carries over.
pub proof fn text_order_is_transitive(a: Seq<char>, b: Seq<char>, c: Seq<char>)
    requires
        text_before(a, b),
        text_before(b, c),
    ensures
        text_before(a, c),
    decreases a.len(),
{
    if a.len() > 0 && b.len() > 0 && c.len() > 0 && a[0] == b[0] && b[0] == c[0] {
        text_order_is_transitive(a.drop_first(), b.drop_first(), c.drop_first());
    }
}

/// Values with a place in a list: a strict order in which values may share a
/// place.
pub trait Ranked: View + Sized {
    /// Whether a value comes before another one.
    spec fn goes_before(a: Self::V, b: Self::V) -> bool;

    /// A value that comes before another one does not come after it, and a value
    /// that comes before another one comes before or after any third.
    proof fn is_an_order(a: Self::V, b: Self::V, c: Self::V)
        ensures
            Self::goes_before(a, b) ==> !Self::goes_before(b, a),
            Self::goes_before(a, b) ==> Self::goes_before(a, c) || Self::goes_before(c, b),
    ;

    /// Whether the value comes before another one.
    fn is_before(&self, other: &Self) -> (r: bool)
        ensures
            r == Self::goes_before(self@, other@),
    ;
}

/// The contents of each value.
pub open spec fn views<T: View>(v: Seq<T>) -> Seq<T::V> {
    v.map_values(|x: T| x@)
}

/// Whether no value of a list comes before an earlier one.
pub open spec fn in_order<T: Ranked>(v: Seq<T::V>) -> bool {
    forall|i: int, j: int| 0 <= i < j < v.len() ==> !T::goes_before(#[trigger] v[j], #[trigger] v[i])
}

/// Puts a value into a list in order, behind those that share its place.
pub fn insert_in_order<T: Ranked>(list: &mut Vec<T>, value: T) -> (r: usize)
    requires
        in_order::<T>(views(old(list)@)),
    ensures
        in_order::<T>(views(final(list)@)),
        r <= old(list)@.len(),
        views(final(list)@) == views(old(list)@).insert(r as int, value@),
        views(final(list)@).to_multiset() == views(old(list)@).to_multiset().insert(value@),
{
    let ghost before = views(list@);
    let mut i: usize = list.len();
    while i > 0 && value.is_before(&list[i - 1])
        invariant
            i <= list@.len(),
            before == views(list@),
            forall|j: int| i <= j < before.len() ==> T::goes_before(value@, #[trigger] before[j]),
        decreases i,
    {
        assert(before[i - 1] == list@[i - 1]@);
        i = i - 1;
    }
    let ghost x = value@;
    proof {
        if i > 0 {
            assert(before[i - 1] == list@[i - 1]@);
        }
    }
    list.insert(i, value);
    proof {
        let after = views(list@);
        assert(after =~= before.insert(i as int, x));
        assert forall|a: int, b: int| 0 <= a < b < after.len() implies !T::goes_before(
            #[trigger] after[b],
            #[trigger] after[a],
        ) by {
            if a == i {
                assert(after[b] == before[b - 1]);
                T::is_an_order(x, before[b - 1], x);
            } else if b == i {
                assert(after[a] == before[a]);
                if a < i - 1 {
                    assert(!T::goes_before(before[i - 1], before[a]));
                    T::is_an_order(x, before[a], before[i - 1]);
                }
            } else {
                let p = if a < i {
                    a
                } else {
                    a - 1
                };
                let q = if b < i {
                    b
                } else {
                    b - 1
                };
                assert(after[a] == before[p] && after[b] == before[q]);
            }
        }
        after.to_multiset_ensures();
        assert(after.remove(i as int) =~= before);
        assert(after[i as int] == x);
        assert(after.contains(x));
        assert(after.to_multiset() =~= before.to_multiset().insert(x));
    }
    i
}

/// Texts are ordered by the first character in which they differ, and a text comes before
/// every longer one that begins with it.
pub proof fn texts_are_ordered_by_the_first_difference(
    head: Seq<char>,
    x: char,
    y: char,
    a: Seq<char>,
    b: Seq<char>,
)
    ensures
        x != y ==> (text_before(head + seq![x] + a, head + seq![y] + b) <==> x < y),
        text_before(head, head + seq![x] + a),
        !text_before(head + seq![x] + a, head),
    decreases head.len(),
{
    let (left, right) = (head + seq![x] + a, head + seq![y] + b);
    if head.len() > 0 {
        let rest = head.drop_first();
        texts_are_ordered_by_the_first_difference(rest, x, y, a, b);
        assert(left.drop_first() =~= rest + seq![x] + a);
        assert(right.drop_first() =~= rest + seq![y] + b);
        assert(left[0] == head[0] && right[0] == head[0]);
    } else {
        assert(left[0] == x && right[0] == y);
    }
}

}
