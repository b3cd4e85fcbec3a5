//! The values of a table as a list.

use crate::order::{in_order, insert_in_order, views, Ranked};
use crate::table::{Duplicate, Table};
use vstd::prelude::*;

verus! {

/// Whether a list holds each value of a table once: `keys` are the identifiers
/// under which the values stand.
pub open spec fn lists<V>(list: Seq<V>, keys: Seq<Seq<char>>, table: Map<Seq<char>, V>) -> bool {
    &&& keys.len() == list.len()
    &&& keys.no_duplicates()
    &&& forall|i: int|
        0 <= i < keys.len() ==> table.contains_key(#[trigger] keys[i]) && list[i] == table[keys[i]]
    &&& forall|k: Seq<char>| #[trigger] table.contains_key(k) ==> keys.contains(k)
}

/// The values of a table, in order.
pub fn sorted_values<T: Ranked + Duplicate>(table: &Table<T>) -> (r: Vec<T>)
    ensures
        in_order::<T>(views(r@)),
        exists|keys: Seq<Seq<char>>| #[trigger] lists(views(r@), keys, table@),
{
    proof {
        use_type_invariant(table);
        table.order_is_contents();
    }
    let ghost order = table.order();
    let ghost held = table@;
    let ghost mut keys = Seq::<Seq<char>>::empty();
    let mut out: Vec<T> = Vec::new();
    let n: usize = table.len();
    let mut i: usize = 0;
    while i < n
        invariant
            i <= n,
            n == order.len(),
            order == table.order(),
            held == table@,
            forall|j: int|
                0 <= j < n ==> held.contains_key((#[trigger] order[j]).0) && held[order[j].0]
                    == order[j].1,
            forall|a: int, b: int|
                0 <= a < b < n ==> (#[trigger] order[a]).0 != (#[trigger] order[b]).0,
            in_order::<T>(views(out@)),
            keys.len() == out@.len(),
            keys.no_duplicates(),
            forall|a: int|
                0 <= a < keys.len() ==> held.contains_key(#[trigger] keys[a]) && views(out@)[a]
                    == held[keys[a]],
            forall|a: int|
                #![trigger keys[a]]
                0 <= a < keys.len() ==> exists|j: int|
                    0 <= j < i && #[trigger] order[j].0 == keys[a],
            forall|j: int| 0 <= j < i ==> keys.contains((#[trigger] order[j]).0),
        decreases n - i,
    {
        let ghost known = keys;
        let ghost listed = views(out@);
        let ghost key = order[i as int].0;
        let at: usize = insert_in_order(&mut out, table.value_at(i).duplicate());
        proof {
            keys = known.insert(at as int, key);
            assert(listed.len() == known.len());
            assert(views(out@).len() == listed.len() + 1);
            assert(views(out@).len() == out@.len());
            assert(!known.contains(key)) by {
                if known.contains(key) {
                    let a = choose|a: int| 0 <= a < known.len() && known[a] == key;
                    let j = choose|j: int| 0 <= j < i && #[trigger] order[j].0 == known[a];
                    assert(order[j].0 != order[i as int].0);
                }
            }
            assert forall|a: int| 0 <= a < keys.len() implies held.contains_key(#[trigger] keys[a])
                && views(out@)[a] == held[keys[a]] by {
                if a < at {
                    assert(keys[a] == known[a]);
                } else if a > at {
                    assert(keys[a] == known[a - 1]);
                }
            }
            assert forall|a: int, b: int| 0 <= a < b < keys.len() implies keys[a] != keys[b] by {
                let p = if a < at {
                    a
                } else {
                    a - 1
                };
                let q = if b < at {
                    b
                } else {
                    b - 1
                };
                if a != at && b != at {
                    assert(keys[a] == known[p] && keys[b] == known[q] && p != q);
                } else if a == at {
                    assert(keys[b] == known[q] && known.contains(known[q]));
                } else {
                    assert(keys[a] == known[p] && known.contains(known[p]));
                }
            }
            assert forall|a: int| #![trigger keys[a]] 0 <= a < keys.len() implies exists|j: int|
                0 <= j < i + 1 && #[trigger] order[j].0 == keys[a] by {
                if a == at {
                    assert(order[i as int].0 == keys[a]);
                } else {
                    let p = if a < at {
                        a
                    } else {
                        a - 1
                    };
                    assert(keys[a] == known[p]);
                    let j = choose|j: int| 0 <= j < i && #[trigger] order[j].0 == known[p];
                    assert(order[j].0 == keys[a]);
                }
            }
            assert forall|j: int| 0 <= j < i + 1 implies keys.contains((#[trigger] order[j]).0) by {
                if j == i {
                    assert(keys[at as int] == order[j].0);
                } else {
                    let a = choose|a: int| 0 <= a < known.len() && known[a] == order[j].0;
                    if a < at {
                        assert(keys[a] == order[j].0);
                    } else {
                        assert(keys[a + 1] == order[j].0);
                    }
                }
            }
        }
        i = i + 1;
    }
    proof {
        assert forall|k: Seq<char>| #[trigger] held.contains_key(k) implies keys.contains(k) by {
            let j = choose|j: int| 0 <= j < order.len() && #[trigger] order[j].0 == k;
            assert(keys.contains(order[j].0));
        }
        assert(lists(views(out@), keys, held));
    }
    out
}

}
