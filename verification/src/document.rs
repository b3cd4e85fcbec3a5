//! JSON values as the node writes them.

use crate::model::text_view;
use crate::number::Double;
use crate::order::views;
use crate::table::Table;
use crate::text::texts;
use vstd::prelude::*;
use vstd::string::*;

verus! {

/// A JSON value to be written. The fields of an object stand in the order in which
/// they are given.
#[derive(Debug)]
pub enum Document {
    Null,
    Flag(bool),
    Count(u128),
    Number(Double),
    Text(String),
    List(Vec<Document>),
    Object(Vec<(String, Document)>),
}

/// The contents of a JSON value to be written.
pub enum Doc {
    Null,
    Flag(bool),
    Count(u128),
    Number(Double),
    Text(Seq<char>),
    List(Seq<Doc>),
    Object(Seq<(Seq<char>, Doc)>),
}

/// The contents of a value.
pub open spec fn doc(d: Document) -> Doc
    decreases d,
{
    match d {
        Document::Null => Doc::Null,
        Document::Flag(b) => Doc::Flag(b),
        Document::Count(n) => Doc::Count(n),
        Document::Number(x) => Doc::Number(x),
        Document::Text(s) => Doc::Text(s@),
        Document::List(v) => Doc::List(docs(v@)),
        Document::Object(f) => Doc::Object(doc_fields(f@)),
    }
}

/// The contents of the values of a list.
pub open spec fn docs(v: Seq<Document>) -> Seq<Doc>
    decreases v,
{
    if v.len() == 0 {
        Seq::empty()
    } else {
        docs(v.drop_last()).push(doc(v.last()))
    }
}

/// The contents of the fields of an object.
pub open spec fn doc_fields(f: Seq<(String, Document)>) -> Seq<(Seq<char>, Doc)>
    decreases f,
{
    if f.len() == 0 {
        Seq::empty()
    } else {
        doc_fields(f.drop_last()).push((f.last().0@, doc(f.last().1)))
    }
}

impl View for Document {
    type V = Doc;

    open spec fn view(&self) -> Doc {
        doc(*self)
    }
}

/// The fields of an object that is being put together.
#[derive(Debug)]
pub struct Fields {
    fields: Vec<(String, Document)>,
}

impl View for Fields {
    type V = Seq<(Seq<char>, Doc)>;

    closed spec fn view(&self) -> Seq<(Seq<char>, Doc)> {
        doc_fields(self.fields@)
    }
}

impl Fields {
    /// An object without fields.
    pub fn new() -> (r: Fields)
        ensures
            r@ == Seq::<(Seq<char>, Doc)>::empty(),
    {
        Fields { fields: Vec::new() }
    }

    /// Adds a field.
    pub fn value(self, name: &str, value: Document) -> (r: Fields)
        ensures
            r@ == self@.push((name@, value@)),
    {
        let mut fields = self.fields;
        let ghost before = fields@;
        fields.push((name.to_owned(), value));
        assert(fields@.drop_last() =~= before);
        Fields { fields }
    }

    /// Adds a field that holds a text.
    pub fn text(self, name: &str, value: &str) -> (r: Fields)
        ensures
            r@ == self@.push((name@, Doc::Text(value@))),
    {
        self.value(name, Document::Text(value.to_owned()))
    }

    /// Adds a field that holds a text, or null.
    pub fn maybe_text(self, name: &str, value: &Option<String>) -> (r: Fields)
        ensures
            r@ == self@.push((name@, text_or_null(text_view(*value)))),
    {
        match value {
            Some(s) => self.text(name, s.as_str()),
            None => self.value(name, Document::Null),
        }
    }

    /// Adds a field that holds a truth value.
    pub fn flag(self, name: &str, value: bool) -> (r: Fields)
        ensures
            r@ == self@.push((name@, Doc::Flag(value))),
    {
        self.value(name, Document::Flag(value))
    }

    /// Adds a field that holds a number.
    pub fn count(self, name: &str, value: u128) -> (r: Fields)
        ensures
            r@ == self@.push((name@, Doc::Count(value))),
    {
        self.value(name, Document::Count(value))
    }

    /// Adds a field that holds a number, or null.
    pub fn maybe_count(self, name: &str, value: Option<u128>) -> (r: Fields)
        ensures
            r@ == self@.push((name@, count_or_null(value))),
    {
        match value {
            Some(n) => self.count(name, n),
            None => self.value(name, Document::Null),
        }
    }

    /// The object.
    pub fn done(self) -> (r: Document)
        ensures
            r@ == Doc::Object(self@),
    {
        Document::Object(self.fields)
    }
}

/// A text, or null.
pub open spec fn text_or_null(s: Option<Seq<char>>) -> Doc {
    match s {
        Some(t) => Doc::Text(t),
        None => Doc::Null,
    }
}

/// A number, or null.
pub open spec fn count_or_null(n: Option<u128>) -> Doc {
    match n {
        Some(n) => Doc::Count(n),
        None => Doc::Null,
    }
}

/// The texts of a list.
pub open spec fn text_docs(v: Seq<Seq<char>>) -> Seq<Doc> {
    v.map_values(|s: Seq<char>| Doc::Text(s))
}

/// A list of texts.
pub fn text_list(v: &Vec<String>) -> (r: Document)
    ensures
        r@ == Doc::List(text_docs(texts(v@))),
{
    let mut out: Vec<Document> = Vec::new();
    let mut i: usize = 0;
    let ghost all = text_docs(texts(v@));
    assert(docs(out@) =~= all.take(0));
    while i < v.len()
        invariant
            i <= v@.len(),
            all == text_docs(texts(v@)),
            docs(out@) == all.take(i as int),
        decreases v@.len() - i,
    {
        let ghost before = out@;
        out.push(Document::Text(v[i].clone()));
        assert(out@.drop_last() =~= before);
        assert(doc(out@.last()) == Doc::Text(v@[i as int]@));
        assert(docs(out@) == docs(before).push(Doc::Text(v@[i as int]@)));
        assert(all.take(i + 1) =~= all.take(i as int).push(all[i as int]));
        i = i + 1;
    }
    assert(all.take(i as int) =~= all);
    Document::List(out)
}

/// Adds a value to a list.
pub fn push_document(list: &mut Vec<Document>, value: Document)
    ensures
        docs(final(list)@) == docs(old(list)@).push(value@),
{
    let ghost before = list@;
    list.push(value);
    assert(list@.drop_last() =~= before);
}

/// Values that are written as JSON.
pub trait Documented: View + Sized {
    /// Whether a value is written as a document.
    spec fn is_document(d: Doc, v: Self::V) -> bool;

    /// The document for the value.
    fn document(&self) -> (r: Document)
        ensures
            Self::is_document(r@, self@),
    ;
}

/// Whether a list of values is written as a document.
pub open spec fn is_list_document<T: Documented>(d: Doc, v: Seq<T::V>) -> bool {
    &&& d is List
    &&& d->List_0.len() == v.len()
    &&& forall|i: int| 0 <= i < v.len() ==> T::is_document(#[trigger] d->List_0[i], v[i])
}

/// The document for a list of values.
pub fn list_document<T: Documented>(v: &Vec<T>) -> (r: Document)
    ensures
        is_list_document::<T>(r@, views(v@)),
{
    let mut out: Vec<Document> = Vec::new();
    let mut i: usize = 0;
    while i < v.len()
        invariant
            i <= v@.len(),
            docs(out@).len() == i,
            forall|j: int| 0 <= j < i ==> T::is_document(#[trigger] docs(out@)[j], v@[j]@),
        decreases v@.len() - i,
    {
        let ghost before = docs(out@);
        push_document(&mut out, v[i].document());
        assert forall|j: int| 0 <= j < i + 1 implies T::is_document(
            #[trigger] docs(out@)[j],
            v@[j]@,
        ) by {
            if j < i {
                assert(docs(out@)[j] == before[j]);
            }
        }
        i = i + 1;
    }
    Document::List(out)
}

/// Whether the values of a table are written as a document: an object with a field
/// for each of them.
pub open spec fn is_table_document<T: Documented>(d: Doc, table: Map<Seq<char>, T::V>) -> bool {
    &&& d is Object
    &&& forall|i: int, j: int|
        0 <= i < j < d->Object_0.len() ==> (#[trigger] d->Object_0[i]).0 != (
        #[trigger] d->Object_0[j]).0
    &&& forall|i: int|
        0 <= i < d->Object_0.len() ==> table.contains_key((#[trigger] d->Object_0[i]).0)
            && T::is_document(d->Object_0[i].1, table[d->Object_0[i].0])
    &&& forall|k: Seq<char>| #[trigger]
        table.contains_key(k) ==> exists|i: int|
            0 <= i < d->Object_0.len() && #[trigger] d->Object_0[i].0 == k
}

/// The document for a table.
pub fn table_document<T: Documented>(table: &Table<T>) -> (r: Document)
    ensures
        is_table_document::<T>(r@, table@),
{
    proof {
        use_type_invariant(table);
        table.order_is_contents();
    }
    let ghost order = table.order();
    let mut out = Fields::new();
    let n: usize = table.len();
    let mut i: usize = 0;
    while i < n
        invariant
            i <= n,
            n == order.len(),
            order == table.order(),
            out@.len() == i,
            forall|j: int|
                0 <= j < i ==> (#[trigger] out@[j]).0 == order[j].0 && T::is_document(
                    out@[j].1,
                    order[j].1,
                ),
        decreases n - i,
    {
        let ghost before = out@;
        out = out.value(table.key_at(i).as_str(), table.value_at(i).document());
        assert forall|j: int| 0 <= j < i + 1 implies (#[trigger] out@[j]).0 == order[j].0
            && T::is_document(out@[j].1, order[j].1) by {
            if j < i {
                assert(out@[j] == before[j]);
            }
        }
        i = i + 1;
    }
    let ghost f = out@;
    let r = out.done();
    proof {
        assert forall|a: int, b: int| 0 <= a < b < f.len() implies (#[trigger] f[a]).0 != (
        #[trigger] f[b]).0 by {
            assert(order[a].0 != order[b].0);
        }
        assert forall|a: int| 0 <= a < f.len() implies table@.contains_key((#[trigger] f[a]).0)
            && T::is_document(f[a].1, table@[f[a].0]) by {
            assert(order[a].0 == f[a].0);
        }
        assert forall|k: Seq<char>| #[trigger] table@.contains_key(k) implies exists|a: int|
            0 <= a < f.len() && #[trigger] f[a].0 == k by {
            let j = choose|j: int| 0 <= j < order.len() && #[trigger] order[j].0 == k;
            assert(f[j].0 == k);
        }
        assert(r@->Object_0 == f);
    }
    r
}

/// Whether a document is an object that tells a value under a key.
pub open spec fn tells(d: Doc, key: Seq<char>, value: Doc) -> bool {
    d is Object && exists|i: int|
        0 <= i < d->Object_0.len() && (#[trigger] d->Object_0[i]).0 == key && d->Object_0[i].1
            == value
}

/// What is there is told as it is, and what is not there as null; lists are told item by
/// item.
pub proof fn absent_values_are_null(
    s: Option<Seq<char>>,
    n: Option<u128>,
    v: Seq<Seq<char>>,
    i: int,
)
    requires
        0 <= i < v.len(),
    ensures
        s matches Some(t) ==> text_or_null(s) == Doc::Text(t),
        s is None ==> text_or_null(s) == Doc::Null,
        n matches Some(k) ==> count_or_null(n) == Doc::Count(k),
        n is None ==> count_or_null(n) == Doc::Null,
        text_docs(v).len() == v.len(),
        text_docs(v)[i] == Doc::Text(v[i]),
{
}

}
