//! Text in the places where some characters have a meaning: HTML pages and the
//! labels of metrics.

use crate::text::chars_of;
use vstd::prelude::*;
use vstd::string::*;

verus! {

/// A text in which each character stands for what a code gives it.
pub open spec fn spread(s: Seq<char>, code: spec_fn(char) -> Seq<char>) -> Seq<char>
    decreases s.len(),
{
    if s.len() == 0 {
        Seq::empty()
    } else {
        spread(s.drop_last(), code) + code(s.last())
    }
}

/// How a character is written in a page.
pub open spec fn html_code(c: char) -> Seq<char> {
    if c == '&' {
        "&amp;"@
    } else if c == '<' {
        "&lt;"@
    } else if c == '>' {
        "&gt;"@
    } else if c == '"' {
        "&quot;"@
    } else if c == '\'' {
        "&#39;"@
    } else {
        seq![c]
    }
}

/// A text as it is written in a page.
pub open spec fn escaped(s: Seq<char>) -> Seq<char> {
    spread(s, |c: char| html_code(c))
}

/// Writes a text for a page.
pub fn html_escape(value: &str) -> (r: String)
    ensures
        r@ == escaped(value@),
{
    let chars = chars_of(value);
    let mut out = String::new();
    let mut i: usize = 0;
    assert(chars@.take(0) =~= Seq::empty());
    assert(out@ =~= Seq::empty());
    while i < chars.len()
        invariant
            i <= chars@.len(),
            out@ == escaped(chars@.take(i as int)),
        decreases chars@.len() - i,
    {
        let c = chars[i];
        let ghost before = out@;
        assert(chars@.take(i + 1).drop_last() =~= chars@.take(i as int));
        if c == '&' {
            out.append("&amp;");
        } else if c == '<' {
            out.append("&lt;");
        } else if c == '>' {
            out.append("&gt;");
        } else if c == '"' {
            out.append("&quot;");
        } else if c == '\'' {
            out.append("&#39;");
        } else {
            out.push(c);
        }
        assert(out@ =~= before + html_code(c));
        i = i + 1;
    }
    assert(chars@.take(i as int) =~= chars@);
    out
}

/// How a character is written in the label of a metric.
pub open spec fn label_code(c: char) -> Seq<char> {
    if c == '\\' {
        seq!['\\', '\\']
    } else if c == '"' {
        seq!['\\', '"']
    } else if c == '\n' {
        seq!['\\', 'n']
    } else {
        seq![c]
    }
}

/// A text as it is written in the label of a metric.
pub open spec fn label_text(s: Seq<char>) -> Seq<char> {
    spread(s, |c: char| label_code(c))
}

/// Writes a text for the label of a metric.
pub fn prometheus_label_value(value: &str) -> (r: String)
    ensures
        r@ == label_text(value@),
{
    let chars = chars_of(value);
    let mut out = String::new();
    let mut i: usize = 0;
    assert(chars@.take(0) =~= Seq::empty());
    assert(out@ =~= Seq::empty());
    while i < chars.len()
        invariant
            i <= chars@.len(),
            out@ == label_text(chars@.take(i as int)),
        decreases chars@.len() - i,
    {
        let c = chars[i];
        let ghost before = out@;
        assert(chars@.take(i + 1).drop_last() =~= chars@.take(i as int));
        if c == '\\' {
            out.push('\\');
            out.push('\\');
        } else if c == '"' {
            out.push('\\');
            out.push('"');
        } else if c == '\n' {
            out.push('\\');
            out.push('n');
        } else {
            out.push(c);
        }
        assert(out@ =~= before + label_code(c));
        i = i + 1;
    }
    assert(chars@.take(i as int) =~= chars@);
    out
}

/// Whether a code gives different characters texts that differ in some place that
/// both have.
pub open spec fn is_code(code: spec_fn(char) -> Seq<char>) -> bool {
    &&& forall|a: char| (#[trigger] code(a)).len() > 0
    &&& forall|a: char, b: char|
        a != b ==> differ(#[trigger] code(a), #[trigger] code(b))
}

/// Whether two texts differ in some place that both have.
pub open spec fn differ(a: Seq<char>, b: Seq<char>) -> bool {
    exists|i: int| 0 <= i < a.len() && i < b.len() && #[trigger] a[i] != b[i]
}

/// A text by its first character and the rest.
proof fn spread_from_the_front(s: Seq<char>, code: spec_fn(char) -> Seq<char>)
    requires
        s.len() > 0,
    ensures
        spread(s, code) == code(s[0]) + spread(s.drop_first(), code),
    decreases s.len(),
{
    if s.len() == 1 {
        assert(s.drop_last() =~= Seq::empty());
        assert(s.drop_first() =~= Seq::empty());
        assert(spread(s, code) =~= code(s[0]) + spread(s.drop_first(), code));
    } else {
        spread_from_the_front(s.drop_last(), code);
        assert(s.drop_last().drop_first() =~= s.drop_first().drop_last());
        assert(s.drop_first().last() == s.last());
        assert(spread(s, code) =~= code(s[0]) + spread(s.drop_first(), code));
    }
}

proof fn codes_tell_texts_apart(
    a: Seq<char>,
    b: Seq<char>,
    code: spec_fn(char) -> Seq<char>,
)
    requires
        is_code(code),
        spread(a, code) == spread(b, code),
    ensures
        a == b,
    decreases a.len(),
{
    if a.len() == 0 || b.len() == 0 {
        if a.len() > 0 {
            spread_from_the_front(a, code);
            assert(code(a[0]).len() > 0);
        }
        if b.len() > 0 {
            spread_from_the_front(b, code);
            assert(code(b[0]).len() > 0);
        }
        assert(a =~= b);
    } else {
        spread_from_the_front(a, code);
        spread_from_the_front(b, code);
        let x = code(a[0]);
        let y = code(b[0]);
        let s = spread(a, code);
        if a[0] != b[0] {
            assert(differ(x, y));
            let i = choose|i: int| 0 <= i < x.len() && i < y.len() && #[trigger] x[i] != y[i];
            assert(s[i] == x[i] && s[i] == y[i]);
        }
        assert(spread(a.drop_first(), code) =~= s.skip(x.len() as int));
        assert(spread(b.drop_first(), code) =~= s.skip(y.len() as int));
        codes_tell_texts_apart(a.drop_first(), b.drop_first(), code);
        assert(a =~= seq![a[0]] + a.drop_first());
        assert(b =~= seq![b[0]] + b.drop_first());
    }
}

/// Different texts are written differently in a page.
pub proof fn escaping_tells_texts_apart(a: Seq<char>, b: Seq<char>)
    requires
        escaped(a) == escaped(b),
    ensures
        a == b,
{
    let code = |c: char| html_code(c);
    html_codes();
    assert forall|x: char, y: char| x != y implies differ(#[trigger] code(x), #[trigger] code(y)) by {
        let p = html_code(x);
        let q = html_code(y);
        if p[0] == '&' && q[0] == '&' {
            assert(p[1] != q[1] || p[2] != q[2] || p[3] != q[3]);
        } else {
            assert(p[0] != q[0]);
        }
    }
    assert forall|x: char| (#[trigger] code(x)).len() > 0 by {
        assert(html_code(x).len() > 0);
    }
    codes_tell_texts_apart(a, b, code);
}

proof fn html_codes()
    ensures
        "&amp;"@ =~= seq!['&', 'a', 'm', 'p', ';'],
        "&lt;"@ =~= seq!['&', 'l', 't', ';'],
        "&gt;"@ =~= seq!['&', 'g', 't', ';'],
        "&quot;"@ =~= seq!['&', 'q', 'u', 'o', 't', ';'],
        "&#39;"@ =~= seq!['&', '#', '3', '9', ';'],
{
    reveal_strlit("&amp;");
    reveal_strlit("&lt;");
    reveal_strlit("&gt;");
    reveal_strlit("&quot;");
    reveal_strlit("&#39;");
}

/// Different texts are written differently in labels.
pub proof fn labels_tell_texts_apart(a: Seq<char>, b: Seq<char>)
    requires
        label_text(a) == label_text(b),
    ensures
        a == b,
{
    let code = |c: char| label_code(c);
    assert forall|x: char, y: char| x != y implies differ(#[trigger] code(x), #[trigger] code(y)) by {
        let p = label_code(x);
        let q = label_code(y);
        if p[0] == q[0] {
            assert(p[1] != q[1]);
        }
    }
    assert forall|x: char| (#[trigger] code(x)).len() > 0 by {
        assert(label_code(x).len() > 0);
    }
    codes_tell_texts_apart(a, b, code);
}

/// What is written in a page holds no character that begins or ends a tag or an
/// attribute.
pub proof fn escaped_text_holds_no_markup(s: Seq<char>)
    ensures
        forall|i: int|
            0 <= i < escaped(s).len() ==> #[trigger] escaped(s)[i] != '<' && escaped(s)[i] != '>'
                && escaped(s)[i] != '"' && escaped(s)[i] != '\'',
    decreases s.len(),
{
    if s.len() > 0 {
        escaped_text_holds_no_markup(s.drop_last());
        html_codes();
        let head = escaped(s.drop_last());
        let tail = html_code(s.last());
        assert(escaped(s) =~= head + tail);
        assert forall|i: int| 0 <= i < escaped(s).len() implies #[trigger] escaped(s)[i] != '<'
            && escaped(s)[i] != '>' && escaped(s)[i] != '"' && escaped(s)[i] != '\'' by {
            if i < head.len() {
                assert(escaped(s)[i] == head[i]);
            } else {
                assert(escaped(s)[i] == tail[i - head.len()]);
            }
        }
    }
}

/// What is written in a label stays on its line.
pub proof fn labels_stay_on_their_line(s: Seq<char>)
    ensures
        forall|i: int| 0 <= i < label_text(s).len() ==> #[trigger] label_text(s)[i] != '\n',
    decreases s.len(),
{
    if s.len() > 0 {
        labels_stay_on_their_line(s.drop_last());
        let head = label_text(s.drop_last());
        let tail = label_code(s.last());
        assert(label_text(s) =~= head + tail);
        assert forall|i: int| 0 <= i < label_text(s).len() implies #[trigger] label_text(s)[i]
            != '\n' by {
            if i < head.len() {
                assert(label_text(s)[i] == head[i]);
            } else {
                assert(label_text(s)[i] == tail[i - head.len()]);
            }
        }
    }
}

}
