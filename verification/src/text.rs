//! Text primitives: what the rest of the library does to strings, stated over
//! the characters of a string (`Seq<char>`).

use vstd::prelude::*;
use vstd::string::*;

verus! {

/// `String::push` (std): appends one character to the end of the string.
pub assume_specification[ String::push ](s: &mut String, ch: char)
    ensures
        final(s)@ == old(s)@.push(ch),
;

/// `str == str` (std): compares the two strings character by character.
pub assume_specification[ <str as PartialEq>::eq ](a: &str, b: &str) -> (r: bool)
    ensures
        r == (a@ == b@),
;

/// The result of formatting a string with std's `{:?}`: the string in double
/// quotes with std's escapes.
pub uninterp spec fn debug_form(s: Seq<char>) -> Seq<char>;

/// Formats a string with `{:?}` through std's `format!`; the contract names the
/// result and says nothing of which characters std escapes.
#[verifier::external_body]
pub(crate) fn debug_text(s: &str) -> (r: String)
    ensures
        r@ == debug_form(s@),
{
    format!("{:?}", s)
}

/// Whether two strings hold the same characters.
pub fn same(a: &str, b: &str) -> (r: bool)
    ensures
        r == (a@ == b@),
{
    *a == *b
}

/// The characters of a string.
pub fn chars_of(s: &str) -> (r: Vec<char>)
    ensures
        r@ == s@,
{
    let mut out: Vec<char> = Vec::new();
    for c in it: s.chars()
        invariant
            out@ == s@.take(it.index() as int),
            it.seq() == s@,
    {
        out.push(c);
    }
    out
}

/// The string made of the characters `lo..hi` of a slice.
pub fn text_between(chars: &Vec<char>, lo: usize, hi: usize) -> (r: String)
    requires
        lo <= hi <= chars@.len(),
    ensures
        r@ == chars@.subrange(lo as int, hi as int),
{
    let mut out = String::new();
    let mut i: usize = lo;
    while i < hi
        invariant
            lo <= i <= hi <= chars@.len(),
            out@ == chars@.subrange(lo as int, i as int),
        decreases hi - i,
    {
        out.push(chars[i]);
        i = i + 1;
    }
    out
}

/// Unicode's `White_Space` property.
pub open spec fn is_space(c: char) -> bool {
    let u = c as u32;
    ||| 0x9 <= u <= 0xd
    ||| u == 0x20
    ||| u == 0x85
    ||| u == 0xa0
    ||| u == 0x1680
    ||| 0x2000 <= u <= 0x200a
    ||| u == 0x2028
    ||| u == 0x2029
    ||| u == 0x202f
    ||| u == 0x205f
    ||| u == 0x3000
}

/// Whether a character is white space.
pub fn char_is_space(c: char) -> (r: bool)
    ensures
        r == is_space(c),
{
    let u: u32 = c as u32;
    (0x9 <= u && u <= 0xd) || u == 0x20 || u == 0x85 || u == 0xa0 || u == 0x1680 || (0x2000 <= u
        && u <= 0x200a) || u == 0x2028 || u == 0x2029 || u == 0x202f || u == 0x205f || u == 0x3000
}

/// A string without its leading white space.
pub open spec fn without_leading_space(s: Seq<char>) -> Seq<char>
    decreases s.len(),
{
    if s.len() > 0 && is_space(s[0]) {
        without_leading_space(s.drop_first())
    } else {
        s
    }
}

/// A string without its trailing white space.
pub open spec fn without_trailing_space(s: Seq<char>) -> Seq<char>
    decreases s.len(),
{
    if s.len() > 0 && is_space(s.last()) {
        without_trailing_space(s.drop_last())
    } else {
        s
    }
}

/// A string without white space at either end.
pub open spec fn trimmed(s: Seq<char>) -> Seq<char> {
    without_trailing_space(without_leading_space(s))
}

/// Removes white space at both ends.
pub fn trim(s: &str) -> (r: String)
    ensures
        r@ == trimmed(s@),
{
    let chars = chars_of(s);
    let mut lo: usize = 0;
    assert(chars@.skip(0) =~= chars@);
    while lo < chars.len() && char_is_space(chars[lo])
        invariant
            lo <= chars@.len(),
            without_leading_space(chars@) == without_leading_space(chars@.skip(lo as int)),
        decreases chars@.len() - lo,
    {
        assert(chars@.skip(lo as int).drop_first() =~= chars@.skip(lo + 1));
        lo = lo + 1;
    }
    let ghost rest = chars@.skip(lo as int);
    let mut hi: usize = chars.len();
    assert(chars@.subrange(lo as int, hi as int) =~= rest);
    while hi > lo && char_is_space(chars[hi - 1])
        invariant
            lo <= hi <= chars@.len(),
            without_trailing_space(rest) == without_trailing_space(
                chars@.subrange(lo as int, hi as int),
            ),
        decreases hi,
    {
        assert(chars@.subrange(lo as int, hi as int).drop_last() =~= chars@.subrange(
            lo as int,
            hi - 1,
        ));
        hi = hi - 1;
    }
    text_between(&chars, lo, hi)
}

/// Trimming leaves no white space at either end.
pub proof fn trimmed_has_no_outer_space(s: Seq<char>)
    ensures
        trimmed(s).len() > 0 ==> !is_space(trimmed(s)[0]) && !is_space(trimmed(s).last()),
        trimmed(s).len() <= s.len(),
{
    leading_space_removed(s);
    trailing_space_removed(without_leading_space(s));
}

proof fn leading_space_removed(s: Seq<char>)
    ensures
        without_leading_space(s).len() > 0 ==> !is_space(without_leading_space(s)[0]),
        without_leading_space(s).len() <= s.len(),
    decreases s.len(),
{
    if s.len() > 0 && is_space(s[0]) {
        leading_space_removed(s.drop_first());
    }
}

proof fn trailing_space_removed(s: Seq<char>)
    ensures
        without_trailing_space(s).len() > 0 ==> !is_space(without_trailing_space(s).last())
            && without_trailing_space(s)[0] == s[0],
        without_trailing_space(s).len() <= s.len(),
    decreases s.len(),
{
    if s.len() > 0 && is_space(s.last()) {
        trailing_space_removed(s.drop_last());
    }
}

/// Trimming twice is trimming once.
pub proof fn trimmed_twice(s: Seq<char>)
    ensures
        trimmed(trimmed(s)) == trimmed(s),
{
    trimmed_has_no_outer_space(s);
}

/// A character with an ASCII capital made small.
pub open spec fn lower_char(c: char) -> char {
    if 'A' <= c && c <= 'Z' {
        ((c as u8) + 32) as char
    } else {
        c
    }
}

/// A string with its ASCII capitals made small.
pub open spec fn lowered(s: Seq<char>) -> Seq<char> {
    s.map_values(|c: char| lower_char(c))
}

/// Makes ASCII capitals small.
pub fn to_lower(s: &str) -> (r: String)
    ensures
        r@ == lowered(s@),
{
    let mut out = String::new();
    for c in it: s.chars()
        invariant
            out@ == lowered(s@.take(it.index() as int)),
            it.seq() == s@,
    {
        let low = if 'A' <= c && c <= 'Z' {
            ((c as u8) + 32) as char
        } else {
            c
        };
        assert(lowered(s@.take(it.index() + 1)) =~= lowered(s@.take(it.index() as int)).push(low));
        out.push(low);
    }
    assert(s@.take(s@.len() as int) =~= s@);
    out
}

/// A string with every `from` replaced by `to`.
pub open spec fn with_char(s: Seq<char>, from: char, to: char) -> Seq<char> {
    s.map_values(|c: char| if c == from { to } else { c })
}

/// Replaces one character by another.
pub fn replace_char(s: &str, from: char, to: char) -> (r: String)
    ensures
        r@ == with_char(s@, from, to),
{
    let mut out = String::new();
    for c in it: s.chars()
        invariant
            out@ == with_char(s@.take(it.index() as int), from, to),
            it.seq() == s@,
    {
        let new = if c == from {
            to
        } else {
            c
        };
        assert(with_char(s@.take(it.index() + 1), from, to) =~= with_char(
            s@.take(it.index() as int),
            from,
            to,
        ).push(new));
        out.push(new);
    }
    assert(s@.take(s@.len() as int) =~= s@);
    out
}

/// The parts of a string between the separators, one more than there are
/// separators.
pub open spec fn split_on(s: Seq<char>, sep: char) -> Seq<Seq<char>>
    decreases s.len(),
{
    if s.len() == 0 {
        seq![Seq::<char>::empty()]
    } else {
        let parts = split_on(s.drop_last(), sep);
        if s.last() == sep {
            parts.push(Seq::empty())
        } else {
            parts.update(parts.len() - 1, parts.last().push(s.last()))
        }
    }
}

/// The characters of each string of a sequence.
pub open spec fn texts(v: Seq<String>) -> Seq<Seq<char>> {
    v.map_values(|s: String| s@)
}

proof fn split_on_is_not_empty(s: Seq<char>, sep: char)
    ensures
        split_on(s, sep).len() > 0,
    decreases s.len(),
{
    if s.len() > 0 {
        split_on_is_not_empty(s.drop_last(), sep);
    }
}

/// Splits a string at every separator.
pub fn split(s: &str, sep: char) -> (r: Vec<String>)
    ensures
        texts(r@) == split_on(s@, sep),
        r@.len() > 0,
{
    let mut done: Vec<String> = Vec::new();
    let mut current = String::new();
    assert(texts(done@).push(current@) =~= split_on(s@.take(0), sep));
    for c in it: s.chars()
        invariant
            texts(done@).push(current@) == split_on(s@.take(it.index() as int), sep),
            it.seq() == s@,
    {
        let ghost before = s@.take(it.index() as int);
        let ghost after = s@.take(it.index() + 1);
        let ghost parts = texts(done@).push(current@);
        assert(after.drop_last() =~= before);
        assert(after.last() == c);
        if c == sep {
            let ghost old_done = done@;
            let finished = current;
            done.push(finished);
            current = String::new();
            assert(texts(done@) =~= parts);
            assert(split_on(after, sep) == parts.push(Seq::empty()));
        } else {
            current.push(c);
            assert(texts(done@).push(current@) =~= parts.update(
                parts.len() - 1,
                parts.last().push(c),
            ));
        }
    }
    assert(s@.take(s@.len() as int) =~= s@);
    let ghost parts = texts(done@).push(current@);
    done.push(current);
    assert(texts(done@) =~= parts);
    done
}

/// Whether `needle` stands in `s` at position `i`.
pub open spec fn occurs_at(s: Seq<char>, needle: Seq<char>, i: int) -> bool {
    0 <= i && i + needle.len() <= s.len() && s.subrange(i, i + needle.len()) == needle
}

/// Whether `needle` stands anywhere in `s`.
pub open spec fn has_text(s: Seq<char>, needle: Seq<char>) -> bool {
    exists|i: int| occurs_at(s, needle, i)
}

/// Whether `s` begins with `prefix`.
pub open spec fn begins_with(s: Seq<char>, prefix: Seq<char>) -> bool {
    prefix.len() <= s.len() && s.take(prefix.len() as int) == prefix
}

/// The first position, at `i` or after it, at which `needle` stands in `s`.
pub open spec fn first_from(s: Seq<char>, needle: Seq<char>, i: int) -> Option<int>
    decreases s.len() - i,
{
    if occurs_at(s, needle, i) {
        Some(i)
    } else if i >= s.len() {
        None
    } else {
        first_from(s, needle, i + 1)
    }
}

/// The first position at which `needle` stands in `s`.
pub open spec fn first_at(s: Seq<char>, needle: Seq<char>) -> Option<int> {
    first_from(s, needle, 0)
}

/// The last position, at `i` or before it, at which `needle` stands in `s`.
pub open spec fn last_from(s: Seq<char>, needle: Seq<char>, i: int) -> Option<int>
    decreases i,
{
    if occurs_at(s, needle, i) {
        Some(i)
    } else if i <= 0 {
        None
    } else {
        last_from(s, needle, i - 1)
    }
}

/// The last position at which `needle` stands in `s`.
pub open spec fn last_at(s: Seq<char>, needle: Seq<char>) -> Option<int> {
    last_from(s, needle, s.len() as int)
}

/// A position at which `needle` stands, with none before it, is the first one.
pub proof fn first_position(s: Seq<char>, needle: Seq<char>, i: int, k: int)
    requires
        0 <= i <= k,
        occurs_at(s, needle, k),
        forall|j: int| i <= j < k ==> !occurs_at(s, needle, j),
    ensures
        first_from(s, needle, i) == Some(k),
    decreases k - i,
{
    if i < k {
        first_position(s, needle, i + 1, k);
    }
}

/// Where `needle` stands nowhere there is no first position.
pub proof fn no_first_position(s: Seq<char>, needle: Seq<char>, i: int)
    requires
        !has_text(s, needle),
    ensures
        first_from(s, needle, i) is None,
    decreases s.len() - i,
{
    assert(!occurs_at(s, needle, i));
    if i < s.len() {
        no_first_position(s, needle, i + 1);
    }
}

/// The first position is one at which `needle` stands, with none before it.
pub proof fn first_position_is_first(s: Seq<char>, needle: Seq<char>, i: int)
    requires
        0 <= i,
    ensures
        match first_from(s, needle, i) {
            Some(k) => i <= k && occurs_at(s, needle, k) && forall|j: int|
                i <= j < k ==> !occurs_at(s, needle, j),
            None => forall|j: int| i <= j ==> !occurs_at(s, needle, j),
        },
    decreases s.len() - i,
{
    if !occurs_at(s, needle, i) && i < s.len() {
        first_position_is_first(s, needle, i + 1);
    }
}

/// A position at which `needle` stands, with none after it, is the last one.
pub proof fn last_position(s: Seq<char>, needle: Seq<char>, i: int, k: int)
    requires
        0 <= k <= i,
        occurs_at(s, needle, k),
        forall|j: int| k < j <= i ==> !occurs_at(s, needle, j),
    ensures
        last_from(s, needle, i) == Some(k),
    decreases i - k,
{
    if k < i {
        last_position(s, needle, i - 1, k);
    }
}

/// Where `needle` stands nowhere there is no last position.
pub proof fn no_last_position(s: Seq<char>, needle: Seq<char>, i: int)
    requires
        !has_text(s, needle),
    ensures
        last_from(s, needle, i) is None,
    decreases i,
{
    assert(!occurs_at(s, needle, i));
    if i > 0 {
        no_last_position(s, needle, i - 1);
    }
}

/// Whether the slice holds `needle` at `i`.
fn chars_occur_at(s: &Vec<char>, needle: &Vec<char>, i: usize) -> (r: bool)
    requires
        i <= s@.len(),
    ensures
        r == occurs_at(s@, needle@, i as int),
{
    if s.len() - i < needle.len() {
        return false;
    }
    let total: usize = s.len();
    let mut k: usize = 0;
    while k < needle.len()
        invariant
            k <= needle@.len(),
            total == s@.len(),
            i + needle@.len() <= total,
            forall|j: int| 0 <= j < k ==> s@[i + j] == needle@[j],
        decreases needle@.len() - k,
    {
        if s[i + k] != needle[k] {
            assert(s@.subrange(i as int, i + needle@.len())[k as int] != needle@[k as int]);
            return false;
        }
        k = k + 1;
    }
    assert(s@.subrange(i as int, i + needle@.len()) =~= needle@);
    true
}

/// The first position of `needle` in `s`, counted in characters.
pub fn find(s: &str, needle: &str) -> (r: Option<usize>)
    ensures
        match r {
            Some(i) => occurs_at(s@, needle@, i as int) && forall|j: int|
                0 <= j < i ==> !occurs_at(s@, needle@, j),
            None => !has_text(s@, needle@),
        },
        match (r, first_at(s@, needle@)) {
            (Some(i), Some(k)) => i == k,
            (None, None) => true,
            _ => false,
        },
{
    let chars = chars_of(s);
    let wanted = chars_of(needle);
    let mut i: usize = 0;
    loop
        invariant
            chars@ == s@,
            wanted@ == needle@,
            i <= chars@.len(),
            forall|j: int| 0 <= j < i ==> !occurs_at(s@, needle@, j),
        decreases chars@.len() - i,
    {
        if chars_occur_at(&chars, &wanted, i) {
            proof {
                first_position(s@, needle@, 0, i as int);
            }
            return Some(i);
        }
        if i == chars.len() {
            assert forall|j: int| !occurs_at(s@, needle@, j) by {
                if occurs_at(s@, needle@, j) {
                    assert(j <= i);
                }
            }
            proof {
                no_first_position(s@, needle@, 0);
            }
            return None;
        }
        i = i + 1;
    }
}

/// The last position of `needle` in `s`, counted in characters.
pub fn rfind(s: &str, needle: &str) -> (r: Option<usize>)
    ensures
        match (r, last_at(s@, needle@)) {
            (Some(i), Some(k)) => i == k && occurs_at(s@, needle@, k),
            (None, None) => true,
            _ => false,
        },
{
    let chars = chars_of(s);
    let wanted = chars_of(needle);
    let mut i: usize = chars.len();
    loop
        invariant
            chars@ == s@,
            wanted@ == needle@,
            i <= chars@.len(),
            forall|j: int| i < j <= chars@.len() ==> !occurs_at(s@, needle@, j),
        decreases i,
    {
        if chars_occur_at(&chars, &wanted, i) {
            proof {
                last_position(s@, needle@, s@.len() as int, i as int);
            }
            return Some(i);
        }
        if i == 0 {
            assert forall|j: int| !occurs_at(s@, needle@, j) by {
                if occurs_at(s@, needle@, j) {
                    assert(j <= s@.len());
                }
            }
            proof {
                no_last_position(s@, needle@, s@.len() as int);
            }
            return None;
        }
        i = i - 1;
    }
}

/// Whether `needle` stands anywhere in `s`.
pub fn contains(s: &str, needle: &str) -> (r: bool)
    ensures
        r == has_text(s@, needle@),
{
    match find(s, needle) {
        Some(i) => {
            assert(occurs_at(s@, needle@, i as int));
            true
        },
        None => false,
    }
}

/// Whether `s` begins with `prefix`.
pub fn starts_with(s: &str, prefix: &str) -> (r: bool)
    ensures
        r == begins_with(s@, prefix@),
{
    let chars = chars_of(s);
    let wanted = chars_of(prefix);
    let r = chars_occur_at(&chars, &wanted, 0);
    assert(prefix@.len() <= s@.len() ==> s@.subrange(0, prefix@.len() as int) =~= s@.take(
        prefix@.len() as int,
    ));
    r
}

/// A decimal digit.
pub open spec fn digit_char(d: nat) -> char {
    if d == 0 {
        '0'
    } else if d == 1 {
        '1'
    } else if d == 2 {
        '2'
    } else if d == 3 {
        '3'
    } else if d == 4 {
        '4'
    } else if d == 5 {
        '5'
    } else if d == 6 {
        '6'
    } else if d == 7 {
        '7'
    } else if d == 8 {
        '8'
    } else {
        '9'
    }
}

/// A number in decimal, without leading zeros.
pub open spec fn dec(n: nat) -> Seq<char>
    decreases n,
{
    if n < 10 {
        seq![digit_char(n)]
    } else {
        dec(n / 10).push(digit_char(n % 10))
    }
}

fn digit_of(d: u128) -> (c: char)
    requires
        d < 10,
    ensures
        c == digit_char(d as nat),
{
    if d == 0 {
        '0'
    } else if d == 1 {
        '1'
    } else if d == 2 {
        '2'
    } else if d == 3 {
        '3'
    } else if d == 4 {
        '4'
    } else if d == 5 {
        '5'
    } else if d == 6 {
        '6'
    } else if d == 7 {
        '7'
    } else if d == 8 {
        '8'
    } else {
        '9'
    }
}

/// Writes a number in decimal.
pub fn decimal_u128(n: u128) -> (r: String)
    ensures
        r@ == dec(n as nat),
    decreases n,
{
    if n < 10 {
        let mut out = String::new();
        out.push(digit_of(n));
        assert(out@ =~= seq![digit_char(n as nat)]);
        out
    } else {
        let mut out = decimal_u128(n / 10);
        out.push(digit_of(n % 10));
        out
    }
}

/// Writes a count in decimal.
pub fn decimal(n: usize) -> (r: String)
    ensures
        r@ == dec(n as nat),
{
    decimal_u128(n as u128)
}

/// Writes a 64-bit number in decimal.
pub fn decimal_u64(n: u64) -> (r: String)
    ensures
        r@ == dec(n as nat),
{
    decimal_u128(n as u128)
}

/// The value of a digit in a radix of up to 16.
pub open spec fn digit_value(c: char, radix: nat) -> Option<nat> {
    let v = if '0' <= c && c <= '9' {
        (c as nat - '0' as nat) as nat
    } else if 'a' <= c && c <= 'f' {
        (c as nat - 'a' as nat + 10) as nat
    } else if 'A' <= c && c <= 'F' {
        (c as nat - 'A' as nat + 10) as nat
    } else {
        16
    };
    if v < radix {
        Some(v)
    } else {
        None
    }
}

/// The value of a string of digits; `None` where a character is no digit.
pub open spec fn digits_value(s: Seq<char>, radix: nat) -> Option<nat>
    decreases s.len(),
{
    if s.len() == 0 {
        Some(0)
    } else {
        match (digits_value(s.drop_last(), radix), digit_value(s.last(), radix)) {
            (Some(high), Some(low)) => Some(high * radix + low),
            _ => None,
        }
    }
}

/// The number that a text denotes: an optional `+`, then at least one digit, and
/// nothing else; `None` where it is none or lies above `max`.
pub open spec fn number_value(s: Seq<char>, radix: nat, max: nat) -> Option<nat> {
    let body = if s.len() > 0 && s[0] == '+' {
        s.drop_first()
    } else {
        s
    };
    if body.len() == 0 {
        None
    } else {
        match digits_value(body, radix) {
            Some(v) => if v <= max {
                Some(v)
            } else {
                None
            },
            None => None,
        }
    }
}

proof fn digits_grow(s: Seq<char>, k: int, radix: nat)
    requires
        0 <= k <= s.len(),
        radix >= 1,
    ensures
        digits_value(s, radix) is Some ==> digits_value(s.take(k), radix) is Some && digits_value(
            s.take(k),
            radix,
        )->0 <= digits_value(s, radix)->0,
    decreases s.len() - k,
{
    if k == s.len() {
        assert(s.take(k) =~= s);
    } else {
        digits_grow(s, k + 1, radix);
        assert(s.take(k + 1).drop_last() =~= s.take(k));
        if digits_value(s, radix) is Some {
            let high = digits_value(s.take(k), radix)->0;
            assert(high <= high * radix) by (nonlinear_arith)
                requires
                    radix >= 1,
            ;
        }
    }
}

fn digit_in(c: char, radix: u128) -> (r: Option<u128>)
    requires
        radix <= 16,
    ensures
        match (r, digit_value(c, radix as nat)) {
            (Some(a), Some(b)) => a == b && a < radix,
            (None, None) => true,
            _ => false,
        },
{
    let u: u32 = c as u32;
    let v: u32 = if '0' <= c && c <= '9' {
        u - 48
    } else if 'a' <= c && c <= 'f' {
        u - 87
    } else if 'A' <= c && c <= 'F' {
        u - 55
    } else {
        16
    };
    if (v as u128) < radix {
        Some(v as u128)
    } else {
        None
    }
}

/// Reads a number in a radix of up to 16, no larger than `max`.
pub fn parse_number(s: &str, radix: u64, max: u64) -> (r: Option<u64>)
    requires
        1 <= radix <= 16,
    ensures
        match (r, number_value(s@, radix as nat, max as nat)) {
            (Some(a), Some(b)) => a == b,
            (None, None) => true,
            _ => false,
        },
{
    let chars = chars_of(s);
    let start: usize = if chars.len() > 0 && chars[0] == '+' {
        1
    } else {
        0
    };
    let ghost body = chars@.skip(start as int);
    assert(start == 1 ==> body =~= s@.drop_first());
    assert(start == 0 ==> body =~= s@);
    if start == chars.len() {
        return None;
    }
    let wide_radix: u128 = radix as u128;
    let mut value: u128 = 0;
    let mut i: usize = start;
    while i < chars.len()
        invariant
            start <= i <= chars@.len(),
            body == chars@.skip(start as int),
            wide_radix == radix,
            1 <= radix <= 16,
            value <= max,
            digits_value(body.take(i - start), radix as nat) == Some(value as nat),
            body.len() > 0,
            number_value(s@, radix as nat, max as nat) == (match digits_value(body, radix as nat) {
                Some(v) => if v <= max {
                    Some(v)
                } else {
                    None
                },
                None => None::<nat>,
            }),
        decreases chars@.len() - i,
    {
        let ghost next = body.take(i - start + 1);
        assert(next.drop_last() =~= body.take(i - start));
        assert(next.last() == chars@[i as int]);
        proof {
            digits_grow(body, i - start + 1, radix as nat);
        }
        match digit_in(chars[i], wide_radix) {
            Some(d) => {
                assert(value * wide_radix <= 0xffff_ffff_ffff_ffff * 16) by (nonlinear_arith)
                    requires
                        0 <= value <= 0xffff_ffff_ffff_ffff,
                        0 <= wide_radix <= 16,
                ;
                value = value * wide_radix + d;
                if value > max as u128 {
                    return None;
                }
            },
            None => {
                return None;
            },
        }
        i = i + 1;
    }
    assert(body.take(i - start) =~= body);
    Some(value as u64)
}

/// The first position of a character at `i` or after it.
pub open spec fn char_from(s: Seq<char>, c: char, i: int) -> Option<int>
    decreases s.len() - i,
{
    if i >= s.len() {
        None
    } else if s[i] == c {
        Some(i)
    } else {
        char_from(s, c, i + 1)
    }
}

/// A string parted at the first occurrence of a character, which belongs to
/// neither part; `None` where it does not occur.
pub open spec fn parted(s: Seq<char>, c: char) -> Option<(Seq<char>, Seq<char>)> {
    match char_from(s, c, 0) {
        Some(i) => Some((s.take(i), s.skip(i + 1))),
        None => None,
    }
}

/// The position of the first occurrence of a character.
pub fn find_char(s: &Vec<char>, c: char) -> (r: Option<usize>)
    ensures
        match (r, char_from(s@, c, 0)) {
            (Some(i), Some(k)) => i == k && i < s@.len(),
            (None, None) => true,
            _ => false,
        },
{
    let mut i: usize = 0;
    while i < s.len()
        invariant
            i <= s@.len(),
            char_from(s@, c, 0) == char_from(s@, c, i as int),
        decreases s@.len() - i,
    {
        if s[i] == c {
            return Some(i);
        }
        i = i + 1;
    }
    None
}

/// Parts a string at the first occurrence of a character.
pub fn split_once(s: &str, c: char) -> (r: Option<(String, String)>)
    ensures
        match (r, parted(s@, c)) {
            (Some((a, b)), Some((x, y))) => a@ == x && b@ == y,
            (None, None) => true,
            _ => false,
        },
{
    let chars = chars_of(s);
    match find_char(&chars, c) {
        None => None,
        Some(i) => {
            assert(chars@.subrange(0, i as int) =~= s@.take(i as int));
            assert(chars@.subrange(i + 1, chars@.len() as int) =~= s@.skip(i + 1));
            let total: usize = chars.len();
            Some((text_between(&chars, 0, i), text_between(&chars, i + 1, total)))
        },
    }
}

/// A line without the carriage return at its end.
pub open spec fn without_return(s: Seq<char>) -> Seq<char> {
    if s.len() > 0 && s.last() == '\r' {
        s.drop_last()
    } else {
        s
    }
}

/// The lines of a text. A line ends at a line feed, which belongs to no line, as
/// does a carriage return before it; text behind the last line feed is a line
/// where there is any.
pub open spec fn lines_of(s: Seq<char>) -> Seq<Seq<char>> {
    let parts = split_on(s, '\n');
    let ended = parts.drop_last().map_values(|p: Seq<char>| without_return(p));
    if parts.last().len() == 0 {
        ended
    } else {
        ended.push(parts.last())
    }
}

fn drop_return(s: &str) -> (r: String)
    ensures
        r@ == without_return(s@),
{
    let chars = chars_of(s);
    let n: usize = chars.len();
    if n > 0 && chars[n - 1] == '\r' {
        assert(chars@.subrange(0, n - 1) =~= s@.drop_last());
        text_between(&chars, 0, n - 1)
    } else {
        s.to_owned()
    }
}

/// The lines of a text.
pub fn lines(s: &str) -> (r: Vec<String>)
    ensures
        texts(r@) == lines_of(s@),
{
    let parts = split(s, '\n');
    let ghost all = texts(parts@);
    let last: usize = parts.len() - 1;
    let mut out: Vec<String> = Vec::new();
    let mut i: usize = 0;
    while i < last
        invariant
            i <= last,
            last == parts@.len() - 1,
            all == texts(parts@),
            out@.len() == i,
            forall|j: int| 0 <= j < i ==> (#[trigger] out@[j])@ == without_return(all[j]),
        decreases last - i,
    {
        out.push(drop_return(parts[i].as_str()));
        i = i + 1;
    }
    assert(texts(out@) =~= all.drop_last().map_values(|p: Seq<char>| without_return(p)));
    if !parts[last].as_str().is_empty() {
        let ghost before = out@;
        out.push(parts[last].clone());
        assert(texts(out@) =~= texts(before).push(all.last()));
    }
    out
}

/// The words of a text: its longest parts without white space.
pub open spec fn words_of(s: Seq<char>) -> Seq<Seq<char>>
    decreases s.len(),
{
    if s.len() == 0 {
        Seq::empty()
    } else {
        let before = words_of(s.drop_last());
        if is_space(s.last()) {
            before
        } else if s.len() >= 2 && !is_space(s[s.len() - 2]) {
            before.update(before.len() - 1, before.last().push(s.last()))
        } else {
            before.push(seq![s.last()])
        }
    }
}

proof fn a_word_is_open(s: Seq<char>)
    requires
        s.len() > 0,
        !is_space(s.last()),
    ensures
        words_of(s).len() > 0,
    decreases s.len(),
{
    if s.len() >= 2 && !is_space(s[s.len() - 2]) {
        a_word_is_open(s.drop_last());
    }
}

/// The words of a text.
pub fn words(s: &str) -> (r: Vec<String>)
    ensures
        texts(r@) == words_of(s@),
{
    let mut done: Vec<String> = Vec::new();
    let mut open = String::new();
    let mut is_open = false;
    assert(texts(done@) =~= words_of(s@.take(0)));
    for c in it: s.chars()
        invariant
            it.seq() == s@,
            is_open == (it.index() > 0 && !is_space(s@[it.index() - 1])),
            is_open ==> open@.len() > 0,
            !is_open ==> open@.len() == 0,
            (if is_open {
                texts(done@).push(open@)
            } else {
                texts(done@)
            }) == words_of(s@.take(it.index() as int)),
    {
        let ghost before = s@.take(it.index() as int);
        let ghost after = s@.take(it.index() + 1);
        let ghost old_done = done@;
        assert(after.drop_last() =~= before);
        assert(after.last() == c);
        if char_is_space(c) {
            if is_open {
                let word = open;
                done.push(word);
                open = String::new();
                is_open = false;
                assert(texts(done@) =~= texts(old_done).push(word@));
            }
        } else {
            let ghost old_open = open@;
            open.push(c);
            if is_open {
                assert(texts(done@).push(open@) =~= texts(done@).push(old_open).update(
                    texts(done@).len() as int,
                    open@,
                ));
            } else {
                is_open = true;
                assert(open@ =~= seq![c]);
            }
        }
    }
    assert(s@.take(s@.len() as int) =~= s@);
    if is_open {
        let ghost old_done = done@;
        done.push(open);
        assert(texts(done@) =~= texts(old_done).push(open@));
    }
    done
}

/// A string without the given character at its end.
pub open spec fn without_trailing(s: Seq<char>, c: char) -> Seq<char>
    decreases s.len(),
{
    if s.len() > 0 && s.last() == c {
        without_trailing(s.drop_last(), c)
    } else {
        s
    }
}

/// Removes a character from the end, as often as it stands there.
pub fn trim_end_char(s: &str, c: char) -> (r: String)
    ensures
        r@ == without_trailing(s@, c),
{
    let chars = chars_of(s);
    let mut hi: usize = chars.len();
    assert(chars@.subrange(0, hi as int) =~= s@);
    while hi > 0 && chars[hi - 1] == c
        invariant
            hi <= chars@.len(),
            without_trailing(s@, c) == without_trailing(chars@.subrange(0, hi as int), c),
        decreases hi,
    {
        assert(chars@.subrange(0, hi as int).drop_last() =~= chars@.subrange(0, hi - 1));
        hi = hi - 1;
    }
    text_between(&chars, 0, hi)
}

/// Whether a character occurs in a string.
pub open spec fn has_char(s: Seq<char>, c: char) -> bool {
    exists|i: int| 0 <= i < s.len() && #[trigger] s[i] == c
}

/// Whether a character occurs in a string.
pub fn contains_char(s: &str, c: char) -> (r: bool)
    ensures
        r == has_char(s@, c),
{
    let chars = chars_of(s);
    let mut i: usize = 0;
    while i < chars.len()
        invariant
            i <= chars@.len(),
            chars@ == s@,
            forall|j: int| 0 <= j < i ==> #[trigger] s@[j] != c,
        decreases chars@.len() - i,
    {
        if chars[i] == c {
            assert(s@[i as int] == c);
            return true;
        }
        i = i + 1;
    }
    false
}

/// Whether two strings are equal but for the case of ASCII letters.
pub fn same_ignoring_case(a: &str, b: &str) -> (r: bool)
    ensures
        r == (lowered(a@) == lowered(b@)),
{
    same(to_lower(a).as_str(), to_lower(b).as_str())
}


/// Whether a list holds a text.
pub fn is_listed(list: &Vec<String>, text: &str) -> (r: bool)
    ensures
        r == texts(list@).contains(text@),
{
    let ghost all = texts(list@);
    let mut i: usize = 0;
    while i < list.len()
        invariant
            i <= list@.len(),
            all == texts(list@),
            forall|j: int| 0 <= j < i ==> all[j] != text@,
        decreases list@.len() - i,
    {
        assert(all[i as int] == list@[i as int]@);
        if same(list[i].as_str(), text) {
            assert(all.contains(text@));
            return true;
        }
        i = i + 1;
    }
    false
}

/// Making letters small turns each of the capitals A to Z into its small letter, in
/// place, and leaves every other character.
pub proof fn lowering_letters(s: Seq<char>, i: int)
    requires
        0 <= i < s.len(),
    ensures
        lowered(s).len() == s.len(),
        'A' <= s[i] <= 'Z' ==> lowered(s)[i] as int == s[i] as int + 32 && 'a' <= lowered(s)[i]
            <= 'z',
        !('A' <= s[i] <= 'Z') ==> lowered(s)[i] == s[i],
        lowered(lowered(s)) == lowered(s),
{
    assert(lowered(lowered(s)) =~= lowered(s));
}

/// Whether every character is white space.
pub open spec fn all_space(s: Seq<char>) -> bool {
    forall|i: int| 0 <= i < s.len() ==> is_space(#[trigger] s[i])
}

proof fn leading_space_is_cut(s: Seq<char>) -> (left: Seq<char>)
    ensures
        s == left + without_leading_space(s),
        all_space(left),
    decreases s.len(),
{
    if s.len() > 0 && is_space(s[0]) {
        let rest = leading_space_is_cut(s.drop_first());
        let left = seq![s[0]] + rest;
        assert(s =~= seq![s[0]] + s.drop_first());
        assert(s =~= left + without_leading_space(s));
        assert forall|i: int| 0 <= i < left.len() implies is_space(#[trigger] left[i]) by {
            if i > 0 {
                assert(left[i] == rest[i - 1]);
            }
        }
        left
    } else {
        assert(s =~= Seq::<char>::empty() + s);
        Seq::empty()
    }
}

proof fn trailing_space_is_cut(s: Seq<char>) -> (right: Seq<char>)
    ensures
        s == without_trailing_space(s) + right,
        all_space(right),
    decreases s.len(),
{
    if s.len() > 0 && is_space(s.last()) {
        let rest = trailing_space_is_cut(s.drop_last());
        let right = rest.push(s.last());
        assert(s =~= s.drop_last().push(s.last()));
        assert(s =~= without_trailing_space(s) + right);
        right
    } else {
        assert(s =~= s + Seq::<char>::empty());
        Seq::empty()
    }
}

/// Trimming cuts white space off both ends, and nothing else.
pub proof fn trimming_cuts_space_alone(s: Seq<char>)
    ensures
        exists|left: Seq<char>, right: Seq<char>|
            #[trigger] all_space(left) && #[trigger] all_space(right) && s == left + trimmed(s)
                + right,
        is_space(' ') && is_space('\t') && is_space('\n') && is_space('\r'),
        !is_space('a') && !is_space('0') && !is_space('-') && !is_space(':'),
{
    let left = leading_space_is_cut(s);
    let middle = without_leading_space(s);
    let right = trailing_space_is_cut(middle);
    assert(s =~= left + trimmed(s) + right);
}

/// Replacing a character changes the places where it stands, and no others.
pub proof fn replacing_characters(s: Seq<char>, from: char, to: char, i: int)
    requires
        0 <= i < s.len(),
    ensures
        with_char(s, from, to).len() == s.len(),
        s[i] == from ==> with_char(s, from, to)[i] == to,
        s[i] != from ==> with_char(s, from, to)[i] == s[i],
{
}

/// The parts, with the separator between them.
pub open spec fn put_together(parts: Seq<Seq<char>>, sep: char) -> Seq<char>
    decreases parts.len(),
{
    if parts.len() == 0 {
        Seq::empty()
    } else if parts.len() == 1 {
        parts[0]
    } else {
        put_together(parts.drop_last(), sep) + seq![sep] + parts.last()
    }
}

/// Splitting is undone by putting the parts together with the separator between them,
/// and no part holds the separator.
pub proof fn splitting_is_undone(s: Seq<char>, sep: char)
    ensures
        split_on(s, sep).len() >= 1,
        put_together(split_on(s, sep), sep) == s,
        forall|i: int|
            0 <= i < split_on(s, sep).len() ==> !has_char(#[trigger] split_on(s, sep)[i], sep),
    decreases s.len(),
{
    let all = split_on(s, sep);
    if s.len() > 0 {
        let front = s.drop_last();
        let parts = split_on(front, sep);
        splitting_is_undone(front, sep);
        assert(s =~= front.push(s.last()));
        if s.last() == sep {
            assert(all.drop_last() =~= parts);
            assert(put_together(all, sep) =~= s);
            assert forall|i: int| 0 <= i < all.len() implies !has_char(#[trigger] all[i], sep) by {
                if i < parts.len() {
                    assert(all[i] == parts[i]);
                }
            }
        } else {
            assert(all.drop_last() =~= parts.drop_last());
            assert(all.last() == parts.last().push(s.last()));
            if parts.len() == 1 {
                assert(put_together(parts, sep) == parts[0]);
                assert(put_together(all, sep) == all[0]);
            }
            assert(put_together(all, sep) =~= s);
            assert forall|i: int| 0 <= i < all.len() implies !has_char(#[trigger] all[i], sep) by {
                if i < parts.len() - 1 {
                    assert(all[i] == parts[i]);
                } else {
                    let p = parts[i];
                    assert(!has_char(p, sep));
                    assert(all[i] == p.push(s.last()));
                    if has_char(all[i], sep) {
                        let k = choose|k: int| 0 <= k < all[i].len() && #[trigger] all[i][k] == sep;
                        assert(k < p.len());
                        assert(p[k] == sep);
                    }
                }
            }
        }
    } else {
        assert(all =~= seq![Seq::<char>::empty()]);
    }
}

/// Searching forwards finds the first occurrence, searching backwards the last one, and
/// each finds one wherever there is one.
pub proof fn searches_find_the_outermost(s: Seq<char>, needle: Seq<char>)
    ensures
        has_text(s, needle) <==> first_at(s, needle) is Some,
        has_text(s, needle) <==> last_at(s, needle) is Some,
        first_at(s, needle) matches Some(k) ==> occurs_at(s, needle, k) && forall|j: int|
            occurs_at(s, needle, j) ==> k <= j,
        last_at(s, needle) matches Some(k) ==> occurs_at(s, needle, k) && forall|j: int|
            occurs_at(s, needle, j) ==> j <= k,
{
    first_position_is_first(s, needle, 0);
    last_position_is_last(s, needle, s.len() as int);
}

proof fn last_position_is_last(s: Seq<char>, needle: Seq<char>, i: int)
    requires
        0 <= i,
    ensures
        match last_from(s, needle, i) {
            Some(k) => 0 <= k <= i && occurs_at(s, needle, k) && forall|j: int|
                k < j <= i ==> !occurs_at(s, needle, j),
            None => forall|j: int| 0 <= j <= i ==> !occurs_at(s, needle, j),
        },
    decreases i,
{
    if !occurs_at(s, needle, i) && i > 0 {
        last_position_is_last(s, needle, i - 1);
    }
}

/// A text begins with a prefix exactly where it is the prefix with something behind it.
pub proof fn prefixes_stand_in_front(s: Seq<char>, prefix: Seq<char>)
    ensures
        begins_with(s, prefix) <==> exists|rest: Seq<char>| s == #[trigger] (prefix + rest),
        begins_with(s, prefix) <==> occurs_at(s, prefix, 0),
{
    if begins_with(s, prefix) {
        assert(s =~= prefix + s.skip(prefix.len() as int));
    }
    if exists|rest: Seq<char>| s == #[trigger] (prefix + rest) {
        let rest = choose|rest: Seq<char>| s == #[trigger] (prefix + rest);
        assert(s.take(prefix.len() as int) =~= prefix);
    }
}

proof fn first_characters_are_found(s: Seq<char>, c: char, i: int)
    requires
        0 <= i,
    ensures
        match char_from(s, c, i) {
            Some(k) => i <= k < s.len() && s[k] == c && forall|j: int| i <= j < k ==> s[j] != c,
            None => forall|j: int| i <= j < s.len() ==> s[j] != c,
        },
    decreases s.len() - i,
{
    if i < s.len() && s[i] != c {
        first_characters_are_found(s, c, i + 1);
    }
}

/// A text is parted at the first separator: what stands before it holds none, and the
/// two sides with the separator between them are the text.
pub proof fn parting_is_undone(s: Seq<char>, c: char)
    ensures
        parted(s, c) is Some <==> has_char(s, c),
        parted(s, c) matches Some((before, after)) ==> s == before + seq![c] + after && !has_char(
            before,
            c,
        ),
{
    first_characters_are_found(s, c, 0);
    match char_from(s, c, 0) {
        Some(k) => {
            let (before, after) = (s.take(k), s.skip(k + 1));
            assert(s =~= before + seq![c] + after);
            if has_char(before, c) {
                let j = choose|j: int| 0 <= j < before.len() && #[trigger] before[j] == c;
                assert(s[j] == c);
            }
        },
        None => {},
    }
}

/// Digits stand for their values, in decimal and in hexadecimal, in either case.
pub proof fn digits_have_values(c: char, d: nat)
    ensures
        d < 10 ==> digit_char(d) as nat == '0' as nat + d,
        d < 10 ==> dec(d) == seq![digit_char(d)],
        d >= 10 ==> dec(d) == dec(d / 10) + dec(d % 10),
        '0' <= c <= '9' ==> digit_value(c, 10) == Some((c as nat - '0' as nat) as nat)
            && digit_value(c, 16) == digit_value(c, 10),
        'a' <= c <= 'f' ==> digit_value(c, 16) == Some((c as nat - 'a' as nat + 10) as nat),
        'A' <= c <= 'F' ==> digit_value(c, 16) == digit_value(lower_char(c), 16),
        digit_value(c, 10) is Some ==> '0' <= c <= '9',
        digit_value(c, 16) is Some ==> '0' <= c <= '9' || 'a' <= c <= 'f' || 'A' <= c <= 'F',
{
    if d >= 10 {
        assert(dec(d) =~= dec(d / 10) + dec(d % 10));
    }
}

/// A number is its digits, each worth as many of the next as the radix says; a sign in
/// front changes nothing, and what is no number or too large is refused.
pub proof fn numbers_are_read_by_place(s: Seq<char>, c: char, radix: nat, max: nat)
    requires
        s.len() > 0,
        s[0] != '+',
    ensures
        number_value(s, radix, max) is Some <==> digits_value(s, radix) is Some && digits_value(
            s,
            radix,
        )->0 <= max,
        number_value(s, radix, max) is Some ==> number_value(s, radix, max) == digits_value(
            s,
            radix,
        ),
        number_value(seq!['+'] + s, radix, max) == number_value(s, radix, max),
        digits_value(s, radix) is Some && digit_value(c, radix) is Some ==> digits_value(
            s.push(c),
            radix,
        ) == Some(digits_value(s, radix)->0 * radix + digit_value(c, radix)->0),
        digits_value(seq![c], radix) == digit_value(c, radix),
        number_value(Seq::empty(), radix, max) is None,
{
    assert((seq!['+'] + s).drop_first() =~= s);
    assert(s.push(c).drop_last() =~= s);
    assert(seq![c].drop_last() =~= Seq::<char>::empty());
    assert(digits_value(Seq::<char>::empty(), radix) == Some(0nat));
    assert(0 * radix == 0) by (nonlinear_arith);
}

/// The characters that are no white space, in their order.
pub open spec fn without_space(s: Seq<char>) -> Seq<char> {
    s.filter(|c: char| !is_space(c))
}

/// The texts behind each other.
pub open spec fn run_together(all: Seq<Seq<char>>) -> Seq<char>
    decreases all.len(),
{
    if all.len() == 0 {
        Seq::empty()
    } else {
        run_together(all.drop_last()) + all.last()
    }
}

/// The words of a text hold every character that is no white space, in order; none is
/// empty, and none holds white space.
pub proof fn words_hold_the_text(s: Seq<char>)
    ensures
        run_together(words_of(s)) == without_space(s),
        forall|i: int|
            0 <= i < words_of(s).len() ==> (#[trigger] words_of(s)[i]).len() > 0,
        forall|i: int, k: int|
            0 <= i < words_of(s).len() && 0 <= k < words_of(s)[i].len() ==> !is_space(
                #[trigger] words_of(s)[i][k],
            ),
        s.len() > 0 && !is_space(s.last()) ==> words_of(s).len() > 0,
    decreases s.len(),
{
    let kept = |c: char| !is_space(c);
    reveal(Seq::filter);
    if s.len() > 0 {
        let front = s.drop_last();
        let before = words_of(front);
        let all = words_of(s);
        words_hold_the_text(front);
        if !is_space(s.last()) {
            if s.len() >= 2 && !is_space(s[s.len() - 2]) {
                assert(front.last() == s[s.len() - 2]);
                assert(before.len() > 0);
                assert(all.drop_last() =~= before.drop_last());
                assert(all.last() == before.last().push(s.last()));
                assert(run_together(all) =~= run_together(before).push(s.last()));
            } else {
                assert(all.drop_last() =~= before);
                assert(run_together(all) =~= run_together(before).push(s.last()));
            }
            assert(without_space(s) =~= without_space(front).push(s.last()));
        } else {
            assert(without_space(s) =~= without_space(front));
        }
    } else {
        assert(without_space(s) =~= Seq::<char>::empty());
    }
}

/// The lines of a text hold no line break, and putting them together gives the text
/// where no line ends in a carriage return and the text ends without a break.
pub proof fn lines_are_parts(s: Seq<char>)
    ensures
        forall|i: int| 0 <= i < lines_of(s).len() ==> !has_char(#[trigger] lines_of(s)[i], '\n'),
        !has_char(s, '\r') && s.len() > 0 && s.last() != '\n' ==> put_together(
            lines_of(s),
            '\n',
        ) == s,
{
    let parts = split_on(s, '\n');
    splitting_is_undone(s, '\n');
    let all = lines_of(s);
    let ended = parts.drop_last().map_values(|p: Seq<char>| without_return(p));
    assert forall|i: int| 0 <= i < all.len() implies !has_char(#[trigger] all[i], '\n') by {
        let p = parts[i];
        assert(!has_char(p, '\n'));
        if i < ended.len() {
            assert(all[i] == without_return(p));
        } else {
            assert(all[i] == p);
        }
        if has_char(all[i], '\n') {
            let k = choose|k: int| 0 <= k < all[i].len() && #[trigger] all[i][k] == '\n';
            assert(p[k] == '\n');
        }
    }
    if !has_char(s, '\r') && s.len() > 0 && s.last() != '\n' {
        parts_hold_only_the_text(s, '\n', '\r');
        assert forall|i: int| 0 <= i < ended.len() implies #[trigger] ended[i] == parts[i] by {
            assert(!has_char(parts[i], '\r'));
            if parts[i].len() > 0 {
                assert(parts[i][parts[i].len() - 1] != '\r');
            }
        }
        assert(ended =~= parts.drop_last());
        assert(parts.last().len() > 0);
        assert(all =~= parts);
    }
}

proof fn parts_hold_only_the_text(s: Seq<char>, sep: char, c: char)
    requires
        !has_char(s, c),
    ensures
        split_on(s, sep).len() >= 1,
        forall|i: int|
            0 <= i < split_on(s, sep).len() ==> !has_char(#[trigger] split_on(s, sep)[i], c),
        s.len() > 0 && s.last() != sep ==> split_on(s, sep).last().len() > 0,
    decreases s.len(),
{
    let all = split_on(s, sep);
    if s.len() > 0 {
        let front = s.drop_last();
        let parts = split_on(front, sep);
        if has_char(front, c) {
            let k = choose|k: int| 0 <= k < front.len() && #[trigger] front[k] == c;
            assert(s[k] == c);
        }
        parts_hold_only_the_text(front, sep, c);
        assert(s[s.len() - 1] != c);
        assert forall|i: int| 0 <= i < all.len() implies !has_char(#[trigger] all[i], c) by {
            if i < parts.len() {
                let p = parts[i];
                assert(!has_char(p, c));
                if has_char(all[i], c) {
                    let k = choose|k: int| 0 <= k < all[i].len() && #[trigger] all[i][k] == c;
                    assert(k < p.len());
                    assert(p[k] == c);
                }
            }
        }
    }
}

/// Cutting a character off the end leaves a text that does not end in it, and cuts
/// nothing else.
pub proof fn trailing_characters_are_cut(s: Seq<char>, c: char)
    ensures
        ({
            let r = without_trailing(s, c);
            &&& r.is_prefix_of(s)
            &&& r.len() > 0 ==> r.last() != c
            &&& forall|i: int| r.len() <= i < s.len() ==> #[trigger] s[i] == c
        }),
    decreases s.len(),
{
    if s.len() > 0 && s.last() == c {
        trailing_characters_are_cut(s.drop_last(), c);
        let r = without_trailing(s, c);
        assert(s.drop_last().subrange(0, r.len() as int) =~= r);
        assert(s.subrange(0, r.len() as int) =~= r);
        assert forall|i: int| r.len() <= i < s.len() implies #[trigger] s[i] == c by {
            if i < s.len() - 1 {
                assert(s.drop_last()[i] == c);
            }
        }
    } else {
        assert(s.subrange(0, s.len() as int) =~= s);
    }
}

/// A text without the separator is its only part, and the parts of two texts with the
/// separator between them are those of the one and then those of the other.
pub proof fn parts_stand_side_by_side(a: Seq<char>, b: Seq<char>, sep: char)
    ensures
        !has_char(a, sep) ==> split_on(a, sep) == seq![a],
        split_on(a + seq![sep] + b, sep) == split_on(a, sep) + split_on(b, sep),
    decreases a.len() + b.len(),
{
    if b.len() > 0 {
        let front = b.drop_last();
        parts_stand_side_by_side(a, front, sep);
        let all = a + seq![sep] + b;
        assert(all.drop_last() =~= a + seq![sep] + front);
        assert(all.last() == b.last());
        splitting_is_undone(front, sep);
        let (left, right) = (split_on(a, sep), split_on(front, sep));
        assert((left + right).last() == right.last());
        assert(split_on(all, sep) =~= left + split_on(b, sep));
    } else {
        if a.len() > 0 {
            let front = a.drop_last();
            parts_stand_side_by_side(front, b, sep);
            if !has_char(a, sep) {
                if has_char(front, sep) {
                    let k = choose|k: int| 0 <= k < front.len() && #[trigger] front[k] == sep;
                    assert(a[k] == sep);
                }
                assert(a[a.len() - 1] != sep);
                assert(front.push(a.last()) =~= a);
                assert(split_on(a, sep) =~= seq![a]);
            }
        } else {
            assert(a =~= Seq::<char>::empty());
        }
        let all = a + seq![sep] + b;
        assert(all.drop_last() =~= a);
        assert(split_on(b, sep) =~= seq![Seq::<char>::empty()]);
        assert(split_on(all, sep) =~= split_on(a, sep) + split_on(b, sep));
    }
}

/// What a text holds, every text that holds it holds as well.
pub proof fn parts_of_parts_are_held(s: Seq<char>, part: Seq<char>, inner: Seq<char>)
    requires
        has_text(s, part),
        has_text(part, inner),
    ensures
        has_text(s, inner),
{
    let i = choose|i: int| occurs_at(s, part, i);
    let j = choose|j: int| occurs_at(part, inner, j);
    assert(s.subrange(i, i + part.len()) == part);
    assert(s.subrange(i + j, i + j + inner.len()) =~= s.subrange(i, i + part.len()).subrange(
        j,
        j + inner.len(),
    ));
    assert(occurs_at(s, inner, i + j));
}

}
