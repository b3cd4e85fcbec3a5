//! Identifiers: requests, problems, jobs and their retries, cache keys.

use crate::model::text_view;
use crate::text::{
    chars_of, dec, decimal, decimal_u64, digit_char, digit_value, digits_value, find, first_at,
    first_position, first_position_is_first, has_text, last_at, last_position, lower_char, lowered,
    no_first_position, no_last_position, number_value, occurs_at, parse_number, rfind, text_between,
    trim, trimmed,
};
use vstd::prelude::*;
use vstd::string::*;

verus! {

// Universally unique identifiers.

/// A hexadecimal digit.
pub open spec fn is_hex(c: char) -> bool {
    digit_value(c, 16) is Some
}

/// Five groups of hexadecimal digits with hyphens between them.
pub open spec fn is_hyphenated(s: Seq<char>) -> bool {
    &&& s.len() == 36
    &&& forall|i: int|
        0 <= i < 36 ==> if i == 8 || i == 13 || i == 18 || i == 23 {
            #[trigger] s[i] == '-'
        } else {
            is_hex(s[i])
        }
}

/// The identifier that a text denotes, in its hyphenated form with small
/// letters: 32 digits, the hyphenated form, the hyphenated form in braces, or
/// behind `urn:uuid:` in any case.
pub open spec fn canonical_uuid(s: Seq<char>) -> Option<Seq<char>> {
    if s.len() == 32 {
        if forall|i: int| 0 <= i < 32 ==> is_hex(#[trigger] s[i]) {
            Some(
                lowered(
                    s.subrange(0, 8) + seq!['-'] + s.subrange(8, 12) + seq!['-'] + s.subrange(
                        12,
                        16,
                    ) + seq!['-'] + s.subrange(16, 20) + seq!['-'] + s.subrange(20, 32),
                ),
            )
        } else {
            None
        }
    } else if is_hyphenated(s) {
        Some(lowered(s))
    } else if s.len() == 38 && s[0] == '{' && s[37] == '}' && is_hyphenated(s.subrange(1, 37)) {
        Some(lowered(s.subrange(1, 37)))
    } else if s.len() == 45 && lowered(s.take(9)) == "urn:uuid:"@ && is_hyphenated(s.skip(9)) {
        Some(lowered(s.skip(9)))
    } else {
        None
    }
}

/// Whether a text is a random identifier in its hyphenated form with small
/// letters.
pub open spec fn is_random_uuid(s: Seq<char>) -> bool {
    &&& is_hyphenated(s)
    &&& lowered(s) == s
    &&& s[14] == '4'
    &&& (s[19] == '8' || s[19] == '9' || s[19] == 'a' || s[19] == 'b')
}

/// `uuid::Uuid::parse_str`, and `to_string` of what it gives: reads an identifier
/// and writes it in its hyphenated form with small letters. The contract says
/// which texts are read and what is written.
#[verifier::external_body]
pub(crate) fn parse_uuid(text: &str) -> (r: Option<String>)
    ensures
        text_view(r) == canonical_uuid(text@),
{
    match uuid::Uuid::parse_str(text) {
        Ok(id) => Some(id.to_string()),
        Err(_) => None,
    }
}

/// `uuid::Uuid::new_v4`, written by `to_string`: a fresh random identifier. The
/// contract says the form that every one has, and nothing of which one comes.
#[verifier::external_body]
pub(crate) fn random_uuid() -> (r: String)
    ensures
        is_random_uuid(r@),
{
    uuid::Uuid::new_v4().to_string()
}

/// A fresh random identifier.
pub fn new_uuid_string() -> (r: String)
    ensures
        is_random_uuid(r@),
{
    random_uuid()
}

proof fn lowering_hex(c: char)
    requires
        is_hex(c),
    ensures
        is_hex(lower_char(c)),
        lower_char(lower_char(c)) == lower_char(c),
{
}

/// The canonical form of an identifier is its own canonical form.
pub proof fn canonical_twice(s: Seq<char>)
    requires
        canonical_uuid(s) is Some,
    ensures
        canonical_uuid(canonical_uuid(s)->0) == canonical_uuid(s),
{
    let c = canonical_uuid(s)->0;
    assert(is_hyphenated(c)) by {
        if s.len() == 32 {
            let joined = s.subrange(0, 8) + seq!['-'] + s.subrange(8, 12) + seq!['-']
                + s.subrange(12, 16) + seq!['-'] + s.subrange(16, 20) + seq!['-'] + s.subrange(
                20,
                32,
            );
            assert forall|i: int| 0 <= i < 36 implies if i == 8 || i == 13 || i == 18 || i == 23 {
                #[trigger] c[i] == '-'
            } else {
                is_hex(c[i])
            } by {
                if i < 8 {
                    assert(joined[i] == s[i]);
                    lowering_hex(s[i]);
                } else if 8 < i < 13 {
                    assert(joined[i] == s[i - 1]);
                    lowering_hex(s[i - 1]);
                } else if 13 < i < 18 {
                    assert(joined[i] == s[i - 2]);
                    lowering_hex(s[i - 2]);
                } else if 18 < i < 23 {
                    assert(joined[i] == s[i - 3]);
                    lowering_hex(s[i - 3]);
                } else if 23 < i {
                    assert(joined[i] == s[i - 4]);
                    lowering_hex(s[i - 4]);
                }
            }
        } else {
            let body = if is_hyphenated(s) {
                s
            } else if s.len() == 38 {
                s.subrange(1, 37)
            } else {
                s.skip(9)
            };
            assert(is_hyphenated(body) && c == lowered(body));
            assert forall|i: int| 0 <= i < 36 implies if i == 8 || i == 13 || i == 18 || i == 23 {
                #[trigger] c[i] == '-'
            } else {
                is_hex(c[i])
            } by {
                assert(c[i] == lower_char(body[i]));
                if is_hex(body[i]) {
                    lowering_hex(body[i]);
                }
            }
        }
    }
    assert(lowered(c) =~= c);
}

/// A fresh identifier is in canonical form.
pub proof fn random_uuids_are_canonical(s: Seq<char>)
    requires
        is_random_uuid(s),
    ensures
        canonical_uuid(s) == Some(s),
{
}

// Requests and problems.

/// The name of a request: the caller's without the white space around it, or one
/// made of a fresh identifier where the caller gave none.
pub open spec fn request_name(input: Option<Seq<char>>, fresh: Seq<char>) -> Seq<char> {
    match input {
        Some(s) => if trimmed(s).len() > 0 {
            trimmed(s)
        } else {
            "mip-"@ + fresh
        },
        None => "mip-"@ + fresh,
    }
}

/// The name of a request, given a fresh identifier.
pub fn request_id_with(input: Option<String>, fresh: &str) -> (r: String)
    ensures
        r@ == request_name(text_view(input), fresh@),
{
    if let Some(s) = input {
        let kept = trim(s.as_str());
        if !kept.as_str().is_empty() {
            return kept;
        }
    }
    let mut out = "mip-".to_owned();
    out.append(fresh);
    out
}

/// The name of a request, a fresh one where the caller gave none.
pub fn request_id(input: Option<String>) -> (r: String)
    ensures
        exists|fresh: Seq<char>| #[trigger]
            is_random_uuid(fresh) && r@ == request_name(text_view(input), fresh),
{
    let fresh = random_uuid();
    request_id_with(input, fresh.as_str())
}

/// The identifier of a problem: the caller's, which must be a UUID; without one,
/// that of the request where it is a UUID, else a fresh one.
pub open spec fn problem_name(
    input: Option<Seq<char>>,
    request_id: Seq<char>,
    fresh: Seq<char>,
) -> Result<Seq<char>, Seq<char>> {
    match input {
        Some(s) => match canonical_uuid(trimmed(s)) {
            Some(c) => Ok(c),
            None => Err("problemId must be a UUID"@),
        },
        None => match canonical_uuid(request_id) {
            Some(c) => Ok(c),
            None => Ok(fresh),
        },
    }
}

/// The identifier of a problem, given a fresh identifier.
pub fn problem_id_with(input: Option<String>, request_id: &str, fresh: &str) -> (r: Result<
    String,
    String,
>)
    ensures
        match (r, problem_name(text_view(input), request_id@, fresh@)) {
            (Ok(a), Ok(b)) => a@ == b,
            (Err(e), Err(m)) => e@ == m,
            _ => false,
        },
{
    match input {
        Some(s) => match parse_uuid(trim(s.as_str()).as_str()) {
            Some(id) => Ok(id),
            None => Err("problemId must be a UUID".to_owned()),
        },
        None => match parse_uuid(request_id) {
            Some(id) => Ok(id),
            None => Ok(fresh.to_owned()),
        },
    }
}

/// The identifier of a problem, a fresh one where neither the caller nor the
/// request gives one.
pub fn problem_id(input: Option<String>, request_id: &str) -> (r: Result<String, String>)
    ensures
        exists|fresh: Seq<char>| #[trigger]
            is_random_uuid(fresh) && match (
                r,
                problem_name(text_view(input), request_id@, fresh),
            ) {
                (Ok(a), Ok(b)) => a@ == b,
                (Err(e), Err(m)) => e@ == m,
                _ => false,
            },
{
    let fresh = random_uuid();
    problem_id_with(input, request_id, fresh.as_str())
}

/// Every identifier given to a problem is canonical.
pub proof fn problem_names_are_canonical(
    input: Option<Seq<char>>,
    request_id: Seq<char>,
    fresh: Seq<char>,
)
    requires
        is_random_uuid(fresh),
    ensures
        problem_name(input, request_id, fresh) matches Ok(id) ==> canonical_uuid(id) == Some(id),
{
    random_uuids_are_canonical(fresh);
    match input {
        Some(s) => {
            if canonical_uuid(trimmed(s)) is Some {
                canonical_twice(trimmed(s));
            }
        },
        None => {
            if canonical_uuid(request_id) is Some {
                canonical_twice(request_id);
            }
        },
    }
}

// Jobs and their retries.

/// A job identifier without its retries: what stands before the first `-retry-`.
pub open spec fn retry_root(id: Seq<char>) -> Seq<char> {
    match first_at(id, "-retry-"@) {
        Some(i) => id.take(i),
        None => id,
    }
}

/// The number of a retry: the number behind the last `-retry-`, zero where there
/// is none.
pub open spec fn retry_index(id: Seq<char>) -> nat {
    match last_at(id, "-retry-"@) {
        Some(i) => match number_value(id.skip(i + 7), 10, usize::MAX as nat) {
            Some(n) => n,
            None => 0,
        },
        None => 0,
    }
}

/// The identifier of a retry.
pub open spec fn retry_id(root: Seq<char>, index: nat) -> Seq<char> {
    root + "-retry-"@ + dec(index)
}

/// The job identifier without its retries.
pub fn job_retry_root(job_id: &str) -> (r: String)
    ensures
        r@ == retry_root(job_id@),
{
    match find(job_id, "-retry-") {
        Some(i) => {
            let chars = chars_of(job_id);
            assert(chars@.subrange(0, i as int) =~= job_id@.take(i as int));
            text_between(&chars, 0, i)
        },
        None => job_id.to_owned(),
    }
}

/// The number of a retry.
pub fn job_retry_index(job_id: &str) -> (r: usize)
    ensures
        r == retry_index(job_id@),
{
    match rfind(job_id, "-retry-") {
        Some(i) => {
            proof {
                reveal_strlit("-retry-");
            }
            let chars = chars_of(job_id);
            let total: usize = chars.len();
            assert(i + 7 <= total);
            let rest = text_between(&chars, i + 7, total);
            assert(chars@.subrange(i + 7, chars@.len() as int) =~= job_id@.skip(i + 7));
            match parse_number(rest.as_str(), 10, usize::MAX as u64) {
                Some(n) => n as usize,
                None => 0,
            }
        },
        None => 0,
    }
}

/// The identifier of a retry.
pub fn retry_job_id(root: &str, index: usize) -> (r: String)
    ensures
        r@ == retry_id(root@, index as nat),
{
    let mut out = root.to_owned();
    out.append("-retry-");
    out.append(decimal(index).as_str());
    out
}

proof fn decimal_reads_back(n: nat)
    ensures
        digits_value(dec(n), 10) == Some(n),
        dec(n).len() > 0,
        forall|i: int| 0 <= i < dec(n).len() ==> '0' <= #[trigger] dec(n)[i] && dec(n)[i] <= '9',
    decreases n,
{
    if n >= 10 {
        decimal_reads_back(n / 10);
        let front = dec(n / 10);
        assert(dec(n).drop_last() =~= front);
        assert(dec(n).last() == digit_char(n % 10));
        assert forall|i: int| 0 <= i < dec(n).len() implies '0' <= #[trigger] dec(n)[i] && dec(
            n,
        )[i] <= '9' by {
            if i < front.len() {
                assert(dec(n)[i] == front[i]);
            }
        }
    } else {
        assert(dec(n).drop_last() =~= Seq::empty());
        assert(digits_value(dec(n).drop_last(), 10) == Some(0nat));
    }
}

/// The number of a retry can be read back from its identifier, whatever the
/// root.
pub proof fn retry_index_reads_back(root: Seq<char>, index: nat)
    requires
        index <= usize::MAX,
    ensures
        retry_index(retry_id(root, index)) == index,
{
    reveal_strlit("-retry-");
    let needle = "-retry-"@;
    let id = retry_id(root, index);
    decimal_reads_back(index);
    let k = root.len() as int;
    assert(id.subrange(k, k + 7) =~= needle);
    assert forall|j: int| k < j <= id.len() implies !occurs_at(id, needle, j) by {
        if occurs_at(id, needle, j) {
            assert(id.subrange(j, j + 7)[0] == '-');
            assert(id.subrange(j, j + 7)[1] == 'r');
            if j < k + 7 {
                assert(id[j] == needle[j - k]);
                assert(j == k + 6);
                assert(id[j + 1] == dec(index)[0]);
            } else {
                assert(id[j] == dec(index)[j - k - 7]);
            }
        }
    }
    last_position(id, needle, id.len() as int, k);
    assert(id.skip(k + 7) =~= dec(index));
    assert(dec(index)[0] != '+');
}

/// A retry has the root that it was made from, unless that root holds a retry
/// mark or ends in one that the added mark completes.
pub proof fn retry_root_reads_back(root: Seq<char>, index: nat)
    requires
        !has_text(root + "-"@, "-retry-"@),
    ensures
        retry_root(retry_id(root, index)) == root,
{
    reveal_strlit("-retry-");
    reveal_strlit("-");
    let needle = "-retry-"@;
    let id = retry_id(root, index);
    let k = root.len() as int;
    assert(id.subrange(k, k + 7) =~= needle);
    assert forall|j: int| 0 <= j < k implies !occurs_at(id, needle, j) by {
        if occurs_at(id, needle, j) {
            let longer = root + "-"@;
            if j + 7 <= k + 1 {
                assert(longer.subrange(j, j + 7) =~= id.subrange(j, j + 7));
                assert(occurs_at(longer, needle, j));
            } else {
                assert(id.subrange(j, j + 7)[k - j] == id[k]);
                assert(id[k] == needle[0]);
                assert(needle[k - j] == '-');
            }
        }
    }
    first_position(id, needle, 0, k);
    assert(id.take(k) =~= root);
}

/// A root holds no retry mark.
pub proof fn roots_hold_no_mark(id: Seq<char>)
    ensures
        !has_text(retry_root(id), "-retry-"@),
        retry_root(retry_root(id)) == retry_root(id),
{
    let needle = "-retry-"@;
    let root = retry_root(id);
    first_position_is_first(id, needle, 0);
    assert forall|j: int| !occurs_at(root, needle, j) by {
        if occurs_at(root, needle, j) {
            assert(root.subrange(j, j + needle.len()) =~= id.subrange(j, j + needle.len()));
            assert(occurs_at(id, needle, j));
            reveal_strlit("-retry-");
        }
    }
    no_first_position(root, needle, 0);
}

// Cache keys and names.

/// The key of a solve's snapshot.
pub fn mip_solver_solve_snapshot_key(prefix: &str, solve_id: &str) -> (r: String)
    ensures
        r@ == prefix@ + ":solve:"@ + solve_id@ + ":snapshot"@,
{
    let mut out = prefix.to_owned();
    out.append(":solve:");
    out.append(solve_id);
    out.append(":snapshot");
    out
}

/// The key of a solve's frontier.
pub fn mip_solver_solve_frontier_key(prefix: &str, solve_id: &str) -> (r: String)
    ensures
        r@ == prefix@ + ":solve:"@ + solve_id@ + ":frontier"@,
{
    let mut out = prefix.to_owned();
    out.append(":solve:");
    out.append(solve_id);
    out.append(":frontier");
    out
}

/// The key of a stored model.
pub fn mip_solver_problem_model_key(prefix: &str, problem_id: &str, revision: u64) -> (r: String)
    ensures
        r@ == prefix@ + ":problem:"@ + problem_id@ + ":revision:"@ + dec(revision as nat),
{
    let mut out = prefix.to_owned();
    out.append(":problem:");
    out.append(problem_id);
    out.append(":revision:");
    out.append(decimal_u64(revision).as_str());
    out
}

/// The key of a model in the node's own memory.
pub open spec fn local_model_key(problem_id: Seq<char>, revision: u64) -> Seq<char> {
    problem_id + ":"@ + dec(revision as nat)
}

/// The key of a model in the node's own memory.
pub fn local_problem_model_key(problem_id: &str, revision: u64) -> (r: String)
    ensures
        r@ == local_model_key(problem_id@, revision),
{
    let mut out = problem_id.to_owned();
    out.append(":");
    out.append(decimal_u64(revision).as_str());
    out
}

/// The key of a session's model.
pub fn mip_solver_session_model_key(prefix: &str, session_id: &str) -> (r: String)
    ensures
        r@ == prefix@ + ":session:"@ + session_id@ + ":model"@,
{
    let mut out = prefix.to_owned();
    out.append(":session:");
    out.append(session_id);
    out.append(":model");
    out
}

/// The key of the lock on a session's revision.
pub fn mip_solver_session_revision_lock_key(prefix: &str, session_id: &str) -> (r: String)
    ensures
        r@ == prefix@ + ":session:"@ + session_id@ + ":revision-lock"@,
{
    let mut out = prefix.to_owned();
    out.append(":session:");
    out.append(session_id);
    out.append(":revision-lock");
    out
}

/// The key of the lock on the solves of a problem.
pub fn mip_solver_solve_request_lock_key(prefix: &str, problem_id: &str) -> (r: String)
    ensures
        r@ == prefix@ + ":solve-request:"@ + problem_id@ + ":lock"@,
{
    let mut out = prefix.to_owned();
    out.append(":solve-request:");
    out.append(problem_id);
    out.append(":lock");
    out
}

/// The name of the consumer that reads a solve's results.
pub fn result_consumer_name(solve_id: &str) -> (r: String)
    ensures
        r@ == solve_id@ + "-results"@,
{
    let mut out = solve_id.to_owned();
    out.append("-results");
    out
}

/// A count in 32 bits, the largest such number where it is larger.
pub fn i32_count(value: usize) -> (r: i32)
    ensures
        r == if value <= i32::MAX {
            value as int
        } else {
            i32::MAX as int
        },
{
    if value <= i32::MAX as usize {
        value as i32
    } else {
        i32::MAX
    }
}

/// A UUID may be written with or without hyphens, in braces or as a URN, in any case:
/// all of these name the same one.
pub proof fn forms_of_one_uuid_agree(s: Seq<char>)
    requires
        is_hyphenated(s),
    ensures
        canonical_uuid(s) == Some(lowered(s)),
        canonical_uuid(lowered(s)) == canonical_uuid(s),
        canonical_uuid(seq!['{'] + s + seq!['}']) == canonical_uuid(s),
        canonical_uuid("urn:uuid:"@ + s) == canonical_uuid(s),
        canonical_uuid(
            s.subrange(0, 8) + s.subrange(9, 13) + s.subrange(14, 18) + s.subrange(19, 23)
                + s.subrange(24, 36),
        ) == canonical_uuid(s),
{
    reveal_strlit("urn:uuid:");
    canonical_twice(s);
    let braced = seq!['{'] + s + seq!['}'];
    assert(braced.subrange(1, 37) =~= s);
    let urn = "urn:uuid:"@ + s;
    assert(urn.skip(9) =~= s);
    assert(lowered(urn.take(9)) =~= "urn:uuid:"@);
    let plain = s.subrange(0, 8) + s.subrange(9, 13) + s.subrange(14, 18) + s.subrange(19, 23)
        + s.subrange(24, 36);
    assert forall|i: int| 0 <= i < 32 implies is_hex(#[trigger] plain[i]) by {
        if i < 8 {
            assert(plain[i] == s[i]);
        } else if i < 12 {
            assert(plain[i] == s[i + 1]);
        } else if i < 16 {
            assert(plain[i] == s[i + 2]);
        } else if i < 20 {
            assert(plain[i] == s[i + 3]);
        } else {
            assert(plain[i] == s[i + 4]);
        }
    }
    assert(s[8] == '-' && s[13] == '-' && s[18] == '-' && s[23] == '-');
    assert(plain.subrange(0, 8) + seq!['-'] + plain.subrange(8, 12) + seq!['-'] + plain.subrange(
        12,
        16,
    ) + seq!['-'] + plain.subrange(16, 20) + seq!['-'] + plain.subrange(20, 32) =~= s);
}

/// A request keeps the name that it is given, without the space around it; one that
/// is given none, or a blank one, gets a fresh one.
pub proof fn requests_keep_their_names(input: Option<Seq<char>>, fresh: Seq<char>)
    ensures
        input matches Some(s) ==> trimmed(s).len() > 0 ==> request_name(input, fresh) == trimmed(s),
        input is None ==> request_name(input, fresh) == "mip-"@ + fresh,
        input matches Some(s) ==> trimmed(s).len() == 0 ==> request_name(input, fresh) == "mip-"@
            + fresh,
{
}

/// A problem is named by the UUID that is given for it; else by that of the request,
/// where the request is a UUID; else by a fresh one. What is given and is no UUID is
/// refused.
pub proof fn problems_keep_their_names(
    input: Option<Seq<char>>,
    request_id: Seq<char>,
    fresh: Seq<char>,
)
    ensures
        input matches Some(s) ==> match canonical_uuid(trimmed(s)) {
            Some(u) => problem_name(input, request_id, fresh) == Ok::<Seq<char>, Seq<char>>(u),
            None => problem_name(input, request_id, fresh) is Err,
        },
        input is None && canonical_uuid(request_id) is Some ==> problem_name(
            input,
            request_id,
            fresh,
        ) == Ok::<Seq<char>, Seq<char>>(canonical_uuid(request_id)->0),
        input is None && canonical_uuid(request_id) is None ==> problem_name(
            input,
            request_id,
            fresh,
        ) == Ok::<Seq<char>, Seq<char>>(fresh),
{
}

/// A job that has never been tried again has no retry index, and is its own root.
pub proof fn first_attempts_are_their_own_root(id: Seq<char>)
    requires
        !has_text(id, "-retry-"@),
    ensures
        retry_root(id) == id,
        retry_index(id) == 0,
{
    no_first_position(id, "-retry-"@, 0);
    no_last_position(id, "-retry-"@, id.len() as int);
}

/// Revisions of a problem are kept apart.
pub proof fn revisions_are_kept_apart(problem_id: Seq<char>, a: u64, b: u64)
    requires
        a != b,
    ensures
        local_model_key(problem_id, a) != local_model_key(problem_id, b),
{
    let (ka, kb) = (local_model_key(problem_id, a), local_model_key(problem_id, b));
    reveal_strlit(":");
    assert(ka.skip(problem_id.len() as int + 1) =~= dec(a as nat));
    assert(kb.skip(problem_id.len() as int + 1) =~= dec(b as nat));
    decimal_reads_back(a as nat);
    decimal_reads_back(b as nat);
}

}
