//! Finding solves, cancelling them, and clearing away those that ended.

use crate::accelerator::{gpu_status_from_report, summary_of, AcceleratorReport, Report};
use crate::config::NodeRole;
use crate::ids::{canonical_uuid, parse_uuid};
use crate::model::text_view;
use crate::order::{is_text_before, text_before, text_order_is_total, text_order_is_transitive};
use crate::registry::{
    is_active, keyed, one_solve_per_problem, running_for, JobEntry, JobRegistryEntry, SolveEntry,
    SolveRegistryEntry, Solves,
};
use crate::response::{Answer, SolveResponse};
use crate::table::Table;
use crate::text::{same, texts};
use vstd::prelude::*;
use vstd::string::*;

verus! {

/// Whether a status is one in which a solve ends.
pub open spec fn is_terminal(status: Seq<char>) -> bool {
    status == "optimal"@ || status == "infeasible"@ || status == "unbounded"@ || status
        == "timeout"@ || status == "error"@ || status == "cancelled"@
}

/// Whether a status is one in which a solve ends.
pub fn terminal_solve_status(status: &str) -> (r: bool)
    ensures
        r == is_terminal(status@),
{
    same(status, "optimal") || same(status, "infeasible") || same(status, "unbounded") || same(
        status,
        "timeout",
    ) || same(status, "error") || same(status, "cancelled")
}

/// By what a solve is looked for.
#[derive(Debug)]
pub enum SolveMatch {
    /// By the identifier of its request, letter by letter.
    Request(String),
    /// By the problem, or the request, that a UUID names.
    Uuid(String),
}

/// By what a solve is looked for, by contents.
pub enum Matching {
    Request(Seq<char>),
    Uuid(Seq<char>),
}

impl View for SolveMatch {
    type V = Matching;

    open spec fn view(&self) -> Matching {
        match self {
            SolveMatch::Request(s) => Matching::Request(s@),
            SolveMatch::Uuid(s) => Matching::Uuid(s@),
        }
    }
}

/// Whether a solve is one that is looked for.
pub open spec fn is_match(e: SolveEntry, m: Matching) -> bool {
    match m {
        Matching::Request(key) => e.request_id == key,
        Matching::Uuid(id) => e.problem_id == Some(id) || canonical_uuid(e.request_id) == Some(id),
    }
}

/// Whether a solve is newer than another one: solves that run are newer than those
/// that ended, those that began later than those that began before, and among
/// these the one with the later identifier.
pub open spec fn newer(a: SolveEntry, b: SolveEntry) -> bool {
    if is_active(a) != is_active(b) {
        is_active(a)
    } else if a.started_at_ms != b.started_at_ms {
        a.started_at_ms > b.started_at_ms
    } else {
        text_before(b.solve_id, a.solve_id)
    }
}

/// Whether an identifier is that of the newest solve looked for; none where there
/// is no such solve.
pub open spec fn is_newest(solves: Solves, m: Matching, id: Option<Seq<char>>) -> bool {
    match id {
        None => forall|k: Seq<char>| #[trigger] solves.contains_key(k) ==> !is_match(solves[k], m),
        Some(s) => exists|k: Seq<char>|
            {
                &&& #[trigger] solves.contains_key(k)
                &&& is_match(solves[k], m)
                &&& solves[k].solve_id == s
                &&& forall|j: Seq<char>| #[trigger]
                    solves.contains_key(j) && is_match(solves[j], m) ==> !newer(
                        solves[j],
                        solves[k],
                    )
            },
    }
}

fn is_matching(e: &SolveRegistryEntry, m: &SolveMatch) -> (r: bool)
    ensures
        r == is_match(e@, m@),
{
    match m {
        SolveMatch::Request(key) => same(e.request_id.as_str(), key.as_str()),
        SolveMatch::Uuid(id) => {
            if let Some(p) = &e.problem_id {
                if same(p.as_str(), id.as_str()) {
                    return true;
                }
            }
            match parse_uuid(e.request_id.as_str()) {
                Some(u) => same(u.as_str(), id.as_str()),
                None => false,
            }
        },
    }
}

fn is_newer(a: &SolveRegistryEntry, b: &SolveRegistryEntry) -> (r: bool)
    ensures
        r == newer(a@, b@),
{
    if a.finished_at_ms.is_none() != b.finished_at_ms.is_none() {
        a.finished_at_ms.is_none()
    } else if a.started_at_ms != b.started_at_ms {
        a.started_at_ms > b.started_at_ms
    } else {
        is_text_before(b.solve_id.as_str(), a.solve_id.as_str())
    }
}

proof fn newer_is_an_order(a: SolveEntry, b: SolveEntry, c: SolveEntry)
    ensures
        !newer(a, a),
        newer(a, b) ==> !newer(b, a),
        !newer(a, b) && !newer(b, c) ==> !newer(a, c),
{
    text_order_is_total(a.solve_id, b.solve_id);
    text_order_is_total(b.solve_id, c.solve_id);
    text_order_is_total(a.solve_id, c.solve_id);
    if text_before(c.solve_id, a.solve_id) {
        if text_before(a.solve_id, b.solve_id) {
            text_order_is_transitive(c.solve_id, a.solve_id, b.solve_id);
        }
        if text_before(b.solve_id, c.solve_id) {
            text_order_is_transitive(b.solve_id, c.solve_id, a.solve_id);
        }
    }
}

/// The identifier of the newest solve that is looked for.
pub fn newest_matching_solve_id(solves: &Table<SolveRegistryEntry>, m: &SolveMatch) -> (r: Option<
    String,
>)
    ensures
        is_newest(solves@, m@, text_view(r)),
{
    proof {
        use_type_invariant(solves);
        solves.order_is_contents();
    }
    let ghost order = solves.order();
    let n: usize = solves.len();
    let mut best: Option<usize> = None;
    let mut i: usize = 0;
    while i < n
        invariant
            i <= n,
            n == order.len(),
            order == solves.order(),
            match best {
                None => forall|j: int| 0 <= j < i ==> !is_match((#[trigger] order[j]).1, m@),
                Some(b) => b < i && is_match(order[b as int].1, m@) && forall|j: int|
                    0 <= j < i && is_match((#[trigger] order[j]).1, m@) ==> !newer(
                        order[j].1,
                        order[b as int].1,
                    ),
            },
        decreases n - i,
    {
        if is_matching(solves.value_at(i), m) {
            match best {
                None => {
                    proof {
                        newer_is_an_order(order[i as int].1, order[i as int].1, order[i as int].1);
                    }
                    best = Some(i);
                },
                Some(b) => {
                    proof {
                        let new = order[i as int].1;
                        let top = order[b as int].1;
                        assert forall|j: int|
                            0 <= j <= i && is_match((#[trigger] order[j]).1, m@) && newer(
                                new,
                                top,
                            ) implies !newer(order[j].1, new) by {
                            newer_is_an_order(new, top, new);
                            if j < i {
                                newer_is_an_order(order[j].1, top, new);
                            }
                        }
                    }
                    if is_newer(solves.value_at(i), solves.value_at(b)) {
                        best = Some(i);
                    }
                },
            }
        }
        i = i + 1;
    }
    match best {
        None => {
            assert forall|k: Seq<char>| #[trigger] solves@.contains_key(k) implies !is_match(
                solves@[k],
                m@,
            ) by {
                let j = choose|j: int| 0 <= j < order.len() && #[trigger] order[j].0 == k;
                assert(!is_match(order[j].1, m@));
            }
            None
        },
        Some(b) => {
            proof {
                let k = order[b as int].0;
                assert(solves@.contains_key(k));
                assert forall|j: Seq<char>| #[trigger]
                    solves@.contains_key(j) && is_match(solves@[j], m@) implies !newer(
                    solves@[j],
                    solves@[k],
                ) by {
                    let p = choose|p: int| 0 <= p < order.len() && #[trigger] order[p].0 == j;
                    assert(is_match(order[p].1, m@));
                }
            }
            Some(solves.value_at(b).solve_id.clone())
        },
    }
}

/// Which solve a key names: the one with that identifier; else the newest one with
/// that request; else, for a UUID, the newest one for that problem or request.
pub open spec fn resolves(solves: Solves, key: Seq<char>, id: Option<Seq<char>>) -> bool {
    if solves.contains_key(key) {
        id == Some(key)
    } else if !is_newest(solves, Matching::Request(key), None) {
        is_newest(solves, Matching::Request(key), id)
    } else {
        match canonical_uuid(key) {
            Some(u) => is_newest(solves, Matching::Uuid(u), id),
            None => id is None,
        }
    }
}

/// Which solve a key names.
pub fn resolve_solve_id(solves: &Table<SolveRegistryEntry>, key: &str) -> (r: Option<String>)
    ensures
        resolves(solves@, key@, text_view(r)),
{
    if solves.contains_key(key) {
        return Some(key.to_owned());
    }
    if let Some(id) = newest_matching_solve_id(solves, &SolveMatch::Request(key.to_owned())) {
        return Some(id);
    }
    match parse_uuid(key) {
        Some(u) => newest_matching_solve_id(solves, &SolveMatch::Uuid(u)),
        None => None,
    }
}

/// A key names one solve at most, and a solve that is there.
pub proof fn keys_name_one_solve(
    solves: Solves,
    key: Seq<char>,
    a: Option<Seq<char>>,
    b: Option<Seq<char>>,
)
    requires
        keyed(solves),
        resolves(solves, key, a),
        resolves(solves, key, b),
    ensures
        a == b,
        a is Some ==> solves.contains_key(a->0),
{
    if !solves.contains_key(key) {
        if !is_newest(solves, Matching::Request(key), None) {
            newest_is_one(solves, Matching::Request(key), a, b);
        } else if canonical_uuid(key) is Some {
            newest_is_one(solves, Matching::Uuid(canonical_uuid(key)->0), a, b);
        }
    }
}

proof fn newest_is_one(
    solves: Solves,
    m: Matching,
    a: Option<Seq<char>>,
    b: Option<Seq<char>>,
)
    requires
        keyed(solves),
        is_newest(solves, m, a),
        is_newest(solves, m, b),
    ensures
        a == b,
        a is Some ==> solves.contains_key(a->0),
{
    if a is Some && b is Some {
        assert(solves.contains_key(a->0) && is_match(solves[a->0], m));
        assert(solves.contains_key(b->0) && is_match(solves[b->0], m));
        assert(!newer(solves[a->0], solves[b->0]) && !newer(solves[b->0], solves[a->0]));
        text_order_is_total(a->0, b->0);
    }
}

/// A cancellation that was asked for.
#[derive(Debug)]
pub struct CancelInfo {
    pub solve_id: String,
    pub request_id: Option<String>,
    pub problem_id: Option<String>,
    pub reason: String,
    pub requested_by: String,
    pub requested_at_ms: u128,
}

/// The contents of a cancellation.
#[verifier::ext_equal]
pub struct Cancellation {
    pub solve_id: Seq<char>,
    pub request_id: Option<Seq<char>>,
    pub problem_id: Option<Seq<char>>,
    pub reason: Seq<char>,
    pub requested_by: Seq<char>,
    pub requested_at_ms: u128,
}

impl View for CancelInfo {
    type V = Cancellation;

    open spec fn view(&self) -> Cancellation {
        Cancellation {
            solve_id: self.solve_id@,
            request_id: text_view(self.request_id),
            problem_id: text_view(self.problem_id),
            reason: self.reason@,
            requested_by: self.requested_by@,
            requested_at_ms: self.requested_at_ms,
        }
    }
}

impl Clone for CancelInfo {
    fn clone(&self) -> (r: Self)
        ensures
            r@ == self@,
    {
        CancelInfo {
            solve_id: self.solve_id.clone(),
            request_id: self.request_id.clone(),
            problem_id: self.problem_id.clone(),
            reason: self.reason.clone(),
            requested_by: self.requested_by.clone(),
            requested_at_ms: self.requested_at_ms,
        }
    }
}

/// The cancellations that were asked for.
pub type Cancellations = Map<Seq<char>, Cancellation>;

/// The cancellation of a solve.
pub open spec fn cancellation_of(cancels: Cancellations, id: Seq<char>) -> Option<Cancellation> {
    if cancels.contains_key(id) {
        Some(cancels[id])
    } else {
        None
    }
}

/// The cancellation of a solve, or of its problem.
pub open spec fn cancellation_for(
    cancels: Cancellations,
    solve_id: Seq<char>,
    problem_id: Option<Seq<char>>,
) -> Option<Cancellation> {
    if cancels.contains_key(solve_id) {
        Some(cancels[solve_id])
    } else {
        match problem_id {
            Some(p) => cancellation_of(cancels, p),
            None => None,
        }
    }
}

/// A cancellation by its contents.
pub open spec fn cancel_view(c: Option<CancelInfo>) -> Option<Cancellation> {
    match c {
        Some(c) => Some(c@),
        None => None,
    }
}

/// The cancellation of a solve.
pub fn solve_cancel_info(cancels: &Table<CancelInfo>, solve_id: &str) -> (r: Option<CancelInfo>)
    ensures
        cancel_view(r) == cancellation_of(cancels@, solve_id@),
{
    match cancels.get(solve_id) {
        Some(c) => Some(c.clone()),
        None => None,
    }
}

/// Whether a solve is to be cancelled.
pub fn solve_cancel_requested(cancels: &Table<CancelInfo>, solve_id: &str) -> (r: bool)
    ensures
        r == cancels@.contains_key(solve_id@),
{
    cancels.contains_key(solve_id)
}

/// The cancellation of a solve, or of its problem.
pub fn solve_cancel_info_for(
    cancels: &Table<CancelInfo>,
    solve_id: &str,
    problem_id: Option<&str>,
) -> (r: Option<CancelInfo>)
    ensures
        cancel_view(r) == cancellation_for(
            cancels@,
            solve_id@,
            match problem_id {
                Some(p) => Some(p@),
                None => None,
            },
        ),
{
    if let Some(c) = cancels.get(solve_id) {
        return Some(c.clone());
    }
    match problem_id {
        Some(p) => solve_cancel_info(cancels, p),
        None => None,
    }
}

/// Whether a solve, or its problem, is to be cancelled.
pub fn solve_cancel_requested_for(
    cancels: &Table<CancelInfo>,
    solve_id: &str,
    problem_id: Option<&str>,
) -> (r: bool)
    ensures
        r == (cancellation_for(
            cancels@,
            solve_id@,
            match problem_id {
                Some(p) => Some(p@),
                None => None,
            },
        ) is Some),
{
    if cancels.contains_key(solve_id) {
        return true;
    }
    match problem_id {
        Some(p) => cancels.contains_key(p),
        None => false,
    }
}

/// Whether a solve can no longer be cancelled: it ended otherwise.
pub open spec fn past_cancelling(e: SolveEntry) -> bool {
    is_terminal(e.status) && e.status != "cancelled"@
}

/// What was first, where there was something.
pub open spec fn or_first<A>(first: Option<A>, later: A) -> Option<A> {
    match first {
        Some(a) => Some(a),
        None => Some(later),
    }
}

/// A solve whose cancellation is asked for.
pub open spec fn cancelling(e: SolveEntry, reason: Seq<char>, now: u128) -> SolveEntry {
    SolveEntry {
        cancel_requested: true,
        cancel_requested_at_ms: or_first(e.cancel_requested_at_ms, now),
        cancel_reason: or_first(e.cancel_reason, reason),
        status: if is_active(e) {
            "cancelling"@
        } else {
            e.status
        },
        updated_at_ms: now,
        ..e
    }
}

/// The cancellation of a solve that is asked for.
pub open spec fn cancellation(
    e: SolveEntry,
    reason: Seq<char>,
    requested_by: Seq<char>,
    now: u128,
) -> Cancellation {
    Cancellation {
        solve_id: e.solve_id,
        request_id: Some(e.request_id),
        problem_id: e.problem_id,
        reason,
        requested_by,
        requested_at_ms: now,
    }
}

/// Why nothing is found under a key.
pub open spec fn no_such_solve(key: Seq<char>) -> Seq<char> {
    "solve or request id not found: "@ + key
}

fn no_such_solve_text(key: &str) -> (r: String)
    ensures
        r@ == no_such_solve(key@),
{
    let mut e = "solve or request id not found: ".to_owned();
    e.append(key);
    e
}

/// Why a solve cannot be cancelled, given what its key names.
pub open spec fn cancel_error(solves: Solves, key: Seq<char>, id: Option<Seq<char>>) -> Option<
    Seq<char>,
> {
    match id {
        None => Some(no_such_solve(key)),
        Some(id) => if !solves.contains_key(id) {
            Some("solve not found after lookup: "@ + id)
        } else if past_cancelling(solves[id]) {
            Some(
                "solve "@ + solves[id].solve_id + " is already terminal with status "@
                    + solves[id].status,
            )
        } else {
            None
        },
    }
}

/// Asks for the cancellation of the solve that a key names.
pub fn request_solve_cancel(
    solves: &mut Table<SolveRegistryEntry>,
    cancels: &mut Table<CancelInfo>,
    key: &str,
    reason: String,
    requested_by: String,
    now: u128,
) -> (r: Result<CancelInfo, String>)
    ensures
        exists|id: Option<Seq<char>>| #[trigger]
            resolves(old(solves)@, key@, id) && match r {
                Ok(info) => {
                    let e = old(solves)@[id->0];
                    &&& cancel_error(old(solves)@, key@, id) is None
                    &&& info@ == cancellation(e, reason@, requested_by@, now)
                    &&& final(solves)@ == old(solves)@.insert(id->0, cancelling(e, reason@, now))
                    &&& final(cancels)@ == old(cancels)@.insert(id->0, info@)
                },
                Err(text) => {
                    &&& cancel_error(old(solves)@, key@, id) == Some(text@)
                    &&& final(solves)@ == old(solves)@
                    &&& final(cancels)@ == old(cancels)@
                },
            },
{
    let ghost before = solves@;
    let found = resolve_solve_id(solves, key);
    assert(resolves(before, key@, text_view(found)));
    let id = match found {
        Some(id) => id,
        None => {
            return Err(no_such_solve_text(key));
        },
    };
    let mut solve = match solves.remove(id.as_str()) {
        Some(s) => s,
        None => {
            let mut e = "solve not found after lookup: ".to_owned();
            e.append(id.as_str());
            assert(solves@ =~= before);
            return Err(e);
        },
    };
    let ghost entry = solve@;
    if terminal_solve_status(solve.status.as_str()) && !same(solve.status.as_str(), "cancelled") {
        let mut e = "solve ".to_owned();
        e.append(solve.solve_id.as_str());
        e.append(" is already terminal with status ");
        e.append(solve.status.as_str());
        solves.insert(id, solve);
        assert(solves@ =~= before);
        return Err(e);
    }
    solve.cancel_requested = true;
    if solve.cancel_requested_at_ms.is_none() {
        solve.cancel_requested_at_ms = Some(now);
    }
    if solve.cancel_reason.is_none() {
        solve.cancel_reason = Some(reason.clone());
    }
    if solve.finished_at_ms.is_none() {
        solve.status = "cancelling".to_owned();
    }
    solve.updated_at_ms = now;
    let info = CancelInfo {
        solve_id: solve.solve_id.clone(),
        request_id: Some(solve.request_id.clone()),
        problem_id: solve.problem_id.clone(),
        reason,
        requested_by,
        requested_at_ms: now,
    };
    assert(solve@ =~= cancelling(entry, reason@, now));
    solves.insert(id.clone(), solve);
    cancels.insert(id, info.clone());
    assert(solves@ =~= before.insert(id@, cancelling(entry, reason@, now)));
    Ok(info)
}

/// An accepted request is seen by whoever asks for its solve, whatever the problem,
/// and changes what is seen of no other solve.
pub proof fn accepted_cancellations_are_seen(
    cancels: Cancellations,
    id: Seq<char>,
    asked: Cancellation,
    problem_id: Option<Seq<char>>,
    other: Seq<char>,
)
    requires
        other != id,
    ensures
        cancellation_for(cancels.insert(id, asked), id, problem_id) == Some(asked),
        cancellation_of(cancels.insert(id, asked), id) == Some(asked),
        cancellation_of(cancels.insert(id, asked), other) == cancellation_of(cancels, other),
{
}

/// Asking twice keeps the reason and the time of the first time, and asking leaves
/// the end of a solve as it is.
pub proof fn first_cancellation_stays(
    e: SolveEntry,
    first: Seq<char>,
    at: u128,
    second: Seq<char>,
    later: u128,
)
    ensures
        cancelling(cancelling(e, first, at), second, later).cancel_reason == cancelling(
            e,
            first,
            at,
        ).cancel_reason,
        cancelling(cancelling(e, first, at), second, later).cancel_requested_at_ms == cancelling(
            e,
            first,
            at,
        ).cancel_requested_at_ms,
        cancelling(e, first, at).finished_at_ms == e.finished_at_ms,
        cancelling(e, first, at).problem_id == e.problem_id,
        is_active(e) ==> !past_cancelling(cancelling(e, first, at)),
{
    reveal_strlit("cancelling");
    reveal_strlit("optimal");
    reveal_strlit("infeasible");
    reveal_strlit("unbounded");
    reveal_strlit("timeout");
    reveal_strlit("error");
    assert("cancelling"@.len() == 10);
    assert("infeasible"@[0] == 'i');
    assert("cancelling"@[0] == 'c');
}

/// Removes the solve that a key names, if it has ended, with its cancellation.
pub fn cleanup_finished_solve(
    solves: &mut Table<SolveRegistryEntry>,
    cancels: &mut Table<CancelInfo>,
    key: &str,
) -> (r: Result<Option<SolveRegistryEntry>, String>)
    ensures
        exists|id: Option<Seq<char>>| #[trigger]
            resolves(old(solves)@, key@, id) && match r {
                Err(text) => {
                    &&& id is None
                    &&& text@ == no_such_solve(key@)
                    &&& final(solves)@ == old(solves)@
                    &&& final(cancels)@ == old(cancels)@
                },
                Ok(None) => {
                    &&& id is Some
                    &&& !(old(solves)@.contains_key(id->0) && !is_active(old(solves)@[id->0]))
                    &&& final(solves)@ == old(solves)@
                    &&& final(cancels)@ == old(cancels)@
                },
                Ok(Some(e)) => {
                    &&& id is Some
                    &&& old(solves)@.contains_key(id->0)
                    &&& !is_active(old(solves)@[id->0])
                    &&& e@ == old(solves)@[id->0]
                    &&& final(solves)@ == old(solves)@.remove(id->0)
                    &&& final(cancels)@ == old(cancels)@.remove(id->0)
                },
            },
{
    let found = resolve_solve_id(solves, key);
    assert(resolves(old(solves)@, key@, text_view(found)));
    let id = match found {
        Some(id) => id,
        None => {
            return Err(no_such_solve_text(key));
        },
    };
    let finished = match solves.get(id.as_str()) {
        Some(s) => s.finished_at_ms.is_some(),
        None => false,
    };
    if !finished {
        return Ok(None);
    }
    let removed = solves.remove(id.as_str());
    cancels.remove(id.as_str());
    Ok(removed)
}

/// A job of a cancelled solve.
pub open spec fn cancelled_job(j: JobEntry, reason: Seq<char>, now: u128) -> JobEntry {
    if j.finished_at_ms is Some {
        j
    } else {
        JobEntry {
            status: "cancelled"@,
            finished_at_ms: Some(now),
            error: or_first(j.error, reason),
            ..j
        }
    }
}

/// A solve that is cancelled.
pub open spec fn cancelled_entry(e: SolveEntry, reason: Seq<char>, now: u128) -> SolveEntry {
    SolveEntry {
        status: "cancelled"@,
        cancel_requested: true,
        cancel_requested_at_ms: or_first(e.cancel_requested_at_ms, now),
        cancel_reason: or_first(e.cancel_reason, reason),
        updated_at_ms: now,
        finished_at_ms: Some(now),
        jobs: e.jobs.map_values(|j: JobEntry| cancelled_job(j, reason, now)),
        ..e
    }
}

fn cancel_jobs(jobs: &Table<JobRegistryEntry>, reason: &str, now: u128) -> (r: Table<
    JobRegistryEntry,
>)
    ensures
        r@ == jobs@.map_values(|j: JobEntry| cancelled_job(j, reason@, now)),
{
    let mut out: Table<JobRegistryEntry> = Table::new();
    proof {
        use_type_invariant(jobs);
        jobs.order_is_contents();
    }
    let n: usize = jobs.len();
    let mut i: usize = 0;
    while i < n
        invariant
            i <= n,
            n == jobs.order().len(),
            forall|j: int|
                0 <= j < n ==> jobs@.contains_key((#[trigger] jobs.order()[j]).0)
                    && jobs@[jobs.order()[j].0] == jobs.order()[j].1,
            forall|k: Seq<char>|
                out@.contains_key(k) <==> exists|j: int|
                    0 <= j < i && #[trigger] jobs.order()[j].0 == k,
            forall|k: Seq<char>| #[trigger]
                out@.contains_key(k) ==> jobs@.contains_key(k) && out@[k] == cancelled_job(
                    jobs@[k],
                    reason@,
                    now,
                ),
        decreases n - i,
    {
        let ghost before = out@;
        let ghost key = jobs.order()[i as int].0;
        let mut job = jobs.value_at(i).clone();
        if job.finished_at_ms.is_none() {
            job.status = "cancelled".to_owned();
            job.finished_at_ms = Some(now);
            if job.error.is_none() {
                job.error = Some(reason.to_owned());
            }
        }
        assert(job@ =~= cancelled_job(jobs@[key], reason@, now));
        out.insert(jobs.key_at(i).clone(), job);
        assert forall|k: Seq<char>| out@.contains_key(k) <==> exists|j: int|
            0 <= j < i + 1 && #[trigger] jobs.order()[j].0 == k by {
            if k == key {
                assert(jobs.order()[i as int].0 == k);
            } else if before.contains_key(k) {
                let j = choose|j: int| 0 <= j < i && #[trigger] jobs.order()[j].0 == k;
                assert(jobs.order()[j].0 == k);
            }
        }
        i = i + 1;
    }
    assert(out@ =~= jobs@.map_values(|j: JobEntry| cancelled_job(j, reason@, now)));
    out
}

/// Notes that a solve is cancelled, and with it every job that has not ended.
pub fn track_solve_cancelled(
    solves: &mut Table<SolveRegistryEntry>,
    solve_id: &str,
    reason: &str,
    now: u128,
) -> (r: Option<SolveRegistryEntry>)
    ensures
        match r {
            None => !old(solves)@.contains_key(solve_id@) && final(solves)@ == old(solves)@,
            Some(e) => {
                &&& old(solves)@.contains_key(solve_id@)
                &&& e@ == cancelled_entry(old(solves)@[solve_id@], reason@, now)
                &&& final(solves)@ == old(solves)@.insert(solve_id@, e@)
            },
        },
{
    let ghost before = solves@;
    let mut solve = match solves.remove(solve_id) {
        Some(s) => s,
        None => {
            assert(solves@ =~= before);
            return None;
        },
    };
    let ghost entry = solve@;
    solve.status = "cancelled".to_owned();
    solve.cancel_requested = true;
    if solve.cancel_requested_at_ms.is_none() {
        solve.cancel_requested_at_ms = Some(now);
    }
    if solve.cancel_reason.is_none() {
        solve.cancel_reason = Some(reason.to_owned());
    }
    solve.updated_at_ms = now;
    solve.finished_at_ms = Some(now);
    solve.jobs = cancel_jobs(&solve.jobs, reason, now);
    assert(solve@ =~= cancelled_entry(entry, reason@, now));
    let out = solve.clone();
    solves.insert(solve_id.to_owned(), solve);
    assert(solves@ =~= before.insert(solve_id@, out@));
    Some(out)
}

/// After a cancellation no job of the solve is open, and none that had ended is
/// changed.
pub proof fn cancellation_closes_every_job(
    e: SolveEntry,
    reason: Seq<char>,
    now: u128,
    job: Seq<char>,
)
    requires
        e.jobs.contains_key(job),
    ensures
        cancelled_entry(e, reason, now).jobs.contains_key(job),
        cancelled_entry(e, reason, now).jobs[job].finished_at_ms is Some,
        e.jobs[job].finished_at_ms is Some ==> cancelled_entry(e, reason, now).jobs[job]
            == e.jobs[job],
{
}

/// The numbers of jobs of a solve: expected, published, completed, delegated again
/// and split.
pub open spec fn job_numbers(e: SolveEntry) -> (usize, usize, usize, usize, usize) {
    (e.jobs_expected, e.jobs_published, e.jobs_completed, e.jobs_redelegated, e.jobs_split)
}

/// The answer to a request whose solve is cancelled.
pub open spec fn cancelled_answer(
    e: Option<SolveEntry>,
    solve_id: Seq<char>,
    request_id: Seq<char>,
    problem_id: Option<Seq<char>>,
    revision: u64,
    distributed: bool,
    warnings: Seq<Seq<char>>,
    reason: Seq<char>,
    node_id: Seq<char>,
    role: NodeRole,
    report: Report,
    now: u128,
) -> Answer {
    let n = match e {
        Some(e) => job_numbers(e),
        None => (0, 0, 0, 0, 0),
    };
    Answer {
        ok: false,
        solve_id,
        request_id,
        problem_id,
        status: "cancelled"@,
        revision,
        z: None,
        x: Seq::empty(),
        best_bound: None,
        gap: None,
        lp: None,
        jobs_expected: n.0,
        jobs_published: n.1,
        jobs_completed: n.2,
        jobs_redelegated: n.3,
        jobs_split: n.4,
        timed_out: false,
        distributed,
        node_id,
        role,
        gpu: summary_of(report),
        external_verification: None,
        warnings: warnings.push("solve cancelled: "@ + reason),
        generated_at_ms: now,
    }
}

/// A solve that ends on request is answered as cancelled, without a solution, and
/// the answer tells why.
pub proof fn cancelled_solves_are_answered_so(
    e: Option<SolveEntry>,
    c: Cancellation,
    request_id: Seq<char>,
    problem_id: Option<Seq<char>>,
    revision: u64,
    distributed: bool,
    warnings: Seq<Seq<char>>,
    node_id: Seq<char>,
    role: NodeRole,
    report: Report,
    now: u128,
)
    ensures
        ({
            let answer = cancelled_answer(
                e,
                c.solve_id,
                request_id,
                problem_id,
                revision,
                distributed,
                warnings,
                c.reason,
                node_id,
                role,
                report,
                now,
            );
            &&& answer.status == "cancelled"@
            &&& !answer.ok
            &&& answer.solve_id == c.solve_id
            &&& answer.z is None
            &&& answer.x.len() == 0
            &&& answer.warnings.last() == "solve cancelled: "@ + c.reason
        }),
{
}

/// Answers a request whose solve is cancelled, and notes the cancellation.
pub fn cancelled_solve_response(
    solves: &mut Table<SolveRegistryEntry>,
    solve_id: String,
    request_id: String,
    problem_id: Option<String>,
    revision: u64,
    distributed: bool,
    warnings: Vec<String>,
    reason: String,
    node_id: &str,
    role: NodeRole,
    report: &AcceleratorReport,
    now: u128,
) -> (r: SolveResponse)
    ensures
        final(solves)@ == if old(solves)@.contains_key(solve_id@) {
            old(solves)@.insert(
                solve_id@,
                cancelled_entry(old(solves)@[solve_id@], reason@, now),
            )
        } else {
            old(solves)@
        },
        r@ == cancelled_answer(
            if old(solves)@.contains_key(solve_id@) {
                Some(old(solves)@[solve_id@])
            } else {
                None
            },
            solve_id@,
            request_id@,
            text_view(problem_id),
            revision,
            distributed,
            texts(warnings@),
            reason@,
            node_id@,
            role,
            report@,
            now,
        ),
{
    let ghost given = texts(warnings@);
    let mut warnings = warnings;
    let mut w = "solve cancelled: ".to_owned();
    w.append(reason.as_str());
    warnings.push(w);
    assert(texts(warnings@) =~= given.push("solve cancelled: "@ + reason@));
    let entry = track_solve_cancelled(solves, solve_id.as_str(), reason.as_str(), now);
    let n: (usize, usize, usize, usize, usize) = match &entry {
        Some(e) => (
            e.jobs_expected,
            e.jobs_published,
            e.jobs_completed,
            e.jobs_redelegated,
            e.jobs_split,
        ),
        None => (0, 0, 0, 0, 0),
    };
    let r = SolveResponse {
        ok: false,
        solve_id,
        request_id,
        problem_id,
        status: "cancelled".to_owned(),
        revision,
        z: None,
        x: Vec::new(),
        best_bound: None,
        gap: None,
        lp: None,
        jobs_expected: n.0,
        jobs_published: n.1,
        jobs_completed: n.2,
        jobs_redelegated: n.3,
        jobs_split: n.4,
        timed_out: false,
        distributed,
        node_id: node_id.to_owned(),
        role,
        gpu: gpu_status_from_report(report),
        external_verification: None,
        warnings,
        generated_at_ms: now,
    };
    r
}

/// Cancelling a solve leaves every problem with one running solve at most.
pub proof fn cancelling_keeps_one_solve_per_problem(
    solves: Solves,
    id: Seq<char>,
    reason: Seq<char>,
    now: u128,
)
    requires
        one_solve_per_problem(solves),
        solves.contains_key(id),
    ensures
        one_solve_per_problem(solves.insert(id, cancelling(solves[id], reason, now))),
        one_solve_per_problem(solves.insert(id, cancelled_entry(solves[id], reason, now))),
        one_solve_per_problem(solves.remove(id)),
        keyed(solves) ==> keyed(solves.insert(id, cancelling(solves[id], reason, now))),
        keyed(solves) ==> keyed(solves.insert(id, cancelled_entry(solves[id], reason, now))),
        keyed(solves) ==> keyed(solves.remove(id)),
{
    let c = solves.insert(id, cancelling(solves[id], reason, now));
    let d = solves.insert(id, cancelled_entry(solves[id], reason, now));
    let r = solves.remove(id);
    assert forall|a: Seq<char>, b: Seq<char>, p: Seq<char>|
        #![trigger running_for(c[a], p), running_for(c[b], p)]
        c.contains_key(a) && c.contains_key(b) && running_for(c[a], p) && running_for(
            c[b],
            p,
        ) implies a == b by {
        assert(running_for(solves[a], p) && running_for(solves[b], p));
    }
    assert forall|a: Seq<char>, b: Seq<char>, p: Seq<char>|
        #![trigger running_for(d[a], p), running_for(d[b], p)]
        d.contains_key(a) && d.contains_key(b) && running_for(d[a], p) && running_for(
            d[b],
            p,
        ) implies a == b by {
        assert(running_for(solves[a], p) && running_for(solves[b], p));
    }
    assert forall|a: Seq<char>, b: Seq<char>, p: Seq<char>|
        #![trigger running_for(r[a], p), running_for(r[b], p)]
        r.contains_key(a) && r.contains_key(b) && running_for(r[a], p) && running_for(
            r[b],
            p,
        ) implies a == b by {
        assert(running_for(solves[a], p) && running_for(solves[b], p));
    }
}

/// Asking for a cancellation marks a running solve as one that is being cancelled, with
/// the reason and the time; a solve that has ended keeps how it ended. Its jobs and its
/// numbers stay.
pub proof fn cancelling_marks_the_solve(e: SolveEntry, reason: Seq<char>, now: u128)
    ensures
        ({
            let r = cancelling(e, reason, now);
            &&& r.cancel_requested
            &&& e.cancel_reason is None ==> r.cancel_reason == Some(reason)
            &&& e.cancel_requested_at_ms is None ==> r.cancel_requested_at_ms == Some(now)
            &&& e.finished_at_ms is None ==> r.status == "cancelling"@
            &&& e.finished_at_ms is Some ==> r.status == e.status
            &&& r.finished_at_ms == e.finished_at_ms
            &&& r.updated_at_ms == now
            &&& r.jobs == e.jobs && r.jobs_completed == e.jobs_completed && r.solve_id == e.solve_id
                && r.request_id == e.request_id
        }),
{
}

/// A cancelled solve has ended as cancelled, and so has every job of it that had not
/// ended; the others keep how they ended.
pub proof fn cancelled_solves_have_ended(
    e: SolveEntry,
    reason: Seq<char>,
    now: u128,
    job: Seq<char>,
)
    requires
        e.jobs.contains_key(job),
    ensures
        ({
            let r = cancelled_entry(e, reason, now);
            &&& r.status == "cancelled"@
            &&& r.finished_at_ms == Some(now)
            &&& r.cancel_requested
            &&& r.jobs.dom() == e.jobs.dom()
            &&& e.jobs[job].finished_at_ms is None ==> r.jobs[job].status == "cancelled"@
                && r.jobs[job].finished_at_ms == Some(now)
            &&& e.jobs[job].finished_at_ms is Some ==> r.jobs[job] == e.jobs[job]
            &&& r.jobs_completed == e.jobs_completed && r.solve_id == e.solve_id
        }),
{
}

/// A solve that ended in another way cannot be cancelled; any other one can.
pub proof fn ended_solves_are_not_cancelled(solves: Solves, key: Seq<char>, id: Seq<char>)
    requires
        solves.contains_key(id),
    ensures
        cancel_error(solves, key, Some(id)) is Some <==> solves[id].status == "optimal"@
            || solves[id].status == "infeasible"@ || solves[id].status == "unbounded"@
            || solves[id].status == "timeout"@ || solves[id].status == "error"@,
        cancel_error(solves, key, None) is Some,
{
    reveal_strlit("optimal");
    reveal_strlit("infeasible");
    reveal_strlit("unbounded");
    reveal_strlit("timeout");
    reveal_strlit("error");
    reveal_strlit("cancelled");
    assert("cancelled"@.len() == 9 && "optimal"@.len() == 7 && "infeasible"@.len() == 10);
    assert("unbounded"@[0] == 'u' && "cancelled"@[0] == 'c');
    assert("timeout"@.len() == 7 && "error"@.len() == 5);
}

/// A cancellation names its solve, its request and its problem, and says why, by whom and
/// when it was asked for.
pub proof fn cancellations_name_the_solve(
    e: SolveEntry,
    reason: Seq<char>,
    by: Seq<char>,
    now: u128,
)
    ensures
        cancellation(e, reason, by, now).solve_id == e.solve_id,
        cancellation(e, reason, by, now).request_id == Some(e.request_id),
        cancellation(e, reason, by, now).problem_id == e.problem_id,
        cancellation(e, reason, by, now).reason == reason,
        cancellation(e, reason, by, now).requested_by == by,
        cancellation(e, reason, by, now).requested_at_ms == now,
{
}

/// Of two solves that match, a running one comes before one that has ended, and a later
/// one before an earlier one.
pub proof fn running_solves_come_first(a: SolveEntry, b: SolveEntry)
    ensures
        a.finished_at_ms is None && b.finished_at_ms is Some ==> newer(a, b) && !newer(b, a),
        (a.finished_at_ms is None) == (b.finished_at_ms is None) && a.started_at_ms
            > b.started_at_ms ==> newer(a, b) && !newer(b, a),
{
}

/// A solve is found by its identifier before all else, and else by that of its request,
/// or by the UUID of its problem or its request; what is found then matches, and no
/// matching solve is newer.
pub proof fn found_solves_match(solves: Solves, key: Seq<char>, id: Seq<char>, other: Seq<char>)
    requires
        keyed(solves),
        resolves(solves, key, Some(id)),
    ensures
        solves.contains_key(id),
        solves.contains_key(key) ==> id == key,
        id == key || solves[id].request_id == key || (canonical_uuid(key) is Some && (
        solves[id].problem_id == canonical_uuid(key) || canonical_uuid(solves[id].request_id)
            == canonical_uuid(key))),
        !solves.contains_key(key) && solves.contains_key(other) && solves[other].request_id == key
            ==> !newer(solves[other], solves[id]),
        solves.contains_key(other) && solves[other].request_id == key ==> solves[id].request_id
            == key || id == key,
{
    if !solves.contains_key(key) {
        if solves.contains_key(other) && solves[other].request_id == key {
            assert(is_match(solves[other], Matching::Request(key)));
        }
        if !is_newest(solves, Matching::Request(key), None) {
            let k = choose|k: Seq<char>|
                {
                    &&& #[trigger] solves.contains_key(k)
                    &&& is_match(solves[k], Matching::Request(key))
                    &&& solves[k].solve_id == id
                    &&& forall|j: Seq<char>| #[trigger]
                        solves.contains_key(j) && is_match(solves[j], Matching::Request(key))
                            ==> !newer(solves[j], solves[k])
                };
            assert(k == id);
        } else {
            let u = canonical_uuid(key)->0;
            let k = choose|k: Seq<char>|
                {
                    &&& #[trigger] solves.contains_key(k)
                    &&& is_match(solves[k], Matching::Uuid(u))
                    &&& solves[k].solve_id == id
                    &&& forall|j: Seq<char>| #[trigger]
                        solves.contains_key(j) && is_match(solves[j], Matching::Uuid(u))
                            ==> !newer(solves[j], solves[k])
                };
            assert(k == id);
        }
    }
}

/// A solve is found wherever one matches.
pub proof fn matching_solves_are_found(solves: Solves, key: Seq<char>, id: Seq<char>)
    requires
        solves.contains_key(id),
        id == key || solves[id].request_id == key || (canonical_uuid(key) is Some
            && solves[id].problem_id == canonical_uuid(key)),
    ensures
        !resolves(solves, key, None),
{
    if !solves.contains_key(key) {
        if solves[id].request_id == key {
            assert(is_match(solves[id], Matching::Request(key)));
        } else {
            assert(is_match(solves[id], Matching::Uuid(canonical_uuid(key)->0)));
        }
    }
}

/// A cancelled job keeps the error that it had, and else has the reason; all else that is
/// known of it stays.
pub proof fn cancelled_jobs_tell_why(j: JobEntry, reason: Seq<char>, now: u128)
    requires
        j.finished_at_ms is None,
    ensures
        cancelled_job(j, reason, now).error == if j.error is Some {
            j.error
        } else {
            Some(reason)
        },
        cancelled_job(j, reason, now).job_id == j.job_id && cancelled_job(j, reason, now).job_uuid
            == j.job_uuid && cancelled_job(j, reason, now).worker_node == j.worker_node,
{
}

/// The answer to a cancelled solve has the numbers of the solve, each in its place.
pub proof fn cancelled_answers_count_jobs(
    e: SolveEntry,
    solve_id: Seq<char>,
    request_id: Seq<char>,
    problem_id: Option<Seq<char>>,
    revision: u64,
    distributed: bool,
    warnings: Seq<Seq<char>>,
    reason: Seq<char>,
    node_id: Seq<char>,
    role: NodeRole,
    report: Report,
    now: u128,
)
    ensures
        ({
            let a = cancelled_answer(
                Some(e),
                solve_id,
                request_id,
                problem_id,
                revision,
                distributed,
                warnings,
                reason,
                node_id,
                role,
                report,
                now,
            );
            &&& a.jobs_expected == e.jobs_expected
            &&& a.jobs_published == e.jobs_published
            &&& a.jobs_completed == e.jobs_completed
            &&& a.jobs_redelegated == e.jobs_redelegated
            &&& a.jobs_split == e.jobs_split
            &&& a.request_id == request_id && a.problem_id == problem_id && a.revision == revision
            &&& a.distributed == distributed && a.node_id == node_id && a.role == role
            &&& a.best_bound is None && a.gap is None && a.lp is None && !a.timed_out
            &&& a.generated_at_ms == now
            &&& warnings.is_prefix_of(a.warnings)
        }),
{
    let a = warnings.push("solve cancelled: "@ + reason);
    assert(a.subrange(0, warnings.len() as int) =~= warnings);
}

}
