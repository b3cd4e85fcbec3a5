//! The tasks that run in a node.

use crate::config::{retention_ms, runtime_task_retention_ms, NodeRole, RuntimeConfig};
use crate::job_tracking::{elapsed, elapsed_ms};
use crate::listing::{lists, sorted_values};
use crate::model::text_view;
use crate::order::{
    in_order, is_text_before, text_before, text_order_is_total, text_order_is_transitive, views,
    Ranked,
};
use crate::table::{Duplicate, Table};
use crate::text::same;
use vstd::prelude::*;
use vstd::string::*;

verus! {

/// What is known of a task.
#[derive(Debug)]
pub struct RuntimeTaskEntry {
    pub task_id: String,
    pub kind: String,
    pub node_id: String,
    pub role: NodeRole,
    pub status: String,
    pub problem_id: Option<String>,
    pub solve_id: Option<String>,
    pub request_id: Option<String>,
    pub job_id: Option<String>,
    pub job_uuid: Option<String>,
    pub abortable: bool,
    pub started_at_ms: u128,
    pub updated_at_ms: u128,
    pub finished_at_ms: Option<u128>,
}

/// The contents of what is known of a task.
#[verifier::ext_equal]
pub struct Task {
    pub task_id: Seq<char>,
    pub kind: Seq<char>,
    pub node_id: Seq<char>,
    pub role: NodeRole,
    pub status: Seq<char>,
    pub problem_id: Option<Seq<char>>,
    pub solve_id: Option<Seq<char>>,
    pub request_id: Option<Seq<char>>,
    pub job_id: Option<Seq<char>>,
    pub job_uuid: Option<Seq<char>>,
    pub abortable: bool,
    pub started_at_ms: u128,
    pub updated_at_ms: u128,
    pub finished_at_ms: Option<u128>,
}

impl View for RuntimeTaskEntry {
    type V = Task;

    open spec fn view(&self) -> Task {
        Task {
            task_id: self.task_id@,
            kind: self.kind@,
            node_id: self.node_id@,
            role: self.role,
            status: self.status@,
            problem_id: text_view(self.problem_id),
            solve_id: text_view(self.solve_id),
            request_id: text_view(self.request_id),
            job_id: text_view(self.job_id),
            job_uuid: text_view(self.job_uuid),
            abortable: self.abortable,
            started_at_ms: self.started_at_ms,
            updated_at_ms: self.updated_at_ms,
            finished_at_ms: self.finished_at_ms,
        }
    }
}

impl Clone for RuntimeTaskEntry {
    fn clone(&self) -> (r: Self)
        ensures
            r@ == self@,
    {
        RuntimeTaskEntry {
            task_id: self.task_id.clone(),
            kind: self.kind.clone(),
            node_id: self.node_id.clone(),
            role: self.role,
            status: self.status.clone(),
            problem_id: self.problem_id.clone(),
            solve_id: self.solve_id.clone(),
            request_id: self.request_id.clone(),
            job_id: self.job_id.clone(),
            job_uuid: self.job_uuid.clone(),
            abortable: self.abortable,
            started_at_ms: self.started_at_ms,
            updated_at_ms: self.updated_at_ms,
            finished_at_ms: self.finished_at_ms,
        }
    }
}

impl Duplicate for RuntimeTaskEntry {
    fn duplicate(&self) -> (r: Self) {
        self.clone()
    }
}

/// The tasks by their contents.
pub type Tasks = Map<Seq<char>, Task>;

/// Whether a task is kept: it runs, or it ended not too long ago.
pub open spec fn is_kept(t: Task, now: u128, retention_ms: int) -> bool {
    match t.finished_at_ms {
        Some(end) => elapsed(now, end) <= retention_ms,
        None => true,
    }
}

/// The tasks that are kept.
pub open spec fn kept_tasks(tasks: Tasks, now: u128, retention_ms: int) -> Tasks {
    Map::new(
        |k: Seq<char>| tasks.contains_key(k) && is_kept(tasks[k], now, retention_ms),
        |k: Seq<char>| tasks[k],
    )
}

/// Forgets the tasks that ended too long ago.
pub fn prune_runtime_tasks(tasks: &mut Table<RuntimeTaskEntry>, now: u128, config: &RuntimeConfig)
    ensures
        final(tasks)@ == kept_tasks(old(tasks)@, now, retention_ms(*config)),
{
    let limit: u128 = runtime_task_retention_ms(config);
    proof {
        use_type_invariant(&*tasks);
        tasks.order_is_contents();
    }
    let ghost before = tasks@;
    let ghost order = tasks.order();
    let mut gone: Vec<String> = Vec::new();
    let n: usize = tasks.len();
    let mut i: usize = 0;
    while i < n
        invariant
            i <= n,
            n == order.len(),
            order == tasks.order(),
            tasks@ == before,
            forall|j: int|
                0 <= j < n ==> before.contains_key((#[trigger] order[j]).0)
                    && before[order[j].0] == order[j].1,
            forall|p: int|
                0 <= p < gone@.len() ==> before.contains_key(#[trigger] gone@[p]@) && !is_kept(
                    before[gone@[p]@],
                    now,
                    limit as int,
                ),
            forall|j: int|
                0 <= j < i && !is_kept((#[trigger] order[j]).1, now, limit as int) ==> exists|p: int|
                    0 <= p < gone@.len() && #[trigger] gone@[p]@ == order[j].0,
        decreases n - i,
    {
        let ghost known = gone@;
        if let Some(end) = tasks.value_at(i).finished_at_ms {
            if elapsed_ms(now, end) > limit {
                gone.push(tasks.key_at(i).clone());
            }
        }
        assert forall|j: int|
            0 <= j < i + 1 && !is_kept(
                (#[trigger] order[j]).1,
                now,
                limit as int,
            ) implies exists|p: int| 0 <= p < gone@.len() && #[trigger] gone@[p]@ == order[j].0 by {
            if j < i {
                let p = choose|p: int| 0 <= p < known.len() && #[trigger] known[p]@ == order[j].0;
                assert(gone@[p]@ == order[j].0);
            } else {
                assert(gone@[gone@.len() - 1]@ == order[j].0);
            }
        }
        i = i + 1;
    }
    tasks.remove_all(&gone);
    proof {
        assert forall|k: Seq<char>| #[trigger] tasks@.contains_key(k) <==> before.contains_key(k)
            && is_kept(before[k], now, limit as int) by {
            if before.contains_key(k) {
                let j = choose|j: int| 0 <= j < order.len() && #[trigger] order[j].0 == k;
                assert(before[k] == order[j].1);
                if !is_kept(before[k], now, limit as int) {
                    let q = choose|q: int|
                        0 <= q < gone@.len() && #[trigger] gone@[q]@ == order[j].0;
                    assert(gone@[q]@ == k);
                }
            }
        }
        assert(tasks@ =~= kept_tasks(before, now, limit as int));
    }
}

/// What a task is about.
#[derive(Debug)]
pub struct TaskSubject {
    pub problem_id: Option<String>,
    pub solve_id: Option<String>,
    pub request_id: Option<String>,
    pub job_id: Option<String>,
    pub job_uuid: Option<String>,
}

/// A task that has just begun.
pub open spec fn new_task(
    task_id: Seq<char>,
    kind: Seq<char>,
    about: TaskSubject,
    abortable: bool,
    node_id: Seq<char>,
    role: NodeRole,
    now: u128,
) -> Task {
    Task {
        task_id,
        kind,
        node_id,
        role,
        status: "running"@,
        problem_id: text_view(about.problem_id),
        solve_id: text_view(about.solve_id),
        request_id: text_view(about.request_id),
        job_id: text_view(about.job_id),
        job_uuid: text_view(about.job_uuid),
        abortable,
        started_at_ms: now,
        updated_at_ms: now,
        finished_at_ms: None,
    }
}

/// Notes that a task begins.
pub fn track_runtime_task_started(
    tasks: &mut Table<RuntimeTaskEntry>,
    task_id: String,
    kind: &str,
    about: TaskSubject,
    abortable: bool,
    node_id: &str,
    role: NodeRole,
    now: u128,
    config: &RuntimeConfig,
)
    ensures
        final(tasks)@ == kept_tasks(old(tasks)@, now, retention_ms(*config)).insert(
            task_id@,
            new_task(task_id@, kind@, about, abortable, node_id@, role, now),
        ),
{
    prune_runtime_tasks(tasks, now, config);
    let entry = RuntimeTaskEntry {
        task_id: task_id.clone(),
        kind: kind.to_owned(),
        node_id: node_id.to_owned(),
        role,
        status: "running".to_owned(),
        problem_id: about.problem_id,
        solve_id: about.solve_id,
        request_id: about.request_id,
        job_id: about.job_id,
        job_uuid: about.job_uuid,
        abortable,
        started_at_ms: now,
        updated_at_ms: now,
        finished_at_ms: None,
    };
    tasks.insert(task_id, entry);
}

/// The tasks, with one of them changed where it is known.
pub open spec fn with_task(tasks: Tasks, id: Seq<char>, change: spec_fn(Task) -> Task) -> Tasks {
    if tasks.contains_key(id) {
        tasks.insert(id, change(tasks[id]))
    } else {
        tasks
    }
}

/// Notes the solve that a task is about.
pub fn track_runtime_task_solve(
    tasks: &mut Table<RuntimeTaskEntry>,
    task_id: &str,
    solve_id: &str,
    now: u128,
)
    ensures
        final(tasks)@ == with_task(
            old(tasks)@,
            task_id@,
            |t: Task| Task { solve_id: Some(solve_id@), updated_at_ms: now, ..t },
        ),
{
    let ghost before = tasks@;
    if let Some(mut t) = tasks.remove(task_id) {
        t.solve_id = Some(solve_id.to_owned());
        t.updated_at_ms = now;
        tasks.insert(task_id.to_owned(), t);
    }
    assert(tasks@ =~= with_task(
        before,
        task_id@,
        |t: Task| Task { solve_id: Some(solve_id@), updated_at_ms: now, ..t },
    ));
}

/// Notes that a task can now be aborted.
pub fn track_runtime_task_abort_handle(
    tasks: &mut Table<RuntimeTaskEntry>,
    task_id: &str,
    now: u128,
) -> (r: bool)
    ensures
        r == old(tasks)@.contains_key(task_id@),
        final(tasks)@ == with_task(
            old(tasks)@,
            task_id@,
            |t: Task| Task { abortable: true, updated_at_ms: now, ..t },
        ),
{
    let ghost before = tasks@;
    let mut known = false;
    if let Some(mut t) = tasks.remove(task_id) {
        t.abortable = true;
        t.updated_at_ms = now;
        tasks.insert(task_id.to_owned(), t);
        known = true;
    }
    assert(tasks@ =~= with_task(
        before,
        task_id@,
        |t: Task| Task { abortable: true, updated_at_ms: now, ..t },
    ));
    known
}

/// A task that has ended; the first end counts.
pub open spec fn ended(t: Task, status: Seq<char>, now: u128) -> Task {
    Task {
        status,
        updated_at_ms: now,
        finished_at_ms: match t.finished_at_ms {
            Some(end) => Some(end),
            None => Some(now),
        },
        abortable: false,
        ..t
    }
}

/// Notes that a task has ended.
pub fn track_runtime_task_finished(
    tasks: &mut Table<RuntimeTaskEntry>,
    task_id: &str,
    status: &str,
    now: u128,
)
    ensures
        final(tasks)@ == with_task(old(tasks)@, task_id@, |t: Task| ended(t, status@, now)),
{
    let ghost before = tasks@;
    if let Some(mut t) = tasks.remove(task_id) {
        t.status = status.to_owned();
        t.updated_at_ms = now;
        if t.finished_at_ms.is_none() {
            t.finished_at_ms = Some(now);
        }
        t.abortable = false;
        tasks.insert(task_id.to_owned(), t);
    }
    assert(tasks@ =~= with_task(before, task_id@, |t: Task| ended(t, status@, now)));
}

/// Notes that a task has ended, unless it is known to have.
pub fn track_runtime_task_finished_if_open(
    tasks: &mut Table<RuntimeTaskEntry>,
    task_id: &str,
    status: &str,
    now: u128,
)
    ensures
        final(tasks)@ == with_task(
            old(tasks)@,
            task_id@,
            |t: Task|
                if t.finished_at_ms is Some {
                    t
                } else {
                    ended(t, status@, now)
                },
        ),
{
    let ghost before = tasks@;
    let open = match tasks.get(task_id) {
        Some(t) => t.finished_at_ms.is_none(),
        None => false,
    };
    if open {
        track_runtime_task_finished(tasks, task_id, status, now);
    }
    assert(tasks@ =~= with_task(
        before,
        task_id@,
        |t: Task|
            if t.finished_at_ms is Some {
                t
            } else {
                ended(t, status@, now)
            },
    ));
}

/// The end of a task stays the first one, and a task that has ended cannot be
/// aborted.
pub proof fn ends_are_final(t: Task, first: Seq<char>, at: u128, second: Seq<char>, later: u128)
    ensures
        ended(ended(t, first, at), second, later).finished_at_ms == ended(t, first, at).finished_at_ms,
        ended(t, first, at).finished_at_ms is Some,
        !ended(t, first, at).abortable,
{
}

/// Whether a key names a task: by its own identifier or by what it is about.
pub open spec fn task_matches(t: Task, key: Seq<char>) -> bool {
    t.task_id == key || t.problem_id == Some(key) || t.solve_id == Some(key) || t.request_id
        == Some(key) || t.job_id == Some(key) || t.job_uuid == Some(key)
}

fn holds(field: &Option<String>, key: &str) -> (r: bool)
    ensures
        r == (text_view(*field) == Some(key@)),
{
    match field {
        Some(s) => same(s.as_str(), key),
        None => false,
    }
}

/// Whether a key names a task.
pub fn runtime_task_matches(entry: &RuntimeTaskEntry, key: &str) -> (r: bool)
    ensures
        r == task_matches(entry@, key@),
{
    same(entry.task_id.as_str(), key) || holds(&entry.problem_id, key) || holds(
        &entry.solve_id,
        key,
    ) || holds(&entry.request_id, key) || holds(&entry.job_id, key) || holds(&entry.job_uuid, key)
}

impl Ranked for RuntimeTaskEntry {
    open spec fn goes_before(a: Task, b: Task) -> bool {
        if a.updated_at_ms != b.updated_at_ms {
            a.updated_at_ms > b.updated_at_ms
        } else {
            text_before(a.task_id, b.task_id)
        }
    }

    proof fn is_an_order(a: Task, b: Task, c: Task) {
        text_order_is_total(a.task_id, b.task_id);
        text_order_is_total(a.task_id, c.task_id);
        text_order_is_total(b.task_id, c.task_id);
        if text_before(a.task_id, b.task_id) && text_before(b.task_id, c.task_id) {
            text_order_is_transitive(a.task_id, b.task_id, c.task_id);
        }
    }

    fn is_before(&self, other: &Self) -> (r: bool) {
        if self.updated_at_ms != other.updated_at_ms {
            self.updated_at_ms > other.updated_at_ms
        } else {
            is_text_before(self.task_id.as_str(), other.task_id.as_str())
        }
    }
}

/// The tasks that are kept, the last changed first.
pub fn runtime_task_entries(
    tasks: &mut Table<RuntimeTaskEntry>,
    now: u128,
    config: &RuntimeConfig,
) -> (r: Vec<RuntimeTaskEntry>)
    ensures
        final(tasks)@ == kept_tasks(old(tasks)@, now, retention_ms(*config)),
        in_order::<RuntimeTaskEntry>(views(r@)),
        exists|keys: Seq<Seq<char>>| #[trigger] lists(views(r@), keys, final(tasks)@),
{
    prune_runtime_tasks(tasks, now, config);
    sorted_values(tasks)
}

/// A task that a key names: the one with that identifier, else one that matches.
pub fn runtime_task_lookup(
    tasks: &mut Table<RuntimeTaskEntry>,
    key: &str,
    now: u128,
    config: &RuntimeConfig,
) -> (r: Option<RuntimeTaskEntry>)
    ensures
        final(tasks)@ == kept_tasks(old(tasks)@, now, retention_ms(*config)),
        match r {
            Some(t) => if final(tasks)@.contains_key(key@) {
                t@ == final(tasks)@[key@]
            } else {
                exists|k: Seq<char>| #[trigger]
                    final(tasks)@.contains_key(k) && t@ == final(tasks)@[k] && task_matches(
                        t@,
                        key@,
                    )
            },
            None => forall|k: Seq<char>| #[trigger]
                final(tasks)@.contains_key(k) ==> k != key@ && !task_matches(
                    final(tasks)@[k],
                    key@,
                ),
        },
{
    prune_runtime_tasks(tasks, now, config);
    if let Some(t) = tasks.get(key) {
        return Some(t.clone());
    }
    proof {
        use_type_invariant(&*tasks);
        tasks.order_is_contents();
    }
    let ghost order = tasks.order();
    let ghost held = tasks@;
    let n: usize = tasks.len();
    let mut i: usize = 0;
    while i < n
        invariant
            i <= n,
            n == order.len(),
            order == tasks.order(),
            held == tasks@,
            held == kept_tasks(old(tasks)@, now, retention_ms(*config)),
            !held.contains_key(key@),
            forall|j: int|
                0 <= j < n ==> held.contains_key((#[trigger] order[j]).0) && held[order[j].0]
                    == order[j].1,
            forall|j: int| 0 <= j < i ==> !task_matches((#[trigger] order[j]).1, key@),
        decreases n - i,
    {
        if runtime_task_matches(tasks.value_at(i), key) {
            assert(held.contains_key(order[i as int].0));
            return Some(tasks.value_at(i).clone());
        }
        i = i + 1;
    }
    assert forall|k: Seq<char>| #[trigger] held.contains_key(k) implies k != key@ && !task_matches(
        held[k],
        key@,
    ) by {
        let j = choose|j: int| 0 <= j < order.len() && #[trigger] order[j].0 == k;
        assert(!task_matches(order[j].1, key@));
    }
    None
}

/// A task that ends is entered with how it ended and is no longer abortable; the time
/// of its end is that of the first time, and what it was about stays.
pub proof fn ended_tasks_keep_what_they_were(t: Task, status: Seq<char>, now: u128)
    ensures
        ended(t, status, now).status == status,
        ended(t, status, now).updated_at_ms == now,
        t.finished_at_ms is None ==> ended(t, status, now).finished_at_ms == Some(now),
        t.finished_at_ms is Some ==> ended(t, status, now).finished_at_ms == t.finished_at_ms,
        ended(t, status, now).task_id == t.task_id && ended(t, status, now).kind == t.kind,
        ended(t, status, now).problem_id == t.problem_id && ended(t, status, now).solve_id
            == t.solve_id && ended(t, status, now).job_id == t.job_id && ended(
            t,
            status,
            now,
        ).started_at_ms == t.started_at_ms,
{
}

/// A new task runs, under its identifier and about its subject.
pub proof fn tasks_begin_running(
    task_id: Seq<char>,
    kind: Seq<char>,
    about: TaskSubject,
    abortable: bool,
    node_id: Seq<char>,
    role: NodeRole,
    now: u128,
)
    ensures
        ({
            let t = new_task(task_id, kind, about, abortable, node_id, role, now);
            &&& t.task_id == task_id && t.kind == kind && t.node_id == node_id && t.role == role
            &&& t.status == "running"@
            &&& t.abortable == abortable
            &&& t.started_at_ms == now && t.updated_at_ms == now && t.finished_at_ms is None
            &&& t.problem_id == text_view(about.problem_id)
            &&& t.solve_id == text_view(about.solve_id)
            &&& t.request_id == text_view(about.request_id)
            &&& t.job_id == text_view(about.job_id)
            &&& t.job_uuid == text_view(about.job_uuid)
        }),
{
}

/// A task is forgotten exactly where it ended longer ago than tasks are kept; a running
/// one is always kept.
pub proof fn old_tasks_are_forgotten(tasks: Tasks, now: u128, retention_ms: int, k: Seq<char>)
    requires
        retention_ms >= 0,
    ensures
        kept_tasks(tasks, now, retention_ms).contains_key(k) <==> tasks.contains_key(k) && (
        tasks[k].finished_at_ms is None || now <= tasks[k].finished_at_ms->0 + retention_ms),
        kept_tasks(tasks, now, retention_ms).contains_key(k) ==> kept_tasks(
            tasks,
            now,
            retention_ms,
        )[k] == tasks[k],
{
}

/// A task is found by its identifier, or by what it is about, and by nothing else.
pub proof fn tasks_are_found_by_what_they_are_about(t: Task, key: Seq<char>)
    ensures
        task_matches(t, t.task_id),
        t.problem_id is Some ==> task_matches(t, t.problem_id->0),
        t.solve_id is Some ==> task_matches(t, t.solve_id->0),
        t.request_id is Some ==> task_matches(t, t.request_id->0),
        t.job_id is Some ==> task_matches(t, t.job_id->0),
        t.job_uuid is Some ==> task_matches(t, t.job_uuid->0),
        task_matches(t, key) ==> key == t.task_id || Some(key) == t.problem_id || Some(key)
            == t.solve_id || Some(key) == t.request_id || Some(key) == t.job_id || Some(key)
            == t.job_uuid,
{
}

/// Tasks are listed latest first, and by name where they were updated at the same time.
pub proof fn tasks_are_listed_latest_first(a: Task, b: Task)
    ensures
        a.updated_at_ms > b.updated_at_ms ==> RuntimeTaskEntry::goes_before(a, b)
            && !RuntimeTaskEntry::goes_before(b, a),
        a.updated_at_ms == b.updated_at_ms ==> (RuntimeTaskEntry::goes_before(a, b) <==>
            text_before(a.task_id, b.task_id)),
{
}

/// A change of one task leaves the others as they were.
pub proof fn tasks_change_one_by_one(
    tasks: Tasks,
    id: Seq<char>,
    change: spec_fn(Task) -> Task,
    other: Seq<char>,
)
    requires
        other != id,
    ensures
        with_task(tasks, id, change).contains_key(other) == tasks.contains_key(other),
        tasks.contains_key(other) ==> with_task(tasks, id, change)[other] == tasks[other],
        with_task(tasks, id, change).contains_key(id) == tasks.contains_key(id),
        tasks.contains_key(id) ==> with_task(tasks, id, change)[id] == change(tasks[id]),
{
}

}
