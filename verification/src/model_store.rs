//! Where models are kept: in the node's own memory and in a shared cache. A model
//! that is stored under a problem and a revision stays what it is.

use crate::ids::{local_model_key, local_problem_model_key};
use crate::jobs::{Job, SubproblemJob};
use crate::model::{
    good_rows, model_view, names_view, normalized_problem, normalized_result, rows, valid, Limits,
    MipProblemSpec, Model,
};
use crate::number::Double;
use crate::table::Table;
use crate::text::{dec, decimal_u64, same, texts};
use vstd::prelude::*;
use vstd::string::*;

verus! {

/// Whether two lists hold equal numbers.
pub open spec fn same_numbers(a: Seq<Double>, b: Seq<Double>) -> bool {
    &&& a.len() == b.len()
    &&& forall|i: int| 0 <= i < a.len() ==> (#[trigger] a[i]).equals(b[i])
}

/// Whether two tables hold equal numbers.
pub open spec fn same_rows(a: Seq<Seq<Double>>, b: Seq<Seq<Double>>) -> bool {
    &&& a.len() == b.len()
    &&& forall|i: int| 0 <= i < a.len() ==> same_numbers(#[trigger] a[i], b[i])
}

/// Whether two models are equal, their numbers taken by value.
pub open spec fn same_model(a: Model, b: Model) -> bool {
    &&& a.sense == b.sense
    &&& same_numbers(a.c, b.c)
    &&& same_rows(a.a, b.a)
    &&& same_numbers(a.b, b.b)
    &&& a.integer_vars == b.integer_vars
    &&& match (a.ub, b.ub) {
        (Some(x), Some(y)) => same_numbers(x, y),
        (None, None) => true,
        _ => false,
    }
    &&& a.var_names == b.var_names
    &&& a.con_names == b.con_names
}

fn are_same_numbers(a: &Vec<Double>, b: &Vec<Double>) -> (r: bool)
    ensures
        r == same_numbers(a@, b@),
{
    if a.len() != b.len() {
        return false;
    }
    let mut i: usize = 0;
    while i < a.len()
        invariant
            i <= a@.len(),
            a@.len() == b@.len(),
            forall|j: int| 0 <= j < i ==> (#[trigger] a@[j]).equals(b@[j]),
        decreases a@.len() - i,
    {
        if !a[i].is_equal_to(b[i]) {
            assert(!a@[i as int].equals(b@[i as int]));
            return false;
        }
        i = i + 1;
    }
    true
}

fn are_same_rows(a: &Vec<Vec<Double>>, b: &Vec<Vec<Double>>) -> (r: bool)
    ensures
        r == same_rows(rows(a@), rows(b@)),
{
    if a.len() != b.len() {
        return false;
    }
    let mut i: usize = 0;
    while i < a.len()
        invariant
            i <= a@.len(),
            a@.len() == b@.len(),
            forall|j: int| 0 <= j < i ==> same_numbers(#[trigger] rows(a@)[j], rows(b@)[j]),
        decreases a@.len() - i,
    {
        assert(rows(a@)[i as int] == a@[i as int]@ && rows(b@)[i as int] == b@[i as int]@);
        if !are_same_numbers(&a[i], &b[i]) {
            return false;
        }
        i = i + 1;
    }
    true
}

fn are_same_flags(a: &Vec<bool>, b: &Vec<bool>) -> (r: bool)
    ensures
        r == (a@ == b@),
{
    if a.len() != b.len() {
        return false;
    }
    let mut i: usize = 0;
    while i < a.len()
        invariant
            i <= a@.len(),
            a@.len() == b@.len(),
            forall|j: int| 0 <= j < i ==> a@[j] == b@[j],
        decreases a@.len() - i,
    {
        if a[i] != b[i] {
            return false;
        }
        i = i + 1;
    }
    assert(a@ =~= b@);
    true
}

fn are_same_names(a: &Option<Vec<String>>, b: &Option<Vec<String>>) -> (r: bool)
    ensures
        r == (names_view(*a) == names_view(*b)),
{
    match (a, b) {
        (Some(x), Some(y)) => {
            if x.len() != y.len() {
                assert(texts(x@).len() != texts(y@).len());
                return false;
            }
            let mut i: usize = 0;
            while i < x.len()
                invariant
                    i <= x@.len(),
                    x@.len() == y@.len(),
                    *a == Some(*x),
                    *b == Some(*y),
                    forall|j: int| 0 <= j < i ==> texts(x@)[j] == texts(y@)[j],
                decreases x@.len() - i,
            {
                assert(texts(x@)[i as int] == x@[i as int]@ && texts(y@)[i as int]
                    == y@[i as int]@);
                if !same(x[i].as_str(), y[i].as_str()) {
                    assert(texts(x@) != texts(y@));
                    return false;
                }
                i = i + 1;
            }
            assert(texts(x@) =~= texts(y@));
            true
        },
        (None, None) => true,
        _ => false,
    }
}

/// Whether two models are equal, their numbers taken by value.
pub fn models_are_same(a: &MipProblemSpec, b: &MipProblemSpec) -> (r: bool)
    ensures
        r == same_model(a@, b@),
{
    let same_ub = match (&a.ub, &b.ub) {
        (Some(x), Some(y)) => are_same_numbers(x, y),
        (None, None) => true,
        _ => false,
    };
    same(a.sense.as_str(), b.sense.as_str()) && are_same_numbers(&a.c, &b.c) && are_same_rows(
        &a.a,
        &b.a,
    ) && are_same_numbers(&a.b, &b.b) && are_same_flags(&a.integer_vars, &b.integer_vars)
        && same_ub && are_same_names(&a.var_names, &b.var_names) && are_same_names(
        &a.con_names,
        &b.con_names,
    )
}

/// What storing a model did.
#[derive(Clone, Copy, Debug, PartialEq, Eq, Structural)]
pub enum ProblemStoreStatus {
    Created,
    Existing,
}

impl ProblemStoreStatus {
    /// The name of a status.
    pub fn as_str(self) -> (r: &'static str)
        ensures
            r@ == match self {
                ProblemStoreStatus::Created => "created"@,
                ProblemStoreStatus::Existing => "existing"@,
            },
    {
        match self {
            ProblemStoreStatus::Created => "created",
            ProblemStoreStatus::Existing => "existing",
        }
    }
}

/// The models in the node's memory.
pub type Models = Map<Seq<char>, Model>;

/// The text about a model that differs from the one that is stored.
pub open spec fn conflict(problem_id: Seq<char>, revision: u64) -> Seq<char> {
    "stored problem "@ + problem_id + " revision "@ + dec(revision as nat)
        + " already exists with a different model"@
}

fn conflict_text(problem_id: &str, revision: u64) -> (r: String)
    ensures
        r@ == conflict(problem_id@, revision),
{
    let mut e = "stored problem ".to_owned();
    e.append(problem_id);
    e.append(" revision ");
    e.append(decimal_u64(revision).as_str());
    e.append(" already exists with a different model");
    e
}

/// What comes of storing a model, by its contents.
pub open spec fn store_view(r: Result<ProblemStoreStatus, String>) -> Result<
    ProblemStoreStatus,
    Seq<char>,
> {
    match r {
        Ok(s) => Ok(s),
        Err(e) => Err(e@),
    }
}

/// Keeps a model in memory, in place of one that is there.
pub fn remember_problem_model(
    problems: &mut Table<MipProblemSpec>,
    problem_id: &str,
    revision: u64,
    problem: MipProblemSpec,
) -> (r: MipProblemSpec)
    ensures
        r@ == problem@,
        final(problems)@ == old(problems)@.insert(
            local_model_key(problem_id@, revision),
            problem@,
        ),
{
    problems.insert(local_problem_model_key(problem_id, revision), problem.clone());
    problem
}

/// What comes of storing a model in memory alone.
pub open spec fn local_store(models: Models, problem_id: Seq<char>, revision: u64, m: Model) -> Result<
    ProblemStoreStatus,
    Seq<char>,
> {
    let key = local_model_key(problem_id, revision);
    if !models.contains_key(key) {
        Ok(ProblemStoreStatus::Created)
    } else if same_model(models[key], m) {
        Ok(ProblemStoreStatus::Existing)
    } else {
        Err(conflict(problem_id, revision))
    }
}

/// The models after one has been stored in memory alone.
pub open spec fn after_local_store(models: Models, problem_id: Seq<char>, revision: u64, m: Model) -> Models {
    let key = local_model_key(problem_id, revision);
    if models.contains_key(key) {
        models
    } else {
        models.insert(key, m)
    }
}

/// Stores a model in memory, unless one is there.
pub fn ensure_local_problem_model(
    problems: &mut Table<MipProblemSpec>,
    problem_id: &str,
    revision: u64,
    problem: &MipProblemSpec,
) -> (r: Result<ProblemStoreStatus, String>)
    ensures
        store_view(r) == local_store(old(problems)@, problem_id@, revision, problem@),
        final(problems)@ == after_local_store(old(problems)@, problem_id@, revision, problem@),
{
    let key = local_problem_model_key(problem_id, revision);
    if let Some(existing) = problems.get(key.as_str()) {
        if models_are_same(existing, problem) {
            return Ok(ProblemStoreStatus::Existing);
        }
        return Err(conflict_text(problem_id, revision));
    }
    problems.insert(key, problem.clone());
    Ok(ProblemStoreStatus::Created)
}

/// Storing a model changes none that is stored; and what is stored once is found
/// there when it is stored again.
pub proof fn stored_models_stay(
    models: Models,
    problem_id: Seq<char>,
    revision: u64,
    m: Model,
    key: Seq<char>,
    limits: Limits,
)
    ensures
        models.contains_key(key) ==> after_local_store(
            models,
            problem_id,
            revision,
            m,
        ).contains_key(key) && after_local_store(models, problem_id, revision, m)[key]
            == models[key],
        valid(m, limits) && local_store(models, problem_id, revision, m) is Ok ==> local_store(
            after_local_store(models, problem_id, revision, m),
            problem_id,
            revision,
            m,
        ) == Ok::<ProblemStoreStatus, Seq<char>>(ProblemStoreStatus::Existing),
{
    if valid(m, limits) {
        valid_models_equal_themselves(m, limits);
    }
}

/// A model that passes the checks equals itself.
pub proof fn valid_models_equal_themselves(m: Model, limits: Limits)
    requires
        valid(m, limits),
    ensures
        same_model(m, m),
{
    good_rows(m.a, m.c.len());
    assert forall|i: int| 0 <= i < m.a.len() implies same_numbers(#[trigger] m.a[i], m.a[i]) by {
        assert forall|j: int| 0 <= j < m.a[i].len() implies (#[trigger] m.a[i][j]).equals(
            m.a[i][j],
        ) by {
            assert(m.a[i][j].finite());
        }
    }
    assert forall|i: int| 0 <= i < m.c.len() implies (#[trigger] m.c[i]).equals(m.c[i]) by {
        assert(m.c[i].finite());
    }
    assert forall|i: int| 0 <= i < m.b.len() implies (#[trigger] m.b[i]).equals(m.b[i]) by {
        assert(m.b[i].finite());
    }
}

/// The model in memory, where there is one.
pub open spec fn cached(models: Models, problem_id: Seq<char>, revision: u64) -> Option<Model> {
    let key = local_model_key(problem_id, revision);
    if models.contains_key(key) {
        Some(models[key])
    } else {
        None
    }
}

/// The model in memory, where there is one.
pub fn cached_problem_model(problems: &Table<MipProblemSpec>, problem_id: &str, revision: u64) -> (r:
    Option<MipProblemSpec>)
    ensures
        model_view(r) == cached(problems@, problem_id@, revision),
{
    match problems.get(local_problem_model_key(problem_id, revision).as_str()) {
        Some(p) => Some(p.clone()),
        None => None,
    }
}

/// The model that a stored value holds, given what was read of it: one that passes
/// the checks.
pub open spec fn usable(parsed: Option<Model>, limits: Limits) -> Option<Model> {
    match parsed {
        None => None,
        Some(m) => match normalized_result(m, limits) {
            Ok(n) => Some(n),
            Err(_) => None,
        },
    }
}

/// The model that a stored value holds, given what was read of it.
pub fn problem_model_from_value(parsed: Option<MipProblemSpec>, limits: Limits) -> (r: Option<
    MipProblemSpec,
>)
    ensures
        model_view(r) == usable(model_view(parsed), limits),
{
    match parsed {
        None => None,
        Some(p) => match normalized_problem(p, limits) {
            Ok(n) => Some(n),
            Err(_) => None,
        },
    }
}

/// The next step in storing a model.
#[derive(Debug)]
pub enum StoreStep {
    /// It is done.
    Done(Result<ProblemStoreStatus, String>),
    /// Read the model from the shared cache.
    Load,
    /// Put the model into the shared cache, unless one is there.
    Put,
    /// Read the model that is in the shared cache after all.
    Reload,
}

/// Begins to store a model: in memory alone where there is no shared cache.
pub fn store_problem_model(
    problems: &mut Table<MipProblemSpec>,
    shared_cache: bool,
    problem_id: &str,
    revision: u64,
    problem: &MipProblemSpec,
) -> (r: StoreStep)
    ensures
        if shared_cache {
            r is Load && final(problems)@ == old(problems)@
        } else {
            r is Done && store_view(r->Done_0) == local_store(
                old(problems)@,
                problem_id@,
                revision,
                problem@,
            ) && final(problems)@ == after_local_store(
                old(problems)@,
                problem_id@,
                revision,
                problem@,
            )
        },
{
    if shared_cache {
        return StoreStep::Load;
    }
    StoreStep::Done(ensure_local_problem_model(problems, problem_id, revision, problem))
}

/// Whether a model that was read is the one to be stored: then it is kept in
/// memory too, else the store fails.
pub open spec fn settled(
    before: Models,
    after: Models,
    r: Result<ProblemStoreStatus, Seq<char>>,
    existing: Model,
    m: Model,
    problem_id: Seq<char>,
    revision: u64,
) -> bool {
    if same_model(existing, m) {
        &&& r == Ok::<ProblemStoreStatus, Seq<char>>(ProblemStoreStatus::Existing)
        &&& after == before.insert(local_model_key(problem_id, revision), existing)
    } else {
        &&& r == Err::<ProblemStoreStatus, Seq<char>>(conflict(problem_id, revision))
        &&& after == before
    }
}

fn settle(
    problems: &mut Table<MipProblemSpec>,
    existing: MipProblemSpec,
    problem_id: &str,
    revision: u64,
    problem: &MipProblemSpec,
) -> (r: Result<ProblemStoreStatus, String>)
    ensures
        settled(
            old(problems)@,
            final(problems)@,
            store_view(r),
            existing@,
            problem@,
            problem_id@,
            revision,
        ),
{
    if models_are_same(&existing, problem) {
        remember_problem_model(problems, problem_id, revision, existing);
        return Ok(ProblemStoreStatus::Existing);
    }
    Err(conflict_text(problem_id, revision))
}

/// Goes on after the shared cache has been read.
pub fn store_after_load(
    problems: &mut Table<MipProblemSpec>,
    loaded: Option<MipProblemSpec>,
    problem_id: &str,
    revision: u64,
    problem: &MipProblemSpec,
) -> (r: StoreStep)
    ensures
        match loaded {
            None => r is Put && final(problems)@ == old(problems)@,
            Some(existing) => r is Done && settled(
                old(problems)@,
                final(problems)@,
                store_view(r->Done_0),
                existing@,
                problem@,
                problem_id@,
                revision,
            ),
        },
{
    match loaded {
        None => StoreStep::Put,
        Some(existing) => StoreStep::Done(
            settle(problems, existing, problem_id, revision, problem),
        ),
    }
}

/// Goes on after the model has been put into the shared cache, or could not be:
/// `put` tells whether none was there.
pub fn store_after_put(
    problems: &mut Table<MipProblemSpec>,
    put: Result<bool, String>,
    problem_id: &str,
    revision: u64,
    problem: &MipProblemSpec,
) -> (r: StoreStep)
    ensures
        match put {
            Err(e) => r is Done && store_view(r->Done_0) == Err::<ProblemStoreStatus, Seq<char>>(
                e@,
            ) && final(problems)@ == old(problems)@,
            Ok(true) => r is Done && store_view(r->Done_0) == Ok::<ProblemStoreStatus, Seq<char>>(
                ProblemStoreStatus::Created,
            ) && final(problems)@ == old(problems)@.insert(
                local_model_key(problem_id@, revision),
                problem@,
            ),
            Ok(false) => r is Reload && final(problems)@ == old(problems)@,
        },
{
    match put {
        Err(e) => StoreStep::Done(Err(e)),
        Ok(stored) => {
            if stored {
                remember_problem_model(problems, problem_id, revision, problem.clone());
                StoreStep::Done(Ok(ProblemStoreStatus::Created))
            } else {
                StoreStep::Reload
            }
        },
    }
}

/// Goes on after the model that was in the shared cache after all has been read.
pub fn store_after_reload(
    problems: &mut Table<MipProblemSpec>,
    loaded: Option<MipProblemSpec>,
    problem_id: &str,
    revision: u64,
    problem: &MipProblemSpec,
) -> (r: Result<ProblemStoreStatus, String>)
    ensures
        match loaded {
            None => store_view(r) == Err::<ProblemStoreStatus, Seq<char>>(
                "stored problem "@ + problem_id@ + " revision "@ + dec(revision as nat)
                    + " already exists but could not be reloaded"@,
            ) && final(problems)@ == old(problems)@,
            Some(existing) => settled(
                old(problems)@,
                final(problems)@,
                store_view(r),
                existing@,
                problem@,
                problem_id@,
                revision,
            ),
        },
{
    match loaded {
        None => {
            let mut e = "stored problem ".to_owned();
            e.append(problem_id);
            e.append(" revision ");
            e.append(decimal_u64(revision).as_str());
            e.append(" already exists but could not be reloaded");
            Err(e)
        },
        Some(existing) => settle(problems, existing, problem_id, revision, problem),
    }
}

/// Keeps a model that was read from the shared cache, where it can be used.
pub fn model_loaded(
    problems: &mut Table<MipProblemSpec>,
    parsed: Option<MipProblemSpec>,
    problem_id: &str,
    revision: u64,
    limits: Limits,
) -> (r: Option<MipProblemSpec>)
    ensures
        model_view(r) == usable(model_view(parsed), limits),
        final(problems)@ == match usable(model_view(parsed), limits) {
            Some(m) => old(problems)@.insert(local_model_key(problem_id@, revision), m),
            None => old(problems)@,
        },
{
    match problem_model_from_value(parsed, limits) {
        Some(p) => Some(remember_problem_model(problems, problem_id, revision, p)),
        None => None,
    }
}

/// What a job lacks before it can be worked on.
#[derive(Debug)]
pub enum Hydration {
    /// Nothing.
    Ready,
    /// Its model, which is to be read from where models are kept.
    Load { problem_id: String },
    /// Its model, of which nothing is known.
    Failed(String),
}

/// Whether a job carries the model that it is worked on with.
pub open spec fn carries_model(job: Job) -> bool {
    job.problem is Some && !job.problem_stored
}

/// What a job lacks before it can be worked on.
pub fn hydrate_subproblem_job(job: &SubproblemJob) -> (r: Hydration)
    ensures
        match r {
            Hydration::Ready => carries_model(job@),
            Hydration::Load { problem_id } => !carries_model(job@) && job@.problem_id == Some(
                problem_id@,
            ),
            Hydration::Failed(e) => {
                &&& !carries_model(job@)
                &&& job@.problem_id is None
                &&& e@ == "subproblem "@ + job.job_id@
                    + " omitted problem payload but has no problemId"@
            },
        },
{
    if job.problem.is_some() && !job.problem_stored {
        return Hydration::Ready;
    }
    match &job.problem_id {
        Some(id) => Hydration::Load { problem_id: id.clone() },
        None => {
            let mut e = "subproblem ".to_owned();
            e.append(job.job_id.as_str());
            e.append(" omitted problem payload but has no problemId");
            Hydration::Failed(e)
        },
    }
}

/// Gives a job the model that was read for it.
pub fn hydrated(job: &mut SubproblemJob, problem_id: &str, loaded: Option<MipProblemSpec>) -> (r:
    Result<(), String>)
    ensures
        match loaded {
            Some(p) => r is Ok && final(job)@ == (Job { problem: Some(p@), ..old(job)@ }),
            None => {
                &&& r is Err
                &&& r->Err_0@ == "subproblem "@ + old(job).job_id@ + " could not load problem "@
                    + problem_id@ + " revision "@ + dec(old(job).revision as nat)
                &&& final(job)@ == old(job)@
            },
        },
{
    let ghost before = job@;
    match loaded {
        Some(p) => {
            job.problem = Some(p);
            assert(job@ =~= Job { problem: Some(p@), ..before });
            Ok(())
        },
        None => {
            let mut e = "subproblem ".to_owned();
            e.append(job.job_id.as_str());
            e.append(" could not load problem ");
            e.append(problem_id);
            e.append(" revision ");
            e.append(decimal_u64(job.revision).as_str());
            Err(e)
        },
    }
}

/// A model that has been stored is read back under its problem and revision, and what
/// was stored first stays.
pub proof fn stored_models_are_read_back(
    models: Models,
    problem_id: Seq<char>,
    revision: u64,
    m: Model,
)
    ensures
        cached(models, problem_id, revision) is None ==> cached(
            after_local_store(models, problem_id, revision, m),
            problem_id,
            revision,
        ) == Some(m),
        cached(models, problem_id, revision) is Some ==> cached(
            after_local_store(models, problem_id, revision, m),
            problem_id,
            revision,
        ) == cached(models, problem_id, revision),
        local_store(models, problem_id, revision, m) == if cached(models, problem_id, revision)
            is None {
            Ok::<ProblemStoreStatus, Seq<char>>(ProblemStoreStatus::Created)
        } else if same_model(cached(models, problem_id, revision)->0, m) {
            Ok::<ProblemStoreStatus, Seq<char>>(ProblemStoreStatus::Existing)
        } else {
            Err::<ProblemStoreStatus, Seq<char>>(conflict(problem_id, revision))
        },
{
}

/// Models that count as the same have the same sense, equal numbers everywhere, and
/// the same flags and names; and that is all it takes.
pub proof fn same_models_agree(a: Model, b: Model)
    ensures
        same_model(a, b) <==> {
            &&& a.sense == b.sense
            &&& a.c.len() == b.c.len() && forall|j: int|
                0 <= j < a.c.len() ==> (#[trigger] a.c[j]).equals(b.c[j])
            &&& a.b.len() == b.b.len() && forall|i: int|
                0 <= i < a.b.len() ==> (#[trigger] a.b[i]).equals(b.b[i])
            &&& a.a.len() == b.a.len() && forall|i: int|
                0 <= i < a.a.len() ==> (#[trigger] a.a[i]).len() == b.a[i].len() && forall|j: int|
                    0 <= j < a.a[i].len() ==> (#[trigger] a.a[i][j]).equals(b.a[i][j])
            &&& a.integer_vars == b.integer_vars
            &&& (a.ub is Some) == (b.ub is Some)
            &&& a.ub is Some ==> a.ub->0.len() == b.ub->0.len() && forall|j: int|
                0 <= j < a.ub->0.len() ==> (#[trigger] a.ub->0[j]).equals(b.ub->0[j])
            &&& a.var_names == b.var_names
            &&& a.con_names == b.con_names
        },
{
    if a.a.len() == b.a.len() {
        assert(forall|i: int|
            same_numbers(#[trigger] a.a[i], b.a[i]) <==> a.a[i].len() == b.a[i].len() && forall|j: int|
                0 <= j < a.a[i].len() ==> (#[trigger] a.a[i][j]).equals(b.a[i][j]));
    }
}

/// A model that was read is used exactly where it passes the checks, and then in its
/// normal form.
pub proof fn usable_models_are_valid(parsed: Option<Model>, limits: Limits)
    ensures
        usable(parsed, limits) is Some <==> parsed is Some && valid(parsed->0, limits),
        usable(parsed, limits) is Some ==> usable(parsed, limits)->0.c == parsed->0.c && usable(
            parsed,
            limits,
        )->0.a == parsed->0.a && usable(parsed, limits)->0.b == parsed->0.b,
{
}

/// A model that the shared cache holds already is kept where it is the same, and a
/// conflict else; nothing else changes.
pub proof fn shared_models_are_settled(
    before: Models,
    after: Models,
    r: Result<ProblemStoreStatus, Seq<char>>,
    existing: Model,
    m: Model,
    problem_id: Seq<char>,
    revision: u64,
    key: Seq<char>,
)
    requires
        settled(before, after, r, existing, m, problem_id, revision),
        key != local_model_key(problem_id, revision),
    ensures
        r is Ok <==> same_model(existing, m),
        r is Ok ==> r == Ok::<ProblemStoreStatus, Seq<char>>(ProblemStoreStatus::Existing),
        r is Ok ==> cached(after, problem_id, revision) == Some(existing),
        r is Err ==> after == before,
        after.contains_key(key) == before.contains_key(key),
        before.contains_key(key) ==> after[key] == before[key],
{
}

}
