//! Locks across nodes: which lock services are used, in what order their locks
//! are taken, and how they are given back.

use crate::config::{env_u64, env_value, first_configured_env_value, keys_view, RuntimeConfig};
use crate::document::{Doc, Document, Fields};
use crate::live_mutex::LiveMutexConfig;
use crate::model::text_view;
use crate::text::{lowered, same, split, split_on, texts, to_lower, trim, trimmed};
use vstd::prelude::*;
use vstd::string::*;

verus! {

/// A lock service.
#[derive(Clone, Copy, Debug, PartialEq, Eq, Structural)]
pub enum CoordinationBackend {
    Redis,
    LiveMutex,
}

/// The name of a lock service.
pub open spec fn backend_name(backend: CoordinationBackend) -> Seq<char> {
    match backend {
        CoordinationBackend::Redis => "redis"@,
        CoordinationBackend::LiveMutex => "live-mutex"@,
    }
}

impl CoordinationBackend {
    /// The name of the lock service.
    pub fn as_str(self) -> (r: &'static str)
        ensures
            r@ == backend_name(self),
    {
        match self {
            CoordinationBackend::Redis => "redis",
            CoordinationBackend::LiveMutex => "live-mutex",
        }
    }
}

/// A list with one more service, where it is not in the list yet.
pub open spec fn with_backend(
    list: Seq<CoordinationBackend>,
    backend: CoordinationBackend,
    available: bool,
) -> Seq<CoordinationBackend> {
    if available && !list.contains(backend) {
        list.push(backend)
    } else {
        list
    }
}

/// A list with both services, as far as they can be had.
pub open spec fn with_both(
    list: Seq<CoordinationBackend>,
    redis: bool,
    live_mutex: bool,
) -> Seq<CoordinationBackend> {
    with_backend(
        with_backend(list, CoordinationBackend::Redis, redis),
        CoordinationBackend::LiveMutex,
        live_mutex,
    )
}

/// Whether a word switches coordination off.
pub open spec fn is_off(word: Seq<char>) -> bool {
    word == "off"@ || word == "none"@ || word == "disabled"@ || word == "false"@ || word == "0"@
}

/// What a word adds to a list of services.
pub open spec fn with_word(
    list: Seq<CoordinationBackend>,
    word: Seq<char>,
    redis: bool,
    live_mutex: bool,
) -> Seq<CoordinationBackend> {
    if word == "both"@ || word == "all"@ {
        with_both(list, redis, live_mutex)
    } else if word == "redis"@ {
        with_backend(list, CoordinationBackend::Redis, redis)
    } else if word == "live-mutex"@ || word == "live_mutex"@ || word == "livemutex"@ || word
        == "lmx"@ {
        with_backend(list, CoordinationBackend::LiveMutex, live_mutex)
    } else {
        list
    }
}

/// The services that words ask for, in the order in which they are named; none
/// where a word switches coordination off.
pub open spec fn named_backends(words: Seq<Seq<char>>, redis: bool, live_mutex: bool) -> Option<
    Seq<CoordinationBackend>,
>
    decreases words.len(),
{
    if words.len() == 0 {
        Some(Seq::empty())
    } else {
        match named_backends(words.drop_last(), redis, live_mutex) {
            None => None,
            Some(list) => {
                let word = trimmed(words.last());
                if is_off(word) {
                    None
                } else {
                    Some(with_word(list, word, redis, live_mutex))
                }
            },
        }
    }
}

/// The services that a setting asks for: all that can be had where it is empty
/// or `auto`, else those that it names, parted by commas.
pub open spec fn requested_backends(requested: Seq<char>, redis: bool, live_mutex: bool) -> Seq<
    CoordinationBackend,
> {
    let key = lowered(trimmed(requested));
    if key.len() == 0 || key == "auto"@ {
        with_both(Seq::empty(), redis, live_mutex)
    } else {
        match named_backends(split_on(key, ','), redis, live_mutex) {
            Some(list) => list,
            None => Seq::empty(),
        }
    }
}

proof fn switched_off_stays(words: Seq<Seq<char>>, k: int, redis: bool, live_mutex: bool)
    requires
        0 <= k <= words.len(),
        named_backends(words.take(k), redis, live_mutex) is None,
    ensures
        named_backends(words, redis, live_mutex) is None,
    decreases words.len() - k,
{
    if k == words.len() {
        assert(words.take(k) =~= words);
    } else {
        assert(words.take(k + 1).drop_last() =~= words.take(k));
        switched_off_stays(words, k + 1, redis, live_mutex);
    }
}

fn push_backend(
    list: &mut Vec<CoordinationBackend>,
    backend: CoordinationBackend,
    available: bool,
)
    ensures
        final(list)@ == with_backend(old(list)@, backend, available),
{
    if !available {
        return;
    }
    let mut i: usize = 0;
    while i < list.len()
        invariant
            i <= list@.len(),
            list@ == old(list)@,
            forall|j: int| 0 <= j < i ==> list@[j] != backend,
        decreases list@.len() - i,
    {
        if list[i] == backend {
            assert(list@.contains(backend));
            return;
        }
        i = i + 1;
    }
    assert(!list@.contains(backend));
    list.push(backend);
}

/// Reads which lock services are asked for.
pub fn parse_coordination_backends(
    requested: &str,
    redis_available: bool,
    live_mutex_available: bool,
) -> (r: Vec<CoordinationBackend>)
    ensures
        r@ == requested_backends(requested@, redis_available, live_mutex_available),
{
    let key = to_lower(trim(requested).as_str());
    let mut list: Vec<CoordinationBackend> = Vec::new();
    if key.as_str().is_empty() || same(key.as_str(), "auto") {
        push_backend(&mut list, CoordinationBackend::Redis, redis_available);
        push_backend(&mut list, CoordinationBackend::LiveMutex, live_mutex_available);
        return list;
    }
    let parts = split(key.as_str(), ',');
    let ghost all = texts(parts@);
    let mut i: usize = 0;
    assert(all.take(0) =~= Seq::empty());
    while i < parts.len()
        invariant
            i <= parts@.len(),
            all == texts(parts@),
            all == split_on(key@, ','),
            key@ == lowered(trimmed(requested@)),
            key@.len() > 0,
            key@ != "auto"@,
            named_backends(all.take(i as int), redis_available, live_mutex_available) == Some(
                list@,
            ),
        decreases parts@.len() - i,
    {
        assert(all.take(i + 1).drop_last() =~= all.take(i as int));
        assert(all.take(i + 1).last() == parts@[i as int]@);
        let word = trim(parts[i].as_str());
        let w = word.as_str();
        if same(w, "off") || same(w, "none") || same(w, "disabled") || same(w, "false") || same(
            w,
            "0",
        ) {
            proof {
                switched_off_stays(all, i + 1, redis_available, live_mutex_available);
            }
            return Vec::new();
        } else if same(w, "both") || same(w, "all") {
            push_backend(&mut list, CoordinationBackend::Redis, redis_available);
            push_backend(&mut list, CoordinationBackend::LiveMutex, live_mutex_available);
        } else if same(w, "redis") {
            push_backend(&mut list, CoordinationBackend::Redis, redis_available);
        } else if same(w, "live-mutex") || same(w, "live_mutex") || same(w, "livemutex") || same(
            w,
            "lmx",
        ) {
            push_backend(&mut list, CoordinationBackend::LiveMutex, live_mutex_available);
        }
        i = i + 1;
    }
    assert(all.take(i as int) =~= all);
    list
}

/// Only services that can be had, and none twice.
pub open spec fn sound_backends(
    list: Seq<CoordinationBackend>,
    redis: bool,
    live_mutex: bool,
) -> bool {
    &&& list.no_duplicates()
    &&& list.contains(CoordinationBackend::Redis) ==> redis
    &&& list.contains(CoordinationBackend::LiveMutex) ==> live_mutex
}

proof fn adding_keeps_sound(
    list: Seq<CoordinationBackend>,
    backend: CoordinationBackend,
    available: bool,
    redis: bool,
    live_mutex: bool,
)
    requires
        sound_backends(list, redis, live_mutex),
        available ==> match backend {
            CoordinationBackend::Redis => redis,
            CoordinationBackend::LiveMutex => live_mutex,
        },
    ensures
        sound_backends(with_backend(list, backend, available), redis, live_mutex),
{
    let next = with_backend(list, backend, available);
    if available && !list.contains(backend) {
        assert forall|b: CoordinationBackend| next.contains(b) implies b == backend
            || list.contains(b) by {
            let i = choose|i: int| 0 <= i < next.len() && next[i] == b;
            if i < list.len() {
                assert(list[i] == b);
            }
        }
    }
}

proof fn named_backends_are_sound(words: Seq<Seq<char>>, redis: bool, live_mutex: bool)
    ensures
        named_backends(words, redis, live_mutex) matches Some(list) ==> sound_backends(
            list,
            redis,
            live_mutex,
        ),
    decreases words.len(),
{
    if words.len() > 0 {
        named_backends_are_sound(words.drop_last(), redis, live_mutex);
        if let Some(list) = named_backends(words.drop_last(), redis, live_mutex) {
            adding_keeps_sound(list, CoordinationBackend::Redis, redis, redis, live_mutex);
            adding_keeps_sound(list, CoordinationBackend::LiveMutex, live_mutex, redis, live_mutex);
            adding_keeps_sound(
                with_backend(list, CoordinationBackend::Redis, redis),
                CoordinationBackend::LiveMutex,
                live_mutex,
                redis,
                live_mutex,
            );
        }
    }
}

/// No setting asks for a service twice, or for one that cannot be had.
pub proof fn requests_are_sound(requested: Seq<char>, redis: bool, live_mutex: bool)
    ensures
        sound_backends(requested_backends(requested, redis, live_mutex), redis, live_mutex),
{
    let key = lowered(trimmed(requested));
    named_backends_are_sound(split_on(key, ','), redis, live_mutex);
    let none = Seq::<CoordinationBackend>::empty();
    adding_keeps_sound(none, CoordinationBackend::Redis, redis, redis, live_mutex);
    adding_keeps_sound(
        with_backend(none, CoordinationBackend::Redis, redis),
        CoordinationBackend::LiveMutex,
        live_mutex,
        redis,
        live_mutex,
    );
}

/// The prefix of every key where none is configured.
pub open spec fn default_key_prefix() -> Seq<char> {
    "dd:mip-solver"@
}

/// The configured prefix of every key.
pub open spec fn key_prefix(config: RuntimeConfig) -> Seq<char> {
    config.text_or("MIP_SOLVER_REDIS_KEY_PREFIX"@, default_key_prefix())
}

/// The configured prefix of every key.
pub fn redis_key_prefix(config: &RuntimeConfig) -> (r: String)
    ensures
        r@ == key_prefix(*config),
{
    env_value(config, "MIP_SOLVER_REDIS_KEY_PREFIX", "dd:mip-solver")
}

/// How nodes coordinate.
#[derive(Debug)]
pub struct CoordinationConfig {
    pub backends: Vec<CoordinationBackend>,
    pub redis_lock_prefix: String,
    pub ttl_ms: u64,
    pub wait_ms: u64,
    pub live_mutex: Option<LiveMutexConfig>,
}

/// The keys under which the URL of the lock service can be set.
pub open spec fn live_mutex_url_keys() -> Seq<Seq<char>> {
    seq!["MIP_SOLVER_LIVE_MUTEX_URL"@, "LIVE_MUTEX_URL"@, "LMX_HTTP_URL"@]
}

/// The keys under which the token for the lock service can be set.
pub open spec fn live_mutex_token_keys() -> Seq<Seq<char>> {
    seq!["MIP_SOLVER_LIVE_MUTEX_AUTH_TOKEN"@, "LIVE_MUTEX_AUTH_TOKEN"@, "LMX_AUTH_TOKEN"@]
}

/// Whether a lock service client is what a configuration sets.
pub open spec fn configures_live_mutex(config: RuntimeConfig, r: Option<LiveMutexConfig>) -> bool {
    match (r, config.first_text(live_mutex_url_keys())) {
        (None, None) => true,
        (Some(c), Some(url)) => {
            &&& c.base_url@ == url
            &&& text_view(c.auth_token) == config.first_text(live_mutex_token_keys())
            &&& c.request_timeout_ms == config.unsigned_or(
                "MIP_SOLVER_LIVE_MUTEX_REQUEST_TIMEOUT_MS"@,
                10_000,
            )
            &&& c.max_response_bytes == config.unsigned_or(
                "MIP_SOLVER_LIVE_MUTEX_MAX_RESPONSE_BYTES"@,
                1_048_576,
            )
        },
        _ => false,
    }
}

impl CoordinationConfig {
    /// The configured coordination.
    pub fn from_env(config: &RuntimeConfig, redis_available: bool) -> (r: CoordinationConfig)
        ensures
            configures_live_mutex(*config, r.live_mutex),
            r.backends@ == requested_backends(
                config.text_or("MIP_SOLVER_COORDINATION_BACKENDS"@, "auto"@),
                redis_available,
                config.first_text(live_mutex_url_keys()) is Some,
            ),
            r.redis_lock_prefix@ == config.text_or(
                "MIP_SOLVER_REDIS_LOCK_PREFIX"@,
                key_prefix(*config),
            ),
            r.ttl_ms == config.unsigned_or("MIP_SOLVER_COORDINATION_LOCK_TTL_MS"@, 30_000),
            r.wait_ms == config.unsigned_or("MIP_SOLVER_COORDINATION_WAIT_MS"@, 5_000),
    {
        let url_keys: [&str; 3] = ["MIP_SOLVER_LIVE_MUTEX_URL", "LIVE_MUTEX_URL", "LMX_HTTP_URL"];
        let token_keys: [&str; 3] = [
            "MIP_SOLVER_LIVE_MUTEX_AUTH_TOKEN",
            "LIVE_MUTEX_AUTH_TOKEN",
            "LMX_AUTH_TOKEN",
        ];
        assert(keys_view(url_keys@) =~= live_mutex_url_keys());
        assert(keys_view(token_keys@) =~= live_mutex_token_keys());
        let live_mutex = match first_configured_env_value(config, &url_keys) {
            None => None,
            Some(base_url) => Some(
                LiveMutexConfig {
                    base_url,
                    auth_token: first_configured_env_value(config, &token_keys),
                    request_timeout_ms: env_u64(
                        config,
                        "MIP_SOLVER_LIVE_MUTEX_REQUEST_TIMEOUT_MS",
                        10_000,
                    ),
                    max_response_bytes: env_u64(
                        config,
                        "MIP_SOLVER_LIVE_MUTEX_MAX_RESPONSE_BYTES",
                        1_048_576,
                    ),
                },
            ),
        };
        let requested = env_value(config, "MIP_SOLVER_COORDINATION_BACKENDS", "auto");
        let backends = parse_coordination_backends(
            requested.as_str(),
            redis_available,
            live_mutex.is_some(),
        );
        CoordinationConfig {
            backends,
            redis_lock_prefix: env_value(
                config,
                "MIP_SOLVER_REDIS_LOCK_PREFIX",
                redis_key_prefix(config).as_str(),
            ),
            ttl_ms: env_u64(config, "MIP_SOLVER_COORDINATION_LOCK_TTL_MS", 30_000),
            wait_ms: env_u64(config, "MIP_SOLVER_COORDINATION_WAIT_MS", 5_000),
            live_mutex,
        }
    }

    /// Whether any lock service is used.
    pub fn enabled(&self) -> (r: bool)
        ensures
            r == (self.backends@.len() > 0),
    {
        self.backends.len() > 0
    }

    /// The names of the lock services.
    pub fn backend_names(&self) -> (r: Vec<&'static str>)
        ensures
            keys_view(r@) == self.backends@.map_values(|b: CoordinationBackend| backend_name(b)),
    {
        let mut out: Vec<&'static str> = Vec::new();
        let mut i: usize = 0;
        while i < self.backends.len()
            invariant
                i <= self.backends@.len(),
                out@.len() == i,
                forall|j: int|
                    0 <= j < i ==> (#[trigger] out@[j])@ == backend_name(self.backends@[j]),
            decreases self.backends@.len() - i,
        {
            out.push(self.backends[i].as_str());
            i = i + 1;
        }
        assert(keys_view(out@) =~= self.backends@.map_values(
            |b: CoordinationBackend| backend_name(b),
        ));
        out
    }
}

// Taking a lock at every service.

/// A lock held at one service, with what it takes to give it back.
#[derive(Debug)]
pub enum CoordinationHolder {
    Redis { token: String },
    LiveMutex { lock_uuid: String },
}

/// The service at which a lock is held.
pub open spec fn held_at(holder: CoordinationHolder) -> CoordinationBackend {
    match holder {
        CoordinationHolder::Redis { .. } => CoordinationBackend::Redis,
        CoordinationHolder::LiveMutex { .. } => CoordinationBackend::LiveMutex,
    }
}

/// The locks held under one key, in the order in which they were taken.
#[derive(Debug)]
pub struct CoordinationGuard {
    pub key: String,
    pub holders: Vec<CoordinationHolder>,
}

/// A lock in the making: it is taken at one service after the other.
#[derive(Debug)]
pub struct LockAttempt {
    key: String,
    backends: Vec<CoordinationBackend>,
    holders: Vec<CoordinationHolder>,
}

/// What to do next for a lock.
#[derive(Debug)]
pub enum LockStep {
    /// Take the lock at this service.
    Acquire(CoordinationBackend),
    /// The lock is held at every service.
    Held,
}

impl LockAttempt {
    pub closed spec fn key(self) -> Seq<char> {
        self.key@
    }

    pub closed spec fn backends(self) -> Seq<CoordinationBackend> {
        self.backends@
    }

    pub closed spec fn holders(self) -> Seq<CoordinationHolder> {
        self.holders@
    }

    /// Locks are held at the first services, one at each.
    pub open spec fn well_formed(self) -> bool {
        &&& self.holders().len() <= self.backends().len()
        &&& forall|i: int|
            0 <= i < self.holders().len() ==> held_at(#[trigger] self.holders()[i])
                == self.backends()[i]
    }

    /// Begins to take a lock; `None` where no lock service is used.
    pub fn begin(config: &CoordinationConfig, key: String) -> (r: Option<LockAttempt>)
        ensures
            r is None <==> config.backends@.len() == 0,
            r matches Some(a) ==> {
                &&& a.well_formed()
                &&& a.key() == key@
                &&& a.backends() == config.backends@
                &&& a.holders().len() == 0
            },
    {
        if !config.enabled() {
            return None;
        }
        let mut backends: Vec<CoordinationBackend> = Vec::new();
        let mut i: usize = 0;
        while i < config.backends.len()
            invariant
                i <= config.backends@.len(),
                backends@ == config.backends@.take(i as int),
            decreases config.backends@.len() - i,
        {
            backends.push(config.backends[i]);
            i = i + 1;
        }
        assert(config.backends@.take(i as int) =~= config.backends@);
        Some(LockAttempt { key, backends, holders: Vec::new() })
    }

    /// What to do next.
    pub fn next_step(&self) -> (r: LockStep)
        requires
            self.well_formed(),
        ensures
            r == if self.holders().len() < self.backends().len() {
                LockStep::Acquire(self.backends()[self.holders().len() as int])
            } else {
                LockStep::Held
            },
    {
        if self.holders.len() < self.backends.len() {
            LockStep::Acquire(self.backends[self.holders.len()])
        } else {
            LockStep::Held
        }
    }

    /// Notes that the lock was taken at the next service.
    pub fn acquired(&mut self, holder: CoordinationHolder)
        requires
            old(self).well_formed(),
            old(self).holders().len() < old(self).backends().len(),
            held_at(holder) == old(self).backends()[old(self).holders().len() as int],
        ensures
            final(self).well_formed(),
            final(self).key() == old(self).key(),
            final(self).backends() == old(self).backends(),
            final(self).holders() == old(self).holders().push(holder),
    {
        self.holders.push(holder);
    }

    /// Ends the attempt: the locks that are held, whether at every service or, after
    /// a failure, at the first ones only.
    pub fn into_guard(self) -> (r: CoordinationGuard)
        ensures
            r.key@ == self.key(),
            r.holders@ == self.holders(),
    {
        CoordinationGuard { key: self.key, holders: self.holders }
    }
}

/// The locks in the order in which they are given back: the last one first, each
/// of them once.
pub fn release_order(guard: CoordinationGuard) -> (r: Vec<CoordinationHolder>)
    ensures
        r@ == guard.holders@.reverse(),
{
    let mut held = guard.holders;
    let ghost all = guard.holders@;
    let mut out: Vec<CoordinationHolder> = Vec::new();
    while held.len() > 0
        invariant
            held@.len() + out@.len() == all.len(),
            held@ == all.take(held@.len() as int),
            out@ == all.skip(held@.len() as int).reverse(),
        decreases held@.len(),
    {
        let ghost n = held@.len();
        if let Some(holder) = held.pop() {
            out.push(holder);
            assert(out@ =~= all.skip(n - 1).reverse());
        }
    }
    assert(all.skip(0) =~= all);
    out
}

// The lock at the key-value store.

/// What the store answered to a request to set the lock.
#[derive(Debug)]
pub enum RedisReply {
    /// The lock was set.
    Granted,
    /// The lock is there already.
    Taken,
    /// The request failed.
    Failed(String),
    /// The request took too long.
    TimedOut,
}

/// What to do after the store's answer.
#[derive(Debug)]
pub enum RedisStep {
    Acquired,
    /// Wait that many milliseconds and ask again.
    Wait(u64),
    Fail(String),
}

/// The complaint about a lock that someone else holds.
pub open spec fn lock_busy(key: Seq<char>) -> Seq<char> {
    "coordination lock busy: "@ + key
}

fn lock_busy_message(key: &str) -> (r: String)
    ensures
        r@ == lock_busy(key@),
{
    let mut e = "coordination lock busy: ".to_owned();
    e.append(key);
    e
}

/// Whether the store may be asked once more: only while time remains.
pub fn redis_lock_may_try(key: &str, remaining_ms: u64) -> (r: Result<(), String>)
    ensures
        remaining_ms > 0 ==> r is Ok,
        remaining_ms == 0 ==> r is Err && r->Err_0@ == lock_busy(key@),
{
    if remaining_ms == 0 {
        Err(lock_busy_message(key))
    } else {
        Ok(())
    }
}

/// What follows from the store's answer, given the time that remains: a lock that
/// is taken is asked for again after at most fifty milliseconds, while time
/// remains.
pub fn redis_lock_after_reply(key: &str, reply: RedisReply, remaining_ms: u64) -> (r: RedisStep)
    ensures
        match reply {
            RedisReply::Granted => r is Acquired,
            RedisReply::Taken => if remaining_ms == 0 {
                r is Fail && r->Fail_0@ == lock_busy(key@)
            } else {
                r == RedisStep::Wait(
                    if remaining_ms < 50 {
                        remaining_ms
                    } else {
                        50
                    },
                )
            },
            RedisReply::Failed(error) => r is Fail && r->Fail_0@
                == "Redis coordination SET NX failed: "@ + error@,
            RedisReply::TimedOut => r is Fail && r->Fail_0@
                == "Redis coordination SET NX timed out for "@ + key@,
        },
{
    match reply {
        RedisReply::Granted => RedisStep::Acquired,
        RedisReply::Taken => {
            if remaining_ms == 0 {
                RedisStep::Fail(lock_busy_message(key))
            } else if remaining_ms < 50 {
                RedisStep::Wait(remaining_ms)
            } else {
                RedisStep::Wait(50)
            }
        },
        RedisReply::Failed(error) => {
            let mut e = "Redis coordination SET NX failed: ".to_owned();
            e.append(error.as_str());
            RedisStep::Fail(e)
        },
        RedisReply::TimedOut => {
            let mut e = "Redis coordination SET NX timed out for ".to_owned();
            e.append(key);
            RedisStep::Fail(e)
        },
    }
}

/// The token by which a node holds a lock, given a fresh identifier.
pub fn lock_token(node_id: &str, fresh: &str) -> (r: String)
    ensures
        r@ == node_id@ + ":"@ + fresh@,
{
    let mut out = node_id.to_owned();
    out.append(":");
    out.append(fresh);
    out
}

/// What the lock service is asked for.
pub fn lock_request(key: &str, ttl_ms: u64, wait_ms: u64) -> (r: Document)
    ensures
        r@ == Doc::Object(
            seq![
                ("key"@, Doc::Text(key@)),
                (
                    "ttlMs"@,
                    Doc::Count(
                        if ttl_ms < 1 {
                            1
                        } else {
                            ttl_ms as u128
                        },
                    ),
                ),
                ("waitMs"@, Doc::Count(wait_ms as u128)),
            ],
        ),
{
    let ttl: u128 = if ttl_ms < 1 {
        1
    } else {
        ttl_ms as u128
    };
    let f = Fields::new().text("key", key).count("ttlMs", ttl).count("waitMs", wait_ms as u128);
    assert(f@ =~= seq![
        ("key"@, Doc::Text(key@)),
        ("ttlMs"@, Doc::Count(ttl)),
        ("waitMs"@, Doc::Count(wait_ms as u128)),
    ]);
    f.done()
}

/// What the lock service is asked for to give a lock back.
pub fn unlock_request(key: &str, lock_uuid: &str) -> (r: Document)
    ensures
        r@ == Doc::Object(
            seq![("key"@, Doc::Text(key@)), ("lockUuid"@, Doc::Text(lock_uuid@))],
        ),
{
    let f = Fields::new().text("key", key).text("lockUuid", lock_uuid);
    assert(f@ =~= seq![("key"@, Doc::Text(key@)), ("lockUuid"@, Doc::Text(lock_uuid@))]);
    f.done()
}

/// Why a lock was not given back, where it was not.
pub fn unlock_outcome(unlocked: bool, error: Option<String>) -> (r: Result<(), String>)
    ensures
        unlocked ==> r is Ok,
        !unlocked ==> r is Err && r->Err_0@ == match error {
            Some(e) => e@,
            None => "not unlocked"@,
        },
{
    if unlocked {
        return Ok(());
    }
    match error {
        Some(e) => Err(e),
        None => Err("not unlocked".to_owned()),
    }
}

/// Whether a message that was sent landed in the stream in which it belongs.
pub fn check_stream(subject: &str, landed: &str, expected: &str) -> (r: Result<(), String>)
    ensures
        landed@ == expected@ ==> r is Ok,
        landed@ != expected@ ==> r is Err && r->Err_0@ == "JetStream ack for "@ + subject@
            + " landed in stream "@ + landed@ + ", expected "@ + expected@,
{
    if same(landed, expected) {
        return Ok(());
    }
    let mut e = "JetStream ack for ".to_owned();
    e.append(subject);
    e.append(" landed in stream ");
    e.append(landed);
    e.append(", expected ");
    e.append(expected);
    Err(e)
}

/// What a request for lock services means: both that are available where it is blank or
/// `auto`, or says `both`; the one that it names, where that is available; none where it
/// is switched off.
pub proof fn backends_are_named(redis: bool, live_mutex: bool)
    ensures
        with_word(Seq::empty(), "redis"@, redis, live_mutex) == if redis {
            seq![CoordinationBackend::Redis]
        } else {
            Seq::empty()
        },
        with_word(Seq::empty(), "live-mutex"@, redis, live_mutex) == if live_mutex {
            seq![CoordinationBackend::LiveMutex]
        } else {
            Seq::empty()
        },
        with_word(Seq::empty(), "lmx"@, redis, live_mutex) == with_word(
            Seq::empty(),
            "live-mutex"@,
            redis,
            live_mutex,
        ),
        with_word(Seq::empty(), "both"@, true, true) == seq![
            CoordinationBackend::Redis,
            CoordinationBackend::LiveMutex,
        ],
        with_word(Seq::empty(), "both"@, true, false) == seq![CoordinationBackend::Redis],
        with_word(Seq::empty(), "both"@, false, true) == seq![CoordinationBackend::LiveMutex],
        with_word(Seq::empty(), "all"@, redis, live_mutex) == with_word(
            Seq::empty(),
            "both"@,
            redis,
            live_mutex,
        ),
        requested_backends(Seq::empty(), redis, live_mutex) == with_word(
            Seq::empty(),
            "both"@,
            redis,
            live_mutex,
        ),
        requested_backends("auto"@, redis, live_mutex) == requested_backends(
            Seq::empty(),
            redis,
            live_mutex,
        ),
        is_off("off"@) && is_off("none"@) && is_off("disabled"@) && is_off("false"@) && is_off(
            "0"@,
        ),
        !is_off("redis"@) && !is_off("live-mutex"@) && !is_off("both"@),
        backend_name(CoordinationBackend::Redis) == "redis"@,
        backend_name(CoordinationBackend::LiveMutex) == "live-mutex"@,
{
    reveal_strlit("redis");
    reveal_strlit("live-mutex");
    reveal_strlit("live_mutex");
    reveal_strlit("livemutex");
    reveal_strlit("lmx");
    reveal_strlit("both");
    reveal_strlit("all");
    reveal_strlit("auto");
    reveal_strlit("off");
    reveal_strlit("none");
    reveal_strlit("disabled");
    reveal_strlit("false");
    reveal_strlit("0");
    assert("redis"@.len() == 5 && "both"@.len() == 4 && "all"@.len() == 3 && "lmx"@.len() == 3);
    assert("live-mutex"@.len() == 10 && "lmx"@[0] == 'l' && "all"@[0] == 'a');
    assert("redis"@[0] == 'r' && "false"@[0] == 'f' && "both"@[0] == 'b' && "none"@[0] == 'n');
    let none = Seq::<CoordinationBackend>::empty();
    assert(none.push(CoordinationBackend::Redis) =~= seq![CoordinationBackend::Redis]);
    assert(none.push(CoordinationBackend::LiveMutex) =~= seq![CoordinationBackend::LiveMutex]);
    let one = seq![CoordinationBackend::Redis];
    assert(!one.contains(CoordinationBackend::LiveMutex)) by {
        if one.contains(CoordinationBackend::LiveMutex) {
            let k = choose|k: int|
                0 <= k < one.len() && one[k] == CoordinationBackend::LiveMutex;
            assert(one[k] == CoordinationBackend::Redis);
        }
    }
    assert(one.push(CoordinationBackend::LiveMutex) =~= seq![
        CoordinationBackend::Redis,
        CoordinationBackend::LiveMutex,
    ]);
    assert(lowered(trimmed("auto"@)) =~= "auto"@);
    assert(lowered(trimmed(Seq::<char>::empty())) =~= Seq::empty());
    assert(trimmed(Seq::<char>::empty()).len() == 0);
}

/// A word that switches the services off anywhere in a list switches off all; a list of
/// names asks for each of them, and a name that is unknown asks for none.
pub proof fn lists_of_backends_are_read(
    words: Seq<Seq<char>>,
    word: Seq<char>,
    redis: bool,
    live_mutex: bool,
)
    ensures
        is_off(trimmed(word)) ==> named_backends(words.push(word), redis, live_mutex) is None,
        named_backends(words, redis, live_mutex) is None ==> named_backends(
            words.push(word),
            redis,
            live_mutex,
        ) is None,
        named_backends(words, redis, live_mutex) matches Some(list) ==> {
            let after = named_backends(words.push(word), redis, live_mutex);
            &&& after matches Some(more) ==> list.is_prefix_of(more)
            &&& trimmed(word) == "redis"@ && redis ==> after is Some && after->0.contains(
                CoordinationBackend::Redis,
            )
            &&& trimmed(word) == "live-mutex"@ && live_mutex ==> after is Some
                && after->0.contains(CoordinationBackend::LiveMutex)
        },
{
    reveal_strlit("redis");
    reveal_strlit("live-mutex");
    reveal_strlit("both");
    reveal_strlit("all");
    reveal_strlit("off");
    reveal_strlit("none");
    reveal_strlit("disabled");
    reveal_strlit("false");
    reveal_strlit("0");
    assert("redis"@.len() == 5 && "live-mutex"@.len() == 10 && "false"@.len() == 5);
    assert("redis"@[0] == 'r' && "false"@[0] == 'f');
    assert(words.push(word).drop_last() =~= words);
    if named_backends(words, redis, live_mutex) is Some && !is_off(trimmed(word)) {
        let list = named_backends(words, redis, live_mutex)->0;
        let with_redis = with_backend(list, CoordinationBackend::Redis, redis);
        let with_mutex = with_backend(list, CoordinationBackend::LiveMutex, live_mutex);
        let both = with_backend(with_redis, CoordinationBackend::LiveMutex, live_mutex);
        assert(list.subrange(0, list.len() as int) =~= list);
        assert(with_redis.subrange(0, list.len() as int) =~= list);
        assert(with_mutex.subrange(0, list.len() as int) =~= list);
        assert(both.subrange(0, list.len() as int) =~= list);
        if redis && !list.contains(CoordinationBackend::Redis) {
            assert(with_redis[list.len() as int] == CoordinationBackend::Redis);
        }
        if live_mutex && !list.contains(CoordinationBackend::LiveMutex) {
            assert(with_mutex[list.len() as int] == CoordinationBackend::LiveMutex);
        }
    }
}

}
