//! Runtime settings: what the environment configures, with its defaults and the
//! hard limits above which no setting reaches.

use crate::model::{text_view, Limits};
use crate::number::Double;
use crate::text::{lowered, same, to_lower};
use vstd::prelude::*;
use vstd::string::*;

verus! {

/// One configured setting: its key, its text, and the readings of that text as a
/// non-negative integer, a flag and a number, where it has them.
#[derive(Debug)]
pub struct Setting {
    pub key: String,
    pub text: String,
    pub unsigned: Option<u64>,
    pub flag: Option<bool>,
    pub number: Option<Double>,
}

/// The configured settings. A key is found by its first occurrence.
#[derive(Debug)]
pub struct RuntimeConfig {
    pub settings: Vec<Setting>,
}

/// The first setting of that key.
pub open spec fn setting_of(settings: Seq<Setting>, key: Seq<char>) -> Option<Setting>
    decreases settings.len(),
{
    if settings.len() == 0 {
        None
    } else if settings[0].key@ == key {
        Some(settings[0])
    } else {
        setting_of(settings.drop_first(), key)
    }
}

/// The characters of each string of a list.
pub open spec fn keys_view(keys: Seq<&str>) -> Seq<Seq<char>> {
    keys.map_values(|k: &str| k@)
}

impl RuntimeConfig {
    /// The setting of a key.
    pub open spec fn setting(self, key: Seq<char>) -> Option<Setting> {
        setting_of(self.settings@, key)
    }

    /// The text that a key is set to.
    pub open spec fn text_of(self, key: Seq<char>) -> Option<Seq<char>> {
        match self.setting(key) {
            Some(s) => Some(s.text@),
            None => None,
        }
    }

    /// The text that a key is set to, or a fallback.
    pub open spec fn text_or(self, key: Seq<char>, fallback: Seq<char>) -> Seq<char> {
        match self.text_of(key) {
            Some(t) => t,
            None => fallback,
        }
    }

    /// The non-negative integer that a key is set to, or a fallback.
    pub open spec fn unsigned_or(self, key: Seq<char>, fallback: u64) -> u64 {
        match self.setting(key) {
            Some(s) => match s.unsigned {
                Some(n) => n,
                None => fallback,
            },
            None => fallback,
        }
    }

    /// The count that a key is set to, zero included, or a fallback.
    pub open spec fn count_or_zero(self, key: Seq<char>, fallback: usize) -> usize {
        match self.setting(key) {
            Some(s) => match s.unsigned {
                Some(n) => if n <= usize::MAX {
                    n as usize
                } else {
                    fallback
                },
                None => fallback,
            },
            None => fallback,
        }
    }

    /// The positive count that a key is set to, or a fallback.
    pub open spec fn count_or(self, key: Seq<char>, fallback: usize) -> usize {
        if self.count_or_zero(key, fallback) == 0 {
            fallback
        } else {
            self.count_or_zero(key, fallback)
        }
    }

    /// The flag that a key is set to, or a fallback.
    pub open spec fn flag_or(self, key: Seq<char>, fallback: bool) -> bool {
        match self.setting(key) {
            Some(s) => match s.flag {
                Some(b) => b,
                None => fallback,
            },
            None => fallback,
        }
    }

    /// The number that a key is set to, or a fallback.
    pub open spec fn number_or(self, key: Seq<char>, fallback: Double) -> Double {
        match self.setting(key) {
            Some(s) => match s.number {
                Some(x) => x,
                None => fallback,
            },
            None => fallback,
        }
    }

    /// The first of several keys that is set.
    pub open spec fn first_set(self, keys: Seq<Seq<char>>) -> Option<Seq<char>>
        decreases keys.len(),
    {
        if keys.len() == 0 {
            None
        } else if self.setting(keys[0]) is Some {
            Some(keys[0])
        } else {
            self.first_set(keys.drop_first())
        }
    }

    /// The text of the first of several keys that is set.
    pub open spec fn first_text(self, keys: Seq<Seq<char>>) -> Option<Seq<char>> {
        match self.first_set(keys) {
            Some(k) => self.text_of(k),
            None => None,
        }
    }

    fn find(&self, key: &str) -> (r: Option<&Setting>)
        ensures
            match r {
                Some(s) => self.setting(key@) == Some(*s),
                None => self.setting(key@) is None,
            },
    {
        let mut i: usize = 0;
        assert(self.settings@.skip(0) =~= self.settings@);
        while i < self.settings.len()
            invariant
                i <= self.settings@.len(),
                setting_of(self.settings@, key@) == setting_of(
                    self.settings@.skip(i as int),
                    key@,
                ),
            decreases self.settings@.len() - i,
        {
            if same(self.settings[i].key.as_str(), key) {
                return Some(&self.settings[i]);
            }
            assert(self.settings@.skip(i as int).drop_first() =~= self.settings@.skip(i + 1));
            i = i + 1;
        }
        None
    }
}

/// The text that a key is set to, or a fallback.
pub fn env_value(config: &RuntimeConfig, key: &str, fallback: &str) -> (r: String)
    ensures
        r@ == config.text_or(key@, fallback@),
{
    match config.find(key) {
        Some(s) => s.text.clone(),
        None => fallback.to_owned(),
    }
}

/// The text that a key is set to.
pub fn optional_env_value(config: &RuntimeConfig, key: &str) -> (r: Option<String>)
    ensures
        text_view(r) == config.text_of(key@),
{
    match config.find(key) {
        Some(s) => Some(s.text.clone()),
        None => None,
    }
}

/// The non-negative integer that a key is set to, or a fallback.
pub fn env_u64(config: &RuntimeConfig, key: &str, fallback: u64) -> (r: u64)
    ensures
        r == config.unsigned_or(key@, fallback),
{
    match config.find(key) {
        Some(s) => match s.unsigned {
            Some(n) => n,
            None => fallback,
        },
        None => fallback,
    }
}

/// The positive count that a key is set to, or a fallback.
pub fn env_usize(config: &RuntimeConfig, key: &str, fallback: usize) -> (r: usize)
    ensures
        r == config.count_or(key@, fallback),
{
    let n: usize = env_usize_allow_zero(config, key, fallback);
    if n == 0 {
        fallback
    } else {
        n
    }
}

/// The count that a key is set to, zero included, or a fallback.
pub fn env_usize_allow_zero(config: &RuntimeConfig, key: &str, fallback: usize) -> (r: usize)
    ensures
        r == config.count_or_zero(key@, fallback),
{
    match config.find(key) {
        Some(s) => match s.unsigned {
            Some(n) => if n <= usize::MAX as u64 {
                n as usize
            } else {
                fallback
            },
            None => fallback,
        },
        None => fallback,
    }
}

/// The number that a key is set to, or a fallback.
pub fn env_f64(config: &RuntimeConfig, key: &str, fallback: Double) -> (r: Double)
    ensures
        r == config.number_or(key@, fallback),
{
    match config.find(key) {
        Some(s) => match s.number {
            Some(x) => x,
            None => fallback,
        },
        None => fallback,
    }
}

/// The flag that a key is set to, or a fallback.
pub fn env_bool(config: &RuntimeConfig, key: &str, fallback: bool) -> (r: bool)
    ensures
        r == config.flag_or(key@, fallback),
{
    match config.find(key) {
        Some(s) => match s.flag {
            Some(b) => b,
            None => fallback,
        },
        None => fallback,
    }
}

/// The first of several keys that is set.
pub fn first_configured_env(config: &RuntimeConfig, keys: &[&str]) -> (r: Option<String>)
    ensures
        text_view(r) == config.first_set(keys_view(keys@)),
{
    let mut i: usize = 0;
    let ghost all = keys_view(keys@);
    assert(all.skip(0) =~= all);
    while i < keys.len()
        invariant
            i <= keys@.len(),
            all == keys_view(keys@),
            config.first_set(all) == config.first_set(all.skip(i as int)),
        decreases keys@.len() - i,
    {
        assert(all.skip(i as int)[0] == keys@[i as int]@);
        if config.find(keys[i]).is_some() {
            return Some(keys[i].to_owned());
        }
        assert(all.skip(i as int).drop_first() =~= all.skip(i + 1));
        i = i + 1;
    }
    None
}

/// The text of the first of several keys that is set.
pub fn first_configured_env_value(config: &RuntimeConfig, keys: &[&str]) -> (r: Option<String>)
    ensures
        text_view(r) == config.first_text(keys_view(keys@)),
{
    match first_configured_env(config, keys) {
        Some(key) => optional_env_value(config, key.as_str()),
        None => None,
    }
}

/// A count kept between one and a hard maximum.
pub open spec fn capped(n: usize, hard_max: usize) -> usize {
    if n < 1 {
        1
    } else if n > hard_max {
        hard_max
    } else {
        n
    }
}

/// A configured count, kept between one and a hard maximum.
pub fn capped_env_usize(config: &RuntimeConfig, key: &str, fallback: usize, hard_max: usize) -> (r:
    usize)
    requires
        1 <= hard_max,
    ensures
        r == capped(config.count_or(key@, fallback), hard_max),
        1 <= r <= hard_max,
{
    let n: usize = env_usize(config, key, fallback);
    if n < 1 {
        1
    } else if n > hard_max {
        hard_max
    } else {
        n
    }
}

/// A configured count, zero included, kept at or below a hard maximum.
pub fn capped_env_usize_allow_zero(
    config: &RuntimeConfig,
    key: &str,
    fallback: usize,
    hard_max: usize,
) -> (r: usize)
    ensures
        r == if config.count_or_zero(key@, fallback) <= hard_max {
            config.count_or_zero(key@, fallback)
        } else {
            hard_max
        },
{
    let n: usize = env_usize_allow_zero(config, key, fallback);
    if n <= hard_max {
        n
    } else {
        hard_max
    }
}

pub const MAX_HTTP_BODY_BYTES: usize = 16_777_216;

pub const MAX_VARS: usize = 10_000;

pub const MAX_CONSTRAINTS: usize = 50_000;

pub const MAX_STREAM_COMMANDS: usize = 2_000;

pub const HARD_MAX_HTTP_BODY_BYTES: usize = 268_435_456;

pub const HARD_MAX_VARS: usize = 1_000_000;

pub const HARD_MAX_CONSTRAINTS: usize = 1_000_000;

pub const HARD_MAX_STREAM_COMMANDS: usize = 100_000;

/// The largest request body that is read, in bytes.
pub fn max_http_body_bytes(config: &RuntimeConfig) -> (r: usize)
    ensures
        r == capped(
            config.count_or("MIP_SOLVER_MAX_HTTP_BODY_BYTES"@, MAX_HTTP_BODY_BYTES),
            HARD_MAX_HTTP_BODY_BYTES,
        ),
        1 <= r <= 268_435_456,
        config.settings@.len() == 0 ==> r == 16_777_216,
{
    capped_env_usize(
        config,
        "MIP_SOLVER_MAX_HTTP_BODY_BYTES",
        MAX_HTTP_BODY_BYTES,
        HARD_MAX_HTTP_BODY_BYTES,
    )
}

/// The most variables that a model may have.
pub fn max_vars(config: &RuntimeConfig) -> (r: usize)
    ensures
        r == capped(config.count_or("MIP_SOLVER_MAX_VARS"@, MAX_VARS), HARD_MAX_VARS),
{
    capped_env_usize(config, "MIP_SOLVER_MAX_VARS", MAX_VARS, HARD_MAX_VARS)
}

/// The most rows that a model may have.
pub fn max_constraints(config: &RuntimeConfig) -> (r: usize)
    ensures
        r == capped(
            config.count_or("MIP_SOLVER_MAX_CONSTRAINTS"@, MAX_CONSTRAINTS),
            HARD_MAX_CONSTRAINTS,
        ),
{
    capped_env_usize(config, "MIP_SOLVER_MAX_CONSTRAINTS", MAX_CONSTRAINTS, HARD_MAX_CONSTRAINTS)
}

/// The most commands that one request may stream.
pub open spec fn stream_limit(config: RuntimeConfig) -> usize {
    capped(
        config.count_or("MIP_SOLVER_MAX_STREAM_COMMANDS"@, MAX_STREAM_COMMANDS),
        HARD_MAX_STREAM_COMMANDS,
    )
}

/// The most commands that one request may stream.
pub fn max_stream_commands(config: &RuntimeConfig) -> (r: usize)
    ensures
        r == stream_limit(*config),
{
    capped_env_usize(
        config,
        "MIP_SOLVER_MAX_STREAM_COMMANDS",
        MAX_STREAM_COMMANDS,
        HARD_MAX_STREAM_COMMANDS,
    )
}

/// The sizes that a model may have.
pub open spec fn configured_limits(config: RuntimeConfig) -> Limits {
    Limits {
        max_vars: capped(config.count_or("MIP_SOLVER_MAX_VARS"@, MAX_VARS), HARD_MAX_VARS),
        max_constraints: capped(
            config.count_or("MIP_SOLVER_MAX_CONSTRAINTS"@, MAX_CONSTRAINTS),
            HARD_MAX_CONSTRAINTS,
        ),
    }
}

/// The sizes that a model may have.
pub fn model_limits(config: &RuntimeConfig) -> (r: Limits)
    ensures
        r == configured_limits(*config),
{
    Limits { max_vars: max_vars(config), max_constraints: max_constraints(config) }
}

/// Rounds of cuts at a node of the search.
pub fn solver_max_cut_rounds(config: &RuntimeConfig) -> (r: usize)
    ensures
        r == if config.count_or_zero("MIP_SOLVER_MAX_CUT_ROUNDS"@, 8) <= 256 {
            config.count_or_zero("MIP_SOLVER_MAX_CUT_ROUNDS"@, 8)
        } else {
            256
        },
{
    capped_env_usize_allow_zero(config, "MIP_SOLVER_MAX_CUT_ROUNDS", 8, 256)
}

/// Cuts added at a node of the search.
pub fn solver_max_cuts_per_node(config: &RuntimeConfig) -> (r: usize)
    ensures
        r == if config.count_or_zero("MIP_SOLVER_MAX_CUTS_PER_NODE"@, 16) <= 1_024 {
            config.count_or_zero("MIP_SOLVER_MAX_CUTS_PER_NODE"@, 16)
        } else {
            1_024
        },
{
    capped_env_usize_allow_zero(config, "MIP_SOLVER_MAX_CUTS_PER_NODE", 16, 1_024)
}

/// Passes of the primal heuristics.
pub fn solver_heuristic_passes(config: &RuntimeConfig) -> (r: usize)
    ensures
        r == if config.count_or_zero("MIP_SOLVER_HEURISTIC_PASSES"@, 2) <= 256 {
            config.count_or_zero("MIP_SOLVER_HEURISTIC_PASSES"@, 2)
        } else {
            256
        },
{
    capped_env_usize_allow_zero(config, "MIP_SOLVER_HEURISTIC_PASSES", 2, 256)
}

/// Whether the engine logs its search.
pub fn solver_verbose(config: &RuntimeConfig) -> (r: bool)
    ensures
        r == config.flag_or("MIP_SOLVER_VERBOSE"@, false),
{
    env_bool(config, "MIP_SOLVER_VERBOSE", false)
}

/// At least one.
pub open spec fn at_least_one(n: u64) -> u64 {
    if n < 1 {
        1
    } else {
        n
    }
}

/// Seconds between two looks for a cancellation.
pub fn cancel_poll_interval(config: &RuntimeConfig) -> (r: u64)
    ensures
        r == at_least_one(config.unsigned_or("MIP_SOLVER_CANCEL_POLL_SECONDS"@, 10)),
{
    let n: u64 = env_u64(config, "MIP_SOLVER_CANCEL_POLL_SECONDS", 10);
    if n < 1 {
        1
    } else {
        n
    }
}

/// Seconds after which a silent worker is stale.
pub open spec fn stale_seconds(config: RuntimeConfig) -> u64 {
    at_least_one(config.unsigned_or("MIP_SOLVER_WORKER_STALE_SECONDS"@, 100))
}

/// Seconds after which a silent worker is stale.
pub fn worker_stale_after(config: &RuntimeConfig) -> (r: u64)
    ensures
        r == stale_seconds(*config),
{
    let n: u64 = env_u64(config, "MIP_SOLVER_WORKER_STALE_SECONDS", 100);
    if n < 1 {
        1
    } else {
        n
    }
}

/// How long a task that ended is kept, in milliseconds.
pub open spec fn retention_ms(config: RuntimeConfig) -> int {
    config.unsigned_or("MIP_SOLVER_TASK_RETENTION_SECONDS"@, 3_600) * 1_000
}

/// Milliseconds for which a finished task stays listed.
pub fn runtime_task_retention_ms(config: &RuntimeConfig) -> (r: u128)
    ensures
        r == retention_ms(*config),
{
    (env_u64(config, "MIP_SOLVER_TASK_RETENTION_SECONDS", 3_600) as u128) * 1_000
}

/// The part that a node plays.
#[derive(Clone, Copy, Debug, PartialEq, Eq, Structural)]
pub enum NodeRole {
    Master,
    Slave,
}

/// The role that a text names: `slave` and `worker`, in any case, are the slave;
/// all else is the master.
pub open spec fn role_named(text: Seq<char>) -> NodeRole {
    if lowered(text) == "slave"@ || lowered(text) == "worker"@ {
        NodeRole::Slave
    } else {
        NodeRole::Master
    }
}

/// The name of a role.
pub open spec fn role_name(role: NodeRole) -> Seq<char> {
    match role {
        NodeRole::Master => "master"@,
        NodeRole::Slave => "slave"@,
    }
}

impl NodeRole {
    /// The configured role.
    pub fn from_env(config: &RuntimeConfig) -> (r: NodeRole)
        ensures
            r == role_named(config.text_or("MIP_SOLVER_NODE_ROLE"@, "master"@)),
    {
        let low = to_lower(env_value(config, "MIP_SOLVER_NODE_ROLE", "master").as_str());
        if same(low.as_str(), "slave") || same(low.as_str(), "worker") {
            NodeRole::Slave
        } else {
            NodeRole::Master
        }
    }

    /// The name of the role.
    pub fn as_str(self) -> (r: &'static str)
        ensures
            r@ == role_name(self),
    {
        match self {
            NodeRole::Master => "master",
            NodeRole::Slave => "slave",
        }
    }
}

/// A node that is configured with the name of a role has that role.
pub proof fn role_names_read_back(role: NodeRole)
    ensures
        role_named(role_name(role)) == role,
{
    reveal_strlit("master");
    reveal_strlit("slave");
    reveal_strlit("worker");
    assert(lowered("slave"@) =~= "slave"@);
    assert(lowered("master"@)[0] == 'm');
    assert(lowered("master"@).len() == 6);
}

/// Whether a flag is unset, so that it is left out of a document.
pub fn is_false(value: &bool) -> (r: bool)
    ensures
        r == !*value,
{
    !*value
}

proof fn first_settings_count(settings: Seq<Setting>, key: Seq<char>, i: int)
    requires
        0 <= i < settings.len(),
        settings[i].key@ == key,
        forall|j: int| 0 <= j < i ==> (#[trigger] settings[j]).key@ != key,
    ensures
        setting_of(settings, key) == Some(settings[i]),
    decreases i,
{
    if i > 0 {
        assert(settings[0].key@ != key);
        let rest = settings.drop_first();
        assert forall|j: int| 0 <= j < i - 1 implies (#[trigger] rest[j]).key@ != key by {
            assert(settings[j + 1].key@ != key);
        }
        first_settings_count(rest, key, i - 1);
    }
}

proof fn absent_settings_are_absent(settings: Seq<Setting>, key: Seq<char>)
    requires
        forall|j: int| 0 <= j < settings.len() ==> (#[trigger] settings[j]).key@ != key,
    ensures
        setting_of(settings, key) is None,
    decreases settings.len(),
{
    if settings.len() > 0 {
        assert(settings[0].key@ != key);
        let rest = settings.drop_first();
        assert forall|j: int| 0 <= j < rest.len() implies (#[trigger] rest[j]).key@ != key by {
            assert(settings[j + 1].key@ != key);
        }
        absent_settings_are_absent(rest, key);
    }
}

/// A setting is read where it is configured, in the sense that is asked for; a count of
/// zero is no count.
pub proof fn settings_are_read(
    config: RuntimeConfig,
    key: Seq<char>,
    i: int,
    text: Seq<char>,
    whole: u64,
    count: usize,
    flag: bool,
    number: Double,
)
    requires
        0 <= i < config.settings@.len(),
        config.settings@[i].key@ == key,
        forall|j: int| 0 <= j < i ==> (#[trigger] config.settings@[j]).key@ != key,
    ensures
        ({
            let s = config.settings@[i];
            &&& config.text_of(key) == Some(s.text@)
            &&& config.text_or(key, text) == s.text@
            &&& config.unsigned_or(key, whole) == if s.unsigned is Some {
                s.unsigned->0
            } else {
                whole
            }
            &&& s.unsigned matches Some(n) ==> 0 < n <= usize::MAX ==> config.count_or(key, count)
                == n && config.count_or_zero(key, count) == n
            &&& s.unsigned == Some(0u64) ==> config.count_or(key, count) == count
                && config.count_or_zero(key, count) == 0
            &&& s.unsigned is None ==> config.count_or(key, count) == count
            &&& config.flag_or(key, flag) == if s.flag is Some {
                s.flag->0
            } else {
                flag
            }
            &&& config.number_or(key, number) == if s.number is Some {
                s.number->0
            } else {
                number
            }
        }),
{
    first_settings_count(config.settings@, key, i);
}

/// A setting that is not configured has the value that is given for that case.
pub proof fn absent_settings_fall_back(
    config: RuntimeConfig,
    key: Seq<char>,
    text: Seq<char>,
    whole: u64,
    count: usize,
    flag: bool,
    number: Double,
)
    requires
        forall|j: int| 0 <= j < config.settings@.len() ==> (#[trigger] config.settings@[j]).key@
            != key,
    ensures
        config.text_of(key) is None,
        config.text_or(key, text) == text,
        config.unsigned_or(key, whole) == whole,
        config.count_or(key, count) == count,
        config.count_or_zero(key, count) == count,
        config.flag_or(key, flag) == flag,
        config.number_or(key, number) == number,
{
    absent_settings_are_absent(config.settings@, key);
}

/// A capped count is the count where it lies between one and the maximum, and the nearer
/// of the two else.
pub proof fn caps_are_kept(n: usize, hard_max: usize)
    requires
        hard_max >= 1,
    ensures
        1 <= capped(n, hard_max) <= hard_max,
        1 <= n <= hard_max ==> capped(n, hard_max) == n,
        n > hard_max ==> capped(n, hard_max) == hard_max,
        n == 0 ==> capped(n, hard_max) == 1,
{
}

/// A node is a worker where its role says `slave` or `worker`, in any case, and a master
/// else.
pub proof fn roles_have_names(text: Seq<char>)
    ensures
        role_named("slave"@) == NodeRole::Slave,
        role_named("worker"@) == NodeRole::Slave,
        role_named("Worker"@) == NodeRole::Slave,
        role_named("master"@) == NodeRole::Master,
        role_named(text) == NodeRole::Slave <==> lowered(text) == "slave"@ || lowered(text)
            == "worker"@,
{
    reveal_strlit("slave");
    reveal_strlit("worker");
    reveal_strlit("Worker");
    reveal_strlit("master");
    assert(lowered("slave"@) =~= "slave"@);
    assert(lowered("worker"@) =~= "worker"@);
    assert(lowered("Worker"@) =~= "worker"@);
    assert(lowered("master"@)[0] == 'm');
}

/// Of several keys the first that is set counts; none is read where none is set.
pub proof fn first_keys_count(config: RuntimeConfig, keys: Seq<Seq<char>>)
    ensures
        match config.first_set(keys) {
            Some(k) => exists|i: int|
                0 <= i < keys.len() && #[trigger] keys[i] == k && config.text_of(k) is Some
                    && forall|j: int| 0 <= j < i ==> config.text_of(#[trigger] keys[j]) is None,
            None => forall|j: int|
                0 <= j < keys.len() ==> config.text_of(#[trigger] keys[j]) is None,
        },
        config.first_text(keys) == match config.first_set(keys) {
            Some(k) => config.text_of(k),
            None => None,
        },
    decreases keys.len(),
{
    if keys.len() > 0 {
        if config.setting(keys[0]) is None {
            let rest = keys.drop_first();
            first_keys_count(config, rest);
            match config.first_set(rest) {
                Some(k) => {
                    let i = choose|i: int|
                        0 <= i < rest.len() && #[trigger] rest[i] == k && config.text_of(k) is Some
                            && forall|j: int|
                            0 <= j < i ==> config.text_of(#[trigger] rest[j]) is None;
                    assert(keys[i + 1] == k);
                    assert forall|j: int| 0 <= j < i + 1 implies config.text_of(#[trigger] keys[j])
                        is None by {
                        if j > 0 {
                            assert(rest[j - 1] == keys[j]);
                        }
                    }
                },
                None => {
                    assert forall|j: int| 0 <= j < keys.len() implies config.text_of(
                        #[trigger] keys[j],
                    ) is None by {
                        if j > 0 {
                            assert(rest[j - 1] == keys[j]);
                        }
                    }
                },
            }
        } else {
            assert(keys[0] == config.first_set(keys)->0);
        }
    }
}

/// Where nothing is configured the limits are the plain ones; whatever is configured,
/// they keep to the fixed maxima.
pub proof fn limits_are_kept(config: RuntimeConfig)
    ensures
        1 <= configured_limits(config).max_vars <= 1_000_000,
        1 <= configured_limits(config).max_constraints <= 1_000_000,
        1 <= stream_limit(config) <= 100_000,
        config.settings@.len() == 0 ==> configured_limits(config).max_vars == 10_000
            && configured_limits(config).max_constraints == 50_000 && stream_limit(config)
            == 2_000 && stale_seconds(config) == 100 && retention_ms(config)
            == 3_600_000,
        stale_seconds(config) >= 1,
{
}

}
