//! Options of a solve: the caller's values over the configured defaults, and
//! what the engines are told.

use crate::config::{
    env_bool, env_f64, env_u64, env_usize, env_usize_allow_zero, optional_env_value,
    solver_heuristic_passes, solver_max_cut_rounds, solver_max_cuts_per_node, solver_verbose,
    RuntimeConfig,
};
use crate::model::text_view;
use crate::number::{one_millionth, Double};
use crate::text::{
    debug_form, debug_text, lowered, replace_char, same, to_lower, trim, trimmed, with_char,
};
use vstd::prelude::*;
use vstd::string::*;

verus! {

/// Options of a solve; an absent one has a default.
#[derive(Debug)]
pub struct SolveOptions {
    pub max_nodes: Option<usize>,
    pub max_ticks: Option<usize>,
    pub lp_max_iters: Option<usize>,
    pub lp_algorithm: Option<String>,
    pub int_tol: Option<Double>,
    pub split_depth: Option<usize>,
    pub max_subproblems: Option<usize>,
    pub max_job_retries: Option<usize>,
    pub timeout_ms: Option<u64>,
    pub emit_trace: Option<bool>,
    pub verify_external: Option<bool>,
    pub external_verification_method: Option<String>,
    pub external_verification_tolerance: Option<Double>,
}

/// The contents of options.
#[verifier::ext_equal]
pub struct Choices {
    pub max_nodes: Option<usize>,
    pub max_ticks: Option<usize>,
    pub lp_max_iters: Option<usize>,
    pub lp_algorithm: Option<Seq<char>>,
    pub int_tol: Option<Double>,
    pub split_depth: Option<usize>,
    pub max_subproblems: Option<usize>,
    pub max_job_retries: Option<usize>,
    pub timeout_ms: Option<u64>,
    pub emit_trace: Option<bool>,
    pub verify_external: Option<bool>,
    pub external_verification_method: Option<Seq<char>>,
    pub external_verification_tolerance: Option<Double>,
}

impl View for SolveOptions {
    type V = Choices;

    open spec fn view(&self) -> Choices {
        Choices {
            max_nodes: self.max_nodes,
            max_ticks: self.max_ticks,
            lp_max_iters: self.lp_max_iters,
            lp_algorithm: text_view(self.lp_algorithm),
            int_tol: self.int_tol,
            split_depth: self.split_depth,
            max_subproblems: self.max_subproblems,
            max_job_retries: self.max_job_retries,
            timeout_ms: self.timeout_ms,
            emit_trace: self.emit_trace,
            verify_external: self.verify_external,
            external_verification_method: text_view(self.external_verification_method),
            external_verification_tolerance: self.external_verification_tolerance,
        }
    }
}

impl Clone for SolveOptions {
    fn clone(&self) -> (r: Self)
        ensures
            r@ == self@,
    {
        SolveOptions {
            max_nodes: self.max_nodes,
            max_ticks: self.max_ticks,
            lp_max_iters: self.lp_max_iters,
            lp_algorithm: self.lp_algorithm.clone(),
            int_tol: self.int_tol,
            split_depth: self.split_depth,
            max_subproblems: self.max_subproblems,
            max_job_retries: self.max_job_retries,
            timeout_ms: self.timeout_ms,
            emit_trace: self.emit_trace,
            verify_external: self.verify_external,
            external_verification_method: self.external_verification_method.clone(),
            external_verification_tolerance: self.external_verification_tolerance,
        }
    }
}

/// The options of a node on which nothing is configured.
pub open spec fn default_choices() -> Choices {
    Choices {
        max_nodes: Some(20_000),
        max_ticks: Some(200_000),
        lp_max_iters: Some(5_000),
        lp_algorithm: Some("internal-simplex"@),
        int_tol: Some(one_millionth()),
        split_depth: Some(1),
        max_subproblems: Some(256),
        max_job_retries: Some(2),
        timeout_ms: Some(120_000),
        emit_trace: Some(false),
        verify_external: Some(false),
        external_verification_method: None,
        external_verification_tolerance: Some(one_millionth()),
    }
}

impl Default for SolveOptions {
    fn default() -> (r: Self)
        ensures
            r@ == default_choices(),
    {
        SolveOptions {
            max_nodes: Some(20_000),
            max_ticks: Some(200_000),
            lp_max_iters: Some(5_000),
            lp_algorithm: Some("internal-simplex".to_owned()),
            int_tol: Some(one_millionth()),
            split_depth: Some(1),
            max_subproblems: Some(256),
            max_job_retries: Some(2),
            timeout_ms: Some(120_000),
            emit_trace: Some(false),
            verify_external: Some(false),
            external_verification_method: None,
            external_verification_tolerance: Some(one_millionth()),
        }
    }
}

/// The first option where it is present, else the second.
pub open spec fn either<T>(a: Option<T>, b: Option<T>) -> Option<T> {
    match a {
        Some(x) => Some(x),
        None => b,
    }
}

/// Options of which each is the caller's where the caller gave it, else the
/// default.
pub open spec fn merge(input: Choices, defaults: Choices) -> Choices {
    Choices {
        max_nodes: either(input.max_nodes, defaults.max_nodes),
        max_ticks: either(input.max_ticks, defaults.max_ticks),
        lp_max_iters: either(input.lp_max_iters, defaults.lp_max_iters),
        lp_algorithm: either(input.lp_algorithm, defaults.lp_algorithm),
        int_tol: either(input.int_tol, defaults.int_tol),
        split_depth: either(input.split_depth, defaults.split_depth),
        max_subproblems: either(input.max_subproblems, defaults.max_subproblems),
        max_job_retries: either(input.max_job_retries, defaults.max_job_retries),
        timeout_ms: either(input.timeout_ms, defaults.timeout_ms),
        emit_trace: either(input.emit_trace, defaults.emit_trace),
        verify_external: either(input.verify_external, defaults.verify_external),
        external_verification_method: either(
            input.external_verification_method,
            defaults.external_verification_method,
        ),
        external_verification_tolerance: either(
            input.external_verification_tolerance,
            defaults.external_verification_tolerance,
        ),
    }
}

/// The merged options, the defaults where the caller gave none.
pub open spec fn merged_choices(input: Option<SolveOptions>, defaults: Choices) -> Choices {
    match input {
        Some(o) => merge(o@, defaults),
        None => defaults,
    }
}

/// The defaults that a configuration sets.
pub open spec fn configured_choices(config: RuntimeConfig) -> Choices {
    Choices {
        max_nodes: Some(config.count_or("MIP_SOLVER_MAX_NODES"@, 20_000)),
        max_ticks: Some(config.count_or("MIP_SOLVER_MAX_TICKS"@, 200_000)),
        lp_max_iters: Some(config.count_or("MIP_SOLVER_LP_MAX_ITERS"@, 5_000)),
        lp_algorithm: either(
            config.text_of("MIP_SOLVER_LP_ALGORITHM"@),
            Some("internal-simplex"@),
        ),
        int_tol: Some(config.number_or("MIP_SOLVER_INT_TOL"@, one_millionth())),
        split_depth: Some(config.count_or("MIP_SOLVER_SPLIT_DEPTH"@, 1)),
        max_subproblems: Some(config.count_or("MIP_SOLVER_MAX_SUBPROBLEMS"@, 256)),
        max_job_retries: Some(config.count_or_zero("MIP_SOLVER_MAX_JOB_RETRIES"@, 2)),
        timeout_ms: Some(config.unsigned_or("MIP_SOLVER_TIMEOUT_MS"@, 120_000)),
        emit_trace: Some(config.flag_or("MIP_SOLVER_EMIT_TRACE"@, false)),
        verify_external: Some(config.flag_or("MIP_SOLVER_VERIFY_EXTERNAL"@, false)),
        external_verification_method: config.text_of("MIP_SOLVER_EXTERNAL_VERIFICATION_METHOD"@),
        external_verification_tolerance: Some(
            config.number_or("MIP_SOLVER_EXTERNAL_VERIFICATION_TOLERANCE"@, one_millionth()),
        ),
    }
}

/// The LP engines of the node.
#[derive(Clone, Copy, Debug, PartialEq, Eq, Structural)]
pub enum LpAlgorithm {
    InternalSimplex,
    InternalInteriorPoint,
}

/// How the branch-and-bound engine picks the variable to branch on.
#[derive(Clone, Copy, Debug, PartialEq, Eq, Structural)]
pub enum BranchRule {
    MostFractional,
}

/// What is told to the branch-and-bound engine beside the problem. Outside
/// solvers stay off and it branches on the most fractional variable.
#[derive(Clone, Copy, Debug, PartialEq, Eq, Structural)]
pub struct IpMipOptions {
    pub max_nodes: Option<usize>,
    pub max_ticks: Option<usize>,
    pub lp_max_iters: Option<usize>,
    pub int_tol: Option<Double>,
    pub lp_algorithm: LpAlgorithm,
    pub allow_external_solvers: bool,
    pub branch_rule: Option<BranchRule>,
    pub max_cut_rounds: usize,
    pub max_cuts_per_node: usize,
    pub heuristic_passes: usize,
    pub verbose: bool,
}

/// The form in which the name of an LP engine is compared.
pub open spec fn algorithm_key(name: Option<Seq<char>>) -> Seq<char> {
    with_char(
        lowered(
            trimmed(
                match name {
                    Some(s) => s,
                    None => "internal-simplex"@,
                },
            ),
        ),
        '_',
        '-',
    )
}

/// The text about an LP engine that cannot be had, given its name as it is quoted.
pub open spec fn unsupported(quoted: Seq<char>) -> Seq<char> {
    "unsupported lpAlgorithm "@ + quoted + "; expected internal-simplex or internal-ipm"@
}

/// The text about an LP engine that cannot be had, given its name as it is quoted.
pub fn unsupported_algorithm(quoted: &str) -> (r: String)
    ensures
        r@ == unsupported(quoted@),
{
    let mut e = "unsupported lpAlgorithm ".to_owned();
    e.append(quoted);
    e.append("; expected internal-simplex or internal-ipm");
    e
}

/// Whether the branch-and-bound engine is told what options and a configuration
/// say.
pub open spec fn is_told(
    o: IpMipOptions,
    c: Choices,
    algorithm: LpAlgorithm,
    config: RuntimeConfig,
) -> bool {
    &&& o.max_nodes == c.max_nodes
    &&& o.max_ticks == c.max_ticks
    &&& o.lp_max_iters == c.lp_max_iters
    &&& o.int_tol == c.int_tol
    &&& o.lp_algorithm == algorithm
    &&& !o.allow_external_solvers
    &&& o.branch_rule == Some(BranchRule::MostFractional)
    &&& o.max_cut_rounds == at_most(config.count_or_zero("MIP_SOLVER_MAX_CUT_ROUNDS"@, 8), 256)
    &&& o.max_cuts_per_node == at_most(
        config.count_or_zero("MIP_SOLVER_MAX_CUTS_PER_NODE"@, 16),
        1_024,
    )
    &&& o.heuristic_passes == at_most(
        config.count_or_zero("MIP_SOLVER_HEURISTIC_PASSES"@, 2),
        256,
    )
    &&& o.verbose == config.flag_or("MIP_SOLVER_VERBOSE"@, false)
}

/// The LP engine that a name asks for; only the engines of the node can be had.
pub open spec fn algorithm_named(name: Option<Seq<char>>) -> Result<LpAlgorithm, Seq<char>> {
    let key = algorithm_key(name);
    if key == "simplex"@ || key == "internal-simplex"@ {
        Ok(LpAlgorithm::InternalSimplex)
    } else if key == "ipm"@ || key == "interior-point"@ || key == "internal-interior-point"@ || key
        == "internal-ipm"@ {
        Ok(LpAlgorithm::InternalInteriorPoint)
    } else {
        Err(
            unsupported(
                debug_form(
                    match name {
                        Some(s) => s,
                        None => Seq::empty(),
                    },
                ),
            ),
        )
    }
}

impl SolveOptions {
    /// The caller's options over the configured defaults.
    pub fn merged(input: Option<SolveOptions>, config: &RuntimeConfig) -> (r: SolveOptions)
        ensures
            r@ == merged_choices(input, configured_choices(*config)),
    {
        Self::merged_with_defaults(input, Self::runtime_defaults(config))
    }

    /// The caller's options over defaults.
    pub fn merged_with_defaults(input: Option<SolveOptions>, defaults: SolveOptions) -> (r:
        SolveOptions)
        ensures
            r@ == merged_choices(input, defaults@),
    {
        let input = match input {
            None => {
                return defaults;
            },
            Some(o) => o,
        };
        SolveOptions {
            max_nodes: if input.max_nodes.is_some() {
                input.max_nodes
            } else {
                defaults.max_nodes
            },
            max_ticks: if input.max_ticks.is_some() {
                input.max_ticks
            } else {
                defaults.max_ticks
            },
            lp_max_iters: if input.lp_max_iters.is_some() {
                input.lp_max_iters
            } else {
                defaults.lp_max_iters
            },
            lp_algorithm: if input.lp_algorithm.is_some() {
                input.lp_algorithm
            } else {
                defaults.lp_algorithm
            },
            int_tol: if input.int_tol.is_some() {
                input.int_tol
            } else {
                defaults.int_tol
            },
            split_depth: if input.split_depth.is_some() {
                input.split_depth
            } else {
                defaults.split_depth
            },
            max_subproblems: if input.max_subproblems.is_some() {
                input.max_subproblems
            } else {
                defaults.max_subproblems
            },
            max_job_retries: if input.max_job_retries.is_some() {
                input.max_job_retries
            } else {
                defaults.max_job_retries
            },
            timeout_ms: if input.timeout_ms.is_some() {
                input.timeout_ms
            } else {
                defaults.timeout_ms
            },
            emit_trace: if input.emit_trace.is_some() {
                input.emit_trace
            } else {
                defaults.emit_trace
            },
            verify_external: if input.verify_external.is_some() {
                input.verify_external
            } else {
                defaults.verify_external
            },
            external_verification_method: if input.external_verification_method.is_some() {
                input.external_verification_method
            } else {
                defaults.external_verification_method
            },
            external_verification_tolerance: if input.external_verification_tolerance.is_some() {
                input.external_verification_tolerance
            } else {
                defaults.external_verification_tolerance
            },
        }
    }

    /// The defaults that a configuration sets.
    pub fn runtime_defaults(config: &RuntimeConfig) -> (r: SolveOptions)
        ensures
            r@ == configured_choices(*config),
    {
        let algorithm = match optional_env_value(config, "MIP_SOLVER_LP_ALGORITHM") {
            Some(s) => Some(s),
            None => Some("internal-simplex".to_owned()),
        };
        SolveOptions {
            max_nodes: Some(env_usize(config, "MIP_SOLVER_MAX_NODES", 20_000)),
            max_ticks: Some(env_usize(config, "MIP_SOLVER_MAX_TICKS", 200_000)),
            lp_max_iters: Some(env_usize(config, "MIP_SOLVER_LP_MAX_ITERS", 5_000)),
            lp_algorithm: algorithm,
            int_tol: Some(env_f64(config, "MIP_SOLVER_INT_TOL", one_millionth())),
            split_depth: Some(env_usize(config, "MIP_SOLVER_SPLIT_DEPTH", 1)),
            max_subproblems: Some(env_usize(config, "MIP_SOLVER_MAX_SUBPROBLEMS", 256)),
            max_job_retries: Some(env_usize_allow_zero(config, "MIP_SOLVER_MAX_JOB_RETRIES", 2)),
            timeout_ms: Some(env_u64(config, "MIP_SOLVER_TIMEOUT_MS", 120_000)),
            emit_trace: Some(env_bool(config, "MIP_SOLVER_EMIT_TRACE", false)),
            verify_external: Some(env_bool(config, "MIP_SOLVER_VERIFY_EXTERNAL", false)),
            external_verification_method: optional_env_value(
                config,
                "MIP_SOLVER_EXTERNAL_VERIFICATION_METHOD",
            ),
            external_verification_tolerance: Some(
                env_f64(config, "MIP_SOLVER_EXTERNAL_VERIFICATION_TOLERANCE", one_millionth()),
            ),
        }
    }

    /// The LP engine that the options ask for.
    pub fn requested_lp_algorithm(&self) -> (r: Result<LpAlgorithm, String>)
        ensures
            match (r, algorithm_named(self@.lp_algorithm)) {
                (Ok(a), Ok(b)) => a == b,
                (Err(e), Err(m)) => e@ == m,
                _ => false,
            },
    {
        let requested = match &self.lp_algorithm {
            Some(s) => trim(s.as_str()),
            None => trim("internal-simplex"),
        };
        let key = replace_char(to_lower(requested.as_str()).as_str(), '_', '-');
        let k = key.as_str();
        if same(k, "simplex") || same(k, "internal-simplex") {
            Ok(LpAlgorithm::InternalSimplex)
        } else if same(k, "ipm") || same(k, "interior-point") || same(k, "internal-interior-point")
            || same(k, "internal-ipm") {
            Ok(LpAlgorithm::InternalInteriorPoint)
        } else {
            let given = match &self.lp_algorithm {
                Some(s) => s.clone(),
                None => String::new(),
            };
            assert(given@ =~= (match self@.lp_algorithm {
                Some(s) => s,
                None => Seq::empty(),
            }));
            Err(unsupported_algorithm(debug_text(given.as_str()).as_str()))
        }
    }

    /// What the branch-and-bound engine is told; the error of an unknown LP
    /// engine where one is asked for.
    pub fn to_ipmip_options(&self, config: &RuntimeConfig) -> (r: Result<IpMipOptions, String>)
        ensures
            match (r, algorithm_named(self@.lp_algorithm)) {
                (Ok(o), Ok(algorithm)) => is_told(o, self@, algorithm, *config),
                (Err(e), Err(m)) => e@ == m,
                _ => false,
            },
    {
        match self.requested_lp_algorithm() {
            Err(e) => Err(e),
            Ok(algorithm) => Ok(
                IpMipOptions {
                    max_nodes: self.max_nodes,
                    max_ticks: self.max_ticks,
                    lp_max_iters: self.lp_max_iters,
                    int_tol: self.int_tol,
                    lp_algorithm: algorithm,
                    allow_external_solvers: false,
                    branch_rule: Some(BranchRule::MostFractional),
                    max_cut_rounds: solver_max_cut_rounds(config),
                    max_cuts_per_node: solver_max_cuts_per_node(config),
                    heuristic_passes: solver_heuristic_passes(config),
                    verbose: solver_verbose(config),
                },
            ),
        }
    }
}

/// How far from a whole number a value may lie and still count as whole.
pub open spec fn tolerance_of(o: Choices) -> Double {
    match o.int_tol {
        Some(t) => t,
        None => one_millionth(),
    }
}

/// How far from a whole number a value may lie and still count as whole.
pub fn integrality_tolerance(options: &SolveOptions) -> (r: Double)
    ensures
        r == tolerance_of(options@),
{
    match options.int_tol {
        Some(t) => t,
        None => one_millionth(),
    }
}

/// The smaller of a count and a maximum.
pub open spec fn at_most(n: usize, max: usize) -> usize {
    if n <= max {
        n
    } else {
        max
    }
}

/// Merging takes nothing away: an option that either side gives is given, the
/// caller's before the default.
pub proof fn merging_prefers_the_caller(input: Choices, defaults: Choices)
    ensures
        merge(input, input) == input,
        merge(input, merge(input, defaults)) == merge(input, defaults),
{
}

/// Merging the defaults a second time changes nothing.
pub proof fn merging_twice(input: Choices, defaults: Choices)
    ensures
        merge(merge(input, defaults), defaults) == merge(input, defaults),
{
}

/// Each option that the caller gives is taken; each one that the caller leaves open is
/// the default.
pub proof fn each_option_is_merged(input: Choices, defaults: Choices)
    ensures
        ({
            let r = merge(input, defaults);
            &&& r.max_nodes == if input.max_nodes is Some {
                input.max_nodes
            } else {
                defaults.max_nodes
            }
            &&& r.max_ticks == if input.max_ticks is Some {
                input.max_ticks
            } else {
                defaults.max_ticks
            }
            &&& r.lp_max_iters == if input.lp_max_iters is Some {
                input.lp_max_iters
            } else {
                defaults.lp_max_iters
            }
            &&& r.lp_algorithm == if input.lp_algorithm is Some {
                input.lp_algorithm
            } else {
                defaults.lp_algorithm
            }
            &&& r.int_tol == if input.int_tol is Some {
                input.int_tol
            } else {
                defaults.int_tol
            }
            &&& r.split_depth == if input.split_depth is Some {
                input.split_depth
            } else {
                defaults.split_depth
            }
            &&& r.max_subproblems == if input.max_subproblems is Some {
                input.max_subproblems
            } else {
                defaults.max_subproblems
            }
            &&& r.max_job_retries == if input.max_job_retries is Some {
                input.max_job_retries
            } else {
                defaults.max_job_retries
            }
            &&& r.timeout_ms == if input.timeout_ms is Some {
                input.timeout_ms
            } else {
                defaults.timeout_ms
            }
            &&& r.emit_trace == if input.emit_trace is Some {
                input.emit_trace
            } else {
                defaults.emit_trace
            }
            &&& r.verify_external == if input.verify_external is Some {
                input.verify_external
            } else {
                defaults.verify_external
            }
            &&& r.external_verification_method == if input.external_verification_method is Some {
                input.external_verification_method
            } else {
                defaults.external_verification_method
            }
            &&& r.external_verification_tolerance == if input.external_verification_tolerance is Some {
                input.external_verification_tolerance
            } else {
                defaults.external_verification_tolerance
            }
        }),
{
}

/// The names of the LP engines, however they are written; simplex where none is named.
pub proof fn engines_have_names(name: Option<Seq<char>>)
    ensures
        algorithm_named(Some("simplex"@)) == Ok::<LpAlgorithm, Seq<char>>(
            LpAlgorithm::InternalSimplex,
        ),
        algorithm_named(Some("internal-simplex"@)) == Ok::<LpAlgorithm, Seq<char>>(
            LpAlgorithm::InternalSimplex,
        ),
        algorithm_named(Some("ipm"@)) == Ok::<LpAlgorithm, Seq<char>>(
            LpAlgorithm::InternalInteriorPoint,
        ),
        algorithm_named(Some("internal-ipm"@)) == Ok::<LpAlgorithm, Seq<char>>(
            LpAlgorithm::InternalInteriorPoint,
        ),
        algorithm_named(Some("Internal_IPM"@)) == Ok::<LpAlgorithm, Seq<char>>(
            LpAlgorithm::InternalInteriorPoint,
        ),
        algorithm_named(None) == Ok::<LpAlgorithm, Seq<char>>(LpAlgorithm::InternalSimplex),
        algorithm_named(name) is Ok ==> {
            let key = algorithm_key(name);
            &&& algorithm_named(name)->Ok_0 == LpAlgorithm::InternalSimplex <==> key == "simplex"@
                || key == "internal-simplex"@
            &&& algorithm_named(name)->Ok_0 == LpAlgorithm::InternalInteriorPoint <==> key
                == "ipm"@ || key == "interior-point"@ || key == "internal-interior-point"@ || key
                == "internal-ipm"@
        },
        algorithm_named(Some("highs"@)) is Err,
{
    reveal_strlit("simplex");
    reveal_strlit("internal-simplex");
    reveal_strlit("ipm");
    reveal_strlit("internal-ipm");
    reveal_strlit("interior-point");
    reveal_strlit("internal-interior-point");
    reveal_strlit("Internal_IPM");
    reveal_strlit("highs");
    assert(algorithm_key(Some("simplex"@)) =~= "simplex"@);
    assert(algorithm_key(Some("internal-simplex"@)) =~= "internal-simplex"@);
    assert(algorithm_key(None) =~= "internal-simplex"@);
    assert(algorithm_key(Some("ipm"@)) =~= "ipm"@);
    assert(algorithm_key(Some("internal-ipm"@)) =~= "internal-ipm"@);
    assert(algorithm_key(Some("Internal_IPM"@)) =~= "internal-ipm"@);
    assert(algorithm_key(Some("highs"@)) =~= "highs"@);
    assert("simplex"@[0] == 's' && "internal-simplex"@[9] == 's');
    assert("internal-ipm"@.len() == 12 && "ipm"@.len() == 3 && "highs"@.len() == 5);
    assert("interior-point"@.len() == 14 && "internal-interior-point"@.len() == 23);
    assert("simplex"@.len() == 7 && "internal-simplex"@.len() == 16);
}

/// Where nothing is configured, the defaults of the service are the plain defaults.
pub proof fn unconfigured_choices_are_the_defaults(config: RuntimeConfig)
    requires
        config.settings@.len() == 0,
    ensures
        configured_choices(config) == default_choices(),
        default_choices().split_depth == Some(1usize),
        default_choices().max_subproblems == Some(256usize),
        default_choices().max_job_retries == Some(2usize),
        default_choices().timeout_ms == Some(120_000u64),
        default_choices().max_nodes == Some(20_000usize),
        default_choices().max_ticks == Some(200_000usize),
        default_choices().lp_max_iters == Some(5_000usize),
        default_choices().verify_external == Some(false),
        default_choices().emit_trace == Some(false),
        default_choices().int_tol == Some(one_millionth()),
        algorithm_named(default_choices().lp_algorithm) == Ok::<LpAlgorithm, Seq<char>>(
            LpAlgorithm::InternalSimplex,
        ),
{
    engines_have_names(None);
}

/// What the branch-and-bound engine is told is what was asked for; no outside solver
/// is allowed, and what is configured keeps to its limits.
pub proof fn engines_are_told_what_is_asked(
    o: IpMipOptions,
    c: Choices,
    algorithm: LpAlgorithm,
    config: RuntimeConfig,
)
    requires
        is_told(o, c, algorithm, config),
    ensures
        o.max_nodes == c.max_nodes,
        o.max_ticks == c.max_ticks,
        o.lp_max_iters == c.lp_max_iters,
        o.int_tol == c.int_tol,
        o.lp_algorithm == algorithm,
        !o.allow_external_solvers,
        o.max_cut_rounds <= 256,
        o.max_cuts_per_node <= 1_024,
        o.heuristic_passes <= 256,
        config.settings@.len() == 0 ==> o.max_cut_rounds == 8 && o.max_cuts_per_node == 16
            && o.heuristic_passes == 2 && !o.verbose,
        tolerance_of(c) == if c.int_tol is Some {
            c.int_tol->0
        } else {
            one_millionth()
        },
{
}

/// The options are seen part by part, with nothing left out.
pub proof fn options_are_seen_part_by_part(v: SolveOptions)
    ensures
        v@.max_nodes == v.max_nodes,
        v@.max_ticks == v.max_ticks,
        v@.lp_max_iters == v.lp_max_iters,
        v@.lp_algorithm == text_view(v.lp_algorithm),
        v@.int_tol == v.int_tol,
        v@.split_depth == v.split_depth,
        v@.max_subproblems == v.max_subproblems,
        v@.max_job_retries == v.max_job_retries,
        v@.timeout_ms == v.timeout_ms,
        v@.emit_trace == v.emit_trace,
        v@.verify_external == v.verify_external,
        v@.external_verification_method == text_view(v.external_verification_method),
        v@.external_verification_tolerance == v.external_verification_tolerance,
{
}

}
