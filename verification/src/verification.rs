//! Checking a result with a second solver.

use crate::model::text_view;
use crate::number::{one_millionth, zero, Double};
use crate::options::{Choices, SolveOptions};
use crate::text::{
    begins_with, chars_of, contains, has_text, lowered, replace_char, same, same_ignoring_case,
    starts_with, text_between, to_lower, trim, trimmed, with_char,
};
use crate::branching::Sense;
use vstd::prelude::*;
use vstd::string::*;

verus! {

/// What came of a check.
#[derive(Debug)]
pub struct ExternalVerificationReport {
    pub requested: bool,
    pub enabled: bool,
    pub status: String,
    pub method: Option<String>,
    pub solver: Option<String>,
    pub solution_status: Option<String>,
    pub objective: Option<Double>,
    pub objective_delta: Option<Double>,
    pub tolerance: Double,
    pub elapsed_ms: Double,
    pub message: Option<String>,
}

/// The contents of what came of a check.
#[verifier::ext_equal]
pub struct CheckReport {
    pub requested: bool,
    pub enabled: bool,
    pub status: Seq<char>,
    pub method: Option<Seq<char>>,
    pub solver: Option<Seq<char>>,
    pub solution_status: Option<Seq<char>>,
    pub objective: Option<Double>,
    pub objective_delta: Option<Double>,
    pub tolerance: Double,
    pub elapsed_ms: Double,
    pub message: Option<Seq<char>>,
}

impl View for ExternalVerificationReport {
    type V = CheckReport;

    open spec fn view(&self) -> CheckReport {
        CheckReport {
            requested: self.requested,
            enabled: self.enabled,
            status: self.status@,
            method: text_view(self.method),
            solver: text_view(self.solver),
            solution_status: text_view(self.solution_status),
            objective: self.objective,
            objective_delta: self.objective_delta,
            tolerance: self.tolerance,
            elapsed_ms: self.elapsed_ms,
            message: text_view(self.message),
        }
    }
}

/// A report by its contents, with the warning that goes with it.
pub open spec fn check_view(v: Option<(ExternalVerificationReport, Option<String>)>) -> Option<
    (CheckReport, Option<Seq<char>>),
> {
    match v {
        Some((report, warning)) => Some((report@, text_view(warning))),
        None => None,
    }
}

/// Whether a check is asked for.
pub open spec fn check_requested(o: Choices) -> bool {
    o.verify_external == Some(true)
}

/// Whether a check is asked for.
pub fn external_verification_requested(options: &SolveOptions) -> (r: bool)
    ensures
        r == check_requested(options@),
{
    match options.verify_external {
        Some(b) => b,
        None => false,
    }
}

/// How far the two objectives may lie apart: what is asked for where it is finite
/// and not negative.
pub open spec fn check_tolerance(o: Choices) -> Double {
    match o.external_verification_tolerance {
        Some(x) => if x.finite() && !x.below(zero()) {
            x
        } else {
            one_millionth()
        },
        None => one_millionth(),
    }
}

/// How far the two objectives may lie apart.
pub fn external_verification_tolerance(options: &SolveOptions) -> (r: Double)
    ensures
        r == check_tolerance(options@),
{
    match options.external_verification_tolerance {
        Some(x) => if x.is_finite() && !x.is_below(zero()) {
            x
        } else {
            one_millionth()
        },
        None => one_millionth(),
    }
}

/// The method of the second solver.
pub open spec fn check_method(o: Choices) -> Seq<char> {
    match o.external_verification_method {
        Some(m) => m,
        None => "highs"@,
    }
}

/// The method of the second solver.
pub fn external_verification_method(options: &SolveOptions) -> (r: String)
    ensures
        r@ == check_method(options@),
{
    match &options.external_verification_method {
        Some(m) => m.clone(),
        None => "highs".to_owned(),
    }
}

/// A report without a second solution.
pub open spec fn unchecked(
    o: Choices,
    enabled: bool,
    status: Seq<char>,
    solution_status: Option<Seq<char>>,
    elapsed_ms: Double,
    message: Seq<char>,
) -> CheckReport {
    CheckReport {
        requested: true,
        enabled,
        status,
        method: Some(check_method(o)),
        solver: None,
        solution_status,
        objective: None,
        objective_delta: None,
        tolerance: check_tolerance(o),
        elapsed_ms,
        message: Some(message),
    }
}

fn unchecked_report(
    options: &SolveOptions,
    enabled: bool,
    status: &str,
    solution_status: Option<String>,
    elapsed_ms: Double,
    message: String,
) -> (r: ExternalVerificationReport)
    ensures
        r@ == unchecked(
            options@,
            enabled,
            status@,
            text_view(solution_status),
            elapsed_ms,
            message@,
        ),
{
    ExternalVerificationReport {
        requested: true,
        enabled,
        status: status.to_owned(),
        method: Some(external_verification_method(options)),
        solver: None,
        solution_status,
        objective: None,
        objective_delta: None,
        tolerance: external_verification_tolerance(options),
        elapsed_ms,
        message: Some(message),
    }
}

/// The report of a node that has no second solver.
pub open spec fn unavailable_check(o: Choices) -> Option<(CheckReport, Option<Seq<char>>)> {
    if !check_requested(o) {
        None
    } else {
        Some(
            (
                unchecked(
                    o,
                    false,
                    "unavailable"@,
                    None,
                    zero(),
                    "compiled without the external-solver-verification feature"@,
                ),
                Some("external solver verification requested but feature is not enabled"@),
            ),
        )
    }
}

/// The report of a node that has no second solver, with its warning; none where
/// no check is asked for.
pub fn external_verification_report(options: &SolveOptions) -> (r: Option<
    (ExternalVerificationReport, Option<String>),
>)
    ensures
        check_view(r) == unavailable_check(options@),
{
    if !external_verification_requested(options) {
        return None;
    }
    let report = unchecked_report(
        options,
        false,
        "unavailable",
        None,
        zero(),
        "compiled without the external-solver-verification feature".to_owned(),
    );
    Some(
        (
            report,
            Some(
                "external solver verification requested but feature is not enabled".to_owned(),
            ),
        ),
    )
}

// A node that has a second solver.

/// What to do about a check.
#[derive(Debug)]
pub enum CheckStep {
    /// No check is asked for.
    Skip,
    /// There is nothing to check.
    Report(ExternalVerificationReport),
    /// Solve the model once more, by this method.
    Run { method: String, tolerance: Double },
}

/// Begins a check: only an optimum with a solution is checked.
pub fn begin_check(
    options: &SolveOptions,
    status: &str,
    has_objective: bool,
    has_solution: bool,
    elapsed_ms: Double,
) -> (r: CheckStep)
    ensures
        if !check_requested(options@) {
            r is Skip
        } else if status@ != "optimal"@ || !has_objective || !has_solution {
            r is Report && r->Report_0@ == unchecked(
                options@,
                true,
                "skipped"@,
                Some(status@),
                elapsed_ms,
                "external verification requires an optimal incumbent"@,
            )
        } else {
            r is Run && r->method@ == check_method(options@) && r->tolerance == check_tolerance(
                options@,
            )
        },
{
    if !external_verification_requested(options) {
        return CheckStep::Skip;
    }
    if !same(status, "optimal") || !has_objective || !has_solution {
        return CheckStep::Report(
            unchecked_report(
                options,
                true,
                "skipped",
                Some(status.to_owned()),
                elapsed_ms,
                "external verification requires an optimal incumbent".to_owned(),
            ),
        );
    }
    CheckStep::Run {
        method: external_verification_method(options),
        tolerance: external_verification_tolerance(options),
    }
}

/// What a second solution says of the first: it verifies it where it is optimal
/// and its objective lies within the tolerance.
pub open spec fn check_status(optimal: bool, delta: Option<Double>, tolerance: Double) -> Seq<char> {
    if !optimal {
        "unverified"@
    } else if delta is Some && !delta->0.nan() && !tolerance.nan() && delta->0.rank()
        <= tolerance.rank() {
        "verified"@
    } else {
        "mismatch"@
    }
}

/// What a second solution says of the first, given how far apart the objectives
/// lie.
pub fn compare_objectives(optimal: bool, delta: Option<Double>, tolerance: Double) -> (r: String)
    ensures
        r@ == check_status(optimal, delta, tolerance),
{
    if !optimal {
        return "unverified".to_owned();
    }
    match delta {
        Some(d) => if !d.is_nan() && !tolerance.is_nan() && !tolerance.is_below(d) {
            "verified".to_owned()
        } else {
            "mismatch".to_owned()
        },
        None => "mismatch".to_owned(),
    }
}

/// The numbers of a mismatch, as text.
#[derive(Debug)]
pub struct MismatchTexts {
    pub solver_objective: String,
    pub own_objective: String,
    pub delta: String,
    pub tolerance: String,
}

/// The warning that goes with a check.
pub open spec fn check_warning(report: CheckReport, numbers: MismatchTexts) -> Option<Seq<char>> {
    if report.status == "verified"@ {
        None
    } else if report.status == "mismatch"@ {
        Some(
            "external solver verification mismatch: solver objective "@
                + numbers.solver_objective@ + ", in-house objective "@ + numbers.own_objective@
                + ", delta "@ + numbers.delta@ + ", tolerance "@ + numbers.tolerance@,
        )
    } else {
        Some(
            "external solver verification did not verify result: "@ + report.status + (
            match report.message {
                Some(m) => " ("@ + m + ")"@,
                None => Seq::empty(),
            }),
        )
    }
}

/// The warning that goes with a check.
pub fn verification_warning(report: &ExternalVerificationReport, numbers: &MismatchTexts) -> (r:
    Option<String>)
    ensures
        text_view(r) == check_warning(report@, *numbers),
{
    if same(report.status.as_str(), "verified") {
        return None;
    }
    if same(report.status.as_str(), "mismatch") {
        let mut w = "external solver verification mismatch: solver objective ".to_owned();
        w.append(numbers.solver_objective.as_str());
        w.append(", in-house objective ");
        w.append(numbers.own_objective.as_str());
        w.append(", delta ");
        w.append(numbers.delta.as_str());
        w.append(", tolerance ");
        w.append(numbers.tolerance.as_str());
        return Some(w);
    }
    let mut w = "external solver verification did not verify result: ".to_owned();
    w.append(report.status.as_str());
    let detail = match &report.message {
        Some(m) => {
            let mut d = " (".to_owned();
            d.append(m.as_str());
            d.append(")");
            d
        },
        None => String::new(),
    };
    assert(detail@ =~= (match report@.message {
        Some(m) => " ("@ + m + ")"@,
        None => Seq::empty(),
    }));
    w.append(detail.as_str());
    Some(w)
}

/// What came of a check that could not be made.
pub fn failed_check(options: &SolveOptions, elapsed_ms: Double, message: String) -> (r: (
    ExternalVerificationReport,
    String,
))
    ensures
        r.0@ == unchecked(options@, true, "error"@, None, elapsed_ms, message@),
        r.1@ == "external solver verification failed: "@ + message@,
{
    let mut w = "external solver verification failed: ".to_owned();
    w.append(message.as_str());
    (unchecked_report(options, true, "error", None, elapsed_ms, message), w)
}

/// What came of a check in which the second solver broke down.
pub fn panicked_check(options: &SolveOptions, elapsed_ms: Double) -> (r: (
    ExternalVerificationReport,
    String,
))
    ensures
        r.0@ == unchecked(
            options@,
            true,
            "error"@,
            None,
            elapsed_ms,
            "external verifier panicked"@,
        ),
        r.1@ == "external solver verification panicked"@,
{
    (
        unchecked_report(
            options,
            true,
            "error",
            None,
            elapsed_ms,
            "external verifier panicked".to_owned(),
        ),
        "external solver verification panicked".to_owned(),
    )
}

/// How the second solver reads a sense: only `min`, in any case, is minimisation.
pub fn external_sense(sense: &str) -> (r: Sense)
    ensures
        r == if lowered(sense@) == lowered("min"@) {
            Sense::Min
        } else {
            Sense::Max
        },
{
    if same_ignoring_case(sense, "min") {
        Sense::Min
    } else {
        Sense::Max
    }
}

/// The LP method of the second solver: the method without `external-` at its
/// beginning.
pub fn external_lp_method(method: &str) -> (r: String)
    ensures
        r@ == if begins_with(trimmed(method@), "external-"@) {
            trimmed(method@).skip("external-"@.len() as int)
        } else {
            method@
        },
{
    let kept = trim(method);
    if starts_with(kept.as_str(), "external-") {
        proof {
            reveal_strlit("external-");
        }
        let chars = chars_of(kept.as_str());
        assert(chars@.subrange(9, chars@.len() as int) =~= kept@.skip(9));
        text_between(&chars, 9, chars.len())
    } else {
        method.to_owned()
    }
}

/// The engines of the second solver.
#[derive(Clone, Copy, Debug, PartialEq, Eq, Structural)]
pub enum ExternalAlgorithm {
    Highs,
    HighsIpm,
    HighsDs,
}

/// The engine that a method asks for.
pub open spec fn external_algorithm_of(method: Seq<char>) -> ExternalAlgorithm {
    let key = with_char(lowered(trimmed(method)), '_', '-');
    if has_text(key, "ipm"@) {
        ExternalAlgorithm::HighsIpm
    } else if has_text(key, "ds"@) || has_text(key, "dual"@) {
        ExternalAlgorithm::HighsDs
    } else {
        ExternalAlgorithm::Highs
    }
}

/// The engine that a method asks for.
pub fn external_des_ipmip_algorithm(method: &str) -> (r: ExternalAlgorithm)
    ensures
        r == external_algorithm_of(method@),
{
    let key = replace_char(to_lower(trim(method).as_str()).as_str(), '_', '-');
    if contains(key.as_str(), "ipm") {
        ExternalAlgorithm::HighsIpm
    } else if contains(key.as_str(), "ds") || contains(key.as_str(), "dual") {
        ExternalAlgorithm::HighsDs
    } else {
        ExternalAlgorithm::Highs
    }
}

/// A result is verified exactly where the second solver proved its optimum and the
/// objectives lie no farther apart than the tolerance.
pub proof fn verified_results_agree(optimal: bool, delta: Option<Double>, tolerance: Double)
    ensures
        check_status(optimal, delta, tolerance) == "verified"@ <==> optimal && delta is Some
            && !delta->0.nan() && !tolerance.nan() && !tolerance.below(delta->0),
        !optimal ==> check_status(optimal, delta, tolerance) == "unverified"@,
        optimal && delta is Some && tolerance.below(delta->0) ==> check_status(
            optimal,
            delta,
            tolerance,
        ) == "mismatch"@,
{
    reveal_strlit("verified");
    reveal_strlit("unverified");
    reveal_strlit("mismatch");
    assert("verified"@.len() == 8 && "unverified"@.len() == 10);
    assert("verified"@[0] == 'v' && "mismatch"@[0] == 'm');
}

/// A check is made only on request, with the tolerance that is given where it makes
/// sense, and one millionth else.
pub proof fn checks_are_asked_for(o: Choices)
    ensures
        check_requested(o) <==> o.verify_external == Some(true),
        o.verify_external != Some(true) ==> unavailable_check(o) is None,
        o.verify_external == Some(true) ==> unavailable_check(o) is Some,
        o.external_verification_tolerance matches Some(x) ==> x.finite() && !x.below(zero())
            ==> check_tolerance(o) == x,
        o.external_verification_tolerance matches Some(x) ==> !x.finite() || x.below(zero())
            ==> check_tolerance(o) == one_millionth(),
        o.external_verification_tolerance is None ==> check_tolerance(o) == one_millionth(),
        check_tolerance(o).finite() && !check_tolerance(o).below(zero()),
        o.external_verification_method is None ==> check_method(o) == "highs"@,
        o.external_verification_method matches Some(m) ==> check_method(o) == m,
{
}

/// A warning is given exactly where the result was not verified.
pub proof fn unverified_results_are_warned_of(report: CheckReport, numbers: MismatchTexts)
    ensures
        check_warning(report, numbers) is None <==> report.status == "verified"@,
{
}

/// The engine that a method names, however it is written; the general one where it names
/// none in particular.
pub proof fn engines_are_named(method: Seq<char>)
    ensures
        has_text(with_char(lowered(trimmed(method)), '_', '-'), "ipm"@) ==> external_algorithm_of(
            method,
        ) == ExternalAlgorithm::HighsIpm,
        external_algorithm_of(method) == ExternalAlgorithm::HighsIpm ==> has_text(
            with_char(lowered(trimmed(method)), '_', '-'),
            "ipm"@,
        ),
        external_algorithm_of(Seq::empty()) == ExternalAlgorithm::Highs,
{
    let none = with_char(lowered(trimmed(Seq::<char>::empty())), '_', '-');
    reveal_strlit("ipm");
    reveal_strlit("ds");
    reveal_strlit("dual");
    assert(none.len() == 0);
    assert(!has_text(none, "ipm"@) && !has_text(none, "ds"@) && !has_text(none, "dual"@));
}

/// What could not be checked is told as such, with the message and without any number of
/// a check.
pub proof fn unchecked_results_have_no_numbers(
    o: Choices,
    enabled: bool,
    status: Seq<char>,
    solution_status: Option<Seq<char>>,
    elapsed_ms: Double,
    message: Seq<char>,
)
    ensures
        ({
            let r = unchecked(o, enabled, status, solution_status, elapsed_ms, message);
            &&& r.requested && r.enabled == enabled && r.status == status
            &&& r.objective is None && r.objective_delta is None && r.solver is None
            &&& r.message == Some(message) && r.solution_status == solution_status
            &&& r.elapsed_ms == elapsed_ms
        }),
{
}

/// The dual simplex method is taken where the method says so and does not speak of an
/// interior point, and the general one where it says neither.
pub proof fn other_engines_are_named(method: Seq<char>)
    ensures
        ({
            let key = with_char(lowered(trimmed(method)), '_', '-');
            &&& external_algorithm_of(method) == ExternalAlgorithm::HighsDs <==> !has_text(
                key,
                "ipm"@,
            ) && (has_text(key, "ds"@) || has_text(key, "dual"@))
            &&& external_algorithm_of(method) == ExternalAlgorithm::Highs <==> !has_text(
                key,
                "ipm"@,
            ) && !has_text(key, "ds"@) && !has_text(key, "dual"@)
        }),
{
}

/// What a mismatch is told with: the two objectives, how far they are apart, and how far
/// they may be.
pub proof fn mismatches_are_told_in_numbers(report: CheckReport, numbers: MismatchTexts)
    requires
        report.status == "mismatch"@,
    ensures
        check_warning(report, numbers) == Some(
            "external solver verification mismatch: solver objective "@
                + numbers.solver_objective@ + ", in-house objective "@ + numbers.own_objective@
                + ", delta "@ + numbers.delta@ + ", tolerance "@ + numbers.tolerance@,
        ),
{
    reveal_strlit("mismatch");
    reveal_strlit("verified");
    assert("mismatch"@[0] == 'm' && "verified"@[0] == 'v');
}

}
