//! Live editing of models.

use mip_solver_node::json::{Json, JsonNumber};
use mip_solver_node::model::{normalized_problem, validate_problem, Limits, MipProblemSpec};
use mip_solver_node::number::Double;
use mip_solver_node::stream::{
    apply_session_commands, apply_stream_command, default_sense, parse_problem_from_commands,
    LiveSession, StreamCommand, StreamFrame,
};
use serde_json::Value;

const LIMITS: Limits = Limits { max_vars: 10_000, max_constraints: 50_000 };

fn d(x: f64) -> Double {
    Double { bits: x.to_bits() }
}

fn ds(v: &[f64]) -> Vec<Double> {
    v.iter().map(|x| d(*x)).collect()
}

fn to_json(v: &Value) -> Json {
    match v {
        Value::Null => Json::Null,
        Value::Bool(b) => Json::Bool(*b),
        Value::Number(n) => Json::Number(JsonNumber {
            unsigned: n.as_u64(),
            value: d(n.as_f64().unwrap()),
        }),
        Value::String(s) => Json::Text(s.clone()),
        Value::Array(items) => Json::Array(items.iter().map(to_json).collect()),
        Value::Object(fields) => {
            Json::Object(fields.iter().map(|(k, v)| (k.clone(), to_json(v))).collect())
        }
    }
}

fn command(text: &str) -> StreamCommand {
    let parsed: Value = serde_json::from_str(text).unwrap();
    StreamCommand { fields: to_json(&parsed), problem: None }
}

fn commands(texts: &[&str]) -> Vec<StreamCommand> {
    texts.iter().map(|t| command(t)).collect()
}

fn parse(texts: &[&str]) -> Result<(MipProblemSpec, u64, Vec<StreamFrame>), String> {
    parse_problem_from_commands(&commands(texts), 2_000, LIMITS)
}

const INIT: &str = r#"{"op":"init","sense":"max","c":[3.0,2.0],"a":[[1.0,1.0]],"b":[4.0],"integerVars":[true,false]}"#;

fn updates_live_problem_revision() {
    let (problem, revision, frames) = parse(&[
        INIT,
        r#"{"op":"set_rhs","index":0,"rhs":5.0}"#,
        r#"{"op":"add_constraint","coefs":[2.0,1.0],"rhs":8.0}"#,
        r#"{"op":"add_variable","c":4.0,"column":[0.0,1.0],"integer":true,"ub":3.0}"#,
        r#"{"op":"set_variable","index":2,"c":5.0,"integer":true}"#,
        r#"{"op":"remove_constraint","index":0}"#,
        r#"{"op":"snapshot"}"#,
    ])
    .unwrap();
    assert_eq!(revision, 6);
    assert_eq!(problem.c, ds(&[3.0, 2.0, 5.0]));
    assert_eq!(problem.a, vec![ds(&[2.0, 1.0, 1.0])]);
    assert_eq!(problem.b, ds(&[8.0]));
    assert_eq!(problem.integer_vars, vec![true, false, true]);
    assert_eq!(problem.ub.as_ref().unwrap()[2], d(3.0));
    assert!(frames.iter().any(|frame| matches!(frame, StreamFrame::Snapshot { .. })));
}

#[test]
fn main_streaming_edits_update_live_problem_revision() {
    updates_live_problem_revision();
}

#[test]
fn tests_streaming_edits_update_live_problem_revision() {
    updates_live_problem_revision();
}

fn rejects_non_numeric_scalars() {
    let error = parse(&[
        r#"{"op":"init","sense":"max","c":[1.0],"a":[[1.0]],"b":[1.0],"integerVars":[true]}"#,
        r#"{"op":"set_rhs","index":0,"rhs":"not-a-number"}"#,
    ])
    .unwrap_err();
    assert!(error.contains("rhs must be a finite number"));
}

#[test]
fn main_streaming_edits_reject_non_numeric_scalars_instead_of_defaulting() {
    rejects_non_numeric_scalars();
}

#[test]
fn tests_streaming_edits_reject_non_numeric_scalars_instead_of_defaulting() {
    rejects_non_numeric_scalars();
}

fn rejects_non_numeric_matrix_cells() {
    let error = parse(&[
        r#"{"op":"init","sense":"max","c":[1.0],"a":[["bad-cell"]],"b":[1.0],"integerVars":[true]}"#,
    ])
    .unwrap_err();
    assert!(error.contains("a[0][0] must be a finite number"));
}

#[test]
fn main_streaming_init_rejects_non_numeric_matrix_cells() {
    rejects_non_numeric_matrix_cells();
}

#[test]
fn tests_streaming_init_rejects_non_numeric_matrix_cells() {
    rejects_non_numeric_matrix_cells();
}

#[test]
fn commands_need_an_init_first() {
    assert_eq!(
        parse(&[r#"{"op":"set_rhs","index":0,"rhs":5.0}"#]).unwrap_err(),
        "no problem initialized; send init first"
    );
    assert_eq!(
        parse(&[]).unwrap_err(),
        "no problem initialized; first command must be {\"op\":\"init\", ...}"
    );
}

#[test]
fn command_counts_are_limited() {
    let many = commands(&[INIT, r#"{"op":"snapshot"}"#, r#"{"op":"snapshot"}"#]);
    assert_eq!(
        parse_problem_from_commands(&many, 2, LIMITS).unwrap_err(),
        "stream command count 3 exceeds limit 2"
    );
    assert!(parse_problem_from_commands(&many, 3, LIMITS).is_ok());
}

#[test]
fn unknown_and_missing_operations_are_named() {
    assert_eq!(
        parse(&[INIT, r#"{"op":"mystery"}"#]).unwrap_err(),
        "unknown stream op `mystery`"
    );
    assert_eq!(
        parse(&[INIT, r#"{"index":0}"#]).unwrap_err(),
        "unknown stream op ``"
    );
}

#[test]
fn every_edit_names_its_errors() {
    let cases = [
        (r#"{"op":"add_constraint","coefs":[1.0]}"#, "coefs length must equal variable count"),
        (r#"{"op":"set_constraint","coefs":[1.0,1.0]}"#, "index is required"),
        (r#"{"op":"set_constraint","index":7}"#, "constraint index out of range"),
        (r#"{"op":"modify_constraint","index":0,"coefs":[1.0]}"#, "coefs length must equal variable count"),
        (r#"{"op":"remove_constraint"}"#, "index is required"),
        (r#"{"op":"rm_constraint","index":1}"#, "constraint index out of range"),
        (r#"{"op":"set_rhs","index":1,"rhs":2.0}"#, "constraint index out of range"),
        (r#"{"op":"set_coefficient","col":0,"value":2.0}"#, "row is required"),
        (r#"{"op":"set_coefficient","row":0,"value":2.0}"#, "col is required"),
        (r#"{"op":"set_coefficient","row":0,"col":2,"value":2.0}"#, "coefficient index out of range"),
        (r#"{"op":"add_variable","column":[1.0,2.0]}"#, "column length must equal constraint count"),
        (r#"{"op":"set_variable","index":2}"#, "variable index out of range"),
        (r#"{"op":"modify_variable","index":0,"column":[]}"#, "column length must equal constraint count"),
        (r#"{"op":"rm_variable","index":2}"#, "variable index out of range"),
        (r#"{"op":"set_objective","c":[1.0]}"#, "c length must equal variable count"),
        (r#"{"op":"set_integer","index":2}"#, "variable index out of range"),
        (r#"{"op":"set_ub","index":2,"ub":1.0}"#, "variable index out of range"),
    ];
    for (text, expected) in cases {
        assert_eq!(parse(&[INIT, text]).unwrap_err(), expected, "{text}");
    }
}

#[test]
fn the_last_variable_stays() {
    let error = parse(&[
        INIT,
        r#"{"op":"remove_variable","index":0}"#,
        r#"{"op":"remove_variable","index":0}"#,
    ])
    .unwrap_err();
    assert_eq!(error, "cannot remove the last variable");
}

#[test]
fn edits_change_what_they_name() {
    let (problem, revision, _) = parse(&[
        INIT,
        r#"{"op":"set_coefficient","row":0,"col":1,"value":7.5}"#,
        r#"{"op":"set_objective","c":[8.0,9.0]}"#,
        r#"{"op":"set_integer","index":1}"#,
        r#"{"op":"set_integer","index":0,"integer":false}"#,
        r#"{"op":"set_upper_bound","index":1,"ub":2.5}"#,
        r#"{"op":"set_sense","sense":"min"}"#,
        r#"{"op":"change_constraint_weights","index":0,"coefs":[4.0,5.0],"rhs":6.0}"#,
    ])
    .unwrap();
    assert_eq!(revision, 8);
    assert_eq!(problem.sense, "min");
    assert_eq!(problem.c, ds(&[8.0, 9.0]));
    assert_eq!(problem.a, vec![ds(&[4.0, 5.0])]);
    assert_eq!(problem.b, ds(&[6.0]));
    assert_eq!(problem.integer_vars, vec![false, true]);
    assert_eq!(problem.ub, Some(ds(&[f64::INFINITY, 2.5])));
}

#[test]
fn added_rows_and_variables_get_default_names() {
    let (problem, _, _) = parse(&[
        r#"{"op":"init","c":[1.0],"a":[[1.0]],"b":[1.0],"integerVars":[true],"varNames":["first"],"conNames":["row"]}"#,
        r#"{"op":"add_constraint","coefs":[1.0],"rhs":2.0}"#,
        r#"{"op":"add_constraint","coefs":[1.0],"rhs":2.0,"name":"named"}"#,
        r#"{"op":"add_variable","c":1.0}"#,
    ])
    .unwrap();
    assert_eq!(problem.sense, default_sense());
    assert_eq!(
        problem.con_names,
        Some(vec!["row".to_string(), "constraint1".to_string(), "named".to_string()])
    );
    assert_eq!(problem.var_names, Some(vec!["first".to_string(), "x1".to_string()]));
    assert_eq!(problem.a, vec![ds(&[1.0, 0.0]), ds(&[1.0, 0.0]), ds(&[1.0, 0.0])]);
}

#[test]
fn init_takes_a_whole_problem() {
    let problem = MipProblemSpec {
        sense: "min".to_string(),
        c: ds(&[1.0]),
        a: vec![],
        b: vec![],
        integer_vars: vec![],
        ub: None,
        var_names: None,
        con_names: None,
    };
    let mut init = command(r#"{"op":"init","problem":{}}"#);
    init.problem = Some(Ok(problem));
    let (parsed, revision, frames) = parse_problem_from_commands(&vec![init], 10, LIMITS).unwrap();
    assert_eq!(revision, 1);
    assert_eq!(parsed.sense, "min");
    assert_eq!(parsed.integer_vars, vec![false]);
    assert!(matches!(frames[0], StreamFrame::Initialized { revision: 1 }));

    let mut broken = command(r#"{"op":"init","problem":3}"#);
    broken.problem = Some(Err("expected a map".to_string()));
    assert_eq!(
        parse_problem_from_commands(&vec![broken], 10, LIMITS).unwrap_err(),
        "invalid problem: expected a map"
    );
}

#[test]
fn sessions_go_on_after_a_refused_command() {
    let mut session = LiveSession { problem: None, revision: 0 };
    let report = apply_session_commands(
        &mut session,
        &commands(&[
            INIT,
            r#"{"op":"set_rhs","index":9,"rhs":1.0}"#,
            r#"{"op":"set_rhs","index":0,"rhs":1.0}"#,
        ]),
        LIMITS,
    );
    assert_eq!(report.succeeded, 2);
    assert_eq!(report.failed, 1);
    assert!(!report.stopped);
    assert_eq!(session.revision, 2);
    assert_eq!(session.problem.as_ref().unwrap().b, ds(&[1.0]));
    match &report.frames[1] {
        StreamFrame::Rejected { message, revision } => {
            assert_eq!(message, "constraint index out of range");
            assert_eq!(*revision, 1);
        }
        other => panic!("unexpected frame {other:?}"),
    }
}

#[test]
fn a_valid_model_stays_valid_under_every_edit() {
    let mut problem: Option<MipProblemSpec> = None;
    let mut revision: u64 = 0;
    let mut frames = Vec::new();
    for text in [
        INIT,
        r#"{"op":"add_variable","c":4.0,"column":[1.0]}"#,
        r#"{"op":"add_constraint","coefs":[1.0,2.0,3.0],"rhs":9.0}"#,
        r#"{"op":"remove_variable","index":1}"#,
        r#"{"op":"snapshot"}"#,
        r#"{"op":"set_variable","index":1,"ub":4.0,"column":[5.0,6.0]}"#,
        r#"{"op":"remove_constraint","index":0}"#,
    ] {
        let before = revision;
        apply_stream_command(&mut problem, &mut revision, &command(text), &mut frames, LIMITS).unwrap();
        assert!(validate_problem(problem.as_ref().unwrap(), LIMITS).is_ok());
        let counts = !text.contains("snapshot");
        assert_eq!(revision, before + counts as u64);
    }
    assert_eq!(frames.len(), 7);
    assert_eq!(problem.unwrap().a, vec![ds(&[1.0, 6.0])]);
}

fn model(c: &[f64], a: Vec<Vec<Double>>, b: &[f64]) -> MipProblemSpec {
    MipProblemSpec {
        sense: "max".to_string(),
        c: ds(c),
        a,
        b: ds(b),
        integer_vars: vec![],
        ub: None,
        var_names: None,
        con_names: None,
    }
}

#[test]
fn models_are_checked() {
    let cases: Vec<(MipProblemSpec, &str)> = vec![
        (model(&[], vec![], &[]), "objective vector `c` must not be empty"),
        (model(&[1.0], vec![ds(&[1.0])], &[]), "`a` has 1 rows but `b` has 0 entries"),
        (model(&[f64::NAN], vec![], &[]), "objective coefficients must be finite"),
        (model(&[1.0], vec![ds(&[1.0])], &[f64::NAN]), "right-hand sides must be finite"),
        (model(&[1.0], vec![ds(&[1.0, 2.0])], &[1.0]), "row 0 has length 2, expected 1"),
        (
            model(&[1.0], vec![ds(&[1.0]), ds(&[f64::INFINITY])], &[1.0, 1.0]),
            "row 1 contains a non-finite coefficient",
        ),
        (
            MipProblemSpec { integer_vars: vec![true, true], ..model(&[1.0], vec![], &[]) },
            "integerVars length must not exceed len(c)",
        ),
        (
            MipProblemSpec { ub: Some(ds(&[1.0, 2.0])), ..model(&[1.0], vec![], &[]) },
            "ub length must equal len(c)",
        ),
        (
            MipProblemSpec { ub: Some(ds(&[-1.0])), ..model(&[1.0], vec![], &[]) },
            "ub entries must be non-negative or infinite",
        ),
        (
            MipProblemSpec { ub: Some(ds(&[f64::NAN])), ..model(&[1.0], vec![], &[]) },
            "ub entries must be non-negative or infinite",
        ),
        (
            MipProblemSpec { var_names: Some(vec![]), ..model(&[1.0], vec![], &[]) },
            "varNames length must equal len(c)",
        ),
        (
            MipProblemSpec { con_names: Some(vec!["r".to_string()]), ..model(&[1.0], vec![], &[]) },
            "conNames length must equal constraint count",
        ),
    ];
    for (problem, expected) in cases {
        assert_eq!(validate_problem(&problem, LIMITS).unwrap_err(), expected);
        assert_eq!(normalized_problem(problem, LIMITS).unwrap_err(), expected);
    }
    let unbounded = MipProblemSpec {
        ub: Some(ds(&[f64::INFINITY])),
        ..model(&[1.0], vec![ds(&[-0.0])], &[0.0])
    };
    assert!(validate_problem(&unbounded, LIMITS).is_ok());
}

#[test]
fn models_have_a_size_limit() {
    let limits = Limits { max_vars: 1, max_constraints: 1 };
    let wide = model(&[1.0, 2.0], vec![], &[]);
    assert!(normalized_problem(wide, limits).unwrap_err() == "variable count 2 exceeds limit 1");
    let tall = model(&[1.0], vec![ds(&[1.0]), ds(&[1.0])], &[1.0, 1.0]);
    assert!(normalized_problem(tall, limits).unwrap_err() == "constraint count 2 exceeds limit 1");
}

#[test]
fn normalizing_twice_changes_nothing() {
    let plain = normalized_problem(model(&[1.0, 2.0], vec![], &[]), LIMITS).unwrap();
    assert_eq!(plain.integer_vars, vec![false, false]);
    let twice = normalized_problem(plain.clone(), LIMITS).unwrap();
    assert_eq!(twice.integer_vars, plain.integer_vars);
    assert_eq!(twice.c, plain.c);
    assert_eq!(twice.ub, plain.ub);
}

const BATCH: [&str; 5] = [
    INIT,
    r#"{"op":"set_rhs","index":9,"rhs":1.0}"#,
    r#"{"op":"add_constraint","coefs":[1.0,2.0],"rhs":9.0}"#,
    r#"{"op":"snapshot"}"#,
    r#"{"op":"set_rhs","index":1,"rhs":7.0}"#,
];

#[test]
fn batches_end_as_one_request_does() {
    let mut whole = LiveSession { problem: None, revision: 0 };
    let at_once = apply_session_commands(&mut whole, &commands(&BATCH), LIMITS);
    for cut in 0..=BATCH.len() {
        let mut session = LiveSession { problem: None, revision: 0 };
        let first = apply_session_commands(&mut session, &commands(&BATCH[..cut]), LIMITS);
        let second = apply_session_commands(&mut session, &commands(&BATCH[cut..]), LIMITS);
        assert_eq!(session.revision, 3);
        assert_eq!(session.revision, whole.revision);
        assert_eq!(format!("{:?}", session.problem), format!("{:?}", whole.problem));
        assert_eq!(first.succeeded + second.succeeded, at_once.succeeded);
        assert_eq!(first.failed + second.failed, 1);
        let mut frames = first.frames;
        frames.extend(second.frames);
        assert_eq!(format!("{frames:?}"), format!("{:?}", at_once.frames));
    }
}

#[test]
fn a_request_builds_what_a_session_comes_to() {
    let texts = [INIT, BATCH[2], BATCH[3], BATCH[4]];
    let (problem, revision, frames) = parse(&texts).unwrap();
    let mut session = LiveSession { problem: None, revision: 0 };
    let report = apply_session_commands(&mut session, &commands(&texts), LIMITS);
    assert_eq!(revision, 3);
    assert_eq!(session.revision, 3);
    assert_eq!(format!("{:?}", session.problem.unwrap()), format!("{problem:?}"));
    assert_eq!(format!("{:?}", report.frames), format!("{frames:?}"));
    assert_eq!(report.failed, 0);
    assert_eq!(problem.b, ds(&[4.0, 7.0]));
}
