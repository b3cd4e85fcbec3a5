//! Texts, numbers, identifiers and collections.

use mip_solver_node::document::{push_document, text_list, Document, Fields};
use mip_solver_node::fields::{
    bool_at, f64_at, finite_f64, str_at, usize_at, vec_bool, vec_f64, vec_string, vec_vec_f64,
};
use mip_solver_node::id_set::IdSet;
use mip_solver_node::ids::{
    i32_count, job_retry_index, job_retry_root, local_problem_model_key,
    mip_solver_problem_model_key, mip_solver_session_revision_lock_key,
    mip_solver_solve_frontier_key, mip_solver_solve_request_lock_key, new_uuid_string, problem_id,
    problem_id_with, request_id, request_id_with, result_consumer_name, retry_job_id,
};
use mip_solver_node::json::{Json, JsonNumber};
use mip_solver_node::markup::{html_escape, prometheus_label_value};
use mip_solver_node::number::{infinity, neg_infinity, one, one_millionth, zero, Double};
use mip_solver_node::order::is_text_before;
use mip_solver_node::registry::{new_job_entry, JobRegistryEntry};
use mip_solver_node::table::Table;
use mip_solver_node::text::{
    contains, decimal, decimal_u128, find, lines, parse_number, replace_char, rfind, same,
    same_ignoring_case, split, split_once, starts_with, to_lower, trim, trim_end_char, words,
};
use serde_json::Value;
use uuid::Uuid;

fn d(x: f64) -> Double {
    Double { bits: x.to_bits() }
}

fn to_json(v: &Value) -> Json {
    match v {
        Value::Null => Json::Null,
        Value::Bool(b) => Json::Bool(*b),
        Value::Number(n) => Json::Number(JsonNumber {
            unsigned: n.as_u64(),
            value: d(n.as_f64().unwrap()),
        }),
        Value::String(s) => Json::Text(s.clone()),
        Value::Array(items) => Json::Array(items.iter().map(to_json).collect()),
        Value::Object(fields) => {
            Json::Object(fields.iter().map(|(k, v)| (k.clone(), to_json(v))).collect())
        }
    }
}

fn json(text: &str) -> Json {
    to_json(&serde_json::from_str(text).unwrap())
}

// Identifiers.

#[test]
fn explicit_problem_id_is_trimmed_and_canonicalized() {
    let uppercase = "AAAAAAAA-BBBB-4CCC-8DDD-EEEEEEEEEEEE";

    let parsed = problem_id(Some(format!("  {uppercase}  ")), "request-not-a-uuid").unwrap();

    assert_eq!(parsed, "aaaaaaaa-bbbb-4ccc-8ddd-eeeeeeeeeeee");
    assert_eq!(
        problem_id(Some("not-a-uuid".to_string()), "request-not-a-uuid"),
        Err("problemId must be a UUID".to_string())
    );
}

#[test]
fn missing_problem_id_reuses_uuid_request_id_or_generates_a_uuid() {
    let request_uuid = "11111111-2222-4333-8444-555555555555";

    assert_eq!(problem_id(None, request_uuid).unwrap(), request_uuid);
    let generated = problem_id(None, "human-readable-request").unwrap();
    assert_eq!(Uuid::parse_str(&generated).unwrap().get_version_num(), 4);
}

#[test]
fn retry_identifier_helpers_handle_plain_valid_and_malformed_suffixes() {
    assert_eq!(job_retry_root("solve-7"), "solve-7");
    assert_eq!(job_retry_index("solve-7"), 0);
    assert_eq!(job_retry_root("solve-7-retry-3"), "solve-7");
    assert_eq!(job_retry_index("solve-7-retry-3"), 3);
    assert_eq!(job_retry_root("solve-7-retry-invalid"), "solve-7");
    assert_eq!(job_retry_index("solve-7-retry-invalid"), 0);
}

#[test]
fn every_form_of_a_uuid_is_canonicalized() {
    let canonical = "aaaaaaaa-bbbb-4ccc-8ddd-eeeeeeeeeeee";
    for form in [
        "AAAAAAAABBBB4CCC8DDDEEEEEEEEEEEE",
        "{AAAAAAAA-BBBB-4CCC-8DDD-EEEEEEEEEEEE}",
        "urn:uuid:AAAAAAAA-BBBB-4CCC-8DDD-EEEEEEEEEEEE",
        "URN:UUID:aaaaaaaa-bbbb-4ccc-8ddd-eeeeeeeeeeee",
        canonical,
    ] {
        let ours = problem_id_with(Some(form.to_string()), "r", "f");
        match Uuid::parse_str(form) {
            Ok(parsed) => assert_eq!(ours, Ok(parsed.to_string()), "{form}"),
            Err(_) => assert!(ours.is_err(), "{form}"),
        }
    }
    for broken in ["", "aaaaaaaa-bbbb-4ccc-8ddd-eeeeeeeeeee", "gaaaaaaa-bbbb-4ccc-8ddd-eeeeeeeeeeee"] {
        assert!(Uuid::parse_str(broken).is_err());
        assert!(problem_id_with(Some(broken.to_string()), "r", "f").is_err(), "{broken}");
    }
    let once = problem_id_with(Some(canonical.to_uppercase()), "r", "f").unwrap();
    assert_eq!(problem_id_with(Some(once.clone()), "r", "f").unwrap(), once);
}

#[test]
fn fresh_identifiers_are_random_and_canonical() {
    let a = new_uuid_string();
    let b = new_uuid_string();
    assert_ne!(a, b);
    assert_eq!(a, Uuid::parse_str(&a).unwrap().to_string());
    assert_eq!(problem_id_with(Some(a.clone()), "r", "f").unwrap(), a);
    assert_eq!(request_id_with(None, "f"), "mip-f");
    assert_eq!(request_id_with(Some("  ".to_string()), "f"), "mip-f");
    assert_eq!(request_id(Some("given".to_string())), "given");
    assert_eq!(problem_id_with(None, "no-uuid", "f").unwrap(), "f");
}

#[test]
fn retries_read_back() {
    for (root, index) in [("solve-7", 0), ("solve-7-lp", 12), ("", 3)] {
        let id = retry_job_id(root, index);
        assert_eq!(job_retry_root(&id), root);
        assert_eq!(job_retry_index(&id), index);
    }
    assert_eq!(job_retry_root("a-retry-1-retry-2"), "a");
    assert_eq!(job_retry_index("a-retry-1-retry-2"), 2);
}

#[test]
fn keys_hold_what_they_name() {
    assert_eq!(mip_solver_solve_frontier_key("p", "s"), "p:solve:s:frontier");
    assert_eq!(mip_solver_problem_model_key("p", "x", 7), "p:problem:x:revision:7");
    assert_eq!(local_problem_model_key("x", 7), "x:7");
    assert_eq!(mip_solver_session_revision_lock_key("p", "s"), "p:session:s:revision-lock");
    assert_eq!(mip_solver_solve_request_lock_key("p", "x"), "p:solve-request:x:lock");
    assert_eq!(result_consumer_name("solve-test"), "solve-test-results");
    assert_eq!(i32_count(5), 5);
    assert_eq!(i32_count(usize::MAX), i32::MAX);
}

// Texts.

#[test]
fn texts_are_taken_apart() {
    assert_eq!(trim(" \t a b \n"), "a b");
    assert_eq!(trim("\u{a0}x\u{2003}"), "x");
    assert_eq!(to_lower("ABC-d"), "abc-d");
    assert_eq!(replace_char("a_b_c", '_', '-'), "a-b-c");
    assert_eq!(split("a,b,,c", ','), vec!["a", "b", "", "c"]);
    assert_eq!(split("", ','), vec![""]);
    assert_eq!(find("abcabc", "bc"), Some(1));
    assert_eq!(rfind("abcabc", "bc"), Some(4));
    assert_eq!(find("abc", "x"), None);
    assert!(contains("abc", ""));
    assert!(starts_with("abc", "ab"));
    assert_eq!(decimal(0), "0");
    assert_eq!(decimal(1_203), "1203");
    assert_eq!(decimal_u128(u128::MAX), u128::MAX.to_string());
    assert_eq!(parse_number("ff", 16, 255), Some(255));
    assert_eq!(parse_number("100", 16, 255), None);
    assert_eq!(parse_number("", 10, 255), None);
    assert_eq!(split_once("k: v: w", ':'), Some(("k".to_string(), " v: w".to_string())));
    assert_eq!(lines("a\r\nb\n"), "a\r\nb\n".lines().collect::<Vec<_>>());
    assert_eq!(words("  a  b "), vec!["a", "b"]);
    assert_eq!(trim_end_char("a//", '/'), "a");
    assert!(same("a", "a") && !same("a", "b"));
    assert!(same_ignoring_case("Chunked", "cHUNKED"));
}

#[test]
fn texts_are_ordered_as_the_standard_orders_them() {
    let texts = ["", "a", "ab", "b", "\u{e9}", "Z"];
    for a in texts {
        for b in texts {
            assert_eq!(is_text_before(a, b), a < b, "{a} {b}");
        }
    }
}

#[test]
fn markup_is_escaped() {
    assert_eq!(html_escape("<a href=\"x\">&'</a>"), "&lt;a href=&quot;x&quot;&gt;&amp;&#39;&lt;/a&gt;");
    assert_eq!(prometheus_label_value("a\\b\"c\nd"), "a\\\\b\\\"c\\nd");
    assert_ne!(html_escape("<"), html_escape("&lt;"));
    assert!(!prometheus_label_value("x\ny").contains('\n'));
}

// Numbers.

#[test]
fn doubles_compare_as_the_standard_compares_them() {
    let values = [
        f64::NEG_INFINITY,
        -2.5,
        -1e-308,
        -0.0,
        0.0,
        1e-308,
        1.0,
        1e300,
        f64::INFINITY,
        f64::NAN,
        -f64::NAN,
    ];
    for a in values {
        assert_eq!(d(a).is_finite(), a.is_finite());
        assert_eq!(d(a).is_nan(), a.is_nan());
        for b in values {
            assert_eq!(d(a).is_below(d(b)), a < b, "{a} {b}");
            assert_eq!(d(a).is_equal_to(d(b)), a == b, "{a} {b}");
            assert_eq!(
                d(a).is_before(d(b)),
                a.total_cmp(&b) == std::cmp::Ordering::Less,
                "{a} {b}"
            );
        }
    }
    assert_eq!(zero(), d(0.0));
    assert_eq!(one(), d(1.0));
    assert_eq!(infinity(), d(f64::INFINITY));
    assert_eq!(neg_infinity(), d(f64::NEG_INFINITY));
    assert_eq!(one_millionth(), d(1e-6));
    assert_eq!(d(f64::NAN).if_finite(), None);
}

// Fields.

#[test]
fn fields_are_read_or_refused() {
    let command = json(
        r#"{"n":3,"neg":-1,"x":1.5,"flag":true,"text":"t","list":[1,2.5],"rows":[[1],[2,3]],"flags":[true,false],"names":["a"],"null":null}"#,
    );
    assert_eq!(usize_at(&command, "n"), Ok(Some(3)));
    assert_eq!(usize_at(&command, "missing"), Ok(None));
    assert!(usize_at(&command, "neg").is_err());
    assert!(usize_at(&command, "x").is_err());
    assert_eq!(f64_at(&command, "x", zero()), Ok(d(1.5)));
    assert_eq!(f64_at(&command, "missing", one()), Ok(one()));
    assert_eq!(f64_at(&command, "text", one()).unwrap_err(), "text must be a finite number");
    assert_eq!(bool_at(&command, "flag", false), Ok(true));
    assert!(bool_at(&command, "n", false).is_err());
    assert_eq!(str_at(&command, "text"), Ok(Some("t".to_string())));
    assert!(str_at(&command, "n").is_err());
    assert_eq!(vec_f64(&command, "list"), Ok(Some(vec![d(1.0), d(2.5)])));
    assert!(vec_f64(&command, "names").unwrap_err().contains("names[0] must be a finite number"));
    assert_eq!(vec_vec_f64(&command, "rows"), Ok(Some(vec![vec![d(1.0)], vec![d(2.0), d(3.0)]])));
    assert!(vec_vec_f64(&command, "list").is_err());
    assert_eq!(vec_bool(&command, "flags"), Ok(Some(vec![true, false])));
    assert!(vec_bool(&command, "list").is_err());
    assert_eq!(vec_string(&command, "names"), Ok(Some(vec!["a".to_string()])));
    assert!(vec_string(&command, "list").is_err());
    assert!(finite_f64(&Json::Text("1".to_string()), "label").unwrap_err().contains("label"));
    assert_eq!(command.get("n").and_then(|v| v.as_unsigned()), Some(3));
    assert_eq!(command.get("flag").and_then(|v| v.as_boolean()), Some(true));
    assert_eq!(command.get("text").and_then(|v| v.as_text()), Some("t"));
    assert_eq!(command.get("list").and_then(|v| v.as_items()).map(|v| v.len()), Some(2));
    assert_eq!(command.get("x").and_then(|v| v.as_number()), Some(d(1.5)));
}

// Collections.

#[test]
fn sets_hold_each_id_once() {
    let mut set = IdSet::new();
    assert!(set.insert("a".to_string()));
    assert!(!set.insert("a".to_string()));
    assert!(set.contains("a"));
    assert_eq!(set.len(), 1);
    assert!(set.remove("a"));
    assert!(!set.remove("a"));
    assert_eq!(set.len(), 0);
}

#[test]
fn tables_keep_one_value_for_each_key() {
    let mut table: Table<JobRegistryEntry> = Table::new();
    table.insert("a".to_string(), new_job_entry("a"));
    table.insert("b".to_string(), new_job_entry("b"));
    table.insert("a".to_string(), new_job_entry("other"));
    assert_eq!(table.len(), 2);
    assert_eq!(table.get("a").unwrap().job_id, "other");
    assert!(table.remove("b").is_some());
    assert!(table.get("b").is_none());
    let copy = table.duplicate();
    table.remove_all(&vec!["a".to_string(), "z".to_string()]);
    assert_eq!(table.len(), 0);
    assert_eq!(copy.key_at(0), "a");
    assert_eq!(copy.value_at(0).job_id, "other");
}

#[test]
fn documents_keep_the_order_of_their_fields() {
    let document = Fields::new()
        .text("t", "x")
        .count("n", 3)
        .flag("f", true)
        .maybe_text("none", &None)
        .maybe_count("some", Some(4))
        .value("list", text_list(&vec!["a".to_string()]))
        .done();
    match document {
        Document::Object(fields) => {
            let names: Vec<&str> = fields.iter().map(|(k, _)| k.as_str()).collect();
            assert_eq!(names, vec!["t", "n", "f", "none", "some", "list"]);
            assert!(matches!(fields[3].1, Document::Null));
            assert!(matches!(fields[4].1, Document::Count(4)));
        }
        other => panic!("unexpected {other:?}"),
    }
    let mut list = vec![];
    push_document(&mut list, Document::Flag(true));
    assert_eq!(list.len(), 1);
}
