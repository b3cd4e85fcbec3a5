//! HTTP framing, the network mutex and coordination.

use mip_solver_node::config::{RuntimeConfig, Setting};
use mip_solver_node::coordination::{
    check_stream, lock_request, lock_token, parse_coordination_backends, redis_key_prefix,
    redis_lock_after_reply, redis_lock_may_try, release_order, unlock_outcome, unlock_request,
    CoordinationBackend, CoordinationConfig, CoordinationHolder, LockAttempt, LockStep,
    RedisReply, RedisStep,
};
use mip_solver_node::document::Document;
use mip_solver_node::http_framing::{
    chunked_body_complete, decode_chunked_body, header_value, http_path, parse_http_endpoint,
    response_content_length, response_is_chunked,
};
use mip_solver_node::live_mutex::{
    live_mutex_lock_outcome, live_mutex_reply, live_mutex_request, LiveMutexConfig,
    LiveMutexLockResponse, ReadStep, ResponseReader,
};
use mip_solver_node::number::Double;

fn settings(pairs: &[(&str, &str)]) -> RuntimeConfig {
    RuntimeConfig {
        settings: pairs
            .iter()
            .map(|(key, text)| Setting {
                key: key.to_string(),
                text: text.to_string(),
                unsigned: text.trim().parse().ok(),
                flag: None,
                number: text.trim().parse::<f64>().ok().map(|x| Double { bits: x.to_bits() }),
            })
            .collect(),
    }
}

fn text_field(document: &Document, name: &str) -> String {
    if let Document::Object(fields) = document {
        for (key, value) in fields {
            if key == name {
                if let Document::Text(text) = value {
                    return text.clone();
                }
            }
        }
    }
    panic!("no text field {name} in {document:?}");
}

fn backends_auto_and_explicit_both() {
    assert_eq!(
        parse_coordination_backends("auto", true, true),
        vec![CoordinationBackend::Redis, CoordinationBackend::LiveMutex]
    );
    assert_eq!(
        parse_coordination_backends("redis,live-mutex", true, true),
        vec![CoordinationBackend::Redis, CoordinationBackend::LiveMutex]
    );
    assert_eq!(
        parse_coordination_backends("both", true, false),
        vec![CoordinationBackend::Redis]
    );
    assert!(parse_coordination_backends("none", true, true).is_empty());
}

#[test]
fn main_coordination_backend_parser_supports_auto_and_explicit_both() {
    backends_auto_and_explicit_both();
}

#[test]
fn tests_coordination_backend_parser_supports_auto_and_explicit_both() {
    backends_auto_and_explicit_both();
}

fn endpoint_preserves_base_path() {
    let endpoint =
        parse_http_endpoint("http://dd-rust-network-mutex.default.svc.cluster.local:6971/api")
            .unwrap();

    assert_eq!(
        endpoint.addr,
        "dd-rust-network-mutex.default.svc.cluster.local:6971"
    );
    assert_eq!(
        endpoint.host_header,
        "dd-rust-network-mutex.default.svc.cluster.local:6971"
    );
    assert_eq!(http_path(&endpoint.path_prefix, "/v1/lock"), "/api/v1/lock");
    assert!(parse_http_endpoint("https://example.com").is_err());
    assert!(parse_http_endpoint("http://example.com\r\nX-Bad: yes").is_err());
}

#[test]
fn main_live_mutex_http_endpoint_parser_preserves_base_path() {
    endpoint_preserves_base_path();
}

#[test]
fn tests_live_mutex_http_endpoint_parser_preserves_base_path() {
    endpoint_preserves_base_path();
}

fn accepts_chunk_extensions() {
    let decoded = decode_chunked_body(b"4;foo=bar\r\nrust\r\n0\r\n\r\n").unwrap();

    assert_eq!(decoded, b"rust");
}

#[test]
fn main_chunked_decoder_accepts_chunk_extensions() {
    accepts_chunk_extensions();
}

#[test]
fn tests_chunked_decoder_accepts_chunk_extensions() {
    accepts_chunk_extensions();
}

#[test]
fn backends_come_once_and_only_where_they_are_available() {
    assert_eq!(
        parse_coordination_backends("redis, REDIS ,lmx,live_mutex", true, true),
        vec![CoordinationBackend::Redis, CoordinationBackend::LiveMutex]
    );
    assert!(parse_coordination_backends("live-mutex", true, false).is_empty());
    assert!(parse_coordination_backends("auto", false, false).is_empty());
    assert!(parse_coordination_backends("unheard-of", true, true).is_empty());
    assert_eq!(CoordinationBackend::LiveMutex.as_str(), "live-mutex");
}

#[test]
fn endpoints_have_a_default_port_and_say_what_is_wrong() {
    let endpoint = parse_http_endpoint("http://example.com").unwrap();
    assert_eq!(endpoint.addr, "example.com:80");
    assert_eq!(endpoint.host_header, "example.com");
    assert_eq!(endpoint.path_prefix, "");
    assert_eq!(
        parse_http_endpoint("ftp://example.com").unwrap_err(),
        "live-mutex URL must start with http://"
    );
    assert_eq!(parse_http_endpoint("http:///x").unwrap_err(), "live-mutex URL is missing a host");
    assert_eq!(
        parse_http_endpoint("http://a\nb").unwrap_err(),
        "live-mutex URL must not contain CRLF characters"
    );
}

#[test]
fn headers_are_found_whatever_their_case() {
    let head = "HTTP/1.1 200 OK\r\nContent-Length:  12 \r\nTransfer-Encoding: gzip, Chunked";
    assert_eq!(header_value(head, "content-length").as_deref(), Some("12"));
    assert_eq!(header_value(head, "host"), None);
    assert_eq!(response_content_length(head), Ok(Some(12)));
    assert!(response_is_chunked(head));
    assert_eq!(response_content_length("HTTP/1.1 200 OK"), Ok(None));
    let error = response_content_length("x\r\ncontent-length: 1x").unwrap_err();
    assert_eq!(
        error,
        format!("invalid live-mutex content-length \"1x\": {}", "1x".parse::<usize>().unwrap_err())
    );
}

#[test]
fn broken_chunks_are_named() {
    assert_eq!(
        decode_chunked_body(b"4").unwrap_err(),
        "chunked response missing chunk header terminator"
    );
    assert_eq!(
        decode_chunked_body(b"4\r\nru").unwrap_err(),
        "chunked response ended before declared chunk size"
    );
    assert_eq!(
        decode_chunked_body(b"4\r\nrustXX").unwrap_err(),
        "chunked response missing chunk data terminator"
    );
    let bad = usize::from_str_radix("zz", 16).unwrap_err();
    assert_eq!(
        decode_chunked_body(b"zz\r\n").unwrap_err(),
        format!("invalid chunk size \"zz\": {bad}")
    );
    let utf8 = std::str::from_utf8(&[0xff]).unwrap_err();
    assert_eq!(
        decode_chunked_body(&[0xff, b'\r', b'\n']).unwrap_err(),
        format!("invalid chunk header utf8: {utf8}")
    );
    assert!(decode_chunked_body(b"FFFFFFFFFFFFFFFF\r\nrust").is_err());
}

fn chunks(parts: &[(&str, &[u8])], end: &[u8]) -> Vec<u8> {
    let mut body = Vec::new();
    for (extension, data) in parts {
        body.extend(format!("{:x}{extension}\r\n", data.len()).into_bytes());
        body.extend_from_slice(data);
        body.extend_from_slice(b"\r\n");
    }
    body.extend_from_slice(end);
    body
}

#[test]
fn decoding_undoes_chunking() {
    let parts: [(&str, &[u8]); 4] = [
        ("", b"0\r\n\r\n"),
        (";name=\"v;w\"", b"\r\n"),
        (";\u{e9}", &[0xff, 0x00, 0x0d]),
        ("", b"a longer chunk than sixteen bytes"),
    ];
    let mut data = Vec::new();
    for (_, part) in &parts {
        data.extend_from_slice(part);
    }
    for end in [&b"0\r\n"[..], b"0\r\n\r\n", b"000;last\r\ntrailer: x\r\n\r\nmore"] {
        let body = chunks(&parts, end);
        assert_eq!(decode_chunked_body(&body).unwrap(), data);
        assert_eq!(chunked_body_complete(&body), end.len() > 3);
    }
    assert_eq!(decode_chunked_body(&chunks(&[], b"0\r\n")).unwrap(), b"");
}

#[test]
fn complete_bodies_stay_complete() {
    let body = b"4;x\r\nrust\r\n0\r\n\r\n".to_vec();
    assert!(chunked_body_complete(&body));
    for more in [&b""[..], b"x", b"5\r\nagain\r\n", &[0xff, 0xfe]] {
        let mut longer = body.clone();
        longer.extend_from_slice(more);
        assert!(chunked_body_complete(&longer));
        assert_eq!(decode_chunked_body(&longer).unwrap(), b"rust");
    }
}

#[test]
fn complete_bodies_can_be_decoded() {
    let body = b"4\r\nrust\r\n3\r\nbox\r\n0\r\n\r\n";
    assert!(chunked_body_complete(body));
    let decoded = decode_chunked_body(body).unwrap();
    assert_eq!(decoded, b"rustbox");
    assert!(decoded.len() <= body.len());
    for cut in 0..17 {
        assert!(!chunked_body_complete(&body[..cut]), "{cut}");
    }
}

fn mutex(token: Option<&str>) -> LiveMutexConfig {
    LiveMutexConfig {
        base_url: "http://127.0.0.1:1/base/".to_string(),
        auth_token: token.map(|t| t.to_string()),
        request_timeout_ms: 0,
        max_response_bytes: u64::MAX,
    }
}

#[test]
fn live_mutex_rejects_crlf_auth_token_before_network() {
    let error = live_mutex_request(&mutex(Some("bad\r\nAuthorization: nope")), "/v1/lock", 2).unwrap_err();
    assert!(error.contains("CRLF"));
}

#[test]
fn live_mutex_requests_are_framed() {
    let request = live_mutex_request(&mutex(Some("secret")), "/v1/lock", 2).unwrap();
    assert_eq!(request.addr, "127.0.0.1:1");
    assert_eq!(
        request.head,
        "POST /base/v1/lock HTTP/1.1\r\nHost: 127.0.0.1:1\r\nContent-Type: application/json\r\nAccept: application/json\r\nAuthorization: Bearer secret\r\nConnection: close\r\nContent-Length: 2\r\n\r\n"
    );
    assert_eq!(request.timeout_ms, 1);
    assert_eq!(request.max_response_bytes, 16_777_216);
    let plain = live_mutex_request(&mutex(None), "/v1/unlock", 0).unwrap();
    assert!(!plain.head.contains("Authorization"));
}

fn read_all(pieces: &[&[u8]], max: u64) -> Result<Vec<u8>, String> {
    let mut reader = ResponseReader::new();
    for piece in pieces {
        match reader.next_step(max) {
            ReadStep::Read => {}
            ReadStep::Done => return Ok(reader.into_bytes()),
            ReadStep::TooLong(error) => return Err(error),
        }
        reader.absorb(piece)?;
    }
    match reader.next_step(max) {
        ReadStep::TooLong(error) => Err(error),
        _ => Ok(reader.into_bytes()),
    }
}

#[test]
fn live_mutex_reader_stops_after_content_length_without_eof() {
    let body = br#"{"acquired":true,"lockUuid":"lock-a"}"#;
    let head = format!(
        "HTTP/1.1 200 OK\r\ncontent-type: application/json\r\ncontent-length: {}\r\n\r\n",
        body.len()
    );
    let response = read_all(&[head.as_bytes(), body, b"not part of it"], 1024).unwrap();
    let reply = live_mutex_reply("/v1/lock", &response).unwrap();
    assert_eq!(reply, body);
    assert_eq!(
        read_all(&[head.as_bytes(), body], 10).unwrap_err(),
        "live-mutex response exceeded 10 bytes"
    );
    let utf8 = std::str::from_utf8(&[0xff]).unwrap_err();
    assert_eq!(
        read_all(&[&[0xff, 13, 10, 13, 10]], 100).unwrap_err(),
        format!("live-mutex response headers are not utf8: {utf8}")
    );
}

#[test]
fn live_mutex_replies_are_read() {
    let chunked = b"HTTP/1.1 200 OK\r\nTransfer-Encoding: chunked\r\n\r\n2\r\n{}\r\n0\r\n\r\n".to_vec();
    assert_eq!(live_mutex_reply("/v1/lock", &chunked).unwrap(), b"{}");
    let refused = b"HTTP/1.1 409 Conflict\r\n\r\nheld \xff".to_vec();
    assert_eq!(
        live_mutex_reply("/v1/lock", &refused).unwrap_err(),
        "live-mutex /v1/lock returned HTTP 409: held \u{fffd}"
    );
    assert_eq!(
        live_mutex_reply("/v1/lock", &b"HTTP/1.1 200".to_vec()).unwrap_err(),
        "live-mutex response missing HTTP headers"
    );
    assert_eq!(
        live_mutex_reply("/v1/lock", &b"HTTP/1.1 ok\r\n\r\n".to_vec()).unwrap_err(),
        "live-mutex response missing status code"
    );
}

#[test]
fn lock_replies_tell_who_holds_the_lock() {
    let reply = |acquired: bool, uuid: Option<&str>, error: Option<&str>| LiveMutexLockResponse {
        acquired,
        lock_uuid: uuid.map(|u| u.to_string()),
        error: error.map(|e| e.to_string()),
    };
    assert_eq!(live_mutex_lock_outcome("k", reply(true, Some("u"), None)).unwrap(), "u");
    assert_eq!(
        live_mutex_lock_outcome("k", reply(true, None, None)).unwrap_err(),
        "live-mutex lock response missing lockUuid"
    );
    assert_eq!(
        live_mutex_lock_outcome("k", reply(false, None, Some("held"))).unwrap_err(),
        "coordination lock busy: k: held"
    );
    assert_eq!(
        live_mutex_lock_outcome("k", reply(false, None, None)).unwrap_err(),
        "coordination lock busy: k: not acquired"
    );
    assert!(unlock_outcome(true, None).is_ok());
    assert_eq!(unlock_outcome(false, None).unwrap_err(), "not unlocked");
    assert_eq!(unlock_outcome(false, Some("gone".to_string())).unwrap_err(), "gone");
}

#[test]
fn locks_are_taken_in_order_and_released_backwards() {
    let config = CoordinationConfig::from_env(
        &settings(&[("MIP_SOLVER_LIVE_MUTEX_URL", "http://mutex:6971")]),
        true,
    );
    assert!(config.enabled());
    assert_eq!(config.backend_names(), vec!["redis", "live-mutex"]);
    assert_eq!(config.ttl_ms, 30_000);
    assert_eq!(config.wait_ms, 5_000);
    assert_eq!(config.redis_lock_prefix, "dd:mip-solver");
    let mut attempt = LockAttempt::begin(&config, "key".to_string()).unwrap();
    assert!(matches!(attempt.next_step(), LockStep::Acquire(CoordinationBackend::Redis)));
    attempt.acquired(CoordinationHolder::Redis { token: "t".to_string() });
    assert!(matches!(attempt.next_step(), LockStep::Acquire(CoordinationBackend::LiveMutex)));
    attempt.acquired(CoordinationHolder::LiveMutex { lock_uuid: "u".to_string() });
    assert!(matches!(attempt.next_step(), LockStep::Held));
    let order = release_order(attempt.into_guard());
    assert!(matches!(&order[0], CoordinationHolder::LiveMutex { lock_uuid } if lock_uuid == "u"));
    assert!(matches!(&order[1], CoordinationHolder::Redis { token } if token == "t"));

    let off = CoordinationConfig::from_env(
        &settings(&[("MIP_SOLVER_COORDINATION_BACKENDS", "off")]),
        true,
    );
    assert!(!off.enabled());
    assert!(LockAttempt::begin(&off, "key".to_string()).is_none());
    assert_eq!(
        redis_key_prefix(&settings(&[("MIP_SOLVER_REDIS_KEY_PREFIX", "other")])),
        "other"
    );
}

#[test]
fn redis_locks_wait_until_time_is_up() {
    assert!(redis_lock_may_try("k", 1).is_ok());
    assert_eq!(redis_lock_may_try("k", 0).unwrap_err(), "coordination lock busy: k");
    assert!(matches!(redis_lock_after_reply("k", RedisReply::Granted, 5), RedisStep::Acquired));
    match redis_lock_after_reply("k", RedisReply::Taken, 5_000) {
        RedisStep::Wait(ms) => assert!(0 < ms && ms <= 5_000),
        other => panic!("unexpected step {other:?}"),
    }
    match redis_lock_after_reply("k", RedisReply::Failed("down".to_string()), 5) {
        RedisStep::Fail(error) => assert_eq!(error, "Redis coordination SET NX failed: down"),
        other => panic!("unexpected step {other:?}"),
    }
    match redis_lock_after_reply("k", RedisReply::TimedOut, 5) {
        RedisStep::Fail(error) => assert_eq!(error, "Redis coordination SET NX timed out for k"),
        other => panic!("unexpected step {other:?}"),
    }
}

#[test]
fn lock_requests_name_the_key() {
    assert_eq!(lock_token("node", "fresh"), "node:fresh");
    assert_eq!(text_field(&lock_request("k", 0, 5), "key"), "k");
    assert_eq!(text_field(&unlock_request("k", "u"), "lockUuid"), "u");
    assert!(check_stream("jobs", "S", "S").is_ok());
    assert_eq!(
        check_stream("jobs", "T", "S").unwrap_err(),
        "JetStream ack for jobs landed in stream T, expected S"
    );
}
