//! End-to-end request/response behaviour through the public dispatch
//! functions, with a dummy handle type standing in for producer callables.

use scx_stats::{conn_step, finish_stats, ConnStep, ProducerError, ScxStatsErrno, ScxStatsServer};

fn registry_with(names: &[&str]) -> scx_stats::Registry<u32> {
    let mut server = ScxStatsServer::<u32>::new();
    let mut handle: u32 = 0;
    for &n in names {
        server = server.add_stats(n, handle);
        handle += 1;
    }
    let (_drained, _path, reg) = server.prepare_launch();
    reg
}

#[test]
fn stats_request_hits_registered_target() {
    let reg = registry_with(&["cpu", "mem"]);
    let step = conn_step("{\"req\":\"stats\",\"args\":{\"target\":\"cpu\"}}\n", &reg);
    match step {
        ConnStep::Invoke { target, args } => {
            assert_eq!(target, "cpu");
            let got = args.get("target").cloned();
            assert_eq!(got, Some("cpu".to_string()));
        }
        _ => panic!("expected an invoke step"),
    }
}

#[test]
fn stats_response_carries_producer_value_exactly() {
    let reg = registry_with(&["cpu"]);
    let step = conn_step("{\"req\":\"stats\",\"args\":{\"target\":\"cpu\"}}", &reg);
    assert!(matches!(step, ConnStep::Invoke { .. }));
    let line = finish_stats(Ok("{\"util\":42}".to_string()));
    assert_eq!(line, "{\"errno\":0,\"args\":{\"resp\":{\"util\":42}}}\n");
}

#[test]
fn stats_without_target_selects_top() {
    let reg = registry_with(&["top", "cpu"]);
    let step = conn_step("{\"req\":\"stats\"}\n", &reg);
    match step {
        ConnStep::Invoke { target, .. } => assert_eq!(target, "top"),
        _ => panic!("expected an invoke step"),
    }
    let explicit = conn_step("{\"req\":\"stats\",\"args\":{\"target\":\"top\"}}\n", &reg);
    match explicit {
        ConnStep::Invoke { target, .. } => assert_eq!(target, "top"),
        _ => panic!("expected an invoke step"),
    }
}

#[test]
fn stats_unknown_target_is_invalid_argument() {
    let reg = registry_with(&["cpu"]);
    let step = conn_step("{\"req\":\"stats\",\"args\":{\"target\":\"nope\"}}\n", &reg);
    match step {
        ConnStep::Reply { line } => {
            assert_eq!(
                line,
                "{\"errno\":22,\"args\":{\"resp\":\"unknown stat target nope\"}}\n"
            );
        }
        _ => panic!("expected a reply step"),
    }
}

#[test]
fn unknown_command_is_invalid_argument() {
    let reg = registry_with(&["cpu"]);
    let step = conn_step("{\"req\":\"frobnicate\"}\n", &reg);
    match step {
        ConnStep::Reply { line } => {
            assert_eq!(
                line,
                "{\"errno\":22,\"args\":{\"resp\":\"unknown command frobnicate\"}}\n"
            );
        }
        _ => panic!("expected a reply step"),
    }
}

#[test]
fn malformed_line_keeps_connection_open() {
    let reg = registry_with(&["cpu"]);
    let bad = conn_step("this is not json\n", &reg);
    match bad {
        ConnStep::Reply { line } => {
            assert_eq!(
                line,
                "{\"errno\":22,\"args\":{\"resp\":\"malformed request line\"}}\n"
            );
        }
        _ => panic!("a malformed line must be answered, not dropped"),
    }
    let good = conn_step("{\"req\":\"stats\",\"args\":{\"target\":\"cpu\"}}\n", &reg);
    assert!(matches!(good, ConnStep::Invoke { .. }));
}

#[test]
fn empty_read_closes_connection() {
    let reg = registry_with(&["cpu"]);
    assert!(matches!(conn_step("", &reg), ConnStep::Close));
    assert!(!matches!(conn_step("\n", &reg), ConnStep::Close));
}

#[test]
fn stats_meta_returns_registered_pairs() {
    let server = ScxStatsServer::<u32>::new()
        .add_stats_meta("cpu", "{\"desc\":\"cpu stats\"}".to_string())
        .add_stats_meta("mem", "7".to_string());
    let (_drained, _path, reg) = server.prepare_launch();
    let step = conn_step("{\"req\":\"stats_meta\"}\n", &reg);
    match step {
        ConnStep::Reply { line } => {
            assert_eq!(
                line,
                "{\"errno\":0,\"args\":{\"resp\":{\"cpu\":{\"desc\":\"cpu stats\"},\"mem\":7}}}\n"
            );
        }
        _ => panic!("expected a reply step"),
    }
}

#[test]
fn stats_meta_snapshot_is_order_independent() {
    let a = ScxStatsServer::<u32>::new()
        .add_stats_meta("b", "2".to_string())
        .add_stats_meta("a", "1".to_string());
    let b = ScxStatsServer::<u32>::new()
        .add_stats_meta("a", "1".to_string())
        .add_stats_meta("b", "2".to_string());
    let (_, _, ra) = a.prepare_launch();
    let (_, _, rb) = b.prepare_launch();
    let la = match conn_step("{\"req\":\"stats_meta\"}\n", &ra) {
        ConnStep::Reply { line } => line,
        _ => panic!("expected a reply step"),
    };
    let lb = match conn_step("{\"req\":\"stats_meta\"}\n", &rb) {
        ConnStep::Reply { line } => line,
        _ => panic!("expected a reply step"),
    };
    assert_eq!(la, lb);
    assert_eq!(la, "{\"errno\":0,\"args\":{\"resp\":{\"a\":1,\"b\":2}}}\n");
}

#[test]
fn duplicate_meta_registration_last_wins() {
    let server = ScxStatsServer::<u32>::new()
        .add_stats_meta("cpu", "1".to_string())
        .add_stats_meta("cpu", "2".to_string());
    let (_, _, reg) = server.prepare_launch();
    match conn_step("{\"req\":\"stats_meta\"}\n", &reg) {
        ConnStep::Reply { line } => {
            assert_eq!(line, "{\"errno\":0,\"args\":{\"resp\":{\"cpu\":2}}}\n");
        }
        _ => panic!("expected a reply step"),
    }
}

#[test]
fn producer_failure_default_code_is_invalid_argument() {
    let line = finish_stats(Err(ProducerError {
        code: None,
        msg: "boom".to_string(),
    }));
    assert_eq!(line, "{\"errno\":22,\"args\":{\"resp\":\"boom\"}}\n");
    let zero = finish_stats(Err(ProducerError {
        code: Some(ScxStatsErrno(0)),
        msg: "boom".to_string(),
    }));
    assert_eq!(zero, "{\"errno\":22,\"args\":{\"resp\":\"boom\"}}\n");
}

#[test]
fn producer_failure_explicit_code_wins() {
    let line = finish_stats(Err(ProducerError {
        code: Some(ScxStatsErrno(5)),
        msg: "io trouble".to_string(),
    }));
    assert_eq!(line, "{\"errno\":5,\"args\":{\"resp\":\"io trouble\"}}\n");
    let neg = finish_stats(Err(ProducerError {
        code: Some(ScxStatsErrno(-3)),
        msg: "odd".to_string(),
    }));
    assert_eq!(neg, "{\"errno\":-3,\"args\":{\"resp\":\"odd\"}}\n");
}

#[test]
fn error_description_is_json_escaped() {
    let line = finish_stats(Err(ProducerError {
        code: None,
        msg: "bad\n\"quote\"\\\u{1f}".to_string(),
    }));
    assert_eq!(
        line,
        "{\"errno\":22,\"args\":{\"resp\":\"bad\\n\\\"quote\\\"\\\\\\u001f\"}}\n"
    );
}
