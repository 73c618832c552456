//! The request line decoder and the builder's path resolution.

use scx_stats::{build_resp, decode_request, encode_response, ScxStatsRequest, ScxStatsServer};

fn args_of(line: &str) -> Vec<(String, String)> {
    let (_req, args) = decode_request(line).expect("line should decode");
    args.entries
}

#[test]
fn decodes_command_and_arguments() {
    let (req, args) = decode_request("{\"req\":\"stats\",\"args\":{\"target\":\"cpu\"}}")
        .expect("line should decode");
    assert_eq!(req, "stats");
    assert_eq!(
        args.entries,
        vec![("target".to_string(), "cpu".to_string())]
    );
}

#[test]
fn missing_args_member_defaults_to_empty() {
    let (req, args) = decode_request("{\"req\":\"stats_meta\"}").expect("line should decode");
    assert_eq!(req, "stats_meta");
    assert!(args.entries.is_empty());
}

#[test]
fn members_may_come_in_either_order() {
    let (req, args) =
        decode_request("{ \"args\" : { \"a\" : \"1\" , \"b\" : \"2\" } , \"req\" : \"stats\" }\r\n")
            .expect("line should decode");
    assert_eq!(req, "stats");
    assert_eq!(
        args.entries,
        vec![
            ("a".to_string(), "1".to_string()),
            ("b".to_string(), "2".to_string())
        ]
    );
}

#[test]
fn duplicate_argument_keys_last_wins() {
    let entries = args_of("{\"req\":\"stats\",\"args\":{\"k\":\"1\",\"k\":\"2\"}}");
    assert_eq!(entries, vec![("k".to_string(), "2".to_string())]);
}

#[test]
fn string_escapes_are_decoded() {
    let (req, args) = decode_request(
        "{\"req\":\"st\\u0061ts\",\"args\":{\"t\\tab\":\"a\\\"b\\\\c\\/d\\n\\r\\b\\f\"}}",
    )
    .expect("line should decode");
    assert_eq!(req, "stats");
    assert_eq!(
        args.entries,
        vec![(
            "t\tab".to_string(),
            "a\"b\\c/d\n\r\u{8}\u{c}".to_string()
        )]
    );
}

#[test]
fn surrogate_pairs_are_combined() {
    let (_req, args) =
        decode_request("{\"req\":\"stats\",\"args\":{\"target\":\"\\ud83d\\ude00\"}}")
            .expect("line should decode");
    assert_eq!(
        args.entries,
        vec![("target".to_string(), "\u{1f600}".to_string())]
    );
}

#[test]
fn lone_surrogates_are_rejected() {
    assert!(decode_request("{\"req\":\"stats\",\"args\":{\"t\":\"\\ud83d\"}}").is_none());
    assert!(decode_request("{\"req\":\"stats\",\"args\":{\"t\":\"\\ude00\"}}").is_none());
}

#[test]
fn malformed_lines_are_rejected() {
    assert!(decode_request("").is_none());
    assert!(decode_request("\n").is_none());
    assert!(decode_request("not json").is_none());
    assert!(decode_request("{}").is_none());
    assert!(decode_request("{\"args\":{}}").is_none());
    assert!(decode_request("{\"req\":42}").is_none());
    assert!(decode_request("{\"req\":\"stats\"").is_none());
    assert!(decode_request("{\"req\":\"stats\",\"args\":{\"k\":1}}").is_none());
    assert!(decode_request("{\"req\":\"stats\",\"req\":\"x\"}").is_none());
    assert!(decode_request("{\"req\":\"stats\"} trailing").is_none());
    assert!(decode_request("{\"req\":\"sta\nts\"}").is_none());
    assert!(decode_request("{\"req\":\"stats\",\"args\":{\"k\":\"v\",}}").is_none());
    assert!(decode_request("{\"req\":\"bad\\escape\"}").is_none());
}

#[test]
fn request_new_collects_pairs_last_wins() {
    let r = ScxStatsRequest::new(
        "stats",
        vec![
            ("b".to_string(), "1".to_string()),
            ("a".to_string(), "2".to_string()),
            ("b".to_string(), "3".to_string()),
        ],
    );
    assert_eq!(r.req, "stats");
    assert_eq!(
        r.args.entries,
        vec![
            ("a".to_string(), "2".to_string()),
            ("b".to_string(), "3".to_string())
        ]
    );
}

#[test]
fn responses_serialize_as_one_document() {
    let ok = build_resp(0, "{\"util\":42}".to_string());
    assert_eq!(
        encode_response(&ok),
        "{\"errno\":0,\"args\":{\"resp\":{\"util\":42}}}"
    );
    let err = build_resp(7, "\"x\"".to_string());
    assert_eq!(encode_response(&err), "{\"errno\":7,\"args\":{\"resp\":\"x\"}}");
}

#[test]
fn default_socket_path_joins_three_segments() {
    let (_drained, path, _reg) = ScxStatsServer::<u32>::new().prepare_launch();
    assert_eq!(path, "/var/run/scx/root/stats");
}

#[test]
fn configured_segments_are_joined() {
    let (_drained, path, _reg) = ScxStatsServer::<u32>::new()
        .set_base_path("/tmp/base/")
        .set_sched_path("sched")
        .set_stats_path("s")
        .prepare_launch();
    assert_eq!(path, "/tmp/base/sched/s");
}

#[test]
fn explicit_path_wins_over_segments() {
    let (drained, path, _reg) = ScxStatsServer::<u32>::new()
        .set_base_path("/ignored")
        .set_path("/tmp/sock")
        .prepare_launch();
    assert_eq!(path, "/tmp/sock");
    assert_eq!(drained.path, Some("/tmp/sock".to_string()));
    assert!(drained.stats_holder.entries.is_empty());
    assert!(drained.stats_meta_holder.entries.is_empty());
}

#[test]
fn absolute_segment_replaces_base() {
    let (_drained, path, _reg) = ScxStatsServer::<u32>::new()
        .set_sched_path("/abs")
        .prepare_launch();
    assert_eq!(path, "/abs/stats");
}
