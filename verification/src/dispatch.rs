//! The per-connection decisions. Each line read from a client maps to one
//! step: close on end of file, invoke a looked-up producer for `stats`,
//! or reply immediately (metadata snapshot, or an error). Invoking the
//! producer is the embedder's part; its result comes back through
//! [`finish_stats`], which builds the reply line for it. Every non-empty
//! line gets exactly one reply line, so a malformed request never costs the
//! connection.

use vstd::prelude::*;
use crate::json::{dec_int, json_string, object_text};
use crate::parse::{decode_request, spec_parse_request, str_view_map};
use crate::protocol::{build_resp, encode_response, ProducerError, ScxStatsErrno};
use crate::registry::Registry;
use crate::smap::SortedStrMap;
use crate::strutil::str_eq;

verus! {

/// Relies on libc::EINVAL: the "invalid argument" error code, 22 on Linux.
#[verifier::external_body]
fn os_invalid_arg() -> (r: i32)
    ensures
        r == 22,
{
    libc::EINVAL
}

/// The stat name a `stats` request selects: its `target` argument, or "top"
/// when the argument is absent.
pub open spec fn target_of(args: Map<Seq<char>, Seq<char>>) -> Seq<char> {
    if args.dom().contains("target"@) {
        args["target"@]
    } else {
        "top"@
    }
}

/// What one line asks of a connection.
pub enum StepSpec {
    /// End of file: the connection ends cleanly.
    Close,
    /// Invoke the producer registered under `target` with the request's
    /// full argument mapping, then reply with its result.
    Invoke { target: Seq<char>, args: Map<Seq<char>, Seq<char>> },
    /// Reply at once with this code and `resp` payload.
    Reply { errno: int, payload: Seq<char> },
}

/// The `args` object text of a reply whose only member is `resp`.
pub open spec fn resp_args_text(payload: Seq<char>) -> Seq<char> {
    seq!['{'] + json_string("resp"@) + seq![':'] + payload + seq!['}']
}

/// The full reply line for one response: the serialized document and the
/// terminating line break.
pub open spec fn reply_line(errno: int, payload: Seq<char>) -> Seq<char> {
    "{\"errno\":"@ + dec_int(errno) + ",\"args\":"@ + resp_args_text(payload) + "}"@ + "\n"@
}

/// The step a line maps to, against a registry: end of file closes; a line
/// that does not decode, an unknown command, and an unknown stat target are
/// answered with the invalid-argument code and a description; `stats`
/// dispatches to the selected producer; `stats_meta` replies with the full
/// metadata snapshot.
pub open spec fn step_of<P>(line: Seq<char>, reg: Registry<P>) -> StepSpec {
    if line.len() == 0 {
        StepSpec::Close
    } else {
        match spec_parse_request(line) {
            None => StepSpec::Reply {
                errno: 22,
                payload: json_string("malformed request line"@),
            },
            Some((req, args)) => {
                if req == "stats"@ {
                    let t = target_of(args);
                    if reg.prod_map().dom().contains(t) {
                        StepSpec::Invoke { target: t, args }
                    } else {
                        StepSpec::Reply {
                            errno: 22,
                            payload: json_string("unknown stat target "@ + t),
                        }
                    }
                } else if req == "stats_meta"@ {
                    StepSpec::Reply { errno: 0, payload: object_text(reg.stats_meta.entries@) }
                } else {
                    StepSpec::Reply { errno: 22, payload: json_string("unknown command "@ + req) }
                }
            },
        }
    }
}

/// What one line asks of a connection, as executable data.
pub enum ConnStep {
    Close,
    Invoke { target: String, args: SortedStrMap<String> },
    Reply { line: String },
}

/// `r` carries exactly the step `m` describes; a reply carries the full
/// serialized line.
pub open spec fn models(r: ConnStep, m: StepSpec) -> bool {
    match (r, m) {
        (ConnStep::Close, StepSpec::Close) => true,
        (
            ConnStep::Invoke { target: t, args: a },
            StepSpec::Invoke { target: st, args: sa },
        ) => t@ == st && a.wf() && str_view_map(a.map()) == sa,
        (ConnStep::Reply { line }, StepSpec::Reply { errno, payload }) => line@ == reply_line(
            errno,
            payload,
        ),
        _ => false,
    }
}

/// The reply line with `payload` as the `resp` value.
fn make_reply_line(errno: i32, payload: String) -> (r: String)
    ensures
        r@ == reply_line(errno as int, payload@),
{
    let ghost p = payload@;
    let resp = build_resp(errno, payload);
    let mut out = encode_response(&resp);
    proof {
        assert(object_text(resp.args.entries@) =~= resp_args_text(p));
    }
    out.append("\n");
    proof {
        assert(out@ =~= reply_line(errno as int, p));
    }
    out
}

/// The JSON string document for an error description.
fn error_payload(msg: &str) -> (r: String)
    ensures
        r@ == json_string(msg@),
{
    let mut out = String::new();
    crate::json::push_json_string(&mut out, msg);
    out
}

/// Decides one connection step from one read line. An empty read is end of
/// file; everything else is answered, so the step for a non-empty line is
/// never `Close`.
pub fn conn_step<P>(line: &str, reg: &Registry<P>) -> (r: ConnStep)
    requires
        reg.wf(),
    ensures
        models(r, step_of(line@, *reg)),
{
    if line.unicode_len() == 0 {
        return ConnStep::Close;
    }
    match decode_request(line) {
        None => {
            let payload = error_payload("malformed request line");
            ConnStep::Reply { line: make_reply_line(os_invalid_arg(), payload) }
        },
        Some((req, args)) => {
            if str_eq(req.as_str(), "stats") {
                let target: String = match args.get("target") {
                    Some(v) => v.clone(),
                    None => "top".to_owned(),
                };
                if reg.lookup_producer(target.as_str()).is_some() {
                    ConnStep::Invoke { target, args }
                } else {
                    let mut msg = "unknown stat target ".to_owned();
                    msg.append(target.as_str());
                    let payload = error_payload(msg.as_str());
                    ConnStep::Reply { line: make_reply_line(os_invalid_arg(), payload) }
                }
            } else if str_eq(req.as_str(), "stats_meta") {
                let payload = reg.meta_payload();
                ConnStep::Reply { line: make_reply_line(0, payload) }
            } else {
                let mut msg = "unknown command ".to_owned();
                msg.append(req.as_str());
                let payload = error_payload(msg.as_str());
                ConnStep::Reply { line: make_reply_line(os_invalid_arg(), payload) }
            }
        },
    }
}

/// The response's code for a producer failure: an explicit non-zero code
/// wins, anything else is the invalid-argument default.
pub open spec fn errno_of(code: Option<ScxStatsErrno>) -> int {
    match code {
        Some(e) => if e.0 != 0 {
            e.0 as int
        } else {
            22
        },
        None => 22,
    }
}

/// The reply line a producer's result maps to: its JSON value verbatim
/// under errno 0 on success, else its description under the resolved code.
pub open spec fn finish_text(result: Result<String, ProducerError>) -> Seq<char> {
    match result {
        Ok(v) => reply_line(0, v@),
        Err(e) => reply_line(errno_of(e.code), json_string(e.msg@)),
    }
}

/// Builds the reply line for a producer invocation's result. The success
/// payload must be a single-line document, as a JSON serializer emits.
pub fn finish_stats(result: Result<String, ProducerError>) -> (r: String)
    requires
        result matches Ok(v) ==> forall|i: int| 0 <= i < v@.len() ==> v@[i] != '\n',
    ensures
        r@ == finish_text(result),
{
    match result {
        Ok(v) => make_reply_line(0, v),
        Err(e) => {
            let payload = error_payload(e.msg.as_str());
            let code: i32 = match &e.code {
                Some(c) => if c.0 != 0 {
                    c.0
                } else {
                    os_invalid_arg()
                },
                None => os_invalid_arg(),
            };
            make_reply_line(code, payload)
        },
    }
}

} // verus!
