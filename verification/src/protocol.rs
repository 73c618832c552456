//! The wire envelope: the decoded request, the response, and the response's
//! one-line JSON serialization. A response's `args` values are already JSON
//! text, so the whole document is produced here by concatenation.

use vstd::prelude::*;
use crate::json::{dec_int, object_text, push_dec_i32, push_object};
use crate::parse::str_view_map;
use crate::smap::SortedStrMap;

verus! {

/// One decoded request: the command and its string-to-string arguments.
pub struct ScxStatsRequest {
    pub req: String,
    pub args: SortedStrMap<String>,
}

/// The mapping a sequence of argument pairs builds up, a later pair with the
/// same key replacing the earlier one.
pub open spec fn pairs_map(pairs: Seq<(String, String)>) -> Map<Seq<char>, Seq<char>>
    decreases pairs.len(),
{
    if pairs.len() == 0 {
        Map::empty()
    } else {
        pairs_map(pairs.drop_last()).insert(pairs.last().0@, pairs.last().1@)
    }
}

impl ScxStatsRequest {
    /// The argument entries are sorted by name.
    pub open spec fn wf(self) -> bool {
        self.args.wf()
    }

    /// The argument mapping, by character content.
    pub open spec fn args_map(self) -> Map<Seq<char>, Seq<char>> {
        str_view_map(self.args.map())
    }

    /// A request from a command and argument pairs; a later pair for the
    /// same key replaces the earlier one.
    pub fn new(req: &str, args: Vec<(String, String)>) -> (r: Self)
        ensures
            r.wf(),
            r.req@ == req@,
            r.args_map() == pairs_map(args@),
    {
        let mut m: SortedStrMap<String> = SortedStrMap::new();
        proof {
            assert(str_view_map(m.map()) =~= pairs_map(args@.take(0)));
        }
        let n = args.len();
        let mut i: usize = 0;
        while i < n
            invariant
                n == args@.len(),
                i <= n,
                m.wf(),
                str_view_map(m.map()) == pairs_map(args@.take(i as int)),
            decreases n - i,
        {
            let k = args[i].0.clone();
            let v = args[i].1.clone();
            let ghost before = m.map();
            m.insert(k, v);
            i = i + 1;
            proof {
                assert(args@.take(i as int).drop_last() =~= args@.take(i - 1));
                assert(args@.take(i as int).last() == args@[i - 1]);
                assert(str_view_map(before.insert(args@[i - 1].0@, args@[i - 1].1)) =~= str_view_map(
                    before,
                ).insert(args@[i - 1].0@, args@[i - 1].1@));
            }
        }
        proof {
            assert(args@.take(n as int) =~= args@);
        }
        ScxStatsRequest { req: req.to_owned(), args: m }
    }
}

/// One response: an OS-style error code, zero meaning success, and a mapping
/// whose values are JSON text; by convention the only populated key is
/// `resp`.
pub struct ScxStatsResponse {
    pub errno: i32,
    pub args: SortedStrMap<String>,
}

impl ScxStatsResponse {
    pub open spec fn wf(self) -> bool {
        self.args.wf()
    }
}

/// An OS-style error code, as a producer may attach to a failure to choose
/// the response's `errno`.
pub struct ScxStatsErrno(pub i32);

/// A failed producer invocation: an optional explicit OS-style code and a
/// human-readable description.
pub struct ProducerError {
    pub code: Option<ScxStatsErrno>,
    pub msg: String,
}

/// The serialized response document: the error code, then the argument
/// object, whose values stand in the text as they are.
pub open spec fn response_text(errno: int, args: Seq<(String, String)>) -> Seq<char> {
    "{\"errno\":"@ + dec_int(errno) + ",\"args\":"@ + object_text(args) + "}"@
}

/// A response whose only argument is `resp` holding `payload`.
pub fn build_resp(errno: i32, payload: String) -> (r: ScxStatsResponse)
    ensures
        r.wf(),
        r.errno == errno,
        r.args.entries@.len() == 1,
        r.args.entries@[0].0@ == "resp"@,
        r.args.entries@[0].1 == payload,
{
    let mut v: Vec<(String, String)> = Vec::new();
    v.push(("resp".to_owned(), payload));
    ScxStatsResponse { errno, args: SortedStrMap { entries: v } }
}

/// Serializes a response as one JSON document without a line break.
pub fn encode_response(resp: &ScxStatsResponse) -> (r: String)
    ensures
        r@ == response_text(resp.errno as int, resp.args.entries@),
{
    let mut out = "{\"errno\":".to_owned();
    push_dec_i32(&mut out, resp.errno);
    out.append(",\"args\":");
    push_object(&mut out, &resp.args.entries);
    out.append("}");
    proof {
        assert(out@ =~= response_text(resp.errno as int, resp.args.entries@));
    }
    out
}

} // verus!
