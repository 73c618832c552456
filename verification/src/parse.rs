//! Decoding one request line. A request is a single JSON object
//! `{"req": <string>, "args": {<string>: <string>, ...}}`: the two members in
//! either order, `args` optional and defaulting to empty, string escapes
//! (including `\u` with surrogate pairs) handled, and nothing but whitespace
//! around and after the object. The spec functions are the grammar, written
//! as a deterministic recursive-descent parse over the line's characters; the
//! executable functions mirror them step for step.
//!
//! The member-list parses carry a step budget so that their recursion is
//! visibly bounded; it is set to the line length, and
//! [`lemma_parse_request_budget`] shows that every budget at least that
//! large decodes every line to the same result, so the budget never cuts a
//! parse short.

use vstd::prelude::*;
use crate::smap::SortedStrMap;
use crate::strutil::{char_from_u32, chars_to_string, str_eq, to_chars};

verus! {

/// JSON whitespace.
pub open spec fn is_ws(c: char) -> bool {
    c == ' ' || c == '\t' || c == '\n' || c == '\r'
}

/// The first position at or after `i` that does not hold whitespace.
pub open spec fn skip_ws(s: Seq<char>, i: int) -> int
    recommends
        0 <= i <= s.len(),
    decreases s.len() - i,
{
    if 0 <= i < s.len() && is_ws(s[i]) {
        skip_ws(s, i + 1)
    } else {
        i
    }
}

/// A hexadecimal digit.
pub open spec fn is_hex(c: char) -> bool {
    (48 <= c as u32 && c as u32 <= 57) || (97 <= c as u32 && c as u32 <= 102) || (65 <= c as u32
        && c as u32 <= 70)
}

/// The value of a hexadecimal digit.
pub open spec fn hex_val(c: char) -> u32
    recommends
        is_hex(c),
{
    if 48 <= c as u32 && c as u32 <= 57 {
        (c as u32 - 48) as u32
    } else if 97 <= c as u32 && c as u32 <= 102 {
        (c as u32 - 87) as u32
    } else {
        (c as u32 - 55) as u32
    }
}

/// Four hexadecimal digits at `i`, as a code unit.
pub open spec fn parse_hex4(s: Seq<char>, i: int) -> Option<u32>
    recommends
        0 <= i <= s.len(),
{
    if s.len() - i >= 4 && is_hex(s[i]) && is_hex(s[i + 1]) && is_hex(s[i + 2]) && is_hex(
        s[i + 3],
    ) {
        Some(
            (hex_val(s[i]) * 4096 + hex_val(s[i + 1]) * 256 + hex_val(s[i + 2]) * 16 + hex_val(
                s[i + 3],
            )) as u32,
        )
    } else {
        None
    }
}

/// The rest of a JSON string after the opening quote, starting at `i`, with
/// `acc` the characters read so far: returns the string's characters and the
/// position after the closing quote. A raw control character, a bad escape,
/// a lone surrogate or an unterminated string fails.
pub open spec fn parse_str_body(s: Seq<char>, i: int, acc: Seq<char>) -> Option<(Seq<char>, int)>
    recommends
        0 <= i <= s.len(),
    decreases s.len() - i,
{
    if i >= s.len() {
        None
    } else if s[i] == '"' {
        Some((acc, i + 1))
    } else if s[i] == '\\' {
        if i + 1 >= s.len() {
            None
        } else {
            let e = s[i + 1];
            if e == '"' || e == '\\' || e == '/' {
                parse_str_body(s, i + 2, acc.push(e))
            } else if e == 'b' {
                parse_str_body(s, i + 2, acc.push('\u{8}'))
            } else if e == 'f' {
                parse_str_body(s, i + 2, acc.push('\u{c}'))
            } else if e == 'n' {
                parse_str_body(s, i + 2, acc.push('\n'))
            } else if e == 'r' {
                parse_str_body(s, i + 2, acc.push('\r'))
            } else if e == 't' {
                parse_str_body(s, i + 2, acc.push('\t'))
            } else if e == 'u' {
                match parse_hex4(s, i + 2) {
                    None => None,
                    Some(n) => if 0xD800 <= n && n <= 0xDBFF {
                        if s.len() - (i + 6) >= 2 && s[i + 6] == '\\' && s[i + 7] == 'u' {
                            match parse_hex4(s, i + 8) {
                                None => None,
                                Some(lo) => if 0xDC00 <= lo && lo <= 0xDFFF {
                                    let cp = (0x10000 + (n - 0xD800) * 0x400 + (lo
                                        - 0xDC00)) as u32;
                                    parse_str_body(s, i + 12, acc.push(cp as char))
                                } else {
                                    None
                                },
                            }
                        } else {
                            None
                        }
                    } else if 0xDC00 <= n && n <= 0xDFFF {
                        None
                    } else {
                        parse_str_body(s, i + 6, acc.push(n as char))
                    },
                }
            } else {
                None
            }
        }
    } else if (s[i] as u32) < 32 {
        None
    } else {
        parse_str_body(s, i + 1, acc.push(s[i]))
    }
}

/// A JSON string starting at `i` with its opening quote.
pub open spec fn parse_string(s: Seq<char>, i: int) -> Option<(Seq<char>, int)>
    recommends
        0 <= i <= s.len(),
{
    if 0 <= i < s.len() && s[i] == '"' {
        parse_str_body(s, i + 1, Seq::empty())
    } else {
        None
    }
}

/// The members of the `args` object from the first key on: string keys,
/// string values, a later duplicate key replacing the earlier one.
pub open spec fn parse_args_members(
    s: Seq<char>,
    i: int,
    acc: Map<Seq<char>, Seq<char>>,
    fuel: nat,
) -> Option<(Map<Seq<char>, Seq<char>>, int)>
    recommends
        0 <= i <= s.len(),
    decreases fuel,
{
    if fuel == 0 {
        None
    } else {
        match parse_string(s, i) {
            None => None,
            Some((k, i2)) => {
                let j = skip_ws(s, i2);
                if 0 <= j < s.len() && s[j] == ':' {
                    let j2 = skip_ws(s, j + 1);
                    match parse_string(s, j2) {
                        None => None,
                        Some((v, i3)) => {
                            let j3 = skip_ws(s, i3);
                            if 0 <= j3 < s.len() && s[j3] == ',' {
                                parse_args_members(
                                    s,
                                    skip_ws(s, j3 + 1),
                                    acc.insert(k, v),
                                    (fuel - 1) as nat,
                                )
                            } else if 0 <= j3 < s.len() && s[j3] == '}' {
                                Some((acc.insert(k, v), j3 + 1))
                            } else {
                                None
                            }
                        },
                    }
                } else {
                    None
                }
            },
        }
    }
}

/// The `args` object starting at its opening brace.
pub open spec fn parse_args(s: Seq<char>, i: int) -> Option<(Map<Seq<char>, Seq<char>>, int)>
    recommends
        0 <= i <= s.len(),
{
    if 0 <= i < s.len() && s[i] == '{' {
        let j = skip_ws(s, i + 1);
        if 0 <= j < s.len() && s[j] == '}' {
            Some((Map::empty(), j + 1))
        } else {
            parse_args_members(s, j, Map::empty(), s.len() as nat)
        }
    } else {
        None
    }
}

/// The members of the request object from the first key on. Exactly the
/// members `req` (a string) and `args` (an object of strings) are accepted,
/// in either order, each at most once.
pub open spec fn parse_top_members(
    s: Seq<char>,
    i: int,
    req: Option<Seq<char>>,
    args: Option<Map<Seq<char>, Seq<char>>>,
    fuel: nat,
) -> Option<(Seq<char>, Map<Seq<char>, Seq<char>>, int)>
    recommends
        0 <= i <= s.len(),
    decreases fuel, 0int,
{
    if fuel == 0 {
        None
    } else {
        match parse_string(s, i) {
            None => None,
            Some((key, i2)) => {
                let j = skip_ws(s, i2);
                if !(0 <= j < s.len() && s[j] == ':') {
                    None
                } else {
                    let j2 = skip_ws(s, j + 1);
                    if key == "req"@ {
                        if req is Some {
                            None
                        } else {
                            match parse_string(s, j2) {
                                None => None,
                                Some((r, i3)) => parse_top_after_member(
                                    s,
                                    i3,
                                    Some(r),
                                    args,
                                    (fuel - 1) as nat,
                                ),
                            }
                        }
                    } else if key == "args"@ {
                        if args is Some {
                            None
                        } else {
                            match parse_args(s, j2) {
                                None => None,
                                Some((m, i3)) => parse_top_after_member(
                                    s,
                                    i3,
                                    req,
                                    Some(m),
                                    (fuel - 1) as nat,
                                ),
                            }
                        }
                    } else {
                        None
                    }
                }
            },
        }
    }
}

/// After one request member: a comma continues the member list, a closing
/// brace ends the object, which must by then hold `req`.
pub open spec fn parse_top_after_member(
    s: Seq<char>,
    i: int,
    req: Option<Seq<char>>,
    args: Option<Map<Seq<char>, Seq<char>>>,
    fuel: nat,
) -> Option<(Seq<char>, Map<Seq<char>, Seq<char>>, int)>
    recommends
        0 <= i <= s.len(),
    decreases fuel, 1int,
{
    let j = skip_ws(s, i);
    if 0 <= j < s.len() && s[j] == ',' {
        parse_top_members(s, skip_ws(s, j + 1), req, args, fuel)
    } else if 0 <= j < s.len() && s[j] == '}' {
        match req {
            Some(r) => {
                let m = match args {
                    Some(m) => m,
                    None => Map::empty(),
                };
                Some((r, m, j + 1))
            },
            None => None,
        }
    } else {
        None
    }
}

/// The request a whole line decodes to: the object, nothing but whitespace
/// after it, a missing `args` member read as empty.
pub open spec fn spec_parse_request(s: Seq<char>) -> Option<
    (Seq<char>, Map<Seq<char>, Seq<char>>),
> {
    let i = skip_ws(s, 0);
    if 0 <= i < s.len() && s[i] == '{' {
        let j = skip_ws(s, i + 1);
        match parse_top_members(s, j, None, None, s.len() as nat) {
            None => None,
            Some((r, m, e)) => if skip_ws(s, e) == s.len() {
                Some((r, m))
            } else {
                None
            },
        }
    } else {
        None
    }
}

/// Whitespace skipping stays inside the line.
pub proof fn lemma_skip_ws_bounds(s: Seq<char>, i: int)
    requires
        0 <= i <= s.len(),
    ensures
        i <= skip_ws(s, i) <= s.len(),
    decreases s.len() - i,
{
    if i < s.len() && is_ws(s[i]) {
        lemma_skip_ws_bounds(s, i + 1);
    }
}

/// A parsed string body ends past where it began and inside the line.
proof fn lemma_parse_str_body_advances(s: Seq<char>, i: int, acc: Seq<char>)
    requires
        0 <= i <= s.len(),
    ensures
        parse_str_body(s, i, acc) matches Some(q) ==> i < q.1 <= s.len(),
    decreases s.len() - i,
{
    if i >= s.len() {
    } else if s[i] == '"' {
    } else if s[i] == '\\' {
        if i + 1 < s.len() {
            let e = s[i + 1];
            if e == '"' || e == '\\' || e == '/' {
                lemma_parse_str_body_advances(s, i + 2, acc.push(e));
            } else if e == 'b' {
                lemma_parse_str_body_advances(s, i + 2, acc.push('\u{8}'));
            } else if e == 'f' {
                lemma_parse_str_body_advances(s, i + 2, acc.push('\u{c}'));
            } else if e == 'n' {
                lemma_parse_str_body_advances(s, i + 2, acc.push('\n'));
            } else if e == 'r' {
                lemma_parse_str_body_advances(s, i + 2, acc.push('\r'));
            } else if e == 't' {
                lemma_parse_str_body_advances(s, i + 2, acc.push('\t'));
            } else if e == 'u' {
                match parse_hex4(s, i + 2) {
                    None => {},
                    Some(n) => {
                        if 0xD800 <= n && n <= 0xDBFF {
                            if s.len() - (i + 6) >= 2 && s[i + 6] == '\\' && s[i + 7] == 'u' {
                                match parse_hex4(s, i + 8) {
                                    None => {},
                                    Some(lo) => {
                                        if 0xDC00 <= lo && lo <= 0xDFFF {
                                            let cp = (0x10000 + (n - 0xD800) * 0x400 + (lo
                                                - 0xDC00)) as u32;
                                            lemma_parse_str_body_advances(
                                                s,
                                                i + 12,
                                                acc.push(cp as char),
                                            );
                                        }
                                    },
                                }
                            }
                        } else if 0xDC00 <= n && n <= 0xDFFF {
                        } else {
                            lemma_parse_str_body_advances(s, i + 6, acc.push(n as char));
                        }
                    },
                }
            }
        }
    } else if (s[i] as u32) < 32 {
    } else {
        lemma_parse_str_body_advances(s, i + 1, acc.push(s[i]));
    }
}

/// A parsed string spans at least its two quotes and ends inside the line.
proof fn lemma_parse_string_advances(s: Seq<char>, i: int)
    requires
        0 <= i <= s.len(),
    ensures
        parse_string(s, i) matches Some(q) ==> i + 2 <= q.1 <= s.len(),
{
    if 0 <= i < s.len() && s[i] == '"' {
        lemma_parse_str_body_advances(s, i + 1, Seq::empty());
    }
}

/// A parsed member list ends past where it began and inside the line.
proof fn lemma_args_members_advances(
    s: Seq<char>,
    i: int,
    acc: Map<Seq<char>, Seq<char>>,
    fuel: nat,
)
    requires
        0 <= i <= s.len(),
    ensures
        parse_args_members(s, i, acc, fuel) matches Some(q) ==> i < q.1 <= s.len(),
    decreases fuel,
{
    if fuel > 0 {
        lemma_parse_string_advances(s, i);
        match parse_string(s, i) {
            None => {},
            Some((k, i2)) => {
                lemma_skip_ws_bounds(s, i2);
                let j = skip_ws(s, i2);
                if 0 <= j < s.len() && s[j] == ':' {
                    lemma_skip_ws_bounds(s, j + 1);
                    let j2 = skip_ws(s, j + 1);
                    lemma_parse_string_advances(s, j2);
                    match parse_string(s, j2) {
                        None => {},
                        Some((v, i3)) => {
                            lemma_skip_ws_bounds(s, i3);
                            let j3 = skip_ws(s, i3);
                            if 0 <= j3 < s.len() && s[j3] == ',' {
                                lemma_skip_ws_bounds(s, j3 + 1);
                                lemma_args_members_advances(
                                    s,
                                    skip_ws(s, j3 + 1),
                                    acc.insert(k, v),
                                    (fuel - 1) as nat,
                                );
                            }
                        },
                    }
                }
            },
        }
    }
}

/// A parsed args object ends past its opening brace and inside the line.
proof fn lemma_parse_args_advances(s: Seq<char>, i: int)
    requires
        0 <= i <= s.len(),
    ensures
        parse_args(s, i) matches Some(q) ==> i + 2 <= q.1 <= s.len(),
{
    if 0 <= i < s.len() && s[i] == '{' {
        lemma_skip_ws_bounds(s, i + 1);
        let j = skip_ws(s, i + 1);
        if 0 <= j < s.len() && s[j] == '}' {
        } else {
            lemma_args_members_advances(s, j, Map::empty(), s.len() as nat);
        }
    }
}

/// The member list's step budget is harmless: any budget of at least one
/// step per remaining character parses identically.
pub proof fn lemma_args_members_budget(
    s: Seq<char>,
    i: int,
    acc: Map<Seq<char>, Seq<char>>,
    fuel1: nat,
    fuel2: nat,
)
    requires
        0 <= i <= s.len(),
        s.len() - i + 1 <= fuel1 <= fuel2,
    ensures
        parse_args_members(s, i, acc, fuel1) == parse_args_members(s, i, acc, fuel2),
    decreases fuel1,
{
    lemma_parse_string_advances(s, i);
    match parse_string(s, i) {
        None => {},
        Some((k, i2)) => {
            lemma_skip_ws_bounds(s, i2);
            let j = skip_ws(s, i2);
            if 0 <= j < s.len() && s[j] == ':' {
                lemma_skip_ws_bounds(s, j + 1);
                let j2 = skip_ws(s, j + 1);
                lemma_parse_string_advances(s, j2);
                match parse_string(s, j2) {
                    None => {},
                    Some((v, i3)) => {
                        lemma_skip_ws_bounds(s, i3);
                        let j3 = skip_ws(s, i3);
                        if 0 <= j3 < s.len() && s[j3] == ',' {
                            lemma_skip_ws_bounds(s, j3 + 1);
                            lemma_args_members_budget(
                                s,
                                skip_ws(s, j3 + 1),
                                acc.insert(k, v),
                                (fuel1 - 1) as nat,
                                (fuel2 - 1) as nat,
                            );
                        }
                    },
                }
            }
        },
    }
}

/// The request member list's step budget is harmless in the same way.
pub proof fn lemma_top_members_budget(
    s: Seq<char>,
    i: int,
    req: Option<Seq<char>>,
    args: Option<Map<Seq<char>, Seq<char>>>,
    fuel1: nat,
    fuel2: nat,
)
    requires
        0 <= i <= s.len(),
        s.len() - i + 1 <= fuel1 <= fuel2,
    ensures
        parse_top_members(s, i, req, args, fuel1) == parse_top_members(s, i, req, args, fuel2),
    decreases fuel1, 0int,
{
    lemma_parse_string_advances(s, i);
    match parse_string(s, i) {
        None => {},
        Some((key, i2)) => {
            lemma_skip_ws_bounds(s, i2);
            let j = skip_ws(s, i2);
            if 0 <= j < s.len() && s[j] == ':' {
                lemma_skip_ws_bounds(s, j + 1);
                let j2 = skip_ws(s, j + 1);
                if key == "req"@ {
                    if req is None {
                        lemma_parse_string_advances(s, j2);
                        match parse_string(s, j2) {
                            None => {},
                            Some((r, i3)) => {
                                lemma_top_after_budget(
                                    s,
                                    i3,
                                    Some(r),
                                    args,
                                    (fuel1 - 1) as nat,
                                    (fuel2 - 1) as nat,
                                );
                            },
                        }
                    }
                } else if key == "args"@ {
                    if args is None {
                        lemma_parse_args_advances(s, j2);
                        match parse_args(s, j2) {
                            None => {},
                            Some((m, i3)) => {
                                lemma_top_after_budget(
                                    s,
                                    i3,
                                    req,
                                    Some(m),
                                    (fuel1 - 1) as nat,
                                    (fuel2 - 1) as nat,
                                );
                            },
                        }
                    }
                }
            }
        },
    }
}

/// After one member, the remaining budget still suffices.
pub proof fn lemma_top_after_budget(
    s: Seq<char>,
    i: int,
    req: Option<Seq<char>>,
    args: Option<Map<Seq<char>, Seq<char>>>,
    fuel1: nat,
    fuel2: nat,
)
    requires
        0 <= i <= s.len(),
        s.len() - i + 1 <= fuel1 <= fuel2,
    ensures
        parse_top_after_member(s, i, req, args, fuel1) == parse_top_after_member(
            s,
            i,
            req,
            args,
            fuel2,
        ),
    decreases fuel1, 1int,
{
    lemma_skip_ws_bounds(s, i);
    let j = skip_ws(s, i);
    if 0 <= j < s.len() && s[j] == ',' {
        lemma_skip_ws_bounds(s, j + 1);
        lemma_top_members_budget(s, skip_ws(s, j + 1), req, args, fuel1, fuel2);
    }
}

/// The budget `spec_parse_request` hands the member list, the line's length,
/// never cuts a parse short: every larger budget decodes every line to the
/// same result.
pub proof fn lemma_parse_request_budget(s: Seq<char>, fuel: nat)
    requires
        s.len() <= fuel,
    ensures
        ({
            let i = skip_ws(s, 0);
            (0 <= i < s.len() && s[i] == '{') ==> {
                let j = skip_ws(s, i + 1);
                parse_top_members(s, j, None, None, fuel) == parse_top_members(
                    s,
                    j,
                    None,
                    None,
                    s.len() as nat,
                )
            }
        }),
{
    lemma_skip_ws_bounds(s, 0);
    let i = skip_ws(s, 0);
    if 0 <= i < s.len() && s[i] == '{' {
        lemma_skip_ws_bounds(s, i + 1);
        let j = skip_ws(s, i + 1);
        lemma_top_members_budget(s, j, None, None, s.len() as nat, fuel);
    }
}

/// The view of a map of strings: each value read as its characters.
pub open spec fn str_view_map(m: Map<Seq<char>, String>) -> Map<Seq<char>, Seq<char>> {
    m.map_values(|v: String| v@)
}

proof fn lemma_str_view_insert(m: Map<Seq<char>, String>, k: Seq<char>, v: String)
    ensures
        str_view_map(m.insert(k, v)) == str_view_map(m).insert(k, v@),
{
    assert(str_view_map(m.insert(k, v)) =~= str_view_map(m).insert(k, v@));
}

fn ws_end(s: &Vec<char>, i: usize) -> (r: usize)
    requires
        i <= s@.len(),
    ensures
        r as int == skip_ws(s@, i as int),
        i <= r <= s@.len(),
    decreases s@.len() - i,
{
    if i < s.len() {
        let c = s[i];
        if c == ' ' || c == '\t' || c == '\n' || c == '\r' {
            return ws_end(s, i + 1);
        }
    }
    i
}

fn hex_digit_val(c: char) -> (r: Option<u32>)
    ensures
        r == (if is_hex(c) {
            Some(hex_val(c))
        } else {
            None::<u32>
        }),
        r matches Some(n) ==> n < 16,
{
    let u = c as u32;
    if 48 <= u && u <= 57 {
        Some(u - 48)
    } else if 97 <= u && u <= 102 {
        Some(u - 87)
    } else if 65 <= u && u <= 70 {
        Some(u - 55)
    } else {
        None
    }
}

fn hex4(s: &Vec<char>, i: usize) -> (r: Option<u32>)
    requires
        i <= s@.len(),
    ensures
        r == parse_hex4(s@, i as int),
        r matches Some(n) ==> n < 0x10000,
{
    if s.len() - i < 4 {
        return None;
    }
    let a = hex_digit_val(s[i]);
    let b = hex_digit_val(s[i + 1]);
    let c = hex_digit_val(s[i + 2]);
    let d = hex_digit_val(s[i + 3]);
    match (a, b, c, d) {
        (Some(x), Some(y), Some(z), Some(w)) => Some(x * 4096 + y * 256 + z * 16 + w),
        _ => None,
    }
}

fn p_str_body(s: &Vec<char>, i: usize, acc: Vec<char>) -> (r: Option<(Vec<char>, usize)>)
    requires
        i <= s@.len(),
    ensures
        ({
            let m = parse_str_body(s@, i as int, acc@);
            match r {
                Some(p) => m matches Some(q) && p.0@ == q.0 && p.1 as int == q.1 && p.1
                    <= s@.len(),
                None => m is None,
            }
        }),
    decreases s@.len() - i,
{
    let mut acc = acc;
    if i >= s.len() {
        return None;
    }
    let c = s[i];
    if c == '"' {
        Some((acc, i + 1))
    } else if c == '\\' {
        if i + 1 >= s.len() {
            return None;
        }
        let e = s[i + 1];
        if e == '"' || e == '\\' || e == '/' {
            acc.push(e);
            p_str_body(s, i + 2, acc)
        } else if e == 'b' {
            acc.push('\u{8}');
            p_str_body(s, i + 2, acc)
        } else if e == 'f' {
            acc.push('\u{c}');
            p_str_body(s, i + 2, acc)
        } else if e == 'n' {
            acc.push('\n');
            p_str_body(s, i + 2, acc)
        } else if e == 'r' {
            acc.push('\r');
            p_str_body(s, i + 2, acc)
        } else if e == 't' {
            acc.push('\t');
            p_str_body(s, i + 2, acc)
        } else if e == 'u' {
            match hex4(s, i + 2) {
                None => None,
                Some(n) => {
                    if 0xD800 <= n && n <= 0xDBFF {
                        if s.len() - (i + 6) >= 2 && s[i + 6] == '\\' && s[i + 7] == 'u' {
                            match hex4(s, i + 8) {
                                None => None,
                                Some(lo) => {
                                    if 0xDC00 <= lo && lo <= 0xDFFF {
                                        let cp = 0x10000 + (n - 0xD800) * 0x400 + (lo - 0xDC00);
                                        match char_from_u32(cp) {
                                            Some(ch) => {
                                                acc.push(ch);
                                                p_str_body(s, i + 12, acc)
                                            },
                                            None => {
                                                proof {
                                                    assert(false);
                                                }
                                                None
                                            },
                                        }
                                    } else {
                                        None
                                    }
                                },
                            }
                        } else {
                            None
                        }
                    } else if 0xDC00 <= n && n <= 0xDFFF {
                        None
                    } else {
                        match char_from_u32(n) {
                            Some(ch) => {
                                acc.push(ch);
                                p_str_body(s, i + 6, acc)
                            },
                            None => {
                                proof {
                                    assert(false);
                                }
                                None
                            },
                        }
                    }
                },
            }
        } else {
            None
        }
    } else if (c as u32) < 32 {
        None
    } else {
        acc.push(c);
        p_str_body(s, i + 1, acc)
    }
}

fn p_string(s: &Vec<char>, i: usize) -> (r: Option<(Vec<char>, usize)>)
    requires
        i <= s@.len(),
    ensures
        ({
            let m = parse_string(s@, i as int);
            match r {
                Some(p) => m matches Some(q) && p.0@ == q.0 && p.1 as int == q.1 && p.1
                    <= s@.len(),
                None => m is None,
            }
        }),
{
    if i < s.len() && s[i] == '"' {
        p_str_body(s, i + 1, Vec::new())
    } else {
        None
    }
}

fn p_args_members(s: &Vec<char>, i: usize, acc: SortedStrMap<String>, fuel: usize) -> (r: Option<
    (SortedStrMap<String>, usize),
>)
    requires
        i <= s@.len(),
        acc.wf(),
    ensures
        ({
            let m = parse_args_members(s@, i as int, str_view_map(acc.map()), fuel as nat);
            match r {
                Some(p) => m matches Some(q) && p.0.wf() && str_view_map(p.0.map()) == q.0 && p.1
                    as int == q.1 && p.1 <= s@.len(),
                None => m is None,
            }
        }),
    decreases fuel,
{
    let mut acc = acc;
    if fuel == 0 {
        return None;
    }
    match p_string(s, i) {
        None => None,
        Some((kc, i2)) => {
            let j = ws_end(s, i2);
            if j < s.len() && s[j] == ':' {
                let j2 = ws_end(s, j + 1);
                match p_string(s, j2) {
                    None => None,
                    Some((vc, i3)) => {
                        let k = chars_to_string(&kc);
                        let v = chars_to_string(&vc);
                        let j3 = ws_end(s, i3);
                        let ghost accm = str_view_map(acc.map());
                        proof {
                            lemma_str_view_insert(acc.map(), k@, v);
                        }
                        if j3 < s.len() && s[j3] == ',' {
                            acc.insert(k, v);
                            p_args_members(s, ws_end(s, j3 + 1), acc, fuel - 1)
                        } else if j3 < s.len() && s[j3] == '}' {
                            acc.insert(k, v);
                            Some((acc, j3 + 1))
                        } else {
                            None
                        }
                    },
                }
            } else {
                None
            }
        },
    }
}

fn p_args(s: &Vec<char>, i: usize) -> (r: Option<(SortedStrMap<String>, usize)>)
    requires
        i <= s@.len(),
    ensures
        ({
            let m = parse_args(s@, i as int);
            match r {
                Some(p) => m matches Some(q) && p.0.wf() && str_view_map(p.0.map()) == q.0 && p.1
                    as int == q.1 && p.1 <= s@.len(),
                None => m is None,
            }
        }),
{
    if i < s.len() && s[i] == '{' {
        let j = ws_end(s, i + 1);
        if j < s.len() && s[j] == '}' {
            let empty: SortedStrMap<String> = SortedStrMap::new();
            proof {
                assert(str_view_map(empty.map()) =~= Map::<Seq<char>, Seq<char>>::empty());
            }
            Some((empty, j + 1))
        } else {
            let empty: SortedStrMap<String> = SortedStrMap::new();
            proof {
                assert(str_view_map(empty.map()) =~= Map::<Seq<char>, Seq<char>>::empty());
            }
            p_args_members(s, j, empty, s.len())
        }
    } else {
        None
    }
}

spec fn opt_str_view(r: Option<String>) -> Option<Seq<char>> {
    match r {
        Some(v) => Some(v@),
        None => None,
    }
}

spec fn opt_map_view(r: Option<SortedStrMap<String>>) -> Option<Map<Seq<char>, Seq<char>>> {
    match r {
        Some(m) => Some(str_view_map(m.map())),
        None => None,
    }
}

spec fn args_opt_wf(r: Option<SortedStrMap<String>>) -> bool {
    match r {
        Some(m) => m.wf(),
        None => true,
    }
}

fn p_top_members(
    s: &Vec<char>,
    i: usize,
    req: Option<String>,
    args: Option<SortedStrMap<String>>,
    fuel: usize,
) -> (r: Option<(String, SortedStrMap<String>, usize)>)
    requires
        i <= s@.len(),
        args_opt_wf(args),
    ensures
        ({
            let m = parse_top_members(s@, i as int, opt_str_view(req), opt_map_view(args), fuel as nat);
            match r {
                Some(p) => m matches Some(q) && p.0@ == q.0 && p.1.wf() && str_view_map(p.1.map())
                    == q.1 && p.2 as int == q.2 && p.2 <= s@.len(),
                None => m is None,
            }
        }),
    decreases fuel, 0int,
{
    if fuel == 0 {
        return None;
    }
    match p_string(s, i) {
        None => None,
        Some((keyc, i2)) => {
            let j = ws_end(s, i2);
            if !(j < s.len() && s[j] == ':') {
                None
            } else {
                let j2 = ws_end(s, j + 1);
                let key = chars_to_string(&keyc);
                if str_eq(key.as_str(), "req") {
                    if req.is_some() {
                        None
                    } else {
                        match p_string(s, j2) {
                            None => None,
                            Some((rc, i3)) => {
                                let rs = chars_to_string(&rc);
                                p_top_after_member(s, i3, Some(rs), args, fuel - 1)
                            },
                        }
                    }
                } else if str_eq(key.as_str(), "args") {
                    if args.is_some() {
                        None
                    } else {
                        match p_args(s, j2) {
                            None => None,
                            Some((m, i3)) => p_top_after_member(s, i3, req, Some(m), fuel - 1),
                        }
                    }
                } else {
                    None
                }
            }
        },
    }
}

fn p_top_after_member(
    s: &Vec<char>,
    i: usize,
    req: Option<String>,
    args: Option<SortedStrMap<String>>,
    fuel: usize,
) -> (r: Option<(String, SortedStrMap<String>, usize)>)
    requires
        i <= s@.len(),
        args_opt_wf(args),
    ensures
        ({
            let m = parse_top_after_member(
                s@,
                i as int,
                opt_str_view(req),
                opt_map_view(args),
                fuel as nat,
            );
            match r {
                Some(p) => m matches Some(q) && p.0@ == q.0 && p.1.wf() && str_view_map(p.1.map())
                    == q.1 && p.2 as int == q.2 && p.2 <= s@.len(),
                None => m is None,
            }
        }),
    decreases fuel, 1int,
{
    let j = ws_end(s, i);
    if j < s.len() && s[j] == ',' {
        p_top_members(s, ws_end(s, j + 1), req, args, fuel)
    } else if j < s.len() && s[j] == '}' {
        match req {
            Some(r) => {
                let m = match args {
                    Some(m) => m,
                    None => {
                        let empty: SortedStrMap<String> = SortedStrMap::new();
                        proof {
                            assert(str_view_map(empty.map()) =~= Map::<
                                Seq<char>,
                                Seq<char>,
                            >::empty());
                        }
                        empty
                    },
                };
                Some((r, m, j + 1))
            },
            None => None,
        }
    } else {
        None
    }
}

/// Decodes one request line into its command and its argument mapping;
/// `None` is the recoverable decode failure for a line that is not a
/// well-formed request document.
pub fn decode_request(line: &str) -> (r: Option<(String, SortedStrMap<String>)>)
    ensures
        ({
            let m = spec_parse_request(line@);
            match r {
                Some(p) => m matches Some(q) && p.0@ == q.0 && p.1.wf() && str_view_map(p.1.map())
                    == q.1,
                None => m is None,
            }
        }),
{
    let cs = to_chars(line);
    let i = ws_end(&cs, 0);
    if i < cs.len() && cs[i] == '{' {
        let j = ws_end(&cs, i + 1);
        match p_top_members(&cs, j, None, None, cs.len()) {
            None => None,
            Some((rq, m, e)) => {
                if ws_end(&cs, e) == cs.len() {
                    Some((rq, m))
                } else {
                    None
                }
            },
        }
    } else {
        None
    }
}

} // verus!
