//! The protocol's guarantees, stated and proved over the dispatch and codec
//! specifications.

use vstd::prelude::*;
use crate::dispatch::{finish_text, reply_line, step_of, target_of, StepSpec};
use crate::json::{json_string, member_text, members_text, object_text};
use crate::parse::{spec_parse_request, str_view_map};
use crate::registry::Registry;
use crate::smap::{
    distinct_keys, lemma_map_of_entries, lemma_sorted_distinct, map_of, sorted_entries,
    SortedStrMap,
};
use crate::strutil::{lemma_lex_irrefl, lemma_lex_trans, lex_lt};

verus! {

/// For every registered producer name, a `stats` request selecting it is
/// dispatched to exactly that name, with the request's full argument
/// mapping; a successful result of the invocation is then returned verbatim
/// as the `resp` payload under errno 0.
pub proof fn lemma_stats_registered_target<P>(line: Seq<char>, reg: Registry<P>, v: String)
    requires
        line.len() > 0,
        spec_parse_request(line) is Some,
        spec_parse_request(line)->Some_0.0 == "stats"@,
        reg.prod_map().dom().contains(target_of(spec_parse_request(line)->Some_0.1)),
    ensures
        step_of(line, reg) == (StepSpec::Invoke {
            target: target_of(spec_parse_request(line)->Some_0.1),
            args: spec_parse_request(line)->Some_0.1,
        }),
        finish_text(Ok(v)) == reply_line(0, v@),
{
}

/// A `stats` request with no `target` argument selects the name "top",
/// exactly as a request whose `target` argument is the literal "top" does.
pub proof fn lemma_default_target_is_top(args: Map<Seq<char>, Seq<char>>)
    requires
        !args.dom().contains("target"@),
    ensures
        target_of(args) == "top"@,
        target_of(args.insert("target"@, "top"@)) == "top"@,
{
}

/// A `stats` request with no `target` argument is served as one with the
/// explicit target "top" is: the same producer is selected, and when the
/// name is unregistered the same error reply is sent. The two requests
/// differ only in the argument mapping handed to the producer, which then
/// holds the explicit pair.
pub proof fn lemma_stats_default_matches_explicit_top<P>(
    l1: Seq<char>,
    l2: Seq<char>,
    reg: Registry<P>,
)
    requires
        l1.len() > 0,
        l2.len() > 0,
        spec_parse_request(l1) is Some,
        spec_parse_request(l2) is Some,
        spec_parse_request(l1)->Some_0.0 == "stats"@,
        spec_parse_request(l2)->Some_0.0 == "stats"@,
        !spec_parse_request(l1)->Some_0.1.dom().contains("target"@),
        spec_parse_request(l2)->Some_0.1 == spec_parse_request(l1)->Some_0.1.insert(
            "target"@,
            "top"@,
        ),
    ensures
        step_of(l1, reg) is Invoke <==> step_of(l2, reg) is Invoke,
        step_of(l1, reg) is Invoke ==> step_of(l1, reg)->Invoke_target == step_of(
            l2,
            reg,
        )->Invoke_target,
        step_of(l1, reg) is Reply ==> step_of(l1, reg) == step_of(l2, reg),
{
    let args1 = spec_parse_request(l1)->Some_0.1;
    let args2 = spec_parse_request(l2)->Some_0.1;
    assert(target_of(args1) == "top"@);
    assert(target_of(args2) == "top"@);
}

/// A `stats` request whose target is not a registered producer name is
/// answered with the invalid-argument code and a non-empty description.
pub proof fn lemma_stats_unknown_target<P>(line: Seq<char>, reg: Registry<P>)
    requires
        line.len() > 0,
        spec_parse_request(line) is Some,
        spec_parse_request(line)->Some_0.0 == "stats"@,
        !reg.prod_map().dom().contains(target_of(spec_parse_request(line)->Some_0.1)),
    ensures
        step_of(line, reg) == (StepSpec::Reply {
            errno: 22,
            payload: json_string("unknown stat target "@ + target_of(
                spec_parse_request(line)->Some_0.1,
            )),
        }),
        step_of(line, reg)->Reply_payload.len() > 0,
{
}

/// A `stats_meta` request is answered with errno 0 and the full snapshot:
/// the registered name→descriptor pairs, as one object document.
pub proof fn lemma_stats_meta_snapshot<P>(line: Seq<char>, reg: Registry<P>)
    requires
        line.len() > 0,
        spec_parse_request(line) is Some,
        spec_parse_request(line)->Some_0.0 == "stats_meta"@,
    ensures
        step_of(line, reg) == (StepSpec::Reply {
            errno: 0,
            payload: object_text(reg.stats_meta.entries@),
        }),
{
    reveal_strlit("stats");
    reveal_strlit("stats_meta");
}

/// A line that does not decode as a request is answered with the
/// invalid-argument code and a non-empty description; in particular it does
/// not end the connection.
pub proof fn lemma_malformed_line_replies<P>(line: Seq<char>, reg: Registry<P>)
    requires
        line.len() > 0,
        spec_parse_request(line) is None,
    ensures
        step_of(line, reg) == (StepSpec::Reply {
            errno: 22,
            payload: json_string("malformed request line"@),
        }),
        step_of(line, reg)->Reply_payload.len() > 0,
{
}

/// No non-empty line ever closes the connection: every read request, well
/// or ill formed, is answered or dispatched, so a later well-formed request
/// on the same connection is still served.
pub proof fn lemma_nonempty_line_never_closes<P>(line: Seq<char>, reg: Registry<P>)
    requires
        line.len() > 0,
    ensures
        !(step_of(line, reg) is Close),
{
}

/// End of file, and only end of file, ends a connection's handling, with no
/// reply owed.
pub proof fn lemma_eof_closes<P>(line: Seq<char>, reg: Registry<P>)
    ensures
        step_of(line, reg) is Close <==> line.len() == 0,
{
}

/// The view map of a string map has the same domain.
proof fn lemma_str_view_dom(m: Map<Seq<char>, String>)
    ensures
        str_view_map(m).dom() == m.dom(),
        forall|k: Seq<char>| m.dom().contains(k) ==> str_view_map(m)[k] == m[k]@,
{
    assert(str_view_map(m).dom() =~= m.dom());
}

/// Dropping the last entry removes exactly its key from the mapping.
proof fn lemma_map_of_drop_last<V>(entries: Seq<(String, V)>)
    requires
        distinct_keys(entries),
        entries.len() > 0,
    ensures
        map_of(entries.drop_last()) == map_of(entries).remove(entries.last().0@),
{
    let front = entries.drop_last();
    assert(forall|i: int| 0 <= i < front.len() ==> front[i] == entries[i]);
    lemma_map_of_entries(front);
    if map_of(front).dom().contains(entries.last().0@) {
        let j = choose|j: int|
            0 <= j < front.len() && #[trigger] front[j].0@ == entries.last().0@;
        assert(entries[j].0@ == entries[entries.len() - 1].0@);
        assert(false);
    }
    assert(map_of(front) =~= map_of(entries).remove(entries.last().0@));
}

/// Equal keys and equal value texts, entry by entry, give equal member
/// lists.
proof fn lemma_members_congruent(a: Seq<(String, String)>, b: Seq<(String, String)>)
    requires
        a.len() == b.len(),
        forall|i: int| 0 <= i < a.len() ==> (#[trigger] a[i]).0@ == b[i].0@ && a[i].1@ == b[i].1@,
    ensures
        members_text(a) == members_text(b),
    decreases a.len(),
{
    if a.len() > 1 {
        assert(forall|i: int| 0 <= i < a.drop_last().len() ==> a.drop_last()[i] == a[i]);
        assert(forall|i: int| 0 <= i < b.drop_last().len() ==> b.drop_last()[i] == b[i]);
        lemma_members_congruent(a.drop_last(), b.drop_last());
        assert(a[a.len() - 1].0@ == b[b.len() - 1].0@ && a[a.len() - 1].1@ == b[b.len() - 1].1@);
        assert(member_text(a.last()) == member_text(b.last()));
    } else if a.len() == 1 {
        assert(a[0].0@ == b[0].0@ && a[0].1@ == b[0].1@);
        assert(member_text(a[0]) == member_text(b[0]));
    }
}

/// Two sorted entry sequences holding the same mapping, by character
/// content, are the same sequence of names and value texts.
proof fn lemma_sorted_entries_canonical(a: Seq<(String, String)>, b: Seq<(String, String)>)
    requires
        sorted_entries(a),
        sorted_entries(b),
        str_view_map(map_of(a)) == str_view_map(map_of(b)),
    ensures
        a.len() == b.len(),
        forall|i: int| 0 <= i < a.len() ==> (#[trigger] a[i]).0@ == b[i].0@ && a[i].1@ == b[i].1@,
    decreases a.len(),
{
    lemma_sorted_distinct(a);
    lemma_sorted_distinct(b);
    lemma_map_of_entries(a);
    lemma_map_of_entries(b);
    lemma_str_view_dom(map_of(a));
    lemma_str_view_dom(map_of(b));
    assert(map_of(a).dom() =~= map_of(b).dom());
    if a.len() == 0 {
        if b.len() > 0 {
            assert(map_of(b).dom().contains(b[0].0@));
            assert(false);
        }
    } else if b.len() == 0 {
        assert(map_of(a).dom().contains(a[0].0@));
        assert(false);
    } else {
        let ka = a.last().0@;
        let kb = b.last().0@;
        assert(map_of(a).dom().contains(a[a.len() - 1].0@));
        assert(map_of(b).dom().contains(b[b.len() - 1].0@));
        if ka != kb {
            let j = choose|j: int| 0 <= j < b.len() && #[trigger] b[j].0@ == ka;
            assert(j < b.len() - 1);
            assert(lex_lt(ka, kb));
            let i = choose|i: int| 0 <= i < a.len() && #[trigger] a[i].0@ == kb;
            assert(i < a.len() - 1);
            assert(lex_lt(kb, ka));
            lemma_lex_trans(ka, kb, ka);
            lemma_lex_irrefl(ka);
        }
        assert(map_of(a)[ka] == a.last().1);
        assert(map_of(b)[kb] == b.last().1);
        assert(str_view_map(map_of(a))[ka] == a.last().1@);
        assert(str_view_map(map_of(b))[kb] == b.last().1@);
        assert(a.last().1@ == b.last().1@);
        lemma_map_of_drop_last(a);
        lemma_map_of_drop_last(b);
        lemma_str_view_dom(map_of(a.drop_last()));
        lemma_str_view_dom(map_of(b.drop_last()));
        assert(str_view_map(map_of(a.drop_last())) =~= str_view_map(map_of(a)).remove(ka));
        assert(str_view_map(map_of(b.drop_last())) =~= str_view_map(map_of(b)).remove(ka));
        assert(forall|i: int| 0 <= i < a.drop_last().len() ==> a.drop_last()[i] == a[i]);
        assert(forall|i: int| 0 <= i < b.drop_last().len() ==> b.drop_last()[i] == b[i]);
        lemma_sorted_entries_canonical(a.drop_last(), b.drop_last());
    }
}

/// The metadata snapshot is canonical: two registries holding the same
/// name→descriptor mapping, in whatever registration order it was built,
/// serve byte-for-byte the same snapshot document.
pub proof fn lemma_meta_snapshot_canonical(a: SortedStrMap<String>, b: SortedStrMap<String>)
    requires
        a.wf(),
        b.wf(),
        str_view_map(a.map()) == str_view_map(b.map()),
    ensures
        object_text(a.entries@) == object_text(b.entries@),
{
    lemma_sorted_entries_canonical(a.entries@, b.entries@);
    lemma_members_congruent(a.entries@, b.entries@);
}

} // verus!
