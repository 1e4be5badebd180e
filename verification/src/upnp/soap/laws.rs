//! What holds of the envelopes: that escaped text can be recovered, and that
//! an envelope gives back the arguments that it was written with.

use super::{action_results, escape_char, escaped, scan_results_from, ResultScan};
use crate::attributes::{distinct_keys, lemma_put_all_distinct, put, put_all};
use crate::text::{lemma_find_char_at, local_name, starts_with};
use crate::xml::XmlEventView;
use vstd::prelude::*;

verus! {

/// `s` with each of the five entity references replaced by its character.
pub open spec fn unescaped(s: Seq<char>) -> Seq<char>
    decreases s.len(),
{
    if s.len() == 0 {
        Seq::empty()
    } else if starts_with(s, escape_char('&')) {
        seq!['&'] + unescaped(s.subrange(5, s.len() as int))
    } else if starts_with(s, escape_char('<')) {
        seq!['<'] + unescaped(s.subrange(4, s.len() as int))
    } else if starts_with(s, escape_char('>')) {
        seq!['>'] + unescaped(s.subrange(4, s.len() as int))
    } else if starts_with(s, escape_char('"')) {
        seq!['"'] + unescaped(s.subrange(6, s.len() as int))
    } else if starts_with(s, escape_char('\'')) {
        seq!['\''] + unescaped(s.subrange(6, s.len() as int))
    } else {
        seq![s.first()] + unescaped(s.drop_first())
    }
}

/// The events of one result element: its tags, and its character data
/// between them where it has any.
pub open spec fn result_events(name: Seq<char>, value: Seq<char>) -> Seq<XmlEventView> {
    if value.len() == 0 {
        seq![XmlEventView::Start(name), XmlEventView::End(name)]
    } else {
        seq![XmlEventView::Start(name), XmlEventView::Text(value), XmlEventView::End(name)]
    }
}

/// The events of the result elements of `pairs`, in their order.
pub open spec fn results_events(pairs: Seq<(Seq<char>, Seq<char>)>) -> Seq<XmlEventView>
    decreases pairs.len(),
{
    if pairs.len() == 0 {
        Seq::empty()
    } else {
        results_events(pairs.drop_last()) + result_events(pairs.last().0, pairs.last().1)
    }
}

/// The events of an envelope whose body holds one action element with the
/// result elements of `pairs`.
pub open spec fn envelope_events(
    envelope: Seq<char>,
    body: Seq<char>,
    action: Seq<char>,
    pairs: Seq<(Seq<char>, Seq<char>)>,
) -> Seq<XmlEventView> {
    seq![XmlEventView::Start(envelope), XmlEventView::Start(body), XmlEventView::Start(action)]
        + results_events(pairs) + seq![
        XmlEventView::End(action),
        XmlEventView::End(body),
        XmlEventView::End(envelope),
    ]
}

/// The events of the result elements of `pairs`, each on a line of its own.
pub open spec fn argument_lines_events(pairs: Seq<(Seq<char>, Seq<char>)>) -> Seq<XmlEventView>
    decreases pairs.len(),
{
    if pairs.len() == 0 {
        Seq::empty()
    } else {
        argument_lines_events(pairs.drop_last()) + seq![XmlEventView::Text("\n"@)]
            + result_events(pairs.last().0, pairs.last().1)
    }
}

/// The events of a request envelope as it is written for `action` with the
/// arguments `pairs`: the declaration, the tags of the envelope, of the
/// body and of the action, the elements of the arguments, and the white
/// space between them all.
pub open spec fn request_events(action: Seq<char>, pairs: Seq<(Seq<char>, Seq<char>)>) -> Seq<
    XmlEventView,
> {
    seq![
        XmlEventView::Other,
        XmlEventView::Text("\n"@),
        XmlEventView::Start("s:Envelope"@),
        XmlEventView::Text("\n  "@),
        XmlEventView::Start("s:Body"@),
        XmlEventView::Text("\n    "@),
        XmlEventView::Start("u:"@ + action),
    ] + argument_lines_events(pairs) + seq![
        XmlEventView::Text("\n    "@),
        XmlEventView::End("u:"@ + action),
        XmlEventView::Text("\n  "@),
        XmlEventView::End("s:Body"@),
        XmlEventView::Text("\n"@),
        XmlEventView::End("s:Envelope"@),
    ]
}

/// Escaped text is free of markup: it holds no angle bracket and no quote.
pub proof fn lemma_escaped_has_no_markup(s: Seq<char>)
    ensures
        forall|i: int|
            0 <= i < escaped(s).len() ==> {
                let c = #[trigger] escaped(s)[i];
                c != '<' && c != '>' && c != '"' && c != '\''
            },
    decreases s.len(),
{
    if s.len() > 0 {
        lemma_escaped_has_no_markup(s.drop_first());
        let head = escape_char(s.first());
        let tail = escaped(s.drop_first());
        assert forall|i: int| 0 <= i < escaped(s).len() implies {
            let c = #[trigger] escaped(s)[i];
            c != '<' && c != '>' && c != '"' && c != '\''
        } by {
            if i >= head.len() {
                assert(escaped(s)[i] == tail[i - head.len()]);
            } else {
                assert(escaped(s)[i] == head[i]);
            }
        }
    }
}

/// What was escaped can be recovered: resolving the entity references of an
/// escaped text gives the text back, whatever characters it holds.
pub proof fn lemma_unescape_escaped(s: Seq<char>)
    ensures
        unescaped(escaped(s)) == s,
    decreases s.len(),
{
    if s.len() > 0 {
        let c = s.first();
        let head = escape_char(c);
        let tail = escaped(s.drop_first());
        let whole = escaped(s);
        lemma_unescape_escaped(s.drop_first());
        assert(whole.subrange(head.len() as int, whole.len() as int) =~= tail);
        assert(whole.subrange(0, head.len() as int) =~= head);
    }
}

/// Two texts with the same escaped form are the same text.
pub proof fn lemma_escaped_is_injective(a: Seq<char>, b: Seq<char>)
    requires
        escaped(a) == escaped(b),
    ensures
        a == b,
{
    lemma_unescape_escaped(a);
    lemma_unescape_escaped(b);
}

/// Reading two runs of events one after the other is reading their
/// concatenation.
pub proof fn lemma_scan_results_concat(
    state: ResultScan,
    first: Seq<XmlEventView>,
    second: Seq<XmlEventView>,
)
    ensures
        scan_results_from(state, first + second) == scan_results_from(
            scan_results_from(state, first),
            second,
        ),
    decreases second.len(),
{
    if second.len() != 0 {
        lemma_scan_results_concat(state, first, second.drop_last());
        assert((first + second).drop_last() =~= first + second.drop_last());
    }
}

/// Inside the action element, the events of one result element put its
/// name and value among the results.
pub proof fn lemma_scan_one_result(state: ResultScan, name: Seq<char>, value: Seq<char>)
    requires
        state.depth == 3,
        state.in_body,
    ensures
        scan_results_from(state, result_events(name, value)) == (ResultScan {
            name,
            text: value,
            found: put(state.found, name, value),
            ..state
        }),
{
    let events = result_events(name, value);
    let opened = ResultScan { depth: 4, name, text: Seq::empty(), ..state };
    if value.len() == 0 {
        let e1 = events.drop_last();
        assert(scan_results_from(state, e1.drop_last()) == state);
        assert(scan_results_from(state, e1) == opened);
        assert(value =~= Seq::<char>::empty());
    } else {
        let e2 = events.drop_last();
        let e1 = e2.drop_last();
        assert(scan_results_from(state, e1.drop_last()) == state);
        assert(scan_results_from(state, e1) == opened);
        assert(scan_results_from(state, e2) == (ResultScan { text: value, ..opened }));
    }
}

/// Inside the action element, the events of result elements put their
/// names and values among the results, in their order.
pub proof fn lemma_scan_results_of_pairs(state: ResultScan, pairs: Seq<(Seq<char>, Seq<char>)>)
    requires
        state.depth == 3,
        state.in_body,
    ensures
        scan_results_from(state, results_events(pairs)).depth == 3,
        scan_results_from(state, results_events(pairs)).in_body,
        scan_results_from(state, results_events(pairs)).failed == state.failed,
        scan_results_from(state, results_events(pairs)).found == put_all(state.found, pairs),
    decreases pairs.len(),
{
    if pairs.len() > 0 {
        let front = pairs.drop_last();
        lemma_scan_results_of_pairs(state, front);
        let middle = scan_results_from(state, results_events(front));
        lemma_scan_results_concat(
            state,
            results_events(front),
            result_events(pairs.last().0, pairs.last().1),
        );
        lemma_scan_one_result(middle, pairs.last().0, pairs.last().1);
    }
}

/// The envelope of an action yields the results that it was written with:
/// read from the events of an envelope whose body holds one action element,
/// the results are the pairs of the result elements in their order, a later
/// value replacing an earlier one of the same name.
pub proof fn lemma_envelope_results(
    envelope: Seq<char>,
    body: Seq<char>,
    action: Seq<char>,
    pairs: Seq<(Seq<char>, Seq<char>)>,
)
    requires
        local_name(body) == "Body"@,
    ensures
        action_results(envelope_events(envelope, body, action, pairs)) == Some(
            put_all(Seq::empty(), pairs),
        ),
{
    let start = ResultScan {
        depth: 0,
        in_body: false,
        name: Seq::empty(),
        text: Seq::empty(),
        found: Seq::empty(),
        failed: false,
    };
    let head = seq![
        XmlEventView::Start(envelope),
        XmlEventView::Start(body),
        XmlEventView::Start(action),
    ];
    let foot = seq![
        XmlEventView::End(action),
        XmlEventView::End(body),
        XmlEventView::End(envelope),
    ];
    let h2 = head.drop_last();
    let h1 = h2.drop_last();
    assert(scan_results_from(start, h1.drop_last()) == start);
    assert(scan_results_from(start, h1) == (ResultScan { depth: 1, ..start }));
    assert(scan_results_from(start, h2) == (ResultScan { depth: 2, in_body: true, ..start }));
    let inside = ResultScan { depth: 3, in_body: true, ..start };
    lemma_scan_results_of_pairs(inside, pairs);
    let filled = scan_results_from(inside, results_events(pairs));
    lemma_scan_results_concat(start, head, results_events(pairs));
    lemma_scan_results_concat(start, head + results_events(pairs), foot);
    let f2 = foot.drop_last();
    let f1 = f2.drop_last();
    assert(scan_results_from(filled, f1.drop_last()) == filled);
    assert(scan_results_from(filled, f1) == (ResultScan { depth: 2, ..filled }));
    assert(scan_results_from(filled, f2) == (ResultScan { depth: 1, in_body: false, ..filled }));
}

/// Inside the action element, the lines of arguments put their names and
/// values among the results, in their order.
pub proof fn lemma_scan_argument_lines(state: ResultScan, pairs: Seq<(Seq<char>, Seq<char>)>)
    requires
        state.depth == 3,
        state.in_body,
    ensures
        scan_results_from(state, argument_lines_events(pairs)).depth == 3,
        scan_results_from(state, argument_lines_events(pairs)).in_body,
        scan_results_from(state, argument_lines_events(pairs)).failed == state.failed,
        scan_results_from(state, argument_lines_events(pairs)).found == put_all(
            state.found,
            pairs,
        ),
    decreases pairs.len(),
{
    if pairs.len() > 0 {
        let front = pairs.drop_last();
        lemma_scan_argument_lines(state, front);
        let middle = scan_results_from(state, argument_lines_events(front));
        let space = seq![XmlEventView::Text("\n"@)];
        assert(scan_results_from(middle, space.drop_last()) == middle);
        lemma_scan_results_concat(state, argument_lines_events(front), space);
        lemma_scan_results_concat(
            state,
            argument_lines_events(front) + space,
            result_events(pairs.last().0, pairs.last().1),
        );
        lemma_scan_one_result(middle, pairs.last().0, pairs.last().1);
    }
}

/// What is written is what is read: the events of a request envelope yield
/// the arguments that it was written with, in their order, whatever
/// characters their values hold.
pub proof fn lemma_request_round_trip(action: Seq<char>, pairs: Seq<(Seq<char>, Seq<char>)>)
    requires
        distinct_keys(pairs),
    ensures
        action_results(request_events(action, pairs)) == Some(pairs),
{
    let start = ResultScan {
        depth: 0,
        in_body: false,
        name: Seq::empty(),
        text: Seq::empty(),
        found: Seq::empty(),
        failed: false,
    };
    let head = seq![
        XmlEventView::Other,
        XmlEventView::Text("\n"@),
        XmlEventView::Start("s:Envelope"@),
        XmlEventView::Text("\n  "@),
        XmlEventView::Start("s:Body"@),
        XmlEventView::Text("\n    "@),
        XmlEventView::Start("u:"@ + action),
    ];
    let foot = seq![
        XmlEventView::Text("\n    "@),
        XmlEventView::End("u:"@ + action),
        XmlEventView::Text("\n  "@),
        XmlEventView::End("s:Body"@),
        XmlEventView::Text("\n"@),
        XmlEventView::End("s:Envelope"@),
    ];
    assert(local_name("s:Body"@) == "Body"@) by {
        reveal_strlit("s:Body");
        reveal_strlit("Body");
        let name = "s:Body"@;
        lemma_find_char_at(name, ':', 1);
    }
    let h6 = head.drop_last();
    let h5 = h6.drop_last();
    let h4 = h5.drop_last();
    let h3 = h4.drop_last();
    let h2 = h3.drop_last();
    let h1 = h2.drop_last();
    assert(scan_results_from(start, h1.drop_last()) == start);
    assert(scan_results_from(start, h1) == start);
    assert(scan_results_from(start, h2) == start);
    let s1 = ResultScan { depth: 1, ..start };
    assert(scan_results_from(start, h3) == s1);
    assert(scan_results_from(start, h4) == s1);
    let s2 = ResultScan { depth: 2, in_body: true, ..start };
    assert(scan_results_from(start, h5) == s2);
    assert(scan_results_from(start, h6) == s2);
    let inside = ResultScan { depth: 3, in_body: true, ..start };
    lemma_scan_argument_lines(inside, pairs);
    let filled = scan_results_from(inside, argument_lines_events(pairs));
    lemma_scan_results_concat(start, head, argument_lines_events(pairs));
    lemma_scan_results_concat(start, head + argument_lines_events(pairs), foot);
    let f5 = foot.drop_last();
    let f4 = f5.drop_last();
    let f3 = f4.drop_last();
    let f2 = f3.drop_last();
    let f1 = f2.drop_last();
    assert(scan_results_from(filled, f1.drop_last()) == filled);
    assert(scan_results_from(filled, f1) == filled);
    let t2 = ResultScan { depth: 2, ..filled };
    assert(scan_results_from(filled, f2) == t2);
    assert(scan_results_from(filled, f3) == t2);
    let t1 = ResultScan { depth: 1, in_body: false, ..filled };
    assert(scan_results_from(filled, f4) == t1);
    assert(scan_results_from(filled, f5) == t1);
    lemma_put_all_distinct(pairs);
}

/// An envelope written with arguments of different names yields exactly
/// these arguments.
pub proof fn lemma_envelope_round_trip(
    envelope: Seq<char>,
    body: Seq<char>,
    action: Seq<char>,
    pairs: Seq<(Seq<char>, Seq<char>)>,
)
    requires
        local_name(body) == "Body"@,
        distinct_keys(pairs),
    ensures
        action_results(envelope_events(envelope, body, action, pairs)) == Some(pairs),
{
    lemma_envelope_results(envelope, body, action, pairs);
    lemma_put_all_distinct(pairs);
}

} // verus!
