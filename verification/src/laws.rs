//! The properties that hold of the collector as a whole, stated over the
//! model and proved once and for all.

use vstd::prelude::*;
use crate::model::{
    lemma_feed_chars_concat, null_event, spec_apply_event, spec_apply_line, spec_collect,
    spec_event_of, spec_feed_char, spec_feed_chars, spec_finish, spec_init, spec_join,
    spec_line_payload, clear_residual, done_marker,
};
use crate::types::{AggView, EventView};

verus! {

/// A sequence of already-parsed events merged in order.
pub open spec fn spec_apply_events(a: AggView, es: Seq<EventView>) -> AggView
    decreases es.len(),
{
    if es.len() == 0 {
        a
    } else {
        spec_apply_events(spec_apply_event(a, es[0]), es.drop_first())
    }
}

/// The text-content fragments the events carry, in arrival order.
pub open spec fn contents_of(es: Seq<EventView>) -> Seq<Seq<char>>
    decreases es.len(),
{
    if es.len() == 0 {
        Seq::empty()
    } else {
        match es[0].content {
            Some(c) => seq![c] + contents_of(es.drop_first()),
            None => contents_of(es.drop_first()),
        }
    }
}

/// The reasoning fragments the events carry, in arrival order.
pub open spec fn reasonings_of(es: Seq<EventView>) -> Seq<Seq<char>>
    decreases es.len(),
{
    if es.len() == 0 {
        Seq::empty()
    } else {
        match es[0].reasoning_content {
            Some(c) => seq![c] + reasonings_of(es.drop_first()),
            None => reasonings_of(es.drop_first()),
        }
    }
}

/// The last non-empty finish reason among the events, if any.
pub open spec fn last_finish(es: Seq<EventView>) -> Option<Seq<char>>
    decreases es.len(),
{
    if es.len() == 0 {
        None
    } else {
        match last_finish(es.drop_first()) {
            Some(f) => Some(f),
            None => match es[0].finish_reason {
                Some(f) => if f.len() > 0 {
                    Some(f)
                } else {
                    None
                },
                None => None,
            },
        }
    }
}

/// Merging events touches the two fragment channels independently — each is
/// extended by exactly its own fragments, in order — settles the finish
/// reason on the last non-empty one, and never touches the residual.
pub proof fn lemma_apply_events_channels(a: AggView, es: Seq<EventView>)
    ensures
        spec_apply_events(a, es).content_parts == a.content_parts + contents_of(es),
        spec_apply_events(a, es).reasoning_parts == a.reasoning_parts + reasonings_of(es),
        spec_apply_events(a, es).finish_reason == (match last_finish(es) {
            Some(f) => Some(f),
            None => a.finish_reason,
        }),
        spec_apply_events(a, es).residual == a.residual,
    decreases es.len(),
{
    if es.len() == 0 {
        assert(a.content_parts + contents_of(es) =~= a.content_parts);
        assert(a.reasoning_parts + reasonings_of(es) =~= a.reasoning_parts);
    } else {
        let a1 = spec_apply_event(a, es[0]);
        lemma_apply_events_channels(a1, es.drop_first());
        match es[0].content {
            Some(c) => {
                assert(a.content_parts.push(c) + contents_of(es.drop_first()) =~= a.content_parts
                    + (seq![c] + contents_of(es.drop_first())));
            },
            None => {},
        }
        match es[0].reasoning_content {
            Some(c) => {
                assert(a.reasoning_parts.push(c) + reasonings_of(es.drop_first())
                    =~= a.reasoning_parts + (seq![c] + reasonings_of(es.drop_first())));
            },
            None => {},
        }
    }
}

/// The final message's content equals the exact concatenation of all
/// text-content fragments, in arrival order.
pub proof fn lemma_content_concatenation(now: u64, es: Seq<EventView>)
    ensures
        spec_finish(spec_apply_events(spec_init(now), es)).choices[0].message.content
            == spec_join(contents_of(es)),
{
    lemma_apply_events_channels(spec_init(now), es);
    assert(Seq::<Seq<char>>::empty() + contents_of(es) =~= contents_of(es));
}

proof fn lemma_reasonings_all_none(es: Seq<EventView>)
    requires
        forall|i: int| 0 <= i < es.len() ==> es[i].reasoning_content is None,
    ensures
        reasonings_of(es) == Seq::<Seq<char>>::empty(),
    decreases es.len(),
{
    if es.len() > 0 {
        assert(forall|i: int|
            0 <= i < es.drop_first().len() ==> es.drop_first()[i] == es[i + 1]);
        lemma_reasonings_all_none(es.drop_first());
    }
}

proof fn lemma_reasonings_some_nonempty(es: Seq<EventView>)
    requires
        exists|i: int| 0 <= i < es.len() && es[i].reasoning_content is Some,
    ensures
        reasonings_of(es).len() > 0,
    decreases es.len(),
{
    let i = choose|i: int| 0 <= i < es.len() && es[i].reasoning_content is Some;
    if es[0].reasoning_content is None {
        assert(es.drop_first()[i - 1] == es[i]);
        lemma_reasonings_some_nonempty(es.drop_first());
    }
}

/// If no event ever carries a reasoning fragment, the final reasoning field
/// is absent — never an empty string.
pub proof fn lemma_no_reasoning_is_absent(now: u64, es: Seq<EventView>)
    requires
        forall|i: int| 0 <= i < es.len() ==> es[i].reasoning_content is None,
    ensures
        spec_finish(spec_apply_events(spec_init(now), es)).choices[0].message.reasoning_content
            is None,
{
    lemma_apply_events_channels(spec_init(now), es);
    lemma_reasonings_all_none(es);
    assert(Seq::<Seq<char>>::empty() + reasonings_of(es) =~= reasonings_of(es));
}

/// If at least one event carries a reasoning fragment, the final reasoning
/// field equals the concatenation of all such fragments, in arrival order.
pub proof fn lemma_reasoning_concatenation(now: u64, es: Seq<EventView>)
    requires
        exists|i: int| 0 <= i < es.len() && es[i].reasoning_content is Some,
    ensures
        spec_finish(spec_apply_events(spec_init(now), es)).choices[0].message.reasoning_content
            == Some(spec_join(reasonings_of(es))),
{
    lemma_apply_events_channels(spec_init(now), es);
    lemma_reasonings_some_nonempty(es);
    assert(Seq::<Seq<char>>::empty() + reasonings_of(es) =~= reasonings_of(es));
}

/// The finish reason of the output is the last non-empty finish reason seen
/// across all events, or "stop" if none was ever present.
pub proof fn lemma_finish_reason_last_nonempty(now: u64, es: Seq<EventView>)
    ensures
        spec_finish(spec_apply_events(spec_init(now), es)).choices[0].finish_reason == (
        match last_finish(es) {
            Some(f) => Some(f),
            None => Some("stop"@),
        }),
{
    lemma_apply_events_channels(spec_init(now), es);
}

/// A line whose payload yields nothing to any JSON probe — in particular a
/// line that is not valid JSON after the data prefix — changes nothing.
pub proof fn lemma_unparsed_line_noop(a: AggView, line: Seq<char>)
    requires
        match spec_line_payload(line) {
            Some(p) => spec_event_of(p) == null_event(),
            None => true,
        },
    ensures
        spec_apply_line(a, line) == a,
{
    match spec_line_payload(line) {
        Some(p) => {
            if p != done_marker() {
                assert(spec_apply_event(a, null_event()) =~~= a);
            }
        },
        None => {},
    }
}

/// The termination sentinel line contributes nothing to any field.
pub proof fn lemma_done_line_noop(a: AggView, line: Seq<char>)
    requires
        spec_line_payload(line) == Some(done_marker()),
    ensures
        spec_apply_line(a, line) == a,
{
}

proof fn lemma_feed_no_newline(a: AggView, s: Seq<char>)
    requires
        (forall|i: int| 0 <= i < s.len() ==> s[i] != '\n'),
    ensures
        spec_feed_chars(a, s) == (AggView { residual: a.residual + s, ..a }),
    decreases s.len(),
{
    if s.len() == 0 {
        assert(a.residual + s =~= a.residual);
        assert(AggView { residual: a.residual + s, ..a } =~~= a);
    } else {
        lemma_feed_no_newline(spec_feed_char(a, s[0]), s.drop_first());
        assert(a.residual.push(s[0]) + s.drop_first() =~= a.residual + s);
    }
}

/// The sentinel line never terminates processing: chunk text that follows a
/// complete sentinel line is processed exactly as if the sentinel had not
/// been there. Termination is driven by the sequence ending, not by the
/// sentinel.
pub proof fn lemma_done_does_not_terminate(a: AggView, line: Seq<char>, rest: Seq<char>)
    requires
        a.residual == Seq::<char>::empty(),
        forall|i: int| 0 <= i < line.len() ==> line[i] != '\n',
        spec_line_payload(line) == Some(done_marker()),
    ensures
        spec_feed_chars(a, line + seq!['\n'] + rest) == spec_feed_chars(a, rest),
{
    lemma_feed_chars_concat(a, line + seq!['\n'], rest);
    lemma_feed_chars_concat(a, line, seq!['\n']);
    lemma_feed_no_newline(a, line);
    let b = AggView { residual: a.residual + line, ..a };
    assert(a.residual + line =~= line);
    assert(spec_feed_chars(b, seq!['\n']) == spec_feed_char(b, '\n')) by {
        assert(seq!['\n'][0] == '\n');
        assert(seq!['\n'].drop_first() =~= Seq::<char>::empty());
        assert(spec_feed_chars(b, seq!['\n']) == spec_feed_chars(
            spec_feed_char(b, '\n'),
            seq!['\n'].drop_first(),
        ));
        assert(spec_feed_chars(spec_feed_char(b, '\n'), seq!['\n'].drop_first())
            == spec_feed_char(b, '\n'));
    }
    lemma_done_line_noop(clear_residual(b), line);
    assert(clear_residual(b) =~~= a);
}

/// A transport error anywhere in the item sequence makes the whole
/// collection yield an error result, never a partial response record.
pub proof fn lemma_transport_error_aborts(
    a: AggView,
    items: Seq<Result<Vec<u8>, String>>,
    i: int,
)
    requires
        0 <= i < items.len(),
        items[i] is Err,
    ensures
        spec_collect(a, items) is Err,
    decreases i,
{
    if i > 0 {
        match items[0] {
            Ok(b) => {
                assert(items.drop_first()[i - 1] == items[i]);
                lemma_transport_error_aborts(
                    spec_feed_chars(a, crate::json::lossy_of(b@)),
                    items.drop_first(),
                    i - 1,
                );
            },
            Err(e) => {},
        }
    }
}

} // verus!
