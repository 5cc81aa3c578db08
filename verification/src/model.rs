//! The mathematical model of the collector: how a line is classified, how an
//! event is merged into the aggregate, how chunk text drives the aggregate
//! char by char, and how the final response is assembled.

use vstd::prelude::*;
use crate::types::{AggView, ChoiceView, EventView, MessageView, ResponseView};
use crate::json::{json_created, json_delta_str, json_finish, json_top_str, json_usage, lossy_of};

verus! {

/// The characters that surrounding-whitespace trimming removes: the Unicode
/// white-space code points, as std's char::is_whitespace recognises them.
pub open spec fn is_ws_char(c: char) -> bool {
    let u = c as u32;
    (0x09 <= u && u <= 0x0D) || u == 0x20 || u == 0x85 || u == 0xA0 || u == 0x1680 || (0x2000
        <= u && u <= 0x200A) || u == 0x2028 || u == 0x2029 || u == 0x202F || u == 0x205F || u
        == 0x3000
}

pub open spec fn trim_start_rec(s: Seq<char>) -> Seq<char>
    decreases s.len(),
{
    if s.len() > 0 && is_ws_char(s[0]) {
        trim_start_rec(s.drop_first())
    } else {
        s
    }
}

pub open spec fn trim_end_rec(s: Seq<char>) -> Seq<char>
    decreases s.len(),
{
    if s.len() > 0 && is_ws_char(s[s.len() - 1]) {
        trim_end_rec(s.drop_last())
    } else {
        s
    }
}

/// The text with leading and trailing whitespace removed.
pub open spec fn spec_trim(s: Seq<char>) -> Seq<char> {
    trim_end_rec(trim_start_rec(s))
}

/// The event-data prefix of the server-sent-events format.
pub open spec fn data_prefix() -> Seq<char> {
    seq!['d', 'a', 't', 'a', ':', ' ']
}

/// The stream-termination sentinel payload.
pub open spec fn done_marker() -> Seq<char> {
    seq!['[', 'D', 'O', 'N', 'E', ']']
}

pub open spec fn has_data_prefix(s: Seq<char>) -> bool {
    s.len() >= 6 && s.subrange(0, 6) == data_prefix()
}

/// The text with every leading occurrence of the data prefix removed.
pub open spec fn strip_data(s: Seq<char>) -> Seq<char>
    decreases s.len(),
{
    if has_data_prefix(s) {
        strip_data(s.skip(6))
    } else {
        s
    }
}

/// The payload of a significant line: present only when the trimmed line
/// begins with the data prefix; then the prefix occurrences are stripped and
/// the remainder trimmed again.
pub open spec fn spec_line_payload(line: Seq<char>) -> Option<Seq<char>> {
    let t = spec_trim(line);
    if has_data_prefix(t) {
        Some(spec_trim(strip_data(t)))
    } else {
        None
    }
}

/// The fields that probing the payload `p` as JSON yields.
pub open spec fn spec_event_of(p: Seq<char>) -> EventView {
    EventView {
        id: json_top_str(p, "id"@),
        model: json_top_str(p, "model"@),
        created: json_created(p),
        usage: json_usage(p),
        role: json_delta_str(p, "role"@),
        content: json_delta_str(p, "content"@),
        reasoning_content: json_delta_str(p, "reasoning_content"@),
        finish_reason: json_finish(p),
    }
}

/// The event that contributes nothing: what an unparsable payload yields.
pub open spec fn null_event() -> EventView {
    EventView {
        id: None,
        model: None,
        created: None,
        usage: None,
        role: None,
        content: None,
        reasoning_content: None,
        finish_reason: None,
    }
}

pub open spec fn upd_nonempty(cur: Seq<char>, f: Option<Seq<char>>) -> Seq<char> {
    match f {
        Some(s) => if s.len() > 0 {
            s
        } else {
            cur
        },
        None => cur,
    }
}

pub open spec fn upd_opt_nonempty(cur: Option<Seq<char>>, f: Option<Seq<char>>) -> Option<
    Seq<char>,
> {
    match f {
        Some(s) => if s.len() > 0 {
            Some(s)
        } else {
            cur
        },
        None => cur,
    }
}

pub open spec fn push_if_some(cur: Seq<Seq<char>>, f: Option<Seq<char>>) -> Seq<Seq<char>> {
    match f {
        Some(s) => cur.push(s),
        None => cur,
    }
}

/// One event merged into the aggregate: identifier, model and finish reason
/// are overwritten only by a non-empty string, the timestamp and usage by any
/// reported value, and content and reasoning fragments are appended in
/// arrival order, each to its own channel.
pub open spec fn spec_apply_event(a: AggView, e: EventView) -> AggView {
    AggView {
        id: upd_nonempty(a.id, e.id),
        model: upd_nonempty(a.model, e.model),
        created: match e.created {
            Some(c) => c,
            None => a.created,
        },
        usage: match e.usage {
            Some(u) => Some(u),
            None => a.usage,
        },
        role: upd_opt_nonempty(a.role, e.role),
        content_parts: push_if_some(a.content_parts, e.content),
        reasoning_parts: push_if_some(a.reasoning_parts, e.reasoning_content),
        finish_reason: upd_opt_nonempty(a.finish_reason, e.finish_reason),
        tool_calls: a.tool_calls,
        residual: a.residual,
    }
}

/// One whole line handled: lines without the data prefix and the termination
/// sentinel contribute nothing; any other payload is merged as an event.
pub open spec fn spec_apply_line(a: AggView, line: Seq<char>) -> AggView {
    match spec_line_payload(line) {
        None => a,
        Some(p) => if p == done_marker() {
            a
        } else {
            spec_apply_event(a, spec_event_of(p))
        },
    }
}

pub open spec fn clear_residual(a: AggView) -> AggView {
    AggView { residual: Seq::empty(), ..a }
}

/// One char of decoded chunk text: a newline completes the residual line and
/// handles it; any other char extends the residual.
pub open spec fn spec_feed_char(a: AggView, c: char) -> AggView {
    if c == '\n' {
        spec_apply_line(clear_residual(a), a.residual)
    } else {
        AggView { residual: a.residual.push(c), ..a }
    }
}

pub open spec fn spec_feed_chars(a: AggView, cs: Seq<char>) -> AggView
    decreases cs.len(),
{
    if cs.len() == 0 {
        a
    } else {
        spec_feed_chars(spec_feed_char(a, cs[0]), cs.drop_first())
    }
}

/// Concatenation of a sequence of fragments, in order.
pub open spec fn spec_join(ps: Seq<Seq<char>>) -> Seq<char>
    decreases ps.len(),
{
    if ps.len() == 0 {
        Seq::empty()
    } else {
        ps[0] + spec_join(ps.drop_first())
    }
}

/// The fresh aggregate of one collection call: sentinel identifier and model,
/// the caller's clock reading, and everything else empty.
pub open spec fn spec_init(now: u64) -> AggView {
    AggView {
        id: "chatcmpl-unknown"@,
        created: now,
        model: "unknown"@,
        role: None,
        content_parts: Seq::empty(),
        reasoning_parts: Seq::empty(),
        finish_reason: None,
        usage: None,
        tool_calls: Seq::empty(),
        residual: Seq::empty(),
    }
}

/// Assembly of the final record from a flushed aggregate: content fragments
/// joined (an empty join is an empty string), reasoning joined but absent
/// when no fragment ever arrived, the role defaulted to "assistant", the
/// finish reason defaulted to "stop", and exactly one choice at index 0.
pub open spec fn spec_assemble(a: AggView) -> ResponseView {
    ResponseView {
        id: a.id,
        object: "chat.completion"@,
        created: a.created,
        model: a.model,
        choices: seq![
            ChoiceView {
                index: 0,
                message: MessageView {
                    role: match a.role {
                        Some(r) => r,
                        None => "assistant"@,
                    },
                    content: spec_join(a.content_parts),
                    reasoning_content: if a.reasoning_parts.len() == 0 {
                        None
                    } else {
                        Some(spec_join(a.reasoning_parts))
                    },
                },
                finish_reason: match a.finish_reason {
                    Some(f) => Some(f),
                    None => Some("stop"@),
                },
            },
        ],
        usage: a.usage,
    }
}

/// Termination: a trailing line fragment left in the residual is handled as
/// a final line, then the record is assembled.
pub open spec fn spec_finish(a: AggView) -> ResponseView {
    if a.residual.len() > 0 {
        spec_assemble(spec_apply_line(clear_residual(a), a.residual))
    } else {
        spec_assemble(a)
    }
}

/// The error message a failing transport yields.
pub open spec fn stream_err_msg(e: Seq<char>) -> Seq<char> {
    "Stream error: "@ + e
}

/// The whole collection call over a sequence of transport items: each byte
/// chunk is decoded lossily and fed; the first transport error aborts with
/// its message and no record; an exhausted sequence assembles the record.
pub open spec fn spec_collect(a: AggView, items: Seq<Result<Vec<u8>, String>>) -> Result<
    ResponseView,
    Seq<char>,
>
    decreases items.len(),
{
    if items.len() == 0 {
        Ok(spec_finish(a))
    } else {
        match items[0] {
            Ok(b) => spec_collect(spec_feed_chars(a, lossy_of(b@)), items.drop_first()),
            Err(e) => Err(stream_err_msg(e@)),
        }
    }
}

/// Feeding one more char after a text equals feeding the extended text.
pub proof fn lemma_feed_chars_push(a: AggView, cs: Seq<char>, c: char)
    ensures
        spec_feed_chars(a, cs.push(c)) == spec_feed_char(spec_feed_chars(a, cs), c),
    decreases cs.len(),
{
    if cs.len() == 0 {
        assert(cs.push(c)[0] == c);
        assert(cs.push(c).drop_first() =~= Seq::<char>::empty());
        assert(spec_feed_chars(a, cs.push(c)) == spec_feed_chars(
            spec_feed_char(a, c),
            cs.push(c).drop_first(),
        ));
        assert(spec_feed_chars(spec_feed_char(a, c), cs.push(c).drop_first())
            == spec_feed_char(a, c));
        assert(spec_feed_chars(a, cs) == a);
    } else {
        assert(cs.push(c)[0] == cs[0]);
        assert(cs.push(c).drop_first() =~= cs.drop_first().push(c));
        assert(spec_feed_chars(a, cs.push(c)) == spec_feed_chars(
            spec_feed_char(a, cs[0]),
            cs.drop_first().push(c),
        ));
        lemma_feed_chars_push(spec_feed_char(a, cs[0]), cs.drop_first(), c);
        assert(spec_feed_chars(a, cs) == spec_feed_chars(
            spec_feed_char(a, cs[0]),
            cs.drop_first(),
        ));
    }
}

/// Feeding a concatenation equals feeding the two texts in turn: processing
/// is driven by the chars alone, never by where a chunk boundary fell.
pub proof fn lemma_feed_chars_concat(a: AggView, s: Seq<char>, t: Seq<char>)
    ensures
        spec_feed_chars(a, s + t) == spec_feed_chars(spec_feed_chars(a, s), t),
    decreases s.len(),
{
    if s.len() == 0 {
        assert(s + t =~= t);
    } else {
        assert((s + t)[0] == s[0]);
        assert((s + t).drop_first() =~= s.drop_first() + t);
        lemma_feed_chars_concat(spec_feed_char(a, s[0]), s.drop_first(), t);
    }
}

/// Joining after appending one fragment appends that fragment to the join.
pub proof fn lemma_join_push(ps: Seq<Seq<char>>, x: Seq<char>)
    ensures
        spec_join(ps.push(x)) == spec_join(ps) + x,
    decreases ps.len(),
{
    if ps.len() == 0 {
        assert(ps.push(x)[0] == x);
        assert(ps.push(x).drop_first() =~= Seq::<Seq<char>>::empty());
        assert(spec_join(ps.push(x)) == x + spec_join(ps.push(x).drop_first()));
        assert(spec_join(ps.push(x).drop_first()) == Seq::<char>::empty());
        assert(spec_join(ps) == Seq::<char>::empty());
        assert(x + Seq::<char>::empty() =~= x);
        assert(Seq::<char>::empty() + x =~= x);
    } else {
        assert(ps.push(x)[0] == ps[0]);
        assert(ps.push(x).drop_first() =~= ps.drop_first().push(x));
        assert(spec_join(ps.push(x)) == ps[0] + spec_join(ps.drop_first().push(x)));
        lemma_join_push(ps.drop_first(), x);
        assert(spec_join(ps) == ps[0] + spec_join(ps.drop_first()));
        assert(ps[0] + (spec_join(ps.drop_first()) + x) =~= (ps[0] + spec_join(ps.drop_first()))
            + x);
    }
}

/// Where the first `k` chars are whitespace and the next one (if any) is
/// not, trimming the start drops exactly those `k` chars.
pub proof fn lemma_trim_start_at(s: Seq<char>, k: int)
    requires
        0 <= k <= s.len(),
        forall|j: int| 0 <= j < k ==> is_ws_char(s[j]),
        k == s.len() || !is_ws_char(s[k]),
    ensures
        trim_start_rec(s) == s.skip(k),
    decreases k,
{
    if k == 0 {
        assert(s.skip(0) =~= s);
    } else {
        lemma_trim_start_at(s.drop_first(), k - 1);
        assert(s.drop_first().skip(k - 1) =~= s.skip(k));
    }
}

/// Where the chars from `k` on are whitespace and the one before `k` (if
/// any) is not, trimming the end keeps exactly the first `k` chars.
pub proof fn lemma_trim_end_at(s: Seq<char>, k: int)
    requires
        0 <= k <= s.len(),
        forall|j: int| k <= j < s.len() ==> is_ws_char(s[j]),
        k == 0 || !is_ws_char(s[k - 1]),
    ensures
        trim_end_rec(s) == s.take(k),
    decreases s.len(),
{
    if k == s.len() {
        assert(s.take(k) =~= s);
    } else {
        lemma_trim_end_at(s.drop_last(), k);
        assert(s.drop_last().take(k) =~= s.take(k));
    }
}

} // verus!
