//! The executable collector: line handling, event merging, chunk feeding and
//! final assembly, each proved against the model in `model`.

use vstd::prelude::*;
use vstd::string::StrSliceExecFns;
use vstd::string::StringExecFns;
use crate::json::{
    chars_to_string, lossy_decode, lossy_of, parse_created, parse_delta_str, parse_finish,
    parse_top_str, parse_usage,
};
use crate::model::{
    clear_residual, data_prefix, done_marker, has_data_prefix, is_ws_char, lemma_feed_chars_push,
    lemma_join_push, lemma_trim_end_at, lemma_trim_start_at, spec_apply_event, spec_apply_line,
    spec_assemble, spec_collect, spec_event_of, spec_feed_char, spec_feed_chars, spec_finish,
    spec_init, spec_join, spec_line_payload, spec_trim, strip_data, stream_err_msg,
};
use crate::types::{Aggregate, Choice, ChunkEvent, Message, Response, ResponseView};

verus! {

/// Whether `c` is a Unicode white-space character.
fn is_ws(c: char) -> (r: bool)
    ensures
        r == is_ws_char(c),
{
    let u = c as u32;
    (0x09 <= u && u <= 0x0D) || u == 0x20 || u == 0x85 || u == 0xA0 || u == 0x1680 || (0x2000
        <= u && u <= 0x200A) || u == 0x2028 || u == 0x2029 || u == 0x202F || u == 0x205F || u
        == 0x3000
}

/// The chars of `v` from `lo` (inclusive) to `hi` (exclusive).
fn subvec(v: &Vec<char>, lo: usize, hi: usize) -> (r: Vec<char>)
    requires
        lo <= hi <= v.len(),
    ensures
        r@ == v@.subrange(lo as int, hi as int),
{
    let mut r: Vec<char> = Vec::new();
    let mut i: usize = lo;
    proof {
        assert(v@.subrange(lo as int, lo as int) =~= Seq::<char>::empty());
    }
    while i < hi
        invariant
            lo <= i <= hi <= v.len(),
            r@ == v@.subrange(lo as int, i as int),
        decreases hi - i,
    {
        r.push(v[i]);
        proof {
            assert(v@.subrange(lo as int, i + 1) =~= v@.subrange(lo as int, i as int).push(
                v@[i as int],
            ));
        }
        i += 1;
    }
    r
}

/// The chars of `v` with leading and trailing whitespace removed.
fn trim_vec(v: &Vec<char>) -> (r: Vec<char>)
    ensures
        r@ == spec_trim(v@),
{
    let n = v.len();
    let mut lo: usize = 0;
    while lo < n && is_ws(v[lo])
        invariant
            lo <= n,
            n == v.len(),
            forall|j: int| 0 <= j < lo ==> is_ws_char(v@[j]),
        decreases n - lo,
    {
        lo += 1;
    }
    let mut hi: usize = n;
    while hi > lo && is_ws(v[hi - 1])
        invariant
            lo <= hi <= n,
            n == v.len(),
            forall|j: int| hi <= j < n ==> is_ws_char(v@[j]),
        decreases hi,
    {
        hi -= 1;
    }
    proof {
        lemma_trim_start_at(v@, lo as int);
        assert forall|j: int| hi - lo <= j < v@.skip(lo as int).len() implies is_ws_char(
            v@.skip(lo as int)[j],
        ) by {
            assert(v@.skip(lo as int)[j] == v@[lo + j]);
        }
        lemma_trim_end_at(v@.skip(lo as int), hi - lo);
        assert(v@.skip(lo as int).take(hi - lo) =~= v@.subrange(lo as int, hi as int));
    }
    subvec(v, lo, hi)
}

/// Whether the chars of `v` from `off` on begin with the event-data prefix.
fn has_prefix_at(v: &Vec<char>, off: usize) -> (r: bool)
    requires
        off <= v.len(),
    ensures
        r == has_data_prefix(v@.skip(off as int)),
{
    let ghost s = v@.skip(off as int);
    if v.len() - off < 6 {
        proof {
            assert(s.len() < 6);
        }
        return false;
    }
    let r = v[off] == 'd' && v[off + 1] == 'a' && v[off + 2] == 't' && v[off + 3] == 'a' && v[off
        + 4] == ':' && v[off + 5] == ' ';
    proof {
        assert(forall|j: int| 0 <= j < 6 ==> s[j] == v@[off + j]);
        if r {
            assert(s.subrange(0, 6) =~= data_prefix());
        } else {
            if has_data_prefix(s) {
                assert(forall|j: int| 0 <= j < 6 ==> s.subrange(0, 6)[j] == data_prefix()[j]);
                assert(v@[off as int] == 'd' && v@[off + 1] == 'a' && v@[off + 2] == 't'
                    && v@[off + 3] == 'a' && v@[off + 4] == ':' && v@[off + 5] == ' ');
            }
        }
    }
    r
}

/// The event that probing the payload text as JSON yields.
fn parse_event(s: &String) -> (e: ChunkEvent)
    ensures
        e@ == spec_event_of(s@),
{
    ChunkEvent {
        id: parse_top_str(s.as_str(), "id"),
        model: parse_top_str(s.as_str(), "model"),
        created: parse_created(s.as_str()),
        usage: parse_usage(s.as_str()),
        role: parse_delta_str(s.as_str(), "role"),
        content: parse_delta_str(s.as_str(), "content"),
        reasoning_content: parse_delta_str(s.as_str(), "reasoning_content"),
        finish_reason: parse_finish(s.as_str()),
    }
}

impl Aggregate {
    /// A fresh aggregate: sentinel identifier and model, the caller's clock
    /// reading as the timestamp, and no fragments yet.
    pub fn new(now: u64) -> (a: Aggregate)
        ensures
            a@ == spec_init(now),
    {
        let a = Aggregate {
            id: "chatcmpl-unknown".to_owned(),
            created: now,
            model: "unknown".to_owned(),
            role: None,
            content_parts: Vec::new(),
            reasoning_parts: Vec::new(),
            finish_reason: None,
            usage: None,
            tool_calls: Vec::new(),
            residual: Vec::new(),
        };
        proof {
            assert(a@ =~~= spec_init(now));
        }
        a
    }

    /// Merges one parsed event into the aggregate: identifier, model and
    /// finish reason on a non-empty string only, timestamp and usage on any
    /// reported value, content and reasoning appended to their own channels.
    pub fn apply_event(&mut self, e: &ChunkEvent)
        ensures
            final(self)@ == spec_apply_event(old(self)@, e@),
    {
        if let Some(s) = &e.id {
            if !s.as_str().is_empty() {
                self.id = s.clone();
            }
        }
        if let Some(s) = &e.model {
            if !s.as_str().is_empty() {
                self.model = s.clone();
            }
        }
        if let Some(c) = e.created {
            self.created = c;
        }
        if let Some(u) = e.usage {
            self.usage = Some(u);
        }
        if let Some(s) = &e.role {
            if !s.as_str().is_empty() {
                self.role = Some(s.clone());
            }
        }
        if let Some(s) = &e.content {
            self.content_parts.push(s.clone());
        }
        if let Some(s) = &e.reasoning_content {
            self.reasoning_parts.push(s.clone());
        }
        if let Some(s) = &e.finish_reason {
            if !s.as_str().is_empty() {
                self.finish_reason = Some(s.clone());
            }
        }
        proof {
            assert(self@ =~~= spec_apply_event(old(self)@, e@));
        }
    }

    /// Handles one complete line: lines without the data prefix and the
    /// termination sentinel leave the aggregate untouched; any other payload
    /// is probed as JSON and merged.
    pub fn handle_line(&mut self, line: &Vec<char>)
        ensures
            final(self)@ == spec_apply_line(old(self)@, line@),
    {
        let t = trim_vec(line);
        proof {
            assert(t@.skip(0) =~= t@);
        }
        if !has_prefix_at(&t, 0) {
            return;
        }
        let mut off: usize = 0;
        while has_prefix_at(&t, off)
            invariant
                off <= t.len(),
                strip_data(t@) == strip_data(t@.skip(off as int)),
            decreases t.len() - off,
        {
            proof {
                assert(t@.skip(off as int).skip(6) =~= t@.skip(off + 6));
            }
            off += 6;
        }
        proof {
            assert(strip_data(t@) == t@.skip(off as int));
        }
        let rest = subvec(&t, off, t.len());
        proof {
            assert(rest@ =~= t@.skip(off as int));
        }
        let p = trim_vec(&rest);
        proof {
            assert(p@ == spec_trim(strip_data(spec_trim(line@))));
            assert(spec_line_payload(line@) == Some(p@));
        }
        let is_done = p.len() == 6 && p[0] == '[' && p[1] == 'D' && p[2] == 'O' && p[3] == 'N'
            && p[4] == 'E' && p[5] == ']';
        proof {
            if is_done {
                assert(p@ =~= done_marker());
            } else {
                if p@ == done_marker() {
                    assert(p@.len() == 6);
                    assert(p@[0] == '[' && p@[1] == 'D' && p@[2] == 'O' && p@[3] == 'N' && p@[4]
                        == 'E' && p@[5] == ']');
                }
            }
        }
        if is_done {
            return;
        }
        let s = chars_to_string(&p);
        let e = parse_event(&s);
        self.apply_event(&e);
    }

    /// Feeds one char of decoded chunk text: a newline completes the residual
    /// line and handles it; any other char extends the residual.
    pub fn feed_char(&mut self, c: char)
        ensures
            final(self)@ == spec_feed_char(old(self)@, c),
    {
        if c == '\n' {
            let mut line: Vec<char> = Vec::new();
            core::mem::swap(&mut line, &mut self.residual);
            proof {
                assert(self@ =~~= clear_residual(old(self)@));
            }
            self.handle_line(&line);
        } else {
            self.residual.push(c);
            proof {
                assert(self@ =~~= spec_feed_char(old(self)@, c));
            }
        }
    }

    /// Feeds a piece of decoded chunk text char by char.
    pub fn feed_text(&mut self, text: &str)
        ensures
            final(self)@ == spec_feed_chars(old(self)@, text@),
    {
        let n = text.unicode_len();
        let mut i: usize = 0;
        proof {
            assert(text@.take(0) =~= Seq::<char>::empty());
        }
        while i < n
            invariant
                i <= n,
                n == text@.len(),
                self@ == spec_feed_chars(old(self)@, text@.take(i as int)),
            decreases n - i,
        {
            let c = text.get_char(i);
            proof {
                assert(text@.take(i + 1) =~= text@.take(i as int).push(text@[i as int]));
                lemma_feed_chars_push(old(self)@, text@.take(i as int), text@[i as int]);
            }
            self.feed_char(c);
            i += 1;
        }
        proof {
            assert(text@.take(n as int) =~= text@);
        }
    }

    /// Feeds one byte chunk of the stream: the bytes are decoded lossily and
    /// the resulting text is fed, so a line straddling a chunk boundary is
    /// reassembled through the residual.
    pub fn feed_chunk(&mut self, chunk: &[u8])
        ensures
            final(self)@ == spec_feed_chars(old(self)@, lossy_of(chunk@)),
    {
        let text = lossy_decode(chunk);
        self.feed_text(text.as_str());
    }

    /// Ends the collection: a trailing line fragment left in the residual is
    /// handled as a final line, then the single-choice record is assembled.
    /// The content is the join of all content fragments (empty when none
    /// arrived); the reasoning field is absent when no fragment ever arrived;
    /// role defaults to "assistant" and the finish reason to "stop".
    pub fn finish(self) -> (r: Response)
        ensures
            r@ == spec_finish(self@),
    {
        let mut agg = self;
        let ghost a0 = agg@;
        if agg.residual.len() > 0 {
            let mut line: Vec<char> = Vec::new();
            core::mem::swap(&mut line, &mut agg.residual);
            proof {
                assert(agg@ =~~= clear_residual(a0));
            }
            agg.handle_line(&line);
        }
        let ghost a1 = agg@;
        proof {
            assert(spec_finish(a0) == spec_assemble(a1));
        }
        let content = join_parts(&agg.content_parts);
        let reasoning = if agg.reasoning_parts.len() == 0 {
            None
        } else {
            Some(join_parts(&agg.reasoning_parts))
        };
        let role = match agg.role {
            Some(r) => r,
            None => "assistant".to_owned(),
        };
        let finish_reason = match agg.finish_reason {
            Some(f) => Some(f),
            None => Some("stop".to_owned()),
        };
        let message = Message { role, content, reasoning_content: reasoning };
        let choice = Choice { index: 0, message, finish_reason };
        let mut choices: Vec<Choice> = Vec::new();
        choices.push(choice);
        let r = Response {
            id: agg.id,
            object: "chat.completion".to_owned(),
            created: agg.created,
            model: agg.model,
            choices,
            usage: agg.usage,
        };
        proof {
            assert(r@.choices =~= spec_assemble(a1).choices);
            assert(r@ =~~= spec_assemble(a1));
        }
        r
    }
}

/// The join of all fragments, in order.
fn join_parts(parts: &Vec<String>) -> (r: String)
    ensures
        r@ == spec_join(parts@.map_values(|s: String| s@)),
{
    let ghost m = parts@.map_values(|s: String| s@);
    let mut r = String::new();
    let mut i: usize = 0;
    proof {
        assert(m.take(0) =~= Seq::<Seq<char>>::empty());
    }
    while i < parts.len()
        invariant
            i <= parts.len(),
            m == parts@.map_values(|s: String| s@),
            r@ == spec_join(m.take(i as int)),
        decreases parts.len() - i,
    {
        proof {
            assert(m.take(i + 1) =~= m.take(i as int).push(m[i as int]));
            lemma_join_push(m.take(i as int), m[i as int]);
            assert(m[i as int] == parts@[i as int]@);
        }
        r.append(parts[i].as_str());
        i += 1;
    }
    proof {
        assert(m.take(parts@.len() as int) =~= m);
    }
    r
}

/// One whole collection call over an already-arrived sequence of transport
/// items: each byte chunk is decoded lossily and fed in order; the first
/// transport error aborts the call with its message and no record; when the
/// sequence is exhausted the single complete record is assembled.
pub fn collect_results(items: &Vec<Result<Vec<u8>, String>>, now: u64) -> (r: Result<
    Response,
    String,
>)
    ensures
        collect_res_view(r) == spec_collect(spec_init(now), items@),
{
    let mut agg = Aggregate::new(now);
    let n = items.len();
    let mut i: usize = 0;
    proof {
        assert(items@.skip(0) =~= items@);
    }
    while i < n
        invariant
            i <= n,
            n == items@.len(),
            spec_collect(spec_init(now), items@) == spec_collect(agg@, items@.skip(i as int)),
        decreases n - i,
    {
        proof {
            assert(items@.skip(i as int)[0] == items@[i as int]);
            assert(items@.skip(i as int).drop_first() =~= items@.skip(i + 1));
        }
        match &items[i] {
            Ok(b) => {
                agg.feed_chunk(b.as_slice());
            },
            Err(e) => {
                let mut msg = "Stream error: ".to_owned();
                msg.append(e.as_str());
                proof {
                    assert(msg@ == stream_err_msg(items@[i as int]->Err_0@));
                }
                return Err(msg);
            },
        }
        i += 1;
    }
    proof {
        assert(items@.skip(n as int) =~= Seq::<Result<Vec<u8>, String>>::empty());
    }
    Ok(agg.finish())
}

/// The result of a collection call, seen at the spec level.
pub open spec fn collect_res_view(r: Result<Response, String>) -> Result<ResponseView, Seq<char>> {
    match r {
        Ok(resp) => Ok(resp@),
        Err(m) => Err(m@),
    }
}

} // verus!
