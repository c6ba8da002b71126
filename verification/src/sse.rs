//! Pulls answer text out of an OpenAI-compatible SSE stream.
//!
//! Bytes rather than `&str`, and one line at a time: a chunk off the socket can
//! split a multi-byte character, and every label this app asks the model for is
//! Chinese, so that is the ordinary case rather than the edge case. Buffering
//! bytes and decoding only whole lines makes the split impossible to get wrong.
use vstd::prelude::*;
use vstd::utf8::{decode_utf8, valid_utf8};
use crate::json::{frame_from_json, frame_of, json_document, parse_json, text_model, ChoiceModel, Json};
use crate::text::{
    chars_of, copy_range, find_byte, first_index_of, lemma_first_index_of,
    lemma_first_index_of_facts, same_text, starts_with_at, string_of, trim, trim_range,
};

verus! {

/// What `String::from_utf8_lossy` makes of `bytes`.
pub uninterp spec fn utf8_lossy(bytes: Seq<u8>) -> Seq<char>;

/// Calls `String::from_utf8_lossy`: valid UTF-8 decodes as itself, and each
/// invalid sequence becomes U+FFFD (which sequences, exactly, is std's rule and
/// is left to the name [`utf8_lossy`]).
#[verifier::external_body]
fn decode_lossy(bytes: &[u8]) -> (s: String)
    ensures
        s@ == utf8_lossy(bytes@),
        valid_utf8(bytes@) ==> s@ == decode_utf8(bytes@),
{
    String::from_utf8_lossy(bytes).into_owned()
}

/// What the stream has said about itself so far.
pub struct StreamFacts {
    /// Why the model stopped, once a frame says so.
    pub finish_reason: Option<Seq<char>>,
    /// Whether any reasoning arrived.
    pub saw_reasoning: bool,
}

pub struct DecoderModel {
    /// The line still arriving, up to but not including its newline.
    pub pending: Seq<u8>,
    pub facts: StreamFacts,
}

pub struct Decoder {
    pending: Vec<u8>,
    /// `length` means the budget ran out, which is the tell for reasoning left
    /// switched on.
    finish_reason: Option<String>,
    /// So that an empty answer can say why it is empty.
    saw_reasoning: bool,
}

impl View for Decoder {
    type V = DecoderModel;

    closed spec fn view(&self) -> DecoderModel {
        DecoderModel {
            pending: self.pending@,
            facts: StreamFacts {
                finish_reason: text_model(self.finish_reason),
                saw_reasoning: self.saw_reasoning,
            },
        }
    }
}

/// `s` without the `\n` and `\r` characters at its end.
pub open spec fn trim_end_line_breaks(s: Seq<char>) -> Seq<char>
    decreases s.len(),
{
    if s.len() > 0 && (s.last() == '\n' || s.last() == '\r') {
        trim_end_line_breaks(s.drop_last())
    } else {
        s
    }
}

pub open spec fn starts_with(s: Seq<char>, prefix: Seq<char>) -> bool {
    prefix.len() <= s.len() && s.take(prefix.len() as int) == prefix
}

/// The choices of one frame, in order: each finish reason overwrites the last,
/// any reasoning is remembered, and each non-empty content is a fragment.
pub open spec fn absorb_choices(f: StreamFacts, cs: Seq<ChoiceModel>) -> (Seq<Seq<char>>, StreamFacts)
    decreases cs.len(),
{
    if cs.len() == 0 {
        (Seq::empty(), f)
    } else {
        let (frags, g) = absorb_choices(f, cs.drop_last());
        let c = cs.last();
        let facts = StreamFacts {
            finish_reason: if c.finish_reason is Some {
                c.finish_reason
            } else {
                g.finish_reason
            },
            saw_reasoning: g.saw_reasoning || c.reasoning,
        };
        let frags = match c.content {
            Some(t) => if t.len() > 0 {
                frags.push(t)
            } else {
                frags
            },
            None => frags,
        };
        (frags, facts)
    }
}

/// A parsed `data:` payload. Anything that is not a frame produces nothing; a
/// frame reporting an error ends the stream with its message; otherwise the
/// frame's choices are absorbed.
pub open spec fn frame_effect(f: StreamFacts, doc: Json) -> (
    Result<Seq<Seq<char>>, Seq<char>>,
    StreamFacts,
) {
    match frame_of(doc) {
        None => (Ok(Seq::empty()), f),
        Some(frame) => match frame.error {
            Some(message) => (Err(message), f),
            None => {
                let (frags, g) = absorb_choices(f, frame.choices);
                (Ok(frags), g)
            },
        },
    }
}

/// A `data:` payload. The `[DONE]` sentinel and anything that is not JSON
/// produce nothing; a document is read as [`frame_effect`] says.
pub open spec fn payload_effect(f: StreamFacts, payload: Seq<char>) -> (
    Result<Seq<Seq<char>>, Seq<char>>,
    StreamFacts,
) {
    if payload == "[DONE]"@ {
        (Ok(Seq::empty()), f)
    } else {
        match json_document(payload) {
            None => (Ok(Seq::empty()), f),
            Some(doc) => frame_effect(f, doc),
        }
    }
}

/// One complete line, decoded, line break included. Everything that is not a
/// `data:` payload belongs to the SSE framing and produces nothing.
pub open spec fn text_line_effect(f: StreamFacts, line: Seq<char>) -> (
    Result<Seq<Seq<char>>, Seq<char>>,
    StreamFacts,
) {
    let text = trim_end_line_breaks(line);
    if starts_with(text, "data:"@) {
        payload_effect(f, trim(text.skip("data:"@.len() as int)))
    } else {
        (Ok(Seq::empty()), f)
    }
}

/// One complete line of bytes, newline included, decoded lossily.
pub open spec fn line_effect(f: StreamFacts, line: Seq<u8>) -> (
    Result<Seq<Seq<char>>, Seq<char>>,
    StreamFacts,
) {
    text_line_effect(f, utf8_lossy(line))
}

pub open spec fn prefix_ok(frags: Seq<Seq<char>>, r: Result<Seq<Seq<char>>, Seq<char>>) -> Result<
    Seq<Seq<char>>,
    Seq<char>,
> {
    match r {
        Ok(more) => Ok(frags + more),
        Err(e) => Err(e),
    }
}

/// Every complete line at the front of `buf`, in order, stopping at the first
/// error: the fragments (or the error), the facts after, and what is left
/// unfinished (or unread, after an error).
pub open spec fn run_lines(f: StreamFacts, buf: Seq<u8>) -> (
    Result<Seq<Seq<char>>, Seq<char>>,
    StreamFacts,
    Seq<u8>,
)
    decreases buf.len(),
{
    match first_index_of(buf, 10u8) {
        None => (Ok(Seq::empty()), f, buf),
        Some(k) => {
            if 0 <= k < buf.len() {
                let (r, g) = line_effect(f, buf.take(k + 1));
                match r {
                    Err(e) => (Err(e), g, buf.skip(k + 1)),
                    Ok(frags) => {
                        let (r2, h, rest) = run_lines(g, buf.skip(k + 1));
                        (prefix_ok(frags, r2), h, rest)
                    },
                }
            } else {
                (Ok(Seq::empty()), f, buf)
            }
        },
    }
}

/// What one chunk produces and the state it leaves.
pub open spec fn push_model(d: DecoderModel, chunk: Seq<u8>) -> (
    Result<Seq<Seq<char>>, Seq<char>>,
    DecoderModel,
) {
    let (r, f, rest) = run_lines(d.facts, d.pending + chunk);
    (r, DecoderModel { pending: rest, facts: f })
}

pub open spec fn fragments_model(r: Result<Vec<String>, String>) -> Result<Seq<Seq<char>>, Seq<char>> {
    match r {
        Ok(v) => Ok(v@.map_values(|s: String| s@)),
        Err(e) => Err(e@),
    }
}

impl Default for Decoder {
    fn default() -> (d: Self)
        ensures
            d@ == (DecoderModel {
                pending: Seq::empty(),
                facts: StreamFacts { finish_reason: None, saw_reasoning: false },
            }),
    {
        Decoder { pending: Vec::new(), finish_reason: None, saw_reasoning: false }
    }
}

impl Decoder {
    /// The answer fragments this chunk completed. A chunk may contain any number
    /// of whole frames plus a partial one, and all are handled. Frames that
    /// carry no answer text — the opening `role` frame, reasoning, the `[DONE]`
    /// sentinel, anything unrecognised — produce nothing.
    ///
    /// `Err` means the provider reported a failure mid-stream, which ends the
    /// translation: half a set of renderings cannot be told from a whole one.
    pub fn push(&mut self, chunk: &[u8]) -> (r: Result<Vec<String>, String>)
        ensures
            fragments_model(r) == push_model(old(self)@, chunk@).0,
            final(self)@ == push_model(old(self)@, chunk@).1,
    {
        let mut buf: Vec<u8> = Vec::new();
        buf.append(&mut self.pending);
        let ghost old_pending = buf@;
        let mut i: usize = 0;
        while i < chunk.len()
            invariant
                i <= chunk@.len(),
                buf@ == old_pending + chunk@.take(i as int),
            decreases chunk@.len() - i,
        {
            buf.push(chunk[i]);
            i += 1;
            assert(buf@ =~= old_pending + chunk@.take(i as int));
        }
        assert(chunk@.take(chunk@.len() as int) =~= chunk@);
        let ghost whole = buf@;
        let ghost f0 = self@.facts;
        assert(old(self)@.facts == f0);
        let mut fragments: Vec<String> = Vec::new();
        let mut start: usize = 0;
        assert(buf@.skip(0) =~= whole);
        assert(fragments@.map_values(|s: String| s@) =~= Seq::<Seq<char>>::empty());
        loop
            invariant
                whole == buf@,
                whole == old(self)@.pending + chunk@,
                f0 == old(self)@.facts,
                start <= buf@.len(),
                ({
                    let (r0, g0, p0) = run_lines(f0, whole);
                    let (r1, g1, p1) = run_lines(self@.facts, buf@.skip(start as int));
                    r0 == prefix_ok(fragments@.map_values(|s: String| s@), r1) && g0 == g1 && p0
                        == p1
                }),
            ensures
                whole == buf@,
                start <= buf@.len(),
                first_index_of(buf@.skip(start as int), 10u8) is None,
                ({
                    let (r0, g0, p0) = run_lines(f0, whole);
                    let (r1, g1, p1) = run_lines(self@.facts, buf@.skip(start as int));
                    r0 == prefix_ok(fragments@.map_values(|s: String| s@), r1) && g0 == g1 && p0
                        == p1
                }),
            decreases buf@.len() - start,
        {
            let ghost s = buf@.skip(start as int);
            let ghost f = self@.facts;
            let ghost before = fragments@.map_values(|s: String| s@);
            let end = buf.len();
            match find_byte(&buf, start, end, 10u8) {
                None => {
                    assert(buf@.subrange(start as int, end as int) =~= s);
                    break ;
                },
                Some(k) => {
                    assert(buf@.subrange(start as int, end as int) =~= s);
                    let line = copy_range(&buf, start, k + 1);
                    assert(line@ =~= s.take(k - start + 1));
                    assert(s.skip(k - start + 1) =~= buf@.skip(k + 1));
                    let outcome = self.line(&line);
                    match outcome {
                        Err(e) => {
                            assert(run_lines(f, s) == (Err::<Seq<Seq<char>>, Seq<char>>(e@), self@.facts, buf@.skip(k + 1)));
                            self.pending = copy_range(&buf, k + 1, end);
                            assert(self.pending@ =~= buf@.skip(k + 1));
                            return Err(e);
                        },
                        Ok(mut more) => {
                            let ghost added = more@.map_values(|s: String| s@);
                            fragments.append(&mut more);
                            assert(fragments@.map_values(|s: String| s@) =~= before + added);
                            proof {
                                let (r1, g1, p1) = run_lines(self@.facts, buf@.skip(k + 1));
                                assert(prefix_ok(before, prefix_ok(added, r1)) == prefix_ok(
                                    before + added,
                                    r1,
                                )) by {
                                    if r1 is Ok {
                                        assert(before + (added + r1->Ok_0) =~= (before + added)
                                            + r1->Ok_0);
                                    }
                                }
                            }
                        },
                    }
                    start = k + 1;
                },
            }
        }
        let end = buf.len();
        self.pending = copy_range(&buf, start, end);
        assert(self.pending@ =~= buf@.skip(start as int));
        assert(fragments@.map_values(|s: String| s@) + Seq::<Seq<char>>::empty() =~= fragments@.map_values(
            |s: String| s@,
        ));
        Ok(fragments)
    }

    pub fn finish_reason(&self) -> (r: Option<&str>)
        ensures
            match r {
                Some(s) => self@.facts.finish_reason == Some(s@),
                None => self@.facts.finish_reason is None,
            },
    {
        match &self.finish_reason {
            Some(s) => Some(s.as_str()),
            None => None,
        }
    }

    pub fn saw_reasoning(&self) -> (r: bool)
        ensures
            r == self@.facts.saw_reasoning,
    {
        self.saw_reasoning
    }

    /// One complete line, newline included.
    fn line(&mut self, line: &Vec<u8>) -> (r: Result<Vec<String>, String>)
        ensures
            final(self)@.pending == old(self)@.pending,
            (fragments_model(r), final(self)@.facts) == line_effect(old(self)@.facts, line@),
    {
        let decoded = decode_lossy(line.as_slice());
        self.read_line(decoded.as_str())
    }

    /// One complete line, already decoded, line break included: a `data:`
    /// payload is read, every other line of the SSE framing is skipped.
    pub fn read_line(&mut self, line: &str) -> (r: Result<Vec<String>, String>)
        ensures
            final(self)@.pending == old(self)@.pending,
            (fragments_model(r), final(self)@.facts) == text_line_effect(old(self)@.facts, line@),
    {
        let chars = chars_of(line);
        let mut end = chars.len();
        assert(chars@.take(end as int) =~= chars@);
        while end > 0 && (chars[end - 1] == '\n' || chars[end - 1] == '\r')
            invariant
                end <= chars@.len(),
                trim_end_line_breaks(chars@) == trim_end_line_breaks(chars@.take(end as int)),
            decreases end,
        {
            assert(chars@.take(end as int).drop_last() =~= chars@.take(end - 1));
            end -= 1;
        }
        assert(chars@.take(end as int) =~= trim_end_line_breaks(chars@));
        let ghost text = chars@.take(end as int);
        let prefix = chars_of("data:");
        if !(prefix.len() <= end && starts_with_at(&chars, 0, &prefix)) {
            assert(!starts_with(text, "data:"@)) by {
                if prefix@.len() <= end {
                    assert(text.take(prefix@.len() as int) =~= chars@.subrange(0, prefix@.len() as int));
                }
            }
            let nothing: Vec<String> = Vec::new();
            assert(nothing@.map_values(|s: String| s@) =~= Seq::<Seq<char>>::empty());
            return Ok(nothing);
        }
        assert(text.take(prefix@.len() as int) =~= chars@.subrange(0, prefix@.len() as int));
        assert(text.skip(prefix@.len() as int) =~= chars@.subrange(prefix@.len() as int, end as int));
        let payload_chars = trim_range(&chars, prefix.len(), end);
        let payload = string_of(&payload_chars);
        self.payload(payload.as_str())
    }

    /// A `data:` payload, already trimmed.
    fn payload(&mut self, payload: &str) -> (r: Result<Vec<String>, String>)
        ensures
            final(self)@.pending == old(self)@.pending,
            (fragments_model(r), final(self)@.facts) == payload_effect(old(self)@.facts, payload@),
    {
        let nothing: Vec<String> = Vec::new();
        assert(nothing@.map_values(|s: String| s@) =~= Seq::<Seq<char>>::empty());
        if same_text(payload, "[DONE]") {
            return Ok(nothing);
        }
        match parse_json(payload) {
            Some(doc) => self.read_frame(&doc),
            None => Ok(nothing),
        }
    }

    /// A parsed `data:` payload: a frame's error ends the stream, its choices
    /// are absorbed, and a document that is not a frame is skipped.
    pub fn read_frame(&mut self, doc: &Json) -> (r: Result<Vec<String>, String>)
        ensures
            final(self)@.pending == old(self)@.pending,
            (fragments_model(r), final(self)@.facts) == frame_effect(old(self)@.facts, *doc),
    {
        let nothing: Vec<String> = Vec::new();
        assert(nothing@.map_values(|s: String| s@) =~= Seq::<Seq<char>>::empty());
        let frame = match frame_from_json(doc) {
            Some(frame) => frame,
            None => return Ok(nothing),
        };
        if let Some(message) = frame.error {
            return Err(message);
        }
        let ghost f0 = self@.facts;
        let ghost cs = frame.choices@.map_values(|c: crate::json::Choice| c.model());
        let mut fragments: Vec<String> = Vec::new();
        let mut i: usize = 0;
        assert(cs.take(0) =~= Seq::<ChoiceModel>::empty());
        while i < frame.choices.len()
            invariant
                i <= frame.choices@.len(),
                cs == frame.choices@.map_values(|c: crate::json::Choice| c.model()),
                self@.pending == old(self)@.pending,
                (fragments@.map_values(|s: String| s@), self@.facts) == absorb_choices(
                    f0,
                    cs.take(i as int),
                ),
            decreases frame.choices@.len() - i,
        {
            assert(cs.take(i + 1).drop_last() =~= cs.take(i as int));
            assert(cs.take(i + 1).last() == frame.choices@[i as int].model());
            let choice = &frame.choices[i];
            if let Some(reason) = &choice.finish_reason {
                self.finish_reason = Some(reason.clone());
            }
            if choice.reasoning {
                self.saw_reasoning = true;
            }
            if let Some(content) = &choice.content {
                if !content.as_str().is_empty() {
                    let ghost before = fragments@;
                    fragments.push(content.clone());
                    assert(fragments@.map_values(|s: String| s@) =~= before.map_values(
                        |s: String| s@,
                    ).push(content@));
                }
            }
            i += 1;
        }
        assert(cs.take(frame.choices@.len() as int) =~= cs);
        Ok(fragments)
    }
}

/// Reading `x + y` is reading `x`, then carrying on with what `x` left
/// unfinished followed by `y` — provided `x` ended without an error.
pub proof fn lemma_run_lines_append(f: StreamFacts, x: Seq<u8>, y: Seq<u8>)
    ensures
        ({
            let (r1, f1, rest1) = run_lines(f, x);
            let (r2, f2, rest2) = run_lines(f1, rest1 + y);
            &&& r1 is Ok ==> run_lines(f, x + y) == (prefix_ok(r1->Ok_0, r2), f2, rest2)
            &&& r1 is Err ==> run_lines(f, x + y).0 == r1 && run_lines(f, x + y).1 == f1
        }),
    decreases x.len(),
{
    lemma_first_index_of_facts(x, 10u8);
    match first_index_of(x, 10u8) {
        None => {
            let (r2, f2, rest2) = run_lines(f, x + y);
            if r2 is Ok {
                assert(Seq::<Seq<char>>::empty() + r2->Ok_0 =~= r2->Ok_0);
            }
        },
        Some(k) => {
            lemma_first_index_of(x + y, 10u8, k);
            assert((x + y).take(k + 1) =~= x.take(k + 1));
            assert((x + y).skip(k + 1) =~= x.skip(k + 1) + y);
            let (r, g) = line_effect(f, x.take(k + 1));
            if r is Ok {
                lemma_run_lines_append(g, x.skip(k + 1), y);
                let (r1, f1, rest1) = run_lines(g, x.skip(k + 1));
                let (r2, f2, rest2) = run_lines(f1, rest1 + y);
                if r1 is Ok && r2 is Ok {
                    assert(r->Ok_0 + (r1->Ok_0 + r2->Ok_0) =~= (r->Ok_0 + r1->Ok_0) + r2->Ok_0);
                }
            }
        },
    }
}

/// Where the transport happens to split the byte stream cannot change what
/// comes out of it: two chunks give what their concatenation gives in one
/// push, down to the state left behind — even when the split falls inside
/// `data:`, inside the JSON, or in the middle of a multi-byte character. A
/// failure reported in the first chunk is the failure either way.
pub proof fn chunk_boundaries_do_not_change_the_stream(d: DecoderModel, a: Seq<u8>, b: Seq<u8>)
    ensures
        ({
            let (r1, d1) = push_model(d, a);
            let (r2, d2) = push_model(d1, b);
            &&& r1 is Ok ==> push_model(d, a + b) == (prefix_ok(r1->Ok_0, r2), d2)
            &&& r1 is Err ==> push_model(d, a + b).0 == r1 && push_model(d, a + b).1.facts == d1.facts
        }),
{
    assert(d.pending + (a + b) =~= (d.pending + a) + b);
    lemma_run_lines_append(d.facts, d.pending + a, b);
}

/// Every non-empty answer text a frame carries is a fragment exactly as it
/// arrived — a lone newline or tab included, since those are the row breaks
/// and label separators the rows are built from; only the empty string, which
/// the opening frame carries beside the role, is dropped. A choice appends its
/// text after the fragments of the choices before it.
pub proof fn every_non_empty_content_is_a_fragment(
    f: StreamFacts,
    cs: Seq<ChoiceModel>,
    c: ChoiceModel,
    doc: Json,
)
    ensures
        c.content is Some && c.content->0.len() > 0 ==> absorb_choices(f, cs.push(c)).0
            == absorb_choices(f, cs).0.push(c.content->0),
        (c.content is None || c.content == Some(Seq::<char>::empty())) ==> absorb_choices(
            f,
            cs.push(c),
        ).0 == absorb_choices(f, cs).0,
        absorb_choices(f, cs.push(c)).1.finish_reason == (if c.finish_reason is Some {
            c.finish_reason
        } else {
            absorb_choices(f, cs).1.finish_reason
        }),
        absorb_choices(f, cs.push(c)).1.saw_reasoning == (absorb_choices(f, cs).1.saw_reasoning
            || c.reasoning),
        frame_of(doc) matches Some(fr) && fr.error is Some ==> frame_effect(f, doc) == (
            Err::<Seq<Seq<char>>, Seq<char>>(frame_of(doc)->0.error->0),
            f,
        ),
        frame_of(doc) == Some(crate::json::FrameModel { choices: seq![c], error: None })
            && c.content is Some && c.content->0.len() > 0 ==> frame_effect(f, doc).0 == Ok::<
            Seq<Seq<char>>,
            Seq<char>,
        >(seq![c.content->0]),
{
    assert(cs.push(c).drop_last() =~= cs);
    assert(seq![c].drop_last() =~= Seq::<ChoiceModel>::empty());
    let e = Seq::<ChoiceModel>::empty();
    assert(absorb_choices(f, e) == (Seq::<Seq<char>>::empty(), f));
    if c.content is Some && c.content->0.len() > 0 {
        assert(absorb_choices(f, seq![c]).0 == absorb_choices(f, e).0.push(c.content->0));
        assert(Seq::<Seq<char>>::empty().push(c.content->0) =~= seq![c.content->0]);
    }
}

} // verus!
