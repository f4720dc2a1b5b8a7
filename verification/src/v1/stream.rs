//! The streamed-response decoder: incremental framing of the JSON array
//! the service streams back, one element at a time, and its conversion to
//! typed response fragments.  A fragment that fails conversion ends the
//! stream; nothing after it is produced.

use vstd::prelude::*;

use crate::elems_view;
use crate::json::parse::advance;
use crate::json::parse::parse_text;
use crate::json::Json;
use crate::v1::errors::GoogleAPIError;
use crate::v1::gemini::response::gemini_response_of_json;
use crate::v1::gemini::response::GeminiResponse;
use crate::v1::gemini::response::GeminiResponseView;

verus! {

/// The position of the delimiter (`,` or `]`) that ends the array element
/// starting at `i`, scanning with a bracket depth, an in-string flag and
/// an escape flag; nothing if the element is still incomplete.
pub open spec fn elem_end(s: Seq<char>, i: int, depth: int, in_str: bool, esc: bool) -> Option<
    int,
>
    decreases s.len() - i,
{
    if i < 0 || i >= s.len() {
        None
    } else {
        let c = s[i];
        if depth == 0 && !in_str && (c == ',' || c == ']') {
            Some(i)
        } else if in_str {
            if esc {
                elem_end(s, i + 1, depth, true, false)
            } else if c == '\\' {
                elem_end(s, i + 1, depth, true, true)
            } else if c == '"' {
                elem_end(s, i + 1, depth, false, false)
            } else {
                elem_end(s, i + 1, depth, true, false)
            }
        } else if c == '"' {
            elem_end(s, i + 1, depth, true, false)
        } else if c == '[' || c == '{' {
            elem_end(s, i + 1, depth + 1, false, false)
        } else if c == ']' || c == '}' {
            elem_end(
                s,
                i + 1,
                if depth > 0 {
                    depth - 1
                } else {
                    0
                },
                false,
                false,
            )
        } else {
            elem_end(s, i + 1, depth, false, false)
        }
    }
}

/// The typed fragment one framed element decodes to, if its text is JSON
/// matching the response schema.
pub open spec fn fragment_response(frag: Seq<char>) -> Option<GeminiResponseView> {
    match parse_text(frag) {
        Some(j) => gemini_response_of_json(j),
        None => None,
    }
}

/// The complete elements found from `i` on: each one's text, up to its
/// delimiter, stopping at the element the body breaks off in.
pub open spec fn frames_from(s: Seq<char>, i: int) -> Seq<Seq<char>>
    decreases s.len() - i,
{
    if i < 0 || i > s.len() {
        Seq::empty()
    } else {
        match elem_end(s, i, 0, false, false) {
            None => Seq::empty(),
            Some(j) => {
                let j2 = if i <= j < s.len() {
                    j
                } else {
                    i
                };
                let frag = s.subrange(i, j2);
                if s[j2] == ',' {
                    seq![frag] + frames_from(s, advance(s, j2 + 1))
                } else {
                    seq![frag]
                }
            },
        }
    }
}

/// True when the framing from `i` on runs to a closing bracket and every
/// element on the way converts to a typed fragment.
pub open spec fn stream_clean_from(s: Seq<char>, i: int) -> bool
    decreases s.len() - i,
{
    if i < 0 || i > s.len() {
        false
    } else {
        match elem_end(s, i, 0, false, false) {
            None => false,
            Some(j) => {
                let j2 = if i <= j < s.len() {
                    j
                } else {
                    i
                };
                let frag = s.subrange(i, j2);
                match fragment_response(frag) {
                    None => false,
                    Some(_) => if s[j2] == ',' {
                        stream_clean_from(s, advance(s, j2 + 1))
                    } else {
                        true
                    },
                }
            },
        }
    }
}

/// The typed fragments of the leading run of convertible elements: the
/// sequence ends at the first element that does not convert.
pub open spec fn converted_prefix(fs: Seq<Seq<char>>) -> Seq<GeminiResponseView>
    decreases fs.len(),
{
    if fs.len() == 0 {
        Seq::empty()
    } else {
        match fragment_response(fs[0]) {
            Some(g) => seq![g] + converted_prefix(fs.drop_first()),
            None => Seq::empty(),
        }
    }
}

/// The framed elements of a whole streamed body: nothing unless the body
/// opens a JSON array after optional whitespace.
pub open spec fn stream_fragments(s: Seq<char>) -> Seq<Seq<char>> {
    let k0 = advance(s, 0);
    if k0 < s.len() && s[k0] == '[' {
        let k1 = advance(s, k0 + 1);
        if k1 < s.len() && s[k1] == ']' {
            Seq::empty()
        } else {
            frames_from(s, k1)
        }
    } else {
        Seq::empty()
    }
}

/// True when the whole streamed body frames and converts cleanly.
pub open spec fn stream_clean(s: Seq<char>) -> bool {
    let k0 = advance(s, 0);
    if k0 < s.len() && s[k0] == '[' {
        let k1 = advance(s, k0 + 1);
        if k1 < s.len() && s[k1] == ']' {
            true
        } else {
            stream_clean_from(s, k1)
        }
    } else {
        false
    }
}

/// When every framed element converts, the stream yields exactly one
/// typed fragment per element, in element order.
pub proof fn lemma_stream_yields_all(fs: Seq<Seq<char>>)
    requires
        forall|k: int| 0 <= k < fs.len() ==> fragment_response(#[trigger] fs[k]) is Some,
    ensures
        converted_prefix(fs).len() == fs.len(),
        forall|k: int|
            0 <= k < fs.len() ==> #[trigger] converted_prefix(fs)[k] == fragment_response(
                fs[k],
            )->0,
    decreases fs.len(),
{
    if fs.len() > 0 {
        let rest = fs.drop_first();
        assert forall|k: int| 0 <= k < rest.len() implies fragment_response(
            #[trigger] rest[k],
        ) is Some by {
            assert(rest[k] == fs[k + 1]);
        }
        lemma_stream_yields_all(rest);
        assert forall|k: int| 0 <= k < fs.len() implies #[trigger] converted_prefix(fs)[k]
            == fragment_response(fs[k])->0 by {
            if k > 0 {
                assert(converted_prefix(fs)[k] == converted_prefix(rest)[k - 1]);
                assert(rest[k - 1] == fs[k]);
            }
        }
    }
}

/// When element `b` is the first that fails conversion, the stream
/// yields exactly the fragments before it, in order, and nothing after.
pub proof fn lemma_stream_stops_at_bad(fs: Seq<Seq<char>>, b: int)
    requires
        0 <= b < fs.len(),
        forall|k: int| 0 <= k < b ==> fragment_response(#[trigger] fs[k]) is Some,
        fragment_response(fs[b]) is None,
    ensures
        converted_prefix(fs).len() == b,
        forall|k: int|
            0 <= k < b ==> #[trigger] converted_prefix(fs)[k] == fragment_response(fs[k])->0,
    decreases fs.len(),
{
    if b > 0 {
        let rest = fs.drop_first();
        assert forall|k: int| 0 <= k < b - 1 implies fragment_response(
            #[trigger] rest[k],
        ) is Some by {
            assert(rest[k] == fs[k + 1]);
        }
        assert(rest[b - 1] == fs[b]);
        lemma_stream_stops_at_bad(rest, b - 1);
        assert forall|k: int| 0 <= k < b implies #[trigger] converted_prefix(fs)[k]
            == fragment_response(fs[k])->0 by {
            if k > 0 {
                assert(converted_prefix(fs)[k] == converted_prefix(rest)[k - 1]);
                assert(rest[k - 1] == fs[k]);
            }
        }
    }
}


/// A clean stream's every framed element converts: together with
/// [`lemma_stream_yields_all`], a clean body of `N` elements yields
/// exactly `N` fragments.
pub proof fn lemma_clean_stream_converts_all(s: Seq<char>, i: int)
    requires
        stream_clean_from(s, i),
    ensures
        forall|k: int|
            0 <= k < frames_from(s, i).len() ==> fragment_response(
                #[trigger] frames_from(s, i)[k],
            ) is Some,
    decreases s.len() - i,
{
    let fr = frames_from(s, i);
    if 0 <= i <= s.len() {
        match elem_end(s, i, 0, false, false) {
            Some(j) => {
                let j2 = if i <= j < s.len() {
                    j
                } else {
                    i
                };
                let frag = s.subrange(i, j2);
                if s[j2] == ',' {
                    let next = advance(s, j2 + 1);
                    lemma_clean_stream_converts_all(s, next);
                    assert(fr =~= seq![frag] + frames_from(s, next));
                    assert forall|k: int| 0 <= k < fr.len() implies fragment_response(
                        #[trigger] fr[k],
                    ) is Some by {
                        if k > 0 {
                            assert(fr[k] == frames_from(s, next)[k - 1]);
                        }
                    }
                } else {
                    assert(fr =~= seq![frag]);
                }
            },
            None => {
            },
        }
    }
}

/// Finds the delimiter ending the element at `i`, mirroring [`elem_end`].
fn elem_end_exec(s: &Vec<char>, i: usize) -> (r: Option<usize>)
    requires
        i <= s@.len(),
    ensures
        match r {
            Some(j) => elem_end(s@, i as int, 0, false, false) == Some(j as int) && i <= j
                < s@.len(),
            None => elem_end(s@, i as int, 0, false, false) is None,
        },
{
    let n = s.len();
    let mut j: usize = i;
    let mut depth: usize = 0;
    let mut in_str: bool = false;
    let mut esc: bool = false;
    loop
        invariant
            i <= j <= n,
            n == s@.len(),
            depth <= j,
            !in_str ==> !esc,
            elem_end(s@, i as int, 0, false, false) == elem_end(
                s@,
                j as int,
                depth as int,
                in_str,
                esc,
            ),
        ensures
            j == n || (depth == 0 && !in_str && (s@[j as int] == ',' || s@[j as int] == ']')),
            i <= j <= n,
            elem_end(s@, i as int, 0, false, false) == elem_end(
                s@,
                j as int,
                depth as int,
                in_str,
                esc,
            ),
        decreases n - j,
    {
        if j >= n {
            break ;
        }
        let c = s[j];
        if depth == 0 && !in_str && (c == ',' || c == ']') {
            break ;
        }
        let ghost j0 = j as int;
        let ghost depth0 = depth as int;
        let ghost in_str0 = in_str;
        let ghost esc0 = esc;
        if in_str {
            if esc {
                esc = false;
            } else if c == '\\' {
                esc = true;
            } else if c == '"' {
                in_str = false;
            }
        } else if c == '"' {
            in_str = true;
        } else if c == '[' || c == '{' {
            depth = depth + 1;
        } else if c == ']' || c == '}' {
            if depth > 0 {
                depth = depth - 1;
            }
        }
        j = j + 1;
        proof {
            assert(s@[j0] == c);
            if in_str0 {
                if esc0 {
                    assert(elem_end(s@, j0, depth0, in_str0, esc0) == elem_end(
                        s@, j as int, depth as int, in_str, esc));
                } else if c == '\\' {
                    assert(elem_end(s@, j0, depth0, in_str0, esc0) == elem_end(
                        s@, j as int, depth as int, in_str, esc));
                } else if c == '"' {
                    assert(elem_end(s@, j0, depth0, in_str0, esc0) == elem_end(
                        s@, j as int, depth as int, in_str, esc));
                } else {
                    assert(elem_end(s@, j0, depth0, in_str0, esc0) == elem_end(
                        s@, j as int, depth as int, in_str, esc));
                }
            } else if c == '"' {
                assert(elem_end(s@, j0, depth0, in_str0, esc0) == elem_end(
                    s@, j as int, depth as int, in_str, esc));
            } else if c == '[' || c == '{' {
                assert(elem_end(s@, j0, depth0, in_str0, esc0) == elem_end(
                    s@, j as int, depth as int, in_str, esc));
            } else if c == ']' || c == '}' {
                assert(elem_end(s@, j0, depth0, in_str0, esc0) == elem_end(
                    s@, j as int, depth as int, in_str, esc));
            } else {
                assert(elem_end(s@, j0, depth0, in_str0, esc0) == elem_end(
                    s@, j as int, depth as int, in_str, esc));
            }
        }
    }
    if j >= n {
        assert(elem_end(s@, j as int, depth as int, in_str, esc) is None);
        None
    } else {
        assert(elem_end(s@, j as int, depth as int, in_str, esc) == Some(j as int));
        Some(j)
    }
}

/// The error reported when the body breaks off or is not a JSON array.
fn framing_error() -> (r: GoogleAPIError)
    ensures
        r.code is None,
        r.message@.len() > 0,
{
    let message = "Failed to read a JSON array element from the response stream".to_owned();
    proof {
        reveal_strlit("Failed to read a JSON array element from the response stream");
    }
    GoogleAPIError { message, code: None }
}

/// The error reported when one framed element does not match the
/// response schema.
fn conversion_error() -> (r: GoogleAPIError)
    ensures
        r.code is None,
        r.message@.len() > 0,
{
    let message =
        "Failed to deserialize a stream fragment into v1::gemini::response::GeminiResponse".to_owned();
    proof {
        reveal_strlit(
            "Failed to deserialize a stream fragment into v1::gemini::response::GeminiResponse",
        );
    }
    GoogleAPIError { message, code: None }
}

/// Finds the first non-whitespace position at or after `i`.
fn stream_advance_exec(s: &Vec<char>, i: usize) -> (r: usize)
    requires
        i <= s@.len(),
    ensures
        r as int == advance(s@, i as int),
        i <= r <= s@.len(),
{
    let n = s.len();
    let mut r: usize = i;
    while r < n && (s[r] == ' ' || s[r] == '\t' || s[r] == '\n' || s[r] == '\r')
        invariant
            n == s@.len(),
            i <= r <= n,
            crate::json::parse::skip_ws(s@, i as int) == crate::json::parse::skip_ws(
                s@,
                r as int,
            ),
        decreases n - r,
    {
        r = r + 1;
    }
    proof {
        assert(crate::json::parse::skip_ws(s@, r as int) == r as int);
    }
    r
}

/// Decodes the elements from `i` on, appending each converted fragment to
/// `out`, and stopping with an error at the first element that breaks
/// off or does not convert.
fn decode_fragments_from(s: &Vec<char>, i: usize, out: &mut Vec<GeminiResponse>) -> (err: Option<
    GoogleAPIError,
>)
    requires
        i <= s@.len(),
    ensures
        elems_view(final(out)@) =~= elems_view(old(out)@) + converted_prefix(
            frames_from(s@, i as int),
        ),
        err is None <==> stream_clean_from(s@, i as int),
    decreases s@.len() - i,
{
    match elem_end_exec(s, i) {
        None => {
            proof {
                assert(frames_from(s@, i as int) =~= Seq::<Seq<char>>::empty());
                assert(elems_view(out@) =~= elems_view(out@) + converted_prefix(
                    Seq::<Seq<char>>::empty(),
                ));
            }
            Some(framing_error())
        },
        Some(j) => {
            let n = s.len();
            assert(j < n);
            let frag = crate::json::parse::chars_range(s, i, j);
            let ghost fs = frames_from(s@, i as int);
            proof {
                if s@[j as int] == ',' {
                    assert(fs =~= seq![frag@] + frames_from(s@, advance(s@, j + 1 as int)));
                } else {
                    assert(fs =~= seq![frag@]);
                }
            }
            let parsed = match Json::parse_text_chars(&frag) {
                Some(v) => GeminiResponse::from_json(&v),
                None => None,
            };
            match parsed {
                Some(g) => {
                    let ghost gview = g@;
                    out.push(g);
                    proof {
                        assert(fragment_response(frag@) == Some(gview));
                        assert(elems_view(out@) =~= elems_view(old(out)@).push(gview));
                    }
                    if s[j] == ',' {
                        let k = stream_advance_exec(s, j + 1);
                        let r = decode_fragments_from(s, k, out);
                        proof {
                            assert(converted_prefix(fs) =~= seq![gview] + converted_prefix(
                                fs.drop_first(),
                            ));
                            assert(fs.drop_first() =~= frames_from(s@, advance(s@, j + 1 as int)));
                            assert(elems_view(out@) =~= elems_view(old(out)@) + converted_prefix(
                                fs,
                            ));
                        }
                        r
                    } else {
                        proof {
                            assert(fs =~= seq![frag@]);
                            assert(fs[0] == frag@);
                            assert(fs.drop_first() =~= Seq::<Seq<char>>::empty());
                            assert(converted_prefix(fs) =~= seq![gview] + converted_prefix(
                                fs.drop_first(),
                            ));
                            assert(converted_prefix(fs) =~= seq![gview]);
                            assert(elems_view(out@) =~= elems_view(old(out)@) + converted_prefix(
                                fs,
                            ));
                        }
                        None
                    }
                },
                None => {
                    proof {
                        assert(fragment_response(frag@) is None);
                        assert(converted_prefix(fs) =~= Seq::<GeminiResponseView>::empty());
                        assert(elems_view(out@) =~= elems_view(old(out)@) + converted_prefix(fs));
                    }
                    Some(conversion_error())
                },
            }
        },
    }
}

/// Decodes a complete streamed body: the converted fragments of the
/// leading run of good elements, in arrival order, and the terminal
/// error, if the body is not a clean array of convertible elements.
pub fn decode_streamed_body(body: &Vec<char>) -> (r: (Vec<GeminiResponse>, Option<GoogleAPIError>))
    ensures
        elems_view(r.0@) =~= converted_prefix(stream_fragments(body@)),
        r.1 is None <==> stream_clean(body@),
{
    let mut out: Vec<GeminiResponse> = Vec::new();
    let k0 = stream_advance_exec(body, 0);
    if k0 < body.len() && body[k0] == '[' {
        let k1 = stream_advance_exec(body, k0 + 1);
        if k1 < body.len() && body[k1] == ']' {
            proof {
                assert(elems_view(out@) =~= converted_prefix(stream_fragments(body@)));
            }
            (out, None)
        } else {
            let err = decode_fragments_from(body, k1, &mut out);
            (out, err)
        }
    } else {
        proof {
            assert(elems_view(out@) =~= converted_prefix(stream_fragments(body@)));
        }
        (out, Some(framing_error()))
    }
}


/// Where a streamed response stands: before the opening bracket, inside
/// the element list, finished, or stopped at an error.
#[derive(Debug, Clone, PartialEq, Eq, Structural)]
pub enum StreamPhase {
    Start,
    Items,
    Done,
    Failed,
}

/// One pull on a streamed response: a decoded fragment, a request for
/// more body text, the end of the stream, or a terminal error.
pub enum StreamStep {
    Ready(GeminiResponse),
    NeedMore,
    Finished,
    Failed(GoogleAPIError),
}

/// The mathematical shape of one pull.
pub enum StreamStepView {
    Ready(GeminiResponseView),
    NeedMore,
    Finished,
    Failed,
}

/// One pull at the element list: what comes out, the next phase, and the
/// text kept for later, never more than the element being completed.
pub open spec fn items_step(buf: Seq<char>) -> (StreamStepView, StreamPhase, Seq<char>) {
    let a = advance(buf, 0);
    if a >= buf.len() {
        (StreamStepView::NeedMore, StreamPhase::Items, Seq::empty())
    } else if buf[a] == ']' {
        (StreamStepView::Finished, StreamPhase::Done, buf.skip(a + 1))
    } else {
        match elem_end(buf, a, 0, false, false) {
            None => (StreamStepView::NeedMore, StreamPhase::Items, buf.skip(a)),
            Some(j) => {
                let j2 = if a <= j < buf.len() {
                    j
                } else {
                    a
                };
                let frag = buf.subrange(a, j2);
                match fragment_response(frag) {
                    None => (StreamStepView::Failed, StreamPhase::Failed, buf.skip(a)),
                    Some(g) => if buf[j2] == ',' {
                        (StreamStepView::Ready(g), StreamPhase::Items, buf.skip(j2 + 1))
                    } else {
                        (StreamStepView::Ready(g), StreamPhase::Done, buf.skip(j2 + 1))
                    },
                }
            },
        }
    }
}

/// One pull on a streamed response in any phase.
pub open spec fn decoder_step(phase: StreamPhase, buf: Seq<char>) -> (
    StreamStepView,
    StreamPhase,
    Seq<char>,
) {
    match phase {
        StreamPhase::Done => (StreamStepView::Finished, StreamPhase::Done, buf),
        StreamPhase::Failed => (StreamStepView::Finished, StreamPhase::Failed, buf),
        StreamPhase::Start => {
            let k = advance(buf, 0);
            if k >= buf.len() {
                (StreamStepView::NeedMore, StreamPhase::Start, Seq::empty())
            } else if buf[k] == '[' {
                items_step(buf.skip(k + 1))
            } else {
                (StreamStepView::Failed, StreamPhase::Failed, buf.skip(k))
            }
        },
        StreamPhase::Items => items_step(buf),
    }
}

/// A streamed reply being decoded: a forward-only, single-pass sequence
/// of typed fragments, pulled one at a time as body text arrives.  The
/// buffer holds at most the element being completed.
#[derive(Debug)]
pub struct StreamedGeminiResponse {
    pub phase: StreamPhase,
    pub buf: Vec<char>,
}

/// Copies the characters of `v[k..]`.
fn tail_of(v: &Vec<char>, k: usize) -> (r: Vec<char>)
    requires
        k <= v@.len(),
    ensures
        r@ == v@.skip(k as int),
{
    let r = crate::json::parse::chars_range(v, k, v.len());
    proof {
        assert(v@.subrange(k as int, v@.len() as int) =~= v@.skip(k as int));
    }
    r
}

impl StreamedGeminiResponse {
    /// An empty stream, waiting for the body to arrive.
    pub fn new_stream() -> (r: StreamedGeminiResponse)
        ensures
            r.phase == StreamPhase::Start,
            r.buf@ == Seq::<char>::empty(),
    {
        let buf: Vec<char> = Vec::new();
        StreamedGeminiResponse { phase: StreamPhase::Start, buf }
    }

    /// Hands the decoder the next run of body text.
    pub fn push_chunk(&mut self, chunk: &str)
        ensures
            final(self).phase == old(self).phase,
            final(self).buf@ == old(self).buf@ + chunk@,
    {
        let cs = crate::text::str_to_chars(chunk);
        let n = cs.len();
        let mut i: usize = 0;
        while i < n
            invariant
                n == cs@.len(),
                cs@ == chunk@,
                i <= n,
                self.phase == old(self).phase,
                self.buf@ =~= old(self).buf@ + chunk@.take(i as int),
            decreases n - i,
        {
            self.buf.push(cs[i]);
            proof {
                assert(self.buf@ =~= old(self).buf@ + chunk@.take(i + 1 as int));
            }
            i = i + 1;
        }
        proof {
            assert(chunk@.take(n as int) =~= chunk@);
        }
    }

    /// Pulls the next fragment out of the buffered text.
    pub fn next_fragment(&mut self) -> (r: StreamStep)
        ensures
            ({
                let step = decoder_step(old(self).phase, old(self).buf@);
                &&& (match r {
                    StreamStep::Ready(g) => step.0 == StreamStepView::Ready(g@),
                    StreamStep::NeedMore => step.0 == StreamStepView::NeedMore,
                    StreamStep::Finished => step.0 == StreamStepView::Finished,
                    StreamStep::Failed(_) => step.0 == StreamStepView::Failed,
                })
                &&& final(self).phase == step.1
                &&& final(self).buf@ == step.2
            }),
    {
        match self.phase {
            StreamPhase::Done => StreamStep::Finished,
            StreamPhase::Failed => StreamStep::Finished,
            StreamPhase::Start => {
                let k = stream_advance_exec(&self.buf, 0);
                if k >= self.buf.len() {
                    self.buf = Vec::new();
                    StreamStep::NeedMore
                } else if self.buf[k] == '[' {
                    let t = tail_of(&self.buf, k + 1);
                    self.buf = t;
                    self.phase = StreamPhase::Items;
                    self.items_step_exec()
                } else {
                    let t = tail_of(&self.buf, k);
                    self.buf = t;
                    self.phase = StreamPhase::Failed;
                    StreamStep::Failed(framing_error())
                }
            },
            StreamPhase::Items => self.items_step_exec(),
        }
    }

    /// Pulls the next fragment at the element list.
    fn items_step_exec(&mut self) -> (r: StreamStep)
        requires
            old(self).phase == StreamPhase::Items,
        ensures
            ({
                let step = items_step(old(self).buf@);
                &&& (match r {
                    StreamStep::Ready(g) => step.0 == StreamStepView::Ready(g@),
                    StreamStep::NeedMore => step.0 == StreamStepView::NeedMore,
                    StreamStep::Finished => step.0 == StreamStepView::Finished,
                    StreamStep::Failed(_) => step.0 == StreamStepView::Failed,
                })
                &&& final(self).phase == step.1
                &&& final(self).buf@ == step.2
            }),
    {
        let a = stream_advance_exec(&self.buf, 0);
        if a >= self.buf.len() {
            self.buf = Vec::new();
            StreamStep::NeedMore
        } else if self.buf[a] == ']' {
            let t = tail_of(&self.buf, a + 1);
            self.buf = t;
            self.phase = StreamPhase::Done;
            StreamStep::Finished
        } else {
            match elem_end_exec(&self.buf, a) {
                None => {
                    let t = tail_of(&self.buf, a);
                    self.buf = t;
                    StreamStep::NeedMore
                },
                Some(j) => {
                    let frag = crate::json::parse::chars_range(&self.buf, a, j);
                    let parsed = match Json::parse_text_chars(&frag) {
                        Some(v) => GeminiResponse::from_json(&v),
                        None => None,
                    };
                    match parsed {
                        Some(g) => {
                            let is_comma = self.buf[j] == ',';
                            let t = tail_of(&self.buf, j + 1);
                            self.buf = t;
                            if is_comma {
                                self.phase = StreamPhase::Items;
                            } else {
                                self.phase = StreamPhase::Done;
                            }
                            StreamStep::Ready(g)
                        },
                        None => {
                            let t = tail_of(&self.buf, a);
                            self.buf = t;
                            self.phase = StreamPhase::Failed;
                            StreamStep::Failed(conversion_error())
                        },
                    }
                },
            }
        }
    }
}

} // verus!
