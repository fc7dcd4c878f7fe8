//! Server-sent events.
//!
//! Bytes that arrive in pieces are collected until a blank line ends an event.
//! Line feeds and carriage return line feeds both end a line; comments and
//! unknown fields are passed over when an event is read. Its bytes are kept as
//! they came, so that they can be handed on unchanged. Text is made of the bytes
//! of a whole event, never of a piece, which may end in the middle of a character.

use vstd::prelude::*;

use crate::text;

verus! {

/// What `String::from_utf8_lossy` makes of bytes: the text, with U+FFFD for
/// what is not UTF-8.
pub uninterp spec fn utf8_lossy(b: Seq<u8>) -> Seq<char>;

/// `String::from_utf8_lossy`. Bytes that are UTF-8 give exactly the text that
/// they encode.
#[verifier::external_body]
pub(crate) fn lossy_text(b: &[u8]) -> (r: String)
    ensures
        r@ == utf8_lossy(b@),
        vstd::utf8::valid_utf8(b@) ==> r@ == vstd::utf8::decode_utf8(b@),
{
    String::from_utf8_lossy(b).into_owned()
}

/// The text of bytes: what they encode when they are UTF-8, else with U+FFFD for
/// what is not.
pub open spec fn decoded(b: Seq<u8>) -> Seq<char> {
    if vstd::utf8::valid_utf8(b) {
        vstd::utf8::decode_utf8(b)
    } else {
        utf8_lossy(b)
    }
}

/// What an event says.
#[derive(Debug, Clone, PartialEq, Eq)]
pub struct SseEvent {
    /// The name that the sender gave it.
    pub name: Option<String>,
    /// Its data lines.
    pub data: String,
}

/// What an event says, as values.
pub struct EventView {
    pub name: Option<Seq<char>>,
    pub data: Seq<char>,
}

impl View for SseEvent {
    type V = EventView;

    open spec fn view(&self) -> EventView {
        EventView { name: text::opt_text(self.name), data: self.data@ }
    }
}

// ---- One event ----------------------------------------------------------

/// `s` without the carriage returns at its end.
pub open spec fn strip_crs(s: Seq<char>) -> Seq<char>
    decreases s.len(),
{
    if s.len() > 0 && s[s.len() - 1] == '\r' {
        strip_crs(s.subrange(0, s.len() - 1))
    } else {
        s
    }
}

/// What follows the field name `key` in `line`.
pub open spec fn after(line: Seq<char>, key: Seq<char>) -> Seq<char> {
    line.subrange(key.len() as int, line.len() as int)
}

/// The name in the last `event:` line.
pub open spec fn name_in(lines: Seq<Seq<char>>) -> Option<Seq<char>>
    decreases lines.len(),
{
    if lines.len() == 0 {
        None
    } else {
        let l = strip_crs(lines.last());
        if text::starts_with(l, "event:"@) {
            Some(text::trim(after(l, "event:"@)))
        } else {
            name_in(lines.drop_last())
        }
    }
}

/// The contents of the `data:` lines in order.
pub open spec fn data_in(lines: Seq<Seq<char>>) -> Seq<Seq<char>>
    decreases lines.len(),
{
    if lines.len() == 0 {
        Seq::empty()
    } else {
        let l = strip_crs(lines.last());
        if text::starts_with(l, "data:"@) {
            data_in(lines.drop_last()).push(text::trim_start(after(l, "data:"@)))
        } else {
            data_in(lines.drop_last())
        }
    }
}

/// The event that the text `raw` describes.
pub open spec fn event_of(raw: Seq<char>) -> EventView {
    let lines = text::split(raw, '\n');
    EventView { name: name_in(lines), data: text::join(data_in(lines), seq!['\n']) }
}

/// `s` without the carriage returns at its end.
fn without_crs(s: &str) -> (r: Vec<char>)
    ensures
        r@ == strip_crs(s@),
{
    let mut v = text::chars_of(s);
    while v.len() > 0 && v[v.len() - 1] == '\r'
        invariant
            strip_crs(v@) == strip_crs(s@),
        decreases v.len(),
    {
        let ghost before = v@;
        let _ = v.pop();
        assert(v@ == before.subrange(0, before.len() - 1));
    }
    v
}

/// Read the event that the text `raw` describes.
pub fn parse_sse_frame(raw: &str) -> (r: SseEvent)
    ensures
        r@ == event_of(raw@),
{
    let lines = text::split_on(raw, '\n');
    let ghost all = text::texts(lines@);
    let event_key = text::chars_of("event:");
    let data_key = text::chars_of("data:");
    let mut name: Option<String> = None;
    let mut data: Vec<String> = Vec::new();
    let mut i: usize = 0;
    proof {
        reveal_strlit("event:");
        reveal_strlit("data:");
    }
    while i < lines.len()
        invariant
            i <= lines.len(),
            all == text::texts(lines@),
            event_key@ == "event:"@,
            data_key@ == "data:"@,
            event_key.len() == 6,
            data_key.len() == 5,
            event_key@[0] == 'e',
            data_key@[0] == 'd',
            text::opt_text(name) == name_in(all.take(i as int)),
            text::texts(data@) == data_in(all.take(i as int)),
        decreases lines.len() - i,
    {
        let line = without_crs(lines[i].as_str());
        proof {
            assert(all.take(i + 1).drop_last() == all.take(i as int));
            assert(all.take(i + 1).last() == lines@[i as int]@);
        }
        if text::is_at(line.as_slice(), event_key.as_slice(), 0) {
            proof {
                assert(line@.subrange(0, 6)[0] == line@[0]);
                if text::starts_with(line@, "data:"@) {
                    assert(line@.subrange(0, 5)[0] == line@[0]);
                }
            }
            let (a, b) = text::trim_range(line.as_slice(), 6, line.len());
            name = Some(text::string_of(line.as_slice(), a, b));
        } else if text::is_at(line.as_slice(), data_key.as_slice(), 0) {
            let a: usize = text::skip_white(line.as_slice(), 5, line.len());
            let piece = text::string_of(line.as_slice(), a, line.len());
            let ghost before = text::texts(data@);
            data.push(piece);
            assert(text::texts(data@) == before.push(piece@));
        }
        i += 1;
    }
    assert(all.take(i as int) == all);
    proof {
        reveal_strlit("\n");
        assert("\n"@ == seq!['\n']);
    }
    SseEvent { name, data: text::joined(&data, "\n") }
}

// ---- A stream of events -------------------------------------------------

/// An event with its bytes.
#[derive(Debug, Clone, PartialEq, Eq)]
pub struct SseFrame {
    /// What it says.
    pub event: SseEvent,
    /// Its bytes, with the blank line that ends it.
    pub raw: Vec<u8>,
}

/// An event with its bytes, as values.
pub struct FrameView {
    pub event: EventView,
    pub raw: Seq<u8>,
}

impl View for SseFrame {
    type V = FrameView;

    open spec fn view(&self) -> FrameView {
        FrameView { event: self.event@, raw: self.raw@ }
    }
}

/// The byte that ends a line.
pub const LF: u8 = 10;

/// The byte that may stand before it.
pub const CR: u8 = 13;

/// How long the line end and the blank line at `i` are; zero when there is no
/// blank line after a line that ends at `i`.
pub open spec fn blank_len(s: Seq<u8>, i: int) -> int {
    if 0 <= i < s.len() && s[i] == LF {
        if i + 1 < s.len() && s[i + 1] == LF {
            2
        } else if i + 2 < s.len() && s[i + 1] == CR && s[i + 2] == LF {
            3
        } else {
            0
        }
    } else {
        0
    }
}

/// The first line end at or after `from` that a blank line follows.
pub open spec fn first_blank(s: Seq<u8>, from: int) -> Option<int>
    decreases s.len() - from,
{
    if from >= s.len() {
        None
    } else if blank_len(s, from) > 0 {
        Some(from)
    } else {
        first_blank(s, from + 1)
    }
}

/// The event that ends with the blank line at `i`.
pub open spec fn frame_before(s: Seq<u8>, i: int) -> FrameView {
    FrameView {
        event: event_of(decoded(s.take(i))),
        raw: s.take(i + blank_len(s, i)),
    }
}

/// What is left once the event before the blank line at `i` is taken.
pub open spec fn rest_after(s: Seq<u8>, i: int) -> Seq<u8> {
    s.skip(i + blank_len(s, i))
}

/// Whether the end of a stream holds no event.
pub open spec fn is_empty_end(s: Seq<u8>) -> bool {
    text::trim(decoded(s)).len() == 0
}

/// The event at the end of a stream, which the stream's end ends; a blank line is
/// put behind it.
pub open spec fn last_frame(s: Seq<u8>) -> FrameView {
    FrameView { event: event_of(decoded(s)), raw: s + seq![LF, LF] }
}

/// Bytes that have arrived and not yet been read.
#[derive(Debug)]
pub struct SseBuffer {
    buf: Vec<u8>,
}

impl View for SseBuffer {
    type V = Seq<u8>;

    closed spec fn view(&self) -> Seq<u8> {
        self.buf@
    }
}

/// The bytes from one index to another.
pub fn bytes_between(v: &Vec<u8>, from: usize, to: usize) -> (r: Vec<u8>)
    requires
        from <= to <= v.len(),
    ensures
        r@ == v@.subrange(from as int, to as int),
{
    let mut out: Vec<u8> = Vec::new();
    let mut i: usize = from;
    while i < to
        invariant
            from <= i <= to <= v.len(),
            out@ == v@.subrange(from as int, i as int),
        decreases to - i,
    {
        out.push(v[i]);
        i += 1;
        assert(out@ =~= v@.subrange(from as int, i as int));
    }
    out
}

impl SseBuffer {
    /// Nothing has arrived.
    pub fn new() -> (r: Self)
        ensures
            r@ == Seq::<u8>::empty(),
    {
        SseBuffer { buf: Vec::new() }
    }

    /// A piece of the stream has arrived.
    pub fn push(&mut self, chunk: &[u8])
        ensures
            final(self)@ == old(self)@ + chunk@,
    {
        let ghost before = self@;
        let mut i: usize = 0;
        assert(before + chunk@.take(0) =~= before);
        while i < chunk.len()
            invariant
                i <= chunk.len(),
                self@ == before + chunk@.take(i as int),
            decreases chunk.len() - i,
        {
            self.buf.push(chunk[i]);
            i += 1;
            assert(self@ =~= before + chunk@.take(i as int));
        }
        assert(chunk@.take(i as int) =~= chunk@);
    }

    /// The first event, when a blank line has ended it.
    pub fn next_event(&mut self) -> (r: Option<SseFrame>)
        ensures
            match first_blank(old(self)@, 0) {
                Some(i) => r is Some && r->0@ == frame_before(old(self)@, i) && final(self)@
                    == rest_after(old(self)@, i),
                None => r is None && final(self)@ == old(self)@,
            },
    {
        let n: usize = self.buf.len();
        let mut i: usize = 0;
        while i < n
            invariant
                i <= n,
                n == self.buf.len(),
                self@ == old(self)@,
                first_blank(self@, 0) == first_blank(self@, i as int),
            decreases n - i,
        {
            let k: usize = if self.buf[i] != LF {
                0
            } else if n - i > 1 && self.buf[i + 1] == LF {
                2
            } else if n - i > 2 && self.buf[i + 1] == CR && self.buf[i + 2] == LF {
                3
            } else {
                0
            };
            if k > 0 {
                let head = bytes_between(&self.buf, 0, i);
                let said = lossy_text(head.as_slice());
                let raw = bytes_between(&self.buf, 0, i + k);
                let rest = bytes_between(&self.buf, i + k, n);
                assert(head@ =~= old(self)@.take(i as int));
                assert(raw@ =~= old(self)@.take(i + k));
                assert(rest@ =~= old(self)@.skip(i + k));
                self.buf = rest;
                return Some(SseFrame { event: parse_sse_frame(said.as_str()), raw });
            }
            i += 1;
        }
        None
    }

    /// What is left when the stream ends: one last event, unless it is blank.
    pub fn finish(&mut self) -> (r: Option<SseFrame>)
        ensures
            if is_empty_end(old(self)@) {
                r is None && final(self)@ == old(self)@
            } else {
                r is Some && r->0@ == last_frame(old(self)@) && final(self)@ == Seq::<u8>::empty()
            },
    {
        let said = lossy_text(self.buf.as_slice());
        let t = text::trimmed(said.as_str());
        if t.as_str().is_empty() {
            return None;
        }
        let n: usize = self.buf.len();
        let mut raw = bytes_between(&self.buf, 0, n);
        raw.push(LF);
        raw.push(LF);
        assert(raw@ =~= old(self)@ + seq![LF, LF]);
        self.buf = Vec::new();
        Some(SseFrame { event: parse_sse_frame(said.as_str()), raw })
    }
}

/// The place of a blank line that has arrived does not move when more bytes
/// follow.
pub proof fn lemma_first_blank_extend(s: Seq<u8>, t: Seq<u8>, from: int)
    requires
        0 <= from,
        first_blank(s, from) is Some,
    ensures
        first_blank(s + t, from) == first_blank(s, from),
        from <= first_blank(s, from)->0,
        2 <= blank_len(s, first_blank(s, from)->0),
        first_blank(s, from)->0 + blank_len(s, first_blank(s, from)->0) <= s.len(),
        blank_len(s + t, first_blank(s, from)->0) == blank_len(s, first_blank(s, from)->0),
    decreases s.len() - from,
{
    if blank_len(s, from) > 0 {
        assert((s + t)[from] == s[from]);
        assert((s + t)[from + 1] == s[from + 1]);
        if blank_len(s, from) == 3 {
            assert((s + t)[from + 2] == s[from + 2]);
        }
    } else {
        lemma_first_blank_extend(s, t, from + 1);
        let i = first_blank(s, from + 1)->0;
        assert(i + 1 < s.len());
        assert((s + t)[from] == s[from]);
        assert((s + t)[from + 1] == s[from + 1]);
        if from + 2 < s.len() {
            assert((s + t)[from + 2] == s[from + 2]);
        }
    }
}

/// An event that is complete is the same whatever arrives after it, and what
/// arrives stands behind the rest: how a stream is cut into pieces does not
/// change its events.
pub proof fn law_later_bytes_keep_events(s: Seq<u8>, t: Seq<u8>)
    requires
        first_blank(s, 0) is Some,
    ensures
        first_blank(s + t, 0) == first_blank(s, 0),
        frame_before(s + t, first_blank(s + t, 0)->0) == frame_before(s, first_blank(s, 0)->0),
        rest_after(s + t, first_blank(s + t, 0)->0) == rest_after(s, first_blank(s, 0)->0) + t,
{
    lemma_first_blank_extend(s, t, 0);
    let i = first_blank(s, 0)->0;
    let k = i + blank_len(s, i);
    assert((s + t).take(i) =~= s.take(i));
    assert((s + t).take(k) =~= s.take(k));
    assert((s + t).skip(k) =~= s.skip(k) + t);
}

/// Where the stream is UTF-8, so is each of its events: no character is torn apart.
pub proof fn law_characters_stay_whole(s: Seq<u8>)
    requires
        vstd::utf8::valid_utf8(s),
        first_blank(s, 0) is Some,
    ensures
        decoded(s.take(first_blank(s, 0)->0)) == vstd::utf8::decode_utf8(
            s.take(first_blank(s, 0)->0),
        ),
        vstd::utf8::valid_utf8(rest_after(s, first_blank(s, 0)->0)),
{
    lemma_first_blank_extend(s, Seq::empty(), 0);
    let i = first_blank(s, 0)->0;
    let k = i + blank_len(s, i);
    lemma_line_end_is_a_boundary(s, i);
    assert(vstd::utf8::valid_utf8(s.take(i)));
    lemma_line_end_is_a_boundary(s, k - 1);
    let tail = s.skip(k - 1);
    assert(tail[0] == LF);
    assert(vstd::utf8::pop_first_scalar(tail) =~= s.skip(k));
    assert(vstd::utf8::valid_utf8(vstd::utf8::pop_first_scalar(tail)));
}

/// At a line feed a text in UTF-8 can be parted.
proof fn lemma_line_end_is_a_boundary(s: Seq<u8>, i: int)
    requires
        vstd::utf8::valid_utf8(s),
        0 <= i < s.len(),
        s[i] == LF,
    ensures
        vstd::utf8::valid_utf8(s.take(i)),
        vstd::utf8::valid_utf8(s.skip(i)),
{
    vstd::utf8::is_char_boundary_iff_not_is_continuation_byte(s, i);
    vstd::utf8::valid_utf8_split(s, i);
    assert(s.subrange(0, i) =~= s.take(i));
    assert(s.subrange(i, s.len() as int) =~= s.skip(i));
}

/// The data of an event is what its data lines say, in their order; other lines add
/// nothing to it.
pub proof fn law_data_lines_are_kept(a: Seq<Seq<char>>, b: Seq<Seq<char>>, l: Seq<char>)
    ensures
        data_in(a + b) == data_in(a) + data_in(b),
        data_in(Seq::empty()).len() == 0,
        !text::starts_with(strip_crs(l), "data:"@) ==> data_in(seq![l]).len() == 0,
        forall|d: Seq<char>|
            (d.len() == 0 || d.last() != '\r') && l == #[trigger] ("data:"@ + d) ==> data_in(seq![l])
                == seq![text::trim_start(d)],
    decreases b.len(),
{
    reveal_with_fuel(data_in, 2);
    reveal_strlit("data:");
    assert(seq![l].drop_last() =~= Seq::<Seq<char>>::empty());
    assert(data_in(seq![l]) =~= if text::starts_with(strip_crs(l), "data:"@) {
        seq![text::trim_start(after(strip_crs(l), "data:"@))]
    } else {
        Seq::empty()
    });
    assert forall|d: Seq<char>|
        (d.len() == 0 || d.last() != '\r') && l == #[trigger] ("data:"@ + d) implies data_in(seq![l])
        == seq![text::trim_start(d)] by {
        assert("data:"@.len() == 5 && "data:"@[4] == ':');
        assert(l.last() != '\r') by {
            if d.len() > 0 {
                assert(l.last() == d.last());
            } else {
                assert(l.last() == "data:"@[4]);
            }
        }
        assert(strip_crs(l) == l);
        assert(l.subrange(0, 5) =~= "data:"@);
        assert(after(l, "data:"@) =~= d);
    }
    if b.len() == 0 {
        assert(a + b =~= a);
        assert(data_in(a) + data_in(b) =~= data_in(a));
    } else {
        law_data_lines_are_kept(a, b.drop_last(), l);
        assert((a + b).drop_last() =~= a + b.drop_last());
        assert((a + b).last() == b.last());
        assert(data_in(a + b) =~= data_in(a) + data_in(b));
    }
}

/// An event is called by the last line that names it; and its data lines are joined with
/// line ends.
pub proof fn law_last_name_counts(a: Seq<Seq<char>>, l: Seq<char>, n: Seq<char>, raw: Seq<char>)
    ensures
        l == "event:"@ + n && (n.len() == 0 || n.last() != '\r') ==> name_in(a.push(l)) == Some(
            text::trim(n),
        ),
        !text::starts_with(strip_crs(l), "event:"@) ==> name_in(a.push(l)) == name_in(a),
        name_in(Seq::empty()) is None,
        event_of(raw).data == text::join(data_in(text::split(raw, '\n')), seq!['\n']),
        event_of(raw).name == name_in(text::split(raw, '\n')),
{
    reveal_strlit("event:");
    assert(a.push(l).drop_last() =~= a);
    assert(a.push(l).last() == l);
    if l == "event:"@ + n && (n.len() == 0 || n.last() != '\r') {
        assert("event:"@.len() == 6 && "event:"@[5] == ':');
        assert(l.last() != '\r') by {
            if n.len() > 0 {
                assert(l.last() == n.last());
            } else {
                assert(l.last() == "event:"@[5]);
            }
        }
        assert(strip_crs(l) == l);
        assert(l.subrange(0, 6) =~= "event:"@);
        assert(after(l, "event:"@) =~= n);
    }
}

/// An event ends at the first blank line; its bytes and those after it are all the bytes,
/// and what it says is what stands before the blank line.
pub proof fn law_frames_end_at_blank_lines(s: Seq<u8>, i: int)
    requires
        0 <= i < s.len(),
        first_blank(s, 0) == Some(i),
    ensures
        frame_before(s, i).raw + rest_after(s, i) == s,
        frame_before(s, i).event == event_of(decoded(s.take(i))),
        s[i] == 10,
        s[i + 1] == 10 || (s[i + 1] == 13 && s[i + 2] == 10),
        forall|j: int|
            0 <= j < i && #[trigger] s[j] == 10 ==> s[j + 1] != 10 && !(s[j + 1] == 13 && s[j + 2]
                == 10),
        last_frame(s).raw == s + seq![10u8, 10u8],
        last_frame(s).event == event_of(decoded(s)),
        is_empty_end(s) <==> text::trim(decoded(s)).len() == 0,
{
    lemma_first_blank_is_first(s, 0);
    assert(frame_before(s, i).raw + rest_after(s, i) =~= s);
    assert forall|j: int| 0 <= j < i && #[trigger] s[j] == 10 implies s[j + 1] != 10 && !(s[j + 1]
        == 13 && s[j + 2] == 10) by {
        assert(blank_len(s, j) <= 0);
    }
}

proof fn lemma_first_blank_is_first(s: Seq<u8>, from: int)
    requires
        0 <= from,
    ensures
        first_blank(s, from) is Some ==> from <= first_blank(s, from)->0 < s.len() && blank_len(
            s,
            first_blank(s, from)->0,
        ) > 0,
        first_blank(s, from) is Some ==> forall|j: int|
            from <= j < first_blank(s, from)->0 ==> #[trigger] blank_len(s, j) <= 0,
    decreases s.len() - from,
{
    if from < s.len() && blank_len(s, from) <= 0 {
        lemma_first_blank_is_first(s, from + 1);
    }
}

/// Trailing carriage returns are no part of a line.
pub proof fn law_returns_are_stripped(s: Seq<char>)
    ensures
        strip_crs(s.push('\r')) == strip_crs(s),
        s.len() == 0 || s.last() != '\r' ==> strip_crs(s) == s,
{
    assert(s.push('\r').subrange(0, s.len() as int) =~= s);
}

} // verus!
