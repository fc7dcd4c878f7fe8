//! Reading one answer of the model.
//!
//! Events go to the client as they come, and are then taken in for the text and
//! the tool calls in them, until the model's end sentinel or the end of the
//! stream.

use vstd::prelude::*;

use crate::json;
use crate::sse;
use crate::sse::{EventView, FrameView, SseBuffer, SseFrame};
use crate::text;
use crate::tool_loop;
use crate::tool_loop::{Forward, Happened, HappenedView, RoundOutcome, RoundView};

verus! {

/// What is known between two steps.
pub struct StateView {
    /// The bytes that have arrived and not yet been read.
    pub unread: Seq<u8>,
    /// The event that is on its way to the client.
    pub pending: Option<EventView>,
    /// What the events that the client has got add up to.
    pub got: RoundView,
    /// Whether the stream is over.
    pub ended: bool,
}

/// What has happened outside.
#[derive(Debug)]
pub enum Incident {
    /// The answer is open.
    Begin,
    /// A piece of it has arrived.
    Chunk(Vec<u8>),
    /// It is over.
    Ended,
    /// Reading it failed.
    Failed(String),
    /// Nothing has arrived for too long.
    TimedOut,
    /// The client has got the frame.
    Sent,
    /// The client is gone.
    ClientGone,
}

/// What has happened outside, as values.
pub enum IncidentView {
    Begin,
    Chunk(Seq<u8>),
    Ended,
    Failed(Seq<char>),
    TimedOut,
    Sent,
    ClientGone,
}

impl View for Incident {
    type V = IncidentView;

    open spec fn view(&self) -> IncidentView {
        match *self {
            Incident::Begin => IncidentView::Begin,
            Incident::Chunk(b) => IncidentView::Chunk(b@),
            Incident::Ended => IncidentView::Ended,
            Incident::Failed(e) => IncidentView::Failed(e@),
            Incident::TimedOut => IncidentView::TimedOut,
            Incident::Sent => IncidentView::Sent,
            Incident::ClientGone => IncidentView::ClientGone,
        }
    }
}

/// What is to be done next, as values.
pub enum TodoView {
    /// Read on.
    Read(StateView),
    /// Send these bytes to the client.
    Send(StateView, Seq<u8>),
    /// The round is over with this.
    Finish(HappenedView),
}

/// What an event adds; data that is no JSON adds nothing.
pub open spec fn absorbed(got: RoundView, ev: EventView) -> RoundView {
    match json::json_parse(ev.data) {
        Ok(m) => tool_loop::add_message(got, m),
        Err(_) => got,
    }
}

/// The answer has been read to its end.
pub open spec fn drained(got: RoundView) -> HappenedView {
    HappenedView::Drained { text: got.text, calls: tool_loop::in_order(got.calls) }
}

/// An event has been read: its bytes are sent on as they came, unless it is the
/// end sentinel.
pub open spec fn offer(st: StateView, f: FrameView) -> TodoView {
    if tool_loop::is_done(f.event.data) {
        TodoView::Finish(drained(st.got))
    } else {
        TodoView::Send(StateView { pending: Some(f.event), ..st }, f.raw)
    }
}

/// The next event, when it is complete; else there is more to read, unless the
/// stream is over.
pub open spec fn look(st: StateView) -> TodoView {
    match sse::first_blank(st.unread, 0) {
        Some(i) => offer(
            StateView { unread: sse::rest_after(st.unread, i), ..st },
            sse::frame_before(st.unread, i),
        ),
        None => if st.ended {
            TodoView::Finish(drained(st.got))
        } else {
            TodoView::Read(st)
        },
    }
}

/// What is to be done when something has happened.
pub open spec fn step_of(st: StateView, ev: IncidentView) -> TodoView {
    match ev {
        IncidentView::Begin => look(st),
        IncidentView::Chunk(b) => look(
            StateView { unread: st.unread + b, ..st },
        ),
        IncidentView::Ended => {
            if sse::is_empty_end(st.unread) {
                TodoView::Finish(drained(st.got))
            } else {
                offer(
                    StateView { unread: Seq::empty(), ended: true, ..st },
                    sse::last_frame(st.unread),
                )
            }
        },
        IncidentView::Failed(e) => TodoView::Finish(HappenedView::ReadFailed(e)),
        IncidentView::TimedOut => TodoView::Finish(
            HappenedView::ReadFailed("upstream idle timeout"@),
        ),
        IncidentView::Sent => look(
            StateView {
                got: match st.pending {
                    Some(e) => absorbed(st.got, e),
                    None => st.got,
                },
                pending: None,
                ..st
            },
        ),
        IncidentView::ClientGone => TodoView::Finish(drained(st.got)),
    }
}

/// A round that is being read.
#[derive(Debug)]
pub struct Round {
    buf: SseBuffer,
    pending: Option<SseFrame>,
    got: RoundOutcome,
    ended: bool,
}

/// What is to be done next.
#[derive(Debug)]
pub enum Todo {
    Read(Round),
    Send(Round, Vec<u8>),
    Finish(Happened),
}

impl View for Round {
    type V = StateView;

    closed spec fn view(&self) -> StateView {
        StateView {
            unread: self.buf@,
            pending: match self.pending {
                Some(f) => Some(f@.event),
                None => None,
            },
            got: self.got@,
            ended: self.ended,
        }
    }
}

impl View for Todo {
    type V = TodoView;

    open spec fn view(&self) -> TodoView {
        match *self {
            Todo::Read(r) => TodoView::Read(r@),
            Todo::Send(r, f) => TodoView::Send(r@, f@),
            Todo::Finish(h) => TodoView::Finish(h@),
        }
    }
}

/// A round of which nothing has been read.
pub open spec fn fresh() -> StateView {
    StateView {
        unread: Seq::empty(),
        pending: None,
        got: RoundView { text: Seq::empty(), calls: Map::empty() },
        ended: false,
    }
}

impl Round {
    /// A round of which nothing has been read.
    pub fn new() -> (r: Self)
        ensures
            r@ == fresh(),
    {
        Round { buf: SseBuffer::new(), pending: None, got: RoundOutcome::new(), ended: false }
    }

    /// The answer has been read to its end.
    fn finish(self) -> (r: Todo)
        ensures
            r@ == TodoView::Finish(drained(self@.got)),
    {
        let (t, calls) = self.got.into_parts();
        Todo::Finish(Happened::Drained { text: t, calls })
    }

    /// An event has been read.
    fn offer(self, f: SseFrame) -> (r: Todo)
        ensures
            r@ == offer(self@, f@),
    {
        match tool_loop::forward_event(&f) {
            Forward::Finished => self.finish(),
            Forward::Send(bytes) => {
                let mut next = self;
                next.pending = Some(f);
                Todo::Send(next, bytes)
            },
        }
    }

    /// The next event, when it is complete.
    fn look(self) -> (r: Todo)
        ensures
            r@ == look(self@),
    {
        let mut here = self;
        match here.buf.next_event() {
            Some(f) => here.offer(f),
            None => if here.ended {
                here.finish()
            } else {
                Todo::Read(here)
            },
        }
    }

    /// Something has happened outside: what is to be done next.
    pub fn step(self, ev: Incident) -> (r: Todo)
        ensures
            r@ == step_of(self@, ev@),
    {
        let mut here = self;
        match ev {
            Incident::Begin => here.look(),
            Incident::Chunk(b) => {
                here.buf.push(b.as_slice());
                here.look()
            },
            Incident::Ended => match here.buf.finish() {
                Some(f) => {
                    here.ended = true;
                    here.offer(f)
                },
                None => here.finish(),
            },
            Incident::Failed(e) => Todo::Finish(Happened::ReadFailed(e)),
            Incident::TimedOut => Todo::Finish(
                Happened::ReadFailed(text::own("upstream idle timeout")),
            ),
            Incident::Sent => {
                match here.pending.take() {
                    Some(f) => {
                        here.got.absorb(&f.event);
                    },
                    None => {},
                }
                here.look()
            },
            Incident::ClientGone => here.finish(),
        }
    }
}

// ---- Laws ---------------------------------------------------------------

/// The events in the bytes that a stream has given from its beginning to its end:
/// those that a blank line ends, and what is left, unless it is blank.
pub open spec fn events(s: Seq<u8>) -> Seq<FrameView>
    decreases s.len(),
{
    match sse::first_blank(s, 0) {
        Some(i) => if sse::rest_after(s, i).len() < s.len() {
            seq![sse::frame_before(s, i)] + events(sse::rest_after(s, i))
        } else {
            Seq::empty()
        },
        None => if sse::is_empty_end(s) {
            Seq::empty()
        } else {
            seq![sse::last_frame(s)]
        },
    }
}

/// What stands behind the last blank line of a stream.
pub open spec fn tail(s: Seq<u8>) -> Seq<u8>
    decreases s.len(),
{
    match sse::first_blank(s, 0) {
        Some(i) => if sse::rest_after(s, i).len() < s.len() {
            tail(sse::rest_after(s, i))
        } else {
            s
        },
        None => s,
    }
}

/// What the client gets in a round, and how it ends.
pub struct Course {
    pub frames: Seq<Seq<u8>>,
    pub end: HappenedView,
}

/// A frame goes out before the rest.
pub open spec fn sent_first(frame: Seq<u8>, rest: Course) -> Course {
    Course { frames: seq![frame] + rest.frames, end: rest.end }
}

/// What is owed for a list of events: the bytes of each are handed on and what it
/// says is taken in, in order, up to the end sentinel.
pub open spec fn owed(got: RoundView, evs: Seq<FrameView>) -> Course
    decreases evs.len(),
{
    if evs.len() == 0 || tool_loop::is_done(evs[0].event.data) {
        Course { frames: Seq::empty(), end: drained(got) }
    } else {
        sent_first(evs[0].raw, owed(absorbed(got, evs[0].event), evs.drop_first()))
    }
}

/// How a round goes when the stream gives these pieces, then ends, and the client
/// takes every frame.
pub open spec fn course(todo: TodoView, pieces: Seq<Seq<u8>>) -> Course
    decreases
            match todo {
                TodoView::Read(st) => pieces.len() + if st.ended {
                    0int
                } else {
                    1int
                },
                TodoView::Send(st, _) => pieces.len() + if st.ended {
                    0int
                } else {
                    1int
                },
                TodoView::Finish(_) => 0int,
            },
            match todo {
                TodoView::Read(st) => 2 * st.unread.len(),
                TodoView::Send(st, _) => 2 * st.unread.len() + 1,
                TodoView::Finish(_) => 0,
            },
{
    match todo {
        TodoView::Finish(h) => Course { frames: Seq::empty(), end: h },
        TodoView::Send(st, f) => {
            proof {
                lemma_look_shrinks(st.unread);
            }
            sent_first(f, course(step_of(st, IncidentView::Sent), pieces))
        },
        TodoView::Read(st) => if pieces.len() > 0 {
            course(step_of(st, IncidentView::Chunk(pieces[0])), pieces.drop_first())
        } else if !st.ended {
            course(step_of(st, IncidentView::Ended), pieces)
        } else {
            Course { frames: Seq::empty(), end: drained(st.got) }
        },
    }
}

/// Pieces one after the other.
pub open spec fn joined(pieces: Seq<Seq<u8>>) -> Seq<u8>
    decreases pieces.len(),
{
    if pieces.len() == 0 {
        Seq::empty()
    } else {
        pieces[0] + joined(pieces.drop_first())
    }
}

/// Taking an event makes the unread bytes fewer.
pub proof fn lemma_look_shrinks(s: Seq<u8>)
    ensures
        sse::first_blank(s, 0) is Some ==> sse::rest_after(s, sse::first_blank(s, 0)->0).len()
            < s.len(),
{
    if sse::first_blank(s, 0) is Some {
        sse::lemma_first_blank_extend(s, Seq::empty(), 0);
    }
}

/// From any point on, the rest of a round is owed by the events in the rest of
/// the stream.
proof fn lemma_course(st: StateView, pieces: Seq<Seq<u8>>)
    requires
        st.pending is None,
        !st.ended,
    ensures
        course(look(st), pieces) == owed(st.got, events(st.unread + joined(pieces))),
    decreases pieces.len(), st.unread.len(),
{
    let s = st.unread;
    let t = joined(pieces);
    lemma_look_shrinks(s);
    match sse::first_blank(s, 0) {
        Some(i) => {
            sse::law_later_bytes_keep_events(s, t);
            let rest = sse::rest_after(s, i);
            let f = sse::frame_before(s, i);
            let all = events(s + t);
            assert(all == seq![f] + events(rest + t));
            assert(all[0] == f);
            assert(all.drop_first() == events(rest + t));
            if !tool_loop::is_done(f.event.data) {
                let next = StateView { unread: rest, got: absorbed(st.got, f.event), ..st };
                lemma_course(next, pieces);
                let waiting = StateView { unread: rest, pending: Some(f.event), ..st };
                assert(look(st) == TodoView::Send(waiting, f.raw));
                assert(step_of(waiting, IncidentView::Sent) == look(next));
            }
        },
        None => {
            assert(look(st) == TodoView::Read(st));
            if pieces.len() > 0 {
                let more = StateView { unread: s + pieces[0], ..st };
                lemma_course(more, pieces.drop_first());
                assert(more.unread + joined(pieces.drop_first()) == s + t);
            } else {
                assert(s + t == s);
                reveal_with_fuel(course, 4);
                reveal_with_fuel(owed, 2);
                if !sse::is_empty_end(s) {
                    let f = sse::last_frame(s);
                    let all = events(s);
                    assert(all == seq![f]);
                    assert(all.drop_first() == Seq::<FrameView>::empty());
                    if !tool_loop::is_done(f.event.data) {
                        let waiting = StateView {
                            unread: Seq::empty(),
                            ended: true,
                            pending: Some(f.event),
                            ..st
                        };
                        let over = StateView {
                            unread: Seq::empty(),
                            ended: true,
                            got: absorbed(st.got, f.event),
                            ..st
                        };
                        assert(step_of(st, IncidentView::Ended) == TodoView::Send(waiting, f.raw));
                        assert(step_of(waiting, IncidentView::Sent) == look(over));
                        assert(sse::first_blank(over.unread, 0) is None);
                        assert(look(over) == TodoView::Finish(drained(over.got)));
                        assert(course(look(over), pieces) == (Course {
                            frames: Seq::empty(),
                            end: drained(over.got),
                        }));
                    }
                }
            }
        },
    }
}

/// The client gets the bytes of every event of the answer up to the end sentinel,
/// in order and none twice, and the round ends with what these events add up to.
pub proof fn law_answer_is_handed_on(pieces: Seq<Seq<u8>>)
    ensures
        course(step_of(fresh(), IncidentView::Begin), pieces) == owed(
            fresh().got,
            events(joined(pieces)),
        ),
{
    lemma_course(fresh(), pieces);
    assert(Seq::<u8>::empty() + joined(pieces) == joined(pieces));
}

/// How the network cuts an answer into pieces makes no difference, not even in the
/// middle of a character.
pub proof fn law_pieces_make_no_difference(a: Seq<Seq<u8>>, b: Seq<Seq<u8>>)
    requires
        joined(a) == joined(b),
    ensures
        course(step_of(fresh(), IncidentView::Begin), a) == course(
            step_of(fresh(), IncidentView::Begin),
            b,
        ),
{
    law_answer_is_handed_on(a);
    law_answer_is_handed_on(b);
}

/// Whether no event is the end sentinel.
pub open spec fn none_done(evs: Seq<FrameView>) -> bool {
    forall|i: int| 0 <= i < evs.len() ==> !tool_loop::is_done((#[trigger] evs[i]).event.data)
}

/// What is owed for events without the end sentinel is all their bytes.
proof fn lemma_all_owed(got: RoundView, s: Seq<u8>)
    requires
        none_done(events(s)),
    ensures
        sse::is_empty_end(tail(s)) ==> joined(owed(got, events(s)).frames) + tail(s) == s,
        !sse::is_empty_end(tail(s)) ==> joined(owed(got, events(s)).frames) == s + seq![
            sse::LF,
            sse::LF,
        ],
    decreases s.len(),
{
    lemma_look_shrinks(s);
    let evs = events(s);
    match sse::first_blank(s, 0) {
        Some(i) => {
            sse::lemma_first_blank_extend(s, Seq::empty(), 0);
            let f = sse::frame_before(s, i);
            let rest = sse::rest_after(s, i);
            assert(evs[0] == f);
            assert(evs.drop_first() =~= events(rest));
            assert(!tool_loop::is_done(evs[0].event.data));
            assert forall|k: int| 0 <= k < events(rest).len() implies !tool_loop::is_done(
                (#[trigger] events(rest)[k]).event.data,
            ) by {
                assert(evs[k + 1] == events(rest)[k]);
            }
            let after = absorbed(got, f.event);
            lemma_all_owed(after, rest);
            let later = owed(after, events(rest)).frames;
            let frames = owed(got, evs).frames;
            assert(frames == seq![f.raw] + later);
            assert(frames.drop_first() =~= later);
            assert(joined(frames) == f.raw + joined(later));
            assert(f.raw + rest =~= s);
            if sse::is_empty_end(tail(s)) {
                assert(f.raw + joined(later) + tail(s) =~= f.raw + (joined(later) + tail(rest)));
            } else {
                assert(f.raw + (rest + seq![sse::LF, sse::LF]) =~= s + seq![sse::LF, sse::LF]);
            }
        },
        None => {
            reveal_with_fuel(owed, 2);
            reveal_with_fuel(joined, 2);
            if sse::is_empty_end(s) {
                assert(joined(owed(got, evs).frames) + s =~= s);
            } else {
                let f = sse::last_frame(s);
                assert(evs == seq![f]);
                assert(!tool_loop::is_done(evs[0].event.data));
                assert(evs.drop_first() =~= Seq::empty());
                let frames = owed(got, evs).frames;
                assert(frames =~= seq![f.raw]);
                assert(frames.drop_first() =~= Seq::empty());
                assert(joined(frames) =~= f.raw);
            }
        },
    }
}

/// An answer is forwarded verbatim: put together, what the client gets is the
/// stream byte for byte, as long as it holds no end sentinel. Blank bytes behind
/// the last event are left out; an event that the stream's end cuts short is ended
/// by a blank line.
pub proof fn law_answer_is_forwarded_verbatim(pieces: Seq<Seq<u8>>)
    requires
        none_done(events(joined(pieces))),
    ensures
        ({
            let s = joined(pieces);
            let got = joined(course(step_of(fresh(), IncidentView::Begin), pieces).frames);
            if sse::is_empty_end(tail(s)) {
                got + tail(s) == s
            } else {
                got == s + seq![sse::LF, sse::LF]
            }
        }),
{
    law_answer_is_handed_on(pieces);
    lemma_all_owed(fresh().got, joined(pieces));
}

/// A client that hangs up ends the round with what it had got.
pub proof fn law_hanging_up_ends_the_round(st: StateView)
    ensures
        step_of(st, IncidentView::ClientGone) == TodoView::Finish(drained(st.got)),
{
}

/// What happens to a round from outside: a failed read and a silence end it with their
/// words; the end of the stream and a client that is gone end it with what was collected.
pub proof fn law_how_a_round_ends(st: StateView, e: Seq<char>, b: Seq<u8>)
    ensures
        step_of(st, IncidentView::Failed(e)) == TodoView::Finish(HappenedView::ReadFailed(e)),
        step_of(st, IncidentView::TimedOut) == TodoView::Finish(
            HappenedView::ReadFailed("upstream idle timeout"@),
        ),
        step_of(st, IncidentView::ClientGone) == TodoView::Finish(
            HappenedView::Drained { text: st.got.text, calls: tool_loop::in_order(st.got.calls) },
        ),
        sse::is_empty_end(st.unread) ==> step_of(st, IncidentView::Ended) == TodoView::Finish(
            HappenedView::Drained { text: st.got.text, calls: tool_loop::in_order(st.got.calls) },
        ),
        sse::first_blank(st.unread, 0) is None && !st.ended ==> step_of(st, IncidentView::Begin)
            == TodoView::Read(st),
        sse::first_blank(st.unread + b, 0) is None && !st.ended ==> step_of(
            st,
            IncidentView::Chunk(b),
        ) == TodoView::Read(StateView { unread: st.unread + b, ..st }),
        fresh().unread.len() == 0 && fresh().pending is None && !fresh().ended,
        fresh().got.text.len() == 0 && fresh().got.calls.dom() =~= Set::<u32>::empty(),
{
}

/// An event that has reached the client is collected, and only then: its text and its
/// calls are added to what was collected before.
pub proof fn law_sent_events_are_collected(st: StateView, ev: EventView)
    requires
        st.pending == Some(ev),
        sse::first_blank(st.unread, 0) is None,
        !st.ended,
    ensures
        json::json_parse(ev.data) is Ok ==> step_of(st, IncidentView::Sent) == TodoView::Read(
            StateView {
                got: tool_loop::add_message(st.got, json::json_parse(ev.data)->Ok_0),
                pending: None,
                ..st
            },
        ),
        json::json_parse(ev.data) is Err ==> step_of(st, IncidentView::Sent) == TodoView::Read(
            StateView { pending: None, ..st },
        ),
{
}

} // verus!
