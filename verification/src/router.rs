//! The way of a transcript to the session that asked for it.

use vstd::prelude::*;

use crate::backend::{InferResponse, ResponseView};
use crate::proto::{FinalTranscript, Payload, PayloadView};
use crate::session;
use crate::session::{SessionMap, SessionView};

verus! {

/// The router of transcripts.
#[derive(Debug, Clone, Copy, PartialEq, Eq)]
pub struct ResultRouter;

/// The message for a transcript.
pub open spec fn transcript(resp: ResponseView) -> PayloadView {
    PayloadView::Final { text: resp.text, segments: resp.segments, lang: resp.lang }
}

/// The message for a transcript.
pub fn transcript_payload(resp: InferResponse) -> (r: Payload)
    ensures
        r@ == transcript(resp@),
{
    Payload::Final(FinalTranscript { text: resp.text, segments: resp.segments, lang: resp.lang })
}

/// The session that a message goes to: the one it is for, while it is there and
/// fewer messages wait for its client than may.
pub open spec fn destination(m: Map<u128, SessionView>, id: u128, waiting: usize) -> Option<u128> {
    if m.dom().contains(id) && waiting < m[id].buffer {
        Some(id)
    } else {
        None
    }
}

impl ResultRouter {
    /// Where a transcript goes, and as what. One whose session is gone, or for
    /// whose client no more may wait, goes nowhere.
    pub fn route(map: &SessionMap, resp: InferResponse, waiting: usize) -> (r: Option<
        (u128, Payload),
    >)
        ensures
            match r {
                Some(to) => destination(map@, resp@.session_id, waiting) == Some(to.0) && to.1@
                    == transcript(resp@),
                None => destination(map@, resp@.session_id, waiting) is None,
            },
    {
        let id: u128 = resp.session_id;
        if send_to_session(map, id, waiting) {
            Some((id, transcript_payload(resp)))
        } else {
            None
        }
    }
}

/// Whether a message for a session is taken, when so many wait for its client.
pub fn send_to_session(map: &SessionMap, id: u128, waiting: usize) -> (r: bool)
    ensures
        r == (destination(map@, id, waiting) == Some(id)),
{
    match session::outbound_for(map, id) {
        Some(buffer) => waiting < buffer,
        None => false,
    }
}

/// A transcript never reaches a session that did not ask for it.
pub proof fn law_no_transcript_leaks(
    m: Map<u128, SessionView>,
    resp: ResponseView,
    waiting: usize,
    other: u128,
)
    requires
        other != resp.session_id,
    ensures
        destination(m, resp.session_id, waiting) != Some(other),
{
}

/// What is done for one session leaves every other as it is: beginning it, ending
/// it, and changing its state.
pub proof fn law_sessions_are_isolated(
    m: Map<u128, SessionView>,
    id: u128,
    other: u128,
    s: SessionView,
    waiting: usize,
)
    requires
        id != other,
    ensures
        destination(m.insert(id, s), other, waiting) == destination(m, other, waiting),
        destination(m.remove(id), other, waiting) == destination(m, other, waiting),
        m.dom().contains(other) ==> m.insert(id, s)[other] == m[other] && m.remove(id)[other]
            == m[other],
{
}

/// The buffer that a session begins with bounds what waits for its client: once it
/// is full nothing is taken, and before that everything is.
pub proof fn law_buffer_bounds_what_waits(
    m: Map<u128, SessionView>,
    id: u128,
    buffer: usize,
    now_ms: u64,
    waiting: usize,
)
    ensures
        destination(m.insert(id, session::begun(buffer, now_ms)), id, waiting) is Some <==> waiting
            < buffer,
{
}

/// A transcript goes out as a final one, with the text, the segments and the language
/// that the answer has, to the session that it answers: when that session is there
/// and has room.
pub proof fn law_transcript_is_the_answer(
    m: Map<u128, SessionView>,
    resp: ResponseView,
    waiting: usize,
)
    ensures
        transcript(resp) is Final,
        transcript(resp)->Final_text == resp.text,
        transcript(resp)->segments == resp.segments,
        transcript(resp)->Final_lang == resp.lang,
        m.dom().contains(resp.session_id) && waiting < m[resp.session_id].buffer ==> destination(
            m,
            resp.session_id,
            waiting,
        ) == Some(resp.session_id),
        !m.dom().contains(resp.session_id) || waiting >= m[resp.session_id].buffer ==> destination(
            m,
            resp.session_id,
            waiting,
        ) is None,
{
}

} // verus!
