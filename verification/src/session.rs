//! Whole-session behaviour: the read loop over a stream of frames, the log
//! a session produces, and the laws of the state machine — frames after a
//! close are never processed, the end of the stream closes silently, and
//! concurrent connections are isolated from one another.

use vstd::prelude::*;
use crate::connection::{
    emitted, step_session, Connection, FrameView, IncomingFrame, SessionView,
};
use crate::logfmt::{binary_line, disconnect_line, text_line};

verus! {

/// The full log of a session that reads the given frames in order: each
/// frame contributes its emitted lines, and a close frame ends the session
/// — nothing after it is processed.
pub open spec fn session_log(fs: Seq<FrameView>) -> Seq<Seq<char>>
    decreases fs.len(),
{
    if fs.len() == 0 {
        Seq::<Seq<char>>::empty()
    } else if fs[0] is Close {
        seq![disconnect_line()]
    } else {
        emitted(fs[0]) + session_log(fs.drop_first())
    }
}

/// Runs one connection's read loop over a stream of frames: frames are
/// handled in order until a close frame or the end of the stream, and the
/// connection ends closed with exactly the session's log.
pub fn run_connection(frames: &Vec<IncomingFrame>) -> (c: Connection)
    ensures
        c@.state is Closed,
        c@.lines == session_log(frames.deep_view()),
{
    let ghost fs = frames.deep_view();
    let mut c = Connection::new();
    proof {
        assert(fs.skip(0) =~= fs);
        assert(c@.lines + session_log(fs) =~= session_log(fs));
    }
    let mut i: usize = 0;
    let mut going = true;
    while going && i < frames.len()
        invariant
            fs == frames.deep_view(),
            fs.len() == frames@.len(),
            i <= fs.len(),
            going == (c@.state is Open),
            going ==> session_log(fs) == c@.lines + session_log(fs.skip(i as int)),
            !going ==> c@.lines == session_log(fs),
        decreases fs.len() - i,
    {
        let ghost rest = fs.skip(i as int);
        let _ = c.handle_frame(&frames[i]);
        proof {
            assert(rest[0] == fs[i as int]);
            assert(rest.drop_first() =~= fs.skip(i + 1));
        }
        going = c.is_open();
        i += 1;
    }
    proof {
        if going {
            assert(fs.skip(fs.len() as int) =~= Seq::<FrameView>::empty());
        }
    }
    c.end_of_stream();
    c
}

/// A close frame closes an open connection, logs the disconnect notice,
/// and leaves the connection inert: every later frame is ignored and emits
/// nothing.
pub proof fn lemma_close_is_final(s: SessionView, f: FrameView)
    requires
        s.state is Open,
    ensures
        step_session(s, FrameView::Close).state is Closed,
        step_session(s, FrameView::Close).lines == s.lines.push(disconnect_line()),
        step_session(step_session(s, FrameView::Close), f) == step_session(s, FrameView::Close),
{
    assert(step_session(s, FrameView::Close).lines =~= s.lines.push(disconnect_line()));
}

/// A text frame on an open connection logs exactly the frame's text and
/// keeps the connection open.
pub proof fn lemma_text_logged_and_open(s: SessionView, t: Seq<char>)
    requires
        s.state is Open,
    ensures
        step_session(s, FrameView::Text(t)).state is Open,
        step_session(s, FrameView::Text(t)).lines == s.lines.push(text_line(t)),
{
    assert(step_session(s, FrameView::Text(t)).lines =~= s.lines.push(text_line(t)));
}

/// A binary frame on an open connection logs exactly the frame's bytes and
/// keeps the connection open.
pub proof fn lemma_binary_logged_and_open(s: SessionView, b: Seq<u8>)
    requires
        s.state is Open,
    ensures
        step_session(s, FrameView::Binary(b)).state is Open,
        step_session(s, FrameView::Binary(b)).lines == s.lines.push(binary_line(b)),
{
    assert(step_session(s, FrameView::Binary(b)).lines =~= s.lines.push(binary_line(b)));
}

/// One connection stepped over a whole stream of frames, in order.
pub open spec fn run_frames(s: SessionView, fs: Seq<FrameView>) -> SessionView
    decreases fs.len(),
{
    if fs.len() == 0 {
        s
    } else {
        run_frames(step_session(s, fs[0]), fs.drop_first())
    }
}

/// A closed connection is inert under any stream of frames.
pub proof fn lemma_closed_inert(s: SessionView, fs: Seq<FrameView>)
    requires
        s.state is Closed,
    ensures
        run_frames(s, fs) == s,
    decreases fs.len(),
{
    if fs.len() > 0 {
        lemma_closed_inert(s, fs.drop_first());
    }
}

/// An open connection fed a stream of frames ends with exactly the
/// session's log appended: the lines of the frames up to and including the
/// first close frame, with everything after it ignored.
pub proof fn lemma_run_frames_log(s: SessionView, fs: Seq<FrameView>)
    requires
        s.state is Open,
    ensures
        run_frames(s, fs).lines == s.lines + session_log(fs),
    decreases fs.len(),
{
    if fs.len() == 0 {
        assert(s.lines + session_log(fs) =~= s.lines);
    } else {
        let s1 = step_session(s, fs[0]);
        if fs[0] is Close {
            lemma_closed_inert(s1, fs.drop_first());
            assert(s1.lines =~= s.lines + session_log(fs));
        } else {
            lemma_run_frames_log(s1, fs.drop_first());
            assert((s.lines + emitted(fs[0])) + session_log(fs.drop_first()) =~= s.lines
                + session_log(fs));
        }
    }
}

/// A whole hub of concurrent connections, each under its own identifier.
/// A frame arriving on one connection steps that connection alone.
pub open spec fn hub_step(
    conns: Map<nat, SessionView>,
    id: nat,
    f: FrameView,
) -> Map<nat, SessionView> {
    if conns.contains_key(id) {
        conns.insert(id, step_session(conns[id], f))
    } else {
        conns
    }
}

/// A hub fed a whole stream of frames, each tagged with the connection it
/// arrived on.
pub open spec fn hub_run(
    conns: Map<nat, SessionView>,
    evs: Seq<(nat, FrameView)>,
) -> Map<nat, SessionView>
    decreases evs.len(),
{
    if evs.len() == 0 {
        conns
    } else {
        hub_run(hub_step(conns, evs[0].0, evs[0].1), evs.drop_first())
    }
}

/// Connections are isolated: a frame arriving on one connection leaves
/// every other connection's state and log exactly as they were.
pub proof fn lemma_frame_isolated(
    conns: Map<nat, SessionView>,
    id: nat,
    f: FrameView,
    other: nat,
)
    requires
        other != id,
    ensures
        hub_step(conns, id, f).contains_key(other) == conns.contains_key(other),
        conns.contains_key(other) ==> hub_step(conns, id, f)[other] == conns[other],
{
}

/// The frames of a tagged stream that arrived on one connection, in order.
pub open spec fn frames_for(evs: Seq<(nat, FrameView)>, id: nat) -> Seq<FrameView>
    decreases evs.len(),
{
    if evs.len() == 0 {
        Seq::<FrameView>::empty()
    } else if evs[0].0 == id {
        seq![evs[0].1] + frames_for(evs.drop_first(), id)
    } else {
        frames_for(evs.drop_first(), id)
    }
}

/// Isolation in full: under a hub fed any tagged stream, a connection's
/// outcome is decided by its own frames alone — the hub leaves it exactly
/// as stepping it over the frames tagged with its identifier would.
pub proof fn lemma_own_frames_decide(
    conns: Map<nat, SessionView>,
    evs: Seq<(nat, FrameView)>,
    id: nat,
)
    requires
        conns.contains_key(id),
    ensures
        hub_run(conns, evs).contains_key(id),
        hub_run(conns, evs)[id] == run_frames(conns[id], frames_for(evs, id)),
    decreases evs.len(),
{
    if evs.len() > 0 {
        let stepped = hub_step(conns, evs[0].0, evs[0].1);
        lemma_own_frames_decide(stepped, evs.drop_first(), id);
        if evs[0].0 == id {
            let fs = frames_for(evs, id);
            assert(fs[0] == evs[0].1);
            assert(fs.drop_first() =~= frames_for(evs.drop_first(), id));
            assert(stepped[id] == step_session(conns[id], evs[0].1));
        } else {
            assert(stepped[id] == conns[id]);
        }
    }
}

/// Isolation over a whole stream: a connection on which no frame of the
/// stream arrives is left exactly as it was.
pub proof fn lemma_stream_isolated(
    conns: Map<nat, SessionView>,
    evs: Seq<(nat, FrameView)>,
    other: nat,
)
    requires
        forall|k: int| 0 <= k < evs.len() ==> (#[trigger] evs[k]).0 != other,
    ensures
        hub_run(conns, evs).contains_key(other) == conns.contains_key(other),
        conns.contains_key(other) ==> hub_run(conns, evs)[other] == conns[other],
    decreases evs.len(),
{
    if evs.len() > 0 {
        let stepped = hub_step(conns, evs[0].0, evs[0].1);
        lemma_frame_isolated(conns, evs[0].0, evs[0].1, other);
        assert(forall|k: int|
            0 <= k < evs.drop_first().len() ==> (#[trigger] evs.drop_first()[k]).0 != other);
        lemma_stream_isolated(stepped, evs.drop_first(), other);
    }
}

} // verus!
