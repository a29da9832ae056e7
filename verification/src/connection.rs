//! The per-connection state machine: a connection is `Open` until a close
//! frame or the end of the stream, text and binary frames are logged with
//! their exact content, and everything else is ignored. A closed connection
//! processes nothing further.

use vstd::prelude::*;
use crate::logfmt::{
    binary_line, binary_log_line, disconnect_line, disconnect_log_line, text_line, text_log_line,
};

verus! {

/// A frame, or frame-like event, handed to an open connection: the decoded
/// text of a text frame, the bytes of a binary frame, a close frame, or
/// anything else the transport yields (ping, pong, a read error), which the
/// handler ignores.
pub enum IncomingFrame {
    Text(String),
    Binary(Vec<u8>),
    Close,
    Other,
}

/// The mathematical shape of an incoming frame.
pub enum FrameView {
    Text(Seq<char>),
    Binary(Seq<u8>),
    Close,
    Other,
}

impl View for IncomingFrame {
    type V = FrameView;

    open spec fn view(&self) -> FrameView {
        match self {
            IncomingFrame::Text(t) => FrameView::Text(t@),
            IncomingFrame::Binary(b) => FrameView::Binary(b@),
            IncomingFrame::Close => FrameView::Close,
            IncomingFrame::Other => FrameView::Other,
        }
    }
}

impl DeepView for IncomingFrame {
    type V = FrameView;

    open spec fn deep_view(&self) -> FrameView {
        self.view()
    }
}

/// The two connection states: a connection is `Open` from the upgrade until
/// a close frame or the end of the stream, then `Closed`, a terminal state.
#[derive(Clone, Copy, PartialEq, Eq, Structural)]
pub enum ConnState {
    Open,
    Closed,
}

/// The mathematical shape of a connection: its state and the log lines it
/// has emitted, oldest first.
pub struct SessionView {
    pub state: ConnState,
    pub lines: Seq<Seq<char>>,
}

/// The log line an open connection emits for a frame, if any: text and
/// binary frames are logged with their exact content, a close frame with
/// the disconnect notice, and everything else silently ignored.
pub open spec fn step_line(f: FrameView) -> Option<Seq<char>> {
    match f {
        FrameView::Text(t) => Some(text_line(t)),
        FrameView::Binary(b) => Some(binary_line(b)),
        FrameView::Close => Some(disconnect_line()),
        FrameView::Other => None,
    }
}

/// The state an open connection is in after a frame: only a close frame
/// closes it.
pub open spec fn step_state(f: FrameView) -> ConnState {
    match f {
        FrameView::Close => ConnState::Closed,
        _ => ConnState::Open,
    }
}

/// The lines a frame appends to the log of an open connection.
pub open spec fn emitted(f: FrameView) -> Seq<Seq<char>> {
    match step_line(f) {
        Some(l) => seq![l],
        None => Seq::<Seq<char>>::empty(),
    }
}

/// One step of the connection state machine: a closed connection is inert;
/// an open one moves to `step_state` and appends `emitted`.
pub open spec fn step_session(s: SessionView, f: FrameView) -> SessionView {
    if s.state is Closed {
        s
    } else {
        SessionView { state: step_state(f), lines: s.lines + emitted(f) }
    }
}

/// The view of an optional returned line.
pub open spec fn line_view(l: Option<String>) -> Option<Seq<char>> {
    match l {
        Some(s) => Some(s@),
        None => None,
    }
}

/// A connection: its current state and the log lines emitted so far.
pub struct Connection {
    state: ConnState,
    log: Vec<String>,
}

impl View for Connection {
    type V = SessionView;

    closed spec fn view(&self) -> SessionView {
        SessionView { state: self.state, lines: self.log.deep_view() }
    }
}

impl Connection {
    /// A freshly accepted connection: open, with nothing logged yet.
    pub fn new() -> (c: Connection)
        ensures
            c@.state is Open,
            c@.lines == Seq::<Seq<char>>::empty(),
    {
        let c = Connection { state: ConnState::Open, log: Vec::new() };
        proof {
            assert(c.log.deep_view() =~= Seq::<Seq<char>>::empty());
        }
        c
    }

    /// Handles one incoming frame, returning the log line it emitted, if
    /// any. A closed connection ignores every frame and emits nothing.
    pub fn handle_frame(&mut self, frame: &IncomingFrame) -> (line: Option<String>)
        ensures
            final(self)@ == step_session(old(self)@, frame@),
            line_view(line) == (if old(self)@.state is Open {
                step_line(frame@)
            } else {
                None::<Seq<char>>
            }),
    {
        match self.state {
            ConnState::Closed => None,
            ConnState::Open => {
                let out: Option<String> = match frame {
                    IncomingFrame::Text(t) => Some(text_log_line(t.as_str())),
                    IncomingFrame::Binary(b) => Some(binary_log_line(b)),
                    IncomingFrame::Close => {
                        self.state = ConnState::Closed;
                        Some(disconnect_log_line())
                    },
                    IncomingFrame::Other => None,
                };
                match &out {
                    Some(l) => {
                        let stored = l.clone();
                        self.log.push(stored);
                        proof {
                            assert(self.log.deep_view() =~= old(self).log.deep_view() + emitted(
                                frame@,
                            ));
                        }
                    },
                    None => {
                        proof {
                            assert(self.log.deep_view() =~= old(self).log.deep_view() + emitted(
                                frame@,
                            ));
                        }
                    },
                }
                out
            },
        }
    }

    /// The transport ended without a close frame: the connection closes with
    /// no further log line.
    pub fn end_of_stream(&mut self)
        ensures
            final(self)@.state is Closed,
            final(self)@.lines == old(self)@.lines,
    {
        self.state = ConnState::Closed;
    }

    /// Whether the connection is still open.
    pub fn is_open(&self) -> (r: bool)
        ensures
            r == (self@.state is Open),
    {
        match self.state {
            ConnState::Open => true,
            ConnState::Closed => false,
        }
    }

    /// The log lines emitted so far, oldest first.
    pub fn log_lines(&self) -> (r: &Vec<String>)
        ensures
            r.deep_view() == self@.lines,
    {
        &self.log
    }
}

} // verus!
