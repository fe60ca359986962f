//! The life of one connection, as a state machine.
//!
//! The machine decides; its driver acts. The driver performs the action that
//! the machine names (read from the peer, decode a frame, have a request
//! answered, encode a response, write to the peer), and reports what came of
//! it as the next event. A connection serves one request at a time: the
//! response to a request is written before the next request is taken up.

use crate::dispatch::{malformed_answer, malformed_request};
use crate::framing::{
    after_first_frame, encode_frame, first_frame, framed, has_frame, lemma_first_frame_splits,
    FrameBuffer,
};
use crate::message::{DeliveryMessage, MessageView};
use vstd::prelude::*;

verus! {

/// Where a connection stands. Each state but `Closed` waits for the outcome
/// of one action.
#[derive(Debug, Clone, Copy, PartialEq, Eq, Structural)]
pub enum ConnectionState {
    /// Waiting for bytes from the peer.
    Reading,
    /// A frame was cut off the received bytes and is being decoded.
    Decoding,
    /// A request is being answered.
    Dispatching,
    /// A response is being encoded.
    Encoding,
    /// A response is being written to the peer.
    Writing,
    /// The connection is over.
    Closed,
}

/// What the driver reports.
#[derive(Debug)]
pub enum ConnectionEvent {
    /// A read returned these bytes. No bytes: the peer has closed.
    Received(Vec<u8>),
    /// The frame was decoded into this envelope.
    Decoded(DeliveryMessage),
    /// The frame could not be decoded; the text says why.
    Undecodable(String),
    /// The request was answered with this response.
    Answered(DeliveryMessage),
    /// The response was encoded into these bytes.
    Encoded(Vec<u8>),
    /// The response could not be encoded.
    Unencodable,
    /// The bytes were written.
    Written,
    /// Reading or writing failed.
    Failed,
}

/// What the driver has to do next.
#[derive(Debug)]
pub enum ConnectionAction {
    /// Read from the peer.
    Read,
    /// Decode the payload of this frame.
    Decode(Vec<u8>),
    /// Have this envelope answered.
    Dispatch(DeliveryMessage),
    /// Encode this response.
    Encode(DeliveryMessage),
    /// Write these bytes to the peer.
    Write(Vec<u8>),
    /// Release the connection.
    Close,
}

/// Mathematical model of a connection.
pub struct ConnectionView {
    pub state: ConnectionState,
    /// The bytes received and not yet handed out as a frame.
    pub pending: Seq<u8>,
}

/// Mathematical model of an event.
pub enum EventView {
    Received(Seq<u8>),
    Decoded(MessageView),
    Undecodable(Seq<char>),
    Answered(MessageView),
    Encoded(Seq<u8>),
    Unencodable,
    Written,
    Failed,
}

/// Mathematical model of an action.
pub enum ActionView {
    Read,
    Decode(Seq<u8>),
    Dispatch(MessageView),
    Encode(MessageView),
    Write(Seq<u8>),
    Close,
}

impl View for ConnectionEvent {
    type V = EventView;

    open spec fn view(&self) -> EventView {
        match self {
            ConnectionEvent::Received(bytes) => EventView::Received(bytes@),
            ConnectionEvent::Decoded(envelope) => EventView::Decoded(envelope@),
            ConnectionEvent::Undecodable(detail) => EventView::Undecodable(detail@),
            ConnectionEvent::Answered(response) => EventView::Answered(response@),
            ConnectionEvent::Encoded(bytes) => EventView::Encoded(bytes@),
            ConnectionEvent::Unencodable => EventView::Unencodable,
            ConnectionEvent::Written => EventView::Written,
            ConnectionEvent::Failed => EventView::Failed,
        }
    }
}

impl View for ConnectionAction {
    type V = ActionView;

    open spec fn view(&self) -> ActionView {
        match self {
            ConnectionAction::Read => ActionView::Read,
            ConnectionAction::Decode(frame) => ActionView::Decode(frame@),
            ConnectionAction::Dispatch(envelope) => ActionView::Dispatch(envelope@),
            ConnectionAction::Encode(response) => ActionView::Encode(response@),
            ConnectionAction::Write(bytes) => ActionView::Write(bytes@),
            ConnectionAction::Close => ActionView::Close,
        }
    }
}

/// The connection takes up what is next in the received bytes: a complete
/// frame is handed out to be decoded; without one, more bytes are read.
pub open spec fn resume(pending: Seq<u8>) -> (ConnectionView, ActionView) {
    if has_frame(pending) {
        (
            ConnectionView {
                state: ConnectionState::Decoding,
                pending: after_first_frame(pending),
            },
            ActionView::Decode(first_frame(pending)),
        )
    } else {
        (ConnectionView { state: ConnectionState::Reading, pending }, ActionView::Read)
    }
}

/// The connection ends.
pub open spec fn close(pending: Seq<u8>) -> (ConnectionView, ActionView) {
    (ConnectionView { state: ConnectionState::Closed, pending }, ActionView::Close)
}

/// The connection goes on to `state`, with `action` to do.
pub open spec fn proceed(conn: ConnectionView, state: ConnectionState, action: ActionView) -> (
    ConnectionView,
    ActionView,
) {
    (ConnectionView { state, pending: conn.pending }, action)
}

/// The state after `event`, and the action to perform next.
///
/// Bytes that arrive are joined to those waiting, and the first complete
/// frame goes to be decoded. A decoded envelope is answered; a frame that
/// cannot be decoded is answered with an error, without being dispatched.
/// The response is encoded, framed and written, and then the next frame is
/// taken up. A response that cannot be encoded, or whose encoding cannot
/// travel as one frame, is dropped. The peer closing, a failure of reading or
/// writing, and an event that the state does not wait for end the connection.
pub open spec fn transition(conn: ConnectionView, event: EventView) -> (
    ConnectionView,
    ActionView,
) {
    match (conn.state, event) {
        (ConnectionState::Reading, EventView::Received(bytes)) => if bytes.len() == 0 {
            close(conn.pending)
        } else {
            resume(conn.pending + bytes)
        },
        (ConnectionState::Decoding, EventView::Decoded(envelope)) => proceed(
            conn,
            ConnectionState::Dispatching,
            ActionView::Dispatch(envelope),
        ),
        (ConnectionState::Decoding, EventView::Undecodable(detail)) => proceed(
            conn,
            ConnectionState::Encoding,
            ActionView::Encode(malformed_answer(detail)),
        ),
        (ConnectionState::Dispatching, EventView::Answered(response)) => proceed(
            conn,
            ConnectionState::Encoding,
            ActionView::Encode(response),
        ),
        (ConnectionState::Encoding, EventView::Encoded(bytes)) => if has_frame(bytes) {
            resume(conn.pending)
        } else {
            proceed(conn, ConnectionState::Writing, ActionView::Write(framed(bytes)))
        },
        (ConnectionState::Encoding, EventView::Unencodable) => resume(conn.pending),
        (ConnectionState::Writing, EventView::Written) => resume(conn.pending),
        _ => close(conn.pending),
    }
}

/// The bytes that an event brings in.
pub open spec fn brought(conn: ConnectionView, event: EventView) -> Seq<u8> {
    match (conn.state, event) {
        (ConnectionState::Reading, EventView::Received(bytes)) => bytes,
        _ => Seq::empty(),
    }
}

/// The bytes that an action hands out as a frame.
pub open spec fn handed_out(action: ActionView) -> Seq<u8> {
    match action {
        ActionView::Decode(payload) => framed(payload),
        _ => Seq::empty(),
    }
}

/// One connection: its state and the bytes it has received.
#[derive(Debug)]
pub struct Connection {
    state: ConnectionState,
    buffer: FrameBuffer,
}

impl View for Connection {
    type V = ConnectionView;

    closed spec fn view(&self) -> ConnectionView {
        ConnectionView { state: self.state, pending: self.buffer@ }
    }
}

impl Connection {
    /// A connection that was just accepted: it waits for bytes, so the
    /// driver's first action is to read.
    pub fn new() -> (conn: Self)
        ensures
            conn@.state == ConnectionState::Reading,
            conn@.pending == Seq::<u8>::empty(),
    {
        Connection { state: ConnectionState::Reading, buffer: FrameBuffer::new() }
    }

    /// Where the connection stands.
    pub fn state(&self) -> (state: ConnectionState)
        ensures
            state == self@.state,
    {
        self.state
    }

    /// Whether the connection is over.
    pub fn is_closed(&self) -> (closed: bool)
        ensures
            closed == (self@.state == ConnectionState::Closed),
    {
        match self.state {
            ConnectionState::Closed => true,
            _ => false,
        }
    }

    /// Takes up what is next in the received bytes.
    fn resume(&mut self) -> (action: ConnectionAction)
        ensures
            (final(self)@, action@) == resume(old(self)@.pending),
    {
        match self.buffer.pop_frame() {
            Some(frame) => {
                self.state = ConnectionState::Decoding;
                ConnectionAction::Decode(frame)
            },
            None => {
                self.state = ConnectionState::Reading;
                ConnectionAction::Read
            },
        }
    }

    /// Ends the connection.
    fn close(&mut self) -> (action: ConnectionAction)
        ensures
            (final(self)@, action@) == close(old(self)@.pending),
    {
        self.state = ConnectionState::Closed;
        ConnectionAction::Close
    }

    /// Takes in what the driver reports and says what it has to do next.
    pub fn step(&mut self, event: ConnectionEvent) -> (action: ConnectionAction)
        ensures
            (final(self)@, action@) == transition(old(self)@, event@),
    {
        match self.state {
            ConnectionState::Reading => match event {
                ConnectionEvent::Received(bytes) => {
                    if bytes.len() == 0 {
                        self.close()
                    } else {
                        self.buffer.push(bytes);
                        self.resume()
                    }
                },
                _ => self.close(),
            },
            ConnectionState::Decoding => match event {
                ConnectionEvent::Decoded(envelope) => {
                    self.state = ConnectionState::Dispatching;
                    ConnectionAction::Dispatch(envelope)
                },
                ConnectionEvent::Undecodable(detail) => {
                    self.state = ConnectionState::Encoding;
                    ConnectionAction::Encode(malformed_request(&detail))
                },
                _ => self.close(),
            },
            ConnectionState::Dispatching => match event {
                ConnectionEvent::Answered(response) => {
                    self.state = ConnectionState::Encoding;
                    ConnectionAction::Encode(response)
                },
                _ => self.close(),
            },
            ConnectionState::Encoding => match event {
                ConnectionEvent::Encoded(bytes) => match encode_frame(bytes) {
                    Some(frame) => {
                        self.state = ConnectionState::Writing;
                        ConnectionAction::Write(frame)
                    },
                    None => self.resume(),
                },
                ConnectionEvent::Unencodable => self.resume(),
                _ => self.close(),
            },
            ConnectionState::Writing => match event {
                ConnectionEvent::Written => self.resume(),
                _ => self.close(),
            },
            ConnectionState::Closed => self.close(),
        }
    }
}

/// Every received byte is handed out once, in order: at each step the bytes
/// handed out as a frame and the bytes still waiting are the bytes that
/// waited before and those the event brought in. A frame that is handed out
/// is one whole request line, and the connection reads again only when no
/// complete frame is waiting.
pub proof fn lemma_step_keeps_bytes(conn: ConnectionView, event: EventView)
    ensures
        ({
            let (next, action) = transition(conn, event);
            &&& handed_out(action) + next.pending == conn.pending + brought(conn, event)
            &&& action matches ActionView::Decode(payload) ==> !has_frame(payload)
            &&& action is Read ==> !has_frame(next.pending)
        }),
{
    let (next, action) = transition(conn, event);
    let all = conn.pending + brought(conn, event);
    assert(conn.pending + Seq::<u8>::empty() =~= conn.pending);
    if has_frame(all) {
        lemma_first_frame_splits(all);
    }
    if has_frame(conn.pending) {
        lemma_first_frame_splits(conn.pending);
    }
    assert(Seq::<u8>::empty() + next.pending =~= next.pending);
}

/// A connection that is over stays over, and a failure of reading or writing
/// ends a connection in any state.
pub proof fn lemma_closed_is_final(conn: ConnectionView, event: EventView)
    requires
        conn.state == ConnectionState::Closed || event is Failed,
    ensures
        transition(conn, event) == close(conn.pending),
{
}

/// Only the peer closing, a failure, or an event that the state does not
/// wait for ends a connection; what a request or a frame holds never does.
pub proof fn lemma_content_never_closes(conn: ConnectionView, event: EventView)
    requires
        match (conn.state, event) {
            (ConnectionState::Reading, EventView::Received(bytes)) => bytes.len() > 0,
            (ConnectionState::Decoding, EventView::Decoded(_)) => true,
            (ConnectionState::Decoding, EventView::Undecodable(_)) => true,
            (ConnectionState::Dispatching, EventView::Answered(_)) => true,
            (ConnectionState::Encoding, EventView::Encoded(_)) => true,
            (ConnectionState::Encoding, EventView::Unencodable) => true,
            (ConnectionState::Writing, EventView::Written) => true,
            _ => false,
        },
    ensures
        transition(conn, event).0.state != ConnectionState::Closed,
        !(transition(conn, event).1 is Close),
{
}

/// A frame that cannot be decoded is answered with an error and does not
/// harm the connection: the error goes out as one frame without being
/// dispatched, and then the connection takes up the bytes that follow, as
/// after any other request.
pub proof fn lemma_malformed_frame_is_answered(
    pending: Seq<u8>,
    detail: Seq<char>,
    encoded: Seq<u8>,
)
    requires
        !has_frame(encoded),
    ensures
        ({
            let decoding = ConnectionView { state: ConnectionState::Decoding, pending };
            let (encoding, first) = transition(decoding, EventView::Undecodable(detail));
            let (writing, second) = transition(encoding, EventView::Encoded(encoded));
            let (next, third) = transition(writing, EventView::Written);
            &&& first == ActionView::Encode(malformed_answer(detail))
            &&& malformed_answer(detail) is Error
            &&& second == ActionView::Write(framed(encoded))
            &&& (next, third) == resume(pending)
            &&& next.state != ConnectionState::Closed
        }),
{
}

/// A request is served in one round: the decoded envelope is dispatched, its
/// response is encoded and written as one frame, and then the connection
/// takes up the bytes that follow.
pub proof fn lemma_request_is_served(
    pending: Seq<u8>,
    request: MessageView,
    response: MessageView,
    encoded: Seq<u8>,
)
    requires
        !has_frame(encoded),
    ensures
        ({
            let decoding = ConnectionView { state: ConnectionState::Decoding, pending };
            let (dispatching, first) = transition(decoding, EventView::Decoded(request));
            let (encoding, second) = transition(dispatching, EventView::Answered(response));
            let (writing, third) = transition(encoding, EventView::Encoded(encoded));
            let (next, fourth) = transition(writing, EventView::Written);
            &&& first == ActionView::Dispatch(request)
            &&& second == ActionView::Encode(response)
            &&& third == ActionView::Write(framed(encoded))
            &&& (next, fourth) == resume(pending)
        }),
{
}

} // verus!
