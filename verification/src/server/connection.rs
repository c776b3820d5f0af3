//! What happens on the connection of a client: output of the PTY goes to the
//! client, messages of the client go to the PTY.
//!
//! The functions here take an event and say what to do about it; waiting for
//! events and doing it is left to the caller.

use crate::server::frames::{
    accepts, binary_chunks, binary_frame, chunks, joined, kept, lemma_chunks_join_to_the_whole,
    lemma_history_is_a_suffix, lossy_text, messages_view, text_frame, ByteBudget, Message,
    MessageView, MAX_PENDING_BYTES,
};
use crate::server::session::{pty_size, PtySize};
use vstd::prelude::*;
use vstd::string::*;

verus! {

/// What kind of frames a server sends.
#[derive(Clone, Copy, PartialEq, Eq, Structural, Debug)]
pub enum Protocol {
    /// Output as binary frames; a client that lags behind, or has too much
    /// queued, is sent the history anew. Binary input is accepted.
    Binary,
    /// Output as text frames; a client that lags behind is cut off. Binary
    /// input is ignored.
    Text,
}

/// Something that the output channel of a session delivers to a connection.
#[derive(Debug)]
pub enum OutputEvent {
    /// A piece of output.
    Output(Vec<u8>),
    /// Pieces were dropped because the connection was too slow.
    Lagged,
    /// The session is gone.
    Closed,
}

/// What to do about an output event.
#[derive(Debug)]
pub enum OutputAction {
    /// Send this frame.
    Send(Message),
    /// Discard what is queued and send the history.
    Replay,
    /// Close the connection.
    Stop,
}

/// The mathematical value of an [`OutputEvent`].
pub enum OutputEventView {
    Output(Seq<u8>),
    Lagged,
    Closed,
}

/// The mathematical value of an [`OutputAction`].
pub enum OutputActionView {
    Send(MessageView),
    Replay,
    Stop,
}

impl View for OutputEvent {
    type V = OutputEventView;

    open spec fn view(&self) -> OutputEventView {
        match *self {
            OutputEvent::Output(bytes) => OutputEventView::Output(bytes@),
            OutputEvent::Lagged => OutputEventView::Lagged,
            OutputEvent::Closed => OutputEventView::Closed,
        }
    }
}

impl View for OutputAction {
    type V = OutputActionView;

    open spec fn view(&self) -> OutputActionView {
        match *self {
            OutputAction::Send(message) => OutputActionView::Send(message@),
            OutputAction::Replay => OutputActionView::Replay,
            OutputAction::Stop => OutputActionView::Stop,
        }
    }
}

/// The frame that carries a piece of output.
pub open spec fn frame(protocol: Protocol, bytes: Seq<u8>) -> MessageView {
    match protocol {
        Protocol::Binary => MessageView::Binary(bytes),
        Protocol::Text => MessageView::Text(lossy_text(bytes)),
    }
}

/// What to do about an output event when `pending` bytes are queued, and how
/// many are queued then.
pub open spec fn output_step(protocol: Protocol, pending: nat, event: OutputEventView) -> (
    OutputActionView,
    nat,
) {
    match (protocol, event) {
        (Protocol::Binary, OutputEventView::Output(bytes)) => if accepts(pending, bytes.len()) {
            (OutputActionView::Send(frame(protocol, bytes)), pending + bytes.len())
        } else {
            (OutputActionView::Replay, 0)
        },
        (Protocol::Binary, OutputEventView::Lagged) => (OutputActionView::Replay, 0),
        (Protocol::Text, OutputEventView::Output(bytes)) => (
            OutputActionView::Send(frame(protocol, bytes)),
            pending,
        ),
        _ => (OutputActionView::Stop, pending),
    }
}

/// Decides what to do about an output event.
pub fn on_output(protocol: Protocol, budget: &mut ByteBudget, event: OutputEvent) -> (action:
    OutputAction)
    requires
        event@ matches OutputEventView::Output(bytes) ==> old(budget).pending + bytes.len()
            <= usize::MAX,
    ensures
        (action@, final(budget).pending as nat) == output_step(
            protocol,
            old(budget).pending as nat,
            event@,
        ),
{
    match event {
        OutputEvent::Output(bytes) => match protocol {
            Protocol::Binary => if budget.accept(bytes.len()) {
                OutputAction::Send(binary_frame(bytes))
            } else {
                OutputAction::Replay
            },
            Protocol::Text => OutputAction::Send(text_frame(bytes.as_slice())),
        },
        OutputEvent::Lagged => match protocol {
            Protocol::Binary => {
                budget.reset();
                OutputAction::Replay
            },
            Protocol::Text => OutputAction::Stop,
        },
        OutputEvent::Closed => OutputAction::Stop,
    }
}

/// The frames that bring a client up to date from the history; none when
/// there is no history.
pub open spec fn replay(protocol: Protocol, history: Seq<u8>) -> Seq<MessageView> {
    match protocol {
        Protocol::Binary => chunks(history),
        Protocol::Text => if history.len() == 0 {
            Seq::empty()
        } else {
            seq![MessageView::Text(lossy_text(history))]
        },
    }
}

/// The frames that bring a client up to date from the history.
pub fn replay_frames(protocol: Protocol, history: Vec<u8>) -> (frames: Vec<Message>)
    ensures
        messages_view(frames@) == replay(protocol, history@),
{
    match protocol {
        Protocol::Binary => binary_chunks(history),
        Protocol::Text => {
            let mut frames: Vec<Message> = Vec::new();
            if history.len() > 0 {
                frames.push(text_frame(history.as_slice()));
            }
            assert(messages_view(frames@) =~= replay(protocol, history@));
            frames
        },
    }
}

/// A control message of a client.
#[derive(Debug)]
pub enum ClientMessage {
    /// Text that was typed.
    Input { data: String },
    /// The terminal has a new size.
    Resize { cols: u16, rows: u16, pixel_width: u16, pixel_height: u16 },
}

/// A frame that a client sent.
#[derive(Debug)]
pub enum ClientFrame {
    /// A text frame, with the control message that it holds, if it does.
    Text(Option<ClientMessage>),
    /// A binary frame.
    Binary(Vec<u8>),
    /// Any other frame.
    Other,
}

/// What to do about a frame that a client sent.
#[derive(Debug)]
pub enum InputAction {
    /// Write these bytes to the PTY.
    Write(Vec<u8>),
    /// Resize the PTY.
    Resize(PtySize),
    /// Nothing.
    Ignore,
}

/// The mathematical value of an [`InputAction`].
pub enum InputActionView {
    Write(Seq<u8>),
    Resize(PtySize),
    Ignore,
}

impl View for InputAction {
    type V = InputActionView;

    open spec fn view(&self) -> InputActionView {
        match *self {
            InputAction::Write(bytes) => InputActionView::Write(bytes@),
            InputAction::Resize(size) => InputActionView::Resize(size),
            InputAction::Ignore => InputActionView::Ignore,
        }
    }
}

/// What to do about a frame that a client sent: typed text is written as
/// UTF-8, binary frames are written as they are, and what is not understood
/// is ignored.
pub open spec fn input_step(protocol: Protocol, frame: ClientFrame) -> InputActionView {
    match frame {
        ClientFrame::Text(Some(ClientMessage::Input { data })) => InputActionView::Write(
            vstd::utf8::encode_utf8(data@),
        ),
        ClientFrame::Text(
            Some(ClientMessage::Resize { cols, rows, pixel_width, pixel_height }),
        ) => InputActionView::Resize(PtySize { rows, cols, pixel_width, pixel_height }),
        ClientFrame::Binary(bytes) => if protocol == Protocol::Binary {
            InputActionView::Write(bytes@)
        } else {
            InputActionView::Ignore
        },
        _ => InputActionView::Ignore,
    }
}

/// Decides what to do about a frame that a client sent.
pub fn on_client_frame(protocol: Protocol, frame: ClientFrame) -> (action: InputAction)
    ensures
        action@ == input_step(protocol, frame),
{
    match frame {
        ClientFrame::Text(Some(message)) => match message {
            ClientMessage::Input { data } => InputAction::Write(data.as_str().as_bytes_vec()),
            ClientMessage::Resize { cols, rows, pixel_width, pixel_height } => InputAction::Resize(
                pty_size(cols, rows, pixel_width, pixel_height),
            ),
        },
        ClientFrame::Text(None) => InputAction::Ignore,
        ClientFrame::Binary(bytes) => match protocol {
            Protocol::Binary => InputAction::Write(bytes),
            Protocol::Text => InputAction::Ignore,
        },
        ClientFrame::Other => InputAction::Ignore,
    }
}

/// How far a connection has come.
#[derive(Clone, Copy, PartialEq, Eq, Structural, Debug)]
pub enum Phase {
    /// The history is being sent.
    Replaying,
    /// Output and input are passed on.
    Live,
    /// Nothing is done any more.
    Ended,
}

/// The connection of a client to its session.
#[derive(Debug)]
pub struct Connection {
    pub protocol: Protocol,
    pub phase: Phase,
    pub budget: ByteBudget,
}

/// Something that happens on a connection.
#[derive(Debug)]
pub enum ConnectionEvent {
    /// The frames of the history were sent, or could not be sent.
    Replayed { sent: bool },
    /// The output channel delivered something.
    Output(OutputEvent),
    /// Everything that was queued for the client has been delivered.
    Drained,
    /// A frame could not be sent.
    SendFailed,
    /// The client sends no more.
    ClientGone,
}

/// What to do about a connection event.
#[derive(Debug)]
pub enum ConnectionAction {
    /// Subscribe to the output of the session and start to pass it on.
    Subscribe,
    /// Send this frame.
    Send(Message),
    /// Discard what is queued and send the history.
    Replay,
    /// Wait for the next event.
    Wait,
    /// Close the connection and release the client.
    Release,
}

/// The mathematical value of a [`ConnectionEvent`].
pub enum ConnectionEventView {
    Replayed { sent: bool },
    Output(OutputEventView),
    Drained,
    SendFailed,
    ClientGone,
}

/// The mathematical value of a [`ConnectionAction`].
pub enum ConnectionActionView {
    Subscribe,
    Send(MessageView),
    Replay,
    Wait,
    Release,
}

impl View for ConnectionEvent {
    type V = ConnectionEventView;

    open spec fn view(&self) -> ConnectionEventView {
        match *self {
            ConnectionEvent::Replayed { sent } => ConnectionEventView::Replayed { sent },
            ConnectionEvent::Output(event) => ConnectionEventView::Output(event@),
            ConnectionEvent::Drained => ConnectionEventView::Drained,
            ConnectionEvent::SendFailed => ConnectionEventView::SendFailed,
            ConnectionEvent::ClientGone => ConnectionEventView::ClientGone,
        }
    }
}

impl View for ConnectionAction {
    type V = ConnectionActionView;

    open spec fn view(&self) -> ConnectionActionView {
        match *self {
            ConnectionAction::Subscribe => ConnectionActionView::Subscribe,
            ConnectionAction::Send(message) => ConnectionActionView::Send(message@),
            ConnectionAction::Replay => ConnectionActionView::Replay,
            ConnectionAction::Wait => ConnectionActionView::Wait,
            ConnectionAction::Release => ConnectionActionView::Release,
        }
    }
}

/// The mathematical value of a [`Connection`].
pub struct ConnectionView {
    pub protocol: Protocol,
    pub phase: Phase,
    pub pending: nat,
}

impl View for Connection {
    type V = ConnectionView;

    open spec fn view(&self) -> ConnectionView {
        ConnectionView {
            protocol: self.protocol,
            phase: self.phase,
            pending: self.budget.pending as nat,
        }
    }
}

impl ConnectionView {
    /// What the connection does about an event, and how it goes on.
    ///
    /// A failure to send the history ends a binary connection; a text
    /// connection goes on regardless. A live connection ends when the session
    /// is gone, a frame cannot be sent or the client sends no more. Whenever a
    /// connection ends, its client is released; after that nothing is done.
    /// What has been delivered is no longer queued.
    pub open spec fn step(self, event: ConnectionEventView) -> (ConnectionActionView, ConnectionView) {
        let live = ConnectionView { phase: Phase::Live, ..self };
        let ended = ConnectionView { phase: Phase::Ended, ..self };
        match (self.phase, event) {
            (Phase::Replaying, ConnectionEventView::Replayed { sent }) => if sent || self.protocol
                == Protocol::Text {
                (ConnectionActionView::Subscribe, live)
            } else {
                (ConnectionActionView::Release, ended)
            },
            (Phase::Live, ConnectionEventView::Output(output)) => {
                let (action, pending) = output_step(self.protocol, self.pending, output);
                match action {
                    OutputActionView::Send(message) => (
                        ConnectionActionView::Send(message),
                        ConnectionView { pending, ..self },
                    ),
                    OutputActionView::Replay => (
                        ConnectionActionView::Replay,
                        ConnectionView { pending, ..self },
                    ),
                    OutputActionView::Stop => (ConnectionActionView::Release, ended),
                }
            },
            (Phase::Live, ConnectionEventView::Drained) => (
                ConnectionActionView::Wait,
                ConnectionView { pending: 0, ..self },
            ),
            (Phase::Live, ConnectionEventView::SendFailed) => (ConnectionActionView::Release, ended),
            (Phase::Live, ConnectionEventView::ClientGone) => (ConnectionActionView::Release, ended),
            _ => (ConnectionActionView::Wait, self),
        }
    }

    /// The connection after a run of events.
    pub open spec fn run(self, events: Seq<ConnectionEventView>) -> ConnectionView
        decreases events.len(),
    {
        if events.len() == 0 {
            self
        } else {
            self.run(events.drop_last()).step(events.last()).1
        }
    }
}

impl Connection {
    /// A connection that has been accepted, with the frames that bring the
    /// client up to date.
    pub fn new(protocol: Protocol, history: Vec<u8>) -> (started: (Connection, Vec<Message>))
        ensures
            started.0@ == (ConnectionView { protocol, phase: Phase::Replaying, pending: 0 }),
            messages_view(started.1@) == replay(protocol, history@),
    {
        let frames: Vec<Message> = replay_frames(protocol, history);
        (Connection { protocol, phase: Phase::Replaying, budget: ByteBudget::default() }, frames)
    }

    /// Decides what to do about an event.
    pub fn on_event(&mut self, event: ConnectionEvent) -> (action: ConnectionAction)
        requires
            event@ matches ConnectionEventView::Output(OutputEventView::Output(bytes)) ==> old(
                self,
            )@.pending + bytes.len() <= usize::MAX,
        ensures
            (action@, final(self)@) == old(self)@.step(event@),
    {
        match self.phase {
            Phase::Replaying => match event {
                ConnectionEvent::Replayed { sent } => match self.protocol {
                    Protocol::Binary => if sent {
                        self.phase = Phase::Live;
                        ConnectionAction::Subscribe
                    } else {
                        self.phase = Phase::Ended;
                        ConnectionAction::Release
                    },
                    Protocol::Text => {
                        self.phase = Phase::Live;
                        ConnectionAction::Subscribe
                    },
                },
                _ => ConnectionAction::Wait,
            },
            Phase::Live => match event {
                ConnectionEvent::Output(output) => match on_output(
                    self.protocol,
                    &mut self.budget,
                    output,
                ) {
                    OutputAction::Send(message) => ConnectionAction::Send(message),
                    OutputAction::Replay => ConnectionAction::Replay,
                    OutputAction::Stop => {
                        self.phase = Phase::Ended;
                        ConnectionAction::Release
                    },
                },
                ConnectionEvent::Replayed { .. } => ConnectionAction::Wait,
                ConnectionEvent::Drained => {
                    self.budget.reset();
                    ConnectionAction::Wait
                },
                _ => {
                    self.phase = Phase::Ended;
                    ConnectionAction::Release
                },
            },
            Phase::Ended => ConnectionAction::Wait,
        }
    }
}

/// Whether an event of a connection lets it go live: the history was sent, or
/// could not be sent to a client that does without.
pub open spec fn goes_live(protocol: Protocol, event: ConnectionEventView) -> bool {
    event matches ConnectionEventView::Replayed { sent } && (sent || protocol == Protocol::Text)
}

/// Output is sent only after the history: before a connection sends a frame,
/// its history was sent, or could not be sent to a client that does without.
pub proof fn lemma_history_comes_first(
    protocol: Protocol,
    events: Seq<ConnectionEventView>,
    next: ConnectionEventView,
)
    ensures
        ({
            let start = ConnectionView { protocol, phase: Phase::Replaying, pending: 0 };
            start.run(events).step(next).0 is Send ==> exists|i: int|
                0 <= i < events.len() && #[trigger] goes_live(protocol, events[i])
        }),
{
    let start = ConnectionView { protocol, phase: Phase::Replaying, pending: 0 };
    if start.run(events).step(next).0 is Send {
        lemma_live_after_history(protocol, events);
    }
}

/// A live connection has seen an event that let it go live.
proof fn lemma_live_after_history(protocol: Protocol, events: Seq<ConnectionEventView>)
    ensures
        ({
            let start = ConnectionView { protocol, phase: Phase::Replaying, pending: 0 };
            &&& start.run(events).protocol == protocol
            &&& start.run(events).phase == Phase::Live ==> exists|i: int|
                0 <= i < events.len() && #[trigger] goes_live(protocol, events[i])
        }),
    decreases events.len(),
{
    let start = ConnectionView { protocol, phase: Phase::Replaying, pending: 0 };
    if events.len() > 0 {
        let rest = events.drop_last();
        lemma_live_after_history(protocol, rest);
        if start.run(rest).phase == Phase::Live {
            let i = choose|i: int| 0 <= i < rest.len() && #[trigger] goes_live(protocol, rest[i]);
            assert(goes_live(protocol, events[i]));
        } else if start.run(events).phase == Phase::Live {
            assert(goes_live(protocol, events[events.len() - 1]));
        }
    }
}

/// A connection that has ended stays so and does nothing more, so a client is
/// released at most once.
pub proof fn lemma_clients_are_released_once(
    connection: ConnectionView,
    event: ConnectionEventView,
    later: Seq<ConnectionEventView>,
    next: ConnectionEventView,
)
    requires
        connection.step(event).0 == ConnectionActionView::Release,
    ensures
        connection.step(event).1.run(later).phase == Phase::Ended,
        connection.step(event).1.run(later).step(next).0 == ConnectionActionView::Wait,
    decreases later.len(),
{
    if later.len() > 0 {
        lemma_clients_are_released_once(connection, event, later.drop_last(), later.last());
    }
}

/// A connection never ends without its client being released.
pub proof fn lemma_ending_releases_the_client(connection: ConnectionView, event: ConnectionEventView)
    requires
        connection.phase != Phase::Ended,
    ensures
        connection.step(event).1.phase == Phase::Ended <==> connection.step(event).0
            == ConnectionActionView::Release,
{
}

/// A client that missed output, or would have too much queued, is sent the
/// history anew, with nothing queued.
pub proof fn lemma_slow_clients_are_brought_up_to_date(
    connection: ConnectionView,
    event: OutputEventView,
)
    requires
        connection.phase == Phase::Live,
        connection.protocol == Protocol::Binary,
        event is Lagged || (event matches OutputEventView::Output(bytes) && connection.pending
            + bytes.len() > MAX_PENDING_BYTES),
    ensures
        connection.step(ConnectionEventView::Output(event)) == (
            ConnectionActionView::Replay,
            ConnectionView { pending: 0, ..connection },
        ),
{
}

/// A client that keeps up is sent every piece of output that fits into the
/// budget by itself, however much was delivered before.
pub proof fn lemma_delivered_output_does_not_count(
    connection: ConnectionView,
    first: Seq<u8>,
    second: Seq<u8>,
)
    requires
        connection.phase == Phase::Live,
        connection.protocol == Protocol::Binary,
        second.len() <= MAX_PENDING_BYTES,
    ensures
        connection.step(ConnectionEventView::Output(OutputEventView::Output(first))).1.step(
            ConnectionEventView::Drained,
        ).1.step(ConnectionEventView::Output(OutputEventView::Output(second))).0
            == ConnectionActionView::Send(MessageView::Binary(second)),
{
}

/// What is queued for a client never exceeds the budget.
pub proof fn lemma_queue_is_bounded(protocol: Protocol, events: Seq<ConnectionEventView>)
    ensures
        (ConnectionView { protocol, phase: Phase::Replaying, pending: 0 }).run(events).pending
            <= MAX_PENDING_BYTES,
    decreases events.len(),
{
    if events.len() > 0 {
        lemma_queue_is_bounded(protocol, events.drop_last());
    }
}

/// The pieces of output, one after the other.
pub open spec fn output(pieces: Seq<Seq<u8>>) -> Seq<u8>
    decreases pieces.len(),
{
    if pieces.len() == 0 {
        Seq::empty()
    } else {
        output(pieces.drop_last()) + pieces.last()
    }
}

/// Bytes queued for a client after the pieces of output, when `pending` bytes
/// were queued before them.
pub open spec fn queued(pending: nat, pieces: Seq<Seq<u8>>) -> nat
    decreases pieces.len(),
{
    if pieces.len() == 0 {
        pending
    } else {
        output_step(
            Protocol::Binary,
            queued(pending, pieces.drop_last()),
            OutputEventView::Output(pieces.last()),
        ).1
    }
}

/// Whether every one of the pieces is forwarded to the client.
pub open spec fn all_forwarded(pending: nat, pieces: Seq<Seq<u8>>) -> bool
    decreases pieces.len(),
{
    pieces.len() == 0 || (all_forwarded(pending, pieces.drop_last()) && output_step(
        Protocol::Binary,
        queued(pending, pieces.drop_last()),
        OutputEventView::Output(pieces.last()),
    ).0 == OutputActionView::Send(MessageView::Binary(pieces.last())))
}

/// As long as everything is forwarded, what is queued is what was forwarded,
/// and it never exceeds the budget.
pub proof fn lemma_queue_counts_what_is_forwarded(pending: nat, pieces: Seq<Seq<u8>>)
    requires
        all_forwarded(pending, pieces),
        pending <= MAX_PENDING_BYTES,
    ensures
        queued(pending, pieces) == pending + output(pieces).len(),
        queued(pending, pieces) <= MAX_PENDING_BYTES,
    decreases pieces.len(),
{
    if pieces.len() > 0 {
        lemma_queue_counts_what_is_forwarded(pending, pieces.drop_last());
    }
}

/// A client that connects is sent exactly the scrollback, which is the end of
/// everything that the shell wrote.
pub proof fn lemma_replay_is_the_end_of_all_output(history: Seq<u8>, data: Seq<u8>)
    ensures
        joined(replay(Protocol::Binary, kept(history, data))) == kept(history, data),
        kept(history, data).is_suffix_of(history + data),
{
    lemma_chunks_join_to_the_whole(kept(history, data));
    lemma_history_is_a_suffix(history, data);
}

/// Input reaches the PTY byte for byte, whatever the bytes are.
pub proof fn lemma_binary_input_is_verbatim(bytes: Vec<u8>)
    ensures
        input_step(Protocol::Binary, ClientFrame::Binary(bytes)) == InputActionView::Write(bytes@),
{
}

/// A live client is sent every piece of output that leaves no more than a
/// megabyte queued, as it is and however much is queued already.
pub proof fn lemma_output_that_fits_is_sent(connection: ConnectionView, bytes: Seq<u8>)
    requires
        connection.phase == Phase::Live,
        connection.protocol == Protocol::Binary,
        connection.pending + bytes.len() <= 1024 * 1024,
    ensures
        connection.step(ConnectionEventView::Output(OutputEventView::Output(bytes))) == (
            ConnectionActionView::Send(MessageView::Binary(bytes)),
            ConnectionView { pending: connection.pending + bytes.len(), ..connection },
        ),
{
}

/// A live text client is sent every piece of output, however large and however
/// much is queued, and stays live.
pub proof fn lemma_text_output_is_always_sent(connection: ConnectionView, bytes: Seq<u8>)
    requires
        connection.phase == Phase::Live,
        connection.protocol == Protocol::Text,
    ensures
        connection.step(ConnectionEventView::Output(OutputEventView::Output(bytes))).0
            == ConnectionActionView::Send(MessageView::Text(lossy_text(bytes))),
        connection.step(ConnectionEventView::Output(OutputEventView::Output(bytes))).1
            == connection,
{
}

/// A live client stays until its session is gone, a frame cannot be sent or it
/// sends no more; a text client also leaves when it missed output. Nothing
/// else ends a live connection.
pub proof fn lemma_live_clients_stay(connection: ConnectionView, event: ConnectionEventView)
    requires
        connection.phase == Phase::Live,
    ensures
        connection.step(event).1.phase == Phase::Ended <==> {
            ||| event is SendFailed
            ||| event is ClientGone
            ||| event == ConnectionEventView::Output(OutputEventView::Closed)
            ||| event == ConnectionEventView::Output(OutputEventView::Lagged)
                && connection.protocol == Protocol::Text
        },
        connection.step(event).1.phase != Phase::Replaying,
        connection.step(event).1.protocol == connection.protocol,
{
}

/// A new connection waits for its history to be sent, whatever else happens
/// meanwhile. It then goes live, unless the history could not be sent to a
/// binary client, which is released.
pub proof fn lemma_new_clients_wait_for_the_history(connection: ConnectionView, event: ConnectionEventView)
    requires
        connection.phase == Phase::Replaying,
    ensures
        !(event is Replayed) ==> connection.step(event) == (ConnectionActionView::Wait, connection),
        event == (ConnectionEventView::Replayed { sent: true }) ==> connection.step(event) == (
            ConnectionActionView::Subscribe,
            ConnectionView { phase: Phase::Live, ..connection },
        ),
        event == (ConnectionEventView::Replayed { sent: false }) ==> connection.step(event).0 == (
        if connection.protocol == Protocol::Binary {
            ConnectionActionView::Release
        } else {
            ConnectionActionView::Subscribe
        }),
{
}

/// A connection subscribes to the output once at most: once live it never
/// subscribes again.
pub proof fn lemma_clients_subscribe_once(
    connection: ConnectionView,
    later: Seq<ConnectionEventView>,
    next: ConnectionEventView,
)
    requires
        connection.phase == Phase::Live,
    ensures
        connection.run(later).phase != Phase::Replaying,
        connection.run(later).step(next).0 != ConnectionActionView::Subscribe,
    decreases later.len(),
{
    if later.len() > 0 {
        lemma_clients_subscribe_once(connection, later.drop_last(), later.last());
    }
}

/// What a text client is sent when it connects is all of the history in one
/// frame.
pub proof fn lemma_text_replay_is_one_frame(history: Seq<u8>)
    ensures
        history.len() > 0 ==> replay(Protocol::Text, history) == seq![
            MessageView::Text(lossy_text(history)),
        ],
        history.len() == 0 ==> replay(Protocol::Text, history).len() == 0,
{
}

/// Typed text reaches the PTY as the UTF-8 of that text under both protocols,
/// and decodes to it again.
pub proof fn lemma_typed_text_reaches_the_pty(protocol: Protocol, data: String)
    ensures
        input_step(protocol, ClientFrame::Text(Some(ClientMessage::Input { data }))) matches
            InputActionView::Write(bytes) && vstd::utf8::valid_utf8(bytes)
            && vstd::utf8::decode_utf8(bytes) == data@,
{
    vstd::utf8::encode_utf8_decode_utf8(data@);
    vstd::utf8::encode_utf8_valid_utf8(data@);
}

/// A new size reaches the PTY under both protocols, rows as rows and columns
/// as columns.
pub proof fn lemma_new_sizes_reach_the_pty(
    protocol: Protocol,
    cols: u16,
    rows: u16,
    pixel_width: u16,
    pixel_height: u16,
)
    ensures
        input_step(
            protocol,
            ClientFrame::Text(
                Some(ClientMessage::Resize { cols, rows, pixel_width, pixel_height }),
            ),
        ) matches InputActionView::Resize(size) && size.rows == rows && size.cols == cols
            && size.pixel_width == pixel_width && size.pixel_height == pixel_height,
{
}

/// Frames that hold no message are ignored, and so are binary frames where
/// output goes as text.
pub proof fn lemma_other_frames_are_ignored(protocol: Protocol, bytes: Vec<u8>)
    ensures
        input_step(protocol, ClientFrame::Text(None)) == InputActionView::Ignore,
        input_step(protocol, ClientFrame::Other) == InputActionView::Ignore,
        input_step(Protocol::Text, ClientFrame::Binary(bytes)) == InputActionView::Ignore,
{
}

} // verus!
