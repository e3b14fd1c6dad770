//! The per-connection state machine and the packets it exchanges.

use crate::chatserver::{
    Disconnect, DisconnectView, Message, MessageView, Notice, NoticeView, Register, RegisterView,
    Request, RequestView,
};
use vstd::prelude::*;
use vstd::string::*;

verus! {

/// The time between two probes of a connection, in nanoseconds.
pub const HEARTBEAT_INTERVAL: u64 = 6_000_000_000;

/// How long a connection may stay silent, in nanoseconds. It spans five
/// probes.
pub const CLIENT_TIMEOUT: u64 = 30_000_000_000;

/// Names the mailbox of one connection. The registry compares handles and
/// addresses notifications with them, nothing else.
#[derive(Copy, Debug, PartialEq, Eq, Hash)]
pub struct ConnectionHandle {
    pub key: u64,
}

impl Clone for ConnectionHandle {
    fn clone(&self) -> (r: Self)
        ensures
            r == *self,
    {
        ConnectionHandle { key: self.key }
    }
}

/// Where a connection stands on its way into a room.
#[derive(Debug, PartialEq, Eq)]
pub enum ClientState {
    /// The connection is open and has not been told its identifier.
    Init,
    /// The identifier was handed out; no room was asked for.
    Connected,
    /// A non-empty room was asked for and its occupants have not answered.
    AwaitingValidation,
    /// Admitted to the room named here.
    Validated(String),
}

/// The mathematical value of a [`ClientState`].
pub enum ClientStateView {
    Init,
    Connected,
    AwaitingValidation,
    Validated(Seq<char>),
}

impl View for ClientState {
    type V = ClientStateView;

    open spec fn view(&self) -> ClientStateView {
        match self {
            ClientState::Init => ClientStateView::Init,
            ClientState::Connected => ClientStateView::Connected,
            ClientState::AwaitingValidation => ClientStateView::AwaitingValidation,
            ClientState::Validated(room_id) => ClientStateView::Validated(room_id@),
        }
    }
}

impl Clone for ClientState {
    fn clone(&self) -> (r: Self)
        ensures
            r == *self,
    {
        match self {
            ClientState::Init => ClientState::Init,
            ClientState::Connected => ClientState::Connected,
            ClientState::AwaitingValidation => ClientState::AwaitingValidation,
            ClientState::Validated(room_id) => ClientState::Validated(room_id.clone()),
        }
    }
}

/// An occupant is asked to vouch for a newcomer, or answers that request.
#[derive(Debug, PartialEq, Eq)]
pub struct ValidationRequest {
    pub room_id: String,
    /// The connection that wants to join.
    pub id: String,
    /// A token that only the clients interpret.
    pub validation: String,
    pub accept: bool,
}

/// The mathematical value of a [`ValidationRequest`].
pub struct ValidationRequestView {
    pub room_id: Seq<char>,
    pub id: Seq<char>,
    pub validation: Seq<char>,
    pub accept: bool,
}

impl View for ValidationRequest {
    type V = ValidationRequestView;

    open spec fn view(&self) -> ValidationRequestView {
        ValidationRequestView {
            room_id: self.room_id@,
            id: self.id@,
            validation: self.validation@,
            accept: self.accept,
        }
    }
}

impl Clone for ValidationRequest {
    fn clone(&self) -> (r: Self)
        ensures
            r == *self,
    {
        ValidationRequest {
            room_id: self.room_id.clone(),
            id: self.id.clone(),
            validation: self.validation.clone(),
            accept: self.accept,
        }
    }
}

/// A chat line as the room receives it: who said it, and what.
#[derive(Debug, PartialEq, Eq)]
pub struct Text {
    pub id: String,
    pub message: String,
}

/// The mathematical value of a [`Text`].
pub struct TextView {
    pub id: Seq<char>,
    pub message: Seq<char>,
}

impl View for Text {
    type V = TextView;

    open spec fn view(&self) -> TextView {
        TextView { id: self.id@, message: self.message@ }
    }
}

impl Clone for Text {
    fn clone(&self) -> (r: Self)
        ensures
            r == *self,
    {
        Text { id: self.id.clone(), message: self.message.clone() }
    }
}

/// The packets of the tagged wire schema that a client may send. The session
/// itself sends the second and the fourth.
#[derive(Debug, PartialEq, Eq)]
pub enum ClientPacket {
    /// Ask to enter a room.
    Register { room_id: String, validation: String },
    /// Vouch, or refuse to vouch, for the connection `id`.
    ValidationRequest { room_id: String, id: String, validation: String, accept: bool },
    /// Say something to the room.
    Text { message: String },
    /// A sign of life; the payload is "Ping" by convention.
    Heartbeat(String),
}

/// The mathematical value of a [`ClientPacket`].
pub enum ClientPacketView {
    Register { room_id: Seq<char>, validation: Seq<char> },
    ValidationRequest { room_id: Seq<char>, id: Seq<char>, validation: Seq<char>, accept: bool },
    Text { message: Seq<char> },
    Heartbeat(Seq<char>),
}

impl View for ClientPacket {
    type V = ClientPacketView;

    open spec fn view(&self) -> ClientPacketView {
        match self {
            ClientPacket::Register { room_id, validation } => ClientPacketView::Register {
                room_id: room_id@,
                validation: validation@,
            },
            ClientPacket::ValidationRequest {
                room_id,
                id,
                validation,
                accept,
            } => ClientPacketView::ValidationRequest {
                room_id: room_id@,
                id: id@,
                validation: validation@,
                accept: *accept,
            },
            ClientPacket::Text { message } => ClientPacketView::Text { message: message@ },
            ClientPacket::Heartbeat(payload) => ClientPacketView::Heartbeat(payload@),
        }
    }
}

/// One text frame on its way to the client.
#[derive(Debug, PartialEq, Eq)]
pub enum Frame {
    /// Bare text outside the schema: the identifier at the start, a protocol
    /// error, the answer to a transport ping.
    Plain(String),
    /// The admission state, echoed to the client.
    State(ClientState),
    /// A chat line that was broadcast to the room.
    Chat(Text),
    /// A packet in the tagged envelope.
    Packet(ClientPacket),
}

/// The mathematical value of a [`Frame`].
pub enum FrameView {
    Plain(Seq<char>),
    State(ClientStateView),
    Chat(TextView),
    Packet(ClientPacketView),
}

impl View for Frame {
    type V = FrameView;

    open spec fn view(&self) -> FrameView {
        match self {
            Frame::Plain(text) => FrameView::Plain(text@),
            Frame::State(state) => FrameView::State(state@),
            Frame::Chat(text) => FrameView::Chat(text@),
            Frame::Packet(packet) => FrameView::Packet(packet@),
        }
    }
}

/// One frame as the transport hands it in. A text frame arrives decoded:
/// `None` stands for a payload that is no packet of the schema.
#[derive(Debug, PartialEq, Eq)]
pub enum Incoming {
    Text(Option<ClientPacket>),
    Binary,
    Ping,
    Pong,
    Close,
    Nop,
}

/// The mathematical value of an [`Incoming`].
pub enum IncomingView {
    Text(Option<ClientPacketView>),
    Binary,
    Ping,
    Pong,
    Close,
    Nop,
}

impl View for Incoming {
    type V = IncomingView;

    open spec fn view(&self) -> IncomingView {
        match self {
            Incoming::Text(Some(packet)) => IncomingView::Text(Some(packet@)),
            Incoming::Text(None) => IncomingView::Text(None),
            Incoming::Binary => IncomingView::Binary,
            Incoming::Ping => IncomingView::Ping,
            Incoming::Pong => IncomingView::Pong,
            Incoming::Close => IncomingView::Close,
            Incoming::Nop => IncomingView::Nop,
        }
    }
}

/// What a session asks of its host.
#[derive(Debug, PartialEq, Eq)]
pub enum Effect {
    /// Write the frame to the client.
    Send(Frame),
    /// Hand the request to the registry.
    Forward(Request),
    /// From now on, call `heartbeat` each time so many nanoseconds passed.
    Schedule(u64),
    /// End the session.
    Stop,
}

/// The mathematical value of an [`Effect`].
pub enum EffectView {
    Send(FrameView),
    Forward(RequestView),
    Schedule(u64),
    Stop,
}

impl View for Effect {
    type V = EffectView;

    open spec fn view(&self) -> EffectView {
        match self {
            Effect::Send(frame) => EffectView::Send(frame@),
            Effect::Forward(request) => EffectView::Forward(request@),
            Effect::Schedule(every) => EffectView::Schedule(*every),
            Effect::Stop => EffectView::Stop,
        }
    }
}

/// The values of a run of effects, in order.
pub open spec fn effects(run: Seq<Effect>) -> Seq<EffectView> {
    run.map_values(|e: Effect| e@)
}

/// What happens to a session.
#[derive(Debug, PartialEq, Eq)]
pub enum Event {
    /// The connection was opened.
    Started,
    /// The time for a probe has come.
    Heartbeat,
    /// The client sent a frame.
    Frame(Incoming),
    /// The registry sent a notice.
    Notice(Notice),
    /// The session has ended.
    Stopped,
}

/// The mathematical value of an [`Event`].
pub enum EventView {
    Started,
    Heartbeat,
    Frame(IncomingView),
    Notice(NoticeView),
    Stopped,
}

impl View for Event {
    type V = EventView;

    open spec fn view(&self) -> EventView {
        match self {
            Event::Started => EventView::Started,
            Event::Heartbeat => EventView::Heartbeat,
            Event::Frame(frame) => EventView::Frame(frame@),
            Event::Notice(notice) => EventView::Notice(notice@),
            Event::Stopped => EventView::Stopped,
        }
    }
}

/// The payload of a probe.
pub open spec fn ping_text() -> Seq<char> {
    "Ping"@
}

/// The answer to a ping of the transport.
pub open spec fn pong_text() -> Seq<char> {
    "PONG!"@
}

/// The answer to a text frame that holds no packet.
pub open spec fn invalid_packet_text() -> Seq<char> {
    "Invalid Packet Sent"@
}

/// The answer to an occupant who vouches for a room other than its own.
pub open spec fn other_room_text() -> Seq<char> {
    "Validation request cannot be given for another room."@
}

/// The answer to a connection that vouches without being admitted.
pub open spec fn not_validated_text() -> Seq<char> {
    "Validation requests can only be sent by already validated clients."@
}

/// The answer to a connection that speaks without being admitted.
pub open spec fn no_room_text() -> Seq<char> {
    "You must be validated into a room to sent a text message."@
}

/// One connection as a mathematical value.
pub struct Session {
    pub id: Seq<char>,
    pub addr: ConnectionHandle,
    pub state: ClientStateView,
    pub last_heartbeat: u64,
    pub closed: bool,
}

impl Session {
    /// A session that has just been accepted.
    pub open spec fn opened(id: Seq<char>, addr: ConnectionHandle, now: u64) -> Session {
        Session { id, addr, state: ClientStateView::Init, last_heartbeat: now, closed: false }
    }

    /// The session with another admission state.
    pub open spec fn with_state(self, state: ClientStateView) -> Session {
        Session { state, ..self }
    }

    /// The time since the client was last heard, none if the clock went back.
    pub open spec fn silence(self, now: u64) -> nat {
        if now >= self.last_heartbeat {
            (now - self.last_heartbeat) as nat
        } else {
            0
        }
    }

    /// Whether the client has been silent for longer than is allowed.
    pub open spec fn timed_out(self, now: u64) -> bool {
        self.silence(now) > CLIENT_TIMEOUT
    }

    /// What the start sends: the identifier as bare text, and the order
    /// for the probes.
    pub open spec fn start_effects(self) -> Seq<EffectView> {
        seq![
            EffectView::Send(FrameView::Plain(self.id)),
            EffectView::Schedule(HEARTBEAT_INTERVAL),
        ]
    }

    /// What a probe sends: a ping, and the end of a session whose client
    /// has been silent for too long.
    pub open spec fn heartbeat_effects(self, now: u64) -> Seq<EffectView> {
        let ping = EffectView::Send(
            FrameView::Packet(ClientPacketView::Heartbeat(ping_text())),
        );
        if self.timed_out(now) {
            seq![ping, EffectView::Stop]
        } else {
            seq![ping]
        }
    }

    /// What a packet of the client leads to. A registration goes to the
    /// registry with the session's identifier and handle. An answer to a
    /// request to vouch goes there unchanged if the session is admitted to
    /// the room it names. A chat line goes there, for the session's room,
    /// if the session is admitted. A heartbeat needs nothing.
    pub open spec fn packet_effect(self, packet: ClientPacketView) -> Seq<EffectView> {
        match packet {
            ClientPacketView::Register { room_id, validation } => seq![
                EffectView::Forward(
                    RequestView::Register(
                        RegisterView { id: self.id, room_id, validation, addr: self.addr },
                    ),
                ),
            ],
            ClientPacketView::ValidationRequest { room_id, id, validation, accept } => {
                match self.state {
                    ClientStateView::Validated(own_room) => if own_room == room_id {
                        seq![
                            EffectView::Forward(
                                RequestView::Validation(
                                    ValidationRequestView { room_id, id, validation, accept },
                                ),
                            ),
                        ]
                    } else {
                        seq![EffectView::Send(FrameView::Plain(other_room_text()))]
                    },
                    _ => seq![EffectView::Send(FrameView::Plain(not_validated_text()))],
                }
            },
            ClientPacketView::Text { message } => match self.state {
                ClientStateView::Validated(own_room) => seq![
                    EffectView::Forward(
                        RequestView::Message(
                            MessageView { id: self.id, room_id: own_room, message },
                        ),
                    ),
                ],
                _ => seq![EffectView::Send(FrameView::Plain(no_room_text()))],
            },
            ClientPacketView::Heartbeat(_) => Seq::empty(),
        }
    }

    /// The session after a frame: a text frame, whatever it holds, is a
    /// sign of life.
    pub open spec fn after_frame(self, frame: IncomingView, now: u64) -> Session {
        match frame {
            IncomingView::Text(_) => Session { last_heartbeat: now, ..self },
            _ => self,
        }
    }

    /// What a frame leads to.
    pub open spec fn frame_effects(self, frame: IncomingView) -> Seq<EffectView> {
        match frame {
            IncomingView::Text(Some(packet)) => self.packet_effect(packet),
            IncomingView::Text(None) => seq![
                EffectView::Send(FrameView::Plain(invalid_packet_text())),
            ],
            IncomingView::Ping => seq![EffectView::Send(FrameView::Plain(pong_text()))],
            IncomingView::Close => seq![EffectView::Stop],
            IncomingView::Binary => Seq::empty(),
            IncomingView::Pong => Seq::empty(),
            IncomingView::Nop => Seq::empty(),
        }
    }

    /// The session after a notice: a new state replaces the old one.
    pub open spec fn after_notice(self, notice: NoticeView) -> Session {
        match notice {
            NoticeView::State(state) => self.with_state(state),
            _ => self,
        }
    }

    /// What a notice leads to. A new state and a chat line go to the
    /// client. A request to vouch goes there, with `accept` unset, only
    /// while the session is admitted to a room.
    pub open spec fn notice_effects(self, notice: NoticeView) -> Seq<EffectView> {
        match notice {
            NoticeView::State(state) => seq![EffectView::Send(FrameView::State(state))],
            NoticeView::Validation(msg) => if self.state is Validated {
                seq![
                    EffectView::Send(
                        FrameView::Packet(
                            ClientPacketView::ValidationRequest {
                                room_id: msg.room_id,
                                id: msg.id,
                                validation: msg.validation,
                                accept: false,
                            },
                        ),
                    ),
                ]
            } else {
                Seq::empty()
            },
            NoticeView::Text(text) => seq![EffectView::Send(FrameView::Chat(text))],
        }
    }

    /// The session after its end.
    pub open spec fn after_stop(self) -> Session {
        Session { closed: true, ..self }
    }

    /// What the end sends: the full disconnect, unless it was sent before.
    pub open spec fn stop_effects(self) -> Seq<EffectView> {
        if self.closed {
            Seq::empty()
        } else {
            seq![
                EffectView::Forward(
                    RequestView::Disconnect(
                        DisconnectView { id: self.id, full_disconnect: true },
                    ),
                ),
            ]
        }
    }

    /// The session after any event.
    pub open spec fn after(self, event: EventView, now: u64) -> Session {
        match event {
            EventView::Started => self.with_state(ClientStateView::Connected),
            EventView::Heartbeat => self,
            EventView::Frame(frame) => self.after_frame(frame, now),
            EventView::Notice(notice) => self.after_notice(notice),
            EventView::Stopped => self.after_stop(),
        }
    }

    /// What any event leads to.
    pub open spec fn effects_of(self, event: EventView, now: u64) -> Seq<EffectView> {
        match event {
            EventView::Started => self.start_effects(),
            EventView::Heartbeat => self.heartbeat_effects(now),
            EventView::Frame(frame) => self.frame_effects(frame),
            EventView::Notice(notice) => self.notice_effects(notice),
            EventView::Stopped => self.stop_effects(),
        }
    }
}

/// The state machine of one connection. It decides; its host writes to the
/// wire, talks to the registry and keeps the time.
#[derive(Debug, PartialEq, Eq)]
pub struct ChatSession {
    /// The identifier that the connection was given.
    pub id: String,
    /// The handle under which the registry reaches this session.
    pub addr: ConnectionHandle,
    pub state: ClientState,
    /// When the client was last heard, in nanoseconds of the host's clock.
    pub last_heartbeat: u64,
    /// Whether the end of the session was reported to the registry.
    pub closed: bool,
}

impl View for ChatSession {
    type V = Session;

    open spec fn view(&self) -> Session {
        Session {
            id: self.id@,
            addr: self.addr,
            state: self.state@,
            last_heartbeat: self.last_heartbeat,
            closed: self.closed,
        }
    }
}

fn one(effect: Effect) -> (out: Vec<Effect>)
    ensures
        effects(out@) == seq![effect@],
{
    let mut out: Vec<Effect> = Vec::new();
    out.push(effect);
    assert(effects(out@) =~= seq![effect@]);
    out
}

fn none() -> (out: Vec<Effect>)
    ensures
        effects(out@) == Seq::<EffectView>::empty(),
{
    let out: Vec<Effect> = Vec::new();
    assert(effects(out@) =~= Seq::<EffectView>::empty());
    out
}

fn plain(text: &str) -> (out: Vec<Effect>)
    ensures
        effects(out@) == seq![EffectView::Send(FrameView::Plain(text@))],
{
    one(Effect::Send(Frame::Plain(String::from_str(text))))
}

impl ChatSession {
    /// The session of a connection that has just been accepted, at the
    /// time `now`.
    pub fn new(id: String, addr: ConnectionHandle, now: u64) -> (r: ChatSession)
        ensures
            r@ == Session::opened(id@, addr, now),
    {
        ChatSession { id, addr, state: ClientState::Init, last_heartbeat: now, closed: false }
    }

    /// Tells the client its identifier and orders the probes.
    pub fn started(&mut self) -> (out: Vec<Effect>)
        ensures
            final(self)@ == old(self)@.with_state(ClientStateView::Connected),
            effects(out@) == old(self)@.start_effects(),
    {
        let mut out: Vec<Effect> = Vec::new();
        out.push(Effect::Send(Frame::Plain(self.id.clone())));
        out.push(Effect::Schedule(HEARTBEAT_INTERVAL));
        self.state = ClientState::Connected;
        assert(effects(out@) =~= old(self)@.start_effects());
        out
    }

    /// Probes the client, and ends the session if the client has been
    /// silent for longer than `CLIENT_TIMEOUT`.
    pub fn heartbeat(&self, now: u64) -> (out: Vec<Effect>)
        ensures
            effects(out@) == self@.heartbeat_effects(now),
    {
        let mut out: Vec<Effect> = Vec::new();
        out.push(Effect::Send(Frame::Packet(ClientPacket::Heartbeat(String::from_str("Ping")))));
        if now >= self.last_heartbeat && now - self.last_heartbeat > CLIENT_TIMEOUT {
            out.push(Effect::Stop);
        }
        assert(effects(out@) =~= self@.heartbeat_effects(now));
        out
    }

    /// Reports the end of the session to the registry, once.
    pub fn stopped(&mut self) -> (out: Vec<Effect>)
        ensures
            final(self)@ == old(self)@.after_stop(),
            effects(out@) == old(self)@.stop_effects(),
    {
        if self.closed {
            none()
        } else {
            self.closed = true;
            one(
                Effect::Forward(
                    Request::Disconnect(Disconnect { id: self.id.clone(), full_disconnect: true }),
                ),
            )
        }
    }

    /// Passes a chat line of the room on to the client.
    pub fn handle_text(&self, msg: Text) -> (out: Vec<Effect>)
        ensures
            effects(out@) == self@.notice_effects(NoticeView::Text(msg@)),
    {
        one(Effect::Send(Frame::Chat(msg)))
    }

    /// Takes over the admission state that the registry decided, and tells
    /// the client.
    pub fn handle_state(&mut self, msg: ClientState) -> (out: Vec<Effect>)
        ensures
            final(self)@ == old(self)@.with_state(msg@),
            effects(out@) == old(self)@.notice_effects(NoticeView::State(msg@)),
    {
        let out = one(Effect::Send(Frame::State(msg.clone())));
        self.state = msg;
        out
    }

    /// Asks the client to vouch for a newcomer, if the session is admitted
    /// to a room itself; else the request is dropped.
    pub fn handle_validation_request(&self, msg: ValidationRequest) -> (out: Vec<Effect>)
        ensures
            effects(out@) == self@.notice_effects(NoticeView::Validation(msg@)),
    {
        match &self.state {
            ClientState::Validated(_) => one(
                Effect::Send(
                    Frame::Packet(
                        ClientPacket::ValidationRequest {
                            room_id: msg.room_id,
                            id: msg.id,
                            validation: msg.validation,
                            accept: false,
                        },
                    ),
                ),
            ),
            _ => none(),
        }
    }

    /// Handles what the registry sends.
    pub fn handle_notice(&mut self, notice: Notice) -> (out: Vec<Effect>)
        ensures
            final(self)@ == old(self)@.after_notice(notice@),
            effects(out@) == old(self)@.notice_effects(notice@),
    {
        match notice {
            Notice::State(msg) => self.handle_state(msg),
            Notice::Validation(msg) => self.handle_validation_request(msg),
            Notice::Text(msg) => self.handle_text(msg),
        }
    }

    /// Decides what a packet of the client leads to.
    pub fn handle_packet(&self, packet: ClientPacket) -> (out: Vec<Effect>)
        ensures
            effects(out@) == self@.packet_effect(packet@),
    {
        match packet {
            ClientPacket::Register { room_id, validation } => one(
                Effect::Forward(
                    Request::Register(
                        Register { id: self.id.clone(), room_id, validation, addr: self.addr },
                    ),
                ),
            ),
            ClientPacket::ValidationRequest { room_id, id, validation, accept } => {
                match &self.state {
                    ClientState::Validated(own_room) => {
                        if *own_room == room_id {
                            one(
                                Effect::Forward(
                                    Request::Validation(
                                        ValidationRequest { room_id, id, validation, accept },
                                    ),
                                ),
                            )
                        } else {
                            plain("Validation request cannot be given for another room.")
                        }
                    },
                    _ => plain(
                        "Validation requests can only be sent by already validated clients.",
                    ),
                }
            },
            ClientPacket::Text { message } => match &self.state {
                ClientState::Validated(own_room) => one(
                    Effect::Forward(
                        Request::Message(
                            Message { id: self.id.clone(), room_id: own_room.clone(), message },
                        ),
                    ),
                ),
                _ => plain("You must be validated into a room to sent a text message."),
            },
            ClientPacket::Heartbeat(_) => none(),
        }
    }

    /// Handles one frame of the client that arrived at the time `now`.
    pub fn handle_frame(&mut self, frame: Incoming, now: u64) -> (out: Vec<Effect>)
        ensures
            final(self)@ == old(self)@.after_frame(frame@, now),
            effects(out@) == old(self)@.frame_effects(frame@),
    {
        match frame {
            Incoming::Text(decoded) => {
                self.last_heartbeat = now;
                match decoded {
                    Some(packet) => self.handle_packet(packet),
                    None => plain("Invalid Packet Sent"),
                }
            },
            Incoming::Ping => plain("PONG!"),
            Incoming::Close => one(Effect::Stop),
            Incoming::Binary => none(),
            Incoming::Pong => none(),
            Incoming::Nop => none(),
        }
    }

    /// One step of the session: takes the event that happened at the time
    /// `now` and returns what the host has to do, in order.
    pub fn handle(&mut self, event: Event, now: u64) -> (out: Vec<Effect>)
        ensures
            final(self)@ == old(self)@.after(event@, now),
            effects(out@) == old(self)@.effects_of(event@, now),
    {
        match event {
            Event::Started => self.started(),
            Event::Heartbeat => self.heartbeat(now),
            Event::Frame(frame) => self.handle_frame(frame, now),
            Event::Notice(notice) => self.handle_notice(notice),
            Event::Stopped => self.stopped(),
        }
    }
}

} // verus!
