//! The registry of rooms: who is in which room, and who is waiting at the door.

use crate::chatsession::{
    ClientState, ClientStateView, ConnectionHandle, Text, TextView, ValidationRequest,
    ValidationRequestView,
};
use crate::announce::{
    join_announcement, join_text, leave_announcement, leave_text, server_id, server_name,
};
use crate::consistency::{lemma_empty_is_consistent, lemma_requests_keep_consistency};
use vstd::hash_map::StringHashMap;
use vstd::prelude::*;

verus! {

/// What the registry keeps about one connection.
#[derive(Debug, PartialEq, Eq)]
pub struct Client {
    /// The room that the connection asked for last.
    pub room_id: String,
    pub state: ClientState,
    pub client_addr: ConnectionHandle,
}

/// The mathematical value of a [`Client`].
pub struct ClientView {
    pub room_id: Seq<char>,
    pub state: ClientStateView,
    pub client_addr: ConnectionHandle,
}

impl View for Client {
    type V = ClientView;

    open spec fn view(&self) -> ClientView {
        ClientView { room_id: self.room_id@, state: self.state@, client_addr: self.client_addr }
    }
}

impl Clone for Client {
    fn clone(&self) -> (r: Self)
        ensures
            r == *self,
    {
        Client {
            room_id: self.room_id.clone(),
            state: self.state.clone(),
            client_addr: self.client_addr,
        }
    }
}

/// A connection asks to enter a room.
#[derive(Debug, PartialEq, Eq)]
pub struct Register {
    pub id: String,
    pub room_id: String,
    pub validation: String,
    /// Where the registry sends what it has to tell this connection.
    pub addr: ConnectionHandle,
}

/// The mathematical value of a [`Register`].
pub struct RegisterView {
    pub id: Seq<char>,
    pub room_id: Seq<char>,
    pub validation: Seq<char>,
    pub addr: ConnectionHandle,
}

impl View for Register {
    type V = RegisterView;

    open spec fn view(&self) -> RegisterView {
        RegisterView {
            id: self.id@,
            room_id: self.room_id@,
            validation: self.validation@,
            addr: self.addr,
        }
    }
}

/// A chat line on its way to a room.
#[derive(Debug, PartialEq, Eq)]
pub struct Message {
    pub id: String,
    pub room_id: String,
    pub message: String,
}

/// The mathematical value of a [`Message`].
pub struct MessageView {
    pub id: Seq<char>,
    pub room_id: Seq<char>,
    pub message: Seq<char>,
}

impl View for Message {
    type V = MessageView;

    open spec fn view(&self) -> MessageView {
        MessageView { id: self.id@, room_id: self.room_id@, message: self.message@ }
    }
}

/// A connection leaves its room, or the relay altogether.
#[derive(Debug, PartialEq, Eq)]
pub struct Disconnect {
    pub id: String,
    /// `true` forgets the connection; `false` only takes it out of its room.
    pub full_disconnect: bool,
}

/// The mathematical value of a [`Disconnect`].
pub struct DisconnectView {
    pub id: Seq<char>,
    pub full_disconnect: bool,
}

impl View for Disconnect {
    type V = DisconnectView;

    open spec fn view(&self) -> DisconnectView {
        DisconnectView { id: self.id@, full_disconnect: self.full_disconnect }
    }
}

/// Everything a session can ask of the registry.
#[derive(Debug, PartialEq, Eq)]
pub enum Request {
    Register(Register),
    Validation(ValidationRequest),
    Message(Message),
    Disconnect(Disconnect),
}

/// The mathematical value of a [`Request`].
pub enum RequestView {
    Register(RegisterView),
    Validation(ValidationRequestView),
    Message(MessageView),
    Disconnect(DisconnectView),
}

impl View for Request {
    type V = RequestView;

    open spec fn view(&self) -> RequestView {
        match self {
            Request::Register(m) => RequestView::Register(m@),
            Request::Validation(m) => RequestView::Validation(m@),
            Request::Message(m) => RequestView::Message(m@),
            Request::Disconnect(m) => RequestView::Disconnect(m@),
        }
    }
}

/// What the registry tells one session.
#[derive(Debug, PartialEq, Eq)]
pub enum Notice {
    /// The session's admission state from now on.
    State(ClientState),
    /// A newcomer for whom the session's client is asked to vouch.
    Validation(ValidationRequest),
    /// A chat line for the room the session is in.
    Text(Text),
}

/// The mathematical value of a [`Notice`].
pub enum NoticeView {
    State(ClientStateView),
    Validation(ValidationRequestView),
    Text(TextView),
}

impl Clone for Notice {
    fn clone(&self) -> (r: Self)
        ensures
            r == *self,
    {
        match self {
            Notice::State(m) => Notice::State(m.clone()),
            Notice::Validation(m) => Notice::Validation(m.clone()),
            Notice::Text(m) => Notice::Text(m.clone()),
        }
    }
}

impl View for Notice {
    type V = NoticeView;

    open spec fn view(&self) -> NoticeView {
        match self {
            Notice::State(m) => NoticeView::State(m@),
            Notice::Validation(m) => NoticeView::Validation(m@),
            Notice::Text(m) => NoticeView::Text(m@),
        }
    }
}

/// A notice together with the connection it is meant for.
#[derive(Debug, PartialEq, Eq)]
pub struct Delivery {
    pub to: ConnectionHandle,
    pub notice: Notice,
}

/// The mathematical value of a [`Delivery`].
pub struct DeliveryView {
    pub to: ConnectionHandle,
    pub notice: NoticeView,
}

impl View for Delivery {
    type V = DeliveryView;

    open spec fn view(&self) -> DeliveryView {
        DeliveryView { to: self.to, notice: self.notice@ }
    }
}

/// The values of a run of deliveries, in order.
pub open spec fn deliveries(run: Seq<Delivery>) -> Seq<DeliveryView> {
    run.map_values(|d: Delivery| d@)
}

/// The same notice for each of `members`, in their order.
pub open spec fn to_each(members: Seq<ConnectionHandle>, notice: NoticeView) -> Seq<DeliveryView> {
    members.map_values(|to: ConnectionHandle| DeliveryView { to, notice })
}

/// The test that keeps every connection but `handle`.
pub open spec fn other_than(handle: ConnectionHandle) -> spec_fn(ConnectionHandle) -> bool {
    |member: ConnectionHandle| member != handle
}

/// The occupants that remain when `handle` leaves, in their old order.
pub open spec fn left(members: Seq<ConnectionHandle>, handle: ConnectionHandle) -> Seq<
    ConnectionHandle,
> {
    members.filter(other_than(handle))
}

/// The occupants once `handle` is let in: it comes last, and a handle that
/// is in the room already is not added again.
pub open spec fn entered(members: Seq<ConnectionHandle>, handle: ConnectionHandle) -> Seq<
    ConnectionHandle,
> {
    if members.contains(handle) {
        members
    } else {
        members.push(handle)
    }
}

/// The registry as a mathematical value: the occupants of each room in the
/// order in which they entered, and the record of each connection.
pub struct Registry {
    pub rooms: Map<Seq<char>, Seq<ConnectionHandle>>,
    pub clients: Map<Seq<char>, ClientView>,
}

impl Registry {
    /// The registry that knows no room and no connection.
    pub open spec fn empty() -> Registry {
        Registry { rooms: Map::empty(), clients: Map::empty() }
    }

    /// The occupants of a room; a room that was never entered has none.
    pub open spec fn occupants(self, room_id: Seq<char>) -> Seq<ConnectionHandle> {
        if self.rooms.contains_key(room_id) {
            self.rooms[room_id]
        } else {
            Seq::empty()
        }
    }

    /// One copy of the chat line for each occupant of the room, in the
    /// order of entry.
    pub open spec fn broadcast(self, room_id: Seq<char>, id: Seq<char>, message: Seq<char>) -> Seq<
        DeliveryView,
    > {
        to_each(self.occupants(room_id), NoticeView::Text(TextView { id, message }))
    }

    /// One copy of the request to vouch for each occupant of the room.
    pub open spec fn ask_occupants(self, msg: RegisterView) -> Seq<DeliveryView> {
        to_each(
            self.occupants(msg.room_id),
            NoticeView::Validation(
                ValidationRequestView {
                    room_id: msg.room_id,
                    id: msg.id,
                    validation: msg.validation,
                    accept: false,
                },
            ),
        )
    }

    /// The registry after a disconnect. A known connection leaves the room
    /// of its record, if the registry has that room; its record goes only
    /// with a full disconnect.
    pub open spec fn after_disconnect(self, msg: DisconnectView) -> Registry {
        if self.clients.contains_key(msg.id) {
            let client = self.clients[msg.id];
            Registry {
                rooms: if self.rooms.contains_key(client.room_id) {
                    self.rooms.insert(
                        client.room_id,
                        left(self.rooms[client.room_id], client.client_addr),
                    )
                } else {
                    self.rooms
                },
                clients: if msg.full_disconnect {
                    self.clients.remove(msg.id)
                } else {
                    self.clients
                },
            }
        } else {
            self
        }
    }

    /// Whether a disconnect is announced: only an admitted connection is
    /// missed, and only a room that the registry has can be told.
    pub open spec fn departure_is_announced(self, id: Seq<char>) -> bool {
        &&& self.clients.contains_key(id)
        &&& self.rooms.contains_key(self.clients[id].room_id)
        &&& self.clients[id].state is Validated
    }

    /// What a disconnect sends: the departure, with the number of those who
    /// remain, to each of them.
    pub open spec fn disconnect_notices(self, msg: DisconnectView) -> Seq<DeliveryView> {
        if self.departure_is_announced(msg.id) {
            let room_id = self.clients[msg.id].room_id;
            let next = self.after_disconnect(msg);
            next.broadcast(
                room_id,
                server_name(),
                leave_text(msg.id, next.occupants(room_id).len()),
            )
        } else {
            Seq::empty()
        }
    }

    /// The registry once the connection of a registration has left the
    /// room it was in; its record stays.
    pub open spec fn cleared(self, msg: RegisterView) -> Registry {
        self.after_disconnect(DisconnectView { id: msg.id, full_disconnect: false })
    }

    /// Whether a registration is admitted at once: the room has no occupant
    /// when the connection has left its old room.
    pub open spec fn admits_at_once(self, msg: RegisterView) -> bool {
        self.cleared(msg).occupants(msg.room_id).len() == 0
    }

    /// The registry after a registration.
    pub open spec fn after_register(self, msg: RegisterView) -> Registry {
        let cleared = self.cleared(msg);
        if self.admits_at_once(msg) {
            Registry {
                rooms: cleared.rooms.insert(msg.room_id, seq![msg.addr]),
                clients: cleared.clients.insert(
                    msg.id,
                    ClientView {
                        room_id: msg.room_id,
                        state: ClientStateView::Validated(msg.room_id),
                        client_addr: msg.addr,
                    },
                ),
            }
        } else {
            Registry {
                rooms: cleared.rooms,
                clients: cleared.clients.insert(
                    msg.id,
                    ClientView {
                        room_id: msg.room_id,
                        state: ClientStateView::AwaitingValidation,
                        client_addr: msg.addr,
                    },
                ),
            }
        }
    }

    /// What a registration sends. First the departure from the old room.
    /// Then, for a room without occupants, the new state to the newcomer
    /// and the arrival to the room; for an occupied room, the request to
    /// vouch to each occupant and then the new state to the newcomer.
    pub open spec fn register_notices(self, msg: RegisterView) -> Seq<DeliveryView> {
        let departure = self.disconnect_notices(
            DisconnectView { id: msg.id, full_disconnect: false },
        );
        if self.admits_at_once(msg) {
            let next = self.after_register(msg);
            departure + seq![
                DeliveryView {
                    to: msg.addr,
                    notice: NoticeView::State(ClientStateView::Validated(msg.room_id)),
                },
            ] + next.broadcast(
                msg.room_id,
                server_name(),
                join_text(msg.id, next.occupants(msg.room_id).len()),
            )
        } else {
            departure + self.cleared(msg).ask_occupants(msg) + seq![
                DeliveryView {
                    to: msg.addr,
                    notice: NoticeView::State(ClientStateView::AwaitingValidation),
                },
            ]
        }
    }

    /// Whether an answer admits its newcomer: it accepts, the newcomer has a
    /// record, and the registry has the room.
    pub open spec fn admits(self, msg: ValidationRequestView) -> bool {
        &&& msg.accept
        &&& self.clients.contains_key(msg.id)
        &&& self.rooms.contains_key(msg.room_id)
    }

    /// The registry after an occupant's answer.
    pub open spec fn after_validation(self, msg: ValidationRequestView) -> Registry {
        if self.admits(msg) {
            let client = self.clients[msg.id];
            Registry {
                rooms: self.rooms.insert(
                    msg.room_id,
                    entered(self.rooms[msg.room_id], client.client_addr),
                ),
                clients: self.clients.insert(
                    msg.id,
                    ClientView {
                        room_id: client.room_id,
                        state: ClientStateView::Validated(msg.room_id),
                        client_addr: client.client_addr,
                    },
                ),
            }
        } else {
            self
        }
    }

    /// What an occupant's answer sends: nothing unless it admits; else the
    /// new state to the newcomer and the arrival to the room.
    pub open spec fn validation_notices(self, msg: ValidationRequestView) -> Seq<DeliveryView> {
        if self.admits(msg) {
            let next = self.after_validation(msg);
            seq![
                DeliveryView {
                    to: self.clients[msg.id].client_addr,
                    notice: NoticeView::State(ClientStateView::Validated(msg.room_id)),
                },
            ] + next.broadcast(
                msg.room_id,
                server_name(),
                join_text(msg.id, next.occupants(msg.room_id).len()),
            )
        } else {
            Seq::empty()
        }
    }

    /// The registry after any request.
    pub open spec fn after(self, request: RequestView) -> Registry {
        match request {
            RequestView::Register(msg) => self.after_register(msg),
            RequestView::Validation(msg) => self.after_validation(msg),
            RequestView::Message(_) => self,
            RequestView::Disconnect(msg) => self.after_disconnect(msg),
        }
    }

    /// What any request sends.
    pub open spec fn notices(self, request: RequestView) -> Seq<DeliveryView> {
        match request {
            RequestView::Register(msg) => self.register_notices(msg),
            RequestView::Validation(msg) => self.validation_notices(msg),
            RequestView::Message(msg) => self.broadcast(msg.room_id, msg.id, msg.message),
            RequestView::Disconnect(msg) => self.disconnect_notices(msg),
        }
    }
}

fn contains_handle(members: &Vec<ConnectionHandle>, handle: ConnectionHandle) -> (r: bool)
    ensures
        r == members@.contains(handle),
{
    let mut i: usize = 0;
    while i < members.len()
        invariant
            i <= members.len(),
            forall|j: int| 0 <= j < i ==> members@[j] != handle,
        decreases members.len() - i,
    {
        if members[i].key == handle.key {
            return true;
        }
        i += 1;
    }
    false
}

fn remove_handle(members: &Vec<ConnectionHandle>, handle: ConnectionHandle) -> (r: Vec<
    ConnectionHandle,
>)
    ensures
        r@ == left(members@, handle),
{
    let mut r: Vec<ConnectionHandle> = Vec::new();
    let mut i: usize = 0;
    proof {
        members@.take(0).lemma_filter_len(other_than(handle));
        assert(r@ =~= left(members@.take(0), handle));
    }
    while i < members.len()
        invariant
            i <= members.len(),
            r@ == left(members@.take(i as int), handle),
        decreases members.len() - i,
    {
        proof {
            members@.take(i as int).lemma_filter_push(members@[i as int], other_than(handle));
            assert(members@.take(i + 1) =~= members@.take(i as int).push(members@[i as int]));
        }
        if members[i].key != handle.key {
            r.push(members[i]);
        }
        i += 1;
    }
    assert(members@.take(i as int) =~= members@);
    r
}

fn insert_handle(members: &Vec<ConnectionHandle>, handle: ConnectionHandle) -> (r: Vec<
    ConnectionHandle,
>)
    ensures
        r@ == entered(members@, handle),
{
    let mut r: Vec<ConnectionHandle> = Vec::new();
    let mut i: usize = 0;
    while i < members.len()
        invariant
            i <= members.len(),
            r@ == members@.take(i as int),
        decreases members.len() - i,
    {
        r.push(members[i]);
        assert(members@.take(i + 1) =~= members@.take(i as int).push(members@[i as int]));
        i += 1;
    }
    assert(members@.take(i as int) =~= members@);
    if !contains_handle(members, handle) {
        r.push(handle);
    }
    r
}

/// Appends one copy of `notice` for each of `members` to `out`.
fn push_to_each(out: &mut Vec<Delivery>, members: &Vec<ConnectionHandle>, notice: &Notice)
    ensures
        deliveries(final(out)@) == deliveries(old(out)@) + to_each(members@, notice@),
{
    let ghost before = out@;
    let mut i: usize = 0;
    while i < members.len()
        invariant
            i <= members.len(),
            out@.len() == before.len() + i,
            forall|j: int| 0 <= j < before.len() ==> out@[j] == before[j],
            forall|j: int|
                0 <= j < i ==> (#[trigger] out@[before.len() + j])@ == (DeliveryView {
                    to: members@[j],
                    notice: notice@,
                }),
        decreases members.len() - i,
    {
        out.push(Delivery { to: members[i], notice: notice.clone() });
        i += 1;
    }
    assert(deliveries(out@) =~= deliveries(before) + to_each(members@, notice@)) by {
        assert forall|k: int| 0 <= k < out@.len() implies deliveries(out@)[k] == (deliveries(before)
            + to_each(members@, notice@))[k] by {
            if k >= before.len() {
                let j = k - before.len();
                assert(out@[before.len() + j]@ == (DeliveryView {
                    to: members@[j],
                    notice: notice@,
                }));
            }
        }
    }
}

/// The registry of rooms. It owns both tables and is their only writer;
/// each handler runs to its end and returns what is to be delivered.
pub struct ChatServer {
    rooms: StringHashMap<Vec<ConnectionHandle>>,
    clients: StringHashMap<Client>,
}

impl View for ChatServer {
    type V = Registry;

    closed spec fn view(&self) -> Registry {
        Registry {
            rooms: self.rooms@.map_values(|members: Vec<ConnectionHandle>| members@),
            clients: self.clients@.map_values(|client: Client| client@),
        }
    }
}

impl ChatServer {
    /// A registry without rooms and without connections.
    pub fn new() -> (r: ChatServer)
        ensures
            r@ == Registry::empty(),
            r@.consistent(),
    {
        proof {
            lemma_empty_is_consistent();
        }
        let r = ChatServer { rooms: StringHashMap::new(), clients: StringHashMap::new() };
        assert(r@.rooms =~= Map::empty());
        assert(r@.clients =~= Map::empty());
        r
    }

    /// The chat line `message` of `id`, once for each occupant of the room.
    /// It changes nothing and sends nothing where the room has no occupant.
    pub fn broadcast_message(&self, room_id: String, id: String, message: String) -> (out: Vec<
        Delivery,
    >)
        ensures
            deliveries(out@) == self@.broadcast(room_id@, id@, message@),
    {
        let mut out: Vec<Delivery> = Vec::new();
        self.push_broadcast(&mut out, &room_id, id, message);
        assert(deliveries(out@) =~= self@.broadcast(room_id@, id@, message@));
        out
    }

    fn push_broadcast(&self, out: &mut Vec<Delivery>, room_id: &String, id: String, message: String)
        ensures
            deliveries(final(out)@) == deliveries(old(out)@) + self@.broadcast(
                room_id@,
                id@,
                message@,
            ),
    {
        let notice = Notice::Text(Text { id, message });
        match self.rooms.get(room_id.as_str()) {
            None => {
                assert(deliveries(out@) =~= deliveries(out@) + to_each(Seq::empty(), notice@));
            },
            Some(members) => {
                push_to_each(out, members, &notice);
            },
        }
    }

    /// How many connections occupy the room; none where it is unknown.
    pub fn get_user_count(&self, room_id: &String) -> (count: usize)
        ensures
            count == self@.occupants(room_id@).len(),
    {
        match self.rooms.get(room_id.as_str()) {
            None => 0,
            Some(members) => members.len(),
        }
    }

    /// The occupants of the room in the order in which they entered.
    pub fn occupants(&self, room_id: &String) -> (members: Vec<ConnectionHandle>)
        ensures
            members@ == self@.occupants(room_id@),
    {
        let mut out: Vec<ConnectionHandle> = Vec::new();
        match self.rooms.get(room_id.as_str()) {
            None => {},
            Some(members) => {
                let mut i: usize = 0;
                while i < members.len()
                    invariant
                        i <= members.len(),
                        out@ == members@.take(i as int),
                    decreases members.len() - i,
                {
                    out.push(members[i]);
                    assert(members@.take(i + 1) =~= members@.take(i as int).push(
                        members@[i as int],
                    ));
                    i += 1;
                }
                assert(members@.take(i as int) =~= members@);
            },
        }
        out
    }

    /// The record that the registry keeps of the connection `id`, if any.
    pub fn client(&self, id: &String) -> (found: Option<Client>)
        ensures
            found is Some <==> self@.clients.contains_key(id@),
            found matches Some(client) ==> client@ == self@.clients[id@],
    {
        match self.clients.get(id.as_str()) {
            None => None,
            Some(client) => Some(client.clone()),
        }
    }

    /// Takes the connection out of the room of its record and, when the
    /// disconnect is full, forgets the connection. An admitted connection
    /// is announced to those who remain; an unknown one changes nothing.
    pub fn handle_disconnect(&mut self, msg: Disconnect) -> (out: Vec<Delivery>)
        ensures
            final(self)@ == old(self)@.after_disconnect(msg@),
            deliveries(out@) == old(self)@.disconnect_notices(msg@),
            old(self)@.consistent() && old(self)@.orderly(RequestView::Disconnect(msg@))
                ==> final(self)@.consistent(),
    {
        proof {
            if old(self)@.consistent() && old(self)@.orderly(RequestView::Disconnect(msg@)) {
                lemma_requests_keep_consistency(old(self)@, RequestView::Disconnect(msg@));
            }
        }
        let mut out: Vec<Delivery> = Vec::new();
        match self.client(&msg.id) {
            None => {},
            Some(client) => {
                let remaining = match self.rooms.get(client.room_id.as_str()) {
                    None => None,
                    Some(peers) => Some(remove_handle(peers, client.client_addr)),
                };
                match remaining {
                    None => {},
                    Some(peers) => {
                        let peer_count = peers.len();
                        self.rooms.insert(client.room_id.clone(), peers);
                        if let ClientState::Validated(_) = client.state {
                            let text = leave_announcement(&msg.id, peer_count);
                            self.push_broadcast(&mut out, &client.room_id, server_id(), text);
                        }
                    },
                }
            },
        }
        if msg.full_disconnect {
            self.clients.remove(msg.id.as_str());
        }
        proof {
            let next = old(self)@.after_disconnect(msg@);
            assert(self@.rooms =~= next.rooms);
            assert(self@.clients =~= next.clients);
            assert(deliveries(out@) =~= old(self)@.disconnect_notices(msg@));
        }
        out
    }

    /// Moves the connection out of the room it was in and into the room it
    /// asks for: at once where that room has no occupant, else as soon as
    /// an occupant vouches for it.
    pub fn handle_register(&mut self, msg: Register) -> (out: Vec<Delivery>)
        ensures
            final(self)@ == old(self)@.after_register(msg@),
            deliveries(out@) == old(self)@.register_notices(msg@),
            old(self)@.consistent() && old(self)@.orderly(RequestView::Register(msg@))
                ==> final(self)@.consistent(),
    {
        proof {
            if old(self)@.consistent() && old(self)@.orderly(RequestView::Register(msg@)) {
                lemma_requests_keep_consistency(old(self)@, RequestView::Register(msg@));
            }
        }
        let mut out = self.handle_disconnect(
            Disconnect { id: msg.id.clone(), full_disconnect: false },
        );
        let ghost cleared = self@;
        let ghost departure = deliveries(out@);
        if self.get_user_count(&msg.room_id) == 0 {
            let mut members: Vec<ConnectionHandle> = Vec::new();
            members.push(msg.addr);
            assert(members@ =~= seq![msg.addr]);
            self.rooms.insert(msg.room_id.clone(), members);
            self.clients.insert(
                msg.id.clone(),
                Client {
                    room_id: msg.room_id.clone(),
                    state: ClientState::Validated(msg.room_id.clone()),
                    client_addr: msg.addr,
                },
            );
            out.push(
                Delivery {
                    to: msg.addr,
                    notice: Notice::State(ClientState::Validated(msg.room_id.clone())),
                },
            );
            let ghost told = deliveries(out@);
            let text = join_announcement(&msg.id, self.get_user_count(&msg.room_id));
            self.push_broadcast(&mut out, &msg.room_id, server_id(), text);
            proof {
                let next = old(self)@.after_register(msg@);
                assert(self@.rooms =~= next.rooms);
                assert(self@.clients =~= next.clients);
                assert(told =~= departure + seq![
                    DeliveryView {
                        to: msg.addr,
                        notice: NoticeView::State(ClientStateView::Validated(msg.room_id@)),
                    },
                ]);
            }
        } else {
            let request = Notice::Validation(
                ValidationRequest {
                    room_id: msg.room_id.clone(),
                    id: msg.id.clone(),
                    validation: msg.validation.clone(),
                    accept: false,
                },
            );
            match self.rooms.get(msg.room_id.as_str()) {
                None => {},
                Some(members) => {
                    push_to_each(&mut out, members, &request);
                },
            }
            let ghost asked = deliveries(out@);
            self.clients.insert(
                msg.id.clone(),
                Client {
                    room_id: msg.room_id.clone(),
                    state: ClientState::AwaitingValidation,
                    client_addr: msg.addr,
                },
            );
            out.push(
                Delivery { to: msg.addr, notice: Notice::State(ClientState::AwaitingValidation) },
            );
            proof {
                let next = old(self)@.after_register(msg@);
                assert(self@.rooms =~= next.rooms);
                assert(self@.clients =~= next.clients);
                assert(asked == departure + cleared.ask_occupants(msg@));
                assert(deliveries(out@) =~= asked + seq![
                    DeliveryView {
                        to: msg.addr,
                        notice: NoticeView::State(ClientStateView::AwaitingValidation),
                    },
                ]);
            }
        }
        out
    }

    /// Admits the newcomer that an occupant accepts. An answer that does
    /// not accept, names an unknown connection or an unknown room changes
    /// nothing and sends nothing.
    pub fn handle_validation_request(&mut self, msg: ValidationRequest) -> (out: Vec<Delivery>)
        ensures
            final(self)@ == old(self)@.after_validation(msg@),
            deliveries(out@) == old(self)@.validation_notices(msg@),
            !msg.accept ==> final(self)@ == old(self)@ && out@.len() == 0,
            old(self)@.consistent() && old(self)@.orderly(RequestView::Validation(msg@))
                ==> final(self)@.consistent(),
    {
        proof {
            if old(self)@.consistent() && old(self)@.orderly(RequestView::Validation(msg@)) {
                lemma_requests_keep_consistency(old(self)@, RequestView::Validation(msg@));
            }
        }
        let mut out: Vec<Delivery> = Vec::new();
        if msg.accept {
            match self.client(&msg.id) {
                None => {},
                Some(client) => {
                    let grown = match self.rooms.get(msg.room_id.as_str()) {
                        None => None,
                        Some(members) => Some(insert_handle(members, client.client_addr)),
                    };
                    match grown {
                        None => {},
                        Some(members) => {
                            let to = client.client_addr;
                            self.clients.insert(
                                msg.id.clone(),
                                Client {
                                    room_id: client.room_id,
                                    state: ClientState::Validated(msg.room_id.clone()),
                                    client_addr: to,
                                },
                            );
                            out.push(
                                Delivery {
                                    to,
                                    notice: Notice::State(
                                        ClientState::Validated(msg.room_id.clone()),
                                    ),
                                },
                            );
                            let ghost told = deliveries(out@);
                            self.rooms.insert(msg.room_id.clone(), members);
                            let text = join_announcement(
                                &msg.id,
                                self.get_user_count(&msg.room_id),
                            );
                            self.push_broadcast(&mut out, &msg.room_id, server_id(), text);
                            proof {
                                assert(told =~= seq![
                                    DeliveryView {
                                        to,
                                        notice: NoticeView::State(
                                            ClientStateView::Validated(msg.room_id@),
                                        ),
                                    },
                                ]);
                            }
                        },
                    }
                },
            }
        }
        proof {
            let next = old(self)@.after_validation(msg@);
            assert(self@.rooms =~= next.rooms);
            assert(self@.clients =~= next.clients);
            assert(deliveries(out@) =~= old(self)@.validation_notices(msg@));
        }
        out
    }

    /// Hands the chat line to every occupant of its room.
    pub fn handle_message(&self, msg: Message) -> (out: Vec<Delivery>)
        ensures
            deliveries(out@) == self@.broadcast(msg.room_id@, msg.id@, msg.message@),
    {
        self.broadcast_message(msg.room_id, msg.id, msg.message)
    }

    /// One step of the registry: applies the request and returns what it
    /// sends, in the order in which it is sent.
    pub fn handle(&mut self, request: Request) -> (out: Vec<Delivery>)
        ensures
            final(self)@ == old(self)@.after(request@),
            deliveries(out@) == old(self)@.notices(request@),
            old(self)@.consistent() && old(self)@.orderly(request@) ==> final(self)@.consistent(),
    {
        proof {
            if old(self)@.consistent() && old(self)@.orderly(request@) {
                lemma_requests_keep_consistency(old(self)@, request@);
            }
        }
        match request {
            Request::Register(msg) => self.handle_register(msg),
            Request::Validation(msg) => self.handle_validation_request(msg),
            Request::Message(msg) => self.handle_message(msg),
            Request::Disconnect(msg) => self.handle_disconnect(msg),
        }
    }
}

} // verus!
