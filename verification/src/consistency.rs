//! What holds of the registry whatever it is asked: its two tables agree.

use crate::announce::{leave_text, server_name};
use crate::chatserver::{
    entered, left, to_each, DeliveryView, DisconnectView, NoticeView, Registry, RegisterView,
    RequestView,
};
use crate::chatsession::{ClientStateView, ConnectionHandle, TextView, ValidationRequestView};
use vstd::prelude::*;

verus! {

impl Registry {
    /// Whether the record of `id` holds `handle` and says that it is
    /// admitted to `room_id`.
    pub open spec fn records(
        self,
        id: Seq<char>,
        handle: ConnectionHandle,
        room_id: Seq<char>,
    ) -> bool {
        &&& self.clients.contains_key(id)
        &&& self.clients[id].client_addr == handle
        &&& self.clients[id].state == ClientStateView::Validated(room_id)
    }

    /// Whether the connection that owns `handle` is admitted to `room_id`.
    pub open spec fn admitted(self, handle: ConnectionHandle, room_id: Seq<char>) -> bool {
        exists|id: Seq<char>| self.records(id, handle, room_id)
    }

    /// The two tables agree: a handle is among the occupants of a room if
    /// and only if its owner's record says that it is admitted there.
    pub open spec fn rooms_match_records(self) -> bool {
        forall|room_id: Seq<char>, handle: ConnectionHandle|
            #![trigger self.occupants(room_id).contains(handle)]
            #![trigger self.admitted(handle, room_id)]
            self.occupants(room_id).contains(handle) <==> self.admitted(handle, room_id)
    }

    /// No room lists a handle twice.
    pub open spec fn rooms_are_sets(self) -> bool {
        forall|room_id: Seq<char>| #[trigger] self.occupants(room_id).no_duplicates()
    }

    /// No two records hold the same handle.
    pub open spec fn handles_have_one_owner(self) -> bool {
        forall|a: Seq<char>, b: Seq<char>|
            #![trigger self.clients[a], self.clients[b]]
            self.clients.contains_key(a) && self.clients.contains_key(b)
                && self.clients[a].client_addr == self.clients[b].client_addr ==> a == b
    }

    /// A record that says "admitted" means the room that it names.
    pub open spec fn records_name_their_room(self) -> bool {
        forall|id: Seq<char>|
            #![trigger self.clients[id]]
            self.clients.contains_key(id) && self.clients[id].state is Validated
                ==> self.clients[id].state == ClientStateView::Validated(self.clients[id].room_id)
    }

    /// The invariant of the registry.
    pub open spec fn consistent(self) -> bool {
        &&& self.rooms_match_records()
        &&& self.rooms_are_sets()
        &&& self.handles_have_one_owner()
        &&& self.records_name_their_room()
    }

    /// Whether no record but that of `id` holds `handle`.
    pub open spec fn handle_is_free_for(self, id: Seq<char>, handle: ConnectionHandle) -> bool {
        forall|other: Seq<char>|
            #![trigger self.clients[other]]
            self.clients.contains_key(other) && self.clients[other].client_addr == handle
                ==> other == id
    }

    /// The requests that sessions send in the course of the protocol: a
    /// registration brings a handle that no other connection holds, an
    /// accepting answer names the room that its newcomer asked for, and a
    /// disconnect that keeps the record is for a connection that is not
    /// admitted anywhere.
    pub open spec fn orderly(self, request: RequestView) -> bool {
        match request {
            RequestView::Register(msg) => self.handle_is_free_for(msg.id, msg.addr),
            RequestView::Validation(msg) => self.admits(msg) ==> self.clients[msg.id].room_id
                == msg.room_id,
            RequestView::Message(_) => true,
            RequestView::Disconnect(msg) => msg.full_disconnect || !(self.clients.contains_key(
                msg.id,
            ) && self.clients[msg.id].state is Validated),
        }
    }
}

/// Leaving takes out the one who leaves and nobody else, and a room
/// without repetitions stays so and shrinks by one if the leaver was in it.
pub proof fn lemma_left(members: Seq<ConnectionHandle>, handle: ConnectionHandle)
    ensures
        forall|m: ConnectionHandle| #[trigger]
            left(members, handle).contains(m) <==> members.contains(m) && m != handle,
        members.no_duplicates() ==> left(members, handle).no_duplicates(),
        !members.contains(handle) ==> left(members, handle) == members,
        members.no_duplicates() && members.contains(handle) ==> left(members, handle).len()
            == members.len() - 1,
    decreases members.len(),
{
    reveal(Seq::filter);
    if members.len() > 0 {
        let front = members.drop_last();
        let last = members.last();
        lemma_left(front, handle);
        assert(members =~= front.push(last));
        assert forall|m: ConnectionHandle| #[trigger]
            left(members, handle).contains(m) <==> members.contains(m) && m != handle by {
            assert(members.contains(m) <==> front.contains(m) || m == last) by {
                if front.contains(m) {
                    let i = choose|i: int| 0 <= i < front.len() && front[i] == m;
                    assert(members[i] == m);
                }
                if m == last {
                    assert(members[members.len() - 1] == m);
                }
            }
            if last != handle {
                assert(left(members, handle) == left(front, handle).push(last));
                assert(left(front, handle).push(last).contains(m) <==> left(front, handle).contains(
                    m,
                ) || m == last) by {
                    let pushed = left(front, handle).push(last);
                    if left(front, handle).contains(m) {
                        let i = choose|i: int|
                            0 <= i < left(front, handle).len() && left(front, handle)[i] == m;
                        assert(pushed[i] == m);
                    }
                    if m == last {
                        assert(pushed[pushed.len() - 1] == m);
                    }
                }
            } else {
                assert(left(members, handle) == left(front, handle));
            }
        }
        if members.no_duplicates() {
            assert(front.no_duplicates());
            assert(!front.contains(last)) by {
                if front.contains(last) {
                    let i = choose|i: int| 0 <= i < front.len() && front[i] == last;
                    assert(members[i] == members[members.len() - 1]);
                }
            }
            if last != handle {
                let kept = left(front, handle);
                assert(!kept.contains(last));
                assert(kept.push(last).no_duplicates());
            }
        }
        if !members.contains(handle) {
            assert(!front.contains(handle)) by {
                if front.contains(handle) {
                    let i = choose|i: int| 0 <= i < front.len() && front[i] == handle;
                    assert(members[i] == handle);
                }
            }
            assert(last != handle) by {
                assert(members[members.len() - 1] == last);
            }
        }
        if members.no_duplicates() && members.contains(handle) {
            if last == handle {
                assert(!front.contains(handle));
            } else {
                assert(front.contains(handle)) by {
                    let i = choose|i: int| 0 <= i < members.len() && members[i] == handle;
                    assert(front[i] == handle);
                }
            }
        }
    } else {
        assert(left(members, handle) =~= members);
    }
}

/// Entering adds the one who enters and nobody else, and a room without
/// repetitions stays so.
pub proof fn lemma_entered(members: Seq<ConnectionHandle>, handle: ConnectionHandle)
    ensures
        forall|m: ConnectionHandle| #[trigger]
            entered(members, handle).contains(m) <==> members.contains(m) || m == handle,
        members.no_duplicates() ==> entered(members, handle).no_duplicates(),
        entered(entered(members, handle), handle) == entered(members, handle),
{
    let grown = members.push(handle);
    assert forall|m: ConnectionHandle| #[trigger]
        grown.contains(m) <==> members.contains(m) || m == handle by {
        if members.contains(m) {
            let i = choose|i: int| 0 <= i < members.len() && members[i] == m;
            assert(grown[i] == m);
        }
        if m == handle {
            assert(grown[grown.len() - 1] == m);
        }
    }
}

/// A disconnect touches one room only: the room of the record loses the
/// handle of the record.
pub proof fn lemma_occupants_after_disconnect(s: Registry, msg: DisconnectView)
    ensures
        forall|room_id: Seq<char>| #[trigger]
            s.after_disconnect(msg).occupants(room_id) == if s.clients.contains_key(msg.id)
                && room_id == s.clients[msg.id].room_id {
                left(s.occupants(room_id), s.clients[msg.id].client_addr)
            } else {
                s.occupants(room_id)
            },
{
    if s.clients.contains_key(msg.id) {
        let client = s.clients[msg.id];
        lemma_left(Seq::empty(), client.client_addr);
    }
}

/// The registry without rooms and without connections is consistent.
pub proof fn lemma_empty_is_consistent()
    ensures
        Registry::empty().consistent(),
{
    let s = Registry::empty();
    assert forall|room_id: Seq<char>, handle: ConnectionHandle|
        s.occupants(room_id).contains(handle) <==> s.admitted(handle, room_id) by {
        assert(s.occupants(room_id) =~= Seq::empty());
    }
}

/// An orderly disconnect keeps the registry consistent.
pub proof fn lemma_disconnect_keeps_consistency(s: Registry, msg: DisconnectView)
    requires
        s.consistent(),
        s.orderly(RequestView::Disconnect(msg)),
    ensures
        s.after_disconnect(msg).consistent(),
{
    let n = s.after_disconnect(msg);
    if s.clients.contains_key(msg.id) {
        let k = s.clients[msg.id];
        lemma_occupants_after_disconnect(s, msg);
        assert forall|room_id: Seq<char>| #[trigger] n.occupants(room_id).no_duplicates() by {
            lemma_left(s.occupants(room_id), k.client_addr);
            assert(s.occupants(room_id).no_duplicates());
        }
        assert forall|room_id: Seq<char>, handle: ConnectionHandle|
            n.occupants(room_id).contains(handle) <==> n.admitted(handle, room_id) by {
            lemma_left(s.occupants(room_id), k.client_addr);
            if n.occupants(room_id).contains(handle) {
                assert(s.occupants(room_id).contains(handle));
                assert(s.admitted(handle, room_id));
                let w = choose|w: Seq<char>| s.records(w, handle, room_id);
                assert(w != msg.id);
                assert(n.records(w, handle, room_id));
            }
            if n.admitted(handle, room_id) {
                let w = choose|w: Seq<char>| n.records(w, handle, room_id);
                assert(s.records(w, handle, room_id));
                assert(s.admitted(handle, room_id));
                assert(s.occupants(room_id).contains(handle));
                if room_id == k.room_id && handle == k.client_addr {
                    assert(s.clients[w].client_addr == s.clients[msg.id].client_addr);
                    assert(w == msg.id);
                }
            }
        }
        assert(n.handles_have_one_owner()) by {
            assert forall|a: Seq<char>, b: Seq<char>|
                n.clients.contains_key(a) && n.clients.contains_key(b) && n.clients[a].client_addr
                    == n.clients[b].client_addr implies a == b by {
                assert(s.clients[a].client_addr == s.clients[b].client_addr);
            }
        }
        assert(n.records_name_their_room()) by {
            assert forall|id: Seq<char>|
                n.clients.contains_key(id) && n.clients[id].state is Validated implies n.clients[id].state
                    == ClientStateView::Validated(n.clients[id].room_id) by {
                assert(n.clients[id] == s.clients[id]);
            }
        }
    }
}

/// A registration that brings a handle of its own keeps the registry
/// consistent.
pub proof fn lemma_register_keeps_consistency(s: Registry, msg: RegisterView)
    requires
        s.consistent(),
        s.orderly(RequestView::Register(msg)),
    ensures
        s.after_register(msg).consistent(),
{
    let leave = DisconnectView { id: msg.id, full_disconnect: false };
    let c = s.cleared(msg);
    let n = s.after_register(msg);
    lemma_occupants_after_disconnect(s, leave);
    assert(c.clients == s.clients);
    assert forall|room_id: Seq<char>| #[trigger] c.occupants(room_id).no_duplicates() by {
        assert(s.occupants(room_id).no_duplicates());
        if s.clients.contains_key(msg.id) {
            lemma_left(s.occupants(room_id), s.clients[msg.id].client_addr);
        }
    }
    assert forall|room_id: Seq<char>| #[trigger]
        n.occupants(room_id) == if s.admits_at_once(msg) && room_id == msg.room_id {
            seq![msg.addr]
        } else {
            c.occupants(room_id)
        } by {}
    assert(n.rooms_are_sets()) by {
        assert forall|room_id: Seq<char>| #[trigger] n.occupants(room_id).no_duplicates() by {
            assert(c.occupants(room_id).no_duplicates());
        }
    }
    assert(n.handles_have_one_owner()) by {
        assert forall|a: Seq<char>, b: Seq<char>|
            n.clients.contains_key(a) && n.clients.contains_key(b) && n.clients[a].client_addr
                == n.clients[b].client_addr implies a == b by {
            if a != msg.id && b != msg.id {
                assert(s.clients[a].client_addr == s.clients[b].client_addr);
            } else if a != msg.id {
                assert(s.clients[a].client_addr == msg.addr);
            } else if b != msg.id {
                assert(s.clients[b].client_addr == msg.addr);
            }
        }
    }
    assert(n.records_name_their_room()) by {
        assert forall|id: Seq<char>|
            n.clients.contains_key(id) && n.clients[id].state is Validated implies n.clients[id].state
                == ClientStateView::Validated(n.clients[id].room_id) by {
            if id != msg.id {
                assert(n.clients[id] == s.clients[id]);
            }
        }
    }
    assert forall|room_id: Seq<char>, handle: ConnectionHandle|
        n.occupants(room_id).contains(handle) <==> n.admitted(handle, room_id) by {
        if s.clients.contains_key(msg.id) {
            lemma_left(s.occupants(room_id), s.clients[msg.id].client_addr);
        }
        if s.admits_at_once(msg) && room_id == msg.room_id {
            assert(seq![msg.addr][0] == msg.addr);
            if n.occupants(room_id).contains(handle) {
                assert(handle == msg.addr);
                assert(n.records(msg.id, handle, room_id));
            }
            if n.admitted(handle, room_id) {
                let w = choose|w: Seq<char>| n.records(w, handle, room_id);
                if w != msg.id {
                    assert(s.records(w, handle, room_id));
                    assert(s.admitted(handle, room_id));
                    assert(s.occupants(room_id).contains(handle));
                    assert(c.occupants(room_id) =~= Seq::empty());
                    assert(!c.occupants(room_id).contains(handle));
                    assert(s.clients[w].client_addr == s.clients[msg.id].client_addr);
                    assert(false);
                }
            }
        } else {
            assert(n.occupants(room_id) == c.occupants(room_id));
            if n.occupants(room_id).contains(handle) {
                assert(s.occupants(room_id).contains(handle));
                assert(s.admitted(handle, room_id));
                let w = choose|w: Seq<char>| s.records(w, handle, room_id);
                assert(w != msg.id);
                assert(n.records(w, handle, room_id));
            }
            if n.admitted(handle, room_id) {
                let w = choose|w: Seq<char>| n.records(w, handle, room_id);
                assert(w != msg.id);
                assert(s.records(w, handle, room_id));
                assert(s.admitted(handle, room_id));
                assert(s.occupants(room_id).contains(handle));
                if s.clients.contains_key(msg.id) && handle == s.clients[msg.id].client_addr {
                    assert(s.clients[w].client_addr == s.clients[msg.id].client_addr);
                    assert(false);
                }
            }
        }
    }
}

/// An answer that names the room its newcomer asked for keeps the registry
/// consistent.
pub proof fn lemma_validation_keeps_consistency(s: Registry, msg: ValidationRequestView)
    requires
        s.consistent(),
        s.orderly(RequestView::Validation(msg)),
    ensures
        s.after_validation(msg).consistent(),
{
    let n = s.after_validation(msg);
    if s.admits(msg) {
        let k = s.clients[msg.id];
        assert forall|room_id: Seq<char>| #[trigger]
            n.occupants(room_id) == if room_id == msg.room_id {
                entered(s.occupants(room_id), k.client_addr)
            } else {
                s.occupants(room_id)
            } by {}
        assert(n.rooms_are_sets()) by {
            assert forall|room_id: Seq<char>| #[trigger] n.occupants(room_id).no_duplicates() by {
                lemma_entered(s.occupants(room_id), k.client_addr);
                assert(s.occupants(room_id).no_duplicates());
            }
        }
        assert(n.handles_have_one_owner()) by {
            assert forall|a: Seq<char>, b: Seq<char>|
                n.clients.contains_key(a) && n.clients.contains_key(b) && n.clients[a].client_addr
                    == n.clients[b].client_addr implies a == b by {
                assert(s.clients[a].client_addr == s.clients[b].client_addr);
            }
        }
        assert(n.records_name_their_room()) by {
            assert forall|id: Seq<char>|
                n.clients.contains_key(id) && n.clients[id].state is Validated implies n.clients[id].state
                    == ClientStateView::Validated(n.clients[id].room_id) by {
                if id != msg.id {
                    assert(n.clients[id] == s.clients[id]);
                }
            }
        }
        assert forall|room_id: Seq<char>, handle: ConnectionHandle|
            n.occupants(room_id).contains(handle) <==> n.admitted(handle, room_id) by {
            lemma_entered(s.occupants(room_id), k.client_addr);
            if n.occupants(room_id).contains(handle) {
                if room_id == msg.room_id && handle == k.client_addr {
                    assert(n.records(msg.id, handle, room_id));
                } else {
                    assert(s.occupants(room_id).contains(handle));
                    assert(s.admitted(handle, room_id));
                    let w = choose|w: Seq<char>| s.records(w, handle, room_id);
                    assert(w != msg.id);
                    assert(n.records(w, handle, room_id));
                }
            }
            if n.admitted(handle, room_id) {
                let w = choose|w: Seq<char>| n.records(w, handle, room_id);
                if w != msg.id {
                    assert(s.records(w, handle, room_id));
                    assert(s.admitted(handle, room_id));
                    assert(s.occupants(room_id).contains(handle));
                }
            }
        }
    }
}

/// The invariant: every orderly request leaves a consistent registry
/// consistent.
pub proof fn lemma_requests_keep_consistency(s: Registry, request: RequestView)
    requires
        s.consistent(),
        s.orderly(request),
    ensures
        s.after(request).consistent(),
{
    match request {
        RequestView::Register(msg) => lemma_register_keeps_consistency(s, msg),
        RequestView::Validation(msg) => lemma_validation_keeps_consistency(s, msg),
        RequestView::Message(_) => {},
        RequestView::Disconnect(msg) => lemma_disconnect_keeps_consistency(s, msg),
    }
}

/// No other request keeps it: a request that is not orderly leaves a
/// consistent registry inconsistent.
pub proof fn lemma_other_requests_break_consistency(s: Registry, request: RequestView)
    requires
        s.consistent(),
        !s.orderly(request),
    ensures
        !s.after(request).consistent(),
{
    let n = s.after(request);
    match request {
        RequestView::Register(msg) => {
            let other = choose|other: Seq<char>|
                s.clients.contains_key(other) && (#[trigger] s.clients[other]).client_addr
                    == msg.addr && other != msg.id;
            assert(s.cleared(msg).clients == s.clients);
            assert(n.clients.contains_key(other) && n.clients.contains_key(msg.id));
            assert(n.clients[other].client_addr == n.clients[msg.id].client_addr);
            assert(!n.handles_have_one_owner());
        },
        RequestView::Validation(msg) => {
            assert(n.clients.contains_key(msg.id));
            assert(n.clients[msg.id].state is Validated);
            assert(!n.records_name_their_room());
        },
        RequestView::Message(_) => {},
        RequestView::Disconnect(msg) => {
            let k = s.clients[msg.id];
            assert(s.records(msg.id, k.client_addr, k.room_id));
            assert(n.records(msg.id, k.client_addr, k.room_id));
            assert(n.admitted(k.client_addr, k.room_id));
            lemma_occupants_after_disconnect(s, msg);
            lemma_left(s.occupants(k.room_id), k.client_addr);
            assert(!n.occupants(k.room_id).contains(k.client_addr));
            assert(!n.rooms_match_records());
        },
    }
}

/// The departure of `id` as those who remain are told of it.
pub open spec fn departure(id: Seq<char>, remaining: Seq<ConnectionHandle>) -> Seq<DeliveryView> {
    to_each(
        remaining,
        NoticeView::Text(
            TextView { id: server_name(), message: leave_text(id, remaining.len()) },
        ),
    )
}

/// What a disconnect does. A full one removes the record, another keeps
/// every record. The departure of an admitted connection leaves its room
/// one smaller and is announced, with the number of those who remain, to
/// each of them; no other departure is announced.
pub proof fn lemma_disconnect_semantics(s: Registry, msg: DisconnectView)
    requires
        s.consistent(),
    ensures
        msg.full_disconnect ==> !s.after_disconnect(msg).clients.contains_key(msg.id),
        !msg.full_disconnect ==> s.after_disconnect(msg).clients == s.clients,
        s.clients.contains_key(msg.id) && s.clients[msg.id].state is Validated ==> ({
            let room_id = s.clients[msg.id].room_id;
            let remaining = left(s.occupants(room_id), s.clients[msg.id].client_addr);
            &&& s.occupants(room_id).contains(s.clients[msg.id].client_addr)
            &&& !remaining.contains(s.clients[msg.id].client_addr)
            &&& remaining.len() == s.occupants(room_id).len() - 1
            &&& s.after_disconnect(msg).occupants(room_id) == remaining
            &&& s.disconnect_notices(msg) == departure(msg.id, remaining)
        }),
        !(s.clients.contains_key(msg.id) && s.clients[msg.id].state is Validated)
            ==> s.disconnect_notices(msg) == Seq::<DeliveryView>::empty(),
{
    if s.clients.contains_key(msg.id) && s.clients[msg.id].state is Validated {
        let k = s.clients[msg.id];
        assert(s.records(msg.id, k.client_addr, k.room_id));
        assert(s.admitted(k.client_addr, k.room_id));
        assert(s.occupants(k.room_id).contains(k.client_addr));
        assert(s.occupants(k.room_id).no_duplicates());
        lemma_left(s.occupants(k.room_id), k.client_addr);
        lemma_occupants_after_disconnect(s, msg);
    }
}

/// A connection that registers while it is admitted to a room leaves that
/// room first: those who remain there are told before anything is sent
/// about the new room, and the new room is judged without the leaver.
pub proof fn lemma_room_switch(s: Registry, msg: RegisterView)
    requires
        s.consistent(),
        s.clients.contains_key(msg.id),
        s.clients[msg.id].state is Validated,
    ensures
        ({
            let old_room = s.clients[msg.id].room_id;
            let remaining = left(s.occupants(old_room), s.clients[msg.id].client_addr);
            let told = departure(msg.id, remaining);
            &&& s.occupants(old_room).contains(s.clients[msg.id].client_addr)
            &&& !remaining.contains(s.clients[msg.id].client_addr)
            &&& s.cleared(msg).occupants(old_room) == remaining
            &&& told.len() <= s.register_notices(msg).len()
            &&& s.register_notices(msg).take(told.len() as int) == told
            &&& old_room != msg.room_id ==> s.after_register(msg).occupants(old_room) == remaining
        }),
{
    let leave = DisconnectView { id: msg.id, full_disconnect: false };
    lemma_disconnect_semantics(s, leave);
    let old_room = s.clients[msg.id].room_id;
    let remaining = left(s.occupants(old_room), s.clients[msg.id].client_addr);
    let told = departure(msg.id, remaining);
    assert(s.disconnect_notices(leave) == told);
    assert(s.register_notices(msg).take(told.len() as int) =~= told);
}

/// An answer that does not accept changes nothing and sends nothing.
pub proof fn lemma_reject_changes_nothing(s: Registry, msg: ValidationRequestView)
    requires
        !msg.accept,
    ensures
        s.after_validation(msg) == s,
        s.validation_notices(msg) == Seq::<DeliveryView>::empty(),
{
}

/// A second accepting answer for the same newcomer and room changes
/// nothing: the newcomer is not listed twice, and the room is told the
/// same number of occupants as after the first answer.
pub proof fn lemma_second_accept_changes_nothing(
    s: Registry,
    first: ValidationRequestView,
    second: ValidationRequestView,
)
    requires
        first.accept,
        second.accept,
        first.id == second.id,
        first.room_id == second.room_id,
    ensures
        s.after_validation(first).after_validation(second) == s.after_validation(first),
        s.after_validation(first).validation_notices(second) == s.validation_notices(first),
        s.rooms_are_sets() ==> s.after_validation(first).occupants(
            first.room_id,
        ).no_duplicates(),
{
    let once = s.after_validation(first);
    let twice = once.after_validation(second);
    if s.admits(first) {
        let k = s.clients[first.id];
        lemma_entered(s.rooms[first.room_id], k.client_addr);
        assert(once.admits(second));
        assert(twice.rooms =~= once.rooms);
        assert(twice.clients =~= once.clients);
        if s.rooms_are_sets() {
            assert(s.occupants(first.room_id).no_duplicates());
        }
    } else {
        if s.rooms_are_sets() {
            assert(s.occupants(first.room_id).no_duplicates());
        }
    }
}

/// A registration for a room without occupants admits at once and asks
/// nobody to vouch.
pub proof fn lemma_join_empty_room(s: Registry, msg: RegisterView)
    requires
        s.admits_at_once(msg),
    ensures
        s.after_register(msg).clients[msg.id].state == ClientStateView::Validated(msg.room_id),
        s.after_register(msg).occupants(msg.room_id) == seq![msg.addr],
        forall|i: int|
            0 <= i < s.register_notices(msg).len() ==> !(
            #[trigger] s.register_notices(msg)[i].notice is Validation),
{
}

/// A registration for an occupied room admits nobody: the newcomer waits,
/// and each occupant is asked once to vouch for it, with `accept` unset.
pub proof fn lemma_join_occupied_room(s: Registry, msg: RegisterView, occupant: ConnectionHandle)
    requires
        s.rooms_are_sets(),
        !s.admits_at_once(msg),
        s.cleared(msg).occupants(msg.room_id).contains(occupant),
    ensures
        s.after_register(msg).clients[msg.id].state == ClientStateView::AwaitingValidation,
        s.after_register(msg).rooms == s.cleared(msg).rooms,
        exists|i: int|
            {
                &&& 0 <= i < s.register_notices(msg).len()
                &&& #[trigger] s.register_notices(msg)[i] == DeliveryView {
                    to: occupant,
                    notice: NoticeView::Validation(
                        ValidationRequestView {
                            room_id: msg.room_id,
                            id: msg.id,
                            validation: msg.validation,
                            accept: false,
                        },
                    ),
                }
                &&& forall|j: int|
                    0 <= j < s.register_notices(msg).len() && (
                    #[trigger] s.register_notices(msg)[j]).to == occupant && s.register_notices(
                        msg,
                    )[j].notice is Validation ==> j == i
            },
{
    let leave = DisconnectView { id: msg.id, full_disconnect: false };
    let gone = s.disconnect_notices(leave);
    let members = s.cleared(msg).occupants(msg.room_id);
    let notices = s.register_notices(msg);
    lemma_occupants_after_disconnect(s, leave);
    assert(s.occupants(msg.room_id).no_duplicates());
    if s.clients.contains_key(msg.id) {
        lemma_left(s.occupants(msg.room_id), s.clients[msg.id].client_addr);
    }
    assert(members.no_duplicates());
    let at = choose|at: int| 0 <= at < members.len() && members[at] == occupant;
    let i = gone.len() + at;
    assert(notices[i].to == occupant);
    assert forall|j: int|
        0 <= j < notices.len() && (#[trigger] notices[j]).to == occupant
            && notices[j].notice is Validation implies j == i by {
        if j < gone.len() {
            assert(notices[j] == gone[j]);
        } else if j < gone.len() + members.len() {
            assert(notices[j].to == members[j - gone.len()]);
        }
    }
}

} // verus!
