use chat_relay::chatserver::{
    ChatServer, Client, Delivery, Disconnect, Message, Notice, Register, Request,
};
use chat_relay::chatsession::{ClientState, ConnectionHandle, Text, ValidationRequest};

const A: ConnectionHandle = ConnectionHandle { key: 1 };
const B: ConnectionHandle = ConnectionHandle { key: 2 };
const C: ConnectionHandle = ConnectionHandle { key: 3 };

fn register(id: &str, room: &str, token: &str, addr: ConnectionHandle) -> Register {
    Register {
        id: id.to_string(),
        room_id: room.to_string(),
        validation: token.to_string(),
        addr,
    }
}

fn answer(room: &str, id: &str, accept: bool) -> ValidationRequest {
    ValidationRequest {
        room_id: room.to_string(),
        id: id.to_string(),
        validation: "token".to_string(),
        accept,
    }
}

fn leave(id: &str, full_disconnect: bool) -> Disconnect {
    Disconnect { id: id.to_string(), full_disconnect }
}

fn state(to: ConnectionHandle, state: ClientState) -> Delivery {
    Delivery { to, notice: Notice::State(state) }
}

fn validated(room: &str) -> ClientState {
    ClientState::Validated(room.to_string())
}

fn server_says(to: ConnectionHandle, message: &str) -> Delivery {
    Delivery {
        to,
        notice: Notice::Text(Text { id: "Server".to_string(), message: message.to_string() }),
    }
}

fn asks(to: ConnectionHandle, room: &str, id: &str, token: &str) -> Delivery {
    Delivery {
        to,
        notice: Notice::Validation(ValidationRequest {
            room_id: room.to_string(),
            id: id.to_string(),
            validation: token.to_string(),
            accept: false,
        }),
    }
}

fn state_of(server: &ChatServer, id: &str) -> Option<ClientState> {
    server.client(&id.to_string()).map(|client| client.state)
}

fn members(server: &ChatServer, room: &str) -> Vec<ConnectionHandle> {
    server.occupants(&room.to_string())
}

/// A registry in which B occupies "x" and A waits to be let in.
fn b_inside_a_waiting() -> ChatServer {
    let mut server = ChatServer::new();
    server.handle_register(register("B", "x", "tb", B));
    server.handle_register(register("A", "x", "ta", A));
    server
}

#[test]
fn new_registry_is_empty() {
    let server = ChatServer::new();
    assert_eq!(server.get_user_count(&"x".to_string()), 0);
    assert_eq!(members(&server, "x"), vec![]);
    assert_eq!(server.client(&"A".to_string()), None);
}

#[test]
fn join_into_empty_room() {
    let mut server = ChatServer::new();
    let out = server.handle_register(register("A", "x", "ta", A));
    assert_eq!(state_of(&server, "A"), Some(validated("x")));
    assert_eq!(members(&server, "x"), vec![A]);
    assert_eq!(
        out,
        vec![
            state(A, validated("x")),
            server_says(A, "User A has join the room ... Number of connected users: 1"),
        ]
    );
    assert!(out.iter().all(|d| !matches!(d.notice, Notice::Validation(_))));
}

#[test]
fn join_into_occupied_room() {
    let mut server = ChatServer::new();
    server.handle_register(register("B", "x", "tb", B));
    let out = server.handle_register(register("A", "x", "ta", A));
    assert_eq!(state_of(&server, "A"), Some(ClientState::AwaitingValidation));
    assert_eq!(members(&server, "x"), vec![B]);
    assert_eq!(out, vec![asks(B, "x", "A", "ta"), state(A, ClientState::AwaitingValidation)]);
    let to_b = out
        .iter()
        .filter(|d| d.to == B && matches!(d.notice, Notice::Validation(_)))
        .count();
    assert_eq!(to_b, 1);
}

#[test]
fn join_asks_every_occupant() {
    let mut server = b_inside_a_waiting();
    server.handle_validation_request(answer("x", "A", true));
    let out = server.handle_register(register("C", "x", "tc", C));
    assert_eq!(
        out,
        vec![
            asks(B, "x", "C", "tc"),
            asks(A, "x", "C", "tc"),
            state(C, ClientState::AwaitingValidation),
        ]
    );
}

#[test]
fn single_accept_admission() {
    let mut server = b_inside_a_waiting();
    let out = server.handle_validation_request(answer("x", "A", true));
    assert_eq!(state_of(&server, "A"), Some(validated("x")));
    assert_eq!(members(&server, "x"), vec![B, A]);
    assert_eq!(server.get_user_count(&"x".to_string()), 2);
    assert_eq!(
        out,
        vec![
            state(A, validated("x")),
            server_says(B, "User A has join the room ... Number of connected users: 2"),
            server_says(A, "User A has join the room ... Number of connected users: 2"),
        ]
    );
}

#[test]
fn reject_has_no_effect() {
    let mut server = b_inside_a_waiting();
    let out = server.handle_validation_request(answer("x", "A", false));
    assert_eq!(out, vec![]);
    assert_eq!(state_of(&server, "A"), Some(ClientState::AwaitingValidation));
    assert_eq!(members(&server, "x"), vec![B]);
    let again = server.handle_validation_request(answer("x", "A", false));
    assert_eq!(again, vec![]);
    assert_eq!(state_of(&server, "A"), Some(ClientState::AwaitingValidation));
}

#[test]
fn accept_for_unknown_connection_is_ignored() {
    let mut server = b_inside_a_waiting();
    let out = server.handle_validation_request(answer("x", "Z", true));
    assert_eq!(out, vec![]);
    assert_eq!(server.client(&"Z".to_string()), None);
    assert_eq!(members(&server, "x"), vec![B]);
}

#[test]
fn accept_for_unknown_room_is_ignored() {
    let mut server = b_inside_a_waiting();
    let out = server.handle_validation_request(answer("nowhere", "A", true));
    assert_eq!(out, vec![]);
    assert_eq!(state_of(&server, "A"), Some(ClientState::AwaitingValidation));
    assert_eq!(members(&server, "nowhere"), vec![]);
}

#[test]
fn idempotent_re_accept() {
    let mut server = b_inside_a_waiting();
    let first = server.handle_validation_request(answer("x", "A", true));
    let second = server.handle_validation_request(answer("x", "A", true));
    assert_eq!(members(&server, "x"), vec![B, A]);
    assert_eq!(server.get_user_count(&"x".to_string()), 2);
    assert_eq!(state_of(&server, "A"), Some(validated("x")));
    assert_eq!(second, first);
}

#[test]
fn room_switch() {
    let mut server = b_inside_a_waiting();
    server.handle_validation_request(answer("x", "A", true));
    let out = server.handle_register(register("A", "y", "ta", A));
    assert_eq!(members(&server, "x"), vec![B]);
    assert_eq!(members(&server, "y"), vec![A]);
    assert_eq!(state_of(&server, "A"), Some(validated("y")));
    assert_eq!(
        out,
        vec![
            server_says(B, "A disconnected ... Number of connected users: 1"),
            state(A, validated("y")),
            server_says(A, "User A has join the room ... Number of connected users: 1"),
        ]
    );
}

#[test]
fn room_switch_into_occupied_room() {
    let mut server = ChatServer::new();
    server.handle_register(register("A", "x", "ta", A));
    server.handle_register(register("B", "y", "tb", B));
    let out = server.handle_register(register("A", "y", "ta", A));
    assert_eq!(members(&server, "x"), vec![]);
    assert_eq!(members(&server, "y"), vec![B]);
    assert_eq!(state_of(&server, "A"), Some(ClientState::AwaitingValidation));
    assert_eq!(out, vec![asks(B, "y", "A", "ta"), state(A, ClientState::AwaitingValidation)]);
}

#[test]
fn registering_again_for_the_only_room_readmits() {
    let mut server = ChatServer::new();
    server.handle_register(register("A", "x", "ta", A));
    let out = server.handle_register(register("A", "x", "ta", A));
    assert_eq!(members(&server, "x"), vec![A]);
    assert_eq!(
        out,
        vec![
            state(A, validated("x")),
            server_says(A, "User A has join the room ... Number of connected users: 1"),
        ]
    );
}

#[test]
fn emptied_room_admits_at_once() {
    let mut server = ChatServer::new();
    server.handle_register(register("B", "x", "tb", B));
    server.handle_disconnect(leave("B", true));
    assert_eq!(members(&server, "x"), vec![]);
    let out = server.handle_register(register("A", "x", "ta", A));
    assert_eq!(state_of(&server, "A"), Some(validated("x")));
    assert_eq!(out[0], state(A, validated("x")));
}

#[test]
fn full_disconnect_removes_the_record() {
    let mut server = b_inside_a_waiting();
    server.handle_validation_request(answer("x", "A", true));
    let out = server.handle_disconnect(leave("A", true));
    assert_eq!(server.client(&"A".to_string()), None);
    assert_eq!(members(&server, "x"), vec![B]);
    assert_eq!(out, vec![server_says(B, "A disconnected ... Number of connected users: 1")]);
}

#[test]
fn partial_disconnect_keeps_the_record() {
    let mut server = b_inside_a_waiting();
    server.handle_validation_request(answer("x", "A", true));
    let out = server.handle_disconnect(leave("B", false));
    assert_eq!(
        server.client(&"B".to_string()),
        Some(Client { room_id: "x".to_string(), state: validated("x"), client_addr: B })
    );
    assert_eq!(members(&server, "x"), vec![A]);
    assert_eq!(out, vec![server_says(A, "B disconnected ... Number of connected users: 1")]);
}

#[test]
fn disconnect_of_a_waiting_connection_is_not_announced() {
    let mut server = b_inside_a_waiting();
    let out = server.handle_disconnect(leave("A", true));
    assert_eq!(out, vec![]);
    assert_eq!(server.client(&"A".to_string()), None);
    assert_eq!(members(&server, "x"), vec![B]);
}

#[test]
fn disconnect_of_an_unknown_connection_does_nothing() {
    let mut server = b_inside_a_waiting();
    let out = server.handle_disconnect(leave("Z", true));
    assert_eq!(out, vec![]);
    assert_eq!(members(&server, "x"), vec![B]);
    assert_eq!(state_of(&server, "A"), Some(ClientState::AwaitingValidation));
}

#[test]
fn last_occupant_leaves_an_empty_room() {
    let mut server = ChatServer::new();
    server.handle_register(register("A", "x", "ta", A));
    let out = server.handle_disconnect(leave("A", true));
    assert_eq!(out, vec![]);
    assert_eq!(server.get_user_count(&"x".to_string()), 0);
}

#[test]
fn chat_goes_to_every_occupant() {
    let mut server = b_inside_a_waiting();
    server.handle_validation_request(answer("x", "A", true));
    let out = server.handle_message(Message {
        id: "A".to_string(),
        room_id: "x".to_string(),
        message: "hello".to_string(),
    });
    let line = Text { id: "A".to_string(), message: "hello".to_string() };
    assert_eq!(
        out,
        vec![
            Delivery { to: B, notice: Notice::Text(line.clone()) },
            Delivery { to: A, notice: Notice::Text(line) },
        ]
    );
}

#[test]
fn chat_for_an_unknown_or_empty_room_goes_nowhere() {
    let mut server = ChatServer::new();
    let out = server.broadcast_message("x".to_string(), "A".to_string(), "hello".to_string());
    assert_eq!(out, vec![]);
    server.handle_register(register("A", "x", "ta", A));
    server.handle_disconnect(leave("A", true));
    let out = server.broadcast_message("x".to_string(), "A".to_string(), "hello".to_string());
    assert_eq!(out, vec![]);
}

#[test]
fn user_count_follows_the_room() {
    let mut server = ChatServer::new();
    let x = "x".to_string();
    assert_eq!(server.get_user_count(&x), 0);
    server.handle_register(register("B", "x", "tb", B));
    assert_eq!(server.get_user_count(&x), 1);
    server.handle_register(register("A", "x", "ta", A));
    assert_eq!(server.get_user_count(&x), 1);
    server.handle_validation_request(answer("x", "A", true));
    assert_eq!(server.get_user_count(&x), 2);
    server.handle_disconnect(leave("B", true));
    assert_eq!(server.get_user_count(&x), 1);
}

#[test]
fn handle_takes_every_request() {
    let mut server = ChatServer::new();
    let out = server.handle(Request::Register(register("B", "x", "tb", B)));
    assert_eq!(out[0], state(B, validated("x")));
    let out = server.handle(Request::Register(register("A", "x", "ta", A)));
    assert_eq!(out, vec![asks(B, "x", "A", "ta"), state(A, ClientState::AwaitingValidation)]);
    let out = server.handle(Request::Validation(answer("x", "A", true)));
    assert_eq!(out.len(), 3);
    let out = server.handle(Request::Message(Message {
        id: "B".to_string(),
        room_id: "x".to_string(),
        message: "hi".to_string(),
    }));
    assert_eq!(out.len(), 2);
    let out = server.handle(Request::Disconnect(leave("B", true)));
    assert_eq!(out, vec![server_says(A, "B disconnected ... Number of connected users: 1")]);
    assert_eq!(members(&server, "x"), vec![A]);
}

/// After each request of a session of three connections, a handle is in a
/// room exactly when the record that holds it says so.
#[test]
fn rooms_and_records_agree() {
    let mut server = ChatServer::new();
    let requests = vec![
        Request::Register(register("A", "x", "ta", A)),
        Request::Register(register("B", "x", "tb", B)),
        Request::Register(register("C", "y", "tc", C)),
        Request::Validation(answer("x", "B", false)),
        Request::Validation(answer("x", "B", true)),
        Request::Validation(answer("x", "B", true)),
        Request::Register(register("A", "y", "ta", A)),
        Request::Validation(answer("y", "A", true)),
        Request::Disconnect(leave("C", true)),
        Request::Register(register("B", "z", "tb", B)),
        Request::Disconnect(leave("A", true)),
        Request::Disconnect(leave("B", true)),
    ];
    let ids = [("A", A), ("B", B), ("C", C)];
    for request in requests {
        server.handle(request);
        for room in ["x", "y", "z"] {
            let inside = members(&server, room);
            for (id, handle) in ids {
                let says = state_of(&server, id) == Some(validated(room));
                assert_eq!(inside.contains(&handle), says);
            }
            assert_eq!(inside.len(), server.get_user_count(&room.to_string()));
            let mut seen = inside.clone();
            seen.dedup();
            assert_eq!(seen.len(), inside.len());
        }
    }
    assert_eq!(members(&server, "x"), vec![]);
    assert_eq!(members(&server, "y"), vec![]);
    assert_eq!(members(&server, "z"), vec![]);
}

/// An accepting answer is taken at its word: it admits its newcomer to the
/// room it names, whatever room the newcomer asked for.
#[test]
fn accept_admits_to_the_room_it_names() {
    let mut server = ChatServer::new();
    server.handle_register(register("B", "x", "tb", B));
    server.handle_register(register("C", "y", "tc", C));
    server.handle_register(register("A", "x", "ta", A));
    let out = server.handle_validation_request(answer("y", "A", true));
    assert_eq!(members(&server, "y"), vec![C, A]);
    assert_eq!(
        server.client(&"A".to_string()),
        Some(Client { room_id: "x".to_string(), state: validated("y"), client_addr: A })
    );
    assert_eq!(out[0], state(A, validated("y")));
}
