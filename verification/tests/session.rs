use chat_relay::chatserver::{Disconnect, Message, Notice, Register, Request};
use chat_relay::chatsession::{
    ChatSession, ClientPacket, ClientState, ConnectionHandle, Effect, Event, Frame, Incoming, Text,
    ValidationRequest, CLIENT_TIMEOUT, HEARTBEAT_INTERVAL,
};

const ME: ConnectionHandle = ConnectionHandle { key: 42 };

fn session_in(state: ClientState) -> ChatSession {
    let mut session = ChatSession::new("00ff".to_string(), ME, 1_000);
    session.state = state;
    session
}

fn validated(room: &str) -> ClientState {
    ClientState::Validated(room.to_string())
}

fn plain(text: &str) -> Vec<Effect> {
    vec![Effect::Send(Frame::Plain(text.to_string()))]
}

fn ping() -> Effect {
    Effect::Send(Frame::Packet(ClientPacket::Heartbeat("Ping".to_string())))
}

fn every_state() -> Vec<ClientState> {
    vec![
        ClientState::Init,
        ClientState::Connected,
        ClientState::AwaitingValidation,
        validated("x"),
    ]
}

fn vouch(room: &str, id: &str, accept: bool) -> ClientPacket {
    ClientPacket::ValidationRequest {
        room_id: room.to_string(),
        id: id.to_string(),
        validation: "token".to_string(),
        accept,
    }
}

#[test]
fn timeout_spans_five_probes() {
    assert_eq!(HEARTBEAT_INTERVAL, 6_000_000_000);
    assert_eq!(CLIENT_TIMEOUT, 30_000_000_000);
    assert_eq!(CLIENT_TIMEOUT, 5 * HEARTBEAT_INTERVAL);
}

#[test]
fn new_session_is_at_init() {
    let session = ChatSession::new("00ff".to_string(), ME, 77);
    assert_eq!(
        session,
        ChatSession {
            id: "00ff".to_string(),
            addr: ME,
            state: ClientState::Init,
            last_heartbeat: 77,
            closed: false,
        }
    );
}

#[test]
fn start_hands_out_the_identifier() {
    let mut session = ChatSession::new("00ff".to_string(), ME, 77);
    let out = session.started();
    assert_eq!(
        out,
        vec![Effect::Send(Frame::Plain("00ff".to_string())), Effect::Schedule(6_000_000_000)]
    );
    assert_eq!(session.state, ClientState::Connected);
    assert_eq!(session.last_heartbeat, 77);
}

#[test]
fn probe_pings_a_live_client() {
    let session = session_in(ClientState::Connected);
    assert_eq!(session.heartbeat(1_000), vec![ping()]);
    assert_eq!(session.heartbeat(1_000 + HEARTBEAT_INTERVAL), vec![ping()]);
    assert_eq!(session.heartbeat(1_000 + CLIENT_TIMEOUT), vec![ping()]);
}

#[test]
fn heartbeat_timeout() {
    let mut session = session_in(validated("x"));
    let out = session.heartbeat(1_000 + CLIENT_TIMEOUT + 1);
    assert_eq!(out, vec![ping(), Effect::Stop]);
    let report = session.stopped();
    assert_eq!(
        report,
        vec![Effect::Forward(Request::Disconnect(Disconnect {
            id: "00ff".to_string(),
            full_disconnect: true,
        }))]
    );
    assert!(session.closed);
    assert_eq!(session.stopped(), vec![]);
    assert_eq!(session.stopped(), vec![]);
}

#[test]
fn clock_that_went_back_ends_nothing() {
    let session = session_in(ClientState::Connected);
    assert_eq!(session.heartbeat(0), vec![ping()]);
}

#[test]
fn far_future_probe_ends_the_session() {
    let session = session_in(ClientState::Connected);
    assert_eq!(session.heartbeat(u64::MAX), vec![ping(), Effect::Stop]);
}

#[test]
fn any_text_frame_is_a_sign_of_life() {
    let late = 1_000 + CLIENT_TIMEOUT + 5;
    let frames = vec![
        Incoming::Text(None),
        Incoming::Text(Some(ClientPacket::Heartbeat("Ping".to_string()))),
        Incoming::Text(Some(ClientPacket::Text { message: "hi".to_string() })),
    ];
    for frame in frames {
        let mut session = session_in(ClientState::Connected);
        session.handle_frame(frame, late);
        assert_eq!(session.last_heartbeat, late);
        assert_eq!(session.heartbeat(late + CLIENT_TIMEOUT), vec![ping()]);
    }
}

#[test]
fn other_frames_are_no_sign_of_life() {
    let late = 1_000 + CLIENT_TIMEOUT + 5;
    let frames =
        vec![Incoming::Binary, Incoming::Ping, Incoming::Pong, Incoming::Close, Incoming::Nop];
    for frame in frames {
        let mut session = session_in(ClientState::Connected);
        session.handle_frame(frame, late);
        assert_eq!(session.last_heartbeat, 1_000);
        assert_eq!(session.heartbeat(late), vec![ping(), Effect::Stop]);
    }
}

#[test]
fn transport_frames() {
    let mut session = session_in(validated("x"));
    assert_eq!(session.handle_frame(Incoming::Binary, 2_000), vec![]);
    assert_eq!(session.handle_frame(Incoming::Ping, 2_000), plain("PONG!"));
    assert_eq!(session.handle_frame(Incoming::Pong, 2_000), vec![]);
    assert_eq!(session.handle_frame(Incoming::Nop, 2_000), vec![]);
    assert_eq!(session.handle_frame(Incoming::Close, 2_000), vec![Effect::Stop]);
    assert_eq!(session.state, validated("x"));
}

#[test]
fn malformed_packet_is_answered_in_plain_text() {
    for state in every_state() {
        let mut session = session_in(state.clone());
        assert_eq!(session.handle_frame(Incoming::Text(None), 2_000), plain("Invalid Packet Sent"));
        assert_eq!(session.state, state);
    }
}

#[test]
fn register_is_forwarded_in_any_state() {
    for state in every_state() {
        let mut session = session_in(state.clone());
        let out = session.handle_frame(
            Incoming::Text(Some(ClientPacket::Register {
                room_id: "y".to_string(),
                validation: "mac".to_string(),
            })),
            2_000,
        );
        assert_eq!(
            out,
            vec![Effect::Forward(Request::Register(Register {
                id: "00ff".to_string(),
                room_id: "y".to_string(),
                validation: "mac".to_string(),
                addr: ME,
            }))]
        );
        assert_eq!(session.state, state);
    }
}

#[test]
fn vouching_for_the_own_room_is_forwarded_unchanged() {
    let session = session_in(validated("x"));
    for accept in [true, false] {
        assert_eq!(
            session.handle_packet(vouch("x", "A", accept)),
            vec![Effect::Forward(Request::Validation(ValidationRequest {
                room_id: "x".to_string(),
                id: "A".to_string(),
                validation: "token".to_string(),
                accept,
            }))]
        );
    }
}

#[test]
fn vouching_for_another_room_is_refused() {
    let session = session_in(validated("x"));
    assert_eq!(
        session.handle_packet(vouch("y", "A", true)),
        plain("Validation request cannot be given for another room.")
    );
}

#[test]
fn vouching_without_admission_is_refused() {
    for state in [ClientState::Init, ClientState::Connected, ClientState::AwaitingValidation] {
        let session = session_in(state);
        assert_eq!(
            session.handle_packet(vouch("x", "A", true)),
            plain("Validation requests can only be sent by already validated clients.")
        );
    }
}

#[test]
fn chat_is_forwarded_for_the_own_room() {
    let session = session_in(validated("x"));
    assert_eq!(
        session.handle_packet(ClientPacket::Text { message: "hello".to_string() }),
        vec![Effect::Forward(Request::Message(Message {
            id: "00ff".to_string(),
            room_id: "x".to_string(),
            message: "hello".to_string(),
        }))]
    );
}

#[test]
fn chat_without_admission_is_refused() {
    for state in [ClientState::Init, ClientState::Connected, ClientState::AwaitingValidation] {
        let session = session_in(state);
        assert_eq!(
            session.handle_packet(ClientPacket::Text { message: "hello".to_string() }),
            plain("You must be validated into a room to sent a text message.")
        );
    }
}

#[test]
fn heartbeat_packet_needs_no_answer() {
    for state in every_state() {
        let session = session_in(state);
        assert_eq!(session.handle_packet(ClientPacket::Heartbeat("Ping".to_string())), vec![]);
    }
}

#[test]
fn new_state_is_taken_over_and_echoed() {
    let mut session = session_in(ClientState::Connected);
    let out = session.handle_state(ClientState::AwaitingValidation);
    assert_eq!(out, vec![Effect::Send(Frame::State(ClientState::AwaitingValidation))]);
    assert_eq!(session.state, ClientState::AwaitingValidation);
    let out = session.handle_notice(Notice::State(validated("x")));
    assert_eq!(out, vec![Effect::Send(Frame::State(validated("x")))]);
    assert_eq!(session.state, validated("x"));
}

#[test]
fn request_to_vouch_reaches_an_admitted_client_with_accept_unset() {
    let session = session_in(validated("x"));
    let out = session.handle_validation_request(ValidationRequest {
        room_id: "x".to_string(),
        id: "A".to_string(),
        validation: "token".to_string(),
        accept: true,
    });
    assert_eq!(out, vec![Effect::Send(Frame::Packet(vouch("x", "A", false)))]);
}

#[test]
fn request_to_vouch_is_dropped_without_admission() {
    for state in [ClientState::Init, ClientState::Connected, ClientState::AwaitingValidation] {
        let session = session_in(state);
        let out = session.handle_validation_request(ValidationRequest {
            room_id: "x".to_string(),
            id: "A".to_string(),
            validation: "token".to_string(),
            accept: false,
        });
        assert_eq!(out, vec![]);
    }
}

#[test]
fn broadcast_line_is_written_as_it_came() {
    for state in every_state() {
        let session = session_in(state);
        let line = Text { id: "Server".to_string(), message: "hello".to_string() };
        assert_eq!(session.handle_text(line.clone()), vec![Effect::Send(Frame::Chat(line))]);
    }
}

#[test]
fn handle_takes_every_event() {
    let mut session = ChatSession::new("00ff".to_string(), ME, 0);
    assert_eq!(session.handle(Event::Started, 0).len(), 2);
    assert_eq!(session.state, ClientState::Connected);
    assert_eq!(session.handle(Event::Heartbeat, 6_000_000_000), vec![ping()]);
    let out = session.handle(Event::Notice(Notice::State(validated("x"))), 6_000_000_001);
    assert_eq!(out, vec![Effect::Send(Frame::State(validated("x")))]);
    let out = session.handle(
        Event::Frame(Incoming::Text(Some(ClientPacket::Text { message: "hi".to_string() }))),
        7_000_000_000,
    );
    assert_eq!(
        out,
        vec![Effect::Forward(Request::Message(Message {
            id: "00ff".to_string(),
            room_id: "x".to_string(),
            message: "hi".to_string(),
        }))]
    );
    assert_eq!(session.last_heartbeat, 7_000_000_000);
    assert_eq!(session.handle(Event::Heartbeat, 37_000_000_000), vec![ping()]);
    assert_eq!(session.handle(Event::Heartbeat, 37_000_000_001), vec![ping(), Effect::Stop]);
    let out = session.handle(Event::Stopped, 37_000_000_001);
    assert_eq!(
        out,
        vec![Effect::Forward(Request::Disconnect(Disconnect {
            id: "00ff".to_string(),
            full_disconnect: true,
        }))]
    );
    assert_eq!(session.handle(Event::Stopped, 37_000_000_002), vec![]);
}
