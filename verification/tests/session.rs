//! The per-connection session state machine: liveness, dispatch, local
//! acknowledgements, and shutdown reporting.

use chat_router::model::{ChatMessage, ChatMessageType};
use chat_router::route::{
    admit_connection, HbAction, HubIntent, ProtocolFailure, SessionAction, SessionPhase,
    WsChatSession, WsFrame, CLIENT_TIMEOUT,
};
use chat_router::server::Disconnect;

fn open_session(user: &str) -> WsChatSession {
    WsChatSession {
        id: 7,
        hb: 0,
        token: "tok".to_owned(),
        user: user.to_owned(),
        phase: SessionPhase::Open,
    }
}

fn envelope(style: ChatMessageType, content: Option<&str>, mid: Option<&str>) -> ChatMessage {
    ChatMessage {
        from: None,
        style,
        content: content.map(|c| c.to_owned()),
        message_id: mid.map(|m| m.to_owned()),
    }
}

fn ack_count(actions: &[SessionAction], mid: &str) -> usize {
    actions
        .iter()
        .filter(|a| match a {
            SessionAction::Reply(e) => {
                matches!(e.style, ChatMessageType::Ack) && e.message_id.as_deref() == Some(mid)
            }
            _ => false,
        })
        .count()
}

#[test]
fn admission_builds_a_connecting_session() {
    let s = admit_connection(Ok("A".to_owned()), "tok".to_owned(), 100).unwrap();
    assert_eq!(s.user, "A");
    assert_eq!(s.token, "tok");
    assert_eq!(s.id, 0);
    assert_eq!(s.hb, 100);
    assert_eq!(s.phase, SessionPhase::Connecting);
}

#[test]
fn admission_refuses_a_bad_token() {
    assert!(admit_connection(Err(()), "tok".to_owned(), 100).is_err());
}

#[test]
fn started_hands_the_hub_the_identity() {
    let mut s = admit_connection(Ok("A".to_owned()), "tok".to_owned(), 0).unwrap();
    let c = s.started();
    assert_eq!(c.name, "A");
    assert_eq!(s.phase, SessionPhase::Connecting);
}

#[test]
fn connect_ack_opens_the_session() {
    let mut s = admit_connection(Ok("A".to_owned()), "tok".to_owned(), 0).unwrap();
    let stop = s.connect_ack(Some(42));
    assert!(!stop);
    assert_eq!(s.id, 42);
    assert_eq!(s.phase, SessionPhase::Open);
}

#[test]
fn unreachable_hub_closes_the_session() {
    let mut s = admit_connection(Ok("A".to_owned()), "tok".to_owned(), 0).unwrap();
    let stop = s.connect_ack(None);
    assert!(stop);
    assert_eq!(s.phase, SessionPhase::Closing);
}

#[test]
fn ping_is_answered_and_resets_liveness() {
    let mut s = open_session("A");
    let acts = s.handle(Ok(WsFrame::Ping(vec![1, 2])), 500);
    assert_eq!(acts, vec![SessionAction::Pong(vec![1, 2])]);
    assert_eq!(s.hb, 500);
    assert_eq!(s.phase, SessionPhase::Open);
}

#[test]
fn pong_resets_liveness() {
    let mut s = open_session("A");
    let acts = s.handle(Ok(WsFrame::Pong), 700);
    assert!(acts.is_empty());
    assert_eq!(s.hb, 700);
}

#[test]
fn malformed_text_is_dropped_and_connection_stays_open() {
    let mut s = open_session("A");
    let acts = s.handle(Ok(WsFrame::Text(None)), 10);
    assert!(acts.is_empty());
    assert_eq!(s.phase, SessionPhase::Open);
}

#[test]
fn close_frame_stops_the_session() {
    let mut s = open_session("A");
    let acts = s.handle(Ok(WsFrame::Close), 10);
    assert_eq!(acts, vec![SessionAction::Stop]);
    assert_eq!(s.phase, SessionPhase::Closing);
}

#[test]
fn protocol_error_stops_the_session() {
    let mut s = open_session("A");
    let acts = s.handle(Err(ProtocolFailure), 10);
    assert_eq!(acts, vec![SessionAction::Stop]);
    assert_eq!(s.phase, SessionPhase::Closing);
}

#[test]
fn one_to_one_is_forwarded_with_the_sender_identity() {
    let mut s = open_session("A");
    let m = envelope(ChatMessageType::OneToOne("B".to_owned()), Some("hey"), None);
    let acts = s.handle(Ok(WsFrame::Text(Some(m))), 10);
    assert_eq!(acts.len(), 1);
    match &acts[0] {
        SessionAction::ToHub(HubIntent::P2P(p)) => {
            assert_eq!(p.id, "A");
            assert_eq!(p.other_id, "B");
            assert_eq!(p.msg, "hey");
        }
        other => panic!("unexpected action {:?}", other),
    }
}

#[test]
fn join_is_forwarded_with_the_connection_id() {
    let mut s = open_session("A");
    let m = envelope(ChatMessageType::Join("lobby".to_owned()), None, None);
    let acts = s.handle(Ok(WsFrame::Text(Some(m))), 10);
    assert_eq!(acts.len(), 1);
    match &acts[0] {
        SessionAction::ToHub(HubIntent::JoinRoom(j)) => {
            assert_eq!(j.id, 7);
            assert_eq!(j.name, "lobby");
        }
        other => panic!("unexpected action {:?}", other),
    }
}

#[test]
fn absent_content_is_forwarded_as_empty_text() {
    let mut s = open_session("A");
    let m = envelope(ChatMessageType::Broadcast, None, None);
    let acts = s.handle(Ok(WsFrame::Text(Some(m))), 10);
    match &acts[0] {
        SessionAction::ToHub(HubIntent::Broadcast(b)) => assert_eq!(b.msg, ""),
        other => panic!("unexpected action {:?}", other),
    }
}

#[test]
fn message_id_yields_exactly_one_ack() {
    for style in [
        ChatMessageType::OneToOne("B".to_owned()),
        ChatMessageType::RoomMessage("lobby".to_owned()),
        ChatMessageType::Broadcast,
        ChatMessageType::Join("lobby".to_owned()),
        ChatMessageType::Ack,
    ] {
        let mut s = open_session("A");
        let m = envelope(style, Some("x"), Some("m1"));
        let acts = s.handle(Ok(WsFrame::Text(Some(m))), 10);
        assert_eq!(ack_count(&acts, "m1"), 1);
    }
}

#[test]
fn no_message_id_yields_no_ack() {
    let mut s = open_session("A");
    let m = envelope(ChatMessageType::Broadcast, Some("x"), None);
    let acts = s.handle(Ok(WsFrame::Text(Some(m))), 10);
    assert!(acts.iter().all(|a| !matches!(a, SessionAction::Reply(_))));
}

#[test]
fn events_on_a_closed_session_are_ignored() {
    let mut s = open_session("A");
    s.phase = SessionPhase::Closed;
    let acts = s.handle(Ok(WsFrame::Ping(vec![])), 10);
    assert!(acts.is_empty());
    assert_eq!(s.phase, SessionPhase::Closed);
}

#[test]
fn quiet_connection_is_pinged() {
    let mut s = open_session("A");
    s.hb = 1000;
    assert_eq!(s.hb(1000 + CLIENT_TIMEOUT), HbAction::Ping);
    assert_eq!(s.phase, SessionPhase::Open);
}

#[test]
fn silent_connection_is_closed_after_the_deadline() {
    let mut s = open_session("A");
    s.hb = 1000;
    assert_eq!(s.hb(1000 + CLIENT_TIMEOUT + 1), HbAction::Stop);
    assert_eq!(s.phase, SessionPhase::Closing);
}

#[test]
fn traffic_postpones_the_deadline() {
    let mut s = open_session("A");
    s.hb = 0;
    let _ = s.handle(Ok(WsFrame::Pong), 9_000);
    assert_eq!(s.hb(9_000 + CLIENT_TIMEOUT), HbAction::Ping);
}

#[test]
fn timeout_triggers_exactly_one_disconnect() {
    let mut s = open_session("A");
    s.hb = 0;
    assert_eq!(s.hb(CLIENT_TIMEOUT + 1), HbAction::Stop);
    assert_eq!(s.stopping(), Some(Disconnect { id: 7 }));
    assert_eq!(s.stopping(), None);
    assert_eq!(s.stopping(), None);
}

#[test]
fn stopping_reports_the_connection_id_once() {
    let mut s = open_session("A");
    s.id = 99;
    assert_eq!(s.stopping(), Some(Disconnect { id: 99 }));
    assert_eq!(s.phase, SessionPhase::Closed);
    assert_eq!(s.stopping(), None);
}
