//! End-to-end flows: sessions driving the hub, as the transport layer
//! would wire them together.

use chat_router::model::{ChatMessage, ChatMessageType};
use chat_router::route::{
    admit_connection, HubIntent, SessionAction, WsChatSession, WsFrame,
};
use chat_router::server::ChatServer;

/// Opens a verified connection: handshake, registration, hub reply.
fn open(hub: &mut ChatServer, user: &str, now: u64) -> WsChatSession {
    let mut s = admit_connection(Ok(user.to_owned()), "tok".to_owned(), now).unwrap();
    let connect = s.started();
    let id = hub.connect(connect);
    let stop = s.connect_ack(Some(id));
    assert!(!stop);
    s
}

/// Feeds one decoded envelope into the session and forwards every hub
/// intent, returning the deliveries (envelope and recipient ids) and the
/// frames echoed locally to the sender.
fn send(
    hub: &mut ChatServer,
    s: &mut WsChatSession,
    m: ChatMessage,
    now: u64,
) -> (Vec<(ChatMessage, Vec<usize>)>, Vec<ChatMessage>) {
    let mut delivered = Vec::new();
    let mut echoed = Vec::new();
    for action in s.handle(Ok(WsFrame::Text(Some(m))), now) {
        match action {
            SessionAction::ToHub(HubIntent::P2P(p)) => delivered.push(hub.handle_p2p_message(p)),
            SessionAction::ToHub(HubIntent::Room(r)) => delivered.push(hub.handle_room_message(r)),
            SessionAction::ToHub(HubIntent::Broadcast(b)) => {
                delivered.push(hub.handle_boardcast_message(b))
            }
            SessionAction::ToHub(HubIntent::JoinRoom(j)) => hub.join(j),
            SessionAction::Reply(e) => echoed.push(e),
            SessionAction::Pong(_) | SessionAction::Stop => {}
        }
    }
    (delivered, echoed)
}

#[test]
fn room_message_reaches_the_other_member_only() {
    let mut hub = ChatServer::default();
    let mut a = open(&mut hub, "A", 0);
    let mut b = open(&mut hub, "B", 0);

    let join = |style| ChatMessage { from: None, style, content: None, message_id: None };
    send(&mut hub, &mut a, join(ChatMessageType::Join("lobby".to_owned())), 1);
    send(&mut hub, &mut b, join(ChatMessageType::Join("lobby".to_owned())), 1);

    let m = ChatMessage {
        from: None,
        style: ChatMessageType::RoomMessage("lobby".to_owned()),
        content: Some("hi".to_owned()),
        message_id: None,
    };
    let (delivered, echoed) = send(&mut hub, &mut a, m, 2);

    // B receives the stamped frame
    assert_eq!(delivered.len(), 1);
    let (env, targets) = &delivered[0];
    assert_eq!(
        *env,
        ChatMessage {
            from: Some("A".to_owned()),
            style: ChatMessageType::RoomMessage("lobby".to_owned()),
            content: Some("hi".to_owned()),
            message_id: None,
        }
    );
    assert_eq!(*targets, vec![b.id]);
    // A receives nothing: not a recipient, and nothing echoed locally
    assert!(!targets.contains(&a.id));
    assert!(echoed.is_empty());
}

#[test]
fn one_to_one_acks_the_sender_and_reaches_the_target() {
    let mut hub = ChatServer::default();
    let mut a = open(&mut hub, "A", 0);
    let b = open(&mut hub, "B", 0);

    let m = ChatMessage {
        from: None,
        style: ChatMessageType::OneToOne("B".to_owned()),
        content: Some("hey".to_owned()),
        message_id: Some("1".to_owned()),
    };
    let (delivered, echoed) = send(&mut hub, &mut a, m, 2);

    // A immediately receives the acknowledgement of "1"
    assert_eq!(
        echoed,
        vec![ChatMessage {
            from: None,
            style: ChatMessageType::Ack,
            content: None,
            message_id: Some("1".to_owned()),
        }]
    );
    // B receives the stamped frame
    assert_eq!(delivered.len(), 1);
    let (env, targets) = &delivered[0];
    assert_eq!(
        *env,
        ChatMessage {
            from: Some("A".to_owned()),
            style: ChatMessageType::OneToOne("B".to_owned()),
            content: Some("hey".to_owned()),
            message_id: None,
        }
    );
    assert_eq!(*targets, vec![b.id]);
}

#[test]
fn disconnected_session_no_longer_receives() {
    let mut hub = ChatServer::default();
    let mut a = open(&mut hub, "A", 0);
    let mut b = open(&mut hub, "B", 0);

    // B's connection goes silent past the deadline and is torn down
    let _ = b.hb(20_000);
    let d = b.stopping().unwrap();
    hub.disconnect(d);

    let m = ChatMessage {
        from: None,
        style: ChatMessageType::Broadcast,
        content: Some("x".to_owned()),
        message_id: None,
    };
    let (delivered, _) = send(&mut hub, &mut a, m, 2);
    assert_eq!(delivered[0].1, Vec::<usize>::new());
}
