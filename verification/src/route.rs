//! The per-connection session: a state machine that bridges transport-level
//! frames and hub-level routing intents.
//!
//! The transport, the timers and the hub mailbox live outside the library;
//! they drive the machine by handing it decoded events and a monotone clock
//! reading (milliseconds), and perform the actions it returns: answer a
//! ping, emit a local frame, forward an intent to the hub, or close the
//! connection.

use vstd::prelude::*;

use crate::model::{ChatMessage, ChatMessageType};
use crate::server::{BoardcastMessage, Connect, Disconnect, Join, P2PMessage, StrRoomMessage};

verus! {

/// How often the server pings an idle connection, in milliseconds.
pub const HEARTBEAT_INTERVAL: u64 = 5000;

/// How long a connection may stay silent — no traffic, no pong — before the
/// server closes it, in milliseconds.
pub const CLIENT_TIMEOUT: u64 = 10000;

/// Connection parameters of the upgrade request: the opaque token to
/// verify before any session exists.
#[derive(Debug, Clone, PartialEq, Eq)]
pub struct WebsocketInfo {
    pub token: String,
}

/// The lifecycle of a session.
#[derive(Clone, Copy, Debug, PartialEq, Eq, Structural)]
pub enum SessionPhase {
    /// Token verified, `Connect` not yet acknowledged by the hub.
    Connecting,
    /// Registered with the hub; frames flow.
    Open,
    /// Shutting down; the transport is to be closed.
    Closing,
    /// Gone; the hub has been told exactly once.
    Closed,
}

/// A transport-level frame as the state machine sees it.  A text frame
/// arrives already decoded; `Text(None)` stands for a frame whose body was
/// not a valid envelope (it is dropped, the connection stays open).
#[derive(Debug, Clone, PartialEq, Eq)]
pub enum WsFrame {
    Ping(Vec<u8>),
    Pong,
    Text(Option<ChatMessage>),
    Binary,
    Close,
    Continuation,
    Nop,
}

/// A transport or protocol error on the inbound stream.
#[derive(Debug, Clone, PartialEq, Eq)]
pub struct ProtocolFailure;

/// A routing intent for the hub.
#[derive(Debug, Clone, PartialEq, Eq)]
pub enum HubIntent {
    P2P(P2PMessage),
    Room(StrRoomMessage),
    Broadcast(BoardcastMessage),
    JoinRoom(Join),
}

/// What the session asks its surroundings to do in response to one event.
#[derive(Debug, Clone, PartialEq, Eq)]
pub enum SessionAction {
    /// Answer a control ping, echoing its payload.
    Pong(Vec<u8>),
    /// Emit a frame to this session's own client (the local acknowledgement).
    Reply(ChatMessage),
    /// Forward a routing intent to the hub.
    ToHub(HubIntent),
    /// Close the transport; `stopping` then reports the disconnect.
    Stop,
}

/// The acknowledgement envelope for a client message id.
pub open spec fn ack_envelope(mid: String) -> ChatMessage {
    ChatMessage {
        from: None,
        style: ChatMessageType::Ack,
        content: None,
        message_id: Some(mid),
    }
}

/// Whether `a` is the local acknowledgement of the message id `mid`.
pub open spec fn is_ack_reply(a: SessionAction, mid: String) -> bool {
    a == SessionAction::Reply(ack_envelope(mid))
}

/// Whether `msg` carries the text `c` on: the envelope's content where one
/// is present, and the empty text where none is.
pub open spec fn carries_content(c: Option<String>, s: String) -> bool {
    match c {
        Some(c0) => s == c0,
        None => s@ == Seq::<char>::empty(),
    }
}

/// One live client connection, bridging its transport and the hub.
#[derive(Debug, Clone, PartialEq, Eq)]
pub struct WsChatSession {
    /// The hub-allocated connection id; zero until the hub replies.
    pub id: usize,
    /// The clock reading (milliseconds) of the last liveness reset.
    pub hb: u64,
    /// The opaque token the connection presented at the handshake.
    pub token: String,
    /// The verified identity behind the connection.
    pub user: String,
    /// Where the session stands in its lifecycle.
    pub phase: SessionPhase,
}

/// What a heartbeat tick asks for.
#[derive(Clone, Copy, Debug, PartialEq, Eq, Structural)]
pub enum HbAction {
    /// Send a control ping.
    Ping,
    /// The liveness deadline passed: close the connection.
    Stop,
    /// The session is already shutting down; nothing to do.
    Idle,
}

impl WsChatSession {
    /// Whether the session is registered and exchanging frames.
    pub open spec fn is_open(self) -> bool {
        self.phase is Open
    }

    /// Whether the heartbeat timer is still driving this session.
    pub open spec fn is_ticking(self) -> bool {
        self.phase is Connecting || self.phase is Open
    }

    /// The state after one inbound transport event: any received frame
    /// resets the liveness deadline, a close frame or a stream error moves
    /// the session to `Closing`, and everything else leaves it as it is.
    pub open spec fn handle_next(
        self,
        msg: Result<WsFrame, ProtocolFailure>,
        now: u64,
    ) -> WsChatSession {
        if !self.is_open() {
            self
        } else {
            match msg {
                Err(_) => WsChatSession { phase: SessionPhase::Closing, ..self },
                Ok(f) => match f {
                    WsFrame::Ping(_) => WsChatSession { hb: now, ..self },
                    WsFrame::Pong => WsChatSession { hb: now, ..self },
                    WsFrame::Text(_) => WsChatSession { hb: now, ..self },
                    WsFrame::Binary => WsChatSession { hb: now, ..self },
                    WsFrame::Close => WsChatSession { phase: SessionPhase::Closing, ..self },
                    WsFrame::Continuation => WsChatSession {
                        phase: SessionPhase::Closing,
                        ..self
                    },
                    WsFrame::Nop => self,
                },
            }
        }
    }

    /// How many local acknowledgements `m` asks for: one exactly when it
    /// carries a client message id.
    pub open spec fn ack_count(m: ChatMessage) -> int {
        if m.message_id is Some {
            1
        } else {
            0
        }
    }

    /// Whether `r` ends with the acknowledgement owed for `m`: the echo of
    /// its message id, emitted locally and unconditionally on receipt,
    /// independent of any routed delivery.
    pub open spec fn acked(m: ChatMessage, r: Seq<SessionAction>) -> bool {
        match m.message_id {
            Some(mid) => r.len() >= 1 && r.last() == SessionAction::Reply(ack_envelope(mid)),
            None => true,
        }
    }

    /// The dispatch contract for a decoded envelope: the routing intent the
    /// hub receives for each message kind, stamped with this session's
    /// identity, followed by the acknowledgement where one is owed.  An
    /// inbound acknowledgement kind routes nothing.
    pub open spec fn dispatched(self, m: ChatMessage, r: Seq<SessionAction>) -> bool {
        match m.style {
            ChatMessageType::OneToOne(t) => {
                &&& r.len() == 1 + Self::ack_count(m)
                &&& (r[0] matches SessionAction::ToHub(HubIntent::P2P(p)) && p.id == self.user
                    && p.other_id == t && carries_content(m.content, p.msg))
                &&& Self::acked(m, r)
            },
            ChatMessageType::RoomMessage(rn) => {
                &&& r.len() == 1 + Self::ack_count(m)
                &&& (r[0] matches SessionAction::ToHub(HubIntent::Room(p)) && p.id == self.user
                    && p.room == rn && carries_content(m.content, p.msg))
                &&& Self::acked(m, r)
            },
            ChatMessageType::Broadcast => {
                &&& r.len() == 1 + Self::ack_count(m)
                &&& (r[0] matches SessionAction::ToHub(HubIntent::Broadcast(p)) && p.id
                    == self.user && carries_content(m.content, p.msg))
                &&& Self::acked(m, r)
            },
            ChatMessageType::Join(rn) => {
                &&& r.len() == 1 + Self::ack_count(m)
                &&& (r[0] matches SessionAction::ToHub(HubIntent::JoinRoom(p)) && p.id == self.id
                    && p.name == rn)
                &&& Self::acked(m, r)
            },
            ChatMessageType::Ack => {
                &&& r.len() == Self::ack_count(m)
                &&& Self::acked(m, r)
            },
        }
    }

    /// The actions contract for one inbound transport event: a ping is
    /// answered in kind, a decoded envelope is dispatched, a close frame, a
    /// protocol error and an undecodable or binary frame act as
    /// `handle_next` describes, with `Stop` exactly where the session moves
    /// to `Closing`.
    pub open spec fn handle_actions_ok(
        self,
        msg: Result<WsFrame, ProtocolFailure>,
        r: Seq<SessionAction>,
    ) -> bool {
        if !self.is_open() {
            r == Seq::<SessionAction>::empty()
        } else {
            match msg {
                Err(_) => r == seq![SessionAction::Stop],
                Ok(f) => match f {
                    WsFrame::Ping(p) => r == seq![SessionAction::Pong(p)],
                    WsFrame::Pong => r == Seq::<SessionAction>::empty(),
                    WsFrame::Text(None) => r == Seq::<SessionAction>::empty(),
                    WsFrame::Text(Some(m)) => self.dispatched(m, r),
                    WsFrame::Binary => r == Seq::<SessionAction>::empty(),
                    WsFrame::Close => r == seq![SessionAction::Stop],
                    WsFrame::Continuation => r == seq![SessionAction::Stop],
                    WsFrame::Nop => r == Seq::<SessionAction>::empty(),
                },
            }
        }
    }

    /// The state after a heartbeat tick.
    pub open spec fn hb_next(self, now: u64) -> WsChatSession {
        if self.is_ticking() && now - self.hb > CLIENT_TIMEOUT {
            WsChatSession { phase: SessionPhase::Closing, ..self }
        } else {
            self
        }
    }

    /// What a heartbeat tick asks for: `Stop` once the liveness deadline
    /// has passed, a ping otherwise, nothing when already shutting down.
    pub open spec fn hb_action(self, now: u64) -> HbAction {
        if !self.is_ticking() {
            HbAction::Idle
        } else if now - self.hb > CLIENT_TIMEOUT {
            HbAction::Stop
        } else {
            HbAction::Ping
        }
    }

    /// The state after the session has reported its shutdown.
    pub open spec fn stopping_next(self) -> WsChatSession {
        WsChatSession { phase: SessionPhase::Closed, ..self }
    }

    /// What shutdown reports to the hub: the one `Disconnect` for this
    /// connection, and nothing on any later call.
    pub open spec fn stopping_result(self) -> Option<Disconnect> {
        if self.phase is Closed {
            None
        } else {
            Some(Disconnect { id: self.id })
        }
    }

    /// Entry into the actor: hands the hub the `Connect` registration for
    /// this session's identity.  The session stays in `Connecting` until
    /// the hub replies.
    pub fn started(&mut self) -> (c: Connect)
        requires
            old(self).phase is Connecting,
        ensures
            *final(self) == *old(self),
            c == (Connect { name: old(self).user }),
    {
        let name = self.user.clone();
        Connect { name }
    }

    /// The hub's reply to `Connect`: the allocated id opens the session; an
    /// unreachable hub (no reply) is fatal for this session alone, which
    /// then closes itself.
    pub fn connect_ack(&mut self, reply: Option<usize>) -> (stop: bool)
        requires
            old(self).phase is Connecting,
        ensures
            match reply {
                Some(id) => !stop && *final(self) == (WsChatSession {
                    id,
                    phase: SessionPhase::Open,
                    ..*old(self)
                }),
                None => stop && *final(self) == (WsChatSession {
                    phase: SessionPhase::Closing,
                    ..*old(self)
                }),
            },
    {
        match reply {
            Some(id) => {
                self.id = id;
                self.phase = SessionPhase::Open;
                false
            },
            None => {
                self.phase = SessionPhase::Closing;
                true
            },
        }
    }

    /// One inbound transport event, against the clock reading `now`:
    /// updates the liveness deadline and the lifecycle as `handle_next`
    /// says, and returns the actions to perform, as `handle_actions_ok`
    /// says.  Events reaching a session that is not open are ignored.
    pub fn handle(&mut self, msg: Result<WsFrame, ProtocolFailure>, now: u64) -> (r: Vec<
        SessionAction,
    >)
        ensures
            *final(self) == old(self).handle_next(msg, now),
            old(self).handle_actions_ok(msg, r@),
    {
        let mut r: Vec<SessionAction> = Vec::new();
        let open = match self.phase {
            SessionPhase::Open => true,
            _ => false,
        };
        if !open {
            proof {
                assert(r@ =~= Seq::<SessionAction>::empty());
            }
            return r;
        }
        match msg {
            Err(_) => {
                self.phase = SessionPhase::Closing;
                r.push(SessionAction::Stop);
                proof {
                    assert(r@ =~= seq![SessionAction::Stop]);
                }
            },
            Ok(f) => match f {
                WsFrame::Ping(p) => {
                    self.hb = now;
                    let ghost pv = p;
                    r.push(SessionAction::Pong(p));
                    proof {
                        assert(r@ =~= seq![SessionAction::Pong(pv)]);
                    }
                },
                WsFrame::Pong => {
                    self.hb = now;
                    proof {
                        assert(r@ =~= Seq::<SessionAction>::empty());
                    }
                },
                WsFrame::Text(None) => {
                    self.hb = now;
                    proof {
                        assert(r@ =~= Seq::<SessionAction>::empty());
                    }
                },
                WsFrame::Text(Some(m)) => {
                    self.hb = now;
                    let ChatMessage { from: _, style, content, message_id } = m;
                    let text = match content {
                        Some(c) => c,
                        None => String::new(),
                    };
                    match style {
                        ChatMessageType::OneToOne(t) => {
                            let id = self.user.clone();
                            r.push(
                                SessionAction::ToHub(
                                    HubIntent::P2P(P2PMessage { id, msg: text, other_id: t }),
                                ),
                            );
                        },
                        ChatMessageType::RoomMessage(rn) => {
                            let id = self.user.clone();
                            r.push(
                                SessionAction::ToHub(
                                    HubIntent::Room(StrRoomMessage { id, msg: text, room: rn }),
                                ),
                            );
                        },
                        ChatMessageType::Broadcast => {
                            let id = self.user.clone();
                            r.push(
                                SessionAction::ToHub(
                                    HubIntent::Broadcast(BoardcastMessage { id, msg: text }),
                                ),
                            );
                        },
                        ChatMessageType::Join(rn) => {
                            r.push(
                                SessionAction::ToHub(
                                    HubIntent::JoinRoom(Join { id: self.id, name: rn }),
                                ),
                            );
                        },
                        ChatMessageType::Ack => {},
                    }
                    match message_id {
                        Some(mid) => {
                            r.push(SessionAction::Reply(ChatMessage::ack(mid)));
                        },
                        None => {},
                    }
                },
                WsFrame::Binary => {
                    self.hb = now;
                    proof {
                        assert(r@ =~= Seq::<SessionAction>::empty());
                    }
                },
                WsFrame::Close => {
                    self.phase = SessionPhase::Closing;
                    r.push(SessionAction::Stop);
                    proof {
                        assert(r@ =~= seq![SessionAction::Stop]);
                    }
                },
                WsFrame::Continuation => {
                    self.phase = SessionPhase::Closing;
                    r.push(SessionAction::Stop);
                    proof {
                        assert(r@ =~= seq![SessionAction::Stop]);
                    }
                },
                WsFrame::Nop => {
                    proof {
                        assert(r@ =~= Seq::<SessionAction>::empty());
                    }
                },
            },
        }
        r
    }

    /// One heartbeat timer tick against the clock reading `now` (the clock
    /// is monotone, so it is never behind the last liveness reset): asks
    /// for a ping while the connection is live, and for shutdown once it
    /// has been silent longer than `CLIENT_TIMEOUT`.
    pub fn hb(&mut self, now: u64) -> (a: HbAction)
        requires
            old(self).hb <= now,
        ensures
            *final(self) == old(self).hb_next(now),
            a == old(self).hb_action(now),
    {
        let ticking = match self.phase {
            SessionPhase::Connecting => true,
            SessionPhase::Open => true,
            _ => false,
        };
        if !ticking {
            HbAction::Idle
        } else if now - self.hb > CLIENT_TIMEOUT {
            self.phase = SessionPhase::Closing;
            HbAction::Stop
        } else {
            HbAction::Ping
        }
    }

    /// Leaves the actor: reports this connection's `Disconnect` to the hub
    /// the first time it is called, and never again — however the shutdown
    /// began, the hub hears of it exactly once.
    pub fn stopping(&mut self) -> (d: Option<Disconnect>)
        ensures
            *final(self) == old(self).stopping_next(),
            d == old(self).stopping_result(),
    {
        let was_closed = match self.phase {
            SessionPhase::Closed => true,
            _ => false,
        };
        self.phase = SessionPhase::Closed;
        if was_closed {
            None
        } else {
            Some(Disconnect { id: self.id })
        }
    }
}

/// The handshake decision: a connection whose token the identity verifier
/// accepted gets a fresh session in `Connecting`; one it refused gets no
/// session at all and is turned away as unauthorized.
pub fn admit_connection(auth: Result<String, ()>, token: String, now: u64) -> (r: Result<
    WsChatSession,
    (),
>)
    ensures
        match auth {
            Ok(user) => r == Ok::<WsChatSession, ()>(
                WsChatSession {
                    id: 0,
                    hb: now,
                    token,
                    user,
                    phase: SessionPhase::Connecting,
                },
            ),
            Err(_) => r is Err,
        },
{
    match auth {
        Ok(user) => Ok(
            WsChatSession { id: 0, hb: now, token, user, phase: SessionPhase::Connecting },
        ),
        Err(_) => Err(()),
    }
}

// ------------------------------------------------------------------
// Laws about the session machine.

/// A recursive count of the local acknowledgements of `mid` among the
/// actions `r`.
pub open spec fn count_acks(r: Seq<SessionAction>, mid: String) -> int
    decreases r.len(),
{
    if r.len() == 0 {
        0
    } else {
        count_acks(r.drop_last(), mid) + if is_ack_reply(r.last(), mid) {
            1int
        } else {
            0int
        }
    }
}

/// A client message that carries a message id produces exactly one local
/// acknowledgement echoing that id, whatever its kind — before, and
/// independent of, any routed delivery.
pub proof fn lemma_ack_exactly_once(
    s: WsChatSession,
    m: ChatMessage,
    r: Seq<SessionAction>,
    mid: String,
)
    requires
        s.dispatched(m, r),
        m.message_id == Some(mid),
    ensures
        count_acks(r, mid) == 1,
{
    assert(r.last() == SessionAction::Reply(ack_envelope(mid)));
    assert(count_acks(r, mid) == count_acks(r.drop_last(), mid) + 1);
    let head = r.drop_last();
    match m.style {
        ChatMessageType::Ack => {
            assert(head.len() == 0);
        },
        _ => {
            assert(head.len() == 1);
            assert(head[0] == r[0]);
            assert(!is_ack_reply(head.last(), mid));
            assert(count_acks(head, mid) == count_acks(head.drop_last(), mid));
            assert(head.drop_last().len() == 0);
        },
    }
}

/// A client message without a message id produces no local
/// acknowledgement of any id.
pub proof fn lemma_no_ack_without_id(
    s: WsChatSession,
    m: ChatMessage,
    r: Seq<SessionAction>,
    mid: String,
)
    requires
        s.dispatched(m, r),
        m.message_id is None,
    ensures
        count_acks(r, mid) == 0,
{
    match m.style {
        ChatMessageType::Ack => {
            assert(r.len() == 0);
        },
        _ => {
            assert(r.len() == 1);
            assert(!is_ack_reply(r.last(), mid));
            assert(count_acks(r, mid) == count_acks(r.drop_last(), mid));
            assert(r.drop_last().len() == 0);
        },
    }
}

/// A connection that stays silent past the liveness deadline is closed and
/// reports exactly one `Disconnect`: the expired tick asks for `Stop`, the
/// shutdown hands the hub `Disconnect` once, and every later shutdown call
/// hands it nothing.
pub proof fn lemma_timeout_disconnects_once(s: WsChatSession, now: u64)
    requires
        s.is_open(),
        s.hb <= now,
        now - s.hb > CLIENT_TIMEOUT,
    ensures
        s.hb_action(now) == HbAction::Stop,
        s.hb_next(now).stopping_result() == Some(Disconnect { id: s.id }),
        s.hb_next(now).stopping_next().stopping_result() is None,
{
}

} // verus!
