//! The per-connection protocol state machine.
//!
//! The dispatcher interleaves three event sources — inbound decoded
//! packets, application handler outcomes, and timer expiry — into one
//! session state. Each entry point takes the decoded event and the
//! current clock tick and returns the list of actions the caller must
//! perform: packets to encode and send, handlers to invoke, pending sink
//! outcomes to resolve, and the transport close. The caller runs the
//! event loop and the asynchronous plumbing; every decision is made here.

use vstd::prelude::*;

use crate::cell::{
    InboundExchange, OutboundExchange, OutboundState, SessionState, deadline_after,
    has_inbound_id, spec_deadline_after,
};
use crate::packets::{
    AckReason, CloseReason, ConnectPacket, ConnectReason, ControlPacket, ControlResult,
    HandlerOutcome, OutPacket, ProtocolVersion, PublishPacket, QoS, publish_wf,
    spec_ack_reason, ack_reason,
};
use crate::sink::SinkOutcome;
use crate::subs::copy_bytes;

verus! {

/// Lifecycle of one connection.
#[derive(Clone, Copy, PartialEq, Eq, Structural, Debug)]
pub enum DispatchState {
    /// Nothing received yet; only a connection request is valid.
    AwaitingConnect,
    /// The connection request was handed to the Connect handler.
    ConnectPending,
    /// The handshake succeeded; the steady-state loop is running.
    Established,
    /// Teardown was triggered; the transport is about to close.
    Closing,
    /// The transport is closed and the session is released.
    Closed,
}

/// One unit of work the engine asks its caller to perform.
#[derive(Debug)]
pub enum Action {
    /// Encode this packet and write it to the transport.
    Send(OutPacket),
    /// Invoke the application's Connect handler on this request.
    InvokeConnectHandler(ConnectPacket),
    /// Invoke the application's Publish handler on this publish.
    InvokePublishHandler(PublishPacket),
    /// Invoke the application's Control handler on this packet.
    InvokeControlHandler(ControlPacket),
    /// Resolve the pending sink publish registered under this id.
    ResolvePublish { id: u16, outcome: SinkOutcome },
    /// Close the transport; the caller reports back through
    /// [`Dispatcher::on_transport_closed`].
    CloseTransport,
}

/// Outcome of the application's Connect handler.
#[derive(Clone, Copy, PartialEq, Eq, Structural, Debug)]
pub enum ConnectOutcome {
    /// Accept the connection with the negotiated parameters.
    Accept { session_present: bool, keep_alive: u16, max_inflight: u16 },
    /// Reject the connection with this reason.
    Reject { reason: ConnectReason },
}

/// What the engine keeps of a connection request while the Connect
/// handler runs.
pub struct PendingConnect {
    pub version: ProtocolVersion,
    pub client_id: Vec<u8>,
}

/// The per-connection protocol state machine.
pub struct Dispatcher {
    /// Current lifecycle state.
    pub state: DispatchState,
    /// Kept between the connection request and the handler's outcome.
    pub pending_connect: Option<PendingConnect>,
    /// The session, created on handshake acceptance.
    pub session: Option<SessionState>,
    /// Why the connection left the established state, once it has.
    pub close_reason: Option<CloseReason>,
    /// Instant when an incomplete handshake becomes fatal.
    pub handshake_deadline: u64,
}

impl Dispatcher {
    /// Well-formed dispatcher: the session exists exactly from
    /// acceptance on, a close reason exists exactly from teardown on,
    /// and the session state is itself well formed.
    pub open spec fn wf(self) -> bool {
        &&& (self.session matches Some(s) ==> s.wf())
        &&& (self.state is AwaitingConnect ==> self.session is None && self.pending_connect
            is None)
        &&& (self.state is ConnectPending ==> self.session is None && self.pending_connect
            is Some)
        &&& (self.state is Established ==> self.session is Some && self.pending_connect is None)
        &&& (self.state is Established ==> (self.session matches Some(s) && !s.closed))
        &&& ((self.state is Closing || self.state is Closed) <==> self.close_reason is Some)
        &&& (self.state is Closed ==> (self.session matches Some(s) ==> s.closed))
    }

    /// A dispatcher for a fresh connection, awaiting its connection
    /// request until the given instant.
    pub fn new(handshake_deadline: u64) -> (r: Dispatcher)
        ensures
            r.wf(),
            r.state == DispatchState::AwaitingConnect,
            r.session is None,
            r.pending_connect is None,
            r.close_reason is None,
            r.handshake_deadline == handshake_deadline,
    {
        Dispatcher {
            state: DispatchState::AwaitingConnect,
            pending_connect: None,
            session: None,
            close_reason: None,
            handshake_deadline,
        }
    }

    /// Trigger teardown with a reason. The first trigger transitions to
    /// `Closing` and emits the closing writes; once teardown has begun,
    /// further triggers are no-ops, so concurrent close sources (timer,
    /// peer disconnect, application) produce exactly one teardown.
    pub fn close(&mut self, reason: CloseReason) -> (acts: Vec<Action>)
        requires
            old(self).wf(),
        ensures
            final(self).wf(),
            old(self).state is Closing || old(self).state is Closed ==> *final(self) == *old(self)
                && acts@.len() == 0,
            !(old(self).state is Closing || old(self).state is Closed) ==> {
                &&& final(self).state is Closing
                &&& final(self).close_reason == Some(reason)
                &&& final(self).session == old(self).session
                &&& final(self).pending_connect == old(self).pending_connect
                &&& final(self).handshake_deadline == old(self).handshake_deadline
            },
            !(old(self).state is Closing || old(self).state is Closed) && (old(
                self,
            ).session matches Some(s) && s.version == ProtocolVersion::V5) ==> acts@ == seq![
                Action::Send(OutPacket::Disconnect { reason }),
                Action::CloseTransport,
            ],
            !(old(self).state is Closing || old(self).state is Closed) && !(old(
                self,
            ).session matches Some(s) && s.version == ProtocolVersion::V5) ==> acts@ == seq![
                Action::CloseTransport,
            ],
    {
        match self.state {
            DispatchState::Closing | DispatchState::Closed => Vec::new(),
            _ => {
                self.state = DispatchState::Closing;
                self.close_reason = Some(reason);
                let mut acts: Vec<Action> = Vec::new();
                let v5 = match &self.session {
                    Some(s) => matches!(s.version, ProtocolVersion::V5),
                    None => false,
                };
                if v5 {
                    acts.push(Action::Send(OutPacket::Disconnect { reason }));
                    acts.push(Action::CloseTransport);
                    proof {
                        assert(acts@ =~= seq![
                            Action::Send(OutPacket::Disconnect { reason }),
                            Action::CloseTransport,
                        ]);
                    }
                } else {
                    acts.push(Action::CloseTransport);
                    proof {
                        assert(acts@ =~= seq![Action::CloseTransport]);
                    }
                }
                acts
            },
        }
    }

    /// The transport is gone: release the session, resolve every pending
    /// outbound exchange as closed, and reach the terminal state. Safe to
    /// report more than once; only the first report tears down.
    pub fn on_transport_closed(&mut self) -> (acts: Vec<Action>)
        requires
            old(self).wf(),
        ensures
            final(self).wf(),
            final(self).state is Closed,
            old(self).state is Closed ==> *final(self) == *old(self) && acts@.len() == 0,
            !(old(self).state is Closed) ==> {
                &&& final(self).close_reason == (if old(self).close_reason is Some {
                    old(self).close_reason
                } else {
                    Some(CloseReason::TransportError)
                })
                &&& (old(self).session is None ==> final(self).session is None && acts@.len()
                    == 0)
            },
            !(old(self).state is Closed) ==> (old(self).session matches Some(s) ==> {
                &&& final(self).session matches Some(s2) && s2.closed && s2.outbound@.len() == 0
                    && s2.inbound@.len() == 0 && s2.subs == s.subs && s2.version == s.version
                &&& acts@ == s.outbound@.map_values(
                    |e: OutboundExchange|
                        (Action::ResolvePublish { id: e.id, outcome: SinkOutcome::SessionClosed }),
                )
            }),
    {
        match self.state {
            DispatchState::Closed => Vec::new(),
            _ => {
                if self.close_reason.is_none() {
                    self.close_reason = Some(CloseReason::TransportError);
                }
                self.state = DispatchState::Closed;
                let mut pending: Vec<u16> = Vec::new();
                let ghost mut had_session = false;
                match &mut self.session {
                    Some(s) => {
                        pending = s.release_all();
                        proof {
                            had_session = true;
                        }
                    },
                    None => {},
                }
                let mut acts: Vec<Action> = Vec::new();
                let mut k: usize = 0;
                proof {
                    assert(acts@ =~= pending@.map_values(
                        |id: u16|
                            (Action::ResolvePublish { id, outcome: SinkOutcome::SessionClosed }),
                    ).take(0));
                }
                while k < pending.len()
                    invariant
                        0 <= k <= pending@.len(),
                        acts@ == pending@.map_values(
                            |id: u16|
                                (Action::ResolvePublish {
                                    id,
                                    outcome: SinkOutcome::SessionClosed,
                                }),
                        ).take(k as int),
                    decreases pending@.len() - k,
                {
                    let ghost m = pending@.map_values(
                        |id: u16| (Action::ResolvePublish { id, outcome: SinkOutcome::SessionClosed }),
                    );
                    acts.push(Action::ResolvePublish {
                        id: pending[k],
                        outcome: SinkOutcome::SessionClosed,
                    });
                    proof {
                        assert(m.take(k + 1 as int) =~= m.take(k as int).push(m[k as int]));
                    }
                    k += 1;
                }
                proof {
                    let m = pending@.map_values(
                        |id: u16| (Action::ResolvePublish { id, outcome: SinkOutcome::SessionClosed }),
                    );
                    assert(m.take(m.len() as int) =~= m);
                    match old(self).session {
                        Some(s) => {
                            assert(acts@ =~= s.outbound@.map_values(
                                |e: OutboundExchange|
                                    (Action::ResolvePublish {
                                        id: e.id,
                                        outcome: SinkOutcome::SessionClosed,
                                    }),
                            ));
                        },
                        None => {},
                    }
                }
                acts
            },
        }
    }

    /// The codec failed to decode the inbound stream: fatal for this
    /// connection. While the stream is still framable a protocol-level
    /// error response can precede the close; otherwise the transport is
    /// closed silently.
    pub fn on_decode_error(&mut self, framable: bool) -> (acts: Vec<Action>)
        requires
            old(self).wf(),
        ensures
            final(self).wf(),
            old(self).state is Closing || old(self).state is Closed ==> *final(self) == *old(self)
                && acts@.len() == 0,
            !(old(self).state is Closing || old(self).state is Closed) ==> {
                &&& final(self).state is Closing
                &&& final(self).close_reason == Some(CloseReason::DecodeError)
                &&& final(self).session == old(self).session
            },
            !(old(self).state is Closing || old(self).state is Closed) && framable && (old(
                self,
            ).session matches Some(s) && s.version == ProtocolVersion::V5) ==> acts@ == seq![
                Action::Send(OutPacket::Disconnect { reason: CloseReason::DecodeError }),
                Action::CloseTransport,
            ],
            !(old(self).state is Closing || old(self).state is Closed) && !(framable && (old(
                self,
            ).session matches Some(s) && s.version == ProtocolVersion::V5)) ==> acts@ == seq![
                Action::CloseTransport,
            ],
    {
        if framable {
            self.close(CloseReason::DecodeError)
        } else {
            match self.state {
                DispatchState::Closing | DispatchState::Closed => Vec::new(),
                _ => {
                    self.state = DispatchState::Closing;
                    self.close_reason = Some(CloseReason::DecodeError);
                    let mut acts: Vec<Action> = Vec::new();
                    acts.push(Action::CloseTransport);
                    proof {
                        assert(acts@ =~= seq![Action::CloseTransport]);
                    }
                    acts
                },
            }
        }
    }

    /// Timer tick. An incomplete handshake past its deadline, or an
    /// established session silent past its keep-alive deadline, triggers
    /// teardown with the corresponding reason; otherwise nothing happens.
    pub fn on_timer(&mut self, now: u64) -> (acts: Vec<Action>)
        requires
            old(self).wf(),
        ensures
            final(self).wf(),
            (old(self).state is AwaitingConnect || old(self).state is ConnectPending) && now >= old(
                self,
            ).handshake_deadline ==> final(self).state is Closing && final(self).close_reason
                == Some(CloseReason::HandshakeTimeout) && acts@ == seq![Action::CloseTransport],
            (old(self).state is AwaitingConnect || old(self).state is ConnectPending) && now < old(
                self,
            ).handshake_deadline ==> *final(self) == *old(self) && acts@.len() == 0,
            old(self).state is Established ==> (old(self).session matches Some(s) ==> {
                &&& (s.keep_alive > 0 && now >= s.deadline ==> {
                    &&& final(self).state is Closing
                    &&& final(self).close_reason == Some(CloseReason::KeepAliveTimeout)
                    &&& final(self).session == old(self).session
                    &&& (s.version == ProtocolVersion::V5 ==> acts@ == seq![
                        Action::Send(
                            OutPacket::Disconnect { reason: CloseReason::KeepAliveTimeout },
                        ),
                        Action::CloseTransport,
                    ])
                    &&& (s.version == ProtocolVersion::V3 ==> acts@ == seq![
                        Action::CloseTransport,
                    ])
                })
                &&& (!(s.keep_alive > 0 && now >= s.deadline) ==> *final(self) == *old(self)
                    && acts@.len() == 0)
            }),
            old(self).state is Closing || old(self).state is Closed ==> *final(self) == *old(self)
                && acts@.len() == 0,
    {
        match self.state {
            DispatchState::AwaitingConnect | DispatchState::ConnectPending => {
                if now >= self.handshake_deadline {
                    self.close(CloseReason::HandshakeTimeout)
                } else {
                    Vec::new()
                }
            },
            DispatchState::Established => {
                let expired = match &self.session {
                    Some(s) => s.keep_alive > 0 && now >= s.deadline,
                    None => false,
                };
                if expired {
                    self.close(CloseReason::KeepAliveTimeout)
                } else {
                    Vec::new()
                }
            },
            DispatchState::Closing | DispatchState::Closed => Vec::new(),
        }
    }

    /// A connection request arrived. In the initial state it is handed
    /// to the Connect handler; in any later live state it is a protocol
    /// violation that tears the connection down.
    pub fn on_connect(&mut self, c: ConnectPacket, now: u64) -> (acts: Vec<Action>)
        requires
            old(self).wf(),
        ensures
            final(self).wf(),
            old(self).state is AwaitingConnect ==> {
                &&& final(self).state is ConnectPending
                &&& final(self).session is None
                &&& final(self).pending_connect matches Some(pc) && pc.version == c.version
                    && pc.client_id@ == c.client_id@
                &&& acts@ == seq![Action::InvokeConnectHandler(c)]
            },
            old(self).state is ConnectPending || old(self).state is Established ==> {
                &&& final(self).state is Closing
                &&& final(self).close_reason == Some(CloseReason::ProtocolViolation)
            },
            old(self).state is Closing || old(self).state is Closed ==> *final(self) == *old(self)
                && acts@.len() == 0,
    {
        match self.state {
            DispatchState::AwaitingConnect => {
                let version = c.version;
                let client_id = copy_bytes(c.client_id.as_slice());
                self.pending_connect = Some(PendingConnect { version, client_id });
                self.state = DispatchState::ConnectPending;
                let mut acts: Vec<Action> = Vec::new();
                acts.push(Action::InvokeConnectHandler(c));
                proof {
                    assert(acts@ =~= seq![Action::InvokeConnectHandler(c)]);
                }
                acts
            },
            DispatchState::ConnectPending | DispatchState::Established => {
                self.close(CloseReason::ProtocolViolation)
            },
            DispatchState::Closing | DispatchState::Closed => Vec::new(),
        }
    }

    /// The Connect handler's outcome. Acceptance creates the session
    /// with the negotiated parameters and acknowledges positively;
    /// rejection acknowledges with exactly the handler's reason, creates
    /// no session, and tears the connection down.
    pub fn on_connect_result(&mut self, outcome: ConnectOutcome, now: u64) -> (acts: Vec<Action>)
        requires
            old(self).wf(),
            outcome matches ConnectOutcome::Reject { reason } ==> reason
                != ConnectReason::Accepted,
        ensures
            final(self).wf(),
            !(old(self).state is ConnectPending) ==> *final(self) == *old(self) && acts@.len()
                == 0,
            old(self).state is ConnectPending ==> (outcome matches ConnectOutcome::Accept {
                session_present,
                keep_alive,
                max_inflight,
            } ==> {
                &&& final(self).state is Established
                &&& final(self).close_reason is None
                &&& final(self).session matches Some(s) && (old(self).pending_connect matches Some(
                    pc,
                ) ==> {
                    &&& s.wf()
                    &&& !s.closed
                    &&& s.version == pc.version
                    &&& s.client_id@ == pc.client_id@
                    &&& s.keep_alive == keep_alive
                    &&& s.session_present == session_present
                    &&& s.max_inflight == max_inflight
                    &&& s.deadline == spec_deadline_after(now, keep_alive)
                    &&& s.next_id == 1
                    &&& s.outbound@.len() == 0
                    &&& s.inbound@.len() == 0
                    &&& s.subs@.len() == 0
                })
                &&& acts@ == seq![
                    Action::Send(
                        OutPacket::ConnAck { session_present, reason: ConnectReason::Accepted },
                    ),
                ]
            }),
            old(self).state is ConnectPending ==> (outcome matches ConnectOutcome::Reject {
                reason,
            } ==> {
                &&& final(self).state is Closing
                &&& final(self).close_reason == Some(CloseReason::HandshakeRejected)
                &&& final(self).session is None
                &&& acts@ == seq![
                    Action::Send(OutPacket::ConnAck { session_present: false, reason }),
                    Action::CloseTransport,
                ]
            }),
    {
        match self.state {
            DispatchState::ConnectPending => {
                let mut taken: Option<PendingConnect> = None;
                core::mem::swap(&mut taken, &mut self.pending_connect);
                match taken {
                    Some(pc) => {
                        match outcome {
                            ConnectOutcome::Accept { session_present, keep_alive, max_inflight } => {
                                let deadline = deadline_after(now, keep_alive);
                                let s = SessionState::new(
                                    pc.version,
                                    pc.client_id,
                                    keep_alive,
                                    session_present,
                                    max_inflight,
                                    deadline,
                                );
                                self.session = Some(s);
                                self.state = DispatchState::Established;
                                let mut acts: Vec<Action> = Vec::new();
                                acts.push(
                                    Action::Send(
                                        OutPacket::ConnAck {
                                            session_present,
                                            reason: ConnectReason::Accepted,
                                        },
                                    ),
                                );
                                proof {
                                    assert(acts@ =~= seq![
                                        Action::Send(
                                            OutPacket::ConnAck {
                                                session_present,
                                                reason: ConnectReason::Accepted,
                                            },
                                        ),
                                    ]);
                                }
                                acts
                            },
                            ConnectOutcome::Reject { reason } => {
                                self.state = DispatchState::Closing;
                                self.close_reason = Some(CloseReason::HandshakeRejected);
                                let mut acts: Vec<Action> = Vec::new();
                                acts.push(
                                    Action::Send(
                                        OutPacket::ConnAck { session_present: false, reason },
                                    ),
                                );
                                acts.push(Action::CloseTransport);
                                proof {
                                    assert(acts@ =~= seq![
                                        Action::Send(
                                            OutPacket::ConnAck { session_present: false, reason },
                                        ),
                                        Action::CloseTransport,
                                    ]);
                                }
                                acts
                            },
                        }
                    },
                    None => {
                        proof {
                            assert(false);
                        }
                        Vec::new()
                    },
                }
            },
            _ => Vec::new(),
        }
    }
}

/// A session state with only its keep-alive deadline changed.
pub open spec fn with_deadline(s: SessionState, d: u64) -> SessionState {
    SessionState { deadline: d, ..s }
}

impl Dispatcher {
    /// An inbound publish arrived. QoS0 and QoS1 publishes go straight
    /// to the Publish handler (the caller then reports the outcome
    /// through [`Dispatcher::on_publish_result`]). A QoS2 publish is
    /// recorded as an inbound exchange and acknowledged with a
    /// receive-acknowledgment; the handler is *not* invoked until the
    /// release arrives, and a retransmission of an outstanding exchange
    /// is acknowledged again without touching the handler or the table.
    pub fn on_publish(&mut self, p: PublishPacket, now: u64) -> (acts: Vec<Action>)
        requires
            old(self).wf(),
        ensures
            final(self).wf(),
            old(self).state is AwaitingConnect || old(self).state is ConnectPending
                ==> final(self).state is Closing && final(self).close_reason == Some(
                CloseReason::ProtocolViolation,
            ),
            old(self).state is Closing || old(self).state is Closed ==> *final(self) == *old(self)
                && acts@.len() == 0,
            old(self).state is Established ==> (old(self).session matches Some(s) ==> {
                &&& (!publish_wf(p) ==> final(self).state is Closing && final(self).close_reason
                    == Some(CloseReason::ProtocolViolation))
                &&& (publish_wf(p) ==> {
                    &&& final(self).state is Established
                    &&& final(self).session matches Some(s2) && {
                        &&& s2.deadline == spec_deadline_after(now, s.keep_alive)
                        &&& s2.outbound@ == s.outbound@
                        &&& s2.subs == s.subs
                        &&& s2.next_id == s.next_id
                        &&& s2.closed == s.closed
                        &&& s2.version == s.version
                        &&& s2.keep_alive == s.keep_alive
                        &&& s2.max_inflight == s.max_inflight
                        &&& s2.client_id@ == s.client_id@
                        &&& (p.qos != QoS::ExactlyOnce ==> s2.inbound@ == s.inbound@ && acts@
                            == seq![Action::InvokePublishHandler(p)])
                        &&& (p.qos == QoS::ExactlyOnce ==> forall|k: int|
                            0 <= k < acts@.len() ==> !((#[trigger] acts@[k])
                                is InvokePublishHandler))
                        &&& (p.qos == QoS::ExactlyOnce ==> (p.id matches Some(id) ==> {
                            &&& acts@ == seq![
                                Action::Send(
                                    OutPacket::PubRec { id, reason: AckReason::Success },
                                ),
                            ]
                            &&& (has_inbound_id(s.inbound@, id) ==> s2.inbound@ == s.inbound@)
                            &&& (!has_inbound_id(s.inbound@, id) ==> s2.inbound@
                                == s.inbound@.push((InboundExchange { id, publish: p })))
                        }))
                    }
                })
            }),
    {
        match self.state {
            DispatchState::AwaitingConnect | DispatchState::ConnectPending => {
                self.close(CloseReason::ProtocolViolation)
            },
            DispatchState::Closing | DispatchState::Closed => Vec::new(),
            DispatchState::Established => {
                let wf_ok = match p.id {
                    Some(id) => !matches!(p.qos, QoS::AtMostOnce) && id >= 1,
                    None => matches!(p.qos, QoS::AtMostOnce),
                };
                if !wf_ok {
                    return self.close(CloseReason::ProtocolViolation);
                }
                match &mut self.session {
                    Some(s) => {
                        s.deadline = deadline_after(now, s.keep_alive);
                        if matches!(p.qos, QoS::ExactlyOnce) {
                            let id = match p.id {
                                Some(id) => id,
                                None => {
                                    proof {
                                        assert(false);
                                    }
                                    1
                                },
                            };
                            if !s.has_inbound(id) {
                                s.register_inbound(id, p);
                            }
                            let mut acts: Vec<Action> = Vec::new();
                            acts.push(
                                Action::Send(OutPacket::PubRec { id, reason: AckReason::Success }),
                            );
                            proof {
                                assert(acts@ =~= seq![
                                    Action::Send(
                                        OutPacket::PubRec { id, reason: AckReason::Success },
                                    ),
                                ]);
                            }
                            acts
                        } else {
                            let mut acts: Vec<Action> = Vec::new();
                            acts.push(Action::InvokePublishHandler(p));
                            proof {
                                assert(acts@ =~= seq![Action::InvokePublishHandler(p)]);
                            }
                            acts
                        }
                    },
                    None => {
                        proof {
                            assert(false);
                        }
                        Vec::new()
                    },
                }
            },
        }
    }

    /// The Publish handler finished for an inbound publish. A QoS1
    /// publish is acknowledged positively on success and with the
    /// failure reason on failure; a QoS2 publish gets its final
    /// complete-acknowledgment the same way; a QoS0 publish has no
    /// acknowledgment, so a handler error stays local.
    pub fn on_publish_result(
        &mut self,
        id: Option<u16>,
        qos: QoS,
        outcome: HandlerOutcome,
        now: u64,
    ) -> (acts: Vec<Action>)
        requires
            old(self).wf(),
        ensures
            final(self).wf(),
            !(old(self).state is Established) ==> *final(self) == *old(self) && acts@.len() == 0,
            old(self).state is Established ==> (old(self).session matches Some(s) ==> {
                &&& final(self).state is Established
                &&& final(self).session matches Some(s2) && s2 == with_deadline(
                    s,
                    spec_deadline_after(now, s.keep_alive),
                )
                &&& (id is None ==> acts@.len() == 0)
                &&& (id matches Some(i) ==> {
                    &&& (qos == QoS::AtMostOnce ==> acts@.len() == 0)
                    &&& (qos == QoS::AtLeastOnce ==> acts@ == seq![
                        Action::Send(
                            OutPacket::PubAck { id: i, reason: spec_ack_reason(outcome) },
                        ),
                    ])
                    &&& (qos == QoS::ExactlyOnce ==> acts@ == seq![
                        Action::Send(
                            OutPacket::PubComp { id: i, reason: spec_ack_reason(outcome) },
                        ),
                    ])
                })
            }),
    {
        match self.state {
            DispatchState::Established => {
                match &mut self.session {
                    Some(s) => {
                        s.deadline = deadline_after(now, s.keep_alive);
                        let mut acts: Vec<Action> = Vec::new();
                        match id {
                            Some(i) => {
                                let reason = ack_reason(outcome);
                                match qos {
                                    QoS::AtMostOnce => {},
                                    QoS::AtLeastOnce => {
                                        acts.push(
                                            Action::Send(OutPacket::PubAck { id: i, reason }),
                                        );
                                        proof {
                                            assert(acts@ =~= seq![
                                                Action::Send(OutPacket::PubAck { id: i, reason }),
                                            ]);
                                        }
                                    },
                                    QoS::ExactlyOnce => {
                                        acts.push(
                                            Action::Send(OutPacket::PubComp { id: i, reason }),
                                        );
                                        proof {
                                            assert(acts@ =~= seq![
                                                Action::Send(OutPacket::PubComp { id: i, reason }),
                                            ]);
                                        }
                                    },
                                }
                            },
                            None => {},
                        }
                        acts
                    },
                    None => {
                        proof {
                            assert(false);
                        }
                        Vec::new()
                    },
                }
            },
            _ => Vec::new(),
        }
    }

    /// A positive acknowledgment for an outbound QoS1 publish arrived.
    /// It retires the matching exchange and resolves the pending sink
    /// outcome; with no matching exchange awaiting it, it is a non-fatal
    /// anomaly and is ignored.
    pub fn on_puback(&mut self, id: u16, now: u64) -> (acts: Vec<Action>)
        requires
            old(self).wf(),
        ensures
            final(self).wf(),
            !(old(self).state is Established) ==> *final(self) == *old(self) && acts@.len() == 0,
            old(self).state is Established ==> (old(self).session matches Some(s) ==> {
                &&& final(self).state is Established
                &&& final(self).session matches Some(s2) && {
                    &&& s2.deadline == spec_deadline_after(now, s.keep_alive)
                    &&& s2.inbound@ == s.inbound@
                    &&& s2.subs == s.subs
                    &&& s2.next_id == s.next_id
                    &&& s2.closed == s.closed
                    &&& s2.version == s.version
                    &&& s2.keep_alive == s.keep_alive
                    &&& s2.max_inflight == s.max_inflight
                    &&& s2.client_id@ == s.client_id@
                    &&& (crate::cell::has_exchange(s.outbound@, id, OutboundState::AwaitAck)
                        ==> exists|i: int|
                        0 <= i < s.outbound@.len() && s.outbound@[i] == (OutboundExchange {
                            id,
                            state: OutboundState::AwaitAck,
                        }) && s2.outbound@ == s.outbound@.remove(i) && acts@ == seq![
                            (Action::ResolvePublish { id, outcome: SinkOutcome::Acknowledged }),
                        ])
                    &&& (!crate::cell::has_exchange(s.outbound@, id, OutboundState::AwaitAck)
                        ==> s2.outbound@ == s.outbound@ && acts@.len() == 0)
                }
            }),
    {
        match self.state {
            DispatchState::Established => {
                match &mut self.session {
                    Some(s) => {
                        s.deadline = deadline_after(now, s.keep_alive);
                        let advance = match s.outbound_state(id) {
                            Some(OutboundState::AwaitAck) => true,
                            _ => false,
                        };
                        proof {
                            if crate::cell::has_exchange(
                                s.outbound@,
                                id,
                                OutboundState::AwaitAck,
                            ) && !advance {
                                crate::cell::lemma_exchange_state_unique(
                                    s.outbound@,
                                    id,
                                    OutboundState::AwaitAck,
                                    choose|st: OutboundState|
                                        crate::cell::has_exchange(s.outbound@, id, st) && st
                                            != OutboundState::AwaitAck,
                                );
                            }
                        }
                        if advance {
                            let taken = s.take_outbound(id);
                            let mut acts: Vec<Action> = Vec::new();
                            acts.push(
                                Action::ResolvePublish { id, outcome: SinkOutcome::Acknowledged },
                            );
                            proof {
                                assert(acts@ =~= seq![
                                    (Action::ResolvePublish {
                                        id,
                                        outcome: SinkOutcome::Acknowledged,
                                    }),
                                ]);
                            }
                            acts
                        } else {
                            Vec::new()
                        }
                    },
                    None => {
                        proof {
                            assert(false);
                        }
                        Vec::new()
                    },
                }
            },
            _ => Vec::new(),
        }
    }

    /// The receive-acknowledgment for an outbound QoS2 publish arrived.
    /// The exchange advances to awaiting the complete-acknowledgment and
    /// the release packet is sent; otherwise the packet is a non-fatal
    /// anomaly and is ignored.
    pub fn on_pubrec(&mut self, id: u16, now: u64) -> (acts: Vec<Action>)
        requires
            old(self).wf(),
        ensures
            final(self).wf(),
            !(old(self).state is Established) ==> *final(self) == *old(self) && acts@.len() == 0,
            old(self).state is Established ==> (old(self).session matches Some(s) ==> {
                &&& final(self).state is Established
                &&& final(self).session matches Some(s2) && {
                    &&& s2.deadline == spec_deadline_after(now, s.keep_alive)
                    &&& s2.inbound@ == s.inbound@
                    &&& s2.subs == s.subs
                    &&& s2.next_id == s.next_id
                    &&& s2.closed == s.closed
                    &&& s2.version == s.version
                    &&& s2.keep_alive == s.keep_alive
                    &&& s2.max_inflight == s.max_inflight
                    &&& s2.client_id@ == s.client_id@
                    &&& (crate::cell::has_exchange(s.outbound@, id, OutboundState::AwaitRec)
                        ==> exists|i: int|
                        0 <= i < s.outbound@.len() && s.outbound@[i] == (OutboundExchange {
                            id,
                            state: OutboundState::AwaitRec,
                        }) && s2.outbound@ == s.outbound@.remove(i).push(
                            (OutboundExchange { id, state: OutboundState::AwaitComp }),
                        ) && acts@ == seq![Action::Send(OutPacket::PubRel { id })])
                    &&& (!crate::cell::has_exchange(s.outbound@, id, OutboundState::AwaitRec)
                        ==> s2.outbound@ == s.outbound@ && acts@.len() == 0)
                }
            }),
    {
        match self.state {
            DispatchState::Established => {
                match &mut self.session {
                    Some(s) => {
                        s.deadline = deadline_after(now, s.keep_alive);
                        let advance = match s.outbound_state(id) {
                            Some(OutboundState::AwaitRec) => true,
                            _ => false,
                        };
                        proof {
                            if crate::cell::has_exchange(
                                s.outbound@,
                                id,
                                OutboundState::AwaitRec,
                            ) && !advance {
                                crate::cell::lemma_exchange_state_unique(
                                    s.outbound@,
                                    id,
                                    OutboundState::AwaitRec,
                                    choose|st: OutboundState|
                                        crate::cell::has_exchange(s.outbound@, id, st) && st
                                            != OutboundState::AwaitRec,
                                );
                            }
                        }
                        if advance {
                            let ghost before = s.outbound@;
                            let taken = s.take_outbound(id);
                            proof {
                                assert forall|k: int|
                                    0 <= k < s.outbound@.len() implies s.outbound@[k].id
                                    != id by {
                                    let i = choose|i: int|
                                        0 <= i < before.len() && before[i].id == id
                                            && s.outbound@ == before.remove(i);
                                    if k < i {
                                        assert(s.outbound@[k] == before[k]);
                                    } else {
                                        assert(s.outbound@[k] == before[k + 1]);
                                    }
                                }
                            }
                            s.register_outbound(id, OutboundState::AwaitComp);
                            let mut acts: Vec<Action> = Vec::new();
                            acts.push(Action::Send(OutPacket::PubRel { id }));
                            proof {
                                assert(acts@ =~= seq![Action::Send(OutPacket::PubRel { id })]);
                            }
                            acts
                        } else {
                            Vec::new()
                        }
                    },
                    None => {
                        proof {
                            assert(false);
                        }
                        Vec::new()
                    },
                }
            },
            _ => Vec::new(),
        }
    }

    /// The complete-acknowledgment for an outbound QoS2 publish arrived.
    /// It retires the exchange and resolves the pending sink outcome;
    /// otherwise it is a non-fatal anomaly and is ignored.
    pub fn on_pubcomp(&mut self, id: u16, now: u64) -> (acts: Vec<Action>)
        requires
            old(self).wf(),
        ensures
            final(self).wf(),
            !(old(self).state is Established) ==> *final(self) == *old(self) && acts@.len() == 0,
            old(self).state is Established ==> (old(self).session matches Some(s) ==> {
                &&& final(self).state is Established
                &&& final(self).session matches Some(s2) && {
                    &&& s2.deadline == spec_deadline_after(now, s.keep_alive)
                    &&& s2.inbound@ == s.inbound@
                    &&& s2.subs == s.subs
                    &&& s2.next_id == s.next_id
                    &&& s2.closed == s.closed
                    &&& s2.version == s.version
                    &&& s2.keep_alive == s.keep_alive
                    &&& s2.max_inflight == s.max_inflight
                    &&& s2.client_id@ == s.client_id@
                    &&& (crate::cell::has_exchange(s.outbound@, id, OutboundState::AwaitComp)
                        ==> exists|i: int|
                        0 <= i < s.outbound@.len() && s.outbound@[i] == (OutboundExchange {
                            id,
                            state: OutboundState::AwaitComp,
                        }) && s2.outbound@ == s.outbound@.remove(i) && acts@ == seq![
                            (Action::ResolvePublish { id, outcome: SinkOutcome::Acknowledged }),
                        ])
                    &&& (!crate::cell::has_exchange(s.outbound@, id, OutboundState::AwaitComp)
                        ==> s2.outbound@ == s.outbound@ && acts@.len() == 0)
                }
            }),
    {
        match self.state {
            DispatchState::Established => {
                match &mut self.session {
                    Some(s) => {
                        s.deadline = deadline_after(now, s.keep_alive);
                        let advance = match s.outbound_state(id) {
                            Some(OutboundState::AwaitComp) => true,
                            _ => false,
                        };
                        proof {
                            if crate::cell::has_exchange(
                                s.outbound@,
                                id,
                                OutboundState::AwaitComp,
                            ) && !advance {
                                crate::cell::lemma_exchange_state_unique(
                                    s.outbound@,
                                    id,
                                    OutboundState::AwaitComp,
                                    choose|st: OutboundState|
                                        crate::cell::has_exchange(s.outbound@, id, st) && st
                                            != OutboundState::AwaitComp,
                                );
                            }
                        }
                        if advance {
                            let taken = s.take_outbound(id);
                            let mut acts: Vec<Action> = Vec::new();
                            acts.push(
                                Action::ResolvePublish { id, outcome: SinkOutcome::Acknowledged },
                            );
                            proof {
                                assert(acts@ =~= seq![
                                    (Action::ResolvePublish {
                                        id,
                                        outcome: SinkOutcome::Acknowledged,
                                    }),
                                ]);
                            }
                            acts
                        } else {
                            Vec::new()
                        }
                    },
                    None => {
                        proof {
                            assert(false);
                        }
                        Vec::new()
                    },
                }
            },
            _ => Vec::new(),
        }
    }

    /// The release packet of an inbound QoS2 exchange arrived. Exactly
    /// now the held-back publish is handed to the Publish handler (the
    /// caller then reports the outcome through
    /// [`Dispatcher::on_publish_result`], which sends the final
    /// complete-acknowledgment). A release without an outstanding
    /// exchange is answered with a complete-acknowledgment carrying the
    /// id-not-found reason, so a retransmitted release never reaches the
    /// handler twice.
    pub fn on_pubrel(&mut self, id: u16, now: u64) -> (acts: Vec<Action>)
        requires
            old(self).wf(),
        ensures
            final(self).wf(),
            !(old(self).state is Established) ==> *final(self) == *old(self) && acts@.len() == 0,
            old(self).state is Established ==> (old(self).session matches Some(s) ==> {
                &&& final(self).state is Established
                &&& final(self).session matches Some(s2) && {
                    &&& s2.deadline == spec_deadline_after(now, s.keep_alive)
                    &&& s2.outbound@ == s.outbound@
                    &&& s2.subs == s.subs
                    &&& s2.next_id == s.next_id
                    &&& s2.closed == s.closed
                    &&& s2.version == s.version
                    &&& s2.keep_alive == s.keep_alive
                    &&& s2.max_inflight == s.max_inflight
                    &&& s2.client_id@ == s.client_id@
                    &&& (has_inbound_id(s.inbound@, id) ==> exists|i: int|
                        0 <= i < s.inbound@.len() && s.inbound@[i].id == id && s2.inbound@
                            == s.inbound@.remove(i) && acts@ == seq![
                            Action::InvokePublishHandler(s.inbound@[i].publish),
                        ])
                    &&& (!has_inbound_id(s.inbound@, id) ==> s2.inbound@ == s.inbound@ && acts@
                        == seq![
                        Action::Send(OutPacket::PubComp { id, reason: AckReason::IdNotFound }),
                    ])
                }
            }),
    {
        match self.state {
            DispatchState::Established => {
                match &mut self.session {
                    Some(s) => {
                        s.deadline = deadline_after(now, s.keep_alive);
                        match s.take_inbound(id) {
                            Some(p) => {
                                let mut acts: Vec<Action> = Vec::new();
                                acts.push(Action::InvokePublishHandler(p));
                                proof {
                                    assert(acts@ =~= seq![Action::InvokePublishHandler(p)]);
                                }
                                acts
                            },
                            None => {
                                let mut acts: Vec<Action> = Vec::new();
                                acts.push(
                                    Action::Send(
                                        OutPacket::PubComp { id, reason: AckReason::IdNotFound },
                                    ),
                                );
                                proof {
                                    assert(acts@ =~= seq![
                                        Action::Send(
                                            OutPacket::PubComp {
                                                id,
                                                reason: AckReason::IdNotFound,
                                            },
                                        ),
                                    ]);
                                }
                                acts
                            },
                        }
                    },
                    None => {
                        proof {
                            assert(false);
                        }
                        Vec::new()
                    },
                }
            },
            _ => Vec::new(),
        }
    }

    /// A control packet arrived (subscribe, unsubscribe, ping,
    /// disconnect, auth). In the established state it is handed to the
    /// Control handler — except an authentication packet on a revision-3
    /// connection, which that revision does not know and which is a
    /// protocol violation. Before the handshake it is a violation; during
    /// teardown it is ignored.
    pub fn on_control(&mut self, pkt: ControlPacket, now: u64) -> (acts: Vec<Action>)
        requires
            old(self).wf(),
        ensures
            final(self).wf(),
            old(self).state is AwaitingConnect || old(self).state is ConnectPending
                ==> final(self).state is Closing && final(self).close_reason == Some(
                CloseReason::ProtocolViolation,
            ),
            old(self).state is Closing || old(self).state is Closed ==> *final(self) == *old(self)
                && acts@.len() == 0,
            old(self).state is Established ==> (old(self).session matches Some(s) ==> {
                &&& (pkt is Auth && s.version == ProtocolVersion::V3 ==> final(self).state
                    is Closing && final(self).close_reason == Some(CloseReason::ProtocolViolation))
                &&& (!(pkt is Auth && s.version == ProtocolVersion::V3) ==> {
                    &&& final(self).state is Established
                    &&& final(self).session matches Some(s2) && s2 == with_deadline(
                        s,
                        spec_deadline_after(now, s.keep_alive),
                    )
                    &&& acts@ == seq![Action::InvokeControlHandler(pkt)]
                })
            }),
    {
        match self.state {
            DispatchState::AwaitingConnect | DispatchState::ConnectPending => {
                self.close(CloseReason::ProtocolViolation)
            },
            DispatchState::Closing | DispatchState::Closed => Vec::new(),
            DispatchState::Established => {
                let is_auth = matches!(pkt, ControlPacket::Auth(_));
                let v3 = match &self.session {
                    Some(s) => matches!(s.version, ProtocolVersion::V3),
                    None => false,
                };
                if is_auth && v3 {
                    return self.close(CloseReason::ProtocolViolation);
                }
                match &mut self.session {
                    Some(s) => {
                        s.deadline = deadline_after(now, s.keep_alive);
                    },
                    None => {
                        proof {
                            assert(false);
                        }
                    },
                }
                let mut acts: Vec<Action> = Vec::new();
                acts.push(Action::InvokeControlHandler(pkt));
                proof {
                    assert(acts@ =~= seq![Action::InvokeControlHandler(pkt)]);
                }
                acts
            },
        }
    }

    /// The Control handler's result. A subscribe acknowledgment applies
    /// the granted filters to the registry (malformed filters are
    /// rejected at registration and acknowledged as failed) and sends
    /// the grant list back; an unsubscribe acknowledgment removes the
    /// filters and acknowledges; a ping is answered; a disconnect
    /// acknowledgment triggers teardown with the peer-disconnect reason.
    #[verifier::loop_isolation(false)]
    #[verifier::rlimit(80)]
    pub fn on_control_result(&mut self, res: ControlResult, now: u64) -> (acts: Vec<Action>)
        requires
            old(self).wf(),
        ensures
            final(self).wf(),
            !(old(self).state is Established) ==> *final(self) == *old(self) && acts@.len() == 0,
            old(self).state is Established ==> (old(self).session matches Some(s) ==> {
                &&& (res is PingAck ==> (final(self).session matches Some(s2) && s2
                    == with_deadline(s, spec_deadline_after(now, s.keep_alive)) && acts@ == seq![
                    Action::Send(OutPacket::PingResponse),
                ] && final(self).state is Established))
                &&& (res is AuthAck || res is ClosedAck ==> (final(self).session matches Some(s2)
                    && s2 == with_deadline(s, spec_deadline_after(now, s.keep_alive)) && acts@.len()
                    == 0 && final(self).state is Established))
                &&& (res is DisconnectAck ==> {
                    &&& final(self).state is Closing
                    &&& final(self).close_reason == Some(CloseReason::PeerDisconnect)
                    &&& (s.version == ProtocolVersion::V5 ==> acts@ == seq![
                        Action::Send(
                            OutPacket::Disconnect { reason: CloseReason::PeerDisconnect },
                        ),
                        Action::CloseTransport,
                    ])
                    &&& (s.version == ProtocolVersion::V3 ==> acts@ == seq![
                        Action::CloseTransport,
                    ])
                })
                &&& (res matches ControlResult::SubscribeAck { id, grants } ==> {
                    &&& final(self).state is Established
                    &&& final(self).session matches Some(s2) && {
                        &&& s2.subs@ == crate::subs::spec_apply_grants(s.subs@, grants.deep_view())
                        &&& s2.deadline == spec_deadline_after(now, s.keep_alive)
                        &&& s2.outbound@ == s.outbound@
                        &&& s2.inbound@ == s.inbound@
                        &&& s2.next_id == s.next_id
                        &&& s2.closed == s.closed
                        &&& s2.version == s.version
                        &&& s2.keep_alive == s.keep_alive
                        &&& s2.max_inflight == s.max_inflight
                        &&& s2.client_id@ == s.client_id@
                    }
                    &&& acts@.len() == 1
                    &&& (acts@[0] matches Action::Send(op) && (op matches OutPacket::SubAck {
                        id: aid,
                        granted,
                    } && aid == id && granted@ == grants.deep_view().map_values(
                        |g: crate::packets::GrantModel| crate::subs::spec_grant_result(g),
                    )))
                })
                &&& (res matches ControlResult::UnsubscribeAck { id, filters } ==> {
                    &&& final(self).state is Established
                    &&& final(self).session matches Some(s2) && {
                        &&& s2.subs@ == crate::subs::spec_apply_removals(
                            s.subs@,
                            filters.deep_view(),
                        )
                        &&& s2.deadline == spec_deadline_after(now, s.keep_alive)
                        &&& s2.outbound@ == s.outbound@
                        &&& s2.inbound@ == s.inbound@
                        &&& s2.next_id == s.next_id
                        &&& s2.closed == s.closed
                        &&& s2.version == s.version
                        &&& s2.keep_alive == s.keep_alive
                        &&& s2.max_inflight == s.max_inflight
                        &&& s2.client_id@ == s.client_id@
                    }
                    &&& acts@ == seq![Action::Send(OutPacket::UnsubAck { id })]
                })
            }),
    {
        match self.state {
            DispatchState::Established => {
                match res {
                    ControlResult::PingAck => {
                        match &mut self.session {
                            Some(s) => {
                                s.deadline = deadline_after(now, s.keep_alive);
                            },
                            None => {
                                proof {
                                    assert(false);
                                }
                            },
                        }
                        let mut acts: Vec<Action> = Vec::new();
                        acts.push(Action::Send(OutPacket::PingResponse));
                        proof {
                            assert(acts@ =~= seq![Action::Send(OutPacket::PingResponse)]);
                        }
                        acts
                    },
                    ControlResult::AuthAck | ControlResult::ClosedAck => {
                        match &mut self.session {
                            Some(s) => {
                                s.deadline = deadline_after(now, s.keep_alive);
                            },
                            None => {
                                proof {
                                    assert(false);
                                }
                            },
                        }
                        Vec::new()
                    },
                    ControlResult::DisconnectAck => self.close(CloseReason::PeerDisconnect),
                    ControlResult::SubscribeAck { id, grants } => {
                        match &mut self.session {
                            Some(s) => {
                                s.deadline = deadline_after(now, s.keep_alive);
                                let ghost subs0 = s.subs@;
                                let ghost gseq = grants.deep_view();
                                proof {
                                    crate::packets::lemma_grant_list_view(grants);
                                    assert(gseq.take(0) =~= Seq::<
                                        crate::packets::GrantModel,
                                    >::empty());
                                    assert(crate::subs::spec_apply_grants(subs0, gseq.take(0))
                                        == subs0);
                                }
                                let mut granted: Vec<Option<QoS>> = Vec::new();
                                let mut k: usize = 0;
                                proof {
                                    assert(granted@ =~= gseq.take(0).map_values(
                                        |g: crate::packets::GrantModel|
                                            crate::subs::spec_grant_result(g),
                                    ));
                                }
                                while k < grants.len()
                                    invariant
                                        0 <= k <= grants@.len(),
                                        s.subs.wf(),
                                        s.subs@ == crate::subs::spec_apply_grants(
                                            subs0,
                                            gseq.take(k as int),
                                        ),
                                        granted@ == gseq.take(k as int).map_values(
                                            |g: crate::packets::GrantModel|
                                                crate::subs::spec_grant_result(g),
                                        ),
                                        s.wf(),
                                        s.outbound@ == old(self).session->Some_0.outbound@,
                                        s.inbound@ == old(self).session->Some_0.inbound@,
                                        s.next_id == old(self).session->Some_0.next_id,
                                        s.closed == old(self).session->Some_0.closed,
                                        s.version == old(self).session->Some_0.version,
                                        s.keep_alive == old(self).session->Some_0.keep_alive,
                                        s.max_inflight == old(self).session->Some_0.max_inflight,
                                        s.client_id@ == old(self).session->Some_0.client_id@,
                                        s.session_present == old(
                                            self,
                                        ).session->Some_0.session_present,
                                        s.deadline == spec_deadline_after(
                                            now,
                                            old(self).session->Some_0.keep_alive,
                                        ),
                                    decreases grants@.len() - k,
                                {
                                    let ghost prev_granted = granted@;
                                    proof {
                                        assert(gseq.take(k + 1 as int).drop_last() =~= gseq.take(
                                            k as int,
                                        ));
                                        assert(gseq.take(k + 1 as int).last() == gseq[k as int]);
                                    }
                                    match grants[k].qos {
                                        Some(q) => {
                                            let f = copy_bytes(grants[k].filter.as_slice());
                                            let res_add = s.subs.add(f, q, grants[k].options);
                                            granted.push(
                                                if res_add.is_ok() {
                                                    Some(q)
                                                } else {
                                                    None
                                                },
                                            );
                                        },
                                        None => {
                                            granted.push(None);
                                        },
                                    }
                                    proof {
                                        let gm = |g: crate::packets::GrantModel|
                                            crate::subs::spec_grant_result(g);
                                        assert(gseq.take(k + 1 as int).map_values(gm) =~= gseq.take(
                                            k as int,
                                        ).map_values(gm).push(gm(gseq[k as int])));
                                        assert(granted@ =~= prev_granted.push(
                                            gm(gseq[k as int]),
                                        ));
                                    }
                                    k += 1;
                                }
                                proof {
                                    assert(gseq.take(grants@.len() as int) =~= gseq);
                                }
                                let mut acts: Vec<Action> = Vec::new();
                                acts.push(Action::Send(OutPacket::SubAck { id, granted }));
                                proof {
                                    assert(acts@[0] matches Action::Send(
                                        OutPacket::SubAck { id: aid, granted: gv },
                                    ) && aid == id);
                                }
                                acts
                            },
                            None => {
                                proof {
                                    assert(false);
                                }
                                Vec::new()
                            },
                        }
                    },
                    ControlResult::UnsubscribeAck { id, filters } => {
                        match &mut self.session {
                            Some(s) => {
                                s.deadline = deadline_after(now, s.keep_alive);
                                let ghost subs0 = s.subs@;
                                let ghost fseq = filters.deep_view();
                                proof {
                                    crate::subs::lemma_list_view(filters);
                                    assert(fseq.take(0) =~= Seq::<Seq<u8>>::empty());
                                }
                                let mut k: usize = 0;
                                while k < filters.len()
                                    invariant
                                        0 <= k <= filters@.len(),
                                        s.subs.wf(),
                                        s.subs@ == crate::subs::spec_apply_removals(
                                            subs0,
                                            fseq.take(k as int),
                                        ),
                                        s.wf(),
                                        s.outbound@ == old(self).session->Some_0.outbound@,
                                        s.inbound@ == old(self).session->Some_0.inbound@,
                                        s.next_id == old(self).session->Some_0.next_id,
                                        s.closed == old(self).session->Some_0.closed,
                                        s.version == old(self).session->Some_0.version,
                                        s.keep_alive == old(self).session->Some_0.keep_alive,
                                        s.max_inflight == old(self).session->Some_0.max_inflight,
                                        s.client_id@ == old(self).session->Some_0.client_id@,
                                        s.session_present == old(
                                            self,
                                        ).session->Some_0.session_present,
                                        s.deadline == spec_deadline_after(
                                            now,
                                            old(self).session->Some_0.keep_alive,
                                        ),
                                    decreases filters@.len() - k,
                                {
                                    proof {
                                        assert(fseq.take(k + 1 as int).drop_last() =~= fseq.take(
                                            k as int,
                                        ));
                                        assert(fseq.take(k + 1 as int).last() == fseq[k as int]);
                                    }
                                    let _removed = s.subs.remove(filters[k].as_slice());
                                    k += 1;
                                }
                                proof {
                                    assert(fseq.take(filters@.len() as int) =~= fseq);
                                }
                                let mut acts: Vec<Action> = Vec::new();
                                acts.push(Action::Send(OutPacket::UnsubAck { id }));
                                proof {
                                    assert(acts@ =~= seq![Action::Send(OutPacket::UnsubAck { id })]);
                                }
                                acts
                            },
                            None => {
                                proof {
                                    assert(false);
                                }
                                Vec::new()
                            },
                        }
                    },
                }
            },
            _ => Vec::new(),
        }
    }
}

} // verus!
