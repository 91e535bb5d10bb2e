use vstd::prelude::*;

use crate::fanout::{fan_out, fanned_out, frames_sound, KeyRegistry};
use crate::keys::PrivateKey;
use crate::protocol::{FrameModel, RelayMessage, WireFrame};
use crate::sink::{handle_ciphertext, SinkAction};
use crate::state::{dedup_accepts, ClipboardState};

verus! {

/// Where a client session stands. There is no reconnection: a session
/// that reaches `Closed` is final.
#[derive(Clone, Copy, PartialEq, Eq, Structural, Debug)]
pub enum ClientPhase {
    /// Not yet connected to the relay.
    Disconnected,
    /// Connected; the identity frame is being sent.
    Handshaking,
    /// Both the outbound and the inbound loop are running.
    Active,
    /// One of the two loops terminated, which ends the whole session.
    Closed,
}

/// A client session: its own identity and its lifecycle phase. The
/// outbound path (watcher, then fan-out) and the inbound path (decryption
/// sink) run concurrently while the session is active; the first of the
/// two to terminate closes the session and tears the other down.
pub struct ClientSession {
    phase: ClientPhase,
    id: String,
}

impl ClientSession {
    /// The lifecycle phase.
    pub closed spec fn phase(&self) -> ClientPhase {
        self.phase
    }

    /// The identity this client claims at handshake.
    pub closed spec fn id(&self) -> Seq<char> {
        self.id@
    }

    /// A fresh, not yet connected session for the given own identity.
    pub fn new(own_id: String) -> (r: ClientSession)
        ensures
            r.phase() == ClientPhase::Disconnected,
            r.id() == own_id@,
    {
        ClientSession { phase: ClientPhase::Disconnected, id: own_id }
    }

    /// The connection is established: the session enters its handshake
    /// and yields the text frame carrying its identity, to be sent
    /// before anything else.
    pub fn connect(&mut self) -> (r: WireFrame)
        requires
            old(self).phase() == ClientPhase::Disconnected,
        ensures
            final(self).phase() == ClientPhase::Handshaking,
            final(self).id() == old(self).id(),
            r@ == FrameModel::Text(old(self).id()),
    {
        self.phase = ClientPhase::Handshaking;
        crate::protocol::handshake_frame(&self.id)
    }

    /// The identity frame went out: both loops start and the session is
    /// active.
    pub fn activate(&mut self)
        requires
            old(self).phase() == ClientPhase::Handshaking,
        ensures
            final(self).phase() == ClientPhase::Active,
            final(self).id() == old(self).id(),
    {
        self.phase = ClientPhase::Active;
    }

    /// Either loop terminated (error or end of stream): the session is
    /// closed, which implicitly cancels the sibling loop. Final: there
    /// is no reconnection.
    pub fn close(&mut self)
        ensures
            final(self).phase() == ClientPhase::Closed,
            final(self).id() == old(self).id(),
    {
        self.phase = ClientPhase::Closed;
    }

    /// One step of the outbound path on a freshly read local payload:
    /// suppress it if it equals the last payload seen, otherwise record
    /// it and fan it out, one addressed frame per recipient whose
    /// encryption succeeded. The state is updated before encryption is
    /// attempted and is not rolled back on failures.
    pub fn on_local_payload(
        &self,
        state: &mut ClipboardState,
        registry: &KeyRegistry,
        payload: &[u8],
    ) -> (r: Option<Vec<RelayMessage>>)
        requires
            self.phase() == ClientPhase::Active,
        ensures
            final(state).last@ == payload@,
            r is Some <==> dedup_accepts(old(state).last@, payload@),
            r matches Some(frames) ==> {
                &&& fanned_out(registry.entries(), frames.deep_view(), payload@)
                &&& frames_sound(registry.entries(), frames.deep_view(), payload@)
            },
    {
        if state.update_if_changed(payload) {
            Some(fan_out(registry, payload))
        } else {
            None
        }
    }

    /// One step of the inbound path on a frame from the relay: only
    /// binary frames carry ciphertext and reach the decryption sink —
    /// exactly `sink_next` over the decryption outcome for a genuine
    /// RSA key (`rsa_wf`) — and anything else is ignored. No inbound
    /// frame ever closes an active session.
    pub fn on_inbound_frame(
        &self,
        state: &mut ClipboardState,
        own_key: &PrivateKey,
        frame: WireFrame,
    ) -> (r: Option<SinkAction>)
        requires
            self.phase() == ClientPhase::Active,
        ensures
            frame@ matches FrameModel::Binary(data) ==> {
                &&& (r matches Some(a) && crate::sink::sink_consistent(
                    old(state).last@,
                    final(state).last@,
                    a@,
                ))
                &&& crate::crypto::rsa_wf(own_key.pub_der()) ==> (r matches Some(a) && a@
                    == crate::sink::sink_next(
                    old(state).last@,
                    crate::crypto::decrypt_of(own_key.pub_der(), data),
                ).0 && final(state).last@ == crate::sink::sink_next(
                    old(state).last@,
                    crate::crypto::decrypt_of(own_key.pub_der(), data),
                ).1)
            },
            frame@ matches FrameModel::Text(t) ==> (r is None && final(state).last@ == old(
                state,
            ).last@),
    {
        match frame {
            WireFrame::Binary(data) => Some(handle_ciphertext(state, own_key, data.as_slice())),
            WireFrame::Text(_) => None,
        }
    }
}

} // verus!
