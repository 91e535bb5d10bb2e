use vstd::prelude::*;

use crate::errors::HandshakeError;
use crate::protocol::{opt_message_view, FrameModel, RelayMessage, WireFrame};

verus! {

/// Whether a message addressed to `target` belongs to a session whose
/// identity is `session_id`. This is the relay's whole routing rule.
pub open spec fn routed_to(target: Seq<char>, session_id: Seq<char>) -> bool {
    target == session_id
}

/// What the handshake yields for a given first frame: the claimed
/// identity for a text frame, a protocol error for anything else.
pub open spec fn handshake_model(first: Option<FrameModel>) -> Result<Seq<char>, HandshakeError> {
    match first {
        Some(FrameModel::Text(t)) => Ok(t),
        Some(FrameModel::Binary(b)) => Err(HandshakeError::NonTextFirstFrame),
        None => Err(HandshakeError::ClosedBeforeIdentity),
    }
}

/// The model of the handshake's outcome.
pub open spec fn opt_frame_view(o: Option<WireFrame>) -> Option<FrameModel> {
    match o {
        Some(f) => Some(f@),
        None => None,
    }
}

/// The one-time handshake on a fresh relay connection: the first frame
/// must be a textual identity frame. `first` is `None` when the peer
/// closed before sending anything. On any failure the session is aborted
/// before it ever subscribes or publishes, so nothing of an unhandshaken
/// connection can reach the bus.
pub fn handshake(first: Option<WireFrame>) -> (r: Result<String, HandshakeError>)
    ensures
        r matches Ok(id) ==> handshake_model(opt_frame_view(first)) == Ok::<
            Seq<char>,
            HandshakeError,
        >(id@),
        r matches Err(e) ==> handshake_model(opt_frame_view(first)) == Err::<
            Seq<char>,
            HandshakeError,
        >(e),
{
    match first {
        None => Err(HandshakeError::ClosedBeforeIdentity),
        Some(WireFrame::Binary(_)) => Err(HandshakeError::NonTextFirstFrame),
        Some(WireFrame::Text(t)) => Ok(t),
    }
}

/// Where a session's inbound loop stands between frames: waiting for the
/// text frame that names a target, or holding a target and waiting for the
/// binary frame that carries its ciphertext.
pub enum InboundState {
    /// The next frame should be a text frame naming a target identity.
    AwaitingTarget,
    /// A target was named; the next frame should be its binary payload.
    AwaitingPayload(String),
}

/// The mathematical model of the inbound loop's state.
pub enum InboundModel {
    /// Waiting for a target identity.
    AwaitingTarget,
    /// Holding a target, waiting for its payload.
    AwaitingPayload(Seq<char>),
}

impl View for InboundState {
    type V = InboundModel;

    open spec fn view(&self) -> InboundModel {
        match self {
            InboundState::AwaitingTarget => InboundModel::AwaitingTarget,
            InboundState::AwaitingPayload(t) => InboundModel::AwaitingPayload(t@),
        }
    }
}

/// The transition of the inbound loop on one frame: a target followed by
/// its binary payload publishes exactly that pair; a binary frame with no
/// preceding target is dropped; a target whose following frame is textual
/// is dropped together with that frame. The wire protocol demands the two
/// frames of a pair be adjacent, so a broken pair never reaches the bus.
pub open spec fn inbound_next(st: InboundModel, f: FrameModel) -> (
    InboundModel,
    Option<(Seq<char>, Seq<u8>)>,
) {
    match (st, f) {
        (InboundModel::AwaitingTarget, FrameModel::Text(t)) => (
            InboundModel::AwaitingPayload(t),
            None,
        ),
        (InboundModel::AwaitingTarget, FrameModel::Binary(b)) => (
            InboundModel::AwaitingTarget,
            None,
        ),
        (InboundModel::AwaitingPayload(t), FrameModel::Binary(b)) => (
            InboundModel::AwaitingTarget,
            Some((t, b)),
        ),
        (InboundModel::AwaitingPayload(t), FrameModel::Text(t2)) => (
            InboundModel::AwaitingTarget,
            None,
        ),
    }
}

/// One step of a session's inbound loop after the handshake: feed it the
/// next frame, get the next state and at most one message to publish
/// verbatim to the bus.
pub fn inbound_step(st: InboundState, frame: WireFrame) -> (r: (InboundState, Option<RelayMessage>))
    ensures
        r.0@ == inbound_next(st@, frame@).0,
        opt_message_view(r.1) == inbound_next(st@, frame@).1,
{
    match st {
        InboundState::AwaitingTarget => {
            match frame {
                WireFrame::Text(t) => (InboundState::AwaitingPayload(t), None),
                WireFrame::Binary(_) => (InboundState::AwaitingTarget, None),
            }
        },
        InboundState::AwaitingPayload(t) => {
            match frame {
                WireFrame::Binary(b) => (
                    InboundState::AwaitingTarget,
                    Some(RelayMessage { target: t, ciphertext: b }),
                ),
                WireFrame::Text(_) => (InboundState::AwaitingTarget, None),
            }
        },
    }
}

/// The outbound loop's filter: forward a bus message exactly when its
/// target identity equals this session's identity.
pub fn should_forward(session_id: &String, m: &RelayMessage) -> (r: bool)
    ensures
        r == routed_to(m@.0, session_id@),
{
    m.target == *session_id
}

/// One step of a session's outbound loop on a message received from the
/// bus: the message is forwarded to the socket exactly when it is
/// addressed to this session; otherwise it is silently dropped and the
/// sender learns nothing.
pub fn outbound_step(session_id: &String, m: RelayMessage) -> (r: Option<RelayMessage>)
    ensures
        routed_to(m@.0, session_id@) ==> opt_message_view(r) == Some(m@),
        !routed_to(m@.0, session_id@) ==> r is None,
{
    if should_forward(session_id, &m) {
        Some(m)
    } else {
        None
    }
}

/// The wire pairing is the inverse of the client's framing: feeding a
/// fresh inbound loop the two adjacent frames that carry one update —
/// the text frame naming the target, then the binary frame with the
/// ciphertext — publishes exactly that addressed message and returns the
/// loop to its starting state.
pub proof fn lemma_pairing_round_trip(target: Seq<char>, ciphertext: Seq<u8>)
    ensures
        ({
            let first = inbound_next(InboundModel::AwaitingTarget, FrameModel::Text(target));
            let second = inbound_next(first.0, FrameModel::Binary(ciphertext));
            &&& first.1 is None
            &&& second.0 is AwaitingTarget
            &&& second.1 == Some((target, ciphertext))
        }),
{
}

/// Routing correctness: a message addressed to identity `target` passes
/// the outbound filter of exactly the sessions whose identity equals
/// `target`; every session with a different identity drops it.
pub proof fn lemma_routing_exclusive(target: Seq<char>, sid1: Seq<char>, sid2: Seq<char>)
    ensures
        sid1 == target ==> routed_to(target, sid1),
        sid2 != target ==> !routed_to(target, sid2),
{
}

} // verus!
