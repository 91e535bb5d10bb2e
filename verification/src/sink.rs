use vstd::prelude::*;

use crate::crypto::{decrypt_of, decrypt_with, rsa_wf};
use crate::keys::PrivateKey;
use crate::state::ClipboardState;

verus! {

/// What the decryption sink decides for one inbound ciphertext frame.
/// Every outcome is non-fatal: the session continues whatever happened.
#[derive(Debug)]
pub enum SinkAction {
    /// The plaintext is new: apply it to the local sink.
    Apply(Vec<u8>),
    /// The plaintext equals the last payload seen: suppress it to avoid
    /// loops and echoes.
    Duplicate,
    /// The frame does not decrypt under the local private key (corrupted,
    /// or meant for a different recipient): discard it.
    Undecryptable,
}

/// The mathematical model of a sink decision.
pub enum SinkActionModel {
    /// Apply this plaintext.
    Apply(Seq<u8>),
    /// Suppress a duplicate.
    Duplicate,
    /// Discard an unreadable frame.
    Undecryptable,
}

impl View for SinkAction {
    type V = SinkActionModel;

    open spec fn view(&self) -> SinkActionModel {
        match self {
            SinkAction::Apply(p) => SinkActionModel::Apply(p@),
            SinkAction::Duplicate => SinkActionModel::Duplicate,
            SinkAction::Undecryptable => SinkActionModel::Undecryptable,
        }
    }
}

/// The sink's decision and the state it leaves behind, given the last
/// payload seen and the outcome of decryption: an unreadable frame
/// changes nothing, a duplicate plaintext changes nothing, and a new
/// plaintext is recorded and applied.
pub open spec fn sink_next(last: Seq<u8>, dec: Option<Seq<u8>>) -> (SinkActionModel, Seq<u8>) {
    match dec {
        None => (SinkActionModel::Undecryptable, last),
        Some(p) => if p == last {
            (SinkActionModel::Duplicate, last)
        } else {
            (SinkActionModel::Apply(p), p)
        },
    }
}

/// What holds of a sink decision whatever the key material is: the
/// state changes exactly when a fresh payload is applied, and then to
/// exactly that payload; duplicates and unreadable frames leave it
/// untouched.
pub open spec fn sink_consistent(
    last: Seq<u8>,
    new_last: Seq<u8>,
    action: SinkActionModel,
) -> bool {
    match action {
        SinkActionModel::Apply(p) => new_last == p && p != last,
        SinkActionModel::Duplicate => new_last == last,
        SinkActionModel::Undecryptable => new_last == last,
    }
}

/// Handle one inbound binary frame: attempt decryption with the local
/// private key, suppress duplicates against the shared state, and decide
/// what the local sink should do. For a genuine RSA key (`rsa_wf`) this
/// is exactly `sink_next` over the decryption outcome; whatever the key
/// material, the decision and the state cohere (`sink_consistent`), the
/// state is updated before the caller applies anything, and never on
/// failure.
pub fn handle_ciphertext(state: &mut ClipboardState, sk: &PrivateKey, ciphertext: &[u8]) -> (r:
    SinkAction)
    ensures
        sink_consistent(old(state).last@, final(state).last@, r@),
        rsa_wf(sk.pub_der()) ==> {
            &&& r@ == sink_next(old(state).last@, decrypt_of(sk.pub_der(), ciphertext@)).0
            &&& final(state).last@ == sink_next(
                old(state).last@,
                decrypt_of(sk.pub_der(), ciphertext@),
            ).1
        },
{
    match decrypt_with(sk, ciphertext) {
        Err(_) => SinkAction::Undecryptable,
        Ok(p) => {
            if state.update_if_changed(p.as_slice()) {
                SinkAction::Apply(p)
            } else {
                SinkAction::Duplicate
            }
        },
    }
}

/// Round trip, received side: a ciphertext that decrypts to a payload
/// that differs from the last payload seen makes the sink apply exactly
/// that payload and record it.
pub proof fn lemma_round_trip_applied(
    last: Seq<u8>,
    recipient_der: Seq<u8>,
    ciphertext: Seq<u8>,
    payload: Seq<u8>,
)
    requires
        decrypt_of(recipient_der, ciphertext) == Some(payload),
        payload != last,
    ensures
        sink_next(last, decrypt_of(recipient_der, ciphertext)) == (
            SinkActionModel::Apply(payload),
            payload,
        ),
{
}

} // verus!
