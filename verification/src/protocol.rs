use vstd::prelude::*;

verus! {

/// The mathematical model of a wire frame: its kind and contents.
pub enum FrameModel {
    /// A textual frame holding an identity.
    Text(Seq<char>),
    /// A binary frame holding ciphertext.
    Binary(Seq<u8>),
}

/// One frame on the wire. The protocol discriminates text from binary:
/// text frames carry identities, binary frames carry ciphertext.
#[derive(Debug)]
pub enum WireFrame {
    /// A textual frame holding a peer identity (lowercase hex digest).
    Text(String),
    /// A binary frame holding opaque ciphertext.
    Binary(Vec<u8>),
}

impl View for WireFrame {
    type V = FrameModel;

    open spec fn view(&self) -> FrameModel {
        match self {
            WireFrame::Text(s) => FrameModel::Text(s@),
            WireFrame::Binary(b) => FrameModel::Binary(b@),
        }
    }
}

/// An addressed ciphertext: the target identity together with the bytes
/// encrypted for that recipient. This is the unit published on the
/// broadcast bus and the unit of one logical update per recipient.
#[derive(Debug)]
pub struct RelayMessage {
    /// Identity of the intended recipient.
    pub target: String,
    /// Ciphertext readable only by the holder of the matching private key.
    pub ciphertext: Vec<u8>,
}

impl View for RelayMessage {
    type V = (Seq<char>, Seq<u8>);

    open spec fn view(&self) -> (Seq<char>, Seq<u8>) {
        (self.target@, self.ciphertext@)
    }
}

impl DeepView for RelayMessage {
    type V = (Seq<char>, Seq<u8>);

    open spec fn deep_view(&self) -> (Seq<char>, Seq<u8>) {
        self@
    }
}

/// The model of an optional message, for contracts of steps that may or
/// may not produce one.
pub open spec fn opt_message_view(o: Option<RelayMessage>) -> Option<(Seq<char>, Seq<u8>)> {
    match o {
        Some(m) => Some(m@),
        None => None,
    }
}

impl RelayMessage {
    /// A structural copy of the message.
    pub fn duplicate(&self) -> (r: RelayMessage)
        ensures
            r@ == self@,
    {
        RelayMessage {
            target: self.target.clone(),
            ciphertext: crate::state::copy_bytes(self.ciphertext.as_slice()),
        }
    }
}

/// The two consecutive frames that carry one addressed update on the wire:
/// a text frame with the target identity, immediately followed by a binary
/// frame with the ciphertext for that target. The pairing relies on the
/// two frames staying adjacent and in order from one sender.
pub fn encode_update(m: &RelayMessage) -> (r: Vec<WireFrame>)
    ensures
        r@.len() == 2,
        r@[0]@ == FrameModel::Text(m.target@),
        r@[1]@ == FrameModel::Binary(m.ciphertext@),
{
    let mut out: Vec<WireFrame> = Vec::new();
    out.push(WireFrame::Text(m.target.clone()));
    out.push(WireFrame::Binary(crate::state::copy_bytes(m.ciphertext.as_slice())));
    out
}

/// The handshake frame a client sends right after connecting: a text frame
/// holding its own identity.
pub fn handshake_frame(own_id: &String) -> (r: WireFrame)
    ensures
        r@ == FrameModel::Text(own_id@),
{
    WireFrame::Text(own_id.clone())
}

} // verus!
