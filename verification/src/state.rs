use vstd::prelude::*;

verus! {

/// Whether a freshly read payload must be acted on: it is accepted exactly
/// when it differs byte-for-byte from the last payload seen.
pub open spec fn dedup_accepts(last: Seq<u8>, new: Seq<u8>) -> bool {
    new != last
}

/// Last payload seen by this client, shared between the watcher and the
/// decryption sink. Duplicate payloads are suppressed against this value
/// before any crypto or network work happens.
pub struct ClipboardState {
    /// The last payload sent or applied.
    pub last: Vec<u8>,
}

impl ClipboardState {
    /// A freshly created state holds the empty payload.
    pub fn new() -> (s: ClipboardState)
        ensures
            s.last@ == Seq::<u8>::empty(),
    {
        ClipboardState { last: Vec::new() }
    }

    /// Record `new_content` if it differs byte-for-byte from the last seen
    /// payload. Returns true exactly when the payload was accepted, i.e.
    /// when the caller should go on to encrypt and transmit; afterwards the
    /// state holds `new_content` either way. The update happens before any
    /// encryption is attempted and is never rolled back.
    pub fn update_if_changed(&mut self, new_content: &[u8]) -> (changed: bool)
        ensures
            changed == dedup_accepts(old(self).last@, new_content@),
            final(self).last@ == new_content@,
    {
        let same = slices_equal(new_content, self.last.as_slice());
        if !same {
            self.last = copy_bytes(new_content);
            true
        } else {
            false
        }
    }
}

/// Submitting the same payload twice consecutively triggers at most one
/// fan-out: once a payload is accepted the state holds exactly that
/// payload, so an immediately repeated submission is rejected.
pub proof fn lemma_dedup_idempotent(last: Seq<u8>, payload: Seq<u8>)
    ensures
        dedup_accepts(last, payload) ==> !dedup_accepts(payload, payload),
        !dedup_accepts(payload, payload),
{
}

/// An owned copy of a byte slice.
pub fn copy_bytes(a: &[u8]) -> (r: Vec<u8>)
    ensures
        r@ == a@,
{
    let mut out: Vec<u8> = Vec::new();
    let mut i: usize = 0;
    while i < a.len()
        invariant
            0 <= i <= a@.len(),
            out@ == a@.subrange(0, i as int),
        decreases a@.len() - i,
    {
        out.push(a[i]);
        proof {
            assert(out@ =~= a@.subrange(0, i as int + 1));
        }
        i += 1;
    }
    proof {
        assert(out@ =~= a@);
    }
    out
}

/// Byte-for-byte comparison of two slices.
pub fn slices_equal(a: &[u8], b: &[u8]) -> (r: bool)
    ensures
        r == (a@ == b@),
{
    if a.len() != b.len() {
        proof {
            assert(a@ != b@);
        }
        return false;
    }
    let mut i: usize = 0;
    while i < a.len()
        invariant
            0 <= i <= a@.len(),
            a@.len() == b@.len(),
            forall|j: int| 0 <= j < i ==> a@[j] == b@[j],
        decreases a@.len() - i,
    {
        if a[i] != b[i] {
            proof {
                assert(a@ != b@);
            }
            return false;
        }
        i += 1;
    }
    proof {
        assert(a@ =~= b@);
    }
    true
}

} // verus!
