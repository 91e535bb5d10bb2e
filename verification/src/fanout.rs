use vstd::prelude::*;

use crate::crypto::{decrypt_of, encrypt_for, fits_key, rsa_key_bytes, rsa_wf};
use crate::errors::KeyError;
use crate::keys::{identity_of, pub_key_der_of, PublicKey};
use crate::protocol::RelayMessage;

verus! {

/// One recipient: a public key together with the identity derived from
/// it, under which messages for this recipient are addressed.
pub struct Peer {
    id: String,
    key: PublicKey,
}

impl DeepView for Peer {
    type V = (Seq<char>, Seq<u8>);

    closed spec fn deep_view(&self) -> (Seq<char>, Seq<u8>) {
        (self.id@, self.key.der())
    }
}

impl Peer {
    /// The identity messages for this recipient are addressed to.
    pub closed spec fn id(&self) -> Seq<char> {
        self.id@
    }

    /// The DER encoding of this recipient's public key.
    pub closed spec fn der(&self) -> Seq<u8> {
        self.key.der()
    }

    /// The identity is always the fingerprint of the key.
    pub open spec fn wf(&self) -> bool {
        self.id() == identity_of(self.der())
    }

    /// A recipient entry for the given key, addressed by the key's
    /// fingerprint.
    pub fn new(key: PublicKey) -> (r: Peer)
        ensures
            r.wf(),
            r.der() == key.der(),
    {
        let id = key.identity();
        Peer { id, key }
    }

    /// The identity as a string.
    pub fn identity(&self) -> (r: &String)
        ensures
            r@ == self.id(),
    {
        &self.id
    }

    /// The key, for encrypting to this recipient.
    pub fn key(&self) -> (r: &PublicKey)
        ensures
            r.der() == self.der(),
    {
        &self.key
    }
}

/// Whether some entry of a registry carries this identity.
pub open spec fn has_id(entries: Seq<(Seq<char>, Seq<u8>)>, id: Seq<char>) -> bool {
    exists|i: int| 0 <= i < entries.len() && (#[trigger] entries[i]).0 == id
}

/// The registry entries that a list of public-key DER encodings builds,
/// in order: each key under its fingerprint, the first key with a given
/// fingerprint winning and later ones with the same fingerprint adding
/// nothing.
pub open spec fn registry_fold(ders: Seq<Seq<u8>>) -> Seq<(Seq<char>, Seq<u8>)>
    decreases ders.len(),
{
    if ders.len() == 0 {
        Seq::empty()
    } else {
        let prev = registry_fold(ders.drop_last());
        let d = ders.last();
        if has_id(prev, identity_of(d)) {
            prev
        } else {
            prev.push((identity_of(d), d))
        }
    }
}

/// The DER encodings that a list of readable PEM documents yields, in
/// order.
pub open spec fn ders_of_pems(pems: Seq<Seq<char>>) -> Seq<Seq<u8>> {
    pems.map_values(|p: Seq<char>| pub_key_der_of(p).unwrap())
}

/// The mapping from peer identity to public key: built once at startup,
/// read-only afterwards, shared by reference across the client's
/// components. Identities are unique, and each is the fingerprint of the
/// key it maps to.
pub struct KeyRegistry {
    peers: Vec<Peer>,
}

impl KeyRegistry {
    /// The entries of the registry: identity and key DER per recipient.
    pub closed spec fn entries(&self) -> Seq<(Seq<char>, Seq<u8>)> {
        self.peers.deep_view()
    }

    /// Every identity is its key's fingerprint, and no identity appears
    /// twice.
    pub closed spec fn wf(&self) -> bool {
        &&& forall|i: int|
            0 <= i < self.entries().len() ==> (#[trigger] self.entries()[i]).0 == identity_of(
                self.entries()[i].1,
            )
        &&& forall|i: int, j: int|
            0 <= i < j < self.entries().len() ==> (#[trigger] self.entries()[i]).0 != (
            #[trigger] self.entries()[j]).0
    }

    /// An empty registry.
    pub fn new() -> (r: KeyRegistry)
        ensures
            r.wf(),
            r.entries() == Seq::<(Seq<char>, Seq<u8>)>::empty(),
    {
        let r = KeyRegistry { peers: Vec::new() };
        proof {
            assert(r.entries() =~~= Seq::<(Seq<char>, Seq<u8>)>::empty());
        }
        r
    }

    /// How many recipients are registered.
    pub fn len(&self) -> (n: usize)
        ensures
            n == self.entries().len(),
    {
        self.peers.len()
    }

    /// Whether some recipient is registered under this identity.
    pub fn contains_id(&self, id: &String) -> (r: bool)
        ensures
            r == has_id(self.entries(), id@),
    {
        let n = self.peers.len();
        let mut i: usize = 0;
        while i < n
            invariant
                n == self.entries().len(),
                0 <= i <= n,
                forall|j: int| 0 <= j < i ==> (#[trigger] self.entries()[j]).0 != id@,
            decreases n - i,
        {
            let eq = self.peers[i].identity().eq(id);
            proof {
                assert(self.entries()[i as int] == self.peers@[i as int].deep_view());
                assert(self.entries()[i as int].0 == self.peers@[i as int].id());
            }
            if eq {
                return true;
            }
            i += 1;
        }
        false
    }

    /// Register a recipient key under its fingerprint. A key whose
    /// identity is already present is ignored, keeping the registry a
    /// mapping; returns whether the key was added.
    pub fn add(&mut self, key: PublicKey) -> (added: bool)
        requires
            old(self).wf(),
        ensures
            final(self).wf(),
            added == !has_id(old(self).entries(), identity_of(key.der())),
            added ==> final(self).entries() == old(self).entries().push(
                (identity_of(key.der()), key.der()),
            ),
            !added ==> final(self).entries() == old(self).entries(),
    {
        let peer = Peer::new(key);
        if self.contains_id(peer.identity()) {
            return false;
        }
        let ghost prev = self.entries();
        let ghost entry = peer.deep_view();
        self.peers.push(peer);
        proof {
            assert(self.entries() =~~= prev.push(entry));
        }
        true
    }

    /// Build a registry from PEM documents, one per recipient, as the
    /// startup configuration lists them. The first unreadable document
    /// aborts the build: an unreadable peer key is a startup
    /// misconfiguration. Keys with equal fingerprints collapse into one
    /// entry.
    pub fn from_pems(pems: &Vec<String>) -> (r: Result<KeyRegistry, KeyError>)
        ensures
            r is Ok <==> (forall|i: int|
                0 <= i < pems.deep_view().len() ==> (#[trigger] pub_key_der_of(
                    pems.deep_view()[i],
                )) is Some),
            r matches Ok(reg) ==> {
                &&& reg.wf()
                &&& reg.entries() == registry_fold(ders_of_pems(pems.deep_view()))
            },
            r matches Err(e) ==> e == KeyError::BadPublicKeyPem,
    {
        let ghost pemv = pems.deep_view();
        let mut reg = KeyRegistry::new();
        let n = pems.len();
        let mut i: usize = 0;
        proof {
            assert(pemv.take(0) =~= Seq::<Seq<char>>::empty());
            assert(ders_of_pems(pemv.take(0)) =~= Seq::<Seq<u8>>::empty());
            assert(reg.entries() =~= registry_fold(ders_of_pems(pemv.take(0))));
        }
        while i < n
            invariant
                reg.wf(),
                0 <= i <= n,
                n == pemv.len(),
                pemv == pems.deep_view(),
                n == pems@.len(),
                forall|j: int| 0 <= j < i ==> (#[trigger] pub_key_der_of(pemv[j])) is Some,
                reg.entries() == registry_fold(ders_of_pems(pemv.take(i as int))),
            decreases n - i,
        {
            proof {
                assert(pemv[i as int] == pems@[i as int]@);
            }
            let key = match PublicKey::from_pem(pems[i].as_str()) {
                Ok(k) => k,
                Err(_) => {
                    return Err(KeyError::BadPublicKeyPem);
                },
            };
            let ghost kder = key.der();
            let ghost prev_entries = reg.entries();
            reg.add(key);
            proof {
                let dprev = ders_of_pems(pemv.take(i as int));
                let dnext = ders_of_pems(pemv.take(i + 1));
                assert(Some(kder) == pub_key_der_of(pemv[i as int]));
                assert(dnext =~~= dprev.push(kder));
                assert(dnext.drop_last() =~~= dprev);
                assert(reg.entries() =~= registry_fold(dnext));
            }
            i += 1;
        }
        proof {
            assert(pemv.take(n as int) =~= pemv);
            assert(ders_of_pems(pemv.take(n as int)) =~= ders_of_pems(pemv));
        }
        Ok(reg)
    }
}

/// The frames one fan-out emits, given the per-recipient encryption
/// outcomes: for each recipient whose ciphertext is present, in registry
/// order, a frame addressed to that recipient carrying that ciphertext;
/// failed recipients contribute nothing.
pub open spec fn frames_of(
    entries: Seq<(Seq<char>, Seq<u8>)>,
    cts: Seq<Option<Seq<u8>>>,
) -> Seq<(Seq<char>, Seq<u8>)>
    decreases entries.len(),
{
    if entries.len() == 0 {
        Seq::empty()
    } else {
        let rest = frames_of(entries.drop_first(), cts.drop_first());
        match cts[0] {
            Some(c) => seq![(entries[0].0, c)] + rest,
            None => rest,
        }
    }
}

/// One complete fan-out, exactly: there is one outcome per registry
/// entry, in order — a ciphertext exactly for each recipient whose key
/// accepts the payload length, each decrypting back to the payload
/// under its recipient's key pair — and the frames are exactly those
/// outcomes' frames; what each ciphertext decrypts to is stated under
/// the genuine-RSA assumption `rsa_wf` on its recipient's key. A batch
/// that skips a recipient whose key accepts the payload, or invents a
/// frame, does not satisfy this.
pub open spec fn fanned_out(
    entries: Seq<(Seq<char>, Seq<u8>)>,
    frames: Seq<(Seq<char>, Seq<u8>)>,
    payload: Seq<u8>,
) -> bool {
    exists|cts: Seq<Option<Seq<u8>>>|
        {
            &&& cts.len() == entries.len()
            &&& (forall|i: int|
                0 <= i < cts.len() ==> ((#[trigger] cts[i]) is Some <==> fits_key(
                    entries[i].1,
                    payload.len(),
                )))
            &&& (forall|i: int|
                0 <= i < cts.len() ==> ((#[trigger] cts[i]) matches Some(c) ==> (rsa_wf(
                    entries[i].1,
                ) ==> decrypt_of(entries[i].1, c) == Some(payload))))
            &&& frames == frames_of(entries, cts)
        }
}

/// Soundness of a batch of frames for a payload: every frame is
/// addressed to some registered recipient and — for a genuine RSA key,
/// the named assumption `rsa_wf` — carries a ciphertext that the
/// matching private key decrypts back to the payload.
pub open spec fn frames_sound(
    entries: Seq<(Seq<char>, Seq<u8>)>,
    frames: Seq<(Seq<char>, Seq<u8>)>,
    payload: Seq<u8>,
) -> bool {
    forall|j: int|
        0 <= j < frames.len() ==> exists|i: int|
            0 <= i < entries.len() && (#[trigger] frames[j]).0 == (#[trigger] entries[i]).0 && (
            rsa_wf(entries[i].1) ==> decrypt_of(entries[i].1, frames[j].1) == Some(payload))
}

/// Appending one recipient outcome extends the expected frames by that
/// recipient's frame when its ciphertext is present, and by nothing when
/// it failed.
pub proof fn lemma_frames_of_push(
    entries: Seq<(Seq<char>, Seq<u8>)>,
    cts: Seq<Option<Seq<u8>>>,
    e: (Seq<char>, Seq<u8>),
    o: Option<Seq<u8>>,
)
    requires
        entries.len() == cts.len(),
    ensures
        frames_of(entries.push(e), cts.push(o)) == (match o {
            Some(c) => frames_of(entries, cts).push((e.0, c)),
            None => frames_of(entries, cts),
        }),
    decreases entries.len(),
{
    let pe = entries.push(e);
    let pc = cts.push(o);
    if entries.len() == 0 {
        assert(pe.drop_first() =~~= entries);
        assert(pc.drop_first() =~~= cts);
        match o {
            Some(c) => {
                assert(frames_of(pe, pc) =~~= frames_of(entries, cts).push((e.0, c)));
            },
            None => {
                assert(frames_of(pe, pc) =~~= frames_of(entries, cts));
            },
        }
    } else {
        assert(pe.drop_first() =~~= entries.drop_first().push(e));
        assert(pc.drop_first() =~~= cts.drop_first().push(o));
        lemma_frames_of_push(entries.drop_first(), cts.drop_first(), e, o);
        match o {
            Some(c) => {
                assert(frames_of(pe, pc) =~~= frames_of(entries, cts).push((e.0, c)));
            },
            None => {
                assert(frames_of(pe, pc) =~~= frames_of(entries, cts));
            },
        }
    }
}

/// Per-recipient isolation: a recipient whose encryption succeeded has
/// its frame in the fan-out, whatever happened to any other recipient.
/// In particular a failure for one recipient never suppresses another
/// recipient's frame.
pub proof fn lemma_per_recipient_isolation(
    entries: Seq<(Seq<char>, Seq<u8>)>,
    cts: Seq<Option<Seq<u8>>>,
    b: int,
)
    requires
        entries.len() == cts.len(),
        0 <= b < entries.len(),
        cts[b] is Some,
    ensures
        frames_of(entries, cts).contains((entries[b].0, cts[b]->0)),
    decreases entries.len(),
{
    let fs = frames_of(entries, cts);
    if b == 0 {
        assert(fs[0] == (entries[0].0, cts[0]->0));
    } else {
        lemma_per_recipient_isolation(entries.drop_first(), cts.drop_first(), b - 1);
        let rest = frames_of(entries.drop_first(), cts.drop_first());
        let f = (entries[b].0, cts[b]->0);
        assert((entries.drop_first()[b - 1].0, cts.drop_first()[b - 1]->0) == f);
        let k = choose|k: int| 0 <= k < rest.len() && rest[k] == f;
        match cts[0] {
            Some(c) => {
                assert(fs[k + 1] == f);
            },
            None => {
                assert(fs[k] == f);
            },
        }
    }
}

/// Encrypt one payload independently for every registered recipient.
/// The outcome vector has one slot per recipient, in registry order:
/// the ciphertext for each recipient whose key accepts the payload
/// length, nothing for each whose key does not.
pub fn encrypt_each(reg: &KeyRegistry, payload: &[u8]) -> (r: Vec<Option<Vec<u8>>>)
    ensures
        r.deep_view().len() == reg.entries().len(),
        forall|i: int|
            0 <= i < reg.entries().len() ==> ((#[trigger] r.deep_view()[i]) is Some <==> fits_key(
                reg.entries()[i].1,
                payload@.len(),
            )),
        forall|i: int|
            0 <= i < reg.entries().len() ==> ((#[trigger] r.deep_view()[i]) matches Some(c) ==> {
                &&& rsa_wf(reg.entries()[i].1) ==> decrypt_of(reg.entries()[i].1, c) == Some(
                    payload@,
                )
                &&& c.len() == rsa_key_bytes(reg.entries()[i].1)
            }),
{
    let n = reg.peers.len();
    let mut out: Vec<Option<Vec<u8>>> = Vec::new();
    let mut i: usize = 0;
    while i < n
        invariant
            n == reg.entries().len(),
            0 <= i <= n,
            out.deep_view().len() == i,
            forall|j: int|
                0 <= j < i ==> ((#[trigger] out.deep_view()[j]) is Some <==> fits_key(
                    reg.entries()[j].1,
                    payload@.len(),
                )),
            forall|j: int|
                0 <= j < i ==> ((#[trigger] out.deep_view()[j]) matches Some(c) ==> {
                    &&& rsa_wf(reg.entries()[j].1) ==> decrypt_of(reg.entries()[j].1, c) == Some(
                        payload@,
                    )
                    &&& c.len() == rsa_key_bytes(reg.entries()[j].1)
                }),
        decreases n - i,
    {
        let ghost prev = out.deep_view();
        proof {
            assert(reg.entries()[i as int] == reg.peers@[i as int].deep_view());
            assert(reg.entries()[i as int].1 == reg.peers@[i as int].der());
        }
        match encrypt_for(reg.peers[i].key(), payload) {
            Ok(c) => {
                let ghost cv = c@;
                proof {
                    assert(c.deep_view() =~= cv);
                }
                out.push(Some(c));
                proof {
                    assert(out.deep_view() =~~= prev.push(Some(cv)));
                }
            },
            Err(_) => {
                out.push(None);
                proof {
                    assert(out.deep_view() =~~= prev.push(None::<Seq<u8>>));
                }
            },
        }
        i += 1;
    }
    out
}

/// Turn the per-recipient outcomes into addressed frames: exactly one
/// frame per present ciphertext, in registry order, addressed to its
/// recipient. Failed recipients are skipped and affect nothing else.
pub fn collect_frames(reg: &KeyRegistry, cts: &Vec<Option<Vec<u8>>>) -> (r: Vec<RelayMessage>)
    requires
        cts.deep_view().len() == reg.entries().len(),
    ensures
        r.deep_view() == frames_of(reg.entries(), cts.deep_view()),
{
    let n = reg.peers.len();
    let mut out: Vec<RelayMessage> = Vec::new();
    let mut i: usize = 0;
    proof {
        assert(reg.entries().take(0) =~~= Seq::<(Seq<char>, Seq<u8>)>::empty());
        assert(cts.deep_view().take(0) =~~= Seq::<Option<Seq<u8>>>::empty());
        assert(out.deep_view() =~~= frames_of(reg.entries().take(0), cts.deep_view().take(0)));
    }
    while i < n
        invariant
            n == reg.entries().len(),
            cts.deep_view().len() == reg.entries().len(),
            0 <= i <= n,
            out.deep_view() == frames_of(reg.entries().take(i as int), cts.deep_view().take(i as int)),
        decreases n - i,
    {
        let ghost prev = out.deep_view();
        proof {
            assert(reg.entries()[i as int] == reg.peers@[i as int].deep_view());
        }
        match &cts[i] {
            Some(c) => {
                let ghost cv = c@;
                proof {
                    assert(c.deep_view() =~= cv);
                    assert(cts.deep_view()[i as int] == cts@[i as int].deep_view());
                    assert(cts.deep_view()[i as int] == Some(cv));
                }
                let msg = RelayMessage {
                    target: reg.peers[i].identity().clone(),
                    ciphertext: crate::state::copy_bytes(c.as_slice()),
                };
                let ghost mv = msg@;
                out.push(msg);
                proof {
                    assert(out.deep_view() =~= prev.push(mv));
                    assert(mv == (reg.entries()[i as int].0, cv));
                }
            },
            None => {
                proof {
                    assert(cts.deep_view()[i as int] == cts@[i as int].deep_view());
                    assert(cts.deep_view()[i as int] is None);
                }
            },
        }
        proof {
            let e = reg.entries();
            let c = cts.deep_view();
            assert(e.take(i + 1) =~~= e.take(i as int).push(e[i as int]));
            assert(c.take(i + 1) =~~= c.take(i as int).push(c[i as int]));
            lemma_frames_of_push(e.take(i as int), c.take(i as int), e[i as int], c[i as int]);
            assert(out.deep_view() =~= frames_of(e.take(i + 1), c.take(i + 1)));
        }
        i += 1;
    }
    proof {
        assert(reg.entries().take(n as int) =~~= reg.entries());
        assert(cts.deep_view().take(n as int) =~~= cts.deep_view());
    }
    out
}

/// One full encryption fan-out: encrypt the payload independently per
/// recipient and emit one addressed frame per success, in registry
/// order. A failure for one recipient skips exactly that recipient.
/// Every emitted frame is addressed to a registered recipient and
/// decrypts, under that recipient's key pair, back to the payload.
pub fn fan_out(reg: &KeyRegistry, payload: &[u8]) -> (r: Vec<RelayMessage>)
    ensures
        fanned_out(reg.entries(), r.deep_view(), payload@),
        frames_sound(reg.entries(), r.deep_view(), payload@),
{
    let cts = encrypt_each(reg, payload);
    let frames = collect_frames(reg, &cts);
    proof {
        let e = reg.entries();
        let c = cts.deep_view();
        lemma_frames_of_sound(e, c, payload@);
        assert(fanned_out(e, frames.deep_view(), payload@)) by {
            assert(c.len() == e.len()
                && (forall|i: int|
                0 <= i < c.len() ==> ((#[trigger] c[i]) is Some <==> fits_key(
                    e[i].1,
                    payload@.len(),
                ))) && (forall|i: int|
                0 <= i < c.len() ==> ((#[trigger] c[i]) matches Some(x) ==> (rsa_wf(e[i].1)
                    ==> decrypt_of(e[i].1, x) == Some(payload@)))) && frames.deep_view()
                == frames_of(e, c));
        }
    }
    frames
}

/// If every present ciphertext decrypts to the payload under its
/// recipient's key, the frames built from those outcomes are sound for
/// the payload.
pub proof fn lemma_frames_of_sound(
    entries: Seq<(Seq<char>, Seq<u8>)>,
    cts: Seq<Option<Seq<u8>>>,
    payload: Seq<u8>,
)
    requires
        entries.len() == cts.len(),
        forall|i: int|
            0 <= i < cts.len() ==> ((#[trigger] cts[i]) matches Some(c) ==> (rsa_wf(entries[i].1)
                ==> decrypt_of(entries[i].1, c) == Some(payload))),
    ensures
        frames_sound(entries, frames_of(entries, cts), payload),
    decreases entries.len(),
{
    let fs = frames_of(entries, cts);
    if entries.len() == 0 {
    } else {
        let te = entries.drop_first();
        let tc = cts.drop_first();
        lemma_frames_of_sound(te, tc, payload);
        let rest = frames_of(te, tc);
        assert forall|j: int| 0 <= j < fs.len() implies exists|i: int|
            0 <= i < entries.len() && (#[trigger] fs[j]).0 == (#[trigger] entries[i]).0 && (
            rsa_wf(entries[i].1) ==> decrypt_of(entries[i].1, fs[j].1) == Some(payload)) by {
            match cts[0] {
                Some(c) => {
                    if j == 0 {
                        assert(fs[0] == (entries[0].0, c));
                        assert(0 <= 0 < entries.len() && fs[j].0 == entries[0].0 && (rsa_wf(
                            entries[0].1,
                        ) ==> decrypt_of(entries[0].1, fs[j].1) == Some(payload)));
                    } else {
                        assert(fs[j] == rest[j - 1]);
                        let i0 = choose|i0: int|
                            0 <= i0 < te.len() && rest[j - 1].0 == te[i0].0 && (rsa_wf(te[i0].1)
                                ==> decrypt_of(te[i0].1, rest[j - 1].1) == Some(payload));
                        assert(te[i0] == entries[i0 + 1]);
                        assert(0 <= i0 + 1 < entries.len() && fs[j].0 == entries[i0 + 1].0 && (
                        rsa_wf(entries[i0 + 1].1) ==> decrypt_of(entries[i0 + 1].1, fs[j].1)
                            == Some(payload)));
                    }
                },
                None => {
                    assert(fs[j] == rest[j]);
                    let i0 = choose|i0: int|
                        0 <= i0 < te.len() && rest[j].0 == te[i0].0 && (rsa_wf(te[i0].1)
                            ==> decrypt_of(te[i0].1, rest[j].1) == Some(payload));
                    assert(te[i0] == entries[i0 + 1]);
                    assert(0 <= i0 + 1 < entries.len() && fs[j].0 == entries[i0 + 1].0 && (rsa_wf(
                        entries[i0 + 1].1,
                    ) ==> decrypt_of(entries[i0 + 1].1, fs[j].1) == Some(payload)));
                },
            }
        }
    }
}

} // verus!
