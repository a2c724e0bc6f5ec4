//! Client registry: the persistent set of paired clients keyed by their
//! unique id, and the table of pairing handshakes in progress.
//!
//! The five-step pairing handshake advances a [`PendingClient`] through
//! the registry methods; completing it promotes the entry to a
//! [`Client`]. All cryptographic material is held as plain byte strings.

use vstd::prelude::*;
use vstd::string::StringSliceAdditionalSpecFns;

use crate::bytes::bytes_eq;

use crate::crypto::{
    aes_128_ecb_decrypt, aes_128_ecb_encrypt, aes_ecb_decrypt_of, aes_ecb_encrypt_of,
    random_bytes_16, sha256, sha256_of, x509_pem_ok_of, OPENSSL_MAX_INPUT,
};

verus! {

/// A fully paired client.
pub struct Client {
    /// Opaque client-chosen identifier. All clients of one vendor may
    /// share a single id, so duplicates are tolerated by replacement.
    pub unique_id: String,
    /// PEM-encoded client certificate.
    pub certificate: Vec<u8>,
    /// The 16 random bytes generated for the client challenge step.
    pub server_secret: Vec<u8>,
    /// The 16-byte challenge this server posed during pairing.
    pub server_challenge: Vec<u8>,
    /// The hash the client committed to during the handshake.
    pub client_hash: Vec<u8>,
    /// The shared AES-128 key derived from salt and PIN.
    pub key: Vec<u8>,
}

/// A pairing handshake in progress. Fields that appear in later steps
/// hold nothing until that step has run.
pub struct PendingClient {
    pub unique_id: String,
    /// PEM-encoded client certificate, already checked to parse.
    pub certificate: Vec<u8>,
    /// The 16-byte salt the client supplied at the first step.
    pub salt: Vec<u8>,
    /// The AES-128 key derived once the PIN arrives.
    pub key: Option<Vec<u8>>,
    pub server_secret: Option<Vec<u8>>,
    pub server_challenge: Option<Vec<u8>>,
    pub client_hash: Option<Vec<u8>>,
    /// The bytes of the PIN the key was derived from, kept for the
    /// specification only.
    pub pin: Ghost<Option<Seq<u8>>>,
}

/// Why a registry operation failed.
#[derive(Clone, Copy, Debug, PartialEq, Eq, Structural)]
pub enum PairError {
    /// No handshake (or no pending entry) exists for this unique id.
    UnknownUniqueId,
    /// A handshake for this unique id is already in progress.
    AlreadyPairing,
    /// The step needs the PIN-derived key, but no PIN has arrived.
    NoPin,
    /// The step needs material that an earlier step has not produced.
    OutOfOrder,
    /// A value has the wrong length for its step.
    BadLength,
    /// The client's pairing secret does not match its committed hash.
    Mismatch,
    /// The random generator reported failure; the ciphers and digest
    /// are total on the inputs the registry hands them.
    CryptoFailure,
}

/// The AES-128 key that a salt and a PIN derive: the first 16 bytes of
/// `SHA-256(salt || pin)`.
pub open spec fn derived_key(salt: Seq<u8>, pin_bytes: Seq<u8>) -> Seq<u8> {
    sha256_of(salt + pin_bytes).subrange(0, 16)
}

impl Client {
    /// Invariant of a promoted client: all cryptographic fields have
    /// their protocol lengths; the key is non-empty and fixed.
    pub open spec fn wf(self) -> bool {
        &&& self.key@.len() == 16
        &&& self.server_secret@.len() == 16
        &&& self.server_challenge@.len() == 16
        &&& self.client_hash@.len() == 16
    }
}

impl PendingClient {
    /// Invariant of a handshake in progress. In particular: whenever the
    /// key is present it was derived from this entry's salt and the PIN
    /// recorded for the specification.
    pub open spec fn wf(self) -> bool {
        &&& self.salt@.len() == 16
        &&& x509_pem_ok_of(self.certificate@)
        &&& match self.key {
            Some(k) => k@.len() == 16 && (self.pin@ matches Some(p) && k@ == derived_key(
                self.salt@,
                p,
            )),
            None => true,
        }
        &&& self.server_secret matches Some(s) ==> s@.len() == 16
        &&& self.server_challenge matches Some(c) ==> c@.len() == 16
        &&& self.client_hash matches Some(h) ==> h@.len() == 16
    }
}

/// Whether some pending entry carries this unique id.
pub open spec fn has_pending_id(ps: Seq<PendingClient>, id: Seq<char>) -> bool {
    exists|i: int| 0 <= i < ps.len() && ps[i].unique_id@ == id
}

/// Whether some client carries this unique id.
pub open spec fn has_client_id(cs: Seq<Client>, id: Seq<char>) -> bool {
    exists|i: int| 0 <= i < cs.len() && cs[i].unique_id@ == id
}

/// The index of the pending entry with this unique id.
pub open spec fn pending_index_of(ps: Seq<PendingClient>, id: Seq<char>) -> int {
    choose|i: int| 0 <= i < ps.len() && ps[i].unique_id@ == id
}

/// The index of the client with this unique id.
pub open spec fn client_index_of(cs: Seq<Client>, id: Seq<char>) -> int {
    choose|i: int| 0 <= i < cs.len() && cs[i].unique_id@ == id
}

/// The registry: paired clients and handshakes in progress. Ids are
/// unique within each table.
pub struct ClientRegistry {
    pub clients: Vec<Client>,
    pub pending: Vec<PendingClient>,
}

impl ClientRegistry {
    pub open spec fn wf(self) -> bool {
        &&& forall|i: int| 0 <= i < self.clients@.len() ==> (#[trigger] self.clients@[i]).wf()
        &&& forall|i: int, j: int|
            0 <= i < j < self.clients@.len() ==> self.clients@[i].unique_id@
                != self.clients@[j].unique_id@
        &&& forall|i: int| 0 <= i < self.pending@.len() ==> (#[trigger] self.pending@[i]).wf()
        &&& forall|i: int, j: int|
            0 <= i < j < self.pending@.len() ==> self.pending@[i].unique_id@
                != self.pending@[j].unique_id@
    }

    /// An empty registry.
    pub fn new() -> (r: ClientRegistry)
        ensures
            r.wf(),
            r.clients@.len() == 0,
            r.pending@.len() == 0,
    {
        ClientRegistry { clients: Vec::new(), pending: Vec::new() }
    }

    /// The index of the pending entry for `id`, if one exists.
    fn find_pending(&self, id: &String) -> (r: Option<usize>)
        ensures
            match r {
                Some(i) => i < self.pending@.len() && self.pending@[i as int].unique_id@ == id@,
                None => !has_pending_id(self.pending@, id@),
            },
    {
        let mut i: usize = 0;
        while i < self.pending.len()
            invariant
                i <= self.pending@.len(),
                forall|j: int| 0 <= j < i ==> self.pending@[j].unique_id@ != id@,
            decreases self.pending@.len() - i,
        {
            if self.pending[i].unique_id == *id {
                return Some(i);
            }
            i += 1;
        }
        None
    }

    /// The index of the client entry for `id`, if one exists.
    fn find_client(&self, id: &String) -> (r: Option<usize>)
        ensures
            match r {
                Some(i) => i < self.clients@.len() && self.clients@[i as int].unique_id@ == id@,
                None => !has_client_id(self.clients@, id@),
            },
    {
        let mut i: usize = 0;
        while i < self.clients.len()
            invariant
                i <= self.clients@.len(),
                forall|j: int| 0 <= j < i ==> self.clients@[j].unique_id@ != id@,
            decreases self.clients@.len() - i,
        {
            if self.clients[i].unique_id == *id {
                return Some(i);
            }
            i += 1;
        }
        None
    }

    /// First handshake step: registers a new pending client. Rejected
    /// when a handshake for the same unique id is already in progress,
    /// so concurrent handshakes cannot race.
    pub fn start_pairing(&mut self, pending: PendingClient) -> (r: Result<(), PairError>)
        requires
            old(self).wf(),
            pending.wf(),
        ensures
            final(self).wf(),
            final(self).clients@ == old(self).clients@,
            match r {
                Ok(()) => {
                    &&& !has_pending_id(old(self).pending@, pending.unique_id@)
                    &&& final(self).pending@ == old(self).pending@.push(pending)
                },
                Err(e) => {
                    &&& e == PairError::AlreadyPairing
                    &&& has_pending_id(old(self).pending@, pending.unique_id@)
                    &&& final(self).pending@ == old(self).pending@
                },
            },
    {
        match self.find_pending(&pending.unique_id) {
            Some(_) => Err(PairError::AlreadyPairing),
            None => {
                self.pending.push(pending);
                Ok(())
            },
        }
    }

    /// Remove the pending entry at a known index.
    fn drop_pending_at(&mut self, i: usize)
        requires
            old(self).wf(),
            i < old(self).pending@.len(),
        ensures
            final(self).wf(),
            final(self).clients@ == old(self).clients@,
            final(self).pending@ == old(self).pending@.remove(i as int),
    {
        self.pending.remove(i);
    }

    /// Drop the handshake in progress for `id`, if any. Every pairing
    /// error on an identified handshake discards the handshake.
    pub fn drop_pending(&mut self, id: &String)
        requires
            old(self).wf(),
        ensures
            final(self).wf(),
            final(self).clients@ == old(self).clients@,
            has_pending_id(old(self).pending@, id@) ==> final(self).pending@ == old(
                self,
            ).pending@.remove(pending_index_of(old(self).pending@, id@)),
            !has_pending_id(old(self).pending@, id@) ==> final(self).pending@ == old(self).pending@,
    {
        match self.find_pending(id) {
            Some(i) => {
                proof {
                    lemma_pending_index_agrees(self.pending@, id@, i as int);
                }
                self.drop_pending_at(i);
            },
            None => (),
        }
    }

    /// The PIN has arrived for `id`: derive the shared AES-128 key as the
    /// first 16 bytes of `SHA-256(salt || pin)` and store it.
    pub fn provide_pin(&mut self, id: &String, pin: &str) -> (r: Result<(), PairError>)
        requires
            old(self).wf(),
        ensures
            final(self).wf(),
            final(self).clients@ == old(self).clients@,
            match r {
                Ok(()) => {
                    let idx = pending_index_of(old(self).pending@, id@);
                    let p = old(self).pending@[idx];
                    &&& has_pending_id(old(self).pending@, id@)
                    &&& final(self).pending@.len() == old(self).pending@.len()
                    &&& forall|j: int|
                        0 <= j < final(self).pending@.len() && j != idx ==> final(self).pending@[j] == old(
                            self,
                        ).pending@[j]
                    &&& final(self).pending@[idx].unique_id@ == p.unique_id@
                    &&& final(self).pending@[idx].certificate@ == p.certificate@
                    &&& final(self).pending@[idx].salt@ == p.salt@
                    &&& final(self).pending@[idx].server_secret == p.server_secret
                    &&& final(self).pending@[idx].server_challenge == p.server_challenge
                    &&& final(self).pending@[idx].client_hash == p.client_hash
                    &&& final(self).pending@[idx].key matches Some(k) && k@ == derived_key(
                        p.salt@,
                        pin.spec_bytes(),
                    )
                },
                Err(e) => {
                    &&& e == PairError::UnknownUniqueId
                    &&& !has_pending_id(old(self).pending@, id@)
                    &&& final(self).pending@ == old(self).pending@
                },
            },
    {
        let i = match self.find_pending(id) {
            Some(i) => i,
            None => return Err(PairError::UnknownUniqueId),
        };
        proof {
            lemma_pending_index_agrees(self.pending@, id@, i as int);
        }
        let mut p = self.pending.remove(i);
        let mut buf = p.salt.clone();
        let pin_bytes = pin.as_bytes_vec();
        buf.extend_from_slice(pin_bytes.as_slice());
        assert(buf@ =~= p.salt@ + pin_bytes@);
        let mut digest = sha256(&buf);
        digest.truncate(16);
        assert(digest@ =~= derived_key(p.salt@, pin_bytes@));
        p.key = Some(digest);
        p.pin = Ghost(Some(pin_bytes@));
        self.pending.insert(i, p);
        assert(self.pending@ =~= old(self).pending@.update(
            i as int,
            self.pending@[i as int],
        ));
        Ok(())
    }

    /// Second handshake step: decrypt the client's challenge, pose our
    /// own, and answer with the encrypted challenge hash. The response
    /// is the first 16 bytes of
    /// `AES-ECB(key, SHA-256(cert_sig || decrypted || server_secret))`,
    /// where `server_secret` and the stored server challenge are fresh
    /// random bytes.
    pub fn client_challenge(
        &mut self,
        id: &String,
        challenge: &Vec<u8>,
        cert_sig: &Vec<u8>,
    ) -> (r: Result<Vec<u8>, PairError>)
        requires
            old(self).wf(),
        ensures
            final(self).wf(),
            final(self).clients@ == old(self).clients@,
            ({
                let idx = pending_index_of(old(self).pending@, id@);
                let p = old(self).pending@[idx];
                match r {
                    Ok(resp) => {
                        let q = final(self).pending@[idx];
                        &&& has_pending_id(old(self).pending@, id@)
                        &&& challenge@.len() == 16
                        &&& final(self).pending@.len() == old(self).pending@.len()
                        &&& forall|j: int|
                            0 <= j < final(self).pending@.len() && j != idx ==> final(self).pending@[j] == old(self).pending@[j]
                        &&& q.unique_id@ == p.unique_id@
                        &&& q.certificate@ == p.certificate@
                        &&& q.salt@ == p.salt@
                        &&& q.key == p.key
                        &&& q.pin == p.pin
                        &&& q.client_hash == p.client_hash
                        &&& p.key matches Some(k)
                        &&& q.server_secret matches Some(ss)
                        &&& q.server_challenge is Some
                        &&& resp@ == aes_ecb_encrypt_of(
                            k@,
                            sha256_of(cert_sig@ + aes_ecb_decrypt_of(k@, challenge@) + ss@),
                        ).subrange(0, 16)
                    },
                    Err(e) => {
                        &&& (e == PairError::UnknownUniqueId || e == PairError::NoPin
                            || e == PairError::BadLength || e == PairError::CryptoFailure)
                        &&& e == PairError::UnknownUniqueId ==> !has_pending_id(
                            old(self).pending@,
                            id@,
                        ) && final(self).pending@ == old(self).pending@
                        &&& e != PairError::UnknownUniqueId ==> has_pending_id(
                            old(self).pending@,
                            id@,
                        ) && final(self).pending@ == old(self).pending@.remove(idx)
                        &&& e == PairError::NoPin ==> p.key is None
                        &&& e == PairError::BadLength ==> p.key is Some && challenge@.len() != 16
                    },
                }
            }),
    {
        let i = match self.find_pending(id) {
            Some(i) => i,
            None => return Err(PairError::UnknownUniqueId),
        };
        proof {
            lemma_pending_index_agrees(self.pending@, id@, i as int);
        }
        if self.pending[i].key.is_none() {
            self.drop_pending_at(i);
            return Err(PairError::NoPin);
        }
        if challenge.len() != 16 {
            self.drop_pending_at(i);
            return Err(PairError::BadLength);
        }
        let mut p = self.pending.remove(i);
        let key = match &p.key {
            Some(k) => k.clone(),
            None => {
                proof {
                    assert(false);
                }
                Vec::new()
            },
        };
        let decrypted = aes_128_ecb_decrypt(&key, challenge);
        let server_secret = match random_bytes_16() {
            Some(s) => s,
            None => return Err(PairError::CryptoFailure),
        };
        let server_challenge = match random_bytes_16() {
            Some(s) => s,
            None => return Err(PairError::CryptoFailure),
        };
        let mut buf = cert_sig.clone();
        buf.extend_from_slice(decrypted.as_slice());
        buf.extend_from_slice(server_secret.as_slice());
        assert(buf@ =~= cert_sig@ + decrypted@ + server_secret@);
        let hash = sha256(&buf);
        let mut ct = aes_128_ecb_encrypt(&key, &hash);
        ct.truncate(16);
        p.server_secret = Some(server_secret);
        p.server_challenge = Some(server_challenge);
        self.pending.insert(i, p);
        Ok(ct)
    }

    /// Third handshake step: decrypt the client's 32-byte response,
    /// store the committed client hash (its second half), and answer
    /// with the encrypted server secret.
    pub fn server_challenge_response(&mut self, id: &String, data: &Vec<u8>) -> (r: Result<
        Vec<u8>,
        PairError,
    >)
        requires
            old(self).wf(),
        ensures
            final(self).wf(),
            final(self).clients@ == old(self).clients@,
            ({
                let idx = pending_index_of(old(self).pending@, id@);
                let p = old(self).pending@[idx];
                match r {
                    Ok(resp) => {
                        let q = final(self).pending@[idx];
                        &&& has_pending_id(old(self).pending@, id@)
                        &&& data@.len() == 32
                        &&& final(self).pending@.len() == old(self).pending@.len()
                        &&& forall|j: int|
                            0 <= j < final(self).pending@.len() && j != idx ==> final(self).pending@[j] == old(self).pending@[j]
                        &&& q.unique_id@ == p.unique_id@
                        &&& q.certificate@ == p.certificate@
                        &&& q.salt@ == p.salt@
                        &&& q.key == p.key
                        &&& q.pin == p.pin
                        &&& q.server_secret == p.server_secret
                        &&& q.server_challenge == p.server_challenge
                        &&& p.key matches Some(k)
                        &&& p.server_secret matches Some(ss)
                        &&& q.client_hash matches Some(h)
                        &&& h@ == aes_ecb_decrypt_of(k@, data@).subrange(16, 32)
                        &&& resp@ == aes_ecb_encrypt_of(k@, ss@)
                    },
                    Err(e) => {
                        &&& (e == PairError::UnknownUniqueId || e == PairError::NoPin
                            || e == PairError::OutOfOrder || e == PairError::BadLength)
                        &&& e == PairError::UnknownUniqueId ==> !has_pending_id(
                            old(self).pending@,
                            id@,
                        ) && final(self).pending@ == old(self).pending@
                        &&& e != PairError::UnknownUniqueId ==> has_pending_id(
                            old(self).pending@,
                            id@,
                        ) && final(self).pending@ == old(self).pending@.remove(idx)
                        &&& e == PairError::NoPin ==> p.key is None
                        &&& e == PairError::OutOfOrder ==> p.key is Some && p.server_secret is None
                        &&& e == PairError::BadLength ==> p.key is Some && p.server_secret is Some
                            && data@.len() != 32
                    },
                }
            }),
            has_pending_id(old(self).pending@, id@) && old(self).pending@[pending_index_of(
                old(self).pending@,
                id@,
            )].key is Some && old(self).pending@[pending_index_of(
                old(self).pending@,
                id@,
            )].server_secret is Some && data@.len() == 32 ==> r is Ok,
    {
        let i = match self.find_pending(id) {
            Some(i) => i,
            None => return Err(PairError::UnknownUniqueId),
        };
        proof {
            lemma_pending_index_agrees(self.pending@, id@, i as int);
        }
        if self.pending[i].key.is_none() {
            self.drop_pending_at(i);
            return Err(PairError::NoPin);
        }
        if self.pending[i].server_secret.is_none() {
            self.drop_pending_at(i);
            return Err(PairError::OutOfOrder);
        }
        if data.len() != 32 {
            self.drop_pending_at(i);
            return Err(PairError::BadLength);
        }
        let mut p = self.pending.remove(i);
        let key = match &p.key {
            Some(k) => k.clone(),
            None => {
                proof {
                    assert(false);
                }
                Vec::new()
            },
        };
        let secret = match &p.server_secret {
            Some(s) => s.clone(),
            None => {
                proof {
                    assert(false);
                }
                Vec::new()
            },
        };
        let plain = aes_128_ecb_decrypt(&key, data);
        let mut client_hash: Vec<u8> = Vec::new();
        let mut j: usize = 0;
        while j < 16
            invariant
                j <= 16,
                plain@.len() == 32,
                client_hash@ == plain@.subrange(16, 16 + j as int),
            decreases 16 - j,
        {
            client_hash.push(plain[16 + j]);
            assert(client_hash@ =~= plain@.subrange(16, 16 + (j + 1) as int));
            j += 1;
        }
        let ct = aes_128_ecb_encrypt(&key, &secret);
        p.client_hash = Some(client_hash);
        self.pending.insert(i, p);
        Ok(ct)
    }

    /// Fifth handshake step: check the client's pairing secret. The
    /// handshake is accepted exactly when the first 16 bytes of
    /// `SHA-256(server_challenge || decrypted_secret)` equal the stored
    /// client hash; on a mismatch the handshake is dropped.
    pub fn check_client_pairing_secret(&mut self, id: &String, secret: &Vec<u8>) -> (r: Result<
        (),
        PairError,
    >)
        requires
            old(self).wf(),
        ensures
            final(self).wf(),
            final(self).clients@ == old(self).clients@,
            ({
                let idx = pending_index_of(old(self).pending@, id@);
                let p = old(self).pending@[idx];
                match r {
                    Ok(()) => {
                        &&& has_pending_id(old(self).pending@, id@)
                        &&& final(self).pending@ == old(self).pending@
                        &&& p.key matches Some(k)
                        &&& p.server_challenge matches Some(sc)
                        &&& p.client_hash matches Some(h)
                        &&& secret@.len() % 16 == 0
                        &&& secret@.len() <= OPENSSL_MAX_INPUT
                        &&& sha256_of(sc@ + aes_ecb_decrypt_of(k@, secret@)).subrange(0, 16) == h@
                    },
                    Err(e) => {
                        &&& (e == PairError::UnknownUniqueId || e == PairError::NoPin
                            || e == PairError::OutOfOrder || e == PairError::BadLength
                            || e == PairError::Mismatch)
                        &&& e == PairError::UnknownUniqueId ==> !has_pending_id(
                            old(self).pending@,
                            id@,
                        ) && final(self).pending@ == old(self).pending@
                        &&& e != PairError::UnknownUniqueId ==> has_pending_id(
                            old(self).pending@,
                            id@,
                        ) && final(self).pending@ == old(self).pending@.remove(idx)
                        &&& e == PairError::NoPin ==> p.key is None
                        &&& e == PairError::OutOfOrder ==> p.key is Some && (
                        p.server_challenge is None || p.client_hash is None)
                        &&& e == PairError::BadLength ==> (secret@.len() % 16 != 0
                            || secret@.len() > OPENSSL_MAX_INPUT)
                        &&& e == PairError::Mismatch ==> (p.key matches Some(k)
                            && p.server_challenge matches Some(sc) && p.client_hash matches Some(h)
                            && sha256_of(sc@ + aes_ecb_decrypt_of(k@, secret@)).subrange(0, 16)
                            != h@)
                    },
                }
            }),
            ({
                let idx = pending_index_of(old(self).pending@, id@);
                let p = old(self).pending@[idx];
                has_pending_id(old(self).pending@, id@) && p.key is Some
                    && p.server_challenge is Some && p.client_hash is Some && secret@.len() % 16
                    == 0 && secret@.len() <= OPENSSL_MAX_INPUT && sha256_of(
                    p.server_challenge->Some_0@ + aes_ecb_decrypt_of(p.key->Some_0@, secret@),
                ).subrange(0, 16) == p.client_hash->Some_0@ ==> r is Ok
            }),
    {
        let i = match self.find_pending(id) {
            Some(i) => i,
            None => return Err(PairError::UnknownUniqueId),
        };
        proof {
            lemma_pending_index_agrees(self.pending@, id@, i as int);
        }
        if self.pending[i].key.is_none() {
            self.drop_pending_at(i);
            return Err(PairError::NoPin);
        }
        if self.pending[i].server_challenge.is_none() || self.pending[i].client_hash.is_none() {
            self.drop_pending_at(i);
            return Err(PairError::OutOfOrder);
        }
        if secret.len() % 16 != 0 || secret.len() > OPENSSL_MAX_INPUT {
            self.drop_pending_at(i);
            return Err(PairError::BadLength);
        }
        let key = match &self.pending[i].key {
            Some(k) => k.clone(),
            None => {
                proof {
                    assert(false);
                }
                Vec::new()
            },
        };
        let challenge = match &self.pending[i].server_challenge {
            Some(c) => c.clone(),
            None => {
                proof {
                    assert(false);
                }
                Vec::new()
            },
        };
        let plain = aes_128_ecb_decrypt(&key, secret);
        let mut buf = challenge.clone();
        buf.extend_from_slice(plain.as_slice());
        assert(buf@ =~= challenge@ + plain@);
        let mut computed = sha256(&buf);
        computed.truncate(16);
        let matches_hash = match &self.pending[i].client_hash {
            Some(h) => bytes_eq(&computed, h),
            None => {
                proof {
                    assert(false);
                }
                false
            },
        };
        if matches_hash {
            Ok(())
        } else {
            self.drop_pending_at(i);
            Err(PairError::Mismatch)
        }
    }

    /// Fourth handshake step: promote the pending client to a paired
    /// client and persistable registry entry. A client that already used
    /// this unique id is replaced: the most recent pairing wins.
    pub fn add_client(&mut self, id: &String) -> (r: Result<(), PairError>)
        requires
            old(self).wf(),
        ensures
            final(self).wf(),
            add_client_rel(*old(self), *final(self), id@, r),
    {
        let i = match self.find_pending(id) {
            Some(i) => i,
            None => return Err(PairError::UnknownUniqueId),
        };
        proof {
            lemma_pending_index_agrees(self.pending@, id@, i as int);
        }
        if self.pending[i].key.is_none() {
            self.drop_pending_at(i);
            return Err(PairError::NoPin);
        }
        if self.pending[i].server_secret.is_none() || self.pending[i].server_challenge.is_none()
            || self.pending[i].client_hash.is_none() {
            self.drop_pending_at(i);
            return Err(PairError::OutOfOrder);
        }
        let p = self.pending.remove(i);
        let client = promote_pending(p);
        match self.find_client(id) {
            Some(ci) => {
                proof {
                    lemma_client_index_agrees(self.clients@, id@, ci as int);
                }
                self.clients.remove(ci);
                self.clients.push(client);
            },
            None => {
                self.clients.push(client);
            },
        }
        Ok(())
    }
}

/// Build the persistent client from a completed handshake.
fn promote_pending(p: PendingClient) -> (c: Client)
    requires
        p.wf(),
        p.key is Some,
        p.server_secret is Some,
        p.server_challenge is Some,
        p.client_hash is Some,
    ensures
        c.wf(),
        promoted_from(c, p),
{
    let key = match p.key {
        Some(k) => k,
        None => {
            proof {
                assert(false);
            }
            Vec::new()
        },
    };
    let server_secret = match p.server_secret {
        Some(s) => s,
        None => {
            proof {
                assert(false);
            }
            Vec::new()
        },
    };
    let server_challenge = match p.server_challenge {
        Some(s) => s,
        None => {
            proof {
                assert(false);
            }
            Vec::new()
        },
    };
    let client_hash = match p.client_hash {
        Some(h) => h,
        None => {
            proof {
                assert(false);
            }
            Vec::new()
        },
    };
    Client {
        unique_id: p.unique_id,
        certificate: p.certificate,
        server_secret,
        server_challenge,
        client_hash,
        key,
    }
}

/// Whether `c` is the promotion of the completed handshake `p`: same
/// unique id and certificate, and every cryptographic field carried
/// over unchanged.
pub open spec fn promoted_from(c: Client, p: PendingClient) -> bool {
    &&& c.unique_id@ == p.unique_id@
    &&& c.certificate@ == p.certificate@
    &&& p.key matches Some(k) && c.key@ == k@
    &&& p.server_secret matches Some(s) && c.server_secret@ == s@
    &&& p.server_challenge matches Some(sc) && c.server_challenge@ == sc@
    &&& p.client_hash matches Some(h) && c.client_hash@ == h@
}

/// The full transition of `add_client`: what the registry becomes and
/// which result comes back, for every starting state.
pub open spec fn add_client_rel(
    pre: ClientRegistry,
    post: ClientRegistry,
    id: Seq<char>,
    r: Result<(), PairError>,
) -> bool {
    if !has_pending_id(pre.pending@, id) {
        &&& r == Err::<(), PairError>(PairError::UnknownUniqueId)
        &&& post.clients@ == pre.clients@
        &&& post.pending@ == pre.pending@
    } else {
        let idx = pending_index_of(pre.pending@, id);
        let p = pre.pending@[idx];
        &&& post.pending@ == pre.pending@.remove(idx)
        &&& if p.key is None {
            r == Err::<(), PairError>(PairError::NoPin) && post.clients@ == pre.clients@
        } else if p.server_secret is None || p.server_challenge is None || p.client_hash is None {
            r == Err::<(), PairError>(PairError::OutOfOrder) && post.clients@ == pre.clients@
        } else {
            &&& r == Ok::<(), PairError>(())
            &&& exists|c: Client|
                #[trigger] promoted_from(c, p) && if has_client_id(pre.clients@, id) {
                    post.clients@ == pre.clients@.remove(client_index_of(pre.clients@, id)).push(c)
                } else {
                    post.clients@ == pre.clients@.push(c)
                }
        }
    }
}

/// With unique ids, the client index found by search is the client
/// index of the specification.
proof fn lemma_client_index_agrees(cs: Seq<Client>, id: Seq<char>, i: int)
    requires
        0 <= i < cs.len(),
        cs[i].unique_id@ == id,
        forall|a: int, b: int| 0 <= a < b < cs.len() ==> cs[a].unique_id@ != cs[b].unique_id@,
    ensures
        client_index_of(cs, id) == i,
        has_client_id(cs, id),
{
    assert(has_client_id(cs, id));
    let k = client_index_of(cs, id);
    assert(0 <= k < cs.len() && cs[k].unique_id@ == id);
    if k != i {
        if k < i {
            assert(cs[k].unique_id@ != cs[i].unique_id@);
        } else {
            assert(cs[i].unique_id@ != cs[k].unique_id@);
        }
    }
}

/// Key derivation law: every handshake that has received its PIN holds
/// the key `SHA-256(salt || pin)[0..16]`, and promotion carries the key
/// over unchanged. So a completed pairing yields a client whose key is
/// exactly the one derived from the salt and the PIN.
pub proof fn lemma_completed_pair_key(c: Client, p: PendingClient)
    requires
        p.wf(),
        promoted_from(c, p),
    ensures
        p.pin@ matches Some(pin) && c.key@ == derived_key(p.salt@, pin),
{
}

/// Promotion is idempotent: once `add_client` has run for a unique id,
/// running it again for the same id leaves the registry unchanged.
pub proof fn lemma_add_client_idempotent(
    pre: ClientRegistry,
    mid: ClientRegistry,
    post: ClientRegistry,
    id: Seq<char>,
    r1: Result<(), PairError>,
    r2: Result<(), PairError>,
)
    requires
        pre.wf(),
        add_client_rel(pre, mid, id, r1),
        add_client_rel(mid, post, id, r2),
    ensures
        post.clients@ == mid.clients@,
        post.pending@ == mid.pending@,
{
    if has_pending_id(pre.pending@, id) {
        let idx = pending_index_of(pre.pending@, id);
        assert(0 <= idx < pre.pending@.len() && pre.pending@[idx].unique_id@ == id);
        assert(mid.pending@ == pre.pending@.remove(idx));
        assert(!has_pending_id(mid.pending@, id)) by {
            if has_pending_id(mid.pending@, id) {
                let j = choose|j: int|
                    0 <= j < mid.pending@.len() && mid.pending@[j].unique_id@ == id;
                if j < idx {
                    assert(mid.pending@[j] == pre.pending@[j]);
                } else {
                    assert(mid.pending@[j] == pre.pending@[j + 1]);
                }
            }
        }
    }
}

/// With unique ids, the pending index found by search is the pending
/// index of the specification.
proof fn lemma_pending_index_agrees(ps: Seq<PendingClient>, id: Seq<char>, i: int)
    requires
        0 <= i < ps.len(),
        ps[i].unique_id@ == id,
        forall|a: int, b: int| 0 <= a < b < ps.len() ==> ps[a].unique_id@ != ps[b].unique_id@,
    ensures
        pending_index_of(ps, id) == i,
        has_pending_id(ps, id),
{
    assert(has_pending_id(ps, id));
    let k = pending_index_of(ps, id);
    assert(0 <= k < ps.len() && ps[k].unique_id@ == id);
    if k != i {
        if k < i {
            assert(ps[k].unique_id@ != ps[i].unique_id@);
        } else {
            assert(ps[i].unique_id@ != ps[k].unique_id@);
        }
    }
}

} // verus!
