//! Envelopes, sessions and signed hashes.
//!
//! An envelope carries a message from a sender to a recipient, both named by
//! their public keys. An open envelope holds the message in the clear. A
//! sealed envelope holds it encrypted and authenticated under a key that only
//! the two parties can compute, together with the nonce of that sealing.
//!
//! The primitives are not computed here. Each transition takes what the
//! primitive gave and decides what follows from it.

use vstd::prelude::*;
use crate::base58;
use crate::bytes::to_vec;
use crate::crypto::{Digest, Nonce, PublicKey, SignPublicKey};
use crate::errors::{Error, MessageError, SealedEnvelopeOpenFailed};
use crate::text::{decimal, push_decimal, push_text};
use crate::ulid::{be_bytes, be_value, ULID};

verus! {

/// Largest message that a sealed envelope may carry on the wire, in bytes:
/// 256 KiB.
pub const MAX_MSG_SIZE: usize = 262144;

/// Smallest size of a sealed envelope on the wire, in bytes: that of an
/// envelope with an empty message.
pub const SEALED_ENVELOPE_MIN_SIZE: usize = 90;

/// Number of bytes of a session identifier.
pub const SESSION_ID_BYTES: usize = 16;

/// The address of a peer: its public key. Equal addresses are the same peer.
#[derive(Debug, Clone, Copy, PartialEq, Eq, Hash)]
pub struct Address(PublicKey);

impl View for Address {
    type V = Seq<u8>;

    /// The bytes of the public key.
    closed spec fn view(&self) -> Seq<u8> {
        self.0.0@
    }
}

impl Address {
    /// The address of the peer with the public key `public_key`.
    pub fn new(public_key: PublicKey) -> (address: Address)
        ensures
            address@ == public_key.0@,
    {
        Address(public_key)
    }

    /// The public key of the peer.
    pub fn public_key(&self) -> (key: &PublicKey)
        ensures
            key.0@ == self@,
    {
        &self.0
    }

    /// An address has as many bytes as a public key.
    pub proof fn lemma_len(&self)
        ensures
            self@.len() == 32,
    {
    }

    /// Whether the two addresses are the same peer.
    pub fn same(&self, other: &Address) -> (equal: bool)
        ensures
            equal == (self@ == other@),
    {
        self.0.same(&other.0)
    }

    /// The text form of the address: its public key in base 58.
    pub fn to_string(&self) -> (text: String)
        ensures
            text@ == base58::encoding(self@),
    {
        base58::encode(self.0.0.as_slice())
    }
}

impl From<PublicKey> for Address {
    /// The address of the peer with the public key `public_key`.
    fn from(public_key: PublicKey) -> (address: Address)
        ensures
            address@ == public_key.0@,
    {
        Address(public_key)
    }
}

impl vstd::std_specs::convert::FromSpecImpl<PublicKey> for Address {
    open spec fn obeys_from_spec() -> bool {
        true
    }

    closed spec fn from_spec(public_key: PublicKey) -> Address {
        Address(public_key)
    }
}

/// The bytes of a message in the clear.
#[derive(Debug, Clone, PartialEq, Eq)]
pub struct MessageBytes(Vec<u8>);

impl View for MessageBytes {
    type V = Seq<u8>;

    closed spec fn view(&self) -> Seq<u8> {
        self.0@
    }
}

impl MessageBytes {
    /// A message that holds a copy of `bytes`.
    pub fn new(bytes: &[u8]) -> (message: Self)
        ensures
            message@ == bytes@,
    {
        MessageBytes(to_vec(bytes))
    }

    /// A message that holds `bytes`.
    pub fn from_vec(bytes: Vec<u8>) -> (message: Self)
        ensures
            message@ == bytes@,
    {
        MessageBytes(bytes)
    }

    /// The bytes of the message.
    pub fn data(&self) -> (bytes: &[u8])
        ensures
            bytes@ == self@,
    {
        self.0.as_slice()
    }
}

impl From<Vec<u8>> for MessageBytes {
    /// A message that holds `bytes`.
    fn from(bytes: Vec<u8>) -> (message: MessageBytes)
        ensures
            message@ == bytes@,
    {
        MessageBytes(bytes)
    }
}

impl vstd::std_specs::convert::FromSpecImpl<Vec<u8>> for MessageBytes {
    open spec fn obeys_from_spec() -> bool {
        true
    }

    closed spec fn from_spec(bytes: Vec<u8>) -> MessageBytes {
        MessageBytes(bytes)
    }
}

/// The bytes of a message that has been encrypted and authenticated.
#[derive(Debug, Clone, PartialEq, Eq)]
pub struct EncryptedMessageBytes(Vec<u8>);

impl View for EncryptedMessageBytes {
    type V = Seq<u8>;

    closed spec fn view(&self) -> Seq<u8> {
        self.0@
    }
}

impl EncryptedMessageBytes {
    /// A sealed message that holds a copy of `bytes`.
    pub fn new(bytes: &[u8]) -> (message: Self)
        ensures
            message@ == bytes@,
    {
        EncryptedMessageBytes(to_vec(bytes))
    }

    /// A sealed message that holds `bytes`.
    pub fn from_vec(bytes: Vec<u8>) -> (message: Self)
        ensures
            message@ == bytes@,
    {
        EncryptedMessageBytes(bytes)
    }

    /// The bytes of the sealed message.
    pub fn data(&self) -> (bytes: &[u8])
        ensures
            bytes@ == self@,
    {
        self.0.as_slice()
    }
}

impl From<Vec<u8>> for EncryptedMessageBytes {
    /// A sealed message that holds `bytes`.
    fn from(bytes: Vec<u8>) -> (message: EncryptedMessageBytes)
        ensures
            message@ == bytes@,
    {
        EncryptedMessageBytes(bytes)
    }
}

impl vstd::std_specs::convert::FromSpecImpl<Vec<u8>> for EncryptedMessageBytes {
    open spec fn obeys_from_spec() -> bool {
        true
    }

    closed spec fn from_spec(bytes: Vec<u8>) -> EncryptedMessageBytes {
        EncryptedMessageBytes(bytes)
    }
}

/// What an open envelope holds.
pub struct OpenEnvelopeView {
    /// Public key of the sender.
    pub sender: Seq<u8>,
    /// Public key of the recipient.
    pub recipient: Seq<u8>,
    /// The message, in the clear.
    pub msg: Seq<u8>,
}

/// What a sealed envelope holds.
pub struct SealedEnvelopeView {
    /// Public key of the sender.
    pub sender: Seq<u8>,
    /// Public key of the recipient.
    pub recipient: Seq<u8>,
    /// The nonce that the message was sealed with.
    pub nonce: Seq<u8>,
    /// The message, sealed.
    pub msg: Seq<u8>,
}

/// An envelope whose message is in the clear.
#[derive(Debug, Clone)]
pub struct OpenEnvelope {
    sender: Address,
    recipient: Address,
    msg: MessageBytes,
}

/// An envelope whose message is sealed: encrypted for the recipient and
/// authenticated as the sender's.
#[derive(Debug, Clone)]
pub struct SealedEnvelope {
    sender: Address,
    recipient: Address,
    nonce: Nonce,
    msg: EncryptedMessageBytes,
}

impl View for OpenEnvelope {
    type V = OpenEnvelopeView;

    closed spec fn view(&self) -> OpenEnvelopeView {
        OpenEnvelopeView { sender: self.sender@, recipient: self.recipient@, msg: self.msg@ }
    }
}

impl View for SealedEnvelope {
    type V = SealedEnvelopeView;

    closed spec fn view(&self) -> SealedEnvelopeView {
        SealedEnvelopeView {
            sender: self.sender@,
            recipient: self.recipient@,
            nonce: self.nonce.0@,
            msg: self.msg@,
        }
    }
}

impl OpenEnvelopeView {
    /// The envelope in words: `sender -> recipient, msg.len: N`.
    pub open spec fn text(self) -> Seq<char> {
        base58::encoding(self.sender) + " -> "@ + base58::encoding(self.recipient)
            + ", msg.len: "@ + decimal(self.msg.len())
    }

    /// The sealed envelope that this envelope becomes when its message has
    /// been sealed with `nonce` and `ciphertext` is what came of it.
    pub open spec fn seal(self, nonce: Seq<u8>, ciphertext: Seq<u8>) -> SealedEnvelopeView {
        SealedEnvelopeView {
            sender: self.sender,
            recipient: self.recipient,
            nonce,
            msg: ciphertext,
        }
    }
}

impl SealedEnvelopeView {
    /// The envelope in words: `sender -> recipient, nonce: <nonce>, msg.len: N`.
    pub open spec fn text(self) -> Seq<char> {
        base58::encoding(self.sender) + " -> "@ + base58::encoding(self.recipient) + ", nonce: "@
            + base58::encoding(self.nonce) + ", msg.len: "@ + decimal(self.msg.len())
    }

    /// The open envelope that this envelope becomes when its message has been
    /// opened and `plaintext` is what came of it.
    pub open spec fn open(self, plaintext: Seq<u8>) -> OpenEnvelopeView {
        OpenEnvelopeView { sender: self.sender, recipient: self.recipient, msg: plaintext }
    }

    /// What opening comes to when decryption gave `outcome`: the open
    /// envelope with the plaintext, or nothing where the message did not
    /// authenticate.
    pub open spec fn opened(self, outcome: Option<Seq<u8>>) -> Option<OpenEnvelopeView> {
        match outcome {
            Some(plaintext) => Some(self.open(plaintext)),
            None => None,
        }
    }

    /// The key fields have the lengths of keys and of a nonce.
    pub open spec fn wf(self) -> bool {
        &&& self.sender.len() == 32
        &&& self.recipient.len() == 32
        &&& self.nonce.len() == 24
    }
}

impl OpenEnvelope {
    /// An envelope from `sender` to `recipient` with a copy of `msg`.
    pub fn new(sender: Address, recipient: Address, msg: &[u8]) -> (envelope: OpenEnvelope)
        ensures
            envelope@ == (OpenEnvelopeView { sender: sender@, recipient: recipient@, msg: msg@ }),
    {
        OpenEnvelope { sender, recipient, msg: MessageBytes::new(msg) }
    }

    /// Seals the envelope: `nonce` is the fresh nonce of the sealing and
    /// `ciphertext` what authenticated encryption of `msg()` under the
    /// sealing key and that nonce gave. Sender and recipient stay.
    pub fn seal(self, nonce: Nonce, ciphertext: Vec<u8>) -> (sealed: SealedEnvelope)
        ensures
            sealed@ == self@.seal(nonce.0@, ciphertext@),
    {
        SealedEnvelope {
            sender: self.sender,
            recipient: self.recipient,
            nonce,
            msg: EncryptedMessageBytes::from_vec(ciphertext),
        }
    }

    /// The bytes of the message.
    pub fn msg(&self) -> (bytes: &[u8])
        ensures
            bytes@ == self@.msg,
    {
        self.msg.data()
    }

    /// The address of the sender.
    pub fn sender(&self) -> (address: &Address)
        ensures
            address@ == self@.sender,
    {
        &self.sender
    }

    /// The address of the recipient.
    pub fn recipient(&self) -> (address: &Address)
        ensures
            address@ == self@.recipient,
    {
        &self.recipient
    }

    /// The envelope in words, for diagnostics: the addresses in base 58 and
    /// the length of the message.
    pub fn to_string(&self) -> (text: String)
        ensures
            text@ == self@.text(),
    {
        let mut text = self.sender.to_string();
        push_text(&mut text, " -> ");
        push_text(&mut text, self.recipient.to_string().as_str());
        push_text(&mut text, ", msg.len: ");
        push_decimal(&mut text, self.msg.data().len());
        text
    }
}

impl SealedEnvelope {
    /// An envelope from `sender` to `recipient` that holds a copy of the
    /// sealed message `msg` and the nonce it was sealed with.
    pub fn new(sender: Address, recipient: Address, nonce: Nonce, msg: &[u8]) -> (envelope:
        SealedEnvelope)
        ensures
            envelope@ == (SealedEnvelopeView {
                sender: sender@,
                recipient: recipient@,
                nonce: nonce.0@,
                msg: msg@,
            }),
            envelope@.wf(),
    {
        SealedEnvelope { sender, recipient, nonce, msg: EncryptedMessageBytes::new(msg) }
    }

    /// A sealed envelope has key fields of the right lengths.
    pub proof fn lemma_wf(&self)
        ensures
            self@.wf(),
    {
    }

    /// Whether `error` says that this envelope could not be opened.
    pub open spec fn open_failed(&self, error: Error) -> bool {
        error matches Error::SealedEnvelopeOpenFailed(e) && e.sender.0@ == self@.sender
            && e.recipient.0@ == self@.recipient && e.nonce.0@ == self@.nonce && e.msg_len
            == self@.msg.len()
    }

    /// Opens the envelope: `opened` is what authenticated decryption of
    /// `msg()` under the opening key and `nonce()` gave, `None` where the
    /// message did not authenticate.
    ///
    /// With a plaintext the open envelope holds it, with the same sender and
    /// recipient. Without one the call fails with `SealedEnvelopeOpenFailed`,
    /// which tells whose envelope it was.
    pub fn open(self, opened: Option<Vec<u8>>) -> (result: Result<OpenEnvelope, Error>)
        ensures
            match self@.opened(
                match opened {
                    Some(plaintext) => Some(plaintext@),
                    None => None,
                },
            ) {
                Some(open) => result matches Ok(envelope) && envelope@ == open,
                None => result matches Err(error) && self.open_failed(error),
            },
    {
        match opened {
            Some(plaintext) => Ok(
                OpenEnvelope {
                    sender: self.sender,
                    recipient: self.recipient,
                    msg: MessageBytes::from_vec(plaintext),
                },
            ),
            None => Err(
                Error::SealedEnvelopeOpenFailed(
                    SealedEnvelopeOpenFailed {
                        sender: *self.sender.public_key(),
                        recipient: *self.recipient.public_key(),
                        nonce: self.nonce,
                        msg_len: self.msg.data().len(),
                    },
                ),
            ),
        }
    }

    /// The bytes of the sealed message.
    pub fn msg(&self) -> (bytes: &[u8])
        ensures
            bytes@ == self@.msg,
    {
        self.msg.data()
    }

    /// The address of the sender.
    pub fn sender(&self) -> (address: &Address)
        ensures
            address@ == self@.sender,
    {
        &self.sender
    }

    /// The address of the recipient.
    pub fn recipient(&self) -> (address: &Address)
        ensures
            address@ == self@.recipient,
    {
        &self.recipient
    }

    /// The nonce that the message was sealed with.
    pub fn nonce(&self) -> (nonce: &Nonce)
        ensures
            nonce.0@ == self@.nonce,
    {
        &self.nonce
    }

    /// The envelope in words, for diagnostics: the addresses and the nonce in
    /// base 58 and the length of the sealed message.
    pub fn to_string(&self) -> (text: String)
        ensures
            text@ == self@.text(),
    {
        let mut text = self.sender.to_string();
        push_text(&mut text, " -> ");
        push_text(&mut text, self.recipient.to_string().as_str());
        push_text(&mut text, ", nonce: ");
        push_text(&mut text, base58::encode(self.nonce.0.as_slice()).as_str());
        push_text(&mut text, ", msg.len: ");
        push_decimal(&mut text, self.msg.data().len());
        text
    }
}

/// An envelope that is sealed and opened again is the envelope it was.
///
/// `seal` and `open` stand for the cipher: what it makes of a message, a
/// nonce and a key. Where the cipher, under the opening key, gives back the
/// message that it sealed under the sealing key, as it does for the keys that
/// sender and recipient precompute from each other's public key, the envelope
/// that comes out has the sender, the recipient and the message that went in,
/// whatever the nonce.
pub proof fn lemma_open_after_seal(
    envelope: OpenEnvelopeView,
    nonce: Seq<u8>,
    sealing_key: Seq<u8>,
    opening_key: Seq<u8>,
    seal: spec_fn(Seq<u8>, Seq<u8>, Seq<u8>) -> Seq<u8>,
    open: spec_fn(Seq<u8>, Seq<u8>, Seq<u8>) -> Option<Seq<u8>>,
)
    requires
        open(seal(envelope.msg, nonce, sealing_key), nonce, opening_key) == Some(envelope.msg),
    ensures
        ({
            let sealed = envelope.seal(nonce, seal(envelope.msg, nonce, sealing_key));
            sealed.opened(open(sealed.msg, sealed.nonce, opening_key)) == Some(envelope)
        }),
{
}

/// Sealed with another nonce, an envelope is another sealed envelope: as
/// long as every sealing takes a fresh nonce, no two sealed envelopes are the
/// same, even of the same message under the same key.
pub proof fn lemma_fresh_nonce_fresh_envelope(
    envelope: OpenEnvelopeView,
    nonce: Seq<u8>,
    ciphertext: Seq<u8>,
    other_nonce: Seq<u8>,
    other_ciphertext: Seq<u8>,
)
    requires
        nonce != other_nonce,
    ensures
        envelope.seal(nonce, ciphertext) != envelope.seal(other_nonce, other_ciphertext),
{
}

/// Identifies a session: one is given to each connection of a client.
#[derive(Debug, Copy, Clone, PartialEq, Eq, Hash, PartialOrd, Ord, Structural)]
pub struct SessionId(ULID);

impl SessionId {
    /// The number of the identifier.
    pub closed spec fn value(&self) -> u128 {
        self.0.0
    }

    /// The session identifier that is the ULID `ulid`.
    pub fn new(ulid: ULID) -> (id: SessionId)
        ensures
            id.value() == ulid.0,
    {
        SessionId(ulid)
    }

    /// The session identifier made at `timestamp_ms`, in milliseconds since
    /// the Unix epoch, with the random bits `randomness`: the lower 48 bits
    /// of the one above the lower 80 bits of the other.
    pub fn generate(timestamp_ms: u64, randomness: u128) -> (id: SessionId)
        ensures
            id.value() == ULID::compose(timestamp_ms, randomness),
    {
        SessionId(ULID::from_parts(timestamp_ms, randomness))
    }

    /// The ULID of the session.
    pub fn ulid(&self) -> (ulid: ULID)
        ensures
            ulid.0 == self.value(),
    {
        self.0
    }

    /// The sixteen bytes that are signed for this identifier: those of its
    /// ULID, big-endian.
    pub fn to_bytes(&self) -> (bytes: [u8; 16])
        ensures
            bytes@ == be_bytes(self.value() as nat, 16),
    {
        self.0.to_bytes()
    }

    /// The signed form of the identifier: `signed` is what signing
    /// `to_bytes()` gave, the signature followed by the bytes.
    pub fn sign(&self, signed: Vec<u8>) -> (id: SignedSessionId)
        ensures
            id@ == signed@,
    {
        SignedSessionId(signed)
    }

    /// The text form of the identifier: that of its ULID.
    pub fn to_string(&self) -> (text: String)
        ensures
            text@ == ULID::text_of(self.value()),
    {
        self.0.to_string()
    }
}

impl From<ULID> for SessionId {
    /// The session identifier that is the ULID `ulid`.
    fn from(ulid: ULID) -> (id: SessionId)
        ensures
            id.value() == ulid.0,
    {
        SessionId(ulid)
    }
}

impl vstd::std_specs::convert::FromSpecImpl<ULID> for SessionId {
    open spec fn obeys_from_spec() -> bool {
        true
    }

    closed spec fn from_spec(ulid: ULID) -> SessionId {
        SessionId(ulid)
    }
}

/// A session identifier that its owner has signed: the signature, followed
/// by the bytes of the identifier.
#[derive(Debug, Clone, PartialEq, Eq, Hash, PartialOrd, Ord)]
pub struct SignedSessionId(Vec<u8>);

impl View for SignedSessionId {
    type V = Seq<u8>;

    closed spec fn view(&self) -> Seq<u8> {
        self.0@
    }
}

impl SignedSessionId {
    /// The signed identifier that `signed` holds: what signing the bytes of
    /// `session_id` gave.
    pub fn from_session_id(session_id: SessionId, signed: Vec<u8>) -> (id: SignedSessionId)
        ensures
            id@ == signed@,
    {
        session_id.sign(signed)
    }

    /// The signed bytes.
    pub fn data(&self) -> (bytes: &[u8])
        ensures
            bytes@ == self@,
    {
        self.0.as_slice()
    }

    /// What verification comes to when the signature check of the signed
    /// bytes against `public_key` gave `verified`: the bytes that were
    /// signed, or `None` where the signature does not verify.
    pub open spec fn verified(public_key: SignPublicKey, verified: Option<Seq<u8>>) -> Result<
        u128,
        MessageError,
    > {
        match verified {
            None => Err(MessageError::InvalidSignature(public_key)),
            Some(bytes) => if bytes.len() != 16 {
                Err(
                    MessageError::InvalidSessionIdLength {
                        from: public_key,
                        len: bytes.len() as usize,
                    },
                )
            } else {
                Ok(be_value(bytes) as u128)
            },
        }
    }

    /// Verifies the signed identifier: `verified` is what the signature check
    /// of `data()` against `public_key` gave, the bytes that were signed or
    /// `None`.
    ///
    /// Yields the session identifier if the signature verifies and what was
    /// signed is sixteen bytes long. Fails with `InvalidSignature` if the
    /// signature does not verify, and with `InvalidSessionIdLength` if it
    /// does and the length is another.
    pub fn verify(&self, public_key: &SignPublicKey, verified: Option<Vec<u8>>) -> (result: Result<
        SessionId,
        Error,
    >)
        ensures
            match Self::verified(
                *public_key,
                match verified {
                    Some(bytes) => Some(bytes@),
                    None => None,
                },
            ) {
                Ok(value) => result matches Ok(id) && id.value() == value,
                Err(error) => result == Err::<SessionId, Error>(Error::MessageError(error)),
            },
    {
        match verified {
            None => Err(Error::MessageError(MessageError::InvalidSignature(*public_key))),
            Some(bytes) => {
                if bytes.len() != SESSION_ID_BYTES {
                    return Err(
                        Error::MessageError(
                            MessageError::InvalidSessionIdLength {
                                from: *public_key,
                                len: bytes.len(),
                            },
                        ),
                    );
                }
                let mut array = [0u8; 16];
                let mut i: usize = 0;
                while i < 16
                    invariant
                        i <= 16,
                        bytes@.len() == 16,
                        forall|j: int| 0 <= j < i ==> array@[j] == bytes@[j],
                    decreases 16 - i,
                {
                    array[i] = bytes[i];
                    i = i + 1;
                }
                assert(array@ =~= bytes@);
                Ok(SessionId(ULID::from_bytes(&array)))
            },
        }
    }
}

/// A session identifier that is signed and verified is the identifier it
/// was: where the signature check yields the bytes that were signed, as it
/// does against the public key of the signer, verification yields the
/// identifier.
pub proof fn lemma_verify_after_sign(id: SessionId, public_key: SignPublicKey)
    ensures
        SignedSessionId::verified(public_key, Some(be_bytes(id.value() as nat, 16))) == Ok::<
            u128,
            MessageError,
        >(id.value()),
{
    crate::ulid::lemma_be_bytes_len(id.value() as nat, 16);
    crate::ulid::lemma_bytes_round_trip(id.value(), be_bytes(id.value() as nat, 16));
}

/// A digest that its owner has signed: the signature, followed by the digest.
/// It shows that the signer has seen the message of that digest.
#[derive(Debug, Clone, PartialEq, Eq, Hash)]
pub struct SignedHash(Vec<u8>);

impl View for SignedHash {
    type V = Seq<u8>;

    closed spec fn view(&self) -> Seq<u8> {
        self.0@
    }
}

impl SignedHash {
    /// The signed hash that `signed` holds: what signing a digest gave.
    pub fn sign(signed: Vec<u8>) -> (hash: SignedHash)
        ensures
            hash@ == signed@,
    {
        SignedHash(signed)
    }

    /// The signed bytes.
    pub fn data(&self) -> (bytes: &[u8])
        ensures
            bytes@ == self@,
    {
        self.0.as_slice()
    }

    /// What the check of a message comes to when the signature check against
    /// `key` gave `verified` and the message has the digest `msg_digest`.
    pub open spec fn checked(
        key: SignPublicKey,
        verified: Option<Seq<u8>>,
        msg_digest: Seq<u8>,
    ) -> Result<(), MessageError> {
        match verified {
            None => Err(MessageError::InvalidSignature(key)),
            Some(digest) => if digest.len() != 32 {
                Err(MessageError::InvalidDigestLength { from: key, len: digest.len() as usize })
            } else if digest == msg_digest {
                Ok(())
            } else {
                Err(MessageError::ChecksumFailed(key))
            },
        }
    }

    /// Verifies the signature and the integrity of a message: `verified` is
    /// what the signature check of `data()` against `key` gave, the bytes
    /// that were signed or `None`, and `msg_digest` is the digest of the
    /// message.
    ///
    /// Succeeds if the signature verifies and what was signed is the digest
    /// of the message. Fails with `InvalidSignature` if the signature does
    /// not verify, with `InvalidDigestLength` if what was signed is not as
    /// long as a digest, and with `ChecksumFailed` if it is another digest
    /// than that of the message.
    pub fn verify(
        &self,
        key: &SignPublicKey,
        verified: Option<Vec<u8>>,
        msg_digest: &Digest,
    ) -> (result: Result<(), Error>)
        ensures
            match Self::checked(
                *key,
                match verified {
                    Some(bytes) => Some(bytes@),
                    None => None,
                },
                msg_digest.0@,
            ) {
                Ok(()) => result is Ok,
                Err(error) => result == Err::<(), Error>(Error::MessageError(error)),
            },
    {
        match verified {
            None => Err(Error::MessageError(MessageError::InvalidSignature(*key))),
            Some(bytes) => match Digest::from_slice(bytes.as_slice()) {
                Some(digest) => {
                    if digest.same(msg_digest) {
                        Ok(())
                    } else {
                        Err(Error::MessageError(MessageError::ChecksumFailed(*key)))
                    }
                },
                None => Err(
                    Error::MessageError(
                        MessageError::InvalidDigestLength { from: *key, len: bytes.len() },
                    ),
                ),
            },
        }
    }

    /// The sealed form of the signed hash: `ciphertext` is what sealing
    /// `data()` under a symmetric key with the fresh nonce `nonce` gave.
    pub fn encrypt(&self, ciphertext: Vec<u8>, nonce: Nonce) -> (hash: EncryptedSignedHash)
        ensures
            hash@ == (ciphertext@, nonce.0@),
    {
        EncryptedSignedHash(ciphertext, nonce)
    }
}

impl From<Vec<u8>> for SignedHash {
    /// The signed hash that `signed` holds.
    fn from(signed: Vec<u8>) -> (hash: SignedHash)
        ensures
            hash@ == signed@,
    {
        SignedHash(signed)
    }
}

impl vstd::std_specs::convert::FromSpecImpl<Vec<u8>> for SignedHash {
    open spec fn obeys_from_spec() -> bool {
        true
    }

    closed spec fn from_spec(signed: Vec<u8>) -> SignedHash {
        SignedHash(signed)
    }
}

/// A message whose bytes were altered after its digest was signed does not
/// pass: where the signature verifies and yields a digest, any message with
/// another digest fails with `ChecksumFailed`, and only the message with
/// that digest passes.
pub proof fn lemma_altered_message_fails(key: SignPublicKey, digest: Seq<u8>, msg_digest: Seq<u8>)
    requires
        digest.len() == 32,
    ensures
        digest != msg_digest ==> SignedHash::checked(key, Some(digest), msg_digest) == Err::<
            (),
            MessageError,
        >(MessageError::ChecksumFailed(key)),
        SignedHash::checked(key, Some(digest), msg_digest) is Ok <==> digest == msg_digest,
{
}

/// Sealed with another nonce, a signed hash is another sealed signed hash.
pub proof fn lemma_fresh_nonce_fresh_hash(a: EncryptedSignedHash, b: EncryptedSignedHash)
    requires
        a@.1 != b@.1,
    ensures
        a@ != b@,
{
}

/// A signed hash that is sealed under a symmetric key, with the nonce of the
/// sealing. It hides the digest in transit.
#[derive(Debug, Clone, PartialEq, Eq)]
pub struct EncryptedSignedHash(Vec<u8>, Nonce);

impl View for EncryptedSignedHash {
    type V = (Seq<u8>, Seq<u8>);

    /// The ciphertext and the nonce.
    closed spec fn view(&self) -> (Seq<u8>, Seq<u8>) {
        (self.0@, self.1.0@)
    }
}

impl EncryptedSignedHash {
    /// The sealed signed hash.
    pub fn data(&self) -> (bytes: &[u8])
        ensures
            bytes@ == self@.0,
    {
        self.0.as_slice()
    }

    /// The nonce that the signed hash was sealed with.
    pub fn nonce(&self) -> (nonce: &Nonce)
        ensures
            nonce.0@ == self@.1,
    {
        &self.1
    }

    /// What verification comes to. `opened` is `None` where the ciphertext
    /// did not open under the key, `Some(None)` where it opened and the
    /// signature did not verify, and `Some(Some(bytes))` where the signature
    /// verified and `bytes` is what was signed.
    pub open spec fn verified(public_key: SignPublicKey, opened: Option<Option<Seq<u8>>>) -> Result<
        Seq<u8>,
        MessageError,
    > {
        match opened {
            None => Err(MessageError::DecryptionFailed(public_key)),
            Some(None) => Err(MessageError::InvalidSignature(public_key)),
            Some(Some(bytes)) => if bytes.len() != 32 {
                Err(
                    MessageError::InvalidDigestLength {
                        from: public_key,
                        len: bytes.len() as usize,
                    },
                )
            } else {
                Ok(bytes)
            },
        }
    }

    /// Decrypts the signed hash and verifies its signature: `opened` is
    /// `None` where opening `data()` under the key with `nonce()` failed;
    /// otherwise it holds what the signature check of the opened bytes
    /// against `public_key` gave, the bytes that were signed or `None`.
    ///
    /// Yields the digest if both steps succeed and what was signed is as long
    /// as a digest. Fails with `DecryptionFailed`, `InvalidSignature` or
    /// `InvalidDigestLength` for the first step that does not.
    pub fn verify(&self, public_key: &SignPublicKey, opened: Option<Option<Vec<u8>>>) -> (result:
        Result<Digest, Error>)
        ensures
            match Self::verified(
                *public_key,
                match opened {
                    Some(Some(bytes)) => Some(Some(bytes@)),
                    Some(None) => Some(None),
                    None => None,
                },
            ) {
                Ok(bytes) => result matches Ok(digest) && digest.0@ == bytes,
                Err(error) => result == Err::<Digest, Error>(Error::MessageError(error)),
            },
    {
        match opened {
            None => Err(Error::MessageError(MessageError::DecryptionFailed(*public_key))),
            Some(None) => Err(Error::MessageError(MessageError::InvalidSignature(*public_key))),
            Some(Some(bytes)) => match Digest::from_slice(bytes.as_slice()) {
                Some(digest) => Ok(digest),
                None => Err(
                    Error::MessageError(
                        MessageError::InvalidDigestLength { from: *public_key, len: bytes.len() },
                    ),
                ),
            },
        }
    }
}

/// Identifies a type of message.
#[derive(Debug, Clone, Copy, PartialEq, Eq, Hash, PartialOrd, Ord, Structural)]
pub struct MessageType(pub u128);

/// What is known of a message before its body is read. It is kept for a
/// later form of the envelope; no envelope carries it on the wire.
#[derive(Debug, Clone, Copy, PartialEq, Eq, Structural)]
pub struct MessageHeader {
    msg_type: MessageType,
}

impl MessageHeader {
    /// The header of a message of type `msg_type`.
    pub fn new(msg_type: MessageType) -> (header: MessageHeader)
        ensures
            header.msg_type() == msg_type,
    {
        MessageHeader { msg_type }
    }

    /// The type of the message.
    #[verifier::when_used_as_spec(spec_msg_type)]
    pub fn msg_type(&self) -> (msg_type: MessageType)
        ensures
            msg_type == self.msg_type(),
    {
        self.msg_type
    }

    pub closed spec fn spec_msg_type(&self) -> MessageType {
        self.msg_type
    }
}

} // verus!
