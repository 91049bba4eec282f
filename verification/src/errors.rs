//! Error kinds of the runtime. Each kind has a stable 128-bit identifier and a
//! level.

use vstd::prelude::*;
use crate::crypto::{Nonce, PublicKey, SignPublicKey};
use crate::rpc::server::ListenerSettings;
use crate::text::{decimal, push_decimal, push_text};

verus! {

/// Stable identifier of an error kind.
#[derive(Clone, Copy, Debug, PartialEq, Eq, Hash, Structural)]
pub struct ErrorId(pub u128);

/// How grave an error is.
#[derive(Clone, Copy, Debug, PartialEq, Eq, Hash, Structural)]
pub enum Level {
    /// The component is unusable or at a hard limit; someone has to act.
    Alert,
    /// An operation failed.
    Error,
}

/// The kinds of error.
#[derive(Clone, Copy, Debug, PartialEq, Eq, Hash, Structural)]
pub enum ErrorKind {
    /// The registry of aio contexts no longer takes messages.
    AioContextChannelClosed,
    /// Every ticket of the client is taken.
    AioContextAtMaxCapacity,
    /// The listener could not be started.
    ListenerStartError,
    /// No aio handle could be created.
    AioCreateError,
    /// A receive operation failed.
    AioReceiveError,
    /// No socket context could be created.
    AioContextError,
    /// A send operation failed.
    AioSendError,
    /// A sealed envelope could not be opened.
    SealedEnvelopeOpenFailed,
    /// Bytes do not hold a sealed envelope.
    InvalidSealedEnvelopeDecoding,
    /// A sealed envelope cannot be put on the wire.
    InvalidSealedEnvelopeEncoding,
    /// A signature does not verify.
    InvalidSignature,
    /// What was signed is not as long as a digest.
    InvalidDigestLength,
    /// What was signed is not as long as a session identifier.
    InvalidSessionIdLength,
    /// A sealed signed hash could not be opened.
    DecryptionFailed,
    /// The signed digest is not the digest of the message.
    ChecksumFailed,
}

impl ErrorKind {
    /// The identifier of the kind.
    pub open spec fn id(self) -> u128 {
        match self {
            ErrorKind::AioContextChannelClosed => 1870911491777855603714943020812532997,
            ErrorKind::AioContextAtMaxCapacity => 1870938774060056887721031847045251443,
            ErrorKind::ListenerStartError => 1870302624499038905208367552914704572,
            ErrorKind::AioCreateError => 1870313585057930209197631174282877574,
            ErrorKind::AioReceiveError => 1870374078796088086815067802169113773,
            ErrorKind::AioContextError => 1870374278155759380545373361718947172,
            ErrorKind::AioSendError => 1870374532604192777150092613726410912,
            ErrorKind::SealedEnvelopeOpenFailed => 1867115018347629413253406807012950325,
            ErrorKind::InvalidSealedEnvelopeDecoding => 1867121809608442314376012414984065193,
            ErrorKind::InvalidSealedEnvelopeEncoding => 1867122453572822712398459628001933890,
            ErrorKind::InvalidSignature => 1867129203558918292457249184994877561,
            ErrorKind::InvalidDigestLength => 1867129627011936174456359028428113147,
            ErrorKind::InvalidSessionIdLength => 1867130080217473794491493410711647610,
            ErrorKind::DecryptionFailed => 1867130544106121436983615070421087244,
            ErrorKind::ChecksumFailed => 1867130995268491870153808992770604779,
        }
    }

    /// The level of the kind: `Alert` where the client is at its limit or
    /// beyond use, `Error` everywhere else.
    pub open spec fn level(self) -> Level {
        match self {
            ErrorKind::AioContextChannelClosed => Level::Alert,
            ErrorKind::AioContextAtMaxCapacity => Level::Alert,
            _ => Level::Error,
        }
    }

    /// The identifier of the kind.
    pub fn error_id(self) -> (id: ErrorId)
        ensures
            id == ErrorId(self.id()),
    {
        match self {
            ErrorKind::AioContextChannelClosed => ErrorId(1870911491777855603714943020812532997),
            ErrorKind::AioContextAtMaxCapacity => ErrorId(1870938774060056887721031847045251443),
            ErrorKind::ListenerStartError => ErrorId(1870302624499038905208367552914704572),
            ErrorKind::AioCreateError => ErrorId(1870313585057930209197631174282877574),
            ErrorKind::AioReceiveError => ErrorId(1870374078796088086815067802169113773),
            ErrorKind::AioContextError => ErrorId(1870374278155759380545373361718947172),
            ErrorKind::AioSendError => ErrorId(1870374532604192777150092613726410912),
            ErrorKind::SealedEnvelopeOpenFailed => ErrorId(1867115018347629413253406807012950325),
            ErrorKind::InvalidSealedEnvelopeDecoding => ErrorId(
                1867121809608442314376012414984065193,
            ),
            ErrorKind::InvalidSealedEnvelopeEncoding => ErrorId(
                1867122453572822712398459628001933890,
            ),
            ErrorKind::InvalidSignature => ErrorId(1867129203558918292457249184994877561),
            ErrorKind::InvalidDigestLength => ErrorId(1867129627011936174456359028428113147),
            ErrorKind::InvalidSessionIdLength => ErrorId(1867130080217473794491493410711647610),
            ErrorKind::DecryptionFailed => ErrorId(1867130544106121436983615070421087244),
            ErrorKind::ChecksumFailed => ErrorId(1867130995268491870153808992770604779),
        }
    }

    /// The level of the kind.
    pub fn error_level(self) -> (level: Level)
        ensures
            level == self.level(),
    {
        match self {
            ErrorKind::AioContextChannelClosed => Level::Alert,
            ErrorKind::AioContextAtMaxCapacity => Level::Alert,
            _ => Level::Error,
        }
    }
}

/// No two kinds share an identifier: the identifier tells the kind.
pub proof fn lemma_error_ids_are_distinct(a: ErrorKind, b: ErrorKind)
    ensures
        a.id() == b.id() <==> a == b,
{
}

/// Marks the identifiers that tell one occurrence of an error from another.
#[derive(Debug, Clone, Copy, PartialEq, Eq, Structural)]
pub struct Instance;

/// Text that came with a failure of the transport.
#[derive(Debug, PartialEq, Eq)]
pub struct ErrorMessage(pub String);

impl Clone for ErrorMessage {
    fn clone(&self) -> (message: Self)
        ensures
            message == *self,
    {
        ErrorMessage(self.0.clone())
    }
}

/// The registry of aio contexts no longer takes messages. The client is then
/// of no further use and must be replaced.
#[derive(Clone, Debug, PartialEq, Eq)]
pub struct AioContextChannelClosed {
    url: String,
}

impl AioContextChannelClosed {
    /// Identifier of this kind.
    pub const ERROR_ID: u128 = 1870911491777855603714943020812532997;

    /// The error of the client that dials `url`.
    pub fn new(url: &str) -> (e: Self)
        ensures
            e.url() == url@,
    {
        AioContextChannelClosed { url: String::from_str(url) }
    }

    /// The address that the client dials.
    pub closed spec fn url(&self) -> Seq<char> {
        self.url@
    }

    /// The text of the error.
    pub open spec fn message_text(&self) -> Seq<char> {
        "The aio context channel is closed: "@ + self.url()
    }

    /// The error in words.
    pub fn message(&self) -> (s: String)
        ensures
            s@ == self.message_text(),
    {
        let mut s = String::from_str("The aio context channel is closed: ");
        push_text(&mut s, self.url.as_str());
        s
    }
}

/// Every ticket of the client is taken: as many requests are in flight as the
/// client admits.
#[derive(Clone, Debug, PartialEq, Eq)]
pub struct AioContextAtMaxCapacity {
    url: String,
    capacity: usize,
}

impl AioContextAtMaxCapacity {
    /// Identifier of this kind.
    pub const ERROR_ID: u128 = 1870938774060056887721031847045251443;

    /// The error of the client that dials `url` and admits `capacity`
    /// concurrent requests.
    pub fn new(url: &str, capacity: usize) -> (e: Self)
        ensures
            e.url() == url@,
            e.capacity() == capacity,
    {
        AioContextAtMaxCapacity { url: String::from_str(url), capacity }
    }

    /// The address that the client dials.
    pub closed spec fn url(&self) -> Seq<char> {
        self.url@
    }

    /// The number of concurrent requests that the client admits.
    pub closed spec fn capacity(&self) -> usize {
        self.capacity
    }

    /// The text of the error.
    pub open spec fn message_text(&self) -> Seq<char> {
        "The number of open aio contexts is at max capacity ("@ + decimal(self.capacity() as nat)
            + ") for client: "@ + self.url()
    }

    /// The error in words.
    pub fn message(&self) -> (s: String)
        ensures
            s@ == self.message_text(),
    {
        let mut s = String::from_str("The number of open aio contexts is at max capacity (");
        push_decimal(&mut s, self.capacity);
        push_text(&mut s, ") for client: ");
        push_text(&mut s, self.url.as_str());
        s
    }
}

/// The listener could not be started: the settings it was to start with, and
/// what the transport said.
#[derive(Debug, Clone, PartialEq, Eq)]
pub struct ListenerStartError(pub ListenerSettings, pub ErrorMessage);

impl ListenerStartError {
    /// Identifier of this kind.
    pub const ERROR_ID: u128 = 1870302624499038905208367552914704572;
}

/// No aio handle could be created.
#[derive(Debug, Clone, PartialEq, Eq)]
pub struct AioCreateError(pub ErrorMessage);

impl AioCreateError {
    /// Identifier of this kind.
    pub const ERROR_ID: u128 = 1870313585057930209197631174282877574;
}

/// A receive operation failed.
#[derive(Debug, Clone, PartialEq, Eq)]
pub struct AioReceiveError(pub ErrorMessage);

impl AioReceiveError {
    /// Identifier of this kind.
    pub const ERROR_ID: u128 = 1870374078796088086815067802169113773;
}

/// No socket context could be created.
#[derive(Debug, Clone, PartialEq, Eq)]
pub struct AioContextError(pub ErrorMessage);

impl AioContextError {
    /// Identifier of this kind.
    pub const ERROR_ID: u128 = 1870374278155759380545373361718947172;
}

/// A send operation failed.
#[derive(Debug, Clone, PartialEq, Eq)]
pub struct AioSendError(pub ErrorMessage);

/// A sealed envelope could not be opened: the ciphertext is not what the
/// sender sealed under the key that was tried. It tells whose envelope it was.
#[derive(Debug, Clone, Copy, PartialEq, Eq)]
pub struct SealedEnvelopeOpenFailed {
    /// Public key of the sender.
    pub sender: PublicKey,
    /// Public key of the recipient.
    pub recipient: PublicKey,
    /// The nonce of the envelope.
    pub nonce: Nonce,
    /// Number of bytes of the sealed message.
    pub msg_len: usize,
}

/// Why bytes do not hold a sealed envelope.
#[derive(Debug, Clone, Copy, PartialEq, Eq, Structural)]
pub enum DecodingError {
    /// The bytes end before the envelope does, carry a length tag that the
    /// format does not know, or announce a message beyond the size limit.
    InvalidSealedEnvelope,
}

/// Why a sealed envelope cannot be put on the wire.
#[derive(Debug, Clone, Copy, PartialEq, Eq, Structural)]
pub enum EncodingError {
    /// The message of the envelope is beyond the size limit.
    InvalidSealedEnvelope,
}

/// What can go wrong with a message.
#[derive(Debug, Clone, Copy, PartialEq, Eq)]
pub enum MessageError {
    /// The signature does not verify against the public key.
    InvalidSignature(SignPublicKey),
    /// The signature verifies, but what was signed is not as long as a digest.
    InvalidDigestLength {
        /// The signer.
        from: SignPublicKey,
        /// Number of bytes that were signed.
        len: usize,
    },
    /// The signature verifies, but what was signed is not as long as a
    /// session identifier.
    InvalidSessionIdLength {
        /// The signer.
        from: SignPublicKey,
        /// Number of bytes that were signed.
        len: usize,
    },
    /// The sealed signed hash could not be opened.
    DecryptionFailed(SignPublicKey),
    /// The signed digest is not the digest of the message.
    ChecksumFailed(SignPublicKey),
    /// Bytes do not hold what they should.
    DecodingError(DecodingError),
    /// A value cannot be put on the wire.
    EncodingError(EncodingError),
}

/// An error of the runtime.
#[derive(Debug, Clone, PartialEq, Eq)]
pub enum Error {
    /// See [`AioContextChannelClosed`].
    AioContextChannelClosed(AioContextChannelClosed),
    /// See [`AioContextAtMaxCapacity`].
    AioContextAtMaxCapacity(AioContextAtMaxCapacity),
    /// See [`ListenerStartError`].
    ListenerStartError(ListenerStartError),
    /// See [`AioCreateError`].
    AioCreateError(AioCreateError),
    /// See [`AioReceiveError`].
    AioReceiveError(AioReceiveError),
    /// See [`AioContextError`].
    AioContextError(AioContextError),
    /// See [`AioSendError`].
    AioSendError(AioSendError),
    /// See [`SealedEnvelopeOpenFailed`].
    SealedEnvelopeOpenFailed(SealedEnvelopeOpenFailed),
    /// See [`MessageError`].
    MessageError(MessageError),
}

impl MessageError {
    /// The kind of the error.
    pub open spec fn kind(&self) -> ErrorKind {
        match self {
            MessageError::InvalidSignature(_) => ErrorKind::InvalidSignature,
            MessageError::InvalidDigestLength { .. } => ErrorKind::InvalidDigestLength,
            MessageError::InvalidSessionIdLength { .. } => ErrorKind::InvalidSessionIdLength,
            MessageError::DecryptionFailed(_) => ErrorKind::DecryptionFailed,
            MessageError::ChecksumFailed(_) => ErrorKind::ChecksumFailed,
            MessageError::DecodingError(_) => ErrorKind::InvalidSealedEnvelopeDecoding,
            MessageError::EncodingError(_) => ErrorKind::InvalidSealedEnvelopeEncoding,
        }
    }

    /// The kind of the error.
    pub fn error_kind(&self) -> (kind: ErrorKind)
        ensures
            kind == self.kind(),
    {
        match self {
            MessageError::InvalidSignature(_) => ErrorKind::InvalidSignature,
            MessageError::InvalidDigestLength { .. } => ErrorKind::InvalidDigestLength,
            MessageError::InvalidSessionIdLength { .. } => ErrorKind::InvalidSessionIdLength,
            MessageError::DecryptionFailed(_) => ErrorKind::DecryptionFailed,
            MessageError::ChecksumFailed(_) => ErrorKind::ChecksumFailed,
            MessageError::DecodingError(_) => ErrorKind::InvalidSealedEnvelopeDecoding,
            MessageError::EncodingError(_) => ErrorKind::InvalidSealedEnvelopeEncoding,
        }
    }
}

impl Error {
    /// The kind of the error.
    pub open spec fn kind(&self) -> ErrorKind {
        match self {
            Error::AioContextChannelClosed(_) => ErrorKind::AioContextChannelClosed,
            Error::AioContextAtMaxCapacity(_) => ErrorKind::AioContextAtMaxCapacity,
            Error::ListenerStartError(_) => ErrorKind::ListenerStartError,
            Error::AioCreateError(_) => ErrorKind::AioCreateError,
            Error::AioReceiveError(_) => ErrorKind::AioReceiveError,
            Error::AioContextError(_) => ErrorKind::AioContextError,
            Error::AioSendError(_) => ErrorKind::AioSendError,
            Error::SealedEnvelopeOpenFailed(_) => ErrorKind::SealedEnvelopeOpenFailed,
            Error::MessageError(e) => e.kind(),
        }
    }

    /// The kind of the error.
    pub fn error_kind(&self) -> (kind: ErrorKind)
        ensures
            kind == self.kind(),
    {
        match self {
            Error::AioContextChannelClosed(_) => ErrorKind::AioContextChannelClosed,
            Error::AioContextAtMaxCapacity(_) => ErrorKind::AioContextAtMaxCapacity,
            Error::ListenerStartError(_) => ErrorKind::ListenerStartError,
            Error::AioCreateError(_) => ErrorKind::AioCreateError,
            Error::AioReceiveError(_) => ErrorKind::AioReceiveError,
            Error::AioContextError(_) => ErrorKind::AioContextError,
            Error::AioSendError(_) => ErrorKind::AioSendError,
            Error::SealedEnvelopeOpenFailed(_) => ErrorKind::SealedEnvelopeOpenFailed,
            Error::MessageError(e) => e.error_kind(),
        }
    }

    /// The identifier of the error's kind.
    pub fn id(&self) -> (id: ErrorId)
        ensures
            id == ErrorId(self.kind().id()),
    {
        self.error_kind().error_id()
    }

    /// The level of the error's kind.
    pub fn level(&self) -> (level: Level)
        ensures
            level == self.kind().level(),
    {
        self.error_kind().error_level()
    }
}

} // verus!
