//! Error codes and error types.

use vstd::prelude::*;

use crate::text::{decimal_text, push_decimal};

verus! {

/// RPC error codes. Codes 0..=14 follow gRPC; codes 100 and up are rapace-specific.
#[derive(Clone, Copy, Debug, PartialEq, Eq, Hash, Structural)]
pub enum ErrorCode {
    /// Success (not an error).
    Success,
    /// Request was cancelled by the client.
    Cancelled,
    /// Deadline passed before completion.
    DeadlineExceeded,
    /// Client sent invalid arguments.
    InvalidArgument,
    /// Requested entity not found.
    NotFound,
    /// Entity already exists.
    AlreadyExists,
    /// Caller lacks permission.
    PermissionDenied,
    /// Out of resources (memory, slots, quota).
    ResourceExhausted,
    /// System not in the required state.
    FailedPrecondition,
    /// Operation aborted.
    Aborted,
    /// Value out of the valid range.
    OutOfRange,
    /// Method not implemented.
    Unimplemented,
    /// Internal error.
    Internal,
    /// Service temporarily unavailable.
    Unavailable,
    /// Unrecoverable data loss.
    DataLoss,
    /// Peer process died unexpectedly.
    PeerDied,
    /// The RPC session was closed.
    SessionClosed,
    /// Frame or payload validation failed.
    ValidationFailed,
    /// Shared-memory slot generation mismatch (ABA detection).
    StaleGeneration,
}

/// The numeric value of an error code.
pub open spec fn error_code_value(c: ErrorCode) -> u32 {
    match c {
        ErrorCode::Success => 0,
        ErrorCode::Cancelled => 1,
        ErrorCode::DeadlineExceeded => 2,
        ErrorCode::InvalidArgument => 3,
        ErrorCode::NotFound => 4,
        ErrorCode::AlreadyExists => 5,
        ErrorCode::PermissionDenied => 6,
        ErrorCode::ResourceExhausted => 7,
        ErrorCode::FailedPrecondition => 8,
        ErrorCode::Aborted => 9,
        ErrorCode::OutOfRange => 10,
        ErrorCode::Unimplemented => 11,
        ErrorCode::Internal => 12,
        ErrorCode::Unavailable => 13,
        ErrorCode::DataLoss => 14,
        ErrorCode::PeerDied => 100,
        ErrorCode::SessionClosed => 101,
        ErrorCode::ValidationFailed => 102,
        ErrorCode::StaleGeneration => 103,
    }
}

/// The error code with numeric value `v`, if any.
pub open spec fn error_code_from_value(v: u32) -> Option<ErrorCode> {
    if v == 0 {
        Some(ErrorCode::Success)
    } else if v == 1 {
        Some(ErrorCode::Cancelled)
    } else if v == 2 {
        Some(ErrorCode::DeadlineExceeded)
    } else if v == 3 {
        Some(ErrorCode::InvalidArgument)
    } else if v == 4 {
        Some(ErrorCode::NotFound)
    } else if v == 5 {
        Some(ErrorCode::AlreadyExists)
    } else if v == 6 {
        Some(ErrorCode::PermissionDenied)
    } else if v == 7 {
        Some(ErrorCode::ResourceExhausted)
    } else if v == 8 {
        Some(ErrorCode::FailedPrecondition)
    } else if v == 9 {
        Some(ErrorCode::Aborted)
    } else if v == 10 {
        Some(ErrorCode::OutOfRange)
    } else if v == 11 {
        Some(ErrorCode::Unimplemented)
    } else if v == 12 {
        Some(ErrorCode::Internal)
    } else if v == 13 {
        Some(ErrorCode::Unavailable)
    } else if v == 14 {
        Some(ErrorCode::DataLoss)
    } else if v == 100 {
        Some(ErrorCode::PeerDied)
    } else if v == 101 {
        Some(ErrorCode::SessionClosed)
    } else if v == 102 {
        Some(ErrorCode::ValidationFailed)
    } else if v == 103 {
        Some(ErrorCode::StaleGeneration)
    } else {
        None
    }
}

/// The human-readable description of an error code.
pub open spec fn error_code_text(c: ErrorCode) -> Seq<char> {
    match c {
        ErrorCode::Success => "ok"@,
        ErrorCode::Cancelled => "cancelled"@,
        ErrorCode::DeadlineExceeded => "deadline exceeded"@,
        ErrorCode::InvalidArgument => "invalid argument"@,
        ErrorCode::NotFound => "not found"@,
        ErrorCode::AlreadyExists => "already exists"@,
        ErrorCode::PermissionDenied => "permission denied"@,
        ErrorCode::ResourceExhausted => "resource exhausted"@,
        ErrorCode::FailedPrecondition => "failed precondition"@,
        ErrorCode::Aborted => "aborted"@,
        ErrorCode::OutOfRange => "out of range"@,
        ErrorCode::Unimplemented => "unimplemented"@,
        ErrorCode::Internal => "internal error"@,
        ErrorCode::Unavailable => "unavailable"@,
        ErrorCode::DataLoss => "data loss"@,
        ErrorCode::PeerDied => "peer died"@,
        ErrorCode::SessionClosed => "session closed"@,
        ErrorCode::ValidationFailed => "validation failed"@,
        ErrorCode::StaleGeneration => "stale generation"@,
    }
}

impl ErrorCode {
    /// The error code with numeric value `value`, if any.
    pub fn from_u32(value: u32) -> (r: Option<Self>)
        ensures
            r == error_code_from_value(value),
    {
        match value {
            0 => Some(ErrorCode::Success),
            1 => Some(ErrorCode::Cancelled),
            2 => Some(ErrorCode::DeadlineExceeded),
            3 => Some(ErrorCode::InvalidArgument),
            4 => Some(ErrorCode::NotFound),
            5 => Some(ErrorCode::AlreadyExists),
            6 => Some(ErrorCode::PermissionDenied),
            7 => Some(ErrorCode::ResourceExhausted),
            8 => Some(ErrorCode::FailedPrecondition),
            9 => Some(ErrorCode::Aborted),
            10 => Some(ErrorCode::OutOfRange),
            11 => Some(ErrorCode::Unimplemented),
            12 => Some(ErrorCode::Internal),
            13 => Some(ErrorCode::Unavailable),
            14 => Some(ErrorCode::DataLoss),
            100 => Some(ErrorCode::PeerDied),
            101 => Some(ErrorCode::SessionClosed),
            102 => Some(ErrorCode::ValidationFailed),
            103 => Some(ErrorCode::StaleGeneration),
            _ => None,
        }
    }

    /// The numeric value of this error code.
    pub fn to_u32(&self) -> (r: u32)
        ensures
            r == error_code_value(*self),
    {
        match self {
            ErrorCode::Success => 0,
            ErrorCode::Cancelled => 1,
            ErrorCode::DeadlineExceeded => 2,
            ErrorCode::InvalidArgument => 3,
            ErrorCode::NotFound => 4,
            ErrorCode::AlreadyExists => 5,
            ErrorCode::PermissionDenied => 6,
            ErrorCode::ResourceExhausted => 7,
            ErrorCode::FailedPrecondition => 8,
            ErrorCode::Aborted => 9,
            ErrorCode::OutOfRange => 10,
            ErrorCode::Unimplemented => 11,
            ErrorCode::Internal => 12,
            ErrorCode::Unavailable => 13,
            ErrorCode::DataLoss => 14,
            ErrorCode::PeerDied => 100,
            ErrorCode::SessionClosed => 101,
            ErrorCode::ValidationFailed => 102,
            ErrorCode::StaleGeneration => 103,
        }
    }

    /// The human-readable description of this error code.
    pub fn as_str(&self) -> (r: &'static str)
        ensures
            r@ == error_code_text(*self),
    {
        match self {
            ErrorCode::Success => "ok",
            ErrorCode::Cancelled => "cancelled",
            ErrorCode::DeadlineExceeded => "deadline exceeded",
            ErrorCode::InvalidArgument => "invalid argument",
            ErrorCode::NotFound => "not found",
            ErrorCode::AlreadyExists => "already exists",
            ErrorCode::PermissionDenied => "permission denied",
            ErrorCode::ResourceExhausted => "resource exhausted",
            ErrorCode::FailedPrecondition => "failed precondition",
            ErrorCode::Aborted => "aborted",
            ErrorCode::OutOfRange => "out of range",
            ErrorCode::Unimplemented => "unimplemented",
            ErrorCode::Internal => "internal error",
            ErrorCode::Unavailable => "unavailable",
            ErrorCode::DataLoss => "data loss",
            ErrorCode::PeerDied => "peer died",
            ErrorCode::SessionClosed => "session closed",
            ErrorCode::ValidationFailed => "validation failed",
            ErrorCode::StaleGeneration => "stale generation",
        }
    }
}

/// Every error code decodes back from its numeric value, and a value that
/// decodes is the value of the code it decodes to.
pub proof fn lemma_error_code_roundtrip(c: ErrorCode, v: u32)
    ensures
        error_code_from_value(error_code_value(c)) == Some(c),
        error_code_from_value(v) matches Some(d) ==> error_code_value(d) == v,
{
}

/// Descriptor validation errors.
#[derive(Clone, Copy, Debug, PartialEq, Eq, Structural)]
pub enum ValidationError {
    SlotOutOfBounds { slot: u32, max: u32 },
    PayloadOutOfBounds { offset: u32, len: u32, slot_size: u32 },
    InlinePayloadTooLarge { len: u32, max: u32 },
    PayloadTooLarge { len: u32, max: u32 },
    StaleGeneration { expected: u32, actual: u32 },
    ChannelOutOfBounds { channel: u32, max: u32 },
    InvalidInlineDescriptor,
}

/// Serializable version of an I/O error kind.
#[derive(Clone, Copy, Debug, PartialEq, Eq, Structural)]
pub enum IoErrorKind {
    NotFound,
    PermissionDenied,
    ConnectionRefused,
    ConnectionReset,
    ConnectionAborted,
    NotConnected,
    AddrInUse,
    AddrNotAvailable,
    BrokenPipe,
    AlreadyExists,
    WouldBlock,
    InvalidInput,
    InvalidData,
    TimedOut,
    WriteZero,
    Interrupted,
    UnexpectedEof,
    Other,
}

/// Serializable I/O error: a kind and a message.
#[derive(Clone, Debug)]
pub struct IoError {
    pub kind: IoErrorKind,
    pub message: String,
}

impl IoError {
    /// An I/O error of the given kind with the given message.
    pub fn new(kind: IoErrorKind, message: String) -> (r: Self)
        ensures
            r.kind == kind,
            r.message@ == message@,
    {
        IoError { kind, message }
    }
}

/// Encoding errors.
#[derive(Clone, Debug)]
pub enum EncodeError {
    BufferTooSmall { needed: usize, available: usize },
    EncodeFailed(String),
    NoSlotAvailable,
}

/// Decoding errors.
#[derive(Clone, Debug)]
pub enum DecodeError {
    UnexpectedEof,
    InvalidData(String),
    UnsupportedEncoding(u16),
}

/// Transport-level errors.
#[derive(Clone, Debug)]
pub enum TransportError {
    Closed,
    Io(IoError),
    Validation(ValidationError),
    Encode(EncodeError),
    Decode(DecodeError),
}

/// High-level RPC errors.
#[derive(Clone, Debug)]
pub enum RpcError {
    Transport(TransportError),
    Status { code: ErrorCode, message: String },
    Cancelled,
    DeadlineExceeded,
    /// Serialization error, with its message.
    Serialize(String),
    /// Deserialization error, with its message.
    Deserialize(String),
}

/// The message of a validation error.
pub open spec fn validation_error_text(e: ValidationError) -> Seq<char> {
    match e {
        ValidationError::SlotOutOfBounds { slot, max } => "slot "@ + decimal_text(slot as nat)
            + " out of bounds (max "@ + decimal_text(max as nat) + ")"@,
        ValidationError::PayloadOutOfBounds { offset, len, slot_size } => "payload ["@
            + decimal_text(offset as nat) + ".."@ + decimal_text(offset as nat) + "+"@
            + decimal_text(len as nat) + "] exceeds slot size "@ + decimal_text(slot_size as nat),
        ValidationError::InlinePayloadTooLarge { len, max } => "inline payload "@ + decimal_text(
            len as nat,
        ) + " bytes exceeds max "@ + decimal_text(max as nat),
        ValidationError::PayloadTooLarge { len, max } => "payload "@ + decimal_text(len as nat)
            + " bytes exceeds max "@ + decimal_text(max as nat),
        ValidationError::StaleGeneration { expected, actual } => "stale generation: expected "@
            + decimal_text(expected as nat) + ", got "@ + decimal_text(actual as nat),
        ValidationError::ChannelOutOfBounds { channel, max } => "channel "@ + decimal_text(
            channel as nat,
        ) + " out of bounds (max "@ + decimal_text(max as nat) + ")"@,
        ValidationError::InvalidInlineDescriptor => "inline descriptor has non-zero slot fields"@,
    }
}

impl ValidationError {
    /// The error's message.
    pub fn to_string(&self) -> (r: String)
        ensures
            r@ == validation_error_text(*self),
    {
        match *self {
            ValidationError::SlotOutOfBounds { slot, max } => {
                let mut s = String::from_str("slot ");
                push_decimal(&mut s, slot as u64);
                s.append(" out of bounds (max ");
                push_decimal(&mut s, max as u64);
                s.append(")");
                s
            },
            ValidationError::PayloadOutOfBounds { offset, len, slot_size } => {
                let mut s = String::from_str("payload [");
                push_decimal(&mut s, offset as u64);
                s.append("..");
                push_decimal(&mut s, offset as u64);
                s.append("+");
                push_decimal(&mut s, len as u64);
                s.append("] exceeds slot size ");
                push_decimal(&mut s, slot_size as u64);
                s
            },
            ValidationError::InlinePayloadTooLarge { len, max } => {
                let mut s = String::from_str("inline payload ");
                push_decimal(&mut s, len as u64);
                s.append(" bytes exceeds max ");
                push_decimal(&mut s, max as u64);
                s
            },
            ValidationError::PayloadTooLarge { len, max } => {
                let mut s = String::from_str("payload ");
                push_decimal(&mut s, len as u64);
                s.append(" bytes exceeds max ");
                push_decimal(&mut s, max as u64);
                s
            },
            ValidationError::StaleGeneration { expected, actual } => {
                let mut s = String::from_str("stale generation: expected ");
                push_decimal(&mut s, expected as u64);
                s.append(", got ");
                push_decimal(&mut s, actual as u64);
                s
            },
            ValidationError::ChannelOutOfBounds { channel, max } => {
                let mut s = String::from_str("channel ");
                push_decimal(&mut s, channel as u64);
                s.append(" out of bounds (max ");
                push_decimal(&mut s, max as u64);
                s.append(")");
                s
            },
            ValidationError::InvalidInlineDescriptor => String::from_str(
                "inline descriptor has non-zero slot fields",
            ),
        }
    }
}

/// The description of an I/O error kind.
pub open spec fn io_error_kind_text(k: IoErrorKind) -> Seq<char> {
    match k {
        IoErrorKind::NotFound => "entity not found"@,
        IoErrorKind::PermissionDenied => "permission denied"@,
        IoErrorKind::ConnectionRefused => "connection refused"@,
        IoErrorKind::ConnectionReset => "connection reset"@,
        IoErrorKind::ConnectionAborted => "connection aborted"@,
        IoErrorKind::NotConnected => "not connected"@,
        IoErrorKind::AddrInUse => "address in use"@,
        IoErrorKind::AddrNotAvailable => "address not available"@,
        IoErrorKind::BrokenPipe => "broken pipe"@,
        IoErrorKind::AlreadyExists => "entity already exists"@,
        IoErrorKind::WouldBlock => "operation would block"@,
        IoErrorKind::InvalidInput => "invalid input parameter"@,
        IoErrorKind::InvalidData => "invalid data"@,
        IoErrorKind::TimedOut => "timed out"@,
        IoErrorKind::WriteZero => "write zero"@,
        IoErrorKind::Interrupted => "operation interrupted"@,
        IoErrorKind::UnexpectedEof => "unexpected end of file"@,
        IoErrorKind::Other => "other error"@,
    }
}

impl IoErrorKind {
    /// The kind's description.
    pub fn as_str(&self) -> (r: &'static str)
        ensures
            r@ == io_error_kind_text(*self),
    {
        match self {
            IoErrorKind::NotFound => "entity not found",
            IoErrorKind::PermissionDenied => "permission denied",
            IoErrorKind::ConnectionRefused => "connection refused",
            IoErrorKind::ConnectionReset => "connection reset",
            IoErrorKind::ConnectionAborted => "connection aborted",
            IoErrorKind::NotConnected => "not connected",
            IoErrorKind::AddrInUse => "address in use",
            IoErrorKind::AddrNotAvailable => "address not available",
            IoErrorKind::BrokenPipe => "broken pipe",
            IoErrorKind::AlreadyExists => "entity already exists",
            IoErrorKind::WouldBlock => "operation would block",
            IoErrorKind::InvalidInput => "invalid input parameter",
            IoErrorKind::InvalidData => "invalid data",
            IoErrorKind::TimedOut => "timed out",
            IoErrorKind::WriteZero => "write zero",
            IoErrorKind::Interrupted => "operation interrupted",
            IoErrorKind::UnexpectedEof => "unexpected end of file",
            IoErrorKind::Other => "other error",
        }
    }
}

/// The message of an I/O error: its kind's description, a colon, its message.
pub open spec fn io_error_text(e: IoError) -> Seq<char> {
    io_error_kind_text(e.kind) + ": "@ + e.message@
}

impl IoError {
    /// The error's message.
    pub fn to_string(&self) -> (r: String)
        ensures
            r@ == io_error_text(*self),
    {
        let mut s = String::from_str(self.kind.as_str());
        s.append(": ");
        s.append(self.message.as_str());
        s
    }
}

/// The message of an encoding error.
pub open spec fn encode_error_text(e: EncodeError) -> Seq<char> {
    match e {
        EncodeError::BufferTooSmall { needed, available } => "buffer too small: need "@
            + decimal_text(needed as nat) + ", have "@ + decimal_text(available as nat),
        EncodeError::EncodeFailed(msg) => "encode failed: "@ + msg@,
        EncodeError::NoSlotAvailable => "no slot available"@,
    }
}

impl EncodeError {
    /// The error's message.
    pub fn to_string(&self) -> (r: String)
        ensures
            r@ == encode_error_text(*self),
    {
        match self {
            EncodeError::BufferTooSmall { needed, available } => {
                let mut s = String::from_str("buffer too small: need ");
                push_decimal(&mut s, *needed as u64);
                s.append(", have ");
                push_decimal(&mut s, *available as u64);
                s
            },
            EncodeError::EncodeFailed(msg) => {
                let mut s = String::from_str("encode failed: ");
                s.append(msg.as_str());
                s
            },
            EncodeError::NoSlotAvailable => String::from_str("no slot available"),
        }
    }
}

/// The message of a decoding error.
pub open spec fn decode_error_text(e: DecodeError) -> Seq<char> {
    match e {
        DecodeError::UnexpectedEof => "unexpected end of input"@,
        DecodeError::InvalidData(msg) => "invalid data: "@ + msg@,
        DecodeError::UnsupportedEncoding(enc) => "unsupported encoding: "@ + decimal_text(
            enc as nat,
        ),
    }
}

impl DecodeError {
    /// The error's message.
    pub fn to_string(&self) -> (r: String)
        ensures
            r@ == decode_error_text(*self),
    {
        match self {
            DecodeError::UnexpectedEof => String::from_str("unexpected end of input"),
            DecodeError::InvalidData(msg) => {
                let mut s = String::from_str("invalid data: ");
                s.append(msg.as_str());
                s
            },
            DecodeError::UnsupportedEncoding(enc) => {
                let mut s = String::from_str("unsupported encoding: ");
                push_decimal(&mut s, *enc as u64);
                s
            },
        }
    }
}

/// The message of a transport error.
pub open spec fn transport_error_text(e: TransportError) -> Seq<char> {
    match e {
        TransportError::Closed => "transport closed"@,
        TransportError::Io(io) => "I/O error: "@ + io_error_text(io),
        TransportError::Validation(v) => "validation error: "@ + validation_error_text(v),
        TransportError::Encode(en) => "serialize error: "@ + encode_error_text(en),
        TransportError::Decode(de) => "deserialize error: "@ + decode_error_text(de),
    }
}

impl TransportError {
    /// The error's message.
    pub fn to_string(&self) -> (r: String)
        ensures
            r@ == transport_error_text(*self),
    {
        match self {
            TransportError::Closed => String::from_str("transport closed"),
            TransportError::Io(io) => {
                let mut s = String::from_str("I/O error: ");
                let inner = io.to_string();
                s.append(inner.as_str());
                s
            },
            TransportError::Validation(v) => {
                let mut s = String::from_str("validation error: ");
                let inner = v.to_string();
                s.append(inner.as_str());
                s
            },
            TransportError::Encode(en) => {
                let mut s = String::from_str("serialize error: ");
                let inner = en.to_string();
                s.append(inner.as_str());
                s
            },
            TransportError::Decode(de) => {
                let mut s = String::from_str("deserialize error: ");
                let inner = de.to_string();
                s.append(inner.as_str());
                s
            },
        }
    }
}

/// The message of an RPC error.
pub open spec fn rpc_error_text(e: RpcError) -> Seq<char> {
    match e {
        RpcError::Transport(t) => "transport error: "@ + transport_error_text(t),
        RpcError::Status { code, message } => error_code_text(code) + ": "@ + message@,
        RpcError::Cancelled => "cancelled"@,
        RpcError::DeadlineExceeded => "deadline exceeded"@,
        RpcError::Serialize(msg) => "could not serialize to postcard: "@ + msg@,
        RpcError::Deserialize(msg) => "could not deserialize from postcard: "@ + msg@,
    }
}

impl RpcError {
    /// The error's message.
    pub fn to_string(&self) -> (r: String)
        ensures
            r@ == rpc_error_text(*self),
    {
        match self {
            RpcError::Transport(t) => {
                let mut s = String::from_str("transport error: ");
                let inner = t.to_string();
                s.append(inner.as_str());
                s
            },
            RpcError::Status { code, message } => {
                let mut s = String::from_str(code.as_str());
                s.append(": ");
                s.append(message.as_str());
                s
            },
            RpcError::Cancelled => String::from_str("cancelled"),
            RpcError::DeadlineExceeded => String::from_str("deadline exceeded"),
            RpcError::Serialize(msg) => {
                let mut s = String::from_str("could not serialize to postcard: ");
                s.append(msg.as_str());
                s
            },
            RpcError::Deserialize(msg) => {
                let mut s = String::from_str("could not deserialize from postcard: ");
                s.append(msg.as_str());
                s
            },
        }
    }
}

impl From<ValidationError> for TransportError {
    fn from(e: ValidationError) -> (r: Self) {
        TransportError::Validation(e)
    }
}

impl vstd::std_specs::convert::FromSpecImpl<ValidationError> for TransportError {
    open spec fn obeys_from_spec() -> bool {
        true
    }

    open spec fn from_spec(e: ValidationError) -> TransportError {
        TransportError::Validation(e)
    }
}

impl From<EncodeError> for TransportError {
    fn from(e: EncodeError) -> (r: Self) {
        TransportError::Encode(e)
    }
}

impl vstd::std_specs::convert::FromSpecImpl<EncodeError> for TransportError {
    open spec fn obeys_from_spec() -> bool {
        true
    }

    open spec fn from_spec(e: EncodeError) -> TransportError {
        TransportError::Encode(e)
    }
}

impl From<DecodeError> for TransportError {
    fn from(e: DecodeError) -> (r: Self) {
        TransportError::Decode(e)
    }
}

impl vstd::std_specs::convert::FromSpecImpl<DecodeError> for TransportError {
    open spec fn obeys_from_spec() -> bool {
        true
    }

    open spec fn from_spec(e: DecodeError) -> TransportError {
        TransportError::Decode(e)
    }
}

impl From<TransportError> for RpcError {
    fn from(e: TransportError) -> (r: Self) {
        RpcError::Transport(e)
    }
}

impl vstd::std_specs::convert::FromSpecImpl<TransportError> for RpcError {
    open spec fn obeys_from_spec() -> bool {
        true
    }

    open spec fn from_spec(e: TransportError) -> RpcError {
        RpcError::Transport(e)
    }
}

#[verifier::external_type_specification]
pub struct ExIoErrorKind(std::io::ErrorKind);

#[verifier::external_type_specification]
#[verifier::external_body]
pub struct ExIoError(std::io::Error);

/// The serializable kind that stands for a standard I/O error kind; kinds
/// without a counterpart become `Other`.
pub open spec fn io_error_kind_of(kind: std::io::ErrorKind) -> IoErrorKind {
    match kind {
        std::io::ErrorKind::NotFound => IoErrorKind::NotFound,
        std::io::ErrorKind::PermissionDenied => IoErrorKind::PermissionDenied,
        std::io::ErrorKind::ConnectionRefused => IoErrorKind::ConnectionRefused,
        std::io::ErrorKind::ConnectionReset => IoErrorKind::ConnectionReset,
        std::io::ErrorKind::ConnectionAborted => IoErrorKind::ConnectionAborted,
        std::io::ErrorKind::NotConnected => IoErrorKind::NotConnected,
        std::io::ErrorKind::AddrInUse => IoErrorKind::AddrInUse,
        std::io::ErrorKind::AddrNotAvailable => IoErrorKind::AddrNotAvailable,
        std::io::ErrorKind::BrokenPipe => IoErrorKind::BrokenPipe,
        std::io::ErrorKind::AlreadyExists => IoErrorKind::AlreadyExists,
        std::io::ErrorKind::WouldBlock => IoErrorKind::WouldBlock,
        std::io::ErrorKind::InvalidInput => IoErrorKind::InvalidInput,
        std::io::ErrorKind::InvalidData => IoErrorKind::InvalidData,
        std::io::ErrorKind::TimedOut => IoErrorKind::TimedOut,
        std::io::ErrorKind::WriteZero => IoErrorKind::WriteZero,
        std::io::ErrorKind::Interrupted => IoErrorKind::Interrupted,
        std::io::ErrorKind::UnexpectedEof => IoErrorKind::UnexpectedEof,
        _ => IoErrorKind::Other,
    }
}

impl From<std::io::ErrorKind> for IoErrorKind {
    fn from(kind: std::io::ErrorKind) -> (r: Self) {
        match kind {
            std::io::ErrorKind::NotFound => IoErrorKind::NotFound,
            std::io::ErrorKind::PermissionDenied => IoErrorKind::PermissionDenied,
            std::io::ErrorKind::ConnectionRefused => IoErrorKind::ConnectionRefused,
            std::io::ErrorKind::ConnectionReset => IoErrorKind::ConnectionReset,
            std::io::ErrorKind::ConnectionAborted => IoErrorKind::ConnectionAborted,
            std::io::ErrorKind::NotConnected => IoErrorKind::NotConnected,
            std::io::ErrorKind::AddrInUse => IoErrorKind::AddrInUse,
            std::io::ErrorKind::AddrNotAvailable => IoErrorKind::AddrNotAvailable,
            std::io::ErrorKind::BrokenPipe => IoErrorKind::BrokenPipe,
            std::io::ErrorKind::AlreadyExists => IoErrorKind::AlreadyExists,
            std::io::ErrorKind::WouldBlock => IoErrorKind::WouldBlock,
            std::io::ErrorKind::InvalidInput => IoErrorKind::InvalidInput,
            std::io::ErrorKind::InvalidData => IoErrorKind::InvalidData,
            std::io::ErrorKind::TimedOut => IoErrorKind::TimedOut,
            std::io::ErrorKind::WriteZero => IoErrorKind::WriteZero,
            std::io::ErrorKind::Interrupted => IoErrorKind::Interrupted,
            std::io::ErrorKind::UnexpectedEof => IoErrorKind::UnexpectedEof,
            _ => IoErrorKind::Other,
        }
    }
}

impl vstd::std_specs::convert::FromSpecImpl<std::io::ErrorKind> for IoErrorKind {
    open spec fn obeys_from_spec() -> bool {
        true
    }

    open spec fn from_spec(kind: std::io::ErrorKind) -> IoErrorKind {
        io_error_kind_of(kind)
    }
}

/// Calls `std::io::Error::kind`. Nothing is claimed of the kind: the error is
/// opaque here.
#[verifier::external_body]
fn std_io_error_kind(e: &std::io::Error) -> (k: std::io::ErrorKind) {
    e.kind()
}

/// Calls `ToString::to_string` on a `std::io::Error`. Nothing is claimed of the
/// text: the error is opaque here.
#[verifier::external_body]
pub(crate) fn std_io_error_text(e: &std::io::Error) -> (s: String) {
    e.to_string()
}

/// The serializable error for a standard I/O error of kind `kind` whose text
/// is `message`: the kind mapped as `From<std::io::ErrorKind>` maps it, and the
/// text as it is.
pub fn io_error_from_parts(kind: std::io::ErrorKind, message: String) -> (r: IoError)
    ensures
        r.kind == io_error_kind_of(kind),
        r.message@ == message@,
{
    IoError { kind: IoErrorKind::from(kind), message }
}

impl From<std::io::Error> for IoError {
    /// The error's kind, mapped as `From<std::io::ErrorKind>` maps it, and its
    /// text, through `io_error_from_parts`. The standard error is opaque, so
    /// the kind and text it holds are not stated.
    fn from(e: std::io::Error) -> (r: Self) {
        io_error_from_parts(std_io_error_kind(&e), std_io_error_text(&e))
    }
}

impl vstd::std_specs::convert::FromSpecImpl<std::io::Error> for IoError {
    open spec fn obeys_from_spec() -> bool {
        false
    }

    open spec fn from_spec(e: std::io::Error) -> IoError {
        arbitrary()
    }
}

impl From<std::io::Error> for TransportError {
    /// An I/O transport error carrying the converted standard error.
    fn from(e: std::io::Error) -> (r: Self)
        ensures
            r is Io,
    {
        TransportError::Io(IoError::from(e))
    }
}

impl vstd::std_specs::convert::FromSpecImpl<std::io::Error> for TransportError {
    open spec fn obeys_from_spec() -> bool {
        false
    }

    open spec fn from_spec(e: std::io::Error) -> TransportError {
        arbitrary()
    }
}

} // verus!
