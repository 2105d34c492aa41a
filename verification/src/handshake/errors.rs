//! Errors of the handshake.
use vstd::prelude::*;
use crate::bytes_io::BytesReadError;

verus! {

#[derive(Debug, Clone, Copy, PartialEq, Eq)]
pub enum DigestErrorValue {
    BytesReadError(BytesReadError),
    UnknowSchema,
    DigestLengthNotCorrect,
    CannotGenerate,
}

#[derive(Debug, Clone, Copy, PartialEq, Eq)]
pub struct DigestError {
    pub value: DigestErrorValue,
}

#[derive(Debug, Clone, Copy, PartialEq, Eq)]
pub enum HandshakeErrorValue {
    BytesReadError(BytesReadError),
    DigestError(DigestError),
    DigestNotFound,
    S0VersionNotCorrect,
    SysTimeError,
}

#[derive(Debug, Clone, Copy, PartialEq, Eq)]
pub struct HandshakeError {
    pub value: HandshakeErrorValue,
}

} // verus!
