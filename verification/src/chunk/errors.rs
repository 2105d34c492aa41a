//! Errors of the chunk stream codec.
use vstd::prelude::*;
use crate::bytes_io::BytesReadError;

verus! {

#[derive(Debug, Clone, Copy, PartialEq, Eq)]
pub enum UnpackErrorValue {
    BytesReadError(BytesReadError),
    UnknowReadState,
    EmptyChunks,
    CannotParse,
}

#[derive(Debug, Clone, Copy, PartialEq, Eq)]
pub struct UnpackError {
    pub value: UnpackErrorValue,
}

#[derive(Debug, Clone, Copy, PartialEq, Eq)]
pub enum PackErrorValue {
    NotExistHeader,
    UnknowReadState,
}

#[derive(Debug, Clone, Copy, PartialEq, Eq)]
pub struct PackError {
    pub value: PackErrorValue,
}

} // verus!
