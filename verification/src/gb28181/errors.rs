use vstd::prelude::*;

verus! {

#[derive(Debug)]
pub struct Gb28181Error {
    pub value: Gb28181ErrorValue,
}

#[derive(Debug, Clone, Copy, PartialEq, Eq, Structural)]
pub enum Gb28181ErrorValue {
    /// A session with that stream name is already running.
    SessionExists,
    /// The session could not be opened.
    NewSessionFailed,
}

impl Gb28181ErrorValue {
    /// The message of the error.
    pub fn message(&self) -> (r: &'static str)
        ensures
            *self == Gb28181ErrorValue::SessionExists ==> r@ == "The session name alreay exists."@,
            *self == Gb28181ErrorValue::NewSessionFailed ==> r@ == "New server session failed."@,
    {
        match self {
            Gb28181ErrorValue::SessionExists => "The session name alreay exists.",
            Gb28181ErrorValue::NewSessionFailed => "New server session failed.",
        }
    }
}

} // verus!
