//! Events the HLS side publishes.
use vstd::prelude::*;

verus! {

#[derive(Debug, Clone, Copy, PartialEq, Eq)]
pub enum HlsEvent {
    Init {},
    HlsSequenceIncr { sequence: u64 },
}

} // verus!
