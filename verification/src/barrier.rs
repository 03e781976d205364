//! Memory barriers around the ownership flag, the one word through
//! which a buffer passes between software and the DMA engine.

use core::sync::atomic::{fence, Ordering};
use vstd::prelude::*;

verus! {

/// `fence` of core with `Ordering::Release`: what was written before it
/// is visible to whoever sees what is written after it. It returns
/// nothing, and nothing is claimed.
#[verifier::external_body]
pub(crate) fn release() {
    fence(Ordering::Release);
}

/// `fence` of core with `Ordering::Acquire`: what is read after it is no
/// older than what was read before it. It returns nothing, and nothing
/// is claimed.
#[verifier::external_body]
pub(crate) fn acquire() {
    fence(Ordering::Acquire);
}

} // verus!
