//! The wake-up path: the single slot in which the task that waits for
//! the device is registered, and which the interrupt handler wakes.

use core::task::{Context, Waker};
use embassy_sync::waitqueue::AtomicWaker;
use vstd::prelude::*;

verus! {

/// `AtomicWaker` of embassy-sync, the slot itself. It is opaque here:
/// it is carried through and handed to the functions below.
#[verifier::external_type_specification]
#[verifier::external_body]
pub struct ExAtomicWaker(AtomicWaker);

/// `Waker` of core, the handle that wakes one task. Opaque here.
#[verifier::external_type_specification]
#[verifier::external_body]
pub struct ExWaker(Waker);

/// `Context` of core, what a poll is given to find its task by. Opaque
/// here.
#[verifier::external_type_specification]
#[verifier::external_body]
pub struct ExContext<'a>(Context<'a>);

/// `AtomicWaker::register` of embassy-sync: stores `w` in the slot in
/// place of what was registered before. The slot changes behind a shared
/// reference, so nothing is claimed of it.
pub assume_specification[ AtomicWaker::register ](slot: &AtomicWaker, w: &Waker);

/// `AtomicWaker::wake` of embassy-sync: wakes the task registered in the
/// slot, if there is one. Nothing is claimed of the slot.
pub assume_specification[ AtomicWaker::wake ](slot: &AtomicWaker);

/// `Context::waker` of core: the waker of the task that is being polled.
/// Nothing is claimed of it.
pub assume_specification<'a>[ Context::<'a>::waker ](cx: &Context<'a>) -> (w: &'a Waker);

/// `Waker::wake_by_ref` of core: wakes the task that the waker belongs
/// to. It returns nothing, and nothing is claimed.
pub assume_specification[ Waker::wake_by_ref ](w: &Waker);

} // verus!
