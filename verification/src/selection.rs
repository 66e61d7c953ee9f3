//! The page's current device selection, shared with its background tasks.

use std::sync::atomic::{AtomicUsize, Ordering};
use vstd::prelude::*;

verus! {

/// Whether `selected` is still the current selection. The counter is shared
/// with other tasks, so nothing is known of the value read; the answer is
/// `is_current_generation` of that value and `selected`.
pub fn selection_is_current(generation: &AtomicUsize, selected: usize) -> bool {
    is_current_generation(generation.load(Ordering::SeqCst), selected)
}

/// Whether a selection made at generation `selected` is still current when
/// the counter reads `current`.
pub fn is_current_generation(current: usize, selected: usize) -> (r: bool)
    ensures
        r == (current == selected),
{
    current == selected
}

} // verus!
