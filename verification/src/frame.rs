//! The decisions taken while a frame is drawn: whether to go on after an
//! image was asked for, whether the swapchain is still usable after
//! presenting, and which frame slot comes next.

use vstd::prelude::*;

verus! {

/// Number of frames that may be recorded while earlier ones are drawn.
pub const MAX_FRAMES_IN_FLIGHT: usize = 2;

/// How a request to the swapchain ended, apart from failures that stop the
/// renderer.
#[derive(Debug, Clone, Copy, PartialEq, Eq, Structural)]
pub enum SwapchainOutcome {
    /// The request was served.
    Done,
    /// The swapchain no longer fits the surface.
    OutOfDate,
}

/// Tells whether the frame is drawn after an image was asked for: it is
/// unless the swapchain is out of date.
pub fn image_acquired(outcome: SwapchainOutcome) -> (go_on: bool)
    ensures
        go_on == (outcome == SwapchainOutcome::Done),
{
    match outcome {
        SwapchainOutcome::Done => true,
        SwapchainOutcome::OutOfDate => false,
    }
}

/// Tells whether the swapchain is usable after a frame was presented: it
/// stays as it was unless presenting found it out of date.
pub fn usable_after_present(swapchain_ok: bool, outcome: SwapchainOutcome) -> (still_ok: bool)
    ensures
        still_ok == (swapchain_ok && outcome == SwapchainOutcome::Done),
{
    match outcome {
        SwapchainOutcome::Done => swapchain_ok,
        SwapchainOutcome::OutOfDate => false,
    }
}

/// The frame slot that follows `current_frame`, going round after
/// [`MAX_FRAMES_IN_FLIGHT`] frames.
pub fn next_frame(current_frame: usize) -> (next: usize)
    requires
        current_frame < usize::MAX,
    ensures
        next == (current_frame + 1) % (MAX_FRAMES_IN_FLIGHT as int),
{
    (current_frame + 1) % MAX_FRAMES_IN_FLIGHT
}

/// Tells whether the window's maximization differs from what was seen
/// before; with nothing seen before, whether the window is maximized.
pub fn maximization_changed(previous: Option<bool>, is_maximized: bool) -> (changed: bool)
    ensures
        changed == match previous {
            Some(previous_state) => previous_state != is_maximized,
            None => is_maximized,
        },
{
    match previous {
        Some(previous_state) => previous_state != is_maximized,
        None => is_maximized,
    }
}

} // verus!
