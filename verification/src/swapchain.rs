//! The rules by which a swapchain is configured from what a surface reports.
//!
//! Formats, colour spaces and present modes are given by their raw Vulkan
//! values.

use vstd::prelude::*;

verus! {

/// Raw value of the format with 8-bit blue, green, red and alpha channels in
/// sRGB encoding.
pub const FORMAT_B8G8R8A8_SRGB: i32 = 50;

/// Raw value of the non-linear sRGB colour space.
pub const COLOR_SPACE_SRGB_NONLINEAR: i32 = 0;

/// Raw value of the mailbox present mode.
pub const PRESENT_MODE_MAILBOX: i32 = 1;

/// Raw value of the first-in, first-out present mode.
pub const PRESENT_MODE_FIFO: i32 = 2;

/// A format and colour space that a surface supports.
#[derive(Debug, Clone, Copy, PartialEq, Eq, Structural)]
pub struct SurfaceFormat {
    /// Raw value of the format.
    pub format: i32,
    /// Raw value of the colour space.
    pub color_space: i32,
}

impl SurfaceFormat {
    /// The format that is chosen wherever a surface offers it.
    pub open spec fn preferred(self) -> bool {
        self.format == FORMAT_B8G8R8A8_SRGB && self.color_space == COLOR_SPACE_SRGB_NONLINEAR
    }
}

/// A width and a height in pixels.
#[derive(Debug, Clone, Copy, PartialEq, Eq, Structural)]
pub struct Extent2D {
    pub width: u32,
    pub height: u32,
}

/// What a surface reports about the swapchains it can carry.
#[derive(Debug, Clone, Copy, PartialEq, Eq, Structural)]
pub struct SurfaceCapabilities {
    /// Least number of images of a swapchain.
    pub min_image_count: u32,
    /// Greatest number of images of a swapchain; 0 for no limit.
    pub max_image_count: u32,
    /// Current extent of the surface; a width of `u32::MAX` says that the
    /// swapchain decides the extent.
    pub current_extent: Extent2D,
    /// Smallest extent of a swapchain.
    pub min_image_extent: Extent2D,
    /// Largest extent of a swapchain.
    pub max_image_extent: Extent2D,
}

/// `value` brought into the range from `low` to `high`.
pub open spec fn clamped(value: u32, low: u32, high: u32) -> u32 {
    if value < low {
        low
    } else if value > high {
        high
    } else {
        value
    }
}

/// Computes [`clamped`].
fn clamp(value: u32, low: u32, high: u32) -> (r: u32)
    ensures
        r == clamped(value, low, high),
{
    if value < low {
        low
    } else if value > high {
        high
    } else {
        value
    }
}

/// Picks the preferred format if the surface offers it, and the first
/// offered format otherwise.
pub fn choose_swapchain_surface_format(available_formats: &[SurfaceFormat]) -> (chosen:
    SurfaceFormat)
    requires
        available_formats@.len() > 0,
    ensures
        chosen == if exists|i: int|
            0 <= i < available_formats@.len() && (#[trigger] available_formats@[i]).preferred() {
            SurfaceFormat { format: FORMAT_B8G8R8A8_SRGB, color_space: COLOR_SPACE_SRGB_NONLINEAR }
        } else {
            available_formats@[0]
        },
{
    let mut i: usize = 0;
    while i < available_formats.len()
        invariant
            i <= available_formats@.len(),
            forall|j: int| 0 <= j < i ==> !(#[trigger] available_formats@[j]).preferred(),
        decreases available_formats@.len() - i,
    {
        let available_format = available_formats[i];
        if available_format.format == FORMAT_B8G8R8A8_SRGB && available_format.color_space
            == COLOR_SPACE_SRGB_NONLINEAR {
            assert(available_formats@[i as int].preferred());
            return available_format;
        }
        i = i + 1;
    }
    available_formats[0]
}

/// Picks the mailbox mode if the surface offers it, and the first-in,
/// first-out mode otherwise.
pub fn choose_swapchain_present_mode(available_present_modes: &[i32]) -> (chosen: i32)
    ensures
        chosen == if available_present_modes@.contains(PRESENT_MODE_MAILBOX) {
            PRESENT_MODE_MAILBOX
        } else {
            PRESENT_MODE_FIFO
        },
{
    let mut i: usize = 0;
    while i < available_present_modes.len()
        invariant
            i <= available_present_modes@.len(),
            forall|j: int| 0 <= j < i ==> available_present_modes@[j] != PRESENT_MODE_MAILBOX,
        decreases available_present_modes@.len() - i,
    {
        if available_present_modes[i] == PRESENT_MODE_MAILBOX {
            assert(available_present_modes@[i as int] == PRESENT_MODE_MAILBOX);
            return PRESENT_MODE_MAILBOX;
        }
        i = i + 1;
    }
    PRESENT_MODE_FIFO
}

/// The extent of a swapchain for a window of the given size.
pub open spec fn chosen_extent(capabilities: SurfaceCapabilities, size: Extent2D) -> Extent2D {
    if capabilities.current_extent.width != u32::MAX {
        capabilities.current_extent
    } else {
        Extent2D {
            width: clamped(
                size.width,
                capabilities.min_image_extent.width,
                capabilities.max_image_extent.width,
            ),
            height: clamped(
                size.height,
                capabilities.min_image_extent.height,
                capabilities.max_image_extent.height,
            ),
        }
    }
}

/// Picks the surface's current extent where the surface fixes one, and
/// otherwise the window's size, each side brought into the range that the
/// surface allows. That range must not be empty.
pub fn choose_swapchain_extent(capabilities: SurfaceCapabilities, size: Extent2D) -> (chosen:
    Extent2D)
    requires
        capabilities.current_extent.width == u32::MAX ==> {
            &&& capabilities.min_image_extent.width <= capabilities.max_image_extent.width
            &&& capabilities.min_image_extent.height <= capabilities.max_image_extent.height
        },
    ensures
        chosen == chosen_extent(capabilities, size),
{
    if capabilities.current_extent.width != u32::MAX {
        capabilities.current_extent
    } else {
        let width = clamp(
            size.width,
            capabilities.min_image_extent.width,
            capabilities.max_image_extent.width,
        );
        let height = clamp(
            size.height,
            capabilities.min_image_extent.height,
            capabilities.max_image_extent.height,
        );
        Extent2D { width, height }
    }
}

/// The number of images to ask for: one more than the least, but no more
/// than the greatest where the surface sets a limit.
pub open spec fn chosen_image_count(capabilities: SurfaceCapabilities) -> int {
    if capabilities.max_image_count > 0 && capabilities.min_image_count + 1
        > capabilities.max_image_count {
        capabilities.max_image_count as int
    } else {
        capabilities.min_image_count + 1
    }
}

/// Computes [`chosen_image_count`].
pub fn choose_swapchain_image_count(capabilities: SurfaceCapabilities) -> (count: u32)
    requires
        capabilities.min_image_count < u32::MAX,
    ensures
        count == chosen_image_count(capabilities),
{
    let image_count = capabilities.min_image_count + 1;
    if capabilities.max_image_count > 0 && image_count > capabilities.max_image_count {
        capabilities.max_image_count
    } else {
        image_count
    }
}

} // verus!
