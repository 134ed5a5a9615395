use std::collections::HashSet;

use render_core::device::{
    find_queue_families, first_unsupported, is_device_suitable, name_available, same_name,
    select_physical_device, unique_queue_families, QueueFamily, QueueFamilyIndices,
};
use render_core::swapchain::{
    choose_swapchain_extent, choose_swapchain_image_count, choose_swapchain_present_mode,
    choose_swapchain_surface_format, Extent2D, SurfaceCapabilities, SurfaceFormat,
    COLOR_SPACE_SRGB_NONLINEAR, FORMAT_B8G8R8A8_SRGB, PRESENT_MODE_FIFO, PRESENT_MODE_MAILBOX,
};
use render_core::frame::{
    image_acquired, maximization_changed, next_frame, usable_after_present, SwapchainOutcome,
    MAX_FRAMES_IN_FLIGHT,
};
use render_core::{storage, FirstRun};

fn capabilities(current_width: u32) -> SurfaceCapabilities {
    SurfaceCapabilities {
        min_image_count: 2,
        max_image_count: 3,
        current_extent: Extent2D { width: current_width, height: 600 },
        min_image_extent: Extent2D { width: 100, height: 50 },
        max_image_extent: Extent2D { width: 1920, height: 1080 },
    }
}

#[test]
fn preferred_surface_format_is_chosen_where_offered() {
    let other = SurfaceFormat { format: 44, color_space: 0 };
    let near = SurfaceFormat { format: FORMAT_B8G8R8A8_SRGB, color_space: 7 };
    let preferred =
        SurfaceFormat { format: FORMAT_B8G8R8A8_SRGB, color_space: COLOR_SPACE_SRGB_NONLINEAR };
    assert_eq!(preferred, SurfaceFormat { format: 50, color_space: 0 });
    assert_eq!(choose_swapchain_surface_format(&[other, near, preferred]), preferred);
    assert_eq!(choose_swapchain_surface_format(&[near, other]), near);
    assert_eq!(choose_swapchain_surface_format(&[other]), other);
}

#[test]
fn mailbox_is_chosen_where_offered() {
    assert_eq!(PRESENT_MODE_MAILBOX, 1);
    assert_eq!(PRESENT_MODE_FIFO, 2);
    assert_eq!(choose_swapchain_present_mode(&[0, 2, 1, 3]), 1);
    assert_eq!(choose_swapchain_present_mode(&[0, 3]), 2);
    assert_eq!(choose_swapchain_present_mode(&[]), 2);
}

#[test]
fn extent_follows_surface_or_clamped_window() {
    let size = Extent2D { width: 5000, height: 10 };
    assert_eq!(
        choose_swapchain_extent(capabilities(800), size),
        Extent2D { width: 800, height: 600 }
    );
    assert_eq!(
        choose_swapchain_extent(capabilities(u32::MAX), size),
        Extent2D { width: 1920, height: 50 }
    );
    assert_eq!(
        choose_swapchain_extent(capabilities(u32::MAX), Extent2D { width: 640, height: 480 }),
        Extent2D { width: 640, height: 480 }
    );
}

#[test]
fn image_count_is_one_above_least_within_limit() {
    let mut caps = capabilities(800);
    assert_eq!(choose_swapchain_image_count(caps), 3);
    caps.max_image_count = 2;
    assert_eq!(choose_swapchain_image_count(caps), 2);
    caps.max_image_count = 0;
    assert_eq!(choose_swapchain_image_count(caps), 3);
    caps.min_image_count = 7;
    caps.max_image_count = 16;
    assert_eq!(choose_swapchain_image_count(caps), 8);
}

#[test]
fn frames_go_round() {
    assert_eq!(MAX_FRAMES_IN_FLIGHT, 2);
    assert_eq!(next_frame(0), 1);
    assert_eq!(next_frame(1), 0);
    assert_eq!(next_frame(2), 1);
}

#[test]
fn first_graphics_and_first_present_family_are_found() {
    let neither = QueueFamily { graphics: false, present: false };
    let graphics = QueueFamily { graphics: true, present: false };
    let present = QueueFamily { graphics: false, present: true };
    let both = QueueFamily { graphics: true, present: true };
    assert_eq!(
        find_queue_families(&[neither, present, graphics, both]),
        Some(QueueFamilyIndices { graphics_family: 2, present_family: 1 })
    );
    assert_eq!(
        find_queue_families(&[neither, both, graphics]),
        Some(QueueFamilyIndices { graphics_family: 1, present_family: 1 })
    );
    assert_eq!(find_queue_families(&[graphics, neither]), None);
    assert_eq!(find_queue_families(&[present]), None);
    assert_eq!(find_queue_families(&[]), None);
}

#[test]
fn names_are_compared_by_bytes() {
    assert!(same_name(b"VK_KHR_swapchain", b"VK_KHR_swapchain"));
    assert!(!same_name(b"VK_KHR_swapchain", b"VK_KHR_swapchaim"));
    assert!(!same_name(b"VK_KHR_swapchain", b"VK_KHR_swap"));
    assert!(same_name(b"", b""));
    let available = vec![b"a".to_vec(), b"bc".to_vec()];
    assert!(name_available(&available, b"bc"));
    assert!(!name_available(&available, b"b"));
}

#[test]
fn first_missing_name_is_reported() {
    let available = vec![b"one".to_vec(), b"two".to_vec(), b"three".to_vec()];
    assert_eq!(first_unsupported(&vec![b"two".to_vec(), b"one".to_vec()], &available), None);
    assert_eq!(first_unsupported(&vec![], &available), None);
    assert_eq!(
        first_unsupported(
            &vec![b"two".to_vec(), b"four".to_vec(), b"five".to_vec()],
            &available
        ),
        Some(1)
    );
    assert_eq!(first_unsupported(&vec![b"one".to_vec()], &vec![]), Some(0));
}

#[test]
fn suitable_device_needs_families_extensions_and_swapchain_support() {
    let families = Some(QueueFamilyIndices { graphics_family: 0, present_family: 1 });
    assert_eq!(is_device_suitable(families, true, 1, 1), families);
    assert_eq!(is_device_suitable(families, false, 1, 1), None);
    assert_eq!(is_device_suitable(families, true, 0, 1), None);
    assert_eq!(is_device_suitable(families, true, 1, 0), None);
    assert_eq!(is_device_suitable(None, true, 1, 1), None);
}

#[test]
fn first_suitable_device_is_selected() {
    let x = QueueFamilyIndices { graphics_family: 0, present_family: 0 };
    let y = QueueFamilyIndices { graphics_family: 1, present_family: 2 };
    assert_eq!(select_physical_device(&[None, Some(y), Some(x)]), Some((1, y)));
    assert_eq!(select_physical_device(&[Some(x)]), Some((0, x)));
    assert_eq!(select_physical_device(&[None, None]), None);
    assert_eq!(select_physical_device(&[]), None);
}

#[test]
fn only_the_first_run_is_first() {
    let mut latch = FirstRun::default();
    assert!(latch.is_first_run());
    assert!(!latch.is_first_run());
    assert!(!latch.is_first_run());
}

#[test]
fn raw_storage_holds_its_value() {
    let raw = storage(vec![1, 2, 3]);
    assert_eq!(raw.data, vec![1, 2, 3]);
}

#[test]
fn out_of_date_swapchain_stops_the_frame() {
    assert!(image_acquired(SwapchainOutcome::Done));
    assert!(!image_acquired(SwapchainOutcome::OutOfDate));
    assert!(usable_after_present(true, SwapchainOutcome::Done));
    assert!(!usable_after_present(true, SwapchainOutcome::OutOfDate));
    assert!(!usable_after_present(false, SwapchainOutcome::Done));
    assert!(!usable_after_present(false, SwapchainOutcome::OutOfDate));
}

#[test]
fn maximization_change_is_told_from_previous_state() {
    assert!(maximization_changed(None, true));
    assert!(!maximization_changed(None, false));
    assert!(maximization_changed(Some(false), true));
    assert!(maximization_changed(Some(true), false));
    assert!(!maximization_changed(Some(true), true));
    assert!(!maximization_changed(Some(false), false));
}

#[test]
fn queues_are_created_once_per_family() {
    let same = QueueFamilyIndices { graphics_family: 3, present_family: 3 };
    let different = QueueFamilyIndices { graphics_family: 0, present_family: 2 };
    assert_eq!(unique_queue_families(same), HashSet::from([3]));
    assert_eq!(unique_queue_families(same).len(), 1);
    assert_eq!(unique_queue_families(different), HashSet::from([0, 2]));
    assert_eq!(unique_queue_families(different).len(), 2);
}
