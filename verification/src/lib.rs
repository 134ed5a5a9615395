//! The verified core of a small Vulkan renderer.
//!
//! The centre is a generational slot map: [`IndexAllocator`] issues [`Index`]
//! handles, each a slot position paired with a generation stamp, and
//! [`DenseStorage`] keeps values in a growable buffer addressed by those
//! handles, rejecting a handle whose generation no longer matches the one
//! recorded for its slot. Renderer resources are held through such handles
//! instead of references.
//!
//! Beside it stand the rules that the renderer applies to what the driver
//! reports: [`swapchain`] for the configuration of a swapchain, [`device`]
//! for the choice of a physical device, and [`frame`] for what follows from
//! the outcome of each step of drawing a frame.

pub mod allocator;
pub mod dense;
pub mod device;
pub mod frame;
pub mod handle;
pub mod lemmas;
pub mod raw;
pub mod swapchain;
pub mod utils;

pub use allocator::AllocatorView;
pub use allocator::IndexAllocator;
pub use dense::DenseStorage;
pub use dense::Entry;
pub use dense::InvalidGenerationError;
pub use dense::StorageView;
pub use handle::Index;
pub use raw::storage;
pub use raw::RawStorage;
pub use utils::FirstRun;
