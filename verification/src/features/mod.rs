//! Device-facing features: tweak profiles, app profiles and preloading.

pub mod categories;
pub mod preload;
pub mod profile;
pub mod tweak_plan;
pub mod tweaks;
