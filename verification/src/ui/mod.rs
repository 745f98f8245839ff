//! State behind interface overlays, and how the test text is highlighted.

pub mod grex_overlay;
pub mod highlight;
