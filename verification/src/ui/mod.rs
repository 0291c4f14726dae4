//! What the panel shows, worked out apart from the toolkit that draws it.

pub mod css;
pub mod face;
pub mod layout;
pub mod tasks;
pub mod tray;
