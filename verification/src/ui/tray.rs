//! What the tray icon asks of the panel.

use vstd::prelude::*;

verus! {

/// A request from the tray icon's menu.
#[derive(Debug, Clone, Copy, PartialEq, Eq, Structural)]
pub enum TrayAction {
    /// Show or hide the dropdown.
    Toggle,
    /// Close the panel.
    Quit,
}

} // verus!
