//! Events between the tray, the toast window and the main window.

use vstd::prelude::*;

verus! {

/// A system-level event, raised by the tray or a toast and handled by the
/// main window.
#[derive(Debug, Clone, PartialEq, Eq)]
pub enum SystemEvent {
    /// Show and activate the main window.
    ShowMainWindow,
    /// Quit the application.
    Quit,
    /// Mark one notice read.
    MarkRead(String),
}

} // verus!
