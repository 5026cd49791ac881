//! Progress monitoring panel.

use vstd::prelude::*;

use crate::scan::ScanState;

verus! {

/// Progress monitoring panel (it keeps no state of its own).
#[derive(Debug)]
pub struct ProgressPanel;

pub open spec fn status_text(s: ScanState) -> Seq<char> {
    match s {
        ScanState::Idle => "Idle"@,
        ScanState::Running => "Running"@,
        ScanState::Completed => "Completed"@,
        ScanState::Failed => "Failed"@,
        ScanState::Cancelled => "Cancelled"@,
    }
}

impl ProgressPanel {
    pub fn new() -> (r: Self) {
        ProgressPanel
    }

    /// The status shown for a scan state.
    pub fn status_label(state: ScanState) -> (r: &'static str)
        ensures
            r@ == status_text(state),
    {
        match state {
            ScanState::Idle => "Idle",
            ScanState::Running => "Running",
            ScanState::Completed => "Completed",
            ScanState::Failed => "Failed",
            ScanState::Cancelled => "Cancelled",
        }
    }
}

impl Default for ProgressPanel {
    fn default() -> (r: Self) {
        ProgressPanel::new()
    }
}

} // verus!
