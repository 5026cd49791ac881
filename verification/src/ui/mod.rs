//! State and decisions of the UI panels (the drawing itself is done by the
//! application with egui).

pub mod config_panel;
pub mod progress_panel;
pub mod results_panel;
pub mod run_mode;

use vstd::prelude::*;

use crate::config::ScanConfig;
use crate::scan::ScanState;

verus! {

/// Application tabs.
#[derive(Debug, Clone, Copy, PartialEq, Eq, Structural)]
pub enum Tab {
    Configure,
    Monitor,
    Results,
}

pub open spec fn tab_label(t: Tab) -> Seq<char> {
    match t {
        Tab::Configure => "⚙ Configure"@,
        Tab::Monitor => "📊 Monitor"@,
        Tab::Results => "📁 Results"@,
    }
}

impl Tab {
    pub fn label(&self) -> (r: &'static str)
        ensures
            r@ == tab_label(*self),
    {
        match self {
            Tab::Configure => "⚙ Configure",
            Tab::Monitor => "📊 Monitor",
            Tab::Results => "📁 Results",
        }
    }
}

impl Default for Tab {
    fn default() -> (r: Self)
        ensures
            r == Tab::Configure,
    {
        Tab::Configure
    }
}

/// A scan can be started once both the input and the output are named.
pub fn can_start_scan(config: &ScanConfig) -> (r: bool)
    ensures
        r == (config.input_path@.len() > 0 && config.output_path@.len() > 0),
{
    !config.input_path.as_str().is_empty() && !config.output_path.as_str().is_empty()
}

/// Whether the configuration resumes from a checkpoint (a non-empty
/// `--resume-from` path).
pub open spec fn resumes(c: ScanConfig) -> bool {
    match c.resume_from {
        Some(p) => p@.len() > 0,
        None => false,
    }
}

/// The start action's label: `Resume Scan` when the configuration resumes
/// from a checkpoint, `Start Scan` otherwise.
pub fn start_button_label(config: &ScanConfig) -> (r: &'static str)
    ensures
        r@ == (if resumes(*config) {
            "▶ Resume Scan"@
        } else {
            "▶ Start Scan"@
        }),
{
    match &config.resume_from {
        Some(p) => if p.as_str().unicode_len() > 0 {
            "▶ Resume Scan"
        } else {
            "▶ Start Scan"
        },
        None => "▶ Start Scan",
    }
}

/// Whether the "resume mode active" notice is shown.
pub fn resume_active(config: &ScanConfig) -> (r: bool)
    ensures
        r == resumes(*config),
{
    match &config.resume_from {
        Some(p) => p.as_str().unicode_len() > 0,
        None => false,
    }
}

pub open spec fn indicator_text(s: ScanState) -> Seq<char> {
    match s {
        ScanState::Idle => "● Idle"@,
        ScanState::Running => "● Running"@,
        ScanState::Completed => "● Completed"@,
        ScanState::Failed => "● Failed"@,
        ScanState::Cancelled => "● Cancelled"@,
    }
}

/// The state indicator shown in the sidebar.
pub fn state_indicator(state: ScanState) -> (r: &'static str)
    ensures
        r@ == indicator_text(state),
{
    match state {
        ScanState::Idle => "● Idle",
        ScanState::Running => "● Running",
        ScanState::Completed => "● Completed",
        ScanState::Failed => "● Failed",
        ScanState::Cancelled => "● Cancelled",
    }
}

/// The tab to show after an update: a completed scan watched on the monitor
/// moves the view to its results, with a status message.
pub fn tab_after_update(state: ScanState, current: Tab) -> (r: (Tab, Option<&'static str>))
    ensures
        state == ScanState::Completed && current == Tab::Monitor ==> r.0 == Tab::Results && r.1
            is Some && r.1.unwrap()@ == "Scan completed!"@,
        !(state == ScanState::Completed && current == Tab::Monitor) ==> r.0 == current && r.1 is None,
{
    if state == ScanState::Completed && current == Tab::Monitor {
        (Tab::Results, Some("Scan completed!"))
    } else {
        (current, None)
    }
}

} // verus!
