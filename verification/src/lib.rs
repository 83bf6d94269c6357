//! Host health metrics: parsers for the text that the system utilities print,
//! assemblers that turn readings into bounded snapshots, the freshness rule of
//! the storage cache and the escalation rule for quitting a process.
//!
//! Nothing here touches the machine. Callers run the utilities, read the
//! counters and deliver the signals; they hand over plain values and act on
//! what comes back.

pub mod command;
pub mod fixed;
pub mod monitors;
pub mod numeral;
pub mod order;
pub mod text;

use vstd::prelude::*;
use crate::command::owned;

verus! {

/// Overall health, as the tray presents it.
#[derive(Debug, Clone, Copy, PartialEq, Eq, Structural)]
pub enum SystemStatus {
    Excellent,
    CouldBeBetter,
    Critical,
}

/// The name of the tray icon that stands for `status`.
pub open spec fn icon_label(status: SystemStatus) -> Seq<char> {
    match status {
        SystemStatus::Excellent => "tray-normal"@,
        SystemStatus::CouldBeBetter => "tray-warning"@,
        SystemStatus::Critical => "tray-critical"@,
    }
}

impl SystemStatus {
    /// Names the tray icon that stands for this status.
    pub fn icon_name(&self) -> (r: String)
        ensures
            r@ == icon_label(*self),
    {
        match self {
            SystemStatus::Excellent => owned("tray-normal"),
            SystemStatus::CouldBeBetter => owned("tray-warning"),
            SystemStatus::Critical => owned("tray-critical"),
        }
    }
}

/// Takes note of a change of status: with a tray icon to show it on, the
/// answer is the name of the icon that stands for the status; without one,
/// an error.
pub fn update_tray_status(status: SystemStatus, tray_present: bool) -> (r: Result<String, String>)
    ensures
        tray_present ==> r is Ok && r->Ok_0@ == icon_label(status),
        !tray_present ==> r is Err && r->Err_0@ == "Tray icon not found"@,
{
    if tray_present {
        Ok(status.icon_name())
    } else {
        Err(owned("Tray icon not found"))
    }
}

} // verus!
