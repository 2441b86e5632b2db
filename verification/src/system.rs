//! Control of the installed systemd service.

use crate::gen::strs;
use vstd::prelude::*;

verus! {

/// An operation on the systemd service.
#[derive(Clone, Copy, Debug, PartialEq, Eq, Structural)]
pub enum ServiceAction {
    /// Start the service.
    Start,
    /// Stop the service.
    Stop,
    /// Restart the service.
    Restart,
    /// Show the full status.
    Status,
}

/// The `systemctl` arguments of an operation.
pub open spec fn systemctl_args(action: ServiceAction) -> Seq<Seq<char>> {
    match action {
        ServiceAction::Start => seq!["start"@, "nsetup.service"@],
        ServiceAction::Stop => seq!["stop"@, "nsetup.service"@],
        ServiceAction::Restart => seq!["restart"@, "nsetup.service"@],
        ServiceAction::Status => seq!["--no-pager"@, "--full"@, "status"@, "nsetup.service"@],
    }
}

/// The `systemctl` arguments of an operation on `nsetup.service`.
pub fn control_args(action: ServiceAction) -> (r: Vec<String>)
    ensures
        strs(r@) == systemctl_args(action),
{
    let mut out: Vec<String> = Vec::new();
    match action {
        ServiceAction::Start => {
            out.push(String::from_str("start"));
        },
        ServiceAction::Stop => {
            out.push(String::from_str("stop"));
        },
        ServiceAction::Restart => {
            out.push(String::from_str("restart"));
        },
        ServiceAction::Status => {
            out.push(String::from_str("--no-pager"));
            out.push(String::from_str("--full"));
            out.push(String::from_str("status"));
        },
    }
    out.push(String::from_str("nsetup.service"));
    assert(strs(out@) =~= systemctl_args(action));
    out
}

/// Whether `systemctl` finished as the operation needs: successfully, or, for the
/// status, with exit code 3, which reports a stopped service.
pub fn control_succeeded(action: ServiceAction, success: bool, code: Option<i32>) -> (r: bool)
    ensures
        r == (success || (action == ServiceAction::Status && code == Some(3i32))),
{
    if action == ServiceAction::Status {
        match code {
            Some(c) => {
                if c == 3 {
                    return true;
                }
            },
            None => {},
        }
    }
    success
}

} // verus!
