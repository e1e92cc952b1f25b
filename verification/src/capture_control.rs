//! The capture worker's decision kernel: what one poll of the shared state
//! tells the worker to do, and whether a running capture should keep
//! reading. The worker performs the blocking reads; every decision is made
//! here.

use vstd::prelude::*;
use crate::app_state::device_names_equal;

verus! {

/// What the worker does after one poll of the shared state.
#[derive(Debug, PartialEq, Eq)]
pub enum CaptureDecision {
    /// Capture is off: drop the current handle and poll again.
    Pause,
    /// Open (or reopen) a capture handle on this device.
    Start(String),
    /// Keep whatever the worker is doing and poll again.
    Wait,
}

/// Decides one poll: capture off pauses the worker; a selected device that
/// is new, changed, or not the one currently open starts a capture on it;
/// anything else waits.
pub fn capture_poll_decision(
    is_capturing: bool,
    device_changed: bool,
    selected: Option<&String>,
    current: Option<&String>,
) -> (r: CaptureDecision)
    ensures
        !is_capturing ==> r is Pause,
        is_capturing && selected is None ==> r is Wait,
        is_capturing ==> (match selected {
            Some(d) => {
                if (match current {
                    Some(c) => c@ != d@ || device_changed,
                    None => true,
                }) {
                    r matches CaptureDecision::Start(n) && n@ == d@
                } else {
                    r is Wait
                }
            },
            None => r is Wait,
        }),
{
    if !is_capturing {
        return CaptureDecision::Pause;
    }
    match selected {
        None => CaptureDecision::Wait,
        Some(d) => {
            let restart = match current {
                Some(c) => !device_names_equal(c, d) || device_changed,
                None => true,
            };
            if restart {
                CaptureDecision::Start(d.clone())
            } else {
                CaptureDecision::Wait
            }
        },
    }
}

/// Whether the inner read loop goes on: only while capture stays on and the
/// selected device is still the one the open handle belongs to.
pub fn should_continue_capture(
    is_capturing: bool,
    selected: Option<&String>,
    current: &String,
) -> (r: bool)
    ensures
        r == (is_capturing && (match selected {
            Some(n) => n@ == current@,
            None => false,
        })),
{
    if !is_capturing {
        return false;
    }
    match selected {
        Some(n) => device_names_equal(n, current),
        None => false,
    }
}

} // verus!
