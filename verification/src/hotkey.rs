//! Global hotkeys: which key combination raises which event.

use vstd::prelude::*;

verus! {

/// Events that global hotkeys raise.
#[derive(Debug, Clone, Copy, PartialEq, Eq, Structural)]
pub enum HotkeyEvent {
    /// Cmd+Shift+P: open the command palette.
    CommandPalette,
    /// Cmd+Shift+A: open the allow-flow panel.
    AllowFlowPanel,
    /// Cmd+`: toggle the quick terminal.
    QuickTerminal,
}

/// Why the hotkey monitor could not start.
#[derive(Debug)]
pub enum HotkeyError {
    /// Input monitoring permission was denied, so no event tap exists.
    InputMonitoringDenied,
    /// No run loop source could be made from the event tap.
    RunLoopSourceFailed,
    /// Starting failed for the stated reason.
    StartFailed(String),
}

/// The macOS virtual keycode of 'P'.
pub const KEYCODE_P: i64 = 35;
/// The macOS virtual keycode of 'A'.
pub const KEYCODE_A: i64 = 0;
/// The macOS virtual keycode of '`' (US layout).
pub const KEYCODE_BACKTICK: i64 = 50;

/// The event a key press raises, given whether Command and Shift are held:
/// Cmd+Shift+P and Cmd+Shift+A, and Cmd+` without Shift; other modifiers
/// are ignored.
pub open spec fn hotkey_spec(command: bool, shift: bool, keycode: i64) -> Option<HotkeyEvent> {
    if command && shift && keycode == KEYCODE_P {
        Some(HotkeyEvent::CommandPalette)
    } else if command && shift && keycode == KEYCODE_A {
        Some(HotkeyEvent::AllowFlowPanel)
    } else if command && !shift && keycode == KEYCODE_BACKTICK {
        Some(HotkeyEvent::QuickTerminal)
    } else {
        None
    }
}

/// The event a key press raises, if any (see `hotkey_spec`).
pub fn hotkey_for(command: bool, shift: bool, keycode: i64) -> (r: Option<HotkeyEvent>)
    ensures
        r == hotkey_spec(command, shift, keycode),
{
    if command && shift {
        if keycode == KEYCODE_P {
            return Some(HotkeyEvent::CommandPalette);
        } else if keycode == KEYCODE_A {
            return Some(HotkeyEvent::AllowFlowPanel);
        }
    }
    if command && !shift && keycode == KEYCODE_BACKTICK {
        Some(HotkeyEvent::QuickTerminal)
    } else {
        None
    }
}

} // verus!
