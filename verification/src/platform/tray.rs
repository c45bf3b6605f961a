//! What the tray does with what the system tells it.
use crate::platform::Effect;
use crate::platform::PlatformError;
use vstd::prelude::*;

verus! {

// ---------------------------------------------------------------------------
// The notification area of Windows
// ---------------------------------------------------------------------------

/// The window is gone.
pub const WM_DESTROY: u32 = 0x0002;

/// The window is to close.
pub const WM_CLOSE: u32 = 0x0010;

/// An item of the menu was chosen.
pub const WM_COMMAND: u32 = 0x0111;

/// The left button went up.
pub const WM_LBUTTONUP: u32 = 0x0202;

/// The left button was pressed twice.
pub const WM_LBUTTONDBLCLK: u32 = 0x0203;

/// The right button went up.
pub const WM_RBUTTONUP: u32 = 0x0205;

/// Something happened to the icon: the first message that is free for programs,
/// and one more.
pub const TRAY_CALLBACK_MESSAGE: u32 = 0x8001;

/// The item of the menu that opens the window.
pub const OPEN_COMMAND: u64 = 1;

/// The item of the menu that quits.
pub const QUIT_COMMAND: u64 = 2;

/// What a message comes to.
#[derive(Clone, Copy, Debug, PartialEq, Eq, Structural)]
pub enum TrayEffect {
    Nothing,
    Show,
    Quit,
    /// The menu comes up.
    Menu,
    /// The icon is put back: the taskbar was made anew.
    AddIcon,
    /// The icon and the window go.
    Remove,
    /// The loop that takes messages ends.
    EndLoop,
    /// It is left to the system.
    Default,
}

/// What a message comes to. `taskbar_created` is the number that the system gave
/// to the message that tells of a new taskbar.
pub open spec fn tray_effect(
    message: u32,
    taskbar_created: u32,
    wparam: u64,
    lparam: u64,
) -> TrayEffect {
    if message == TRAY_CALLBACK_MESSAGE {
        let event = lparam % 0x1_0000_0000;
        if event == WM_LBUTTONUP || event == WM_LBUTTONDBLCLK {
            TrayEffect::Show
        } else if event == WM_RBUTTONUP {
            TrayEffect::Menu
        } else {
            TrayEffect::Nothing
        }
    } else if message == taskbar_created {
        TrayEffect::AddIcon
    } else if message == WM_COMMAND {
        let command = wparam % 0x1_0000;
        if command == OPEN_COMMAND {
            TrayEffect::Show
        } else if command == QUIT_COMMAND {
            TrayEffect::Quit
        } else {
            TrayEffect::Nothing
        }
    } else if message == WM_CLOSE {
        TrayEffect::Remove
    } else if message == WM_DESTROY {
        TrayEffect::EndLoop
    } else {
        TrayEffect::Default
    }
}

/// What a message comes to.
pub fn tray_message(message: u32, taskbar_created: u32, wparam: u64, lparam: u64) -> (e: TrayEffect)
    ensures
        e == tray_effect(message, taskbar_created, wparam, lparam),
{
    if message == TRAY_CALLBACK_MESSAGE {
        let event: u64 = lparam % 0x1_0000_0000;
        if event == WM_LBUTTONUP as u64 || event == WM_LBUTTONDBLCLK as u64 {
            TrayEffect::Show
        } else if event == WM_RBUTTONUP as u64 {
            TrayEffect::Menu
        } else {
            TrayEffect::Nothing
        }
    } else if message == taskbar_created {
        TrayEffect::AddIcon
    } else if message == WM_COMMAND {
        let command: u64 = wparam % 0x1_0000;
        if command == OPEN_COMMAND {
            TrayEffect::Show
        } else if command == QUIT_COMMAND {
            TrayEffect::Quit
        } else {
            TrayEffect::Nothing
        }
    } else if message == WM_CLOSE {
        TrayEffect::Remove
    } else if message == WM_DESTROY {
        TrayEffect::EndLoop
    } else {
        TrayEffect::Default
    }
}

/// Whether the icon may be put up: there is only one.
pub fn claim_tray(running: bool) -> (r: Result<(), PlatformError>)
    ensures
        match r {
            Ok(_) => !running,
            Err(error) => running && (error matches PlatformError::Tray(text) && text@
                == "Windows notification-area icon is already running"@),
        },
{
    if running {
        Err(PlatformError::Tray("Windows notification-area icon is already running".to_owned()))
    } else {
        Ok(())
    }
}

/// The window that a notice is shown from.
pub fn notice_window(window: Option<u64>) -> (r: Result<u64, PlatformError>)
    ensures
        match r {
            Ok(found) => window == Some(found),
            Err(error) => window is None && (error matches PlatformError::Tray(text)
                && text@ == "Windows notification-area icon is not running"@),
        },
{
    match window {
        Some(found) => Ok(found),
        None => Err(
            PlatformError::Tray("Windows notification-area icon is not running".to_owned()),
        ),
    }
}

// ---------------------------------------------------------------------------
// Permissions of macOS
// ---------------------------------------------------------------------------

/// What follows when the permission was looked at again: the window comes up where
/// it was granted meanwhile, and the dashboard quits where it was withdrawn.
pub fn permission_seen(last: bool, current: bool) -> (e: Effect)
    ensures
        e == (if current == last {
            Effect::Nothing
        } else if current {
            Effect::Show
        } else {
            Effect::Quit
        }),
{
    if current == last {
        Effect::Nothing
    } else if current {
        Effect::Show
    } else {
        Effect::Quit
    }
}

/// What the user is asked first.
#[derive(Clone, Copy, Debug, PartialEq, Eq, Structural)]
pub enum Prompt {
    Nothing,
    Accessibility,
    /// Input monitoring, and the sending of events.
    Input,
}

/// What the user is asked: once for each start, and for the input only where the
/// dashboard may control the computer at all.
pub fn initial_prompt(asked_before: bool, accessibility: bool) -> (p: Prompt)
    ensures
        p == (if asked_before {
            Prompt::Nothing
        } else if accessibility {
            Prompt::Input
        } else {
            Prompt::Accessibility
        }),
{
    if asked_before {
        Prompt::Nothing
    } else if accessibility {
        Prompt::Input
    } else {
        Prompt::Accessibility
    }
}

/// A click on the icon shows the window, a right click brings up the menu, and the menu
/// opens and quits; a taskbar that was made anew gets the icon again.
pub proof fn law_clicks_do_what_they_say(taskbar_created: u32, wparam: u64, lparam: u64)
    requires
        0xc000 <= taskbar_created,
    ensures
        tray_effect(0x8001, taskbar_created, wparam, 0x202) == TrayEffect::Show,
        tray_effect(0x8001, taskbar_created, wparam, 0x203) == TrayEffect::Show,
        tray_effect(0x8001, taskbar_created, wparam, 0x205) == TrayEffect::Menu,
        tray_effect(taskbar_created, taskbar_created, wparam, lparam) == TrayEffect::AddIcon,
        tray_effect(0x111, taskbar_created, 1, lparam) == TrayEffect::Show,
        tray_effect(0x111, taskbar_created, 2, lparam) == TrayEffect::Quit,
        tray_effect(0x10, taskbar_created, wparam, lparam) == TrayEffect::Remove,
        tray_effect(0x2, taskbar_created, wparam, lparam) == TrayEffect::EndLoop,
{
}

} // verus!
