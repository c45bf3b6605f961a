//! Files dragged onto the window: which backend takes them, and how long a drag
//! is followed.
use crate::text::chars_of;
use crate::text::lower;
use crate::text::lower_chars;
use crate::text::parts_of;
use crate::text::same_text;
use crate::text::split;
use crate::text::split_chars;
use crate::text::string_of;
use crate::text::trim;
use crate::text::trim_text;
use vstd::prelude::*;

verus! {

// ---------------------------------------------------------------------------
// The backend
// ---------------------------------------------------------------------------

/// A backend that takes no dropped files.
pub open spec fn takes_no_files(name: Seq<char>) -> bool {
    name == "qt"@ || name == "linuxkms"@ || name == "headless"@ || name == "android-activity"@
}

/// The backend that was asked for by name takes no dropped files. What stands
/// behind a dash says how it draws.
pub open spec fn other_backend(value: Seq<char>) -> bool {
    takes_no_files(split(lower(trim(value)), '-')[0])
}

/// The backend that was asked for, where it takes no dropped files.
pub fn explicit_non_winit_backend(value: Option<String>) -> (r: Option<String>)
    ensures
        r == (if value is Some && other_backend(value->Some_0@) {
            value
        } else {
            None
        }),
{
    match value {
        Some(value) => {
            let trimmed: String = trim_text(value.as_str());
            let small: Vec<char> = lower_chars(chars_of(trimmed.as_str()).as_slice());
            let parts: Vec<Vec<char>> = split_chars(small.as_slice(), '-');
            assert(parts_of(parts@)[0] == parts@[0]@);
            let name: String = string_of(parts[0].as_slice());
            if same_text(name.as_str(), "qt") || same_text(name.as_str(), "linuxkms") || same_text(
                name.as_str(),
                "headless",
            ) || same_text(name.as_str(), "android-activity") {
                Some(value)
            } else {
                None
            }
        },
        None => None,
    }
}

/// What is done about the backend before the window is created.
#[derive(Clone, Debug, PartialEq, Eq)]
pub enum BackendPlan {
    /// Nothing; the text says why files cannot be dropped.
    Skip(String),
    /// The backend is told to use X11.
    SelectX11,
    Select,
}

pub open spec fn is_set(value: Option<String>) -> bool {
    value is Some && value->Some_0@.len() > 0
}

/// What is done about the backend. Dropping files is an enhancement, not a
/// prerequisite: the dashboard opens in any case.
pub open spec fn planned(
    p: BackendPlan,
    linux: bool,
    backend: Option<String>,
    wayland: Option<String>,
    display: Option<String>,
) -> bool {
    if backend is Some && other_backend(backend->Some_0@) {
        p matches BackendPlan::Skip(text) && text@
            == "native file drop is unavailable with explicitly selected Slint backend `"@
            + backend->Some_0@ + "`"@
    } else if !linux {
        p is Select
    } else if is_set(wayland) {
        p matches BackendPlan::Skip(text) && text@
            == "native file drop is unavailable on Wayland: winit 0.30 does not implement the Wayland data-device protocol; use your file manager's Copy action instead"@
    } else if !is_set(display) {
        p matches BackendPlan::Skip(text) && text@
            == "native file drop requires an X11 or XWayland DISPLAY on Linux"@
    } else {
        p is SelectX11
    }
}

fn has_text(value: &Option<String>) -> (r: bool)
    ensures
        r == is_set(*value),
{
    match value {
        Some(value) => value.as_str().unicode_len() > 0,
        None => false,
    }
}

/// What is done about the backend, from what the environment says.
pub fn configure_backend(
    linux: bool,
    backend: Option<String>,
    wayland: Option<String>,
    display: Option<String>,
) -> (p: BackendPlan)
    ensures
        planned(p, linux, backend, wayland, display),
{
    match explicit_non_winit_backend(backend) {
        Some(name) => {
            let mut text: String =
                "native file drop is unavailable with explicitly selected Slint backend `".to_owned();
            text.push_str(name.as_str());
            text.push_str("`");
            return BackendPlan::Skip(text);
        },
        None => {},
    }
    if !linux {
        return BackendPlan::Select;
    }
    if has_text(&wayland) {
        return BackendPlan::Skip(
            "native file drop is unavailable on Wayland: winit 0.30 does not implement the Wayland data-device protocol; use your file manager's Copy action instead".to_owned(),
        );
    }
    if !has_text(&display) {
        return BackendPlan::Skip(
            "native file drop requires an X11 or XWayland DISPLAY on Linux".to_owned(),
        );
    }
    BackendPlan::SelectX11
}

/// What came of it.
#[derive(Clone, Debug, PartialEq, Eq)]
pub enum BackendConfiguration {
    Configured,
    Skipped(String),
    Failed(String),
}

/// What came of telling the backend.
pub fn backend_selected(outcome: Result<(), String>) -> (c: BackendConfiguration)
    ensures
        match outcome {
            Ok(_) => c is Configured,
            Err(error) => c matches BackendConfiguration::Failed(text) && text@
                == "failed to select the Slint Winit backend for native file drop: "@ + error@,
        },
{
    match outcome {
        Ok(_) => BackendConfiguration::Configured,
        Err(error) => {
            let mut text: String =
                "failed to select the Slint Winit backend for native file drop: ".to_owned();
            text.push_str(error.as_str());
            BackendConfiguration::Failed(text)
        },
    }
}

/// Whether files can be dropped on a window: `pointer` says that its pointer can be
/// asked for.
pub fn supported(c: &BackendConfiguration, pointer: bool) -> (r: bool)
    ensures
        r == (c is Configured && pointer),
{
    match c {
        BackendConfiguration::Configured => pointer,
        _ => false,
    }
}

/// Why no file can be dropped on a window that the backend does not know.
pub fn unavailable_reason(c: &BackendConfiguration) -> (s: String)
    ensures
        s@ == (match *c {
            BackendConfiguration::Skipped(reason) => reason@,
            BackendConfiguration::Failed(reason) => reason@,
            BackendConfiguration::Configured => "native file drop requires a Slint Winit window"@,
        }),
{
    match c {
        BackendConfiguration::Skipped(reason) => reason.clone(),
        BackendConfiguration::Failed(reason) => reason.clone(),
        BackendConfiguration::Configured => {
            "native file drop requires a Slint Winit window".to_owned()
        },
    }
}

/// A window as Linux knows it.
#[derive(Clone, Debug, PartialEq, Eq)]
pub enum LinuxWindow {
    Xlib(u64),
    Xcb(u32),
    Wayland,
    /// Something else, in words.
    Other(String),
}

/// The window whose pointer is asked for, or why there is none.
pub open spec fn pointer_window_of(w: LinuxWindow) -> Result<u32, Seq<char>> {
    match w {
        LinuxWindow::Xlib(id) => if id <= u32::MAX {
            Ok(id as u32)
        } else {
            Err("X11 window identifier does not fit in 32 bits"@)
        },
        LinuxWindow::Xcb(id) => Ok(id),
        LinuxWindow::Wayland => Err(
            "Dragging files onto the window is not supported on Wayland. Copy the files in your file manager instead, and they will be offered to the selected device."@,
        ),
        LinuxWindow::Other(text) => Err(
            "unsupported Linux window handle for file drop: "@ + text@,
        ),
    }
}

/// The window whose pointer is asked for, or why there is none.
pub fn pointer_window(w: &LinuxWindow) -> (r: Result<u32, String>)
    ensures
        match r {
            Ok(id) => pointer_window_of(*w) == Ok::<u32, Seq<char>>(id),
            Err(text) => pointer_window_of(*w) == Err::<u32, Seq<char>>(text@),
        },
{
    match w {
        LinuxWindow::Xlib(id) => if *id <= u32::MAX as u64 {
            Ok(*id as u32)
        } else {
            Err("X11 window identifier does not fit in 32 bits".to_owned())
        },
        LinuxWindow::Xcb(id) => Ok(*id),
        LinuxWindow::Wayland => Err(
            "Dragging files onto the window is not supported on Wayland. Copy the files in your file manager instead, and they will be offered to the selected device.".to_owned(),
        ),
        LinuxWindow::Other(text) => {
            let mut s: String = "unsupported Linux window handle for file drop: ".to_owned();
            s.push_str(text.as_str());
            Err(s)
        },
    }
}

// ---------------------------------------------------------------------------
// Following a drag
// ---------------------------------------------------------------------------

/// How often the pointer is asked for, in milliseconds.
pub const HOVER_POLL_INTERVAL: u64 = 75;

/// How often at most, before a drag is taken for gone.
pub const MAX_HOVER_POLLS: u16 = 1200;

/// A drag over the window.
#[derive(Clone, Copy, Debug, PartialEq, Eq, Structural)]
pub struct Hover {
    /// Events are delivered.
    pub active: bool,
    pub hovering: bool,
    pub polls_remaining: u16,
}

/// What the system tells of a drag, and the timer that follows it.
#[derive(Clone, Copy, Debug, PartialEq, Eq, Structural)]
pub enum DragEvent {
    Hovered,
    Cancelled,
    Dropped,
    Poll,
    /// Nobody listens any more.
    Released,
}

/// What follows: the timer, and what is told.
#[derive(Clone, Copy, Debug, PartialEq, Eq, Structural)]
pub struct DragEffect {
    pub start_timer: bool,
    pub stop_timer: bool,
    /// The drag is gone.
    pub tell_gone: bool,
    /// Where the pointer is.
    pub tell_position: bool,
    /// What was dropped, and where.
    pub tell_drop: bool,
}

pub open spec fn no_effect() -> DragEffect {
    DragEffect {
        start_timer: false,
        stop_timer: false,
        tell_gone: false,
        tell_position: false,
        tell_drop: false,
    }
}

/// What an event of a drag comes to.
pub open spec fn followed(h: Hover, e: DragEvent) -> (Hover, DragEffect) {
    match e {
        DragEvent::Released => (
            Hover { active: false, hovering: false, ..h },
            DragEffect { stop_timer: true, tell_gone: h.hovering, ..no_effect() },
        ),
        DragEvent::Poll => if !h.active || !h.hovering {
            (h, DragEffect { stop_timer: true, ..no_effect() })
        } else if h.polls_remaining <= 1 {
            (
                Hover { hovering: false, polls_remaining: 0, ..h },
                DragEffect { stop_timer: true, tell_gone: true, ..no_effect() },
            )
        } else {
            (
                Hover { polls_remaining: (h.polls_remaining - 1) as u16, ..h },
                DragEffect { tell_position: true, ..no_effect() },
            )
        },
        _ => if !h.active {
            (h, no_effect())
        } else if e == DragEvent::Hovered {
            (
                Hover { hovering: true, polls_remaining: MAX_HOVER_POLLS, ..h },
                DragEffect { start_timer: !h.hovering, tell_position: true, ..no_effect() },
            )
        } else {
            (
                Hover { hovering: false, polls_remaining: 0, ..h },
                DragEffect {
                    stop_timer: true,
                    tell_gone: h.hovering,
                    tell_drop: e == DragEvent::Dropped,
                    ..no_effect()
                },
            )
        },
    }
}

impl Hover {
    /// Nothing is dragged.
    pub fn new() -> (h: Hover)
        ensures
            h == (Hover { active: true, hovering: false, polls_remaining: 0 }),
    {
        Hover { active: true, hovering: false, polls_remaining: 0 }
    }

    /// Follows a drag.
    pub fn follow(&mut self, e: DragEvent) -> (r: DragEffect)
        ensures
            (*final(self), r) == followed(*old(self), e),
    {
        let mut r: DragEffect = DragEffect {
            start_timer: false,
            stop_timer: false,
            tell_gone: false,
            tell_position: false,
            tell_drop: false,
        };
        match e {
            DragEvent::Released => {
                r.stop_timer = true;
                r.tell_gone = self.hovering;
                self.active = false;
                self.hovering = false;
            },
            DragEvent::Poll => {
                if !self.active || !self.hovering {
                    r.stop_timer = true;
                } else if self.polls_remaining <= 1 {
                    self.polls_remaining = 0;
                    self.hovering = false;
                    r.stop_timer = true;
                    r.tell_gone = true;
                } else {
                    self.polls_remaining = self.polls_remaining - 1;
                    r.tell_position = true;
                }
            },
            DragEvent::Hovered => {
                if self.active {
                    r.start_timer = !self.hovering;
                    r.tell_position = true;
                    self.hovering = true;
                    self.polls_remaining = MAX_HOVER_POLLS;
                }
            },
            DragEvent::Cancelled => {
                if self.active {
                    r.stop_timer = true;
                    r.tell_gone = self.hovering;
                    self.hovering = false;
                    self.polls_remaining = 0;
                }
            },
            DragEvent::Dropped => {
                if self.active {
                    r.stop_timer = true;
                    r.tell_gone = self.hovering;
                    r.tell_drop = true;
                    self.hovering = false;
                    self.polls_remaining = 0;
                }
            },
        }
        r
    }
}

/// A drag after so many asks for the pointer, with nothing else happening.
pub open spec fn polled(h: Hover, times: nat) -> Hover
    decreases times,
{
    if times == 0 {
        h
    } else {
        followed(polled(h, (times - 1) as nat), DragEvent::Poll).0
    }
}

/// A drag that the system says nothing more of is taken for gone after a bounded
/// number of asks.
pub proof fn law_drags_end(h: Hover, times: nat)
    requires
        times >= h.polls_remaining,
        times > 0,
    ensures
        !polled(h, times).hovering || !polled(h, times).active,
    decreases times,
{
    lemma_polled(h, times);
}

proof fn lemma_polled(h: Hover, times: nat)
    ensures
        polled(h, times).active == h.active,
        !h.hovering || !h.active ==> polled(h, times) == h,
        h.hovering && h.active ==> (if times == 0 {
            polled(h, times) == h
        } else if times < h.polls_remaining {
            polled(h, times).hovering && polled(h, times).polls_remaining == h.polls_remaining
                - times
        } else {
            !polled(h, times).hovering
        }),
    decreases times,
{
    if times > 0 {
        lemma_polled(h, (times - 1) as nat);
    }
}

/// Whoever was told of a drag is told once that it is gone: after that there is
/// no drag to be told of.
pub proof fn law_gone_is_told_once(h: Hover, e: DragEvent)
    ensures
        followed(h, e).1.tell_gone ==> h.hovering && !followed(h, e).0.hovering,
        h.hovering && !followed(h, e).0.hovering ==> followed(h, e).1.tell_gone,
{
}

/// While files are held over the window, where they are is told, at first and at each
/// poll; once they are dropped, that is told and the drag is over.
pub proof fn law_drags_are_followed(h: Hover)
    requires
        h.active,
    ensures
        ({
            let (after, told) = followed(h, DragEvent::Hovered);
            &&& after.hovering && after.active && told.tell_position && !told.tell_gone
            &&& after.polls_remaining == 1200
            &&& told.start_timer == !h.hovering
        }),
        ({
            let (after, told) = followed(h, DragEvent::Dropped);
            &&& !after.hovering && told.tell_drop && told.stop_timer
            &&& told.tell_gone == h.hovering
        }),
        ({
            let (after, told) = followed(h, DragEvent::Cancelled);
            &&& !after.hovering && !told.tell_drop && told.stop_timer
            &&& told.tell_gone == h.hovering
        }),
        h.hovering && h.polls_remaining > 1 ==> {
            let (after, told) = followed(h, DragEvent::Poll);
            &&& after.hovering && told.tell_position && !told.stop_timer
            &&& after.polls_remaining == h.polls_remaining - 1
        },
        ({
            let (after, told) = followed(h, DragEvent::Released);
            &&& !after.active && !after.hovering && told.stop_timer
        }),
{
}

/// Where nobody listens, nothing is told.
pub proof fn law_nobody_is_told_when_nobody_listens(h: Hover, e: DragEvent)
    requires
        !h.active,
    ensures
        !followed(h, e).1.tell_drop,
        !followed(h, e).1.tell_position,
        !followed(h, e).0.active,
{
}

/// Files can be dropped where the windows are those of X11, or elsewhere than on Linux,
/// unless a backend was asked for that takes none.
pub proof fn law_where_files_can_be_dropped(
    p: BackendPlan,
    linux: bool,
    backend: Option<String>,
    wayland: Option<String>,
    display: Option<String>,
)
    requires
        planned(p, linux, backend, wayland, display),
        backend is None,
    ensures
        !linux ==> p is Select,
        linux && (wayland matches Some(w) && w@.len() > 0) ==> p is Skip,
        linux && (wayland is None) && (display matches Some(d) && d@.len() > 0) ==> p is SelectX11,
        linux && wayland is None && display is None ==> p is Skip,
{
}

} // verus!
