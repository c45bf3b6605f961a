//! What the dashboard asks of the system that it runs on: a tray, the background
//! service, the installation of its programs.
use crate::text::contains;
use crate::text::debug_of;
use crate::text::debug_text;
use crate::text::holds;
use crate::text::lowercase;
use crate::text::to_lowercase;
use crate::text::trim;
use crate::text::trim_text;
use vstd::prelude::*;

pub mod daemon;
pub mod desktop_entry;
pub mod flatpak;
pub mod install;
pub mod promises;
pub mod release;
pub mod service;
pub mod service_card;
pub mod service_steps;
pub mod tray;

verus! {

#[derive(Clone, Copy, Debug, PartialEq, Eq, Structural)]
pub enum CloseBehavior {
    Hide,
    Exit,
}

#[derive(Clone, Copy, Debug, PartialEq, Eq, Structural)]
pub struct PlatformCapabilities {
    pub tray: bool,
    pub close_behavior: CloseBehavior,
    pub flatpak_permissions: bool,
}

#[derive(Clone, Debug, PartialEq, Eq)]
pub struct FlatpakApplication {
    pub application_id: String,
    pub name: String,
}

#[derive(Clone, Debug, PartialEq, Eq)]
pub enum PlatformAction {
    Show,
    Quit,
    RequestPermissions,
    OpenPermissionSettings,
    RelaunchAfterPermissionGrant,
    GrantFlatpakFilesystemAccess { application_id: String },
    NotifyRunningInBackground,
}

#[derive(Clone, Debug, PartialEq, Eq)]
pub enum PlatformError {
    UnsupportedAction(String),
    Tray(String),
    Permission(String),
    Flatpak(String),
}

pub open spec fn platform_error_text(e: PlatformError) -> Seq<char> {
    match e {
        PlatformError::UnsupportedAction(s) => "UnsupportedAction("@ + debug_text(s@) + ")"@,
        PlatformError::Tray(s) => "Tray("@ + debug_text(s@) + ")"@,
        PlatformError::Permission(s) => "Permission("@ + debug_text(s@) + ")"@,
        PlatformError::Flatpak(s) => "Flatpak("@ + debug_text(s@) + ")"@,
    }
}

impl PlatformError {
    /// What is said of the error.
    pub fn to_text(&self) -> (r: String)
        ensures
            r@ == platform_error_text(*self),
    {
        let (name, s) = match self {
            PlatformError::UnsupportedAction(s) => ("UnsupportedAction(", s),
            PlatformError::Tray(s) => ("Tray(", s),
            PlatformError::Permission(s) => ("Permission(", s),
            PlatformError::Flatpak(s) => ("Flatpak(", s),
        };
        let mut r: String = name.to_owned();
        r.push_str(debug_of(s.as_str()).as_str());
        r.push_str(")");
        r
    }
}

/// What a system does for an action.
#[derive(Clone, Copy, Debug, PartialEq, Eq, Structural)]
pub enum Effect {
    Nothing,
    /// The callback that shows the window.
    Show,
    /// The callback that quits.
    Quit,
    /// A notice that the dashboard goes on in the background.
    Notify,
    /// The questions that the system asks the user.
    Prompt,
    /// The page of the system's settings.
    OpenSettings,
    /// The application once more.
    Relaunch,
}

pub open spec fn windows_effect(a: PlatformAction) -> Result<Effect, Seq<char>> {
    match a {
        PlatformAction::Show => Ok(Effect::Show),
        PlatformAction::Quit => Ok(Effect::Quit),
        PlatformAction::NotifyRunningInBackground => Ok(Effect::Notify),
        PlatformAction::RequestPermissions
        | PlatformAction::OpenPermissionSettings
        | PlatformAction::RelaunchAfterPermissionGrant => Ok(Effect::Nothing),
        PlatformAction::GrantFlatpakFilesystemAccess { .. } => Err(
            "Flatpak permissions are Linux-only"@,
        ),
    }
}

pub open spec fn macos_effect(a: PlatformAction) -> Result<Effect, Seq<char>> {
    match a {
        PlatformAction::Show => Ok(Effect::Show),
        PlatformAction::Quit => Ok(Effect::Quit),
        PlatformAction::NotifyRunningInBackground => Ok(Effect::Nothing),
        PlatformAction::RequestPermissions => Ok(Effect::Prompt),
        PlatformAction::OpenPermissionSettings => Ok(Effect::OpenSettings),
        PlatformAction::RelaunchAfterPermissionGrant => Ok(Effect::Relaunch),
        PlatformAction::GrantFlatpakFilesystemAccess { .. } => Err(
            "Flatpak permissions are Linux-only"@,
        ),
    }
}

/// A result and what it should be.
pub open spec fn performs(r: Result<Effect, PlatformError>, e: Result<Effect, Seq<char>>) -> bool {
    match (r, e) {
        (Ok(effect), Ok(expected)) => effect == expected,
        (Err(error), Err(text)) => error matches PlatformError::UnsupportedAction(s) && s@ == text,
        _ => false,
    }
}

/// What a tray calls back.
#[derive(Clone)]
pub struct PlatformCallbacks<S, Q> {
    show_callback: S,
    quit_callback: Q,
}

impl<S: Fn(), Q: Fn()> PlatformCallbacks<S, Q> {
    /// What shows the window.
    pub closed spec fn shows(&self) -> S {
        self.show_callback
    }

    /// What quits.
    pub closed spec fn quits(&self) -> Q {
        self.quit_callback
    }

    pub fn new(show: S, quit: Q) -> (c: PlatformCallbacks<S, Q>)
        ensures
            c.shows() == show,
            c.quits() == quit,
    {
        PlatformCallbacks { show_callback: show, quit_callback: quit }
    }

    /// Calls what shows the window.
    pub fn show(&self)
        requires
            self.shows().requires(()),
        ensures
            self.shows().ensures((), ()),
    {
        (self.show_callback)()
    }

    /// Calls what quits.
    pub fn quit(&self)
        requires
            self.quits().requires(()),
        ensures
            self.quits().ensures((), ()),
    {
        (self.quit_callback)()
    }
}

/// What the dashboard asks of the system that it runs on.
pub trait PlatformActions {
    /// What the system can do.
    spec fn abilities(&self) -> PlatformCapabilities;

    /// What the system does for an action, or why it does not.
    spec fn effect(&self, a: PlatformAction) -> Result<Effect, Seq<char>>;

    /// What the system can do.
    fn capabilities(&self) -> (c: PlatformCapabilities)
        ensures
            c == self.abilities(),
    ;

    /// The applications that can be granted access to files; a system that grants
    /// none lists none.
    fn installed_flatpak_applications(&self) -> (r: Result<Vec<FlatpakApplication>, PlatformError>)
        ensures
            !self.abilities().flatpak_permissions ==> (r matches Err(error)
                && error matches PlatformError::UnsupportedAction(text) && text@
                == "Flatpak application discovery is Linux-only"@),
    {
        Err(
            PlatformError::UnsupportedAction(
                "Flatpak application discovery is Linux-only".to_owned(),
            ),
        )
    }

    /// What the system does for an action.
    fn perform(&self, action: &PlatformAction) -> (r: Result<Effect, PlatformError>)
        ensures
            performs(r, self.effect(*action)),
    ;
}

/// A tray into which the window closes, and no permissions to grant.
pub open spec fn tray_only() -> PlatformCapabilities {
    PlatformCapabilities {
        tray: true,
        close_behavior: CloseBehavior::Hide,
        flatpak_permissions: false,
    }
}

/// Windows.
#[derive(Clone, Copy, Debug, PartialEq, Eq, Structural)]
pub struct WindowsPlatform;

impl WindowsPlatform {
    /// The system.
    pub fn new() -> (p: WindowsPlatform)
        ensures
            p == WindowsPlatform,
    {
        WindowsPlatform
    }
}

impl PlatformActions for WindowsPlatform {
    open spec fn abilities(&self) -> PlatformCapabilities {
        tray_only()
    }

    open spec fn effect(&self, a: PlatformAction) -> Result<Effect, Seq<char>> {
        windows_effect(a)
    }

    fn capabilities(&self) -> (c: PlatformCapabilities) {
        PlatformCapabilities {
            tray: true,
            close_behavior: CloseBehavior::Hide,
            flatpak_permissions: false,
        }
    }

    fn perform(&self, action: &PlatformAction) -> (r: Result<Effect, PlatformError>) {
        match action {
            PlatformAction::Show => Ok(Effect::Show),
            PlatformAction::Quit => Ok(Effect::Quit),
            PlatformAction::NotifyRunningInBackground => Ok(Effect::Notify),
            PlatformAction::RequestPermissions
            | PlatformAction::OpenPermissionSettings
            | PlatformAction::RelaunchAfterPermissionGrant => Ok(Effect::Nothing),
            PlatformAction::GrantFlatpakFilesystemAccess { .. } => Err(
                PlatformError::UnsupportedAction("Flatpak permissions are Linux-only".to_owned()),
            ),
        }
    }
}

/// macOS.
#[derive(Clone, Copy, Debug, PartialEq, Eq, Structural)]
pub struct MacPlatform;

impl MacPlatform {
    /// The system.
    pub fn new() -> (p: MacPlatform)
        ensures
            p == MacPlatform,
    {
        MacPlatform
    }
}

impl PlatformActions for MacPlatform {
    open spec fn abilities(&self) -> PlatformCapabilities {
        tray_only()
    }

    open spec fn effect(&self, a: PlatformAction) -> Result<Effect, Seq<char>> {
        macos_effect(a)
    }

    fn capabilities(&self) -> (c: PlatformCapabilities) {
        PlatformCapabilities {
            tray: true,
            close_behavior: CloseBehavior::Hide,
            flatpak_permissions: false,
        }
    }

    fn perform(&self, action: &PlatformAction) -> (r: Result<Effect, PlatformError>) {
        match action {
            PlatformAction::Show => Ok(Effect::Show),
            PlatformAction::Quit => Ok(Effect::Quit),
            PlatformAction::NotifyRunningInBackground => Ok(Effect::Nothing),
            PlatformAction::RequestPermissions => Ok(Effect::Prompt),
            PlatformAction::OpenPermissionSettings => Ok(Effect::OpenSettings),
            PlatformAction::RelaunchAfterPermissionGrant => Ok(Effect::Relaunch),
            PlatformAction::GrantFlatpakFilesystemAccess { .. } => Err(
                PlatformError::UnsupportedAction("Flatpak permissions are Linux-only".to_owned()),
            ),
        }
    }
}

// ---------------------------------------------------------------------------
// Closing the window
// ---------------------------------------------------------------------------

/// What closing the window does.
#[derive(Clone, Copy, Debug, PartialEq, Eq, Structural)]
pub enum Close {
    /// The window goes; the user is told that the dashboard does not.
    HideAndNotify,
    Quit,
}

/// What closing the window does: it hides only where there is a way back.
pub fn close_requested(behavior: Option<CloseBehavior>, tray_started: bool) -> (c: Close)
    ensures
        c == (if behavior == Some(CloseBehavior::Hide) && tray_started {
            Close::HideAndNotify
        } else {
            Close::Quit
        }),
{
    match behavior {
        Some(CloseBehavior::Hide) => if tray_started {
            Close::HideAndNotify
        } else {
            Close::Quit
        },
        _ => Close::Quit,
    }
}

/// What is said where no tray could be started.
pub fn tray_unavailable(error: &PlatformError) -> (s: String)
    ensures
        s@ == "System tray unavailable: "@ + platform_error_text(*error),
{
    let mut s: String = "System tray unavailable: ".to_owned();
    s.push_str(error.to_text().as_str());
    s
}

// ---------------------------------------------------------------------------
// Flatpak
// ---------------------------------------------------------------------------

/// An application that a search finds, by its name or its identifier.
pub open spec fn found(a: FlatpakApplication, query: Seq<char>) -> bool {
    trim(query).len() == 0 || holds(lowercase(a.name@), lowercase(trim(query))) || holds(
        lowercase(a.application_id@),
        lowercase(trim(query)),
    )
}

/// The applications that a search finds, in their order.
pub open spec fn found_among(all: Seq<FlatpakApplication>, query: Seq<char>) -> Seq<
    FlatpakApplication,
>
    decreases all.len(),
{
    if all.len() == 0 {
        Seq::empty()
    } else if found(all.last(), query) {
        found_among(all.drop_last(), query).push(all.last())
    } else {
        found_among(all.drop_last(), query)
    }
}

/// The applications that a search finds.
pub fn filter_flatpak_applications(all: &Vec<FlatpakApplication>, query: &str) -> (r: Vec<
    FlatpakApplication,
>)
    ensures
        r@ == found_among(all@, query@),
{
    let trimmed: String = trim_text(query);
    let everything: bool = trimmed.as_str().unicode_len() == 0;
    let wanted: String = to_lowercase(trimmed.as_str());
    let mut r: Vec<FlatpakApplication> = Vec::new();
    let mut i: usize = 0;
    assert(all@.take(0) =~= Seq::<FlatpakApplication>::empty());
    while i < all.len()
        invariant
            i <= all@.len(),
            wanted@ == lowercase(trim(query@)),
            everything == (trim(query@).len() == 0),
            r@ == found_among(all@.take(i as int), query@),
        decreases all@.len() - i,
    {
        assert(all@.take(i + 1).drop_last() =~= all@.take(i as int));
        if everything || contains(
            to_lowercase(all[i].name.as_str()).as_str(),
            wanted.as_str(),
        ) || contains(
            to_lowercase(all[i].application_id.as_str()).as_str(),
            wanted.as_str(),
        ) {
            r.push(
                FlatpakApplication {
                    application_id: all[i].application_id.clone(),
                    name: all[i].name.clone(),
                },
            );
        }
        i = i + 1;
    }
    assert(all@.take(i as int) =~= all@);
    r
}

/// What the wish to grant an application access to files comes to.
pub fn grant_flatpak_access(available: bool, application_id: String) -> (r: Result<
    PlatformAction,
    String,
>)
    ensures
        match r {
            Ok(action) => available && application_id@.len() > 0 && action
                == PlatformAction::GrantFlatpakFilesystemAccess { application_id },
            Err(text) => if !available {
                text@ == "This action is unavailable on this platform"@
            } else {
                application_id@.len() == 0 && text@ == "Select a Flatpak application first"@
            },
        },
{
    if !available {
        return Err("This action is unavailable on this platform".to_owned());
    }
    if application_id.as_str().unicode_len() == 0 {
        return Err("Select a Flatpak application first".to_owned());
    }
    Ok(PlatformAction::GrantFlatpakFilesystemAccess { application_id })
}

// ---------------------------------------------------------------------------
// Wide characters
// ---------------------------------------------------------------------------

/// The code units of a character: one, or two for a character beyond the first
/// plane.
pub open spec fn wide_char(c: char) -> Seq<u16> {
    let u = c as u32;
    if u < 0x1_0000 {
        seq![u as u16]
    } else {
        seq![(0xd800 + (u - 0x1_0000) / 0x400) as u16, (0xdc00 + (u - 0x1_0000) % 0x400) as u16]
    }
}

/// The code units of a text.
pub open spec fn wide(s: Seq<char>) -> Seq<u16>
    decreases s.len(),
{
    if s.len() == 0 {
        Seq::empty()
    } else {
        wide(s.drop_last()) + wide_char(s.last())
    }
}

fn push_wide(units: &mut Vec<u16>, c: char)
    ensures
        final(units)@ == old(units)@ + wide_char(c),
{
    let ghost before = units@;
    let u: u32 = c as u32;
    if u < 0x1_0000 {
        units.push(u as u16);
    } else {
        proof {
            vstd::utf8::char_is_scalar(c);
        }
        let rest: u32 = u - 0x1_0000;
        units.push((0xd800 + rest / 0x400) as u16);
        units.push((0xdc00 + rest % 0x400) as u16);
    }
    assert(units@ =~= before + wide_char(c));
}

/// Fills the front of a field of wide characters with a text. The last unit of
/// the field stays, so that a text that is too long still ends there.
pub fn copy_wide(target: &mut Vec<u16>, value: &str)
    ensures
        final(target)@.len() == old(target)@.len(),
        forall|i: int|
            0 <= i < old(target)@.len() ==> #[trigger] final(target)@[i] == (if i < old(
                target,
            )@.len() - 1 && i < wide(value@).len() {
                wide(value@)[i]
            } else {
                old(target)@[i]
            }),
{
    let v: Vec<char> = crate::text::chars_of(value);
    let mut units: Vec<u16> = Vec::new();
    let mut i: usize = 0;
    assert(v@.take(0) =~= Seq::<char>::empty());
    while i < v.len()
        invariant
            i <= v@.len(),
            units@ == wide(v@.take(i as int)),
        decreases v@.len() - i,
    {
        assert(v@.take(i + 1).drop_last() =~= v@.take(i as int));
        push_wide(&mut units, v[i]);
        i = i + 1;
    }
    assert(v@.take(i as int) =~= v@);
    let ghost before = target@;
    let mut k: usize = 0;
    while k < units.len() && k + 1 < target.len()
        invariant
            units@ == wide(value@),
            target@.len() == before.len(),
            k <= units@.len(),
            k == 0 || k < target@.len(),
            forall|j: int|
                0 <= j < before.len() ==> #[trigger] target@[j] == (if j < k {
                    units@[j]
                } else {
                    before[j]
                }),
        decreases units@.len() - k,
    {
        target.set(k, units[k]);
        k = k + 1;
    }
}

} // verus!
