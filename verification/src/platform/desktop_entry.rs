//! The freedesktop application entry.
//!
//! Without a `.desktop` file the dashboard has no launcher entry, no icon in the
//! task switcher and no application name: the compositor matches a window to an
//! entry by application id, so a running window is otherwise shown as an
//! anonymous client.
use vstd::prelude::*;

verus! {

/// Why installing or removing the application entry failed.
#[derive(Clone, Debug, PartialEq, Eq)]
pub enum DesktopEntryError {
    /// No per-user data directory could be determined.
    DirectoryNotFound,
    /// The running executable could not be located.
    ExecutableNotFound(String),
    /// Writing or removing the entry failed.
    Io(String),
}

pub open spec fn entry_error_text(e: DesktopEntryError) -> Seq<char> {
    match e {
        DesktopEntryError::DirectoryNotFound => {
            "could not determine the per-user application directory"@
        },
        DesktopEntryError::ExecutableNotFound(s) => {
            "could not determine the path of the running application: "@ + s@
        },
        DesktopEntryError::Io(s) => "could not update the application entry: "@ + s@,
    }
}

impl DesktopEntryError {
    /// What is said of the error.
    pub fn to_text(&self) -> (r: String)
        ensures
            r@ == entry_error_text(*self),
    {
        match self {
            DesktopEntryError::DirectoryNotFound => {
                "could not determine the per-user application directory".to_owned()
            },
            DesktopEntryError::ExecutableNotFound(s) => {
                let mut r: String =
                    "could not determine the path of the running application: ".to_owned();
                r.push_str(s.as_str());
                r
            },
            DesktopEntryError::Io(s) => {
                let mut r: String = "could not update the application entry: ".to_owned();
                r.push_str(s.as_str());
                r
            },
        }
    }
}

/// Whether the entry is present, and where it would be written.
#[derive(Clone, Debug, PartialEq, Eq)]
pub struct DesktopEntryStatus {
    /// True when an entry written by this application exists.
    pub installed: bool,
    /// Absolute path of the entry, whether or not it exists.
    pub path: String,
}

/// The name of the entry's file.
pub fn entry_file_name(application_id: &str) -> (s: String)
    ensures
        s@ == application_id@ + ".desktop"@,
{
    let mut s: String = application_id.to_owned();
    s.push_str(".desktop");
    s
}

/// The entry that starts a program. The window class must be the application id
/// that the window sets, or the compositor cannot tell which entry a running
/// window belongs to.
pub open spec fn entry_text(executable: Seq<char>, application_id: Seq<char>) -> Seq<char> {
    "[Desktop Entry]\nType=Application\nName=Syntra\nGenericName=Input and clipboard sharing\nComment=Share mouse, keyboard, clipboard and files across your devices\n"@
        + ("Exec="@ + executable + " %U"@) + "\n"@ + ("Icon="@ + application_id)
        + "\nTerminal=false\nCategories=Utility;RemoteAccess;Network;\nKeywords=kvm;mouse;keyboard;clipboard;sharing;\nStartupNotify=true\n"@
        + ("StartupWMClass="@ + application_id)
        + "\nSingleMainWindow=true\nX-GNOME-UsesNotifications=true\n"@
}

/// The entry that starts a program.
pub fn entry_contents(executable: &str, application_id: &str) -> (s: String)
    ensures
        s@ == entry_text(executable@, application_id@),
{
    let mut s: String =
        "[Desktop Entry]\nType=Application\nName=Syntra\nGenericName=Input and clipboard sharing\nComment=Share mouse, keyboard, clipboard and files across your devices\n".to_owned();
    s.push_str("Exec=");
    s.push_str(executable);
    s.push_str(" %U");
    s.push_str("\n");
    s.push_str("Icon=");
    s.push_str(application_id);
    s.push_str(
        "\nTerminal=false\nCategories=Utility;RemoteAccess;Network;\nKeywords=kvm;mouse;keyboard;clipboard;sharing;\nStartupNotify=true\n",
    );
    s.push_str("StartupWMClass=");
    s.push_str(application_id);
    s.push_str("\nSingleMainWindow=true\nX-GNOME-UsesNotifications=true\n");
    assert(s@ =~= entry_text(executable@, application_id@));
    s
}

/// The entry names the program that it starts, and its window class and its icon
/// are the application id.
pub proof fn law_entry_names_program_and_window(executable: Seq<char>, application_id: Seq<char>)
    ensures
        crate::text::holds(
            entry_text(executable, application_id),
            "Exec="@ + executable + " %U"@,
        ),
        crate::text::holds(entry_text(executable, application_id), "Icon="@ + application_id),
        crate::text::holds(
            entry_text(executable, application_id),
            "StartupWMClass="@ + application_id,
        ),
{
    let s = entry_text(executable, application_id);
    let a =
        "[Desktop Entry]\nType=Application\nName=Syntra\nGenericName=Input and clipboard sharing\nComment=Share mouse, keyboard, clipboard and files across your devices\n"@;
    let exec = "Exec="@ + executable + " %U"@;
    let icon = "Icon="@ + application_id;
    let b =
        "\nTerminal=false\nCategories=Utility;RemoteAccess;Network;\nKeywords=kvm;mouse;keyboard;clipboard;sharing;\nStartupNotify=true\n"@;
    let class = "StartupWMClass="@ + application_id;
    let c = "\nSingleMainWindow=true\nX-GNOME-UsesNotifications=true\n"@;
    let n = "\n"@;
    lemma_middle(a, exec, n + icon + b + class + c);
    assert(a + exec + (n + icon + b + class + c) =~= s);
    lemma_middle(a + exec + n, icon, b + class + c);
    assert(a + exec + n + icon + (b + class + c) =~= s);
    lemma_middle(a + exec + n + icon + b, class, c);
    assert(a + exec + n + icon + b + class + c =~= s);
}

proof fn lemma_middle(front: Seq<char>, part: Seq<char>, back: Seq<char>)
    ensures
        crate::text::holds(front + part + back, part),
{
    let s = front + part + back;
    let i = front.len() as int;
    assert(s.subrange(i, i + part.len()) =~= part);
    assert(crate::text::part_at(s, part, i));
}

} // verus!
