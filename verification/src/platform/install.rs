//! Copying the Syntra binaries into a stable location.
//!
//! Installing a service or a launcher entry that points at wherever the
//! application happens to be running is wrong: a build tree, a download
//! directory or a mounted image can move or disappear, leaving a unit that
//! silently fails at every login. Installation therefore copies the binaries to
//! a durable directory first, and the unit and the desktop entry are written
//! against the copies.
use crate::history::chars;
use crate::paths::path_model;
use crate::paths::same_path;
use crate::text::trim;
use crate::text::trim_text;
use crate::ui::settings::join_path;
use crate::ui::settings::joined;
use crate::ui::settings::separator_of;
use crate::ui::settings::Host;
use vstd::prelude::*;

verus! {

/// Overrides the directory binaries are installed into.
pub const ENV_INSTALL_DIR: &'static str = "SYNTRA_INSTALL_DIR";

/// Why installing the binaries failed.
#[derive(Clone, Debug, PartialEq, Eq)]
#[allow(inconsistent_fields)]
pub enum InstallError {
    /// No per-user executable directory could be determined.
    DirectoryNotFound,
    /// The running executable could not be located.
    ExecutableNotFound(String),
    /// A binary that must be installed was not found beside the running one.
    MissingBinary(String),
    /// Copying failed.
    Copy {
        /// Destination that could not be written.
        path: String,
        /// Underlying error.
        source: String,
    },
}

pub open spec fn install_error_text(e: InstallError) -> Seq<char> {
    match e {
        InstallError::DirectoryNotFound => {
            "could not determine an installation directory; set SYNTRA_INSTALL_DIR"@
        },
        InstallError::ExecutableNotFound(s) => {
            "could not determine the path of the running application: "@ + s@
        },
        InstallError::MissingBinary(s) => s@
            + " was not found next to the running application; install both binaries together"@,
        InstallError::Copy { path, source } => "could not install "@ + path@ + ": "@ + source@,
    }
}

impl InstallError {
    /// What is said of the error.
    pub fn to_text(&self) -> (r: String)
        ensures
            r@ == install_error_text(*self),
    {
        match self {
            InstallError::DirectoryNotFound => {
                "could not determine an installation directory; set SYNTRA_INSTALL_DIR".to_owned()
            },
            InstallError::ExecutableNotFound(s) => {
                let mut r: String =
                    "could not determine the path of the running application: ".to_owned();
                r.push_str(s.as_str());
                r
            },
            InstallError::MissingBinary(s) => {
                let mut r: String = s.clone();
                r.push_str(
                    " was not found next to the running application; install both binaries together",
                );
                r
            },
            InstallError::Copy { path, source } => {
                let mut r: String = "could not install ".to_owned();
                r.push_str(path.as_str());
                r.push_str(": ");
                r.push_str(source.as_str());
                r
            },
        }
    }
}

// ---------------------------------------------------------------------------
// Names
// ---------------------------------------------------------------------------

pub open spec fn application_name(host: Host) -> Seq<char> {
    if host is Windows {
        "syntra.exe"@
    } else {
        "syntra"@
    }
}

pub open spec fn daemon_name(host: Host) -> Seq<char> {
    if host is Windows {
        "syntra-daemon.exe"@
    } else {
        "syntra-daemon"@
    }
}

pub open spec fn clipboard_plugin_name(host: Host) -> Seq<char> {
    if host is Windows {
        "syntra-plugin-clipboard.exe"@
    } else {
        "syntra-plugin-clipboard"@
    }
}

pub open spec fn fuse_plugin_name(host: Host) -> Seq<char> {
    if host is Windows {
        "syntra-plugin-fuse.exe"@
    } else {
        "syntra-plugin-fuse"@
    }
}

/// Executable name of the dashboard.
pub fn application_executable(host: Host) -> (s: &'static str)
    ensures
        s@ == application_name(host),
{
    match host {
        Host::Windows => "syntra.exe",
        _ => "syntra",
    }
}

/// Executable name of the background service.
pub fn daemon_executable(host: Host) -> (s: &'static str)
    ensures
        s@ == daemon_name(host),
{
    match host {
        Host::Windows => "syntra-daemon.exe",
        _ => "syntra-daemon",
    }
}

/// Bundled plugin executables, installed alongside the main binaries.
///
/// A plugin left behind is a capability that silently disappears after
/// installation, which is harder to diagnose than one that was never there.
pub fn plugin_executables(host: Host) -> (r: (&'static str, &'static str))
    ensures
        r.0@ == clipboard_plugin_name(host),
        r.1@ == fuse_plugin_name(host),
{
    match host {
        Host::Windows => ("syntra-plugin-clipboard.exe", "syntra-plugin-fuse.exe"),
        _ => ("syntra-plugin-clipboard", "syntra-plugin-fuse"),
    }
}

// ---------------------------------------------------------------------------
// Where to
// ---------------------------------------------------------------------------

/// The directory that the user chose in the interface, from the file that
/// records it: what it says, unless that is blank.
pub open spec fn chosen_of(recorded: Option<Seq<char>>) -> Option<Seq<char>> {
    match recorded {
        Some(text) => if trim(text).len() > 0 {
            Some(trim(text))
        } else {
            None
        },
        None => None,
    }
}

/// The directory that the user chose in the interface, from the file that
/// records it.
pub fn configured_directory(recorded: Option<&str>) -> (r: Option<String>)
    ensures
        chars(r) == chosen_of(
            match recorded {
                Some(text) => Some(text@),
                None => None,
            },
        ),
{
    match recorded {
        Some(text) => {
            let trimmed: String = trim_text(text);
            if trimmed.as_str().unicode_len() > 0 {
                Some(trimmed)
            } else {
                None
            }
        },
        None => None,
    }
}

/// The platform's own directory for programs, else the one below the user's own.
pub open spec fn default_of(
    host: Host,
    executables: Option<Seq<char>>,
    home: Option<Seq<char>>,
) -> Option<Seq<char>> {
    match executables {
        Some(_) => executables,
        None => match home {
            Some(home) => Some(
                joined(joined(home, ".local"@, separator_of(host)), "bin"@, separator_of(host)),
            ),
            None => None,
        },
    }
}

fn separator(host: Host) -> (c: char)
    ensures
        c == separator_of(host),
{
    match host {
        Host::Windows => '\\',
        _ => '/',
    }
}

/// The platform default, ignoring any override.
///
/// Shown in the interface so a user can see what they are departing from.
pub fn default_directory(host: Host, executables: Option<String>, home: Option<String>) -> (r:
    Result<String, InstallError>)
    ensures
        match r {
            Ok(directory) => default_of(host, chars(executables), chars(home)) == Some(directory@),
            Err(error) => default_of(host, chars(executables), chars(home)) is None && error
                is DirectoryNotFound,
        },
{
    match executables {
        Some(directory) => Ok(directory),
        None => match home {
            Some(home) => Ok(
                join_path(join_path(home, ".local", separator(host)), "bin", separator(host)),
            ),
            None => Err(InstallError::DirectoryNotFound),
        },
    }
}

/// Where binaries are installed.
///
/// Resolution order: a directory the user chose in the interface, then the one
/// that the environment names, then the default.
pub fn install_directory(
    chosen: Option<String>,
    environment: Option<String>,
    default: Result<String, InstallError>,
) -> (r: Result<String, InstallError>)
    ensures
        r == (match chosen {
            Some(directory) => Ok(directory),
            None => match environment {
                Some(directory) => Ok(directory),
                None => default,
            },
        }),
{
    match chosen {
        Some(directory) => Ok(directory),
        None => match environment {
            Some(directory) => Ok(directory),
            None => default,
        },
    }
}

/// Paths of the installed binaries.
#[derive(Clone, Debug, PartialEq, Eq)]
pub struct InstalledBinaries {
    /// Installed dashboard.
    pub application: String,
    /// Installed background service.
    pub daemon: String,
}

/// Where the binaries are in a directory. Both lie side by side, so that the
/// dashboard finds the daemon beside itself.
pub fn status(host: Host, directory: &str) -> (b: InstalledBinaries)
    ensures
        b.application@ == joined(directory@, application_name(host), separator_of(host)),
        b.daemon@ == joined(directory@, daemon_name(host), separator_of(host)),
{
    InstalledBinaries {
        application: join_path(
            directory.to_owned(),
            application_executable(host),
            separator(host),
        ),
        daemon: join_path(directory.to_owned(), daemon_executable(host), separator(host)),
    }
}

/// Reports whether the running executable already is the installed one: its
/// directory is the one for installed binaries, however either is written.
pub fn running_from_install_directory(
    host: Host,
    running: Option<&str>,
    target: Option<&str>,
) -> (r: bool)
    ensures
        r == (running is Some && target is Some && path_model(host, running->Some_0@)
            == path_model(host, target->Some_0@)),
{
    match (running, target) {
        (Some(running), Some(target)) => same_path(host, running, target),
        _ => false,
    }
}

// ---------------------------------------------------------------------------
// What is copied
// ---------------------------------------------------------------------------

/// A file that is copied; `executable` says that it must be runnable then.
#[derive(Clone, Debug, PartialEq, Eq)]
pub struct CopyStep {
    pub name: String,
    pub executable: bool,
}

/// Which of the files lie beside the running application.
#[derive(Clone, Copy, Debug, PartialEq, Eq, Structural)]
pub struct Present {
    pub application: bool,
    pub daemon: bool,
    pub clipboard_plugin: bool,
    pub clipboard_manifest: bool,
    pub fuse_plugin: bool,
    pub fuse_manifest: bool,
}

/// The files that are copied, by name and whether they are runnable, and the
/// binary that stops the installation because it is missing.
pub open spec fn copies_of(host: Host, p: Present) -> (Seq<(Seq<char>, bool)>, Option<Seq<char>>) {
    let none = Seq::<(Seq<char>, bool)>::empty();
    if !p.application {
        (none, Some(application_name(host)))
    } else if !p.daemon {
        (none.push((application_name(host), true)), Some(daemon_name(host)))
    } else {
        (
            none.push((application_name(host), true)).push((daemon_name(host), true))
                + plugin_copies(clipboard_plugin_name(host), p.clipboard_plugin, p.clipboard_manifest)
                + plugin_copies(fuse_plugin_name(host), p.fuse_plugin, p.fuse_manifest),
            None,
        )
    }
}

/// A plugin is copied where it is there, and its manifest with it: the daemon
/// discovers plugins by their manifests. A missing plugin is not fatal.
pub open spec fn plugin_copies(name: Seq<char>, plugin: bool, manifest: bool) -> Seq<
    (Seq<char>, bool),
> {
    let none = Seq::<(Seq<char>, bool)>::empty();
    if !plugin {
        none
    } else if !manifest {
        none.push((name, true))
    } else {
        none.push((name, true)).push((name + ".json"@, false))
    }
}

pub open spec fn steps_of(steps: Seq<CopyStep>) -> Seq<(Seq<char>, bool)> {
    Seq::new(steps.len(), |i: int| (steps[i].name@, steps[i].executable))
}

fn add_step(steps: &mut Vec<CopyStep>, name: String, executable: bool)
    ensures
        steps_of(final(steps)@) == steps_of(old(steps)@).push((name@, executable)),
{
    let ghost before = steps_of(steps@);
    steps.push(CopyStep { name, executable });
    assert(steps_of(steps@) =~= before.push((name@, executable)));
}

fn add_plugin(steps: &mut Vec<CopyStep>, name: &str, plugin: bool, manifest: bool)
    ensures
        steps_of(final(steps)@) == steps_of(old(steps)@) + plugin_copies(name@, plugin, manifest),
{
    let ghost before = steps_of(steps@);
    if plugin {
        add_step(steps, name.to_owned(), true);
        if manifest {
            let mut file: String = name.to_owned();
            file.push_str(".json");
            add_step(steps, file, false);
        }
    }
    assert(steps_of(steps@) =~= before + plugin_copies(name@, plugin, manifest));
}

/// The files that are copied, in this order, and what stops the installation
/// after that.
pub fn plan_copies(host: Host, present: Present) -> (r: (Vec<CopyStep>, Option<InstallError>))
    ensures
        steps_of(r.0@) == copies_of(host, present).0,
        match r.1 {
            Some(error) => error matches InstallError::MissingBinary(name) && copies_of(
                host,
                present,
            ).1 == Some(name@),
            None => copies_of(host, present).1 is None,
        },
{
    let mut steps: Vec<CopyStep> = Vec::new();
    assert(steps_of(steps@) =~= Seq::<(Seq<char>, bool)>::empty());
    let application: &str = application_executable(host);
    let daemon: &str = daemon_executable(host);
    if !present.application {
        return (steps, Some(InstallError::MissingBinary(application.to_owned())));
    }
    add_step(&mut steps, application.to_owned(), true);
    if !present.daemon {
        return (steps, Some(InstallError::MissingBinary(daemon.to_owned())));
    }
    add_step(&mut steps, daemon.to_owned(), true);
    let (clipboard, fuse) = plugin_executables(host);
    add_plugin(&mut steps, clipboard, present.clipboard_plugin, present.clipboard_manifest);
    add_plugin(&mut steps, fuse, present.fuse_plugin, present.fuse_manifest);
    (steps, None)
}

/// Permissions with which anyone can run a file and its owner can change it.
pub fn executable_permissions(mode: u32) -> (r: u32)
    ensures
        r == mode | 0x1ed,
        r & 0x49 == 0x49,
{
    assert((mode | 0x1ed) & 0x49 == 0x49) by (bit_vector);
    mode | 0x1ed
}

/// Refuses to remove the binary that is running: nothing would be left to start
/// the application with.
pub fn check_removal(target: &str, running_there: bool) -> (r: Result<(), InstallError>)
    ensures
        match r {
            Ok(_) => !running_there,
            Err(error) => running_there && (error matches InstallError::Copy { path, source }
                && path@ == target@ && source@ == "refusing to remove the running installation"@),
        },
{
    if running_there {
        Err(
            InstallError::Copy {
                path: target.to_owned(),
                source: "refusing to remove the running installation".to_owned(),
            },
        )
    } else {
        Ok(())
    }
}

/// An installation without a stop holds both binaries, whatever plugins there
/// are.
pub proof fn law_both_binaries_are_installed(host: Host, p: Present)
    requires
        copies_of(host, p).1 is None,
    ensures
        copies_of(host, p).0.contains((application_name(host), true)),
        copies_of(host, p).0.contains((daemon_name(host), true)),
{
    let all = copies_of(host, p).0;
    assert(all[0] == (application_name(host), true));
    assert(all[1] == (daemon_name(host), true));
}

} // verus!
