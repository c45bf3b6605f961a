//! Installing and removing the background service, step by step: what is done
//! next, from what came of the last step.
use crate::history::chars;
use crate::platform::service::has_control;
use crate::platform::service::program_of;
use crate::platform::service::quoted;
use crate::platform::service::resolve_install_executable;
use crate::platform::service::text_result;
use crate::platform::service::unit_contents;
use crate::platform::service::unit_file;
use crate::platform::service::unit_path;
use crate::platform::service::unit_text;
use crate::platform::service::ServiceError;
use crate::platform::service::ServiceFault;
use crate::plugin_api::manifest::Probe;
use vstd::prelude::*;

verus! {

// ---------------------------------------------------------------------------
// Removing
// ---------------------------------------------------------------------------

/// What came of removing the unit.
#[derive(Clone, Debug, PartialEq, Eq)]
pub enum Removal {
    Removed,
    /// There was none.
    Missing,
    /// It could not be removed; the text says why.
    Failed(String),
}

/// What came of the last step of a removal.
#[derive(Debug, PartialEq, Eq)]
pub enum Uninstalled {
    /// Nothing was done yet.
    Nothing,
    Disabled(Result<(), ServiceError>),
    UnitRemoved(Removal),
    Reloaded(Result<(), ServiceError>),
}

/// What is done next.
#[derive(Debug, PartialEq, Eq)]
pub enum UninstallStep {
    /// The service no longer starts by itself.
    Disable,
    /// The unit at this path goes.
    RemoveUnit(String),
    /// The manager reads its units anew.
    Reload,
    Finish(Result<(), ServiceError>),
}

/// A step ends everything with an error.
pub open spec fn fails_with(s: UninstallStep, fault: ServiceFault) -> bool {
    s matches UninstallStep::Finish(Err(error)) && error@ == fault
}

/// The next step of a removal. `unit` is where the unit is kept.
pub open spec fn uninstalls(
    s: UninstallStep,
    done: Uninstalled,
    unit: Result<String, ServiceError>,
) -> bool {
    match done {
        Uninstalled::Nothing => s is Disable,
        Uninstalled::Disabled(Err(error)) => fails_with(s, error@),
        Uninstalled::Disabled(Ok(_)) => match unit {
            Ok(path) => s matches UninstallStep::RemoveUnit(p) && p@ == path@,
            Err(error) => fails_with(s, error@),
        },
        Uninstalled::UnitRemoved(Removal::Failed(text)) => fails_with(s, ServiceFault::Io(text@)),
        Uninstalled::UnitRemoved(_) => s is Reload,
        Uninstalled::Reloaded(Ok(_)) => s matches UninstallStep::Finish(Ok(_)),
        Uninstalled::Reloaded(Err(error)) => fails_with(s, error@),
    }
}

/// The next step of a removal: the service is disabled, then its unit is removed,
/// then the manager reads its units anew. That there is no unit is no error; any
/// other error ends the removal.
pub fn uninstall_step(done: Uninstalled, unit: Result<String, ServiceError>) -> (s: UninstallStep)
    ensures
        uninstalls(s, done, unit),
{
    match done {
        Uninstalled::Nothing => UninstallStep::Disable,
        Uninstalled::Disabled(Err(error)) => UninstallStep::Finish(Err(error)),
        Uninstalled::Disabled(Ok(_)) => match unit {
            Ok(path) => UninstallStep::RemoveUnit(path),
            Err(error) => UninstallStep::Finish(Err(error)),
        },
        Uninstalled::UnitRemoved(Removal::Failed(text)) => UninstallStep::Finish(
            Err(ServiceError::Io(text)),
        ),
        Uninstalled::UnitRemoved(_) => UninstallStep::Reload,
        Uninstalled::Reloaded(r) => UninstallStep::Finish(r),
    }
}

/// A unit is removed only once its service was disabled, and a removal succeeds only
/// once the manager knows of it.
pub proof fn law_units_go_disabled(
    s: UninstallStep,
    done: Uninstalled,
    unit: Result<String, ServiceError>,
)
    requires
        uninstalls(s, done, unit),
    ensures
        s is RemoveUnit ==> (done matches Uninstalled::Disabled(Ok(_))),
        s is Reload ==> (done matches Uninstalled::UnitRemoved(r) && !(r is Failed)),
        (s matches UninstallStep::Finish(Ok(_))) ==> (done matches Uninstalled::Reloaded(Ok(_))),
{
}

// ---------------------------------------------------------------------------
// Installing
// ---------------------------------------------------------------------------

/// What is installed: the program that the service runs, and where its unit is
/// kept.
#[derive(Clone, Debug, PartialEq, Eq)]
pub struct InstallTarget {
    pub program: String,
    pub unit: String,
}

/// What is installed, or why nothing can be: the program comes first, then the place
/// of the unit.
pub fn install_target(
    binary: &str,
    appimage: Option<&str>,
    probe: &Probe,
    canonical: Result<String, String>,
    config: Option<String>,
    home: Option<String>,
) -> (r: Result<InstallTarget, ServiceError>)
    ensures
        ({
            let appimage = match appimage {
                Some(s) => Some(s@),
                None => None,
            };
            let program = program_of(binary@, appimage, *probe, text_result(canonical));
            let unit = unit_file(chars(config), chars(home));
            match r {
                Ok(target) => program == Ok::<Seq<char>, Seq<char>>(target.program@) && unit
                    == Some(target.unit@),
                Err(error) => match program {
                    Err(text) => error@ == ServiceFault::InvalidBinary(text),
                    Ok(_) => unit is None && error@ == ServiceFault::Environment(
                        "neither XDG_CONFIG_HOME nor HOME is set"@,
                    ),
                },
            }
        }),
{
    let program: String = match resolve_install_executable(binary, appimage, probe, canonical) {
        Ok(program) => program,
        Err(error) => {
            return Err(error);
        },
    };
    match unit_path(config, home) {
        Ok(unit) => Ok(InstallTarget { program, unit }),
        Err(error) => Err(error),
    }
}

/// What came of the last step of an installation.
#[derive(Debug, PartialEq, Eq)]
pub enum Installed {
    /// Nothing was done yet.
    Nothing,
    /// The directory of the unit was made, or why it could not be.
    DirectoryMade(Result<(), String>),
    /// The unit was written, or why it could not be.
    UnitWritten(Result<(), String>),
    Reloaded(Result<(), ServiceError>),
}

/// What is done next.
#[derive(Debug, PartialEq, Eq)]
pub enum InstallStep {
    /// The directory of the unit is made.
    MakeDirectory,
    /// The unit gets this text.
    WriteUnit(String),
    /// The manager reads its units anew.
    Reload,
    Finish(Result<(), ServiceError>),
}

/// An installation ends with an error.
pub open spec fn stops_with(s: InstallStep, fault: ServiceFault) -> bool {
    s matches InstallStep::Finish(Err(error)) && error@ == fault
}

/// The next step of an installation of a program.
pub open spec fn installs(s: InstallStep, done: Installed, program: Seq<char>) -> bool {
    match done {
        Installed::Nothing => s is MakeDirectory,
        Installed::DirectoryMade(Err(text)) => stops_with(s, ServiceFault::Io(text@)),
        Installed::DirectoryMade(Ok(_)) => if has_control(program) {
            stops_with(s, ServiceFault::InvalidBinary("path contains a control character"@))
        } else {
            s matches InstallStep::WriteUnit(text) && text@ == unit_text(quoted(program))
        },
        Installed::UnitWritten(Err(text)) => stops_with(s, ServiceFault::Io(text@)),
        Installed::UnitWritten(Ok(_)) => s is Reload,
        Installed::Reloaded(Ok(_)) => s matches InstallStep::Finish(Ok(_)),
        Installed::Reloaded(Err(error)) => stops_with(s, error@),
    }
}

/// The next step of an installation: the directory is made, the unit is written,
/// then the manager reads its units anew. Any error ends the installation.
pub fn install_step(done: Installed, program: &str) -> (s: InstallStep)
    ensures
        installs(s, done, program@),
{
    match done {
        Installed::Nothing => InstallStep::MakeDirectory,
        Installed::DirectoryMade(Err(text)) => InstallStep::Finish(Err(ServiceError::Io(text))),
        Installed::DirectoryMade(Ok(_)) => match unit_contents(program) {
            Ok(contents) => InstallStep::WriteUnit(contents),
            Err(error) => InstallStep::Finish(Err(error)),
        },
        Installed::UnitWritten(Err(text)) => InstallStep::Finish(Err(ServiceError::Io(text))),
        Installed::UnitWritten(Ok(_)) => InstallStep::Reload,
        Installed::Reloaded(r) => InstallStep::Finish(r),
    }
}

} // verus!
