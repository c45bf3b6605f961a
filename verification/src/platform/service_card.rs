//! What the dashboard shows of the background service, and of the directory that
//! its programs are installed into.
use crate::platform::daemon::control_error_text;
use crate::platform::daemon::DaemonControlError;
use crate::platform::install::install_error_text;
use crate::platform::install::InstallError;
use crate::platform::service::service_fault_text;
use crate::platform::service::ServiceError;
use crate::platform::service::ServiceFault;
use crate::platform::service::ServiceStatus;
use vstd::prelude::*;

verus! {

/// What is shown of the service.
#[derive(Clone, Debug, PartialEq, Eq)]
pub struct ServiceCard {
    /// This system has services that can be managed.
    pub supported: bool,
    /// The program that the service runs, or why there is none.
    pub binary_path: String,
    /// The directory that programs are copied from.
    pub source_path: String,
    /// The directory that programs are copied into.
    pub destination: String,
    /// The user chose that directory.
    pub customised: bool,
    pub busy: bool,
    pub known: bool,
    pub installed: bool,
    pub running: bool,
    pub autostart: bool,
    pub error: String,
}

/// A card with its texts as characters.
pub ghost struct CardModel {
    pub supported: bool,
    pub binary_path: Seq<char>,
    pub source_path: Seq<char>,
    pub destination: Seq<char>,
    pub customised: bool,
    pub busy: bool,
    pub known: bool,
    pub installed: bool,
    pub running: bool,
    pub autostart: bool,
    pub error: Seq<char>,
}

impl View for ServiceCard {
    type V = CardModel;

    open spec fn view(&self) -> CardModel {
        CardModel {
            supported: self.supported,
            binary_path: self.binary_path@,
            source_path: self.source_path@,
            destination: self.destination@,
            customised: self.customised,
            busy: self.busy,
            known: self.known,
            installed: self.installed,
            running: self.running,
            autostart: self.autostart,
            error: self.error@,
        }
    }
}

/// A path, or that there is none.
pub open spec fn path_or_unavailable(path: Option<String>) -> Seq<char> {
    match path {
        Some(path) => path@,
        None => "Unavailable"@,
    }
}

fn available(path: Option<String>) -> (s: String)
    ensures
        s@ == path_or_unavailable(path),
{
    match path {
        Some(path) => path,
        None => "Unavailable".to_owned(),
    }
}

/// The card while an action is under way.
pub open spec fn acting(c: CardModel) -> CardModel {
    if c.busy {
        c
    } else {
        CardModel { busy: true, error: Seq::empty(), ..c }
    }
}

/// The card once an action has ended.
pub open spec fn acted(c: CardModel, result: Result<ServiceStatus, ServiceFault>) -> CardModel {
    match result {
        Ok(status) => CardModel {
            busy: false,
            known: true,
            installed: status.installed,
            running: status.running,
            autostart: status.autostart,
            ..c
        },
        Err(fault) => CardModel {
            busy: false,
            known: false,
            error: service_fault_text(fault),
            ..c
        },
    }
}

/// The card once a directory was chosen, or could not be.
pub open spec fn redirected(
    c: CardModel,
    directory: Seq<char>,
    customised: bool,
    outcome: Result<(), InstallError>,
) -> CardModel {
    match outcome {
        Ok(_) => CardModel { destination: directory, customised, error: Seq::empty(), ..c },
        Err(error) => CardModel { error: install_error_text(error), ..c },
    }
}

impl ServiceCard {
    /// The card as the dashboard starts: nothing is known of the service yet.
    pub fn open(
        linux: bool,
        binary: Result<String, ServiceError>,
        source: Option<String>,
        destination: Option<String>,
        customised: bool,
    ) -> (c: ServiceCard)
        ensures
            c@ == (CardModel {
                supported: linux,
                binary_path: match binary {
                    Ok(path) => path@,
                    Err(error) => service_fault_text(error@),
                },
                source_path: path_or_unavailable(source),
                destination: path_or_unavailable(destination),
                customised,
                busy: false,
                known: false,
                installed: false,
                running: false,
                autostart: false,
                error: Seq::empty(),
            }),
    {
        let binary_path: String = match binary {
            Ok(path) => path,
            Err(error) => error.to_text(),
        };
        let c: ServiceCard = ServiceCard {
            supported: linux,
            binary_path,
            source_path: available(source),
            destination: available(destination),
            customised,
            busy: false,
            known: false,
            installed: false,
            running: false,
            autostart: false,
            error: String::new(),
        };
        assert(c.error@ =~= Seq::empty());
        c
    }

    /// An action begins: `false` where one is under way.
    pub fn begin_action(&mut self) -> (r: bool)
        ensures
            r == !old(self).busy,
            final(self)@ == acting(old(self)@),
    {
        if self.busy {
            return false;
        }
        self.busy = true;
        self.error = String::new();
        assert(self.error@ =~= Seq::empty());
        true
    }

    /// An action ends with the state of the service, or with an error.
    pub fn end_action(&mut self, result: Result<ServiceStatus, ServiceError>)
        ensures
            final(self)@ == acted(
                old(self)@,
                match result {
                    Ok(status) => Ok(status),
                    Err(error) => Err(error@),
                },
            ),
    {
        self.busy = false;
        match result {
            Ok(status) => {
                self.known = true;
                self.installed = status.installed;
                self.running = status.running;
                self.autostart = status.autostart;
            },
            Err(error) => {
                self.known = false;
                self.error = error.to_text();
            },
        }
    }

    /// The user chose a directory for the programs.
    pub fn destination_chosen(&mut self, directory: String, outcome: Result<(), InstallError>)
        ensures
            final(self)@ == redirected(old(self)@, directory@, true, outcome),
    {
        match outcome {
            Ok(_) => {
                self.destination = directory;
                self.customised = true;
                self.error = String::new();
                assert(self.error@ =~= Seq::empty());
            },
            Err(error) => {
                self.error = error.to_text();
            },
        }
    }

    /// The user went back to the default directory.
    pub fn destination_reset(
        &mut self,
        default: Result<String, InstallError>,
        outcome: Result<(), InstallError>,
    )
        ensures
            final(self)@ == redirected(
                old(self)@,
                match default {
                    Ok(directory) => directory@,
                    Err(_) => Seq::empty(),
                },
                false,
                outcome,
            ),
    {
        match outcome {
            Ok(_) => {
                self.destination = match default {
                    Ok(directory) => directory,
                    Err(_) => String::new(),
                };
                assert(default is Err ==> self.destination@ =~= Seq::empty());
                self.customised = false;
                self.error = String::new();
                assert(self.error@ =~= Seq::empty());
            },
            Err(error) => {
                self.error = error.to_text();
            },
        }
    }
}

/// The error of the service where its programs could not be installed.
pub fn installation_error(error: InstallError) -> (e: ServiceError)
    ensures
        e@ == ServiceFault::InvalidBinary(install_error_text(error)),
{
    ServiceError::InvalidBinary(error.to_text())
}

/// The error of the service where a launcher entry, or the program behind it,
/// could not be installed; `text` says why.
pub fn launcher_error(text: String) -> (e: ServiceError)
    ensures
        e@ == ServiceFault::InvalidBinary(service_fault_text(ServiceFault::InvalidBinary(text@))),
{
    let inner: ServiceError = ServiceError::InvalidBinary(text);
    ServiceError::InvalidBinary(inner.to_text())
}

/// What is shown while a daemon of the dashboard's own is started.
#[derive(Clone, Debug, PartialEq, Eq)]
pub struct StartCard {
    pub starting: bool,
    pub error: String,
}

impl StartCard {
    /// A start begins.
    pub fn begin(&mut self)
        ensures
            final(self).starting,
            final(self).error@ == Seq::<char>::empty(),
    {
        self.starting = true;
        self.error = String::new();
        assert(self.error@ =~= Seq::empty());
    }

    /// A start ends; an error is shown.
    pub fn end(&mut self, outcome: Result<(), DaemonControlError>)
        ensures
            !final(self).starting,
            final(self).error@ == (match outcome {
                Ok(_) => old(self).error@,
                Err(error) => control_error_text(error),
            }),
    {
        self.starting = false;
        match outcome {
            Ok(_) => {},
            Err(error) => {
                self.error = error.to_text();
            },
        }
    }
}

/// Only one action is under way at a time: one that is asked for meanwhile leaves
/// the card as it is.
pub proof fn law_one_action_at_a_time(c: CardModel)
    ensures
        acting(c).busy,
        acting(acting(c)) == acting(c),
{
}

/// An action that failed leaves nothing known, and what is shown then says why.
pub proof fn law_failures_are_shown(c: CardModel, fault: ServiceFault)
    ensures
        !acted(acting(c), Err(fault)).known,
        acted(acting(c), Err(fault)).error == service_fault_text(fault),
        acted(acting(c), Err(fault)).installed == c.installed,
{
}

/// What was found out about the service is shown: whether it is installed, runs and
/// starts by itself. While something is done, nothing else is begun.
pub proof fn law_the_service_is_shown_as_it_is(c: CardModel, status: ServiceStatus)
    ensures
        ({
            let after = acted(c, Ok(status));
            &&& after.known && !after.busy
            &&& after.installed == status.installed
            &&& after.running == status.running
            &&& after.autostart == status.autostart
            &&& after.destination == c.destination && after.binary_path == c.binary_path
                && after.source_path == c.source_path && after.supported == c.supported
        }),
        !c.busy ==> acting(c).error.len() == 0 && acting(c).installed == c.installed && acting(
            c,
        ).running == c.running,
{
}

/// Another directory is taken once it was saved, and the one before stays where it could
/// not be.
pub proof fn law_directories_are_taken_once_saved(
    c: CardModel,
    directory: Seq<char>,
    customised: bool,
    error: InstallError,
)
    ensures
        ({
            let after = redirected(c, directory, customised, Ok(()));
            &&& after.destination == directory && after.customised == customised
            &&& after.error.len() == 0
        }),
        ({
            let after = redirected(c, directory, customised, Err(error));
            &&& after.destination == c.destination && after.customised == c.customised
            &&& after.error == install_error_text(error)
        }),
{
}

} // verus!
