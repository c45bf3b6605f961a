//! What the dashboard shows of updates, and what it does with what the user sets
//! there.
use crate::text::trim;
use crate::text::trim_text;
use crate::ui::preferences::describe_update_status;
use crate::ui::preferences::repository_config;
use crate::ui::preferences::repository_of;
use crate::ui::preferences::source_saved;
use crate::ui::preferences::source_text;
use crate::ui::preferences::update_check;
use crate::ui::preferences::update_text;
use crate::ui::preferences::UpdateCheck;
use crate::ui::settings::PresentationSettings;
use crate::ui::settings::SettingsModel;
use crate::ui::settings::UpdatesModel;
use crate::ui::updates::naming_fault_of;
use crate::ui::updates::prepare_with;
use crate::ui::updates::source_fault;
use crate::ui::updates::trim_v;
use crate::ui::updates::update_fault_text;
use crate::ui::updates::version_check;
use crate::ui::updates::without_v;
use crate::ui::updates::ArtifactNaming;
use crate::ui::updates::RepositoryConfig;
use crate::ui::updates::UpdateError;
use crate::ui::updates::UpdateFault;
use crate::ui::updates::UpdateStatus;
use crate::ui::updates::Version;
use vstd::prelude::*;

verus! {

/// Refuse update artifacts larger than this; a runaway download must not fill
/// the disk.
pub const MAX_UPDATE_DOWNLOAD_BYTES: u64 = 512 * 1024 * 1024;

/// What is shown of updates.
#[derive(Debug, PartialEq, Eq)]
pub struct UpdateCard {
    pub repository: String,
    pub automatic_check: bool,
    pub busy: bool,
    pub status: String,
}

/// What asking for updates does.
pub open spec fn checks(
    before: UpdateCard,
    repository: Seq<char>,
    r: Option<RepositoryConfig>,
    after: UpdateCard,
) -> bool {
    &&& after.repository == before.repository
    &&& after.automatic_check == before.automatic_check
    &&& match r {
        Some(config) => {
            &&& !before.busy
            &&& repository_of(repository) matches Ok(Some((owner, name)))
                && config.owner is Some && config.owner->Some_0@ == owner
                && config.repository is Some && config.repository->Some_0@ == name
            &&& after.busy
            &&& after.status@ == "Checking for updates\u{2026}"@
        },
        None => {
            &&& after.busy == before.busy
            &&& before.busy || !(repository_of(repository) matches Ok(Some(_)))
            &&& after.status@ == (if before.busy {
                before.status@
            } else {
                match repository_of(repository) {
                    Err(error) => error,
                    Ok(_) => "Update source is not configured"@,
                }
            })
        },
    }
}

impl UpdateCard {
    /// The card as the dashboard starts.
    pub fn open(settings: &PresentationSettings) -> (c: UpdateCard)
        ensures
            c.repository@ == settings@.updates.repository,
            c.automatic_check == settings@.updates.automatic_check,
            !c.busy,
            c.status@ == Seq::<char>::empty(),
    {
        UpdateCard {
            repository: settings.updates.repository.clone(),
            automatic_check: settings.updates.automatic_check,
            busy: false,
            status: String::new(),
        }
    }

    /// The user wants to know of updates: where the source can be asked, the card
    /// is busy from now on.
    pub fn check(&mut self, repository: &str) -> (r: Option<RepositoryConfig>)
        ensures
            checks(*old(self), repository@, r, *final(self)),
    {
        match update_check(self.busy, repository) {
            UpdateCheck::Busy => None,
            UpdateCheck::Refused(text) => {
                self.status = text;
                None
            },
            UpdateCheck::Start(config) => {
                self.busy = true;
                self.status = "Checking for updates\u{2026}".to_owned();
                Some(config)
            },
        }
    }

    /// What was found out about updates.
    pub fn checked(&mut self, result: Result<UpdateStatus, UpdateError>)
        ensures
            final(self).repository == old(self).repository,
            final(self).automatic_check == old(self).automatic_check,
            !final(self).busy,
            final(self).status@ == (match result {
                Ok(status) => update_text(status),
                Err(error) => "Update check failed: "@ + update_fault_text(error@),
            }),
    {
        self.busy = false;
        self.status = match result {
            Ok(status) => describe_update_status(status),
            Err(error) => {
                let mut s: String = "Update check failed: ".to_owned();
                s.push_str(error.to_text().as_str());
                s
            },
        };
    }

    /// A source was saved, or could not be; only one that was saved is shown.
    pub fn configured(&mut self, repository: &str, saved: Result<(), String>)
        ensures
            final(self).automatic_check == old(self).automatic_check,
            final(self).busy == old(self).busy,
            final(self).repository@ == (if saved is Ok {
                trim(repository@)
            } else {
                old(self).repository@
            }),
            final(self).status@ == source_text(repository@, saved),
    {
        if saved.is_ok() {
            self.repository = trim_text(repository);
        }
        self.status = source_saved(repository, saved);
    }

    /// The wish to look for updates by itself was saved, or could not be; then
    /// what was saved before is shown, and why.
    pub fn automatic_set(&mut self, wanted: bool, saved: Result<(), String>, before: bool)
        ensures
            final(self).repository == old(self).repository,
            final(self).busy == old(self).busy,
            match saved {
                Ok(_) => final(self).automatic_check == wanted && final(self).status == old(
                    self,
                ).status,
                Err(error) => final(self).automatic_check == before && final(self).status@
                    == "Unable to save automatic update preference: "@ + error@,
            },
    {
        match saved {
            Ok(_) => {
                self.automatic_check = wanted;
            },
            Err(error) => {
                self.automatic_check = before;
                let mut s: String = "Unable to save automatic update preference: ".to_owned();
                s.push_str(error.as_str());
                self.status = s;
            },
        }
    }
}

/// The preferences with another source, or why it cannot be one. `unread` says why
/// the version of this program is none.
pub open spec fn source_chosen(
    r: Result<PresentationSettings, String>,
    settings: SettingsModel,
    repository: Seq<char>,
    unread: Option<Seq<char>>,
    os: Seq<char>,
    arch: Seq<char>,
) -> bool {
    match repository_of(repository) {
        Err(text) => r matches Err(e) && e@ == text,
        Ok(None) => r matches Ok(next) && next@ == with_source(settings, Seq::empty()),
        Ok(Some((owner, name))) => match source_fault(
            owner,
            name,
            naming_fault_of(settings.updates.artifact_template, os, arch),
            MAX_UPDATE_DOWNLOAD_BYTES,
        ) {
            Some(fault) => r matches Err(e) && e@ == update_fault_text(fault),
            None => match unread {
                Some(text) => r matches Err(e) && e@ == update_fault_text(
                    UpdateFault::InvalidCurrentVersion(text),
                ),
                None => r matches Ok(next) && next@ == with_source(settings, trim(repository)),
            },
        },
    }
}

/// Preferences with another source.
pub open spec fn with_source(settings: SettingsModel, repository: Seq<char>) -> SettingsModel {
    SettingsModel { updates: UpdatesModel { repository, ..settings.updates }, ..settings }
}

/// The preferences with another source, from what the version of this program
/// was read as.
pub fn choose_source_with(
    settings: &PresentationSettings,
    repository: &str,
    current: Result<Version, String>,
    os: String,
    arch: String,
) -> (r: Result<PresentationSettings, String>)
    ensures
        source_chosen(
            r,
            settings@,
            repository@,
            match current {
                Ok(_) => None,
                Err(text) => Some(text@),
            },
            os@,
            arch@,
        ),
{
    let chosen: String = trim_text(repository);
    let config: RepositoryConfig = match repository_config(repository) {
        Ok(config) => config,
        Err(text) => {
            return Err(text);
        },
    };
    let naming: ArtifactNaming = ArtifactNaming::for_platform(
        settings.updates.artifact_template.clone(),
        os,
        arch,
    );
    let prepared = prepare_with(config, current, naming, MAX_UPDATE_DOWNLOAD_BYTES);
    match prepared {
        Err(error) => Err(error.to_text()),
        Ok(_) => {
            let mut next: PresentationSettings = settings.copy();
            next.updates.repository = chosen;
            assert(trim(repository@).len() == 0 ==> trim(repository@) =~= Seq::empty());
            Ok(next)
        },
    }
}

/// The preferences with another source, or why it cannot be one; nothing is saved
/// yet.
pub fn choose_source(
    settings: &PresentationSettings,
    repository: &str,
    current_version: &str,
    os: String,
    arch: String,
) -> (r: Result<PresentationSettings, String>)
    ensures
        source_chosen(
            r,
            settings@,
            repository@,
            match version_check(without_v(current_version@)) {
                Ok(_) => None,
                Err(text) => Some(text),
            },
            os@,
            arch@,
        ),
{
    let trimmed: String = trim_v(current_version);
    choose_source_with(settings, repository, Version::parse(trimmed.as_str()), os, arch)
}

} // verus!
