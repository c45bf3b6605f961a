//! What the dashboard shows of the Flatpak applications that can be granted access
//! to the files that a clipboard holds.
use crate::platform::filter_flatpak_applications;
use crate::platform::found_among;
use crate::platform::grant_flatpak_access;
use crate::platform::platform_error_text;
use crate::platform::FlatpakApplication;
use crate::platform::PlatformAction;
use crate::platform::PlatformError;
use crate::text::trim;
use vstd::prelude::*;

verus! {

/// What is shown of the applications.
#[derive(Debug)]
pub struct FlatpakCard {
    /// Those that the search finds.
    pub applications: Vec<FlatpakApplication>,
    pub all: Vec<FlatpakApplication>,
    pub search: String,
    pub loading: bool,
    pub error: String,
    /// The application that was granted access last.
    pub granted: String,
}

/// A card as what it holds.
pub ghost struct FlatpakModel {
    pub applications: Seq<FlatpakApplication>,
    pub all: Seq<FlatpakApplication>,
    pub search: Seq<char>,
    pub loading: bool,
    pub error: Seq<char>,
    pub granted: Seq<char>,
}

impl View for FlatpakCard {
    type V = FlatpakModel;

    open spec fn view(&self) -> FlatpakModel {
        FlatpakModel {
            applications: self.applications@,
            all: self.all@,
            search: self.search@,
            loading: self.loading,
            error: self.error@,
            granted: self.granted@,
        }
    }
}

/// The card once the applications were listed, or could not be.
pub open spec fn listed(
    c: FlatpakModel,
    result: Result<Vec<FlatpakApplication>, PlatformError>,
) -> FlatpakModel {
    match result {
        Ok(all) => FlatpakModel {
            loading: false,
            all: all@,
            applications: found_among(all@, c.search),
            error: Seq::empty(),
            ..c
        },
        Err(error) => FlatpakModel {
            loading: false,
            all: Seq::empty(),
            applications: Seq::empty(),
            error: platform_error_text(error),
            ..c
        },
    }
}

impl FlatpakCard {
    /// The user searches among the applications.
    pub fn search_for(&mut self, query: String)
        ensures
            final(self)@ == (FlatpakModel {
                search: query@,
                applications: found_among(old(self)@.all, query@),
                ..old(self)@
            }),
    {
        self.applications = filter_flatpak_applications(&self.all, query.as_str());
        self.search = query;
    }

    /// The applications are to be listed: `false` where that cannot be done here.
    pub fn begin_refresh(&mut self, available: bool) -> (r: bool)
        ensures
            r == available,
            final(self)@ == (if available {
                FlatpakModel { loading: true, error: Seq::empty(), ..old(self)@ }
            } else {
                FlatpakModel {
                    error: "Flatpak application discovery is unavailable on this platform"@,
                    ..old(self)@
                }
            }),
    {
        if !available {
            self.error = "Flatpak application discovery is unavailable on this platform".to_owned();
            return false;
        }
        self.loading = true;
        self.error = String::new();
        assert(self.error@ =~= Seq::empty());
        true
    }

    /// The applications were listed, or could not be.
    pub fn end_refresh(&mut self, result: Result<Vec<FlatpakApplication>, PlatformError>)
        ensures
            final(self)@ == listed(old(self)@, result),
    {
        self.loading = false;
        match result {
            Ok(all) => {
                self.applications = filter_flatpak_applications(&all, self.search.as_str());
                self.all = all;
                self.error = String::new();
                assert(self.error@ =~= Seq::empty());
            },
            Err(error) => {
                self.applications = Vec::new();
                self.all = Vec::new();
                assert(self.applications@ =~= Seq::empty());
                assert(self.all@ =~= Seq::empty());
                self.error = error.to_text();
            },
        }
    }

    /// The user grants an application access; what is to be done, or what is said.
    pub fn begin_grant(&mut self, available: bool, application_id: String) -> (r: Result<
        PlatformAction,
        String,
    >)
        ensures
            match r {
                Ok(action) => {
                    &&& available
                    &&& application_id@.len() > 0
                    &&& action == PlatformAction::GrantFlatpakFilesystemAccess { application_id }
                    &&& final(self)@ == (FlatpakModel {
                        error: Seq::empty(),
                        granted: Seq::empty(),
                        ..old(self)@
                    })
                },
                Err(text) => {
                    &&& final(self)@ == old(self)@
                    &&& if !available {
                        text@ == "This action is unavailable on this platform"@
                    } else {
                        application_id@.len() == 0 && text@
                            == "Select a Flatpak application first"@
                    }
                },
            },
    {
        let r = grant_flatpak_access(available, application_id);
        if r.is_ok() {
            self.error = String::new();
            self.granted = String::new();
            assert(self.error@ =~= Seq::empty());
            assert(self.granted@ =~= Seq::empty());
        }
        r
    }

    /// Access was granted, or could not be.
    pub fn end_grant(&mut self, application_id: String, result: Result<(), PlatformError>)
        ensures
            final(self)@ == (match result {
                Ok(_) => FlatpakModel { granted: application_id@, ..old(self)@ },
                Err(error) => FlatpakModel { error: platform_error_text(error), ..old(self)@ },
            }),
    {
        match result {
            Ok(_) => {
                self.granted = application_id;
            },
            Err(error) => {
                self.error = error.to_text();
            },
        }
    }
}

/// An empty search lists every application.
pub proof fn law_empty_search_lists_everything(all: Seq<FlatpakApplication>, query: Seq<char>)
    requires
        trim(query).len() == 0,
    ensures
        found_among(all, query) == all,
    decreases all.len(),
{
    if all.len() > 0 {
        law_empty_search_lists_everything(all.drop_last(), query);
    }
    assert(found_among(all, query) =~= all);
}

/// What is listed is always among the applications that there are, whatever is
/// searched for.
pub proof fn law_found_applications_are_there(all: Seq<FlatpakApplication>, query: Seq<char>)
    ensures
        forall|i: int|
            0 <= i < found_among(all, query).len() ==> all.contains(
                #[trigger] found_among(all, query)[i],
            ),
    decreases all.len(),
{
    if all.len() > 0 {
        let front = all.drop_last();
        law_found_applications_are_there(front, query);
        assert forall|i: int| 0 <= i < found_among(all, query).len() implies all.contains(
            #[trigger] found_among(all, query)[i],
        ) by {
            let x = found_among(all, query)[i];
            if i < found_among(front, query).len() {
                assert(front.contains(found_among(front, query)[i]));
                let j = choose|j: int| 0 <= j < front.len() && front[j] == x;
                assert(all[j] == x);
            } else {
                assert(all[all.len() - 1] == x);
            }
        }
    }
}

/// A search finds every application whose name or identifier has what is searched for,
/// in capitals or small letters, and no other; their order stays.
pub proof fn law_applications_are_found_by_name(all: Seq<FlatpakApplication>, query: Seq<char>)
    requires
        trim(query).len() > 0,
    ensures
        found_among(all, query) == all.filter(
            |a: FlatpakApplication|
                crate::text::holds(
                    crate::text::lowercase(a.application_id@),
                    crate::text::lowercase(trim(query)),
                ) || crate::text::holds(
                    crate::text::lowercase(a.name@),
                    crate::text::lowercase(trim(query)),
                ),
        ),
    decreases all.len(),
{
    reveal(Seq::filter);
    if all.len() > 0 {
        law_applications_are_found_by_name(all.drop_last(), query);
    }
    assert(found_among(all, query) =~= all.filter(
        |a: FlatpakApplication|
            crate::text::holds(
                crate::text::lowercase(a.application_id@),
                crate::text::lowercase(trim(query)),
            ) || crate::text::holds(
                crate::text::lowercase(a.name@),
                crate::text::lowercase(trim(query)),
            ),
    ));
}

/// The applications that were found out are listed, as far as the search finds them; a
/// failure leaves none, and says why.
pub proof fn law_lists_are_refreshed(
    c: FlatpakModel,
    all: Vec<FlatpakApplication>,
    error: PlatformError,
)
    ensures
        ({
            let after = listed(c, Ok(all));
            &&& !after.loading && after.error.len() == 0
            &&& after.all == all@ && after.search == c.search && after.granted == c.granted
            &&& trim(c.search).len() == 0 ==> after.applications == all@
        }),
        ({
            let after = listed(c, Err(error));
            &&& !after.loading && after.all.len() == 0 && after.applications.len() == 0
            &&& after.error == platform_error_text(error)
        }),
{
    if trim(c.search).len() == 0 {
        law_empty_search_lists_everything(all@, c.search);
    }
}

} // verus!
