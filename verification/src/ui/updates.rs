//! Update discovery and bounded staging: which release is an update, which of
//! its files is for this platform, and how much of it is taken.
//!
//! There is no implicit release source: [`Updater::prepare`] returns
//! [`Preparation::Unconfigured`] when both repository fields are absent.
//! Downloads are staged only; they are never executed, installed, or copied over
//! the running executable.
use crate::text::byte_len;
use crate::text::chars_of;
use crate::text::debug_of;
use crate::text::debug_text;
use crate::text::decimal;
use crate::text::find_char;
use crate::text::has_char;
use crate::text::has_part;
use crate::text::holds;
use crate::text::index_of;
use crate::text::blank;
use crate::text::is_blank;
use crate::text::len_of;
use crate::text::push_decimal;
use crate::text::replace;
use crate::text::replaced;
use crate::text::same_text;
use crate::text::starts_with;
use crate::text::begins;
use crate::text::string_of;
use vstd::prelude::*;

verus! {

/// Optional GitHub repository coordinates. No owner/repository is assumed.
#[derive(Clone, Debug, PartialEq, Eq)]
pub struct RepositoryConfig {
    pub owner: Option<String>,
    pub repository: Option<String>,
}

impl Default for RepositoryConfig {
    fn default() -> (c: RepositoryConfig)
        ensures
            c.owner is None,
            c.repository is None,
    {
        RepositoryConfig { owner: None, repository: None }
    }
}

/// Exact, configurable artifact naming contract.
///
/// `template` is matched against release asset names after replacing `{version}`,
/// `{os}`, and `{arch}`. It must contain `{os}` and `{arch}`; `{version}` is
/// optional. Exact matching deliberately rejects both unsupported platforms and
/// multiple assets with the same name.
#[derive(Clone, Debug, PartialEq, Eq)]
pub struct ArtifactNaming {
    pub template: String,
    pub os: String,
    pub arch: String,
}

/// Why an update is refused.
#[derive(Clone, Debug, PartialEq, Eq)]
#[allow(inconsistent_fields)]
pub enum UpdateError {
    InvalidConfiguration(String),
    InvalidArtifactNaming(String),
    InvalidCurrentVersion(String),
    MalformedRelease(String),
    UnsupportedAsset { expected: String },
    AmbiguousAsset { expected: String, count: usize },
    DownloadTooLarge { limit: u64, observed: u64 },
    Http(String),
    Io(String),
}

#[allow(inconsistent_fields)]
pub ghost enum UpdateFault {
    InvalidConfiguration(Seq<char>),
    InvalidArtifactNaming(Seq<char>),
    InvalidCurrentVersion(Seq<char>),
    MalformedRelease(Seq<char>),
    UnsupportedAsset { expected: Seq<char> },
    AmbiguousAsset { expected: Seq<char>, count: nat },
    DownloadTooLarge { limit: u64, observed: u64 },
    Http(Seq<char>),
    Io(Seq<char>),
}

impl View for UpdateError {
    type V = UpdateFault;

    open spec fn view(&self) -> UpdateFault {
        match *self {
            UpdateError::InvalidConfiguration(s) => UpdateFault::InvalidConfiguration(s@),
            UpdateError::InvalidArtifactNaming(s) => UpdateFault::InvalidArtifactNaming(s@),
            UpdateError::InvalidCurrentVersion(s) => UpdateFault::InvalidCurrentVersion(s@),
            UpdateError::MalformedRelease(s) => UpdateFault::MalformedRelease(s@),
            UpdateError::UnsupportedAsset { expected } => UpdateFault::UnsupportedAsset {
                expected: expected@,
            },
            UpdateError::AmbiguousAsset { expected, count } => UpdateFault::AmbiguousAsset {
                expected: expected@,
                count: count as nat,
            },
            UpdateError::DownloadTooLarge { limit, observed } => UpdateFault::DownloadTooLarge {
                limit,
                observed,
            },
            UpdateError::Http(s) => UpdateFault::Http(s@),
            UpdateError::Io(s) => UpdateFault::Io(s@),
        }
    }
}

/// What is said of a fault.
pub open spec fn update_fault_text(f: UpdateFault) -> Seq<char> {
    match f {
        UpdateFault::InvalidConfiguration(s) => "invalid updater configuration: "@ + s,
        UpdateFault::InvalidArtifactNaming(s) => "invalid artifact naming contract: "@ + s,
        UpdateFault::InvalidCurrentVersion(s) => "invalid current version: "@ + s,
        UpdateFault::MalformedRelease(s) => "malformed GitHub release: "@ + s,
        UpdateFault::UnsupportedAsset { expected } => {
            "release asset is unsupported; expected exactly "@ + debug_text(expected)
        },
        UpdateFault::AmbiguousAsset { expected, count } => "release asset selection is ambiguous: "@
            + decimal(count) + " assets named "@ + debug_text(expected),
        UpdateFault::DownloadTooLarge { limit, observed } => "download exceeded "@ + decimal(
            limit as nat,
        ) + " bytes after receiving "@ + decimal(observed as nat) + " bytes"@,
        UpdateFault::Http(s) => "HTTP operation failed: "@ + s,
        UpdateFault::Io(s) => "staging I/O failed: "@ + s,
    }
}

fn said(front: &str, s: &String) -> (r: String)
    ensures
        r@ == front@ + s@,
{
    let mut r: String = front.to_owned();
    r.push_str(s.as_str());
    r
}

impl UpdateError {
    /// What is said of the error.
    pub fn to_text(&self) -> (r: String)
        ensures
            r@ == update_fault_text(self@),
    {
        match self {
            UpdateError::InvalidConfiguration(s) => said("invalid updater configuration: ", s),
            UpdateError::InvalidArtifactNaming(s) => said("invalid artifact naming contract: ", s),
            UpdateError::InvalidCurrentVersion(s) => said("invalid current version: ", s),
            UpdateError::MalformedRelease(s) => said("malformed GitHub release: ", s),
            UpdateError::UnsupportedAsset { expected } => said(
                "release asset is unsupported; expected exactly ",
                &debug_of(expected.as_str()),
            ),
            UpdateError::AmbiguousAsset { expected, count } => {
                let mut r: String = "release asset selection is ambiguous: ".to_owned();
                push_decimal(&mut r, *count as u64);
                r.push_str(" assets named ");
                r.push_str(debug_of(expected.as_str()).as_str());
                r
            },
            UpdateError::DownloadTooLarge { limit, observed } => {
                let mut r: String = "download exceeded ".to_owned();
                push_decimal(&mut r, *limit);
                r.push_str(" bytes after receiving ");
                push_decimal(&mut r, *observed);
                r.push_str(" bytes");
                r
            },
            UpdateError::Http(s) => said("HTTP operation failed: ", s),
            UpdateError::Io(s) => said("staging I/O failed: ", s),
        }
    }
}

/// What a checking function returns: nothing, or the fault that was found.
pub open spec fn reports(r: Result<(), UpdateError>, fault: Option<UpdateFault>) -> bool {
    match r {
        Ok(_) => fault is None,
        Err(error) => fault == Some(error@),
    }
}

// ---------------------------------------------------------------------------
// Versions
// ---------------------------------------------------------------------------

/// What `semver` makes of a text: whether it denotes a prerelease, or why it is
/// no version.
pub uninterp spec fn version_check(text: Seq<char>) -> Result<bool, Seq<char>>;

/// How one version stands to another.
#[derive(Clone, Copy, Debug, PartialEq, Eq, Structural)]
pub enum Precedence {
    Older,
    Same,
    Newer,
}

/// How `semver` orders two versions: the first against the second.
pub uninterp spec fn version_order(a: Seq<char>, b: Seq<char>) -> Precedence;

/// `semver::Version::parse`: whether the text is a version and denotes a
/// prerelease, or the text of the error. Both depend on the text alone and are
/// left to the name.
#[verifier::external_body]
fn check_version(text: &str) -> (r: Result<bool, String>)
    ensures
        match r {
            Ok(prerelease) => version_check(text@) == Ok::<bool, Seq<char>>(prerelease),
            Err(error) => version_check(text@) == Err::<bool, Seq<char>>(error@),
        },
{
    match semver::Version::parse(text) {
        Ok(version) => Ok(!version.pre.is_empty()),
        Err(error) => Err(error.to_string()),
    }
}

/// `semver::Version`'s order, of two texts that `semver::Version::parse` takes.
/// A version is the same as itself; any other order is left to the name.
#[verifier::external_body]
fn compare_versions(a: &str, b: &str) -> (r: Precedence)
    requires
        version_check(a@) is Ok,
        version_check(b@) is Ok,
    ensures
        r == version_order(a@, b@),
        a@ == b@ ==> r == Precedence::Same,
{
    match (semver::Version::parse(a), semver::Version::parse(b)) {
        (Ok(a), Ok(b)) => match a.cmp(&b) {
            std::cmp::Ordering::Less => Precedence::Older,
            std::cmp::Ordering::Equal => Precedence::Same,
            std::cmp::Ordering::Greater => Precedence::Newer,
        },
        _ => Precedence::Same,
    }
}

/// A version.
#[derive(Debug, PartialEq, Eq)]
pub struct Version {
    text: String,
    prerelease: bool,
}

impl View for Version {
    type V = Seq<char>;

    closed spec fn view(&self) -> Seq<char> {
        self.text@
    }
}

impl Version {
    #[verifier::type_invariant]
    spec fn inv(self) -> bool {
        version_check(self.text@) == Ok::<bool, Seq<char>>(self.prerelease)
    }

    /// The version that a text stands for, or why it is none.
    pub fn parse(text: &str) -> (r: Result<Version, String>)
        ensures
            match r {
                Ok(version) => version@ == text@ && version_check(text@) is Ok,
                Err(error) => version_check(text@) == Err::<bool, Seq<char>>(error@),
            },
    {
        match check_version(text) {
            Ok(prerelease) => Ok(Version { text: text.to_owned(), prerelease }),
            Err(error) => Err(error),
        }
    }

    /// Whether the version denotes a prerelease.
    pub fn is_prerelease(&self) -> (r: bool)
        ensures
            version_check(self@) == Ok::<bool, Seq<char>>(r),
    {
        proof {
            use_type_invariant(self);
        }
        self.prerelease
    }

    /// How this version stands to another.
    pub fn against(&self, other: &Version) -> (r: Precedence)
        ensures
            r == version_order(self@, other@),
            self@ == other@ ==> r == Precedence::Same,
    {
        proof {
            use_type_invariant(self);
            use_type_invariant(other);
        }
        compare_versions(self.text.as_str(), other.text.as_str())
    }

    /// The version in words.
    pub fn as_text(&self) -> (s: &str)
        ensures
            s@ == self@,
    {
        self.text.as_str()
    }

    /// The same version once more.
    pub fn copy(&self) -> (v: Version)
        ensures
            v@ == self@,
    {
        proof {
            use_type_invariant(self);
        }
        Version { text: self.text.clone(), prerelease: self.prerelease }
    }
}

// ---------------------------------------------------------------------------
// The naming contract
// ---------------------------------------------------------------------------

/// A placeholder that the template may hold.
pub open spec fn is_placeholder(s: Seq<char>) -> bool {
    s == "{version}"@ || s == "{os}"@ || s == "{arch}"@
}

/// What is wrong with the braces of a template.
pub open spec fn brace_fault(s: Seq<char>) -> Option<Seq<char>>
    decreases s.len(),
{
    match index_of(s, '{') {
        None => if s.contains('}') {
            Some("unmatched closing brace"@)
        } else {
            None
        },
        Some(open) => {
            let rest = s.skip(open);
            match index_of(rest, '}') {
                None => Some("unclosed placeholder"@),
                Some(close) => if open < 0 || open >= s.len() || close < 0 || close >= rest.len() {
                    None
                } else if !is_placeholder(rest.take(close + 1)) {
                    Some("unknown placeholder "@ + rest.take(close + 1))
                } else {
                    brace_fault(rest.skip(close + 1))
                },
            }
        },
    }
}

/// Something that can stand in a file name.
pub open spec fn is_component(s: Seq<char>) -> bool {
    s.len() > 0 && !s.contains('/') && !s.contains('\\')
}

/// What is wrong with a naming contract.
pub open spec fn naming_fault(n: ArtifactNaming) -> Option<UpdateFault> {
    naming_fault_of(n.template@, n.os@, n.arch@)
}

/// What is wrong with a naming contract of these parts.
pub open spec fn naming_fault_of(
    template: Seq<char>,
    os: Seq<char>,
    arch: Seq<char>,
) -> Option<UpdateFault> {
    if blank(template) {
        Some(UpdateFault::InvalidArtifactNaming("template is empty"@))
    } else if !holds(template, "{os}"@) || !holds(template, "{arch}"@) {
        Some(UpdateFault::InvalidArtifactNaming("template must contain {os} and {arch}"@))
    } else if !is_component(os) || !is_component(arch) {
        Some(
            UpdateFault::InvalidArtifactNaming(
                "OS and architecture must be non-empty filename components"@,
            ),
        )
    } else {
        match brace_fault(template) {
            Some(text) => Some(UpdateFault::InvalidArtifactNaming(text)),
            None => None,
        }
    }
}

/// The name of the file for this platform.
pub open spec fn expected_name_of(n: ArtifactNaming, version: Seq<char>) -> Seq<char> {
    replaced(
        replaced(replaced(n.template@, "{version}"@, version), "{os}"@, n.os@),
        "{arch}"@,
        n.arch@,
    )
}

fn refuse_naming(text: &str) -> (r: Result<(), UpdateError>)
    ensures
        reports(r, Some(UpdateFault::InvalidArtifactNaming(text@))),
{
    Err(UpdateError::InvalidArtifactNaming(text.to_owned()))
}

fn component(s: &str) -> (r: bool)
    ensures
        r == is_component(s@),
{
    let v: Vec<char> = chars_of(s);
    v.len() > 0 && !has_char(v.as_slice(), '/') && !has_char(v.as_slice(), '\\')
}

fn skip_chars(v: &Vec<char>, n: usize) -> (r: Vec<char>)
    requires
        n <= v@.len(),
    ensures
        r@ == v@.skip(n as int),
{
    let mut r: Vec<char> = Vec::new();
    let mut i: usize = n;
    while i < v.len()
        invariant
            n <= i <= v@.len(),
            r@ == v@.subrange(n as int, i as int),
        decreases v@.len() - i,
    {
        r.push(v[i]);
        i = i + 1;
        assert(r@ =~= v@.subrange(n as int, i as int));
    }
    assert(r@ =~= v@.skip(n as int));
    r
}

fn take_chars(v: &Vec<char>, n: usize) -> (r: Vec<char>)
    requires
        n <= v@.len(),
    ensures
        r@ == v@.take(n as int),
{
    let mut r: Vec<char> = Vec::new();
    let mut i: usize = 0;
    while i < n
        invariant
            i <= n <= v@.len(),
            r@ == v@.take(i as int),
        decreases n - i,
    {
        r.push(v[i]);
        i = i + 1;
        assert(r@ =~= v@.take(i as int));
    }
    r
}

fn check_braces(template: Vec<char>) -> (r: Result<(), UpdateError>)
    ensures
        reports(
            r,
            match brace_fault(template@) {
                Some(text) => Some(UpdateFault::InvalidArtifactNaming(text)),
                None => None,
            },
        ),
{
    let ghost whole = template@;
    let mut rest: Vec<char> = template;
    loop
        invariant
            whole == template@,
            brace_fault(rest@) == brace_fault(whole),
        decreases rest@.len(),
    {
        match find_char(rest.as_slice(), '{') {
            None => {
                if has_char(rest.as_slice(), '}') {
                    return refuse_naming("unmatched closing brace");
                }
                return Ok(());
            },
            Some(open) => {
                let after: Vec<char> = skip_chars(&rest, open);
                match find_char(after.as_slice(), '}') {
                    None => {
                        return refuse_naming("unclosed placeholder");
                    },
                    Some(close) => {
                        let _len: usize = after.len();
                        let placeholder: Vec<char> = take_chars(&after, close + 1);
                        let name: String = string_of(placeholder.as_slice());
                        if !(same_text(name.as_str(), "{version}") || same_text(
                            name.as_str(),
                            "{os}",
                        ) || same_text(name.as_str(), "{arch}")) {
                            let mut text: String = "unknown placeholder ".to_owned();
                            text.push_str(name.as_str());
                            return Err(UpdateError::InvalidArtifactNaming(text));
                        }
                        rest = skip_chars(&after, close + 1);
                    },
                }
            },
        }
    }
}

fn replace_text(s: Vec<char>, from: &str, to: &str) -> (r: Vec<char>)
    requires
        from@.len() > 0,
    ensures
        r@ == replaced(s@, from@, to@),
{
    replace(s.as_slice(), chars_of(from).as_slice(), chars_of(to).as_slice())
}

impl ArtifactNaming {
    /// The naming contract of a platform.
    pub fn for_platform(template: String, os: String, arch: String) -> (n: ArtifactNaming)
        ensures
            n == (ArtifactNaming { template, os, arch }),
    {
        ArtifactNaming { template, os, arch }
    }

    /// Validates the contract.
    pub fn validate(&self) -> (r: Result<(), UpdateError>)
        ensures
            reports(r, naming_fault(*self)),
    {
        if is_blank(self.template.as_str()) {
            return refuse_naming("template is empty");
        }
        let template: Vec<char> = chars_of(self.template.as_str());
        if !has_part(template.as_slice(), chars_of("{os}").as_slice()) || !has_part(
            template.as_slice(),
            chars_of("{arch}").as_slice(),
        ) {
            return refuse_naming("template must contain {os} and {arch}");
        }
        if !component(self.os.as_str()) || !component(self.arch.as_str()) {
            return refuse_naming("OS and architecture must be non-empty filename components");
        }
        check_braces(template)
    }

    /// The name of the file for this platform.
    pub fn expected_name(&self, version: &Version) -> (s: String)
        ensures
            s@ == expected_name_of(*self, version@),
    {
        proof {
            reveal_strlit("{version}");
            reveal_strlit("{os}");
            reveal_strlit("{arch}");
        }
        let a: Vec<char> = replace_text(
            chars_of(self.template.as_str()),
            "{version}",
            version.as_text(),
        );
        let b: Vec<char> = replace_text(a, "{os}", self.os.as_str());
        let c: Vec<char> = replace_text(b, "{arch}", self.arch.as_str());
        string_of(c.as_slice())
    }
}

// ---------------------------------------------------------------------------
// Configuration
// ---------------------------------------------------------------------------

/// A letter, a digit, a dash, a line or a dot.
pub open spec fn slug_char(c: char) -> bool {
    'a' <= c <= 'z' || 'A' <= c <= 'Z' || '0' <= c <= '9' || c == '-' || c == '_' || c == '.'
}

/// A component of a repository's path.
pub open spec fn is_slug(s: Seq<char>) -> bool {
    &&& s.len() > 0
    &&& byte_len(s) <= 100
    &&& s[0] != '.'
    &&& s.last() != '.'
    &&& forall|i: int| 0 <= i < s.len() ==> slug_char(#[trigger] s[i])
}

pub open spec fn slug_fault(field: Seq<char>, value: Seq<char>) -> Option<UpdateFault> {
    if is_slug(value) {
        None
    } else {
        Some(
            UpdateFault::InvalidConfiguration(field + " is not a valid GitHub path component"@),
        )
    }
}

/// Validates a component of a repository's path; `field` names it.
pub fn validate_slug(field: &str, value: &str) -> (r: Result<(), UpdateError>)
    ensures
        reports(r, slug_fault(field@, value@)),
{
    let v: Vec<char> = chars_of(value);
    let mut valid: bool = v.len() > 0 && len_of(value) <= 100 && v[0] != '.' && v[v.len() - 1]
        != '.';
    let mut i: usize = 0;
    while i < v.len()
        invariant
            v@ == value@,
            i <= v@.len(),
            valid == (v@.len() > 0 && byte_len(value@) <= 100 && v@[0] != '.' && v@.last() != '.'
                && forall|j: int| 0 <= j < i ==> slug_char(#[trigger] v@[j])),
        decreases v@.len() - i,
    {
        let c: char = v[i];
        if !('a' <= c && c <= 'z' || 'A' <= c && c <= 'Z' || '0' <= c && c <= '9' || c == '-' || c
            == '_' || c == '.') {
            valid = false;
            assert(!slug_char(v@[i as int]));
        }
        i = i + 1;
    }
    if valid {
        Ok(())
    } else {
        let mut text: String = field.to_owned();
        text.push_str(" is not a valid GitHub path component");
        Err(UpdateError::InvalidConfiguration(text))
    }
}

/// A text without the letters `v` in front of it.
pub open spec fn without_v(s: Seq<char>) -> Seq<char>
    decreases s.len(),
{
    if s.len() > 0 && s[0] == 'v' {
        without_v(s.drop_first())
    } else {
        s
    }
}

/// A text without the letters `v` in front of it.
pub fn trim_v(s: &str) -> (r: String)
    ensures
        r@ == without_v(s@),
{
    let v: Vec<char> = chars_of(s);
    let mut i: usize = 0;
    assert(v@.skip(0) =~= v@);
    while i < v.len() && v[i] == 'v'
        invariant
            i <= v@.len(),
            v@ == s@,
            without_v(v@.skip(i as int)) == without_v(s@),
        decreases v@.len() - i,
    {
        assert(v@.skip(i as int).drop_first() =~= v@.skip(i + 1));
        i = i + 1;
    }
    let rest: Vec<char> = skip_chars(&v, i);
    string_of(rest.as_slice())
}

/// Configured update client.
#[derive(Debug)]
pub struct Updater {
    pub owner: String,
    pub repository: String,
    pub current_version: Version,
    pub naming: ArtifactNaming,
    pub max_download_bytes: u64,
}

/// Result of preparing an updater. Preparation never performs network I/O.
#[derive(Debug)]
pub enum Preparation {
    Unconfigured,
    Configured(Updater),
}

/// What is wrong with a configuration, but for the current version.
pub open spec fn config_fault(
    config: RepositoryConfig,
    naming: ArtifactNaming,
    max_download_bytes: u64,
) -> Option<UpdateFault> {
    match (config.owner, config.repository) {
        (None, None) => None,
        (Some(owner), Some(repository)) => source_fault(
            owner@,
            repository@,
            naming_fault(naming),
            max_download_bytes,
        ),
        _ => Some(
            UpdateFault::InvalidConfiguration("owner and repository must be supplied together"@),
        ),
    }
}

/// What is wrong with a source that has an owner and a repository; `naming` is
/// what is wrong with its naming contract.
pub open spec fn source_fault(
    owner: Seq<char>,
    repository: Seq<char>,
    naming: Option<UpdateFault>,
    max_download_bytes: u64,
) -> Option<UpdateFault> {
    if slug_fault("owner"@, owner) is Some {
        slug_fault("owner"@, owner)
    } else if slug_fault("repository"@, repository) is Some {
        slug_fault("repository"@, repository)
    } else if naming is Some {
        naming
    } else if max_download_bytes == 0 {
        Some(
            UpdateFault::InvalidConfiguration("maximum download size must be greater than zero"@),
        )
    } else {
        None
    }
}

/// What a preparation comes to, from what its current version was read as.
pub open spec fn prepared(
    r: Result<Preparation, UpdateError>,
    config: RepositoryConfig,
    current: Seq<char>,
    checked: Result<bool, Seq<char>>,
    naming: ArtifactNaming,
    max_download_bytes: u64,
) -> bool {
    match config_fault(config, naming, max_download_bytes) {
        Some(fault) => r is Err && r->Err_0@ == fault,
        None => if config.owner is None {
            r matches Ok(Preparation::Unconfigured)
        } else {
            match checked {
                Err(text) => r is Err && r->Err_0@ == UpdateFault::InvalidCurrentVersion(text),
                Ok(_) => r matches Ok(Preparation::Configured(u)) && u.owner@
                    == config.owner->Some_0@ && u.repository@ == config.repository->Some_0@
                    && u.current_version@ == current && u.naming == naming
                    && u.max_download_bytes == max_download_bytes,
            }
        },
    }
}

impl Updater {
    /// Validates configuration without making a request. Missing owner *and*
    /// repository is an honest unconfigured state; supplying only one field is an
    /// error. `max_download_bytes` must be non-zero.
    pub fn prepare(
        config: RepositoryConfig,
        current_version: &str,
        naming: ArtifactNaming,
        max_download_bytes: u64,
    ) -> (r: Result<Preparation, UpdateError>)
        ensures
            prepared(
                r,
                config,
                without_v(current_version@),
                version_check(without_v(current_version@)),
                naming,
                max_download_bytes,
            ),
    {
        let trimmed: String = trim_v(current_version);
        prepare_with(config, Version::parse(trimmed.as_str()), naming, max_download_bytes)
    }

    /// Where the latest release is asked for.
    pub fn latest_url(&self) -> (s: String)
        ensures
            s@ == "https://api.github.com/repos/"@ + self.owner@ + "/"@ + self.repository@
                + "/releases/latest"@,
    {
        let mut s: String = "https://api.github.com/repos/".to_owned();
        s.push_str(self.owner.as_str());
        s.push_str("/");
        s.push_str(self.repository.as_str());
        s.push_str("/releases/latest");
        s
    }
}

/// Validates configuration, from what the current version was read as.
pub fn prepare_with(
    config: RepositoryConfig,
    current: Result<Version, String>,
    naming: ArtifactNaming,
    max_download_bytes: u64,
) -> (r: Result<Preparation, UpdateError>)
    ensures
        match current {
            Ok(version) => prepared(
                r,
                config,
                version@,
                Ok(true),
                naming,
                max_download_bytes,
            ),
            Err(text) => prepared(
                r,
                config,
                Seq::empty(),
                Err(text@),
                naming,
                max_download_bytes,
            ),
        },
{
    let (owner, repository) = match (config.owner, config.repository) {
        (None, None) => {
            return Ok(Preparation::Unconfigured);
        },
        (Some(owner), Some(repository)) => (owner, repository),
        _ => {
            return Err(
                UpdateError::InvalidConfiguration(
                    "owner and repository must be supplied together".to_owned(),
                ),
            );
        },
    };
    match validate_slug("owner", owner.as_str()) {
        Ok(_) => {},
        Err(error) => {
            return Err(error);
        },
    }
    match validate_slug("repository", repository.as_str()) {
        Ok(_) => {},
        Err(error) => {
            return Err(error);
        },
    }
    match naming.validate() {
        Ok(_) => {},
        Err(error) => {
            return Err(error);
        },
    }
    if max_download_bytes == 0 {
        return Err(
            UpdateError::InvalidConfiguration(
                "maximum download size must be greater than zero".to_owned(),
            ),
        );
    }
    match current {
        Ok(current_version) => Ok(
            Preparation::Configured(
                Updater { owner, repository, current_version, naming, max_download_bytes },
            ),
        ),
        Err(text) => Err(UpdateError::InvalidCurrentVersion(text)),
    }
}

// ---------------------------------------------------------------------------
// Releases
// ---------------------------------------------------------------------------

/// A file of a release.
#[derive(Clone, Debug, PartialEq, Eq)]
pub struct GitHubAsset {
    pub name: String,
    pub browser_download_url: String,
    pub size: Option<u64>,
}

/// A release as it is published.
#[derive(Clone, Debug, PartialEq, Eq)]
pub struct GitHubRelease {
    pub tag_name: String,
    pub html_url: String,
    pub draft: bool,
    pub prerelease: bool,
    pub assets: Vec<GitHubAsset>,
}

#[derive(Clone, Debug, PartialEq, Eq)]
pub struct ReleaseAsset {
    pub name: String,
    pub download_url: String,
    pub declared_bytes: Option<u64>,
}

#[derive(Debug, PartialEq, Eq)]
pub struct AvailableUpdate {
    pub version: Version,
    pub release_page: String,
    pub asset: ReleaseAsset,
}

/// Current-version comparison result.
#[derive(Debug, PartialEq, Eq)]
#[allow(inconsistent_fields)]
pub enum UpdateStatus {
    UpToDate { current: Version },
    AheadOfLatest { current: Version, latest: Version },
    Available(AvailableUpdate),
}

/// A downloaded-but-not-installed artifact for a platform installation
/// coordinator.
#[derive(Debug, PartialEq, Eq)]
pub struct DownloadedAsset {
    pub release_version: Version,
    pub asset_name: String,
    pub staged_path: String,
    pub bytes: u64,
}

/// How many files of a release have a name.
pub open spec fn count_named(assets: Seq<GitHubAsset>, name: Seq<char>) -> nat
    decreases assets.len(),
{
    if assets.len() == 0 {
        0
    } else {
        count_named(assets.drop_last(), name) + (if assets.last().name@ == name {
            1nat
        } else {
            0nat
        })
    }
}

/// The first file of a name.
pub open spec fn first_named(assets: Seq<GitHubAsset>, name: Seq<char>) -> int
    decreases assets.len(),
{
    if assets.len() == 0 {
        -1
    } else if first_named(assets.drop_last(), name) >= 0 {
        first_named(assets.drop_last(), name)
    } else if assets.last().name@ == name {
        assets.len() - 1
    } else {
        -1
    }
}

/// What is wrong with the files of a release: exactly one must have the expected
/// name, and it must come over HTTPS.
pub open spec fn asset_fault(assets: Seq<GitHubAsset>, expected: Seq<char>) -> Option<UpdateFault> {
    let n = count_named(assets, expected);
    if n == 0 {
        Some(UpdateFault::UnsupportedAsset { expected })
    } else if n != 1 {
        Some(UpdateFault::AmbiguousAsset { expected, count: n })
    } else if !begins(
        assets[first_named(assets, expected)].browser_download_url@,
        "https://"@,
    ) {
        Some(UpdateFault::MalformedRelease("asset download URL is not HTTPS"@))
    } else {
        None
    }
}

/// The version that a tag names: without the `v` in front of it.
pub open spec fn tag_version(tag: Seq<char>) -> Seq<char> {
    if tag.len() > 0 && tag[0] == 'v' {
        tag.drop_first()
    } else {
        tag
    }
}

/// What a release comes to, once its version and the order are known.
pub open spec fn judged(
    r: Result<UpdateStatus, UpdateError>,
    current: Seq<char>,
    latest: Seq<char>,
    order: Precedence,
    naming: ArtifactNaming,
    release: GitHubRelease,
) -> bool {
    match order {
        Precedence::Same => r matches Ok(UpdateStatus::UpToDate { current: c }) && c@ == current,
        Precedence::Newer => r matches Ok(UpdateStatus::AheadOfLatest { current: c, latest: l })
            && c@ == current && l@ == latest,
        Precedence::Older => {
            let expected = expected_name_of(naming, latest);
            match asset_fault(release.assets@, expected) {
                Some(fault) => r is Err && r->Err_0@ == fault,
                None => {
                    let asset = release.assets@[first_named(release.assets@, expected)];
                    r matches Ok(UpdateStatus::Available(a)) && a.version@ == latest
                        && a.release_page@ == release.html_url@ && a.asset.name@ == expected
                        && a.asset.download_url@ == asset.browser_download_url@
                        && a.asset.declared_bytes == asset.size
                },
            }
        },
    }
}

/// What a release comes to, from what its version was read as.
pub open spec fn classified(
    r: Result<UpdateStatus, UpdateError>,
    current: Seq<char>,
    latest: Seq<char>,
    checked: Result<bool, Seq<char>>,
    order: Precedence,
    naming: ArtifactNaming,
    release: GitHubRelease,
) -> bool {
    if release.draft || release.prerelease {
        r is Err && r->Err_0@ == UpdateFault::MalformedRelease(
            "latest endpoint returned a draft or prerelease"@,
        )
    } else {
        match checked {
            Err(text) => r is Err && r->Err_0@ == UpdateFault::MalformedRelease(
                "invalid tag version: "@ + text,
            ),
            Ok(true) => r is Err && r->Err_0@ == UpdateFault::MalformedRelease(
                "release tag denotes a prerelease"@,
            ),
            Ok(false) => judged(r, current, latest, order, naming, release),
        }
    }
}

fn find_asset(assets: &Vec<GitHubAsset>, name: &str) -> (r: (usize, usize))
    ensures
        r.0 == count_named(assets@, name@),
        r.0 > 0 ==> r.1 == first_named(assets@, name@) && r.1 < assets@.len() && assets@[r.1 as int].name@
            == name@,
{
    let mut count: usize = 0;
    let mut first: usize = 0;
    let mut i: usize = 0;
    assert(assets@.take(0) =~= Seq::<GitHubAsset>::empty());
    while i < assets.len()
        invariant
            i <= assets@.len(),
            count <= i,
            count == count_named(assets@.take(i as int), name@),
            count == 0 ==> first_named(assets@.take(i as int), name@) == -1,
            count > 0 ==> first == first_named(assets@.take(i as int), name@) && first < i
                && assets@[first as int].name@ == name@,
        decreases assets@.len() - i,
    {
        assert(assets@.take(i + 1).drop_last() =~= assets@.take(i as int));
        if same_text(assets[i].name.as_str(), name) {
            if count == 0 {
                first = i;
            }
            count = count + 1;
        }
        i = i + 1;
    }
    assert(assets@.take(i as int) =~= assets@);
    (count, first)
}

/// What a release comes to, once its version and the order are known.
pub fn judge_release(
    current: &Version,
    latest: Version,
    order: Precedence,
    naming: &ArtifactNaming,
    release: &GitHubRelease,
) -> (r: Result<UpdateStatus, UpdateError>)
    ensures
        judged(r, current@, latest@, order, *naming, *release),
{
    match order {
        Precedence::Same => Ok(UpdateStatus::UpToDate { current: current.copy() }),
        Precedence::Newer => Ok(
            UpdateStatus::AheadOfLatest { current: current.copy(), latest },
        ),
        Precedence::Older => {
            let expected: String = naming.expected_name(&latest);
            let (count, first) = find_asset(&release.assets, expected.as_str());
            if count == 0 {
                return Err(UpdateError::UnsupportedAsset { expected });
            }
            if count != 1 {
                return Err(UpdateError::AmbiguousAsset { expected, count });
            }
            let asset: &GitHubAsset = &release.assets[first];
            if !starts_with(
                chars_of(asset.browser_download_url.as_str()).as_slice(),
                chars_of("https://").as_slice(),
            ) {
                return Err(
                    UpdateError::MalformedRelease("asset download URL is not HTTPS".to_owned()),
                );
            }
            Ok(
                UpdateStatus::Available(
                    AvailableUpdate {
                        version: latest,
                        release_page: release.html_url.clone(),
                        asset: ReleaseAsset {
                            name: asset.name.clone(),
                            download_url: asset.browser_download_url.clone(),
                            declared_bytes: asset.size,
                        },
                    },
                ),
            )
        },
    }
}

fn strip_v(tag: &str) -> (r: String)
    ensures
        r@ == tag_version(tag@),
{
    let v: Vec<char> = chars_of(tag);
    if v.len() > 0 && v[0] == 'v' {
        let rest: Vec<char> = skip_chars(&v, 1);
        assert(v@.skip(1) =~= v@.drop_first());
        string_of(rest.as_slice())
    } else {
        tag.to_owned()
    }
}

/// Compares the latest release with the current version.
pub fn classify_release(current: &Version, naming: &ArtifactNaming, release: GitHubRelease) -> (r:
    Result<UpdateStatus, UpdateError>)
    ensures
        classified(
            r,
            current@,
            tag_version(release.tag_name@),
            version_check(tag_version(release.tag_name@)),
            version_order(current@, tag_version(release.tag_name@)),
            *naming,
            release,
        ),
{
    if release.draft || release.prerelease {
        return Err(
            UpdateError::MalformedRelease(
                "latest endpoint returned a draft or prerelease".to_owned(),
            ),
        );
    }
    let text: String = strip_v(release.tag_name.as_str());
    let latest: Version = match Version::parse(text.as_str()) {
        Ok(latest) => latest,
        Err(error) => {
            return Err(UpdateError::MalformedRelease(said("invalid tag version: ", &error)));
        },
    };
    if latest.is_prerelease() {
        return Err(UpdateError::MalformedRelease("release tag denotes a prerelease".to_owned()));
    }
    let order: Precedence = current.against(&latest);
    judge_release(current, latest, order, naming, &release)
}

/// What is offered as an update is the file of the contract's name, over HTTPS,
/// of a release that is neither a draft nor a prerelease.
pub proof fn law_updates_are_exact(
    r: Result<UpdateStatus, UpdateError>,
    current: Seq<char>,
    latest: Seq<char>,
    checked: Result<bool, Seq<char>>,
    order: Precedence,
    naming: ArtifactNaming,
    release: GitHubRelease,
)
    requires
        classified(r, current, latest, checked, order, naming, release),
        r matches Ok(UpdateStatus::Available(_)),
    ensures
        !release.draft,
        !release.prerelease,
        checked == Ok::<bool, Seq<char>>(false),
        order == Precedence::Older,
        (r->Ok_0->Available_0).asset.name@ == expected_name_of(naming, latest),
        begins((r->Ok_0->Available_0).asset.download_url@, "https://"@),
        count_named(release.assets@, expected_name_of(naming, latest)) == 1,
{
}

// ---------------------------------------------------------------------------
// Staging
// ---------------------------------------------------------------------------

/// What is wrong with a download of a known size.
pub open spec fn size_fault(limit: u64, length: Option<u64>) -> Option<UpdateFault> {
    match length {
        Some(length) => if length > limit {
            Some(UpdateFault::DownloadTooLarge { limit, observed: length })
        } else {
            None
        },
        None => None,
    }
}

/// Refuses a download that is known to be too large.
pub fn check_size(limit: u64, length: Option<u64>) -> (r: Result<(), UpdateError>)
    ensures
        reports(r, size_fault(limit, length)),
{
    match length {
        Some(length) => if length > limit {
            Err(UpdateError::DownloadTooLarge { limit, observed: length })
        } else {
            Ok(())
        },
        None => Ok(()),
    }
}

/// The name of a staged file: hidden, with the process and a number that tell it
/// apart, and marked as partial. `file_name` is what the system takes for the
/// last component of the asset's name, which must be all of it.
pub fn staged_name(asset_name: &str, file_name: Option<&str>, process: u32, nonce: u64) -> (r: Result<
    String,
    UpdateError,
>)
    ensures
        match r {
            Ok(name) => {
                &&& file_name is Some && file_name->Some_0@ == asset_name@ && asset_name@.len() > 0
                &&& name@ == "."@ + asset_name@ + ".download-"@ + decimal(process as nat) + "-"@
                    + decimal(nonce as nat) + ".part"@
            },
            Err(error) => {
                &&& !(file_name is Some && file_name->Some_0@ == asset_name@ && asset_name@.len()
                    > 0)
                &&& error@ == UpdateFault::MalformedRelease("asset name is not a safe filename"@)
            },
        },
{
    let safe: bool = match file_name {
        Some(name) => same_text(name, asset_name) && name.unicode_len() > 0,
        None => false,
    };
    if !safe {
        return Err(
            UpdateError::MalformedRelease("asset name is not a safe filename".to_owned()),
        );
    }
    let mut name: String = ".".to_owned();
    name.push_str(asset_name);
    name.push_str(".download-");
    push_decimal(&mut name, process as u64);
    name.push_str("-");
    push_decimal(&mut name, nonce);
    name.push_str(".part");
    Ok(name)
}

/// The most that is read at once.
pub const STAGE_BUFFER: usize = 32 * 1024;

/// How much of a download was taken, and how much may be.
#[derive(Debug)]
pub struct Stage {
    pub limit: u64,
    pub total: u64,
}

/// What taking in a piece of a download does.
pub open spec fn takes_in(before: Stage, read: u64, r: Result<(), UpdateError>, after: Stage) -> bool {
    &&& after.limit == before.limit
    &&& match r {
        Ok(_) => before.total + read <= before.limit && after.total == before.total + read,
        Err(error) => before.total + read > before.limit && error@
            == UpdateFault::DownloadTooLarge {
            limit: before.limit,
            observed: if before.total + read > u64::MAX {
                u64::MAX
            } else {
                (before.total + read) as u64
            },
        } && after.total == before.total,
    }
}

impl Stage {
    /// Nothing was taken yet.
    pub fn new(limit: u64) -> (s: Stage)
        ensures
            s == (Stage { limit, total: 0 }),
    {
        Stage { limit, total: 0 }
    }

    /// How much to read next: never more than one byte over the limit, which is
    /// enough to see that there is too much.
    pub fn read_capacity(&self) -> (n: usize)
        ensures
            n == (if self.limit <= self.total {
                1
            } else if self.limit - self.total < STAGE_BUFFER {
                self.limit - self.total + 1
            } else {
                STAGE_BUFFER as int
            }),
    {
        let left: u64 = if self.limit > self.total {
            self.limit - self.total
        } else {
            0
        };
        if left < STAGE_BUFFER as u64 {
            (left + 1) as usize
        } else {
            STAGE_BUFFER
        }
    }

    /// Takes what was read.
    pub fn accept(&mut self, read: u64) -> (r: Result<(), UpdateError>)
        ensures
            takes_in(*old(self), read, r, *final(self)),
    {
        if read > u64::MAX - self.total {
            return Err(UpdateError::DownloadTooLarge { limit: self.limit, observed: u64::MAX });
        }
        let total: u64 = self.total + read;
        if total > self.limit {
            return Err(UpdateError::DownloadTooLarge { limit: self.limit, observed: total });
        }
        self.total = total;
        Ok(())
    }
}

} // verus!
