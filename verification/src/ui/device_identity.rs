//! The names and pictures that the user gives devices, and the order in which a
//! change becomes lasting: first the settings are saved, then the picture that
//! they no longer name is removed. A change that cannot be saved leaves
//! everything as it was.
use crate::table::text_below;
use crate::table::text_is_below;
use crate::table::Key;
use crate::text::starts_with;
use crate::text::chars_of;
use crate::text::begins;
use crate::text::blank;
use crate::text::is_blank;
use crate::text::lower;
use crate::text::same_text;
use crate::text::to_ascii_lower;
use crate::text::trim;
use crate::text::trim_text;
use crate::ui::labels::join;
use crate::ui::labels::joined;
use crate::ui::labels::views;
use crate::ui::models::AppViewState;
use crate::ui::models::ClientView;
use crate::ui::settings::no_device;
use crate::ui::settings::DeviceModel;
use crate::ui::settings::DevicePresentation;
use crate::ui::settings::PresentationSettings;
use crate::ui::settings::SettingsModel;
use vstd::prelude::*;

verus! {

// ---------------------------------------------------------------------------
// Keys
// ---------------------------------------------------------------------------

/// A text put behind every one that it does not precede.
pub open spec fn with_text(sorted: Seq<Seq<char>>, s: Seq<char>) -> Seq<Seq<char>>
    decreases sorted.len(),
{
    if sorted.len() > 0 && text_below(s, sorted.last()) {
        with_text(sorted.drop_last(), s).push(sorted.last())
    } else {
        sorted.push(s)
    }
}

/// Texts in ascending order.
pub open spec fn sorted_texts(texts: Seq<Seq<char>>) -> Seq<Seq<char>>
    decreases texts.len(),
{
    if texts.len() == 0 {
        Seq::empty()
    } else {
        with_text(sorted_texts(texts.drop_last()), texts.last())
    }
}

fn insert_text(sorted: &mut Vec<String>, s: String)
    ensures
        views(final(sorted)@) == with_text(views(old(sorted)@), s@),
    decreases old(sorted)@.len(),
{
    let ghost before = views(sorted@);
    if sorted.len() > 0 && text_is_below(s.as_str(), sorted[sorted.len() - 1].as_str()) {
        let last: String = sorted[sorted.len() - 1].clone();
        assert(before.last() == last@);
        sorted.pop();
        assert(views(sorted@) =~= before.drop_last());
        insert_text(sorted, s);
        let ghost middle = views(sorted@);
        sorted.push(last);
        assert(views(sorted@) =~= middle.push(last@));
    } else {
        sorted.push(s);
        assert(views(sorted@) =~= before.push(s@));
    }
}

fn sort_texts(texts: &Vec<String>) -> (r: Vec<String>)
    ensures
        views(r@) == sorted_texts(views(texts@)),
{
    let mut r: Vec<String> = Vec::new();
    let ghost all = views(texts@);
    assert(views(r@) =~= sorted_texts(all.take(0)));
    let mut i: usize = 0;
    while i < texts.len()
        invariant
            i <= texts@.len(),
            all == views(texts@),
            views(r@) == sorted_texts(all.take(i as int)),
        decreases texts@.len() - i,
    {
        assert(all.take(i + 1).drop_last() =~= all.take(i as int));
        insert_text(&mut r, texts[i].clone());
        i = i + 1;
    }
    assert(all.take(i as int) =~= all);
    r
}

/// The key of a configured peer: by its host, else by its addresses.
pub open spec fn config_key(hostname: Option<Seq<char>>, addresses: Seq<Seq<char>>) -> Seq<char> {
    let host = lower(
        trim(
            match hostname {
                Some(hostname) => hostname,
                None => Seq::empty(),
            },
        ),
    );
    if host.len() > 0 {
        "cfg:host:"@ + host
    } else if addresses.len() == 0 {
        Seq::empty()
    } else {
        "cfg:ip:"@ + joined(sorted_texts(addresses), ","@)
    }
}

/// Deterministic presentation key for a configured peer, from its host and the
/// texts of its fixed addresses. Never a runtime handle.
pub fn client_identity_key(hostname: Option<&str>, fixed_ips: &Vec<String>) -> (s: String)
    ensures
        s@ == config_key(
            match hostname {
                Some(hostname) => Some(hostname@),
                None => None,
            },
            views(fixed_ips@),
        ),
{
    let host: String = match hostname {
        Some(hostname) => to_ascii_lower(trim_text(hostname).as_str()),
        None => {
            let s: String = String::new();
            assert(s@ =~= Seq::<char>::empty());
            to_ascii_lower(trim_text(s.as_str()).as_str())
        },
    };
    if host.as_str().unicode_len() > 0 {
        let mut s: String = "cfg:host:".to_owned();
        s.push_str(host.as_str());
        return s;
    }
    if fixed_ips.len() == 0 {
        let s: String = String::new();
        assert(s@ =~= Seq::<char>::empty());
        return s;
    }
    let sorted: Vec<String> = sort_texts(fixed_ips);
    let mut s: String = "cfg:ip:".to_owned();
    s.push_str(join(&sorted, ",").as_str());
    s
}

/// The key does not depend on the order in which the addresses were given.
pub proof fn law_key_ignores_address_order(
    hostname: Option<Seq<char>>,
    a: Seq<Seq<char>>,
    b: Seq<Seq<char>>,
)
    requires
        a.to_multiset() == b.to_multiset(),
    ensures
        config_key(hostname, a) == config_key(hostname, b),
{
    lemma_sorted(a);
    lemma_sorted(b);
    assert(sorted_texts(a).to_multiset() == sorted_texts(b).to_multiset());
    lemma_one_order(sorted_texts(a), sorted_texts(b));
    a.to_multiset_ensures();
    b.to_multiset_ensures();
}

/// In ascending order.
spec fn ascending(s: Seq<Seq<char>>) -> bool {
    forall|i: int, j: int| 0 <= i < j < s.len() ==> !text_below(#[trigger] s[j], #[trigger] s[i])
}

proof fn lemma_with_text(sorted: Seq<Seq<char>>, s: Seq<char>)
    requires
        ascending(sorted),
    ensures
        ascending(with_text(sorted, s)),
        with_text(sorted, s).to_multiset() == sorted.to_multiset().insert(s),
        with_text(sorted, s).len() == sorted.len() + 1,
    decreases sorted.len(),
{
    broadcast use vstd::seq_lib::group_to_multiset_ensures;

    let r = with_text(sorted, s);
    if sorted.len() > 0 && text_below(s, sorted.last()) {
        let front = sorted.drop_last();
        let last = sorted.last();
        lemma_with_text(front, s);
        let inner = with_text(front, s);
        assert(sorted =~= front.push(last));
        assert(r.to_multiset() =~= sorted.to_multiset().insert(s));
        assert forall|i: int, j: int| 0 <= i < j < r.len() implies !text_below(
            #[trigger] r[j],
            #[trigger] r[i],
        ) by {
            crate::table::lemma_text_order(s, last, s);
            if j == r.len() - 1 {
                assert(r[j] == last);
                assert(inner.to_multiset().count(inner[i]) > 0) by {
                    inner.to_multiset_ensures();
                    assert(inner.contains(inner[i]));
                }
                if inner[i] != s {
                    assert(front.to_multiset().count(inner[i]) > 0);
                    front.to_multiset_ensures();
                    assert(front.contains(inner[i]));
                    let k = choose|k: int| 0 <= k < front.len() && front[k] == inner[i];
                    assert(sorted[k] == inner[i]);
                    assert(!text_below(sorted[sorted.len() - 1], sorted[k]));
                } else {
                    crate::table::lemma_text_order(last, s, last);
                }
            } else {
                assert(r[j] == inner[j] && r[i] == inner[i]);
            }
        }
    } else {
        assert(r =~= sorted.push(s));
        assert forall|i: int, j: int| 0 <= i < j < r.len() implies !text_below(
            #[trigger] r[j],
            #[trigger] r[i],
        ) by {
            if j == r.len() - 1 {
                let last = sorted.last();
                crate::table::lemma_text_order(s, sorted[i], last);
                crate::table::lemma_text_order(last, s, sorted[i]);
                if i < sorted.len() - 1 {
                    assert(!text_below(sorted[sorted.len() - 1], sorted[i]));
                }
                crate::table::lemma_text_order(sorted[i], last, s);
                crate::table::lemma_text_order(last, sorted[i], s);
            } else {
                assert(r[j] == sorted[j] && r[i] == sorted[i]);
            }
        }
    }
}

proof fn lemma_sorted(texts: Seq<Seq<char>>)
    ensures
        ascending(sorted_texts(texts)),
        sorted_texts(texts).to_multiset() == texts.to_multiset(),
        sorted_texts(texts).len() == texts.len(),
    decreases texts.len(),
{
    broadcast use vstd::seq_lib::group_to_multiset_ensures;

    if texts.len() == 0 {
        assert(sorted_texts(texts) =~= texts);
    } else {
        lemma_sorted(texts.drop_last());
        lemma_with_text(sorted_texts(texts.drop_last()), texts.last());
        assert(texts =~= texts.drop_last().push(texts.last()));
    }
}

/// There is one ascending order of the same texts.
proof fn lemma_one_order(a: Seq<Seq<char>>, b: Seq<Seq<char>>)
    requires
        ascending(a),
        ascending(b),
        a.to_multiset() == b.to_multiset(),
    ensures
        a == b,
    decreases a.len(),
{
    broadcast use vstd::seq_lib::group_to_multiset_ensures;

    a.to_multiset_ensures();
    b.to_multiset_ensures();
    assert(a.len() == b.len());
    if a.len() == 0 {
        assert(a =~= b);
    } else {
        let x = a.last();
        let y = b.last();
        assert(a.contains(x));
        assert(b.contains(y));
        assert(b.to_multiset().count(x) > 0);
        assert(a.to_multiset().count(y) > 0);
        assert(b.contains(x));
        assert(a.contains(y));
        let i = choose|i: int| 0 <= i < b.len() && b[i] == x;
        let j = choose|j: int| 0 <= j < a.len() && a[j] == y;
        crate::table::lemma_text_order(x, y, x);
        if x != y {
            assert(i < b.len() - 1);
            assert(!text_below(b[b.len() - 1], b[i]));
            assert(j < a.len() - 1);
            assert(!text_below(a[a.len() - 1], a[j]));
        }
        let fa = a.drop_last();
        let fb = b.drop_last();
        assert(a =~= fa.push(x));
        assert(b =~= fb.push(x));
        assert(fa.to_multiset() =~= a.to_multiset().remove(x));
        assert(fb.to_multiset() =~= b.to_multiset().remove(x));
        lemma_one_order(fa, fb);
    }
}

// ---------------------------------------------------------------------------
// Edits
// ---------------------------------------------------------------------------

/// Why an edit is refused.
#[derive(Clone, Copy, Debug, PartialEq, Eq, Structural)]
pub enum IdentityError {
    /// The peer has no key under which its name could be kept.
    NoStableIdentity,
    /// There is nowhere to keep it.
    NoDirectory,
}

pub open spec fn identity_error_text(e: IdentityError) -> Seq<char> {
    match e {
        IdentityError::NoStableIdentity => "peer has no stable identity"@,
        IdentityError::NoDirectory => "config directory unavailable"@,
    }
}

impl IdentityError {
    /// What is said of the error.
    pub fn to_text(&self) -> (s: &'static str)
        ensures
            s@ == identity_error_text(*self),
    {
        match self {
            IdentityError::NoStableIdentity => "peer has no stable identity",
            IdentityError::NoDirectory => "config directory unavailable",
        }
    }
}

/// What is found at a path once its links are followed.
#[derive(Clone, Debug, PartialEq, Eq)]
pub enum Lookup {
    /// The path that it comes to.
    Found(String),
    Missing,
    /// It cannot be followed; the text says why.
    Failed(String),
}

/// A path is a directory or lies below it. Both are written without a separator at
/// the end, but for the root.
pub open spec fn lies_in(path: Seq<char>, directory: Seq<char>, separator: char) -> bool {
    ||| path == directory
    ||| begins(path, directory) && path.len() > directory.len() && (path[directory.len() as int]
        == separator || directory.len() > 0 && directory.last() == separator)
}

fn is_in(path: &str, directory: &str, separator: char) -> (r: bool)
    ensures
        r == lies_in(path@, directory@, separator),
{
    if same_text(path, directory) {
        return true;
    }
    let path: Vec<char> = chars_of(path);
    let directory: Vec<char> = chars_of(directory);
    let n: usize = directory.len();
    starts_with(path.as_slice(), directory.as_slice()) && path.len() > n && (path[n] == separator
        || n > 0 && directory[n - 1] == separator)
}

/// The picture that is removed, if any, or why none can be: only one that is there
/// and lies in the directory of pictures.
pub open spec fn removal_of(
    picture: Seq<char>,
    directory: Option<Lookup>,
    found: Lookup,
    separator: char,
) -> Result<Option<Seq<char>>, Seq<char>> {
    if picture.len() == 0 {
        Ok(None)
    } else {
        match directory {
            None => Err(identity_error_text(IdentityError::NoDirectory)),
            Some(Lookup::Missing) => Ok(None),
            Some(Lookup::Failed(error)) => Err(error@),
            Some(Lookup::Found(root)) => match found {
                Lookup::Missing => Ok(None),
                Lookup::Failed(error) => Err(error@),
                Lookup::Found(path) => if lies_in(path@, root@, separator) {
                    Ok(Some(path@))
                } else {
                    Ok(None)
                },
            },
        }
    }
}

/// The picture that is removed, if any, or why none can be. `directory` is what is
/// found at the directory of pictures, `found` what is found at the picture.
pub fn remove_owned(
    picture: &str,
    directory: Option<Lookup>,
    found: Lookup,
    separator: char,
) -> (r: Result<Option<String>, String>)
    ensures
        match r {
            Ok(Some(path)) => removal_of(picture@, directory, found, separator) == Ok::<
                Option<Seq<char>>,
                Seq<char>,
            >(Some(path@)),
            Ok(None) => removal_of(picture@, directory, found, separator) == Ok::<
                Option<Seq<char>>,
                Seq<char>,
            >(None),
            Err(text) => removal_of(picture@, directory, found, separator) == Err::<
                Option<Seq<char>>,
                Seq<char>,
            >(text@),
        },
{
    if picture.unicode_len() == 0 {
        return Ok(None);
    }
    let root: String = match directory {
        None => {
            return Err(IdentityError::NoDirectory.to_text().to_owned());
        },
        Some(Lookup::Missing) => {
            return Ok(None);
        },
        Some(Lookup::Failed(error)) => {
            return Err(error);
        },
        Some(Lookup::Found(root)) => root,
    };
    match found {
        Lookup::Missing => Ok(None),
        Lookup::Failed(error) => Err(error),
        Lookup::Found(path) => if is_in(path.as_str(), root.as_str(), separator) {
            Ok(Some(path))
        } else {
            Ok(None)
        },
    }
}

/// What is said of a picture that could not be removed, where the settings were
/// saved.
pub open spec fn cleanup_text(saved: Result<(), String>, cleanup: Result<(), String>) -> Option<
    Seq<char>,
> {
    match (saved, cleanup) {
        (Ok(_), Err(error)) => Some(
            "identity settings were saved, but the previous image could not be removed: "@
                + error@,
        ),
        _ => None,
    }
}

/// What an edit comes to once its settings were saved, or could not be, and the
/// unused picture was removed, or could not be: that a picture stays is worth a
/// warning, and no failure.
pub fn edit_outcome(saved: Result<(), String>, cleanup: Result<(), String>) -> (r: (
    Result<(), String>,
    Option<String>,
))
    ensures
        r.0 == saved,
        match r.1 {
            Some(text) => cleanup_text(saved, cleanup) == Some(text@),
            None => cleanup_text(saved, cleanup) is None,
        },
{
    if saved.is_err() {
        return (saved, None);
    }
    match cleanup {
        Ok(_) => (saved, None),
        Err(error) => {
            let mut text: String =
                "identity settings were saved, but the previous image could not be removed: ".to_owned();
            text.push_str(error.as_str());
            (saved, Some(text))
        },
    }
}

/// Settings that are to be saved. `replaced` is the picture that they no longer
/// name, `added` the one that only they name; either is empty where there is
/// none.
#[derive(Debug)]
pub struct Edit {
    pub next: PresentationSettings,
    pub replaced: String,
    pub added: String,
}

/// The names and pictures of devices.
#[derive(Debug)]
pub struct IdentityStore {
    settings: PresentationSettings,
}

impl View for IdentityStore {
    type V = SettingsModel;

    closed spec fn view(&self) -> SettingsModel {
        self.settings@
    }
}

/// What is known of a device.
pub open spec fn device_of(m: SettingsModel, key: Seq<char>) -> DeviceModel {
    if m.devices.contains_key(key) {
        m.devices[key]
    } else {
        no_device()
    }
}

/// The settings with another name for this device.
pub open spec fn local_renamed(m: SettingsModel, name: Seq<char>) -> SettingsModel {
    SettingsModel { local_device: DeviceModel { friendly_name: name, ..m.local_device }, ..m }
}

/// The settings with another picture for this device.
pub open spec fn local_pictured(m: SettingsModel, path: Seq<char>) -> SettingsModel {
    SettingsModel { local_device: DeviceModel { image_path: path, ..m.local_device }, ..m }
}

/// The settings with another name for a peer.
pub open spec fn peer_renamed(m: SettingsModel, key: Seq<char>, name: Seq<char>) -> SettingsModel {
    SettingsModel {
        devices: m.devices.insert(
            key,
            DeviceModel { friendly_name: name, ..device_of(m, key) },
        ),
        ..m
    }
}

/// The settings with another picture for a peer.
pub open spec fn peer_pictured(m: SettingsModel, key: Seq<char>, path: Seq<char>) -> SettingsModel {
    SettingsModel {
        devices: m.devices.insert(key, DeviceModel { image_path: path, ..device_of(m, key) }),
        ..m
    }
}

/// The settings without the picture of a peer.
pub open spec fn peer_unpictured(m: SettingsModel, key: Seq<char>) -> SettingsModel {
    if m.devices.contains_key(key) {
        peer_pictured(m, key, Seq::empty())
    } else {
        m
    }
}

/// Whether what is kept under one key is to be kept under another.
pub open spec fn migrates(m: SettingsModel, old_key: Seq<char>, new_key: Seq<char>) -> bool {
    old_key.len() > 0 && new_key.len() > 0 && old_key != new_key && m.devices.contains_key(old_key)
}

/// The settings after that: what is already kept under the new key stays.
pub open spec fn migrated(m: SettingsModel, old_key: Seq<char>, new_key: Seq<char>) -> SettingsModel {
    let rest = m.devices.remove(old_key);
    SettingsModel {
        devices: if rest.contains_key(new_key) {
            rest
        } else {
            rest.insert(new_key, m.devices[old_key])
        },
        ..m
    }
}

/// A key under which a peer can be kept.
pub fn checked_peer_key(key: String) -> (r: Result<String, IdentityError>)
    ensures
        match r {
            Ok(k) => !blank(key@) && k == key,
            Err(error) => blank(key@) && error == IdentityError::NoStableIdentity,
        },
{
    if is_blank(key.as_str()) {
        Err(IdentityError::NoStableIdentity)
    } else {
        Ok(key)
    }
}

fn known_device(settings: &PresentationSettings, key: &String) -> (d: DevicePresentation)
    ensures
        d@ == device_of(settings@, key@),
{
    match settings.devices.get(key) {
        Some(device) => {
            assert(settings@.devices[key@] == device@);
            DevicePresentation {
                friendly_name: device.friendly_name.clone(),
                image_path: device.image_path.clone(),
            }
        },
        None => {
            assert(!settings@.devices.contains_key(key@));
            DevicePresentation::default()
        },
    }
}

fn put_device(settings: &mut PresentationSettings, key: String, device: DevicePresentation)
    ensures
        final(settings)@ == (SettingsModel {
            devices: old(settings)@.devices.insert(key@, device@),
            ..old(settings)@
        }),
{
    let ghost before = settings@;
    settings.devices.insert(key, device);
    assert(settings@.devices =~= before.devices.insert(key@, device@));
}

impl IdentityStore {
    /// The names and pictures of some settings.
    pub fn new(settings: PresentationSettings) -> (s: IdentityStore)
        ensures
            s@ == settings@,
    {
        IdentityStore { settings }
    }

    pub fn settings(&self) -> (s: &PresentationSettings)
        ensures
            s@ == self@,
    {
        &self.settings
    }

    /// What is known of this device.
    pub fn local(&self) -> (d: &DevicePresentation)
        ensures
            d@ == self@.local_device,
    {
        &self.settings.local_device
    }

    /// What is known of a peer.
    pub fn peer(&self, key: &str) -> (r: Option<&DevicePresentation>)
        ensures
            match r {
                Some(d) => self@.devices.contains_key(key@) && d@ == self@.devices[key@],
                None => !self@.devices.contains_key(key@),
            },
    {
        let key: String = key.to_owned();
        let r: Option<&DevicePresentation> = self.settings.devices.get(&key);
        assert(r is Some ==> self@.devices[key@] == r->Some_0@);
        r
    }

    fn edit(&self) -> (e: Edit)
        ensures
            e.next@ == self@,
            e.replaced@.len() == 0,
            e.added@.len() == 0,
    {
        Edit { next: self.settings.copy(), replaced: String::new(), added: String::new() }
    }

    pub fn set_local_name(&self, name: String) -> (e: Edit)
        ensures
            e.next@ == local_renamed(self@, name@),
            e.replaced@.len() == 0,
            e.added@.len() == 0,
    {
        let mut e: Edit = self.edit();
        e.next.local_device.friendly_name = name;
        e
    }

    pub fn set_peer_name(&self, key: String, name: String) -> (r: Result<Edit, IdentityError>)
        ensures
            match r {
                Ok(e) => !blank(key@) && e.next@ == peer_renamed(self@, key@, name@)
                    && e.replaced@.len() == 0 && e.added@.len() == 0,
                Err(error) => blank(key@) && error == IdentityError::NoStableIdentity,
            },
    {
        let key: String = match checked_peer_key(key) {
            Ok(key) => key,
            Err(error) => {
                return Err(error);
            },
        };
        let mut e: Edit = self.edit();
        let mut device: DevicePresentation = known_device(&self.settings, &key);
        device.friendly_name = name;
        put_device(&mut e.next, key, device);
        Ok(e)
    }

    /// Another picture for this device; `owned` is its copy.
    pub fn set_local_image(&self, owned: String) -> (e: Edit)
        ensures
            e.next@ == local_pictured(self@, owned@),
            e.replaced@ == self@.local_device.image_path,
            e.added@ == owned@,
    {
        let mut e: Edit = self.edit();
        e.replaced = self.settings.local_device.image_path.clone();
        e.added = owned.clone();
        e.next.local_device.image_path = owned;
        e
    }

    /// Another picture for a peer; `owned` is its copy.
    pub fn set_peer_image(&self, key: String, owned: String) -> (r: Result<Edit, IdentityError>)
        ensures
            match r {
                Ok(e) => !blank(key@) && e.next@ == peer_pictured(self@, key@, owned@)
                    && e.replaced@ == device_of(self@, key@).image_path && e.added@ == owned@,
                Err(error) => blank(key@) && error == IdentityError::NoStableIdentity,
            },
    {
        let key: String = match checked_peer_key(key) {
            Ok(key) => key,
            Err(error) => {
                return Err(error);
            },
        };
        let mut e: Edit = self.edit();
        let mut device: DevicePresentation = known_device(&self.settings, &key);
        e.replaced = device.image_path;
        e.added = owned.clone();
        device.image_path = owned;
        put_device(&mut e.next, key, device);
        Ok(e)
    }

    /// What is kept under one key is kept under another from now on.
    pub fn migrate_key(&self, old_key: &str, new_key: &str) -> (r: Option<Edit>)
        ensures
            match r {
                Some(e) => migrates(self@, old_key@, new_key@) && e.next@ == migrated(
                    self@,
                    old_key@,
                    new_key@,
                ) && e.replaced@.len() == 0 && e.added@.len() == 0,
                None => !migrates(self@, old_key@, new_key@),
            },
    {
        if old_key.unicode_len() == 0 || new_key.unicode_len() == 0 || same_text(old_key, new_key) {
            return None;
        }
        let from: String = old_key.to_owned();
        if self.settings.devices.get(&from).is_none() {
            assert(!self@.devices.contains_key(old_key@));
            return None;
        }
        let device: DevicePresentation = known_device(&self.settings, &from);
        let mut e: Edit = self.edit();
        let ghost before = e.next@;
        e.next.devices.remove(&from);
        assert(e.next@.devices =~= before.devices.remove(old_key@));
        let to: String = new_key.to_owned();
        if e.next.devices.get(&to).is_none() {
            put_device(&mut e.next, to, device);
        }
        assert(e.next@.devices =~= migrated(self@, old_key@, new_key@).devices);
        Some(e)
    }

    pub fn clear_local_image(&self) -> (e: Edit)
        ensures
            e.next@ == local_pictured(self@, Seq::empty()),
            e.replaced@ == self@.local_device.image_path,
            e.added@.len() == 0,
    {
        let mut e: Edit = self.edit();
        e.replaced = self.settings.local_device.image_path.clone();
        e.next.local_device.image_path = String::new();
        assert(e.next@.local_device.image_path =~= Seq::<char>::empty());
        e
    }

    pub fn clear_peer_image(&self, key: &str) -> (r: Result<Edit, IdentityError>)
        ensures
            match r {
                Ok(e) => !blank(key@) && e.next@ == peer_unpictured(self@, key@) && e.replaced@
                    == device_of(self@, key@).image_path && e.added@.len() == 0,
                Err(error) => blank(key@) && error == IdentityError::NoStableIdentity,
            },
    {
        let key: String = match checked_peer_key(key.to_owned()) {
            Ok(key) => key,
            Err(error) => {
                return Err(error);
            },
        };
        let mut e: Edit = self.edit();
        let known: bool = self.settings.devices.get(&key).is_some();
        let mut device: DevicePresentation = known_device(&self.settings, &key);
        e.replaced = device.image_path;
        if known {
            device.image_path = String::new();
            assert(device@.image_path =~= Seq::<char>::empty());
            put_device(&mut e.next, key, device);
        }
        Ok(e)
    }

    /// Ends an edit, once its settings were saved or could not be: the store
    /// takes them or stays as it is. Returns the picture that is removed then:
    /// the one that was replaced, or the one that was to be added.
    pub fn finish(&mut self, e: Edit, saved: bool) -> (remove: String)
        ensures
            saved ==> final(self)@ == e.next@ && remove@ == e.replaced@,
            !saved ==> final(self)@ == old(self)@ && remove@ == e.added@,
    {
        if saved {
            self.settings = e.next;
            e.replaced
        } else {
            e.added
        }
    }
}

/// A picture is removed only once nothing names it: neither the settings that
/// were saved, where the edit replaced it, nor those that stay, where the edit
/// that brought it failed.
pub proof fn law_removed_pictures_are_not_in_use(m: SettingsModel, key: Seq<char>, owned: Seq<char>)
    requires
        owned != m.local_device.image_path,
        owned != device_of(m, key).image_path,
    ensures
        local_pictured(m, owned).local_device.image_path != m.local_device.image_path,
        m.local_device.image_path != owned,
        device_of(peer_pictured(m, key, owned), key).image_path != device_of(m, key).image_path,
        device_of(m, key).image_path != owned,
{
}

/// Giving a name never changes a picture, and giving a picture never changes a
/// name.
pub proof fn law_names_and_pictures_are_apart(
    m: SettingsModel,
    key: Seq<char>,
    other: Seq<char>,
    text: Seq<char>,
)
    ensures
        device_of(peer_renamed(m, key, text), key).image_path == device_of(m, key).image_path,
        device_of(peer_pictured(m, key, text), key).friendly_name == device_of(
            m,
            key,
        ).friendly_name,
        other != key ==> device_of(peer_renamed(m, key, text), other) == device_of(m, other),
        other != key ==> device_of(peer_pictured(m, key, text), other) == device_of(m, other),
{
}

/// Migrating twice is migrating once, and what was kept under the new key stays.
pub proof fn law_migration_settles(m: SettingsModel, old_key: Seq<char>, new_key: Seq<char>)
    requires
        migrates(m, old_key, new_key),
    ensures
        !migrates(migrated(m, old_key, new_key), old_key, new_key),
        m.devices.contains_key(new_key) ==> migrated(m, old_key, new_key).devices[new_key]
            == m.devices[new_key],
        !m.devices.contains_key(new_key) ==> migrated(m, old_key, new_key).devices[new_key]
            == m.devices[old_key],
{
}

// ---------------------------------------------------------------------------
// Confirmed profiles
// ---------------------------------------------------------------------------

/// The key under which a confirmed peer is kept.
pub open spec fn certificate_key(fingerprint: Seq<char>) -> Seq<char> {
    "cert:"@ + fingerprint
}

/// The migration of a client: from the key of its configuration to that of its
/// certificate, once the daemon has confirmed it.
pub fn confirmed_migration(state: &AppViewState, client: &ClientView, legacy: &String) -> (r: Option<
    (String, String),
>)
    ensures
        match r {
            Some(keys) => state@.client_fingerprints.contains_key(client.handle) && keys.0@
                == legacy@ && keys.1@ == certificate_key(
                state@.client_fingerprints[client.handle]@,
            ),
            None => !state@.client_fingerprints.contains_key(client.handle),
        },
{
    match state.client_fingerprints.get(&client.handle) {
        Some(fingerprint) => {
            let mut key: String = "cert:".to_owned();
            key.push_str(fingerprint.as_str());
            Some((legacy.clone(), key))
        },
        None => None,
    }
}

} // verus!
