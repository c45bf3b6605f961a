//! What the dashboard shows of its state: the snapshot in words and rows.
//!
//! Texts that are translated stand here as the keys of their translations;
//! pictures stand as the place where the window finds them.
use crate::api::ClientHandle;
use crate::api::IpAddr;
use crate::api::SocketAddr;
use crate::finding::first_below;
use crate::finding::lemma_found;
use crate::text::blank;
use crate::text::decimal;
use crate::text::decimal_of;
use crate::text::is_blank;
use crate::text::same_text;
use crate::ui::labels::format_peer_commit;
use crate::ui::labels::hex_text;
use crate::ui::labels::index_of_position;
use crate::ui::labels::position_index;
use crate::ui::models::AppViewState;
use crate::ui::models::ClientModel;
use crate::ui::models::ClientView;
use crate::ui::models::ViewModel;
use crate::ui::settings::PresentationSettings;
use crate::ui::settings::SettingsModel;
use vstd::prelude::*;

verus! {

/// A text, or the key of its translation.
#[derive(Clone, Debug, PartialEq, Eq)]
pub enum Label {
    Text(String),
    Key(String),
}

pub ghost enum LabelModel {
    Text(Seq<char>),
    Key(Seq<char>),
}

impl View for Label {
    type V = LabelModel;

    open spec fn view(&self) -> LabelModel {
        match *self {
            Label::Text(s) => LabelModel::Text(s@),
            Label::Key(s) => LabelModel::Key(s@),
        }
    }
}

/// Where the picture of a device is found: it has none, it is that of this
/// device, that of a row of clients, or what the peer sent of itself.
#[derive(Clone, Copy, Debug, PartialEq, Eq, Structural)]
pub enum DeviceImage {
    Nowhere,
    Local,
    Client(usize),
    Avatar,
}

/// The text, or nothing.
pub open spec fn or_empty(s: Option<String>) -> Seq<char> {
    match s {
        Some(s) => s@,
        None => Seq::empty(),
    }
}

pub fn text_or_empty(s: &Option<String>) -> (r: String)
    ensures
        r@ == or_empty(*s),
{
    match s {
        Some(s) => s.clone(),
        None => {
            let r: String = String::new();
            assert(r@ =~= Seq::<char>::empty());
            r
        },
    }
}

fn empty() -> (r: String)
    ensures
        r@ == Seq::<char>::empty(),
{
    let r: String = String::new();
    assert(r@ =~= Seq::<char>::empty());
    r
}

// ---------------------------------------------------------------------------
// Clients
// ---------------------------------------------------------------------------

/// A row of the list of clients.
#[derive(Clone, Debug, PartialEq, Eq)]
pub struct ClientItem {
    pub handle: String,
    pub hostname: String,
    pub identity_key: String,
    pub display_name: String,
    /// The picture that the user chose for the client; empty where they chose
    /// none.
    pub image_path: String,
    pub has_custom_image: bool,
    pub fixed_ips: Vec<IpAddr>,
    pub port: i32,
    pub position: i32,
    /// How many clients stand before this one at its position.
    pub zone_index: i32,
    pub active: bool,
    pub active_address: Option<SocketAddr>,
    pub alive: bool,
    pub remote_ready: bool,
    pub dns_ips: Vec<IpAddr>,
    pub ips: Vec<IpAddr>,
    pub has_pressed_keys: bool,
    pub resolving: bool,
    pub peer_commit: String,
    pub authorized: bool,
    pub fingerprint: String,
}

/// The certificate of a client, where it is known.
pub open spec fn fingerprint_of(v: ViewModel, handle: ClientHandle) -> Seq<char> {
    if v.client_fingerprints.contains_key(handle) {
        v.client_fingerprints[handle]@
    } else {
        Seq::empty()
    }
}

/// The key under which the user's choices for a certificate are kept.
pub open spec fn identity_key_of(fingerprint: Seq<char>) -> Seq<char> {
    if fingerprint.len() == 0 {
        Seq::empty()
    } else {
        "cert:"@ + fingerprint
    }
}

/// The name of a client: what the user called it, else what it calls itself,
/// else the name of its host. Blank names do not count.
pub open spec fn client_name(c: ClientModel, v: ViewModel, s: SettingsModel) -> Seq<char> {
    let fingerprint = fingerprint_of(v, c.handle);
    let key = identity_key_of(fingerprint);
    if s.devices.contains_key(key) && !blank(s.devices[key].friendly_name) {
        s.devices[key].friendly_name
    } else if v.peer_profiles.contains_key(fingerprint) && !blank(
        v.peer_profiles[fingerprint].display_name@,
    ) {
        v.peer_profiles[fingerprint].display_name@
    } else {
        or_empty(c.hostname)
    }
}

/// The picture that the user chose for a client.
pub open spec fn client_picture(c: ClientModel, v: ViewModel, s: SettingsModel) -> Seq<char> {
    let key = identity_key_of(fingerprint_of(v, c.handle));
    if s.devices.contains_key(key) {
        s.devices[key].image_path
    } else {
        Seq::empty()
    }
}

/// Whether a peer sent a picture of itself.
pub open spec fn has_avatar(v: ViewModel, fingerprint: Seq<char>) -> bool {
    v.peer_profiles.contains_key(fingerprint) && v.peer_profiles[fingerprint].avatar is Some
}

/// How a row shows a client; `loaded` says that the chosen picture could be
/// read, `before` how many clients stand before it at its position.
pub open spec fn client_shown(
    item: ClientItem,
    c: ClientModel,
    v: ViewModel,
    s: SettingsModel,
    loaded: bool,
    before: nat,
) -> bool {
    let fingerprint = fingerprint_of(v, c.handle);
    &&& item.handle@ == decimal(c.handle as nat)
    &&& item.hostname@ == or_empty(c.hostname)
    &&& item.identity_key@ == identity_key_of(fingerprint)
    &&& item.display_name@ == client_name(c, v, s)
    &&& item.image_path@ == client_picture(c, v, s)
    &&& item.has_custom_image == (client_picture(c, v, s).len() > 0 && loaded || has_avatar(
        v,
        fingerprint,
    ))
    &&& item.fixed_ips@ == c.fixed_ips
    &&& item.port == c.port
    &&& item.position == index_of_position(c.position)
    &&& item.zone_index == (if before > i32::MAX {
        i32::MAX as int
    } else {
        before as int
    })
    &&& item.active == c.active
    &&& item.active_address == c.active_addr
    &&& item.alive == (v.status.connected && c.alive)
    &&& item.remote_ready == (v.status.connected && c.remote_ready)
    &&& item.dns_ips@ == c.dns_ips
    &&& item.ips@ == c.ips
    &&& item.has_pressed_keys == c.has_pressed_keys
    &&& item.resolving == c.resolving
    &&& item.peer_commit@ == (match c.peer_commit {
        Some(commit) => hex_text(commit@),
        None => Seq::empty(),
    })
    &&& item.authorized == v.authorization.contains_key(fingerprint)
    &&& item.fingerprint@ == fingerprint
}

/// How many of some clients stand at a position.
pub open spec fn at_position(rows: Seq<(ClientHandle, ClientView)>, position: int) -> nat
    decreases rows.len(),
{
    if rows.len() == 0 {
        0
    } else {
        at_position(rows.drop_last(), position) + (if index_of_position(rows.last().1.position)
            == position {
            1nat
        } else {
            0nat
        })
    }
}

fn copy_addresses(ips: &Vec<IpAddr>) -> (r: Vec<IpAddr>)
    ensures
        r@ == ips@,
{
    let mut r: Vec<IpAddr> = Vec::new();
    let mut i: usize = 0;
    while i < ips.len()
        invariant
            i <= ips@.len(),
            r@ == ips@.take(i as int),
        decreases ips@.len() - i,
    {
        r.push(ips[i]);
        i = i + 1;
        assert(r@ =~= ips@.take(i as int));
    }
    assert(r@ =~= ips@);
    r
}

fn known_fingerprint(state: &AppViewState, handle: ClientHandle) -> (s: String)
    ensures
        s@ == fingerprint_of(state@, handle),
{
    match state.client_fingerprints.get(&handle) {
        Some(s) => s.clone(),
        None => empty(),
    }
}

fn key_for(fingerprint: &String) -> (s: String)
    ensures
        s@ == identity_key_of(fingerprint@),
{
    if fingerprint.as_str().unicode_len() == 0 {
        empty()
    } else {
        let mut s: String = "cert:".to_owned();
        s.push_str(fingerprint.as_str());
        s
    }
}

/// The picture that the user chose for a client, to be read by the window.
pub fn chosen_picture(
    client: &ClientView,
    state: &AppViewState,
    settings: &PresentationSettings,
) -> (s: String)
    ensures
        s@ == client_picture(client@, state@, settings@),
{
    let key: String = key_for(&known_fingerprint(state, client.handle));
    match settings.devices.get(&key) {
        Some(device) => {
            assert(settings@.devices[key@] == device@);
            device.image_path.clone()
        },
        None => {
            assert(!settings@.devices.contains_key(key@));
            empty()
        },
    }
}

fn shown_name(
    client: &ClientView,
    fingerprint: &String,
    key: &String,
    state: &AppViewState,
    settings: &PresentationSettings,
) -> (s: String)
    requires
        fingerprint@ == fingerprint_of(state@, client.handle),
        key@ == identity_key_of(fingerprint@),
    ensures
        s@ == client_name(client@, state@, settings@),
{
    match settings.devices.get(key) {
        Some(device) => {
            assert(settings@.devices[key@] == device@);
            if !is_blank(device.friendly_name.as_str()) {
                return device.friendly_name.clone();
            }
        },
        None => {
            assert(!settings@.devices.contains_key(key@));
        },
    }
    match state.peer_profiles.get(fingerprint) {
        Some(profile) => {
            if !is_blank(profile.display_name.as_str()) {
                return profile.display_name.clone();
            }
        },
        None => {},
    }
    text_or_empty(&client.hostname)
}

fn avatar_known(state: &AppViewState, fingerprint: &String) -> (r: bool)
    ensures
        r == has_avatar(state@, fingerprint@),
{
    match state.peer_profiles.get(fingerprint) {
        Some(profile) => profile.avatar.is_some(),
        None => false,
    }
}

fn client_item(
    client: &ClientView,
    state: &AppViewState,
    settings: &PresentationSettings,
    loaded: bool,
    zone_index: i32,
) -> (item: ClientItem)
    requires
        zone_index >= 0,
    ensures
        forall|before: nat|
            zone_index == (if before > i32::MAX {
                i32::MAX as int
            } else {
                before as int
            }) ==> #[trigger] client_shown(
                item,
                client@,
                state@,
                settings@,
                loaded,
                before,
            ),
{
    let fingerprint: String = known_fingerprint(state, client.handle);
    let identity_key: String = key_for(&fingerprint);
    let display_name: String = shown_name(client, &fingerprint, &identity_key, state, settings);
    let image_path: String = chosen_picture(client, state, settings);
    let has_custom_image: bool = (image_path.as_str().unicode_len() > 0 && loaded) || avatar_known(
        state,
        &fingerprint,
    );
    let peer_commit: String = match client.peer_commit {
        Some(commit) => format_peer_commit(commit),
        None => empty(),
    };
    let authorized: bool = state.authorization.get(&fingerprint).is_some();
    ClientItem {
        handle: decimal_of(client.handle),
        hostname: text_or_empty(&client.hostname),
        identity_key,
        display_name,
        image_path,
        has_custom_image,
        fixed_ips: copy_addresses(&client.fixed_ips),
        port: client.port as i32,
        position: position_index(client.position),
        zone_index,
        active: client.active,
        active_address: client.active_addr,
        alive: state.status.connected && client.alive,
        remote_ready: state.status.connected && client.remote_ready,
        dns_ips: copy_addresses(&client.dns_ips),
        ips: copy_addresses(&client.ips),
        has_pressed_keys: client.has_pressed_keys,
        resolving: client.resolving,
        peer_commit,
        authorized,
        fingerprint,
    }
}

/// The deepest position, at least one.
pub open spec fn zone_depth(rows: Seq<(ClientHandle, ClientView)>) -> int {
    let a = capped_count(at_position(rows, 0));
    let b = capped_count(at_position(rows, 1));
    let c = capped_count(at_position(rows, 2));
    let d = capped_count(at_position(rows, 3));
    larger(larger(larger(larger(a, b), c), d), 1)
}

pub open spec fn larger(a: int, b: int) -> int {
    if a > b {
        a
    } else {
        b
    }
}

pub open spec fn capped_count(n: nat) -> int {
    if n > i32::MAX {
        i32::MAX as int
    } else {
        n as int
    }
}

fn larger_of(a: i32, b: i32) -> (r: i32)
    ensures
        r == larger(a as int, b as int),
{
    if a > b {
        a
    } else {
        b
    }
}

fn one_more(n: i32) -> (r: i32)
    ensures
        r == (if n == i32::MAX {
            n as int
        } else {
            n + 1
        }),
{
    if n == i32::MAX {
        n
    } else {
        n + 1
    }
}

/// The rows of the list of clients, in the order of their numbers.
pub open spec fn clients_shown(
    items: Seq<ClientItem>,
    rows: Seq<(ClientHandle, ClientView)>,
    v: ViewModel,
    s: SettingsModel,
    loaded: Seq<bool>,
) -> bool {
    &&& items.len() == rows.len()
    &&& forall|i: int|
        0 <= i < items.len() ==> client_shown(
            #[trigger] items[i],
            rows[i].1@,
            v,
            s,
            i < loaded.len() && loaded[i],
            at_position(rows.take(i), index_of_position(rows[i].1.position) as int),
        )
}

/// The rows of the list of clients, and how deep the deepest position is;
/// `loaded` says of each which of the chosen pictures could be read.
pub fn project_clients(
    state: &AppViewState,
    settings: &PresentationSettings,
    loaded: &Vec<bool>,
) -> (r: (Vec<ClientItem>, i32))
    ensures
        clients_shown(r.0@, state.clients.sequence(), state@, settings@, loaded@),
        r.1 == zone_depth(state.clients.sequence()),
{
    let n: usize = state.clients.len();
    let ghost rows = state.clients.sequence();
    let mut items: Vec<ClientItem> = Vec::new();
    let mut left: i32 = 0;
    let mut right: i32 = 0;
    let mut top: i32 = 0;
    let mut bottom: i32 = 0;
    let mut i: usize = 0;
    assert(rows.take(0) =~= Seq::<(ClientHandle, ClientView)>::empty());
    while i < n
        invariant
            n == rows.len(),
            rows == state.clients.sequence(),
            i <= n,
            items@.len() == i,
            left == capped_count(at_position(rows.take(i as int), 0)),
            right == capped_count(at_position(rows.take(i as int), 1)),
            top == capped_count(at_position(rows.take(i as int), 2)),
            bottom == capped_count(at_position(rows.take(i as int), 3)),
            forall|j: int|
                0 <= j < i ==> client_shown(
                    #[trigger] items@[j],
                    rows[j].1@,
                    state@,
                    settings@,
                    j < loaded@.len() && loaded@[j],
                    at_position(rows.take(j), index_of_position(rows[j].1.position) as int),
                ),
        decreases n - i,
    {
        let row: &(ClientHandle, ClientView) = state.clients.row(i);
        let position: i32 = position_index(row.1.position);
        assert(rows.take(i + 1).drop_last() =~= rows.take(i as int));
        let zone_index: i32 = if position == 0 {
            left
        } else if position == 1 {
            right
        } else if position == 2 {
            top
        } else {
            bottom
        };
        let is_loaded: bool = i < loaded.len() && loaded[i];
        let item: ClientItem = client_item(&row.1, state, settings, is_loaded, zone_index);
        let ghost before = at_position(
            rows.take(i as int),
            index_of_position(rows[i as int].1.position) as int,
        );
        assert(client_shown(item, row.1@, state@, settings@, is_loaded, before));
        items.push(item);
        if position == 0 {
            left = one_more(left);
        } else if position == 1 {
            right = one_more(right);
        } else if position == 2 {
            top = one_more(top);
        } else {
            bottom = one_more(bottom);
        }
        i = i + 1;
    }
    assert(rows.take(i as int) =~= rows);
    let depth: i32 = larger_of(
        larger_of(larger_of(larger_of(left, right), top), bottom),
        1,
    );
    (items, depth)
}

// ---------------------------------------------------------------------------
// Devices by name
// ---------------------------------------------------------------------------

/// A label that says something: neither blank nor the fingerprint itself.
pub open spec fn telling(label: Seq<char>, origin: Seq<char>) -> bool {
    !blank(label) && label != origin
}

/// The row of a peer's certificate.
pub open spec fn is_row(items: Seq<ClientItem>, fingerprint: Seq<char>) -> spec_fn(int) -> bool {
    |i: int| items[i].fingerprint@ == fingerprint
}

/// The first row of a certificate.
pub open spec fn row_of(items: Seq<ClientItem>, fingerprint: Seq<char>) -> Option<int> {
    first_below(items.len() as int, is_row(items, fingerprint))
}

/// This device itself.
pub open spec fn is_local(v: ViewModel, origin: Seq<char>) -> bool {
    v.public_key_fingerprint is Some && v.public_key_fingerprint->Some_0@ == origin
}

/// The name of the device that a row or this device itself gives it.
pub open spec fn own_label(
    items: Seq<ClientItem>,
    v: ViewModel,
    local_name: Seq<char>,
    origin: Seq<char>,
) -> Option<Seq<char>> {
    if is_local(v, origin) {
        Some(local_name)
    } else {
        match row_of(items, origin) {
            Some(i) => Some(items[i].display_name@),
            None => None,
        }
    }
}

/// The label of a device: its own name, else what it calls itself, else the
/// description of its certificate, else what was recorded; a label that says
/// nothing does not count. Where there is none the device is unknown.
pub open spec fn device_label(
    items: Seq<ClientItem>,
    v: ViewModel,
    local_name: Seq<char>,
    origin: Seq<char>,
    recorded: Option<Seq<char>>,
) -> LabelModel {
    let own = own_label(items, v, local_name, origin);
    if own is Some && telling(own->Some_0, origin) {
        LabelModel::Text(own->Some_0)
    } else if v.peer_profiles.contains_key(origin) && telling(
        v.peer_profiles[origin].display_name@,
        origin,
    ) {
        LabelModel::Text(v.peer_profiles[origin].display_name@)
    } else if v.authorization.contains_key(origin) && telling(v.authorization[origin]@, origin) {
        LabelModel::Text(v.authorization[origin]@)
    } else if recorded is Some && telling(recorded->Some_0, origin) {
        LabelModel::Text(recorded->Some_0)
    } else {
        LabelModel::Key("history-unknown-device"@)
    }
}

/// Where the picture of a device is found.
pub open spec fn device_picture(
    items: Seq<ClientItem>,
    v: ViewModel,
    has_local_image: bool,
    origin: Seq<char>,
) -> DeviceImage {
    if is_local(v, origin) {
        if has_local_image {
            DeviceImage::Local
        } else {
            DeviceImage::Nowhere
        }
    } else if row_of(items, origin) is Some && items[row_of(
        items,
        origin,
    )->Some_0].has_custom_image {
        DeviceImage::Client(row_of(items, origin)->Some_0 as usize)
    } else if has_avatar(v, origin) {
        DeviceImage::Avatar
    } else {
        DeviceImage::Nowhere
    }
}

fn is_telling(label: &str, origin: &str) -> (r: bool)
    ensures
        r == telling(label@, origin@),
{
    !is_blank(label) && !same_text(label, origin)
}

fn find_row(items: &Vec<ClientItem>, fingerprint: &str) -> (r: Option<usize>)
    ensures
        match r {
            Some(i) => row_of(items@, fingerprint@) == Some(i as int) && i < items@.len(),
            None => row_of(items@, fingerprint@) is None,
        },
{
    let mut i: usize = 0;
    while i < items.len()
        invariant
            i <= items@.len(),
            first_below(i as int, is_row(items@, fingerprint@)) is None,
        decreases items@.len() - i,
    {
        if same_text(items[i].fingerprint.as_str(), fingerprint) {
            proof {
                lemma_found(i + 1, items@.len() as int, is_row(items@, fingerprint@));
            }
            return Some(i);
        }
        i = i + 1;
    }
    None
}

/// The window's own device: its name, and whether it has a picture.
#[derive(Clone, Debug, PartialEq, Eq)]
pub struct LocalDevice {
    pub name: String,
    pub has_image: bool,
}

/// How a device is presented: its label, and where its picture is found.
pub fn device_presentation(
    items: &Vec<ClientItem>,
    state: &AppViewState,
    local: &LocalDevice,
    origin: &str,
    recorded_label: Option<&str>,
) -> (r: (Label, DeviceImage))
    ensures
        r.0@ == device_label(
            items@,
            state@,
            local.name@,
            origin@,
            match recorded_label {
                Some(label) => Some(label@),
                None => None,
            },
        ),
        r.1 == device_picture(items@, state@, local.has_image, origin@),
{
    let is_own: bool = match &state.public_key_fingerprint {
        Some(fingerprint) => same_text(fingerprint.as_str(), origin),
        None => false,
    };
    let row: Option<usize> = find_row(items, origin);
    let key: String = origin.to_owned();
    let image: DeviceImage = if is_own {
        if local.has_image {
            DeviceImage::Local
        } else {
            DeviceImage::Nowhere
        }
    } else {
        let custom: Option<usize> = match row {
            Some(i) => if items[i].has_custom_image {
                Some(i)
            } else {
                None
            },
            None => None,
        };
        match custom {
            Some(i) => DeviceImage::Client(i),
            None => if avatar_known(state, &key) {
                DeviceImage::Avatar
            } else {
                DeviceImage::Nowhere
            },
        }
    };
    if is_own {
        if is_telling(local.name.as_str(), origin) {
            return (Label::Text(local.name.clone()), image);
        }
    } else {
        match row {
            Some(i) => {
                if is_telling(items[i].display_name.as_str(), origin) {
                    return (Label::Text(items[i].display_name.clone()), image);
                }
            },
            None => {},
        }
    }
    match state.peer_profiles.get(&key) {
        Some(profile) => {
            if is_telling(profile.display_name.as_str(), origin) {
                return (Label::Text(profile.display_name.clone()), image);
            }
        },
        None => {},
    }
    match state.authorization.get(&key) {
        Some(label) => {
            if is_telling(label.as_str(), origin) {
                return (Label::Text(label.clone()), image);
            }
        },
        None => {},
    }
    match recorded_label {
        Some(label) => {
            if is_telling(label, origin) {
                return (Label::Text(label.to_owned()), image);
            }
        },
        None => {},
    }
    (Label::Key("history-unknown-device".to_owned()), image)
}

} // verus!
