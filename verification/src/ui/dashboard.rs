//! The dashboard as a whole: everything that is shown of a snapshot.
use crate::api::DaemonInfo;
use crate::api::DiscoveredPeer;
use crate::api::IpAddr;
use crate::api::PluginStatus;
use crate::table::text_below;
use crate::table::Key;
use crate::text::decimal;
use crate::text::decimal_of;
use crate::text::same_text;
use crate::ui::history_view::cache_after;
use crate::ui::history_view::history_shown;
use crate::ui::history_view::project_history;
use crate::ui::history_view::shown_records;
use crate::ui::history_view::HistoryView;
use crate::ui::history_view::ThumbnailCache;
use crate::ui::labels::daemon_origin_id;
use crate::ui::labels::format_uptime;
use crate::ui::labels::health_text;
use crate::ui::labels::join;
use crate::ui::labels::joined;
use crate::ui::labels::origin_text;
use crate::ui::labels::plugin_health_id;
use crate::ui::labels::transport_label;
use crate::ui::labels::transport_text;
use crate::ui::labels::uptime_text;
use crate::ui::labels::views;
use crate::ui::manual::dialog_shown;
use crate::ui::manual::form_shown;
use crate::ui::manual::manual_view_shown;
use crate::ui::manual::project;
use crate::ui::manual::ManualView;
use crate::ui::manual::OfferDialog;
use crate::ui::manual::ReceiveForm;
use crate::ui::models::AppViewState;
use crate::ui::models::ViewModel;
use crate::ui::projection::clients_shown;
use crate::ui::projection::or_empty;
use crate::ui::projection::project_clients;
use crate::ui::projection::text_or_empty;
use crate::ui::projection::zone_depth;
use crate::ui::projection::ClientItem;
use crate::ui::projection::LocalDevice;
use crate::ui::settings::PresentationSettings;
use crate::ui::settings::SettingsModel;
use crate::ui::transfers::all_rows;
use crate::ui::transfers::project_transfers;
use crate::ui::transfers::sorted_into;
use crate::ui::transfers::TransferItem;
use crate::ui::transfers::TransferLists;
use crate::wire::signed32;
use vstd::prelude::*;

verus! {

// ---------------------------------------------------------------------------
// The daemon
// ---------------------------------------------------------------------------

/// What is shown of the daemon; all empty while it has not said anything of
/// itself.
#[derive(Clone, Debug, PartialEq, Eq)]
pub struct DaemonCard {
    pub known: bool,
    pub version: String,
    pub origin: String,
    pub pid: String,
    pub uptime: String,
    pub executable: String,
    pub socket: String,
    pub config_dir: String,
    pub port: i32,
    pub capture_backend: String,
    pub emulation_backend: String,
}

pub open spec fn daemon_shown(card: DaemonCard, daemon: Option<DaemonInfo>) -> bool {
    match daemon {
        Some(d) => {
            &&& card.known
            &&& card.version@ == d.version@
            &&& card.origin@ == origin_text(Some(d.origin))
            &&& card.pid@ == decimal(d.pid as nat)
            &&& card.uptime@ == uptime_text(d.uptime_seconds, true)
            &&& card.executable@ == d.executable@
            &&& card.socket@ == d.socket@
            &&& card.config_dir@ == d.config_dir@
            &&& card.port == d.port
            &&& card.capture_backend@ == or_empty(d.capture_backend)
            &&& card.emulation_backend@ == or_empty(d.emulation_backend)
        },
        None => {
            &&& !card.known
            &&& card.version@.len() == 0
            &&& card.origin@ == origin_text(None)
            &&& card.pid@.len() == 0
            &&& card.uptime@.len() == 0
            &&& card.executable@.len() == 0
            &&& card.socket@.len() == 0
            &&& card.config_dir@.len() == 0
            &&& card.port == 0
            &&& card.capture_backend@.len() == 0
            &&& card.emulation_backend@.len() == 0
        },
    }
}

/// What is shown of the daemon.
pub fn project_daemon(daemon: Option<&DaemonInfo>) -> (card: DaemonCard)
    ensures
        daemon_shown(
            card,
            match daemon {
                Some(d) => Some(*d),
                None => None,
            },
        ),
{
    match daemon {
        Some(d) => DaemonCard {
            known: true,
            version: d.version.clone(),
            origin: daemon_origin_id(Some(d.origin)).to_owned(),
            pid: decimal_of(d.pid as u64),
            uptime: format_uptime(d.uptime_seconds, true),
            executable: d.executable.clone(),
            socket: d.socket.clone(),
            config_dir: d.config_dir.clone(),
            port: d.port as i32,
            capture_backend: text_or_empty(&d.capture_backend),
            emulation_backend: text_or_empty(&d.emulation_backend),
        },
        None => DaemonCard {
            known: false,
            version: String::new(),
            origin: daemon_origin_id(None).to_owned(),
            pid: String::new(),
            uptime: format_uptime(0, false),
            executable: String::new(),
            socket: String::new(),
            config_dir: String::new(),
            port: 0,
            capture_backend: String::new(),
            emulation_backend: String::new(),
        },
    }
}

// ---------------------------------------------------------------------------
// Plugins
// ---------------------------------------------------------------------------

/// A row of the list of plugins.
#[derive(Clone, Debug, PartialEq, Eq)]
pub struct PluginEntry {
    pub id: String,
    pub name: String,
    pub description: String,
    pub version: String,
    pub author: String,
    pub homepage: String,
    pub source: String,
    pub update_url: String,
    pub license: String,
    pub mime_types: String,
    pub bundled: bool,
    pub manifest_path: String,
    pub executable: String,
    pub installed: bool,
    pub enabled: bool,
    pub running: bool,
    pub health: String,
    pub restarts: i32,
    pub pid: String,
    pub protocol_version: i32,
    pub supported_protocol_version: i32,
    pub error: String,
}

pub open spec fn plugin_shown(e: PluginEntry, p: PluginStatus) -> bool {
    &&& e.id@ == p.id@
    &&& e.name@ == p.name@
    &&& e.description@ == p.description@
    &&& e.version@ == p.version@
    &&& e.author@ == p.author@
    &&& e.homepage@ == or_empty(p.homepage)
    &&& e.source@ == or_empty(p.source)
    &&& e.update_url@ == or_empty(p.update_url)
    &&& e.license@ == or_empty(p.license)
    &&& e.mime_types@ == joined(views(p.mime_types@), ", "@)
    &&& e.bundled == p.bundled
    &&& e.manifest_path@ == p.manifest_path@
    &&& e.executable@ == p.executable@
    &&& e.installed == p.installed
    &&& e.enabled == p.enabled
    &&& e.running == p.running
    &&& e.health@ == health_text(p.health)
    &&& e.restarts == signed32(p.restarts)
    &&& e.pid@ == (match p.pid {
        Some(pid) => decimal(pid as nat),
        None => Seq::empty(),
    })
    &&& e.protocol_version == signed32(p.protocol_version)
    &&& e.supported_protocol_version == signed32(p.supported_protocol_version)
    &&& e.error@ == or_empty(p.error)
}

fn signed(x: u32) -> (r: i32)
    ensures
        r == signed32(x),
{
    if x >= 0x8000_0000 {
        (x as i64 - 0x1_0000_0000) as i32
    } else {
        x as i32
    }
}

/// A row of the list of plugins.
pub fn plugin_entry(p: &PluginStatus) -> (e: PluginEntry)
    ensures
        plugin_shown(e, *p),
{
    let pid: String = match p.pid {
        Some(pid) => decimal_of(pid as u64),
        None => {
            let s: String = String::new();
            assert(s@ =~= Seq::<char>::empty());
            s
        },
    };
    PluginEntry {
        id: p.id.clone(),
        name: p.name.clone(),
        description: p.description.clone(),
        version: p.version.clone(),
        author: p.author.clone(),
        homepage: text_or_empty(&p.homepage),
        source: text_or_empty(&p.source),
        update_url: text_or_empty(&p.update_url),
        license: text_or_empty(&p.license),
        mime_types: join(&p.mime_types, ", "),
        bundled: p.bundled,
        manifest_path: p.manifest_path.clone(),
        executable: p.executable.clone(),
        installed: p.installed,
        enabled: p.enabled,
        running: p.running,
        health: plugin_health_id(p.health).to_owned(),
        restarts: signed(p.restarts),
        pid,
        protocol_version: signed(p.protocol_version),
        supported_protocol_version: signed(p.supported_protocol_version),
        error: text_or_empty(&p.error),
    }
}

pub open spec fn plugins_shown(entries: Seq<PluginEntry>, plugins: Seq<PluginStatus>) -> bool {
    &&& entries.len() == plugins.len()
    &&& forall|i: int|
        0 <= i < plugins.len() ==> plugin_shown(#[trigger] entries[i], plugins[i])
}

fn project_plugins(plugins: &Vec<PluginStatus>) -> (entries: Vec<PluginEntry>)
    ensures
        plugins_shown(entries@, plugins@),
{
    let mut entries: Vec<PluginEntry> = Vec::new();
    let mut i: usize = 0;
    while i < plugins.len()
        invariant
            i <= plugins@.len(),
            entries@.len() == i,
            forall|j: int| 0 <= j < i ==> plugin_shown(#[trigger] entries@[j], plugins@[j]),
        decreases plugins@.len() - i,
    {
        entries.push(plugin_entry(&plugins[i]));
        i = i + 1;
    }
    entries
}

// ---------------------------------------------------------------------------
// Devices that were found
// ---------------------------------------------------------------------------

/// A row of the list of devices that were found on the network.
#[derive(Clone, Debug, PartialEq, Eq)]
pub struct DiscoveredPeerItem {
    pub id: String,
    pub display_name: String,
    pub addresses: Vec<IpAddr>,
    pub port: i32,
}

pub open spec fn found_shown(items: Seq<DiscoveredPeerItem>, peers: Seq<DiscoveredPeer>) -> bool {
    &&& items.len() == peers.len()
    &&& forall|i: int|
        0 <= i < peers.len() ==> (#[trigger] items[i]).id@ == peers[i].id@
            && items[i].display_name@ == peers[i].display_name@ && items[i].addresses@
            == peers[i].addresses@ && items[i].port == peers[i].port
}

fn project_found(peers: &Vec<DiscoveredPeer>) -> (items: Vec<DiscoveredPeerItem>)
    ensures
        found_shown(items@, peers@),
{
    let mut items: Vec<DiscoveredPeerItem> = Vec::new();
    let mut i: usize = 0;
    while i < peers.len()
        invariant
            i <= peers@.len(),
            items@.len() == i,
            forall|j: int|
                0 <= j < i ==> (#[trigger] items@[j]).id@ == peers@[j].id@
                    && items@[j].display_name@ == peers@[j].display_name@ && items@[j].addresses@
                    == peers@[j].addresses@ && items@[j].port == peers@[j].port,
        decreases peers@.len() - i,
    {
        let mut addresses: Vec<IpAddr> = Vec::new();
        let mut k: usize = 0;
        while k < peers[i].addresses.len()
            invariant
                i < peers@.len(),
                k <= peers@[i as int].addresses@.len(),
                addresses@ == peers@[i as int].addresses@.take(k as int),
            decreases peers@[i as int].addresses@.len() - k,
        {
            addresses.push(peers[i].addresses[k]);
            k = k + 1;
            assert(addresses@ =~= peers@[i as int].addresses@.take(k as int));
        }
        assert(addresses@ =~= peers@[i as int].addresses@);
        items.push(
            DiscoveredPeerItem {
                id: peers[i].id.clone(),
                display_name: peers[i].display_name.clone(),
                addresses,
                port: peers[i].port as i32,
            },
        );
        i = i + 1;
    }
    items
}

// ---------------------------------------------------------------------------
// Authorized keys
// ---------------------------------------------------------------------------

/// The authorized keys in order, each once.
pub open spec fn keys_shown(keys: Seq<String>, v: ViewModel) -> bool {
    &&& forall|i: int, j: int|
        0 <= i < j < keys.len() ==> text_below((#[trigger] keys[i])@, (#[trigger] keys[j])@)
    &&& forall|i: int| 0 <= i < keys.len() ==> v.authorization.contains_key((#[trigger] keys[i])@)
    &&& forall|k: Seq<char>| #[trigger]
        v.authorization.contains_key(k) ==> exists|i: int|
            0 <= i < keys.len() && (#[trigger] keys[i])@ == k
}

fn project_keys(state: &AppViewState) -> (keys: Vec<String>)
    ensures
        keys_shown(keys@, state@),
{
    let n: usize = state.authorization.len();
    let ghost rows = state.authorization.sequence();
    let mut keys: Vec<String> = Vec::new();
    let mut i: usize = 0;
    while i < n
        invariant
            n == rows.len(),
            rows == state.authorization.sequence(),
            i <= n,
            keys@.len() == i,
            forall|j: int|
                0 <= j < i ==> (#[trigger] keys@[j])@ == rows[j].0@
                    && state@.authorization.contains_key(keys@[j]@),
        decreases n - i,
    {
        let row: &(String, String) = state.authorization.row(i);
        keys.push(row.0.clone());
        i = i + 1;
    }
    proof {
        crate::table::lemma_mapping(rows);
        assert forall|a: int, b: int| 0 <= a < b < keys@.len() implies text_below(
            (#[trigger] keys@[a])@,
            (#[trigger] keys@[b])@,
        ) by {
            assert(<String as Key>::below(rows[a].0.model(), rows[b].0.model()));
        }
        assert forall|k: Seq<char>| #[trigger]
            state@.authorization.contains_key(k) implies exists|i: int|
            0 <= i < keys@.len() && (#[trigger] keys@[i])@ == k by {
            assert(crate::table::has_row(rows, k));
            let j = choose|j: int| 0 <= j < rows.len() && (#[trigger] rows[j]).0.model() == k;
            assert(keys@[j]@ == k);
        }
    }
    keys
}

// ---------------------------------------------------------------------------
// The whole
// ---------------------------------------------------------------------------

/// The switches and short texts of the dashboard.
#[derive(Clone, Debug, PartialEq, Eq)]
pub struct StatusCard {
    pub connected: bool,
    pub reconnecting: bool,
    pub transport_status: String,
    pub capture_enabled: bool,
    pub input_sharing: bool,
    pub input_sharing_known: bool,
    pub emulation_enabled: bool,
    pub capture_supported: bool,
    pub emulation_supported: bool,
    pub clipboard_text_enabled: bool,
    pub clipboard_image_enabled: bool,
    pub clipboard_files_enabled: bool,
    pub clipboard_files_supported: bool,
    pub listen_port: i32,
    pub local_fingerprint: String,
    pub regenerated_fingerprint: String,
    pub pending_fingerprint: String,
    pub diagnostics_error: String,
}

pub open spec fn status_shown(c: StatusCard, v: ViewModel) -> bool {
    &&& c.connected == v.status.connected
    &&& c.reconnecting == v.status.reconnecting
    &&& c.transport_status@ == transport_text(v.status.transport)
    &&& c.capture_enabled == v.input_health.capture
    &&& c.input_sharing == (v.input_sharing == Some(true))
    &&& c.input_sharing_known == (v.status.connected && v.input_sharing is Some)
    &&& c.emulation_enabled == v.input_health.emulation
    &&& c.capture_supported == v.capabilities.capture
    &&& c.emulation_supported == v.capabilities.emulation
    &&& c.clipboard_text_enabled == v.clipboard.text
    &&& c.clipboard_image_enabled == v.clipboard.image
    &&& c.clipboard_files_enabled == v.clipboard.files
    &&& c.clipboard_files_supported == v.capabilities.clipboard_files
    &&& c.listen_port == v.diagnostics.port
    &&& c.local_fingerprint@ == or_empty(v.public_key_fingerprint)
    &&& c.regenerated_fingerprint@ == or_empty(v.pending_identity_fingerprint)
    &&& c.pending_fingerprint@ == (match v.connection_attempt {
        Some(attempt) => attempt.fingerprint@,
        None => Seq::empty(),
    })
    &&& c.diagnostics_error@ == or_empty(v.diagnostics.last_error)
}

/// The switches and short texts of the dashboard.
pub fn project_status(state: &AppViewState) -> (c: StatusCard)
    ensures
        status_shown(c, state@),
{
    let pending_fingerprint: String = match &state.connection_attempt {
        Some(attempt) => attempt.fingerprint.clone(),
        None => {
            let s: String = String::new();
            assert(s@ =~= Seq::<char>::empty());
            s
        },
    };
    let input_sharing: bool = match state.input_sharing {
        Some(enabled) => enabled,
        None => false,
    };
    StatusCard {
        connected: state.status.connected,
        reconnecting: state.status.reconnecting,
        transport_status: transport_label(state.status.transport).to_owned(),
        capture_enabled: state.input_health.capture,
        input_sharing,
        input_sharing_known: state.status.connected && state.input_sharing.is_some(),
        emulation_enabled: state.input_health.emulation,
        capture_supported: state.capabilities.capture,
        emulation_supported: state.capabilities.emulation,
        clipboard_text_enabled: state.clipboard.text,
        clipboard_image_enabled: state.clipboard.image,
        clipboard_files_enabled: state.clipboard.files,
        clipboard_files_supported: state.capabilities.clipboard_files,
        listen_port: state.diagnostics.port as i32,
        local_fingerprint: text_or_empty(&state.public_key_fingerprint),
        regenerated_fingerprint: text_or_empty(&state.pending_identity_fingerprint),
        pending_fingerprint,
        diagnostics_error: text_or_empty(&state.diagnostics.last_error),
    }
}

/// Everything that is shown of a snapshot.
#[derive(Debug)]
pub struct Dashboard {
    pub status: StatusCard,
    pub daemon: DaemonCard,
    pub clients: Vec<ClientItem>,
    pub peer_zone_depth: i32,
    pub discovered_peers: Vec<DiscoveredPeerItem>,
    pub transfers: TransferLists,
    pub manual: ManualView,
    pub plugins: Vec<PluginEntry>,
    pub authorized_keys: Vec<String>,
    /// Shown only on the page of the history.
    pub history: Option<HistoryView>,
}

/// What the window remembers from one projection to the next.
#[derive(Debug)]
pub struct Window {
    pub local: LocalDevice,
    pub form: ReceiveForm,
    pub dialog: OfferDialog,
    pub thumbnails: ThumbnailCache,
}

/// Everything that is shown of a snapshot.
pub open spec fn dashboard_shown(
    d: Dashboard,
    state: AppViewState,
    daemon: Option<DaemonInfo>,
    s: SettingsModel,
    loaded: Seq<bool>,
    before: Window,
) -> bool {
    let v = state@;
    &&& status_shown(d.status, v)
    &&& daemon_shown(d.daemon, daemon)
    &&& clients_shown(d.clients@, state.clients.sequence(), v, s, loaded)
    &&& d.peer_zone_depth == zone_depth(state.clients.sequence())
    &&& found_shown(d.discovered_peers@, v.discovered_peers)
    &&& exists|rows: Seq<TransferItem>|
        {
            &&& #[trigger] all_rows(
                rows,
                state.transfers.sequence(),
                state.manual_transfers.sequence(),
                d.clients@,
                v,
                before.local,
            )
            &&& sorted_into(d.transfers, rows)
        }
    &&& manual_view_shown(
        d.manual,
        state.clients.sequence(),
        state.connected_devices.sequence(),
        d.clients@,
        v,
        before.local,
    )
    &&& plugins_shown(d.plugins@, v.plugins)
    &&& keys_shown(d.authorized_keys@, v)
    &&& match d.history {
        Some(h) => v.page@ == "history"@ && history_shown(
            h,
            d.clients@,
            v,
            before.local,
            before.thumbnails@,
        ),
        None => v.page@ != "history"@,
    }
}

/// What the window remembers after that.
pub open spec fn window_after(before: Window, after: Window, v: ViewModel) -> bool {
    &&& after.local == before.local
    &&& form_shown(before.form, after.form, v)
    &&& dialog_shown(before.dialog, after.dialog, v)
    &&& after.thumbnails@ == (if v.page@ == "history"@ {
        cache_after(
            before.thumbnails@,
            shown_records(v),
            v,
            shown_records(v).len() as int,
        )
    } else {
        before.thumbnails@
    })
}

/// Everything that is shown of a snapshot. `loaded` says of each client whether
/// the picture that the user chose for it could be read.
pub fn project_app_state(
    state: &AppViewState,
    daemon: Option<&DaemonInfo>,
    settings: &PresentationSettings,
    loaded: &Vec<bool>,
    window: &mut Window,
) -> (d: Dashboard)
    ensures
        dashboard_shown(
            d,
            *state,
            match daemon {
                Some(d) => Some(*d),
                None => None,
            },
            settings@,
            loaded@,
            *old(window),
        ),
        window_after(*old(window), *final(window), state@),
{
    let ghost before = *window;
    let (clients, peer_zone_depth) = project_clients(state, settings, loaded);
    let transfers: TransferLists = project_transfers(state, &clients, &window.local);
    let ghost rows = choose|rows: Seq<TransferItem>|
        {
            &&& #[trigger] all_rows(
                rows,
                state.transfers.sequence(),
                state.manual_transfers.sequence(),
                clients@,
                state@,
                before.local,
            )
            &&& sorted_into(transfers, rows)
        };
    let manual: ManualView = project(
        state,
        &clients,
        &window.local,
        &mut window.form,
        &mut window.dialog,
    );
    let history: Option<HistoryView> = if same_text(state.navigation.page.as_str(), "history") {
        Some(project_history(state, &clients, &window.local, &mut window.thumbnails))
    } else {
        None
    };
    let d: Dashboard = Dashboard {
        status: project_status(state),
        daemon: project_daemon(daemon),
        clients,
        peer_zone_depth,
        discovered_peers: project_found(&state.discovered_peers),
        transfers,
        manual,
        plugins: project_plugins(&state.plugins),
        authorized_keys: project_keys(state),
        history,
    };
    assert(all_rows(
        rows,
        state.transfers.sequence(),
        state.manual_transfers.sequence(),
        d.clients@,
        state@,
        before.local,
    ));
    assert(sorted_into(d.transfers, rows));
    d
}

/// Nothing is shown as alive or ready while the daemon is away.
pub proof fn law_nothing_is_alive_without_the_daemon(
    d: Dashboard,
    state: AppViewState,
    daemon: Option<DaemonInfo>,
    s: SettingsModel,
    loaded: Seq<bool>,
    before: Window,
    i: int,
)
    requires
        dashboard_shown(d, state, daemon, s, loaded, before),
        !state@.status.connected,
        0 <= i < d.clients@.len(),
    ensures
        !d.clients@[i].alive,
        !d.clients@[i].remote_ready,
        !d.status.input_sharing_known,
        d.manual.offer is None,
        forall|j: int| 0 <= j < d.manual.peers@.len() ==> !(#[trigger] d.manual.peers@[j]).connected,
{
}

} // verus!
