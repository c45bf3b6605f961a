//! The state of the dashboard: every event of the daemon reduces into it.
use crate::api::ClientConfig;
use crate::api::ClientHandle;
use crate::api::ClientState;
use crate::api::ClipboardSettings;
use crate::api::ClipboardTransferStatus;
use crate::api::DeviceProfile;
use crate::api::DiscoveredPeer;
use crate::api::FileReceiveSettings;
use crate::api::FrontendEvent;
use crate::api::FrontendRequest;
use crate::api::HistoryEventId;
use crate::api::HistoryImage;
use crate::api::HistoryPage;
use crate::api::HistoryRecordSummary;
use crate::api::IncomingFileOffer;
use crate::api::IpAddr;
use crate::api::ManualTransferState;
use crate::api::ManualTransferStatus;
use crate::api::PluginStatus;
use crate::api::Position;
use crate::api::SocketAddr;
use crate::table::lemma_mapping;
use crate::table::mapping;
use crate::table::ordered;
use crate::table::Key;
use crate::table::Table;
use crate::text::same_text;
use vstd::prelude::*;

verus! {

/// The page that is shown.
#[derive(Clone, Debug, PartialEq, Eq)]
pub struct Navigation {
    pub page: String,
}

#[derive(Clone, Copy, Debug, PartialEq, Eq, Structural)]
pub struct InputHealth {
    pub capture: bool,
    pub emulation: bool,
}

/// Service health surfaced in the diagnostics page.
#[derive(Clone, Debug, PartialEq, Eq)]
pub struct Diagnostics {
    /// Most recent error reported by the daemon or the transport.
    pub last_error: Option<String>,
    /// Port the daemon currently listens on.
    pub port: u16,
    /// Client the daemon reported as unknown, if any.
    pub missing_client: Option<ClientHandle>,
    /// Logging configuration in force on the daemon.
    ///
    /// Empty until the daemon answers, so the page can distinguish
    /// "not yet known" from "no overrides".
    pub log_spec: String,
}

/// Whether the dashboard currently has a usable daemon connection.
#[derive(Clone, Copy, Debug, PartialEq, Eq, Structural)]
pub enum TransportLifecycle {
    Unavailable,
    Reconnecting,
    Ready,
}

#[derive(Clone, Copy, Debug, PartialEq, Eq, Structural)]
pub struct AppStatus {
    pub connected: bool,
    pub reconnecting: bool,
    pub transport: TransportLifecycle,
}

#[derive(Clone, Debug, PartialEq, Eq)]
pub struct Preferences {
    pub locale: String,
}

#[derive(Clone, Copy, Debug, PartialEq, Eq, Structural)]
pub struct PlatformCapabilities {
    pub capture: bool,
    pub emulation: bool,
    pub clipboard_files: bool,
}

impl Default for PlatformCapabilities {
    /// Nothing is offered.
    fn default() -> (c: PlatformCapabilities)
        ensures
            c == (PlatformCapabilities { capture: false, emulation: false, clipboard_files: false }),
    {
        PlatformCapabilities { capture: false, emulation: false, clipboard_files: false }
    }
}

/// A configured client, as the dashboard shows it.
#[derive(Clone, Debug, PartialEq, Eq)]
pub struct ClientView {
    pub handle: ClientHandle,
    pub hostname: Option<String>,
    pub fixed_ips: Vec<IpAddr>,
    pub port: u16,
    pub position: Position,
    pub enter_hook: Option<String>,
    pub active: bool,
    pub active_addr: Option<SocketAddr>,
    pub alive: bool,
    pub remote_ready: bool,
    pub dns_ips: Vec<IpAddr>,
    pub ips: Vec<IpAddr>,
    pub has_pressed_keys: bool,
    pub resolving: bool,
    pub peer_commit: Option<[u8; 8]>,
}

#[derive(Clone, Debug, PartialEq, Eq)]
pub struct DeviceView {
    pub fingerprint: String,
    pub position: Option<Position>,
}

#[derive(Clone, Debug, PartialEq, Eq)]
pub struct ConnectionAttemptView {
    pub fingerprint: String,
}

/// What happened to the connection with the daemon.
#[derive(Clone, Copy, Debug, PartialEq, Eq, Structural)]
pub enum TransportLifecycleEvent {
    DaemonUnavailable,
    Reconnecting,
    Resynchronized,
}

/// How many manual transfers are kept in view.
pub const MAX_MANUAL_TRANSFERS: usize = 132;

/// How many records a page of the history holds.
pub const HISTORY_PAGE_SIZE: u32 = 50;

/// Everything that the dashboard shows.
#[derive(Debug)]
pub struct AppViewState {
    pub navigation: Navigation,
    /// Plugins reported by the daemon, in its display order.
    ///
    /// Held verbatim: the daemon is authoritative, so the interface renders
    /// this rather than deriving plugin state of its own.
    pub plugins: Vec<PluginStatus>,
    pub clients: Table<ClientHandle, ClientView>,
    pub client_fingerprints: Table<ClientHandle, String>,
    pub peer_profiles: Table<String, DeviceProfile>,
    pub discovered_peers: Vec<DiscoveredPeer>,
    pub authorization: Table<String, String>,
    pub input_health: InputHealth,
    pub input_sharing: Option<bool>,
    pub clipboard: ClipboardSettings,
    pub history_page: Option<HistoryPage>,
    pub history_query: String,
    pub history_error: Option<String>,
    pub history_clear_result: Option<(u64, u32)>,
    pub history_clear_error: Option<String>,
    pub history_query_pending: bool,
    pub history_clear_pending: bool,
    pub history_refresh_needed: bool,
    pub history_images: Table<(String, u64), HistoryImage>,
    pub transfers: Table<(u64, u64), ClipboardTransferStatus>,
    pub file_receive_settings: Option<FileReceiveSettings>,
    pub file_receive_error: Option<String>,
    pub file_receive_pending: bool,
    pub manual_transfers: Table<(String, u64), ManualTransferStatus>,
    pub pending_file_offers: Vec<IncomingFileOffer>,
    pub manual_transfer_error: Option<String>,
    pub diagnostics: Diagnostics,
    pub status: AppStatus,
    pub preferences: Preferences,
    pub capabilities: PlatformCapabilities,
    pub public_key_fingerprint: Option<String>,
    pub pending_identity_fingerprint: Option<String>,
    pub connection_attempt: Option<ConnectionAttemptView>,
    pub connected_devices: Table<SocketAddr, DeviceView>,
    pub incoming_devices: Table<SocketAddr, DeviceView>,
    pub last_disconnected_device: Option<SocketAddr>,
}

// ---------------------------------------------------------------------------
// The state as a mathematical value
// ---------------------------------------------------------------------------

/// A client with its addresses as sequences.
pub ghost struct ClientModel {
    pub handle: ClientHandle,
    pub hostname: Option<String>,
    pub fixed_ips: Seq<IpAddr>,
    pub port: u16,
    pub position: Position,
    pub enter_hook: Option<String>,
    pub active: bool,
    pub active_addr: Option<SocketAddr>,
    pub alive: bool,
    pub remote_ready: bool,
    pub dns_ips: Seq<IpAddr>,
    pub ips: Seq<IpAddr>,
    pub has_pressed_keys: bool,
    pub resolving: bool,
    pub peer_commit: Option<[u8; 8]>,
}

impl View for ClientView {
    type V = ClientModel;

    open spec fn view(&self) -> ClientModel {
        ClientModel {
            handle: self.handle,
            hostname: self.hostname,
            fixed_ips: self.fixed_ips@,
            port: self.port,
            position: self.position,
            enter_hook: self.enter_hook,
            active: self.active,
            active_addr: self.active_addr,
            alive: self.alive,
            remote_ready: self.remote_ready,
            dns_ips: self.dns_ips@,
            ips: self.ips@,
            has_pressed_keys: self.has_pressed_keys,
            resolving: self.resolving,
            peer_commit: self.peer_commit,
        }
    }
}

/// A page of the history with its records as a sequence.
pub ghost struct PageModel {
    pub query: Seq<char>,
    pub offset: u64,
    pub next_offset: Option<u64>,
    pub records: Seq<HistoryRecordSummary>,
}

impl View for HistoryPage {
    type V = PageModel;

    open spec fn view(&self) -> PageModel {
        PageModel {
            query: self.query@,
            offset: self.offset,
            next_offset: self.next_offset,
            records: self.records@,
        }
    }
}

pub open spec fn page_of(p: Option<HistoryPage>) -> Option<PageModel> {
    match p {
        Some(p) => Some(p@),
        None => None,
    }
}

/// The state of the dashboard, with its tables as maps.
pub ghost struct ViewModel {
    pub page: String,
    pub plugins: Seq<PluginStatus>,
    pub clients: Map<ClientHandle, ClientModel>,
    pub client_fingerprints: Map<ClientHandle, String>,
    pub peer_profiles: Map<Seq<char>, DeviceProfile>,
    pub discovered_peers: Seq<DiscoveredPeer>,
    pub authorization: Map<Seq<char>, String>,
    pub input_health: InputHealth,
    pub input_sharing: Option<bool>,
    pub clipboard: ClipboardSettings,
    pub history_page: Option<PageModel>,
    pub history_query: String,
    pub history_error: Option<String>,
    pub history_clear_result: Option<(u64, u32)>,
    pub history_clear_error: Option<String>,
    pub history_query_pending: bool,
    pub history_clear_pending: bool,
    pub history_refresh_needed: bool,
    pub history_images: Map<(Seq<char>, u64), HistoryImage>,
    pub transfers: Map<(u64, u64), ClipboardTransferStatus>,
    pub file_receive_settings: Option<FileReceiveSettings>,
    pub file_receive_error: Option<String>,
    pub file_receive_pending: bool,
    pub manual_transfers: Map<(Seq<char>, u64), ManualTransferStatus>,
    pub pending_file_offers: Seq<IncomingFileOffer>,
    pub manual_transfer_error: Option<String>,
    pub diagnostics: Diagnostics,
    pub status: AppStatus,
    pub preferences: Preferences,
    pub capabilities: PlatformCapabilities,
    pub public_key_fingerprint: Option<String>,
    pub pending_identity_fingerprint: Option<String>,
    pub connection_attempt: Option<ConnectionAttemptView>,
    pub connected_devices: Map<SocketAddr, DeviceView>,
    pub incoming_devices: Map<SocketAddr, DeviceView>,
    pub last_disconnected_device: Option<SocketAddr>,
}

/// Clients with their addresses as sequences.
pub open spec fn clients_of(m: Map<ClientHandle, ClientView>) -> Map<ClientHandle, ClientModel> {
    m.map_values(|c: ClientView| c@)
}

impl View for AppViewState {
    type V = ViewModel;

    open spec fn view(&self) -> ViewModel {
        ViewModel {
            page: self.navigation.page,
            plugins: self.plugins@,
            clients: clients_of(self.clients@),
            client_fingerprints: self.client_fingerprints@,
            peer_profiles: self.peer_profiles@,
            discovered_peers: self.discovered_peers@,
            authorization: self.authorization@,
            input_health: self.input_health,
            input_sharing: self.input_sharing,
            clipboard: self.clipboard,
            history_page: page_of(self.history_page),
            history_query: self.history_query,
            history_error: self.history_error,
            history_clear_result: self.history_clear_result,
            history_clear_error: self.history_clear_error,
            history_query_pending: self.history_query_pending,
            history_clear_pending: self.history_clear_pending,
            history_refresh_needed: self.history_refresh_needed,
            history_images: self.history_images@,
            transfers: self.transfers@,
            file_receive_settings: self.file_receive_settings,
            file_receive_error: self.file_receive_error,
            file_receive_pending: self.file_receive_pending,
            manual_transfers: self.manual_transfers@,
            pending_file_offers: self.pending_file_offers@,
            manual_transfer_error: self.manual_transfer_error,
            diagnostics: self.diagnostics,
            status: self.status,
            preferences: self.preferences,
            capabilities: self.capabilities,
            public_key_fingerprint: self.public_key_fingerprint,
            pending_identity_fingerprint: self.pending_identity_fingerprint,
            connection_attempt: self.connection_attempt,
            connected_devices: self.connected_devices@,
            incoming_devices: self.incoming_devices@,
            last_disconnected_device: self.last_disconnected_device,
        }
    }
}

// ---------------------------------------------------------------------------
// Addresses in order
// ---------------------------------------------------------------------------

/// An address put in front of the first one that it precedes.
pub open spec fn with_address(sorted: Seq<IpAddr>, ip: IpAddr) -> Seq<IpAddr>
    decreases sorted.len(),
{
    if sorted.len() > 0 && IpAddr::precedes(ip, sorted.last()) {
        with_address(sorted.drop_last(), ip).push(sorted.last())
    } else {
        sorted.push(ip)
    }
}

/// Addresses in ascending order.
pub open spec fn sorted_addresses(ips: Seq<IpAddr>) -> Seq<IpAddr>
    decreases ips.len(),
{
    if ips.len() == 0 {
        Seq::empty()
    } else {
        with_address(sorted_addresses(ips.drop_last()), ips.last())
    }
}

fn insert_address(sorted: &mut Vec<IpAddr>, ip: IpAddr)
    ensures
        final(sorted)@ == with_address(old(sorted)@, ip),
    decreases old(sorted)@.len(),
{
    if sorted.len() > 0 && ip.is_before(sorted[sorted.len() - 1]) {
        let last: IpAddr = sorted[sorted.len() - 1];
        sorted.pop();
        insert_address(sorted, ip);
        sorted.push(last);
    } else {
        sorted.push(ip);
    }
}

fn sort_addresses(ips: &Vec<IpAddr>) -> (r: Vec<IpAddr>)
    ensures
        r@ == sorted_addresses(ips@),
{
    let mut r: Vec<IpAddr> = Vec::new();
    let mut i: usize = 0;
    while i < ips.len()
        invariant
            i <= ips@.len(),
            r@ == sorted_addresses(ips@.take(i as int)),
        decreases ips@.len() - i,
    {
        insert_address(&mut r, ips[i]);
        assert(ips@.take(i + 1).drop_last() =~= ips@.take(i as int));
        i = i + 1;
    }
    assert(ips@.take(ips@.len() as int) =~= ips@);
    r
}

/// The addresses of a client are shown in ascending order, each as often as the
/// daemon gave it.
pub proof fn law_addresses_are_sorted(ips: Seq<IpAddr>)
    ensures
        sorted_addresses(ips).to_multiset() =~= ips.to_multiset(),
        forall|i: int, j: int|
            0 <= i < j < ips.len() ==> !IpAddr::precedes(
                #[trigger] sorted_addresses(ips)[j],
                #[trigger] sorted_addresses(ips)[i],
            ),
        sorted_addresses(ips).len() == ips.len(),
    decreases ips.len(),
{
    broadcast use vstd::seq_lib::group_to_multiset_ensures;

    if ips.len() > 0 {
        law_addresses_are_sorted(ips.drop_last());
        lemma_with_address(sorted_addresses(ips.drop_last()), ips.last());
        assert(ips =~= ips.drop_last().push(ips.last()));
    }
}

proof fn lemma_with_address(sorted: Seq<IpAddr>, ip: IpAddr)
    requires
        forall|i: int, j: int|
            0 <= i < j < sorted.len() ==> !IpAddr::precedes(
                #[trigger] sorted[j],
                #[trigger] sorted[i],
            ),
    ensures
        with_address(sorted, ip).len() == sorted.len() + 1,
        with_address(sorted, ip).to_multiset() =~= sorted.to_multiset().insert(ip),
        forall|i: int, j: int|
            0 <= i < j < sorted.len() + 1 ==> !IpAddr::precedes(
                #[trigger] with_address(sorted, ip)[j],
                #[trigger] with_address(sorted, ip)[i],
            ),
        forall|i: int|
            0 <= i < sorted.len() + 1 ==> #[trigger] with_address(sorted, ip)[i] == ip
                || sorted.contains(with_address(sorted, ip)[i]),
    decreases sorted.len(),
{
    broadcast use vstd::seq_lib::group_to_multiset_ensures;

    let r = with_address(sorted, ip);
    if sorted.len() > 0 && IpAddr::precedes(ip, sorted.last()) {
        let front = sorted.drop_last();
        lemma_with_address(front, ip);
        assert(sorted =~= front.push(sorted.last()));
        assert forall|i: int| 0 <= i < sorted.len() + 1 implies #[trigger] r[i] == ip
            || sorted.contains(r[i]) by {
            if i == sorted.len() {
                assert(sorted[sorted.len() - 1] == r[i]);
            } else {
                assert(r[i] == with_address(front, ip)[i]);
                if r[i] != ip {
                    assert(front.contains(r[i]));
                    let w = choose|w: int| 0 <= w < front.len() && front[w] == r[i];
                    assert(sorted[w] == r[i]);
                }
            }
        }
        assert forall|i: int, j: int| 0 <= i < j < sorted.len() + 1 implies !IpAddr::precedes(
            #[trigger] r[j],
            #[trigger] r[i],
        ) by {
            if j == sorted.len() {
                assert(r[i] == with_address(front, ip)[i]);
                if r[i] != ip {
                    assert(front.contains(r[i]));
                    let w = choose|w: int| 0 <= w < front.len() && front[w] == r[i];
                    assert(sorted[w] == r[i]);
                    assert(!IpAddr::precedes(sorted[sorted.len() - 1], sorted[w]));
                }
            } else {
                assert(r[j] == with_address(front, ip)[j]);
                assert(r[i] == with_address(front, ip)[i]);
            }
        }
    } else {
        assert forall|i: int, j: int| 0 <= i < j < sorted.len() + 1 implies !IpAddr::precedes(
            #[trigger] r[j],
            #[trigger] r[i],
        ) by {
            if j == sorted.len() && sorted.len() > 0 {
                if i < sorted.len() - 1 {
                    assert(!IpAddr::precedes(sorted[sorted.len() - 1], sorted[i]));
                }
            }
        }
        assert forall|i: int| 0 <= i < sorted.len() + 1 implies #[trigger] r[i] == ip
            || sorted.contains(r[i]) by {
            if i < sorted.len() {
                assert(sorted[i] == r[i]);
            }
        }
    }
}

// ---------------------------------------------------------------------------
// What an event does
// ---------------------------------------------------------------------------

/// A client as the daemon described it.
pub open spec fn client_model(h: ClientHandle, c: ClientConfig, s: ClientState) -> ClientModel {
    ClientModel {
        handle: h,
        hostname: c.hostname,
        fixed_ips: c.fix_ips@,
        port: c.port,
        position: c.pos,
        enter_hook: c.cmd,
        active: s.active,
        active_addr: s.active_addr,
        alive: s.alive,
        remote_ready: s.remote_ready,
        dns_ips: s.dns_ips@,
        ips: sorted_addresses(s.ips@),
        has_pressed_keys: s.has_pressed_keys,
        resolving: s.resolving,
        peer_commit: s.peer_commit,
    }
}

/// The clients of a list; of two with one handle, the later.
pub open spec fn enumerated(xs: Seq<(ClientHandle, ClientConfig, ClientState)>) -> Map<
    ClientHandle,
    ClientModel,
>
    decreases xs.len(),
{
    if xs.len() == 0 {
        Map::empty()
    } else {
        let x = xs.last();
        enumerated(xs.drop_last()).insert(x.0, client_model(x.0, x.1, x.2))
    }
}

/// The texts of a list by their keys; of two with one key, the later.
pub open spec fn texts_by_key(xs: Seq<(String, String)>) -> Map<Seq<char>, String>
    decreases xs.len(),
{
    if xs.len() == 0 {
        Map::empty()
    } else {
        texts_by_key(xs.drop_last()).insert(xs.last().0@, xs.last().1)
    }
}

/// The offer of one transfer of one peer.
pub open spec fn offer_is(o: IncomingFileOffer, peer: Seq<char>, id: u64) -> bool {
    o.peer_fingerprint@ == peer && o.transfer_id == id
}

/// The offers with one more; it replaces the first of the same transfer.
pub open spec fn offers_with(
    offers: Seq<IncomingFileOffer>,
    offer: IncomingFileOffer,
) -> Seq<IncomingFileOffer>
    decreases offers.len(),
{
    if offers.len() == 0 {
        seq![offer]
    } else if offer_is(offers[0], offer.peer_fingerprint@, offer.transfer_id) {
        seq![offer] + offers.drop_first()
    } else {
        seq![offers[0]] + offers_with(offers.drop_first(), offer)
    }
}

/// The offers of every other transfer.
pub open spec fn offers_without(
    offers: Seq<IncomingFileOffer>,
    peer: Seq<char>,
    id: u64,
) -> Seq<IncomingFileOffer>
    decreases offers.len(),
{
    if offers.len() == 0 {
        Seq::empty()
    } else {
        let front = offers_without(offers.drop_last(), peer, id);
        if offer_is(offers.last(), peer, id) {
            front
        } else {
            front.push(offers.last())
        }
    }
}

/// A transfer that nothing more will happen to.
pub open spec fn finished(s: ManualTransferState) -> bool {
    s is Completed || s is Declined || s is Cancelled || s is Failed
}

/// The key of the finished transfer with the smallest number; of two with one
/// number, the one whose peer comes first.
pub open spec fn is_oldest(
    m: Map<(Seq<char>, u64), ManualTransferStatus>,
    k: (Seq<char>, u64),
) -> bool {
    &&& m.contains_key(k)
    &&& finished(m[k].state)
    &&& forall|q: (Seq<char>, u64)|
        #![trigger m.contains_key(q)]
        m.contains_key(q) && finished(m[q].state) && q != k ==> m[k].transfer_id
            < m[q].transfer_id || (m[k].transfer_id == m[q].transfer_id && <(
            String,
            u64,
        ) as Key>::below(k, q))
}

/// The transfers that stay in view: while there are more than fit, the oldest
/// finished one leaves. Those that are not finished stay.
pub open spec fn kept_transfers(
    m: Map<(Seq<char>, u64), ManualTransferStatus>,
    steps: nat,
) -> Map<(Seq<char>, u64), ManualTransferStatus>
    decreases steps,
{
    if steps == 0 || m.len() <= MAX_MANUAL_TRANSFERS || !(exists|k: (Seq<char>, u64)|
        is_oldest(m, k)) {
        m
    } else {
        kept_transfers(
            m.remove(choose|k: (Seq<char>, u64)| is_oldest(m, k)),
            (steps - 1) as nat,
        )
    }
}

pub open spec fn same_event(a: HistoryEventId, b: HistoryEventId) -> bool {
    a.origin_device_id@ == b.origin_device_id@ && a.origin_sequence == b.origin_sequence
}

/// Some record is the one of an event.
pub open spec fn has_record(records: Seq<HistoryRecordSummary>, id: HistoryEventId) -> bool {
    exists|i: int| 0 <= i < records.len() && same_event((#[trigger] records[i]).event_id, id)
}

/// The records with further ones behind them, none twice.
pub open spec fn records_with(
    records: Seq<HistoryRecordSummary>,
    more: Seq<HistoryRecordSummary>,
) -> Seq<HistoryRecordSummary>
    decreases more.len(),
{
    if more.len() == 0 {
        records
    } else {
        let front = records_with(records, more.drop_last());
        if has_record(front, more.last().event_id) {
            front
        } else {
            front.push(more.last())
        }
    }
}

/// A further page continues the page of the same search; any other page stands
/// alone.
pub open spec fn continued(previous: Option<PageModel>, page: PageModel) -> PageModel {
    if page.offset > 0 && previous is Some && previous->Some_0.query == page.query {
        PageModel {
            records: records_with(previous->Some_0.records, page.records),
            offset: 0,
            ..page
        }
    } else {
        page
    }
}

/// The images of the records that are shown.
pub open spec fn images_for(
    images: Map<(Seq<char>, u64), HistoryImage>,
    records: Seq<HistoryRecordSummary>,
) -> Map<(Seq<char>, u64), HistoryImage> {
    Map::new(
        |k: (Seq<char>, u64)| images.contains_key(k) && shown(records, k),
        |k: (Seq<char>, u64)| images[k],
    )
}

/// Some record has the key of an image.
pub open spec fn shown(records: Seq<HistoryRecordSummary>, k: (Seq<char>, u64)) -> bool {
    exists|i: int|
        0 <= i < records.len() && (#[trigger] records[i]).event_id.origin_device_id@ == k.0
            && records[i].event_id.origin_sequence == k.1
}

/// The records with the first one of an event pinned or not.
pub open spec fn records_pinned(
    records: Seq<HistoryRecordSummary>,
    id: HistoryEventId,
    pinned: bool,
) -> Seq<HistoryRecordSummary>
    decreases records.len(),
{
    if records.len() == 0 {
        records
    } else if same_event(records[0].event_id, id) {
        seq![HistoryRecordSummary { pinned, ..records[0] }] + records.drop_first()
    } else {
        seq![records[0]] + records_pinned(records.drop_first(), id, pinned)
    }
}

/// The state after an event of the daemon.
pub open spec fn reduced(m: ViewModel, e: FrontendEvent) -> ViewModel {
    match e {
        FrontendEvent::Created(h, c, s) => ViewModel {
            clients: m.clients.insert(h, client_model(h, c, s)),
            ..m
        },
        FrontendEvent::State(h, c, s) => ViewModel {
            clients: m.clients.insert(h, client_model(h, c, s)),
            ..m
        },
        FrontendEvent::Deleted(h) => ViewModel {
            clients: m.clients.remove(h),
            client_fingerprints: m.client_fingerprints.remove(h),
            ..m
        },
        FrontendEvent::NoSuchClient(h) => ViewModel {
            diagnostics: Diagnostics { missing_client: Some(h), ..m.diagnostics },
            ..m
        },
        FrontendEvent::Enumerate(xs) => ViewModel { clients: enumerated(xs@), ..m },
        FrontendEvent::DiscoveredPeers(peers) => ViewModel { discovered_peers: peers@, ..m },
        FrontendEvent::ClientFingerprint { handle, fingerprint } => ViewModel {
            client_fingerprints: m.client_fingerprints.insert(handle, fingerprint),
            ..m
        },
        FrontendEvent::PeerDeviceProfile { fingerprint, profile, valid } => if valid {
            ViewModel { peer_profiles: m.peer_profiles.insert(fingerprint@, profile), ..m }
        } else {
            m
        },
        FrontendEvent::IdentityRegenerated { fingerprint } => ViewModel {
            pending_identity_fingerprint: Some(fingerprint),
            ..m
        },
        FrontendEvent::PortChanged(port, error) => ViewModel {
            diagnostics: Diagnostics { port, last_error: error, ..m.diagnostics },
            ..m
        },
        FrontendEvent::Error(error) => ViewModel {
            diagnostics: Diagnostics { last_error: Some(error), ..m.diagnostics },
            ..m
        },
        FrontendEvent::FileReceiveSettingsChanged(settings, error) => ViewModel {
            file_receive_settings: Some(settings),
            file_receive_error: error,
            file_receive_pending: false,
            ..m
        },
        FrontendEvent::IncomingFileOffer(offer) => ViewModel {
            pending_file_offers: offers_with(m.pending_file_offers, offer),
            ..m
        },
        FrontendEvent::ManualTransferStatus(status) => {
            let with = m.manual_transfers.insert(
                (status.peer_fingerprint@, status.transfer_id),
                status,
            );
            ViewModel {
                pending_file_offers: if status.state is AwaitingAcceptance {
                    m.pending_file_offers
                } else {
                    offers_without(
                        m.pending_file_offers,
                        status.peer_fingerprint@,
                        status.transfer_id,
                    )
                },
                manual_transfers: kept_transfers(with, with.len()),
                ..m
            }
        },
        FrontendEvent::ManualTransferError(error) => ViewModel {
            manual_transfer_error: Some(error),
            ..m
        },
        FrontendEvent::HistoryChanged => ViewModel { history_refresh_needed: true, ..m },
        FrontendEvent::HistoryPage(page) => if page.query@ == m.history_query@ {
            let shown = continued(m.history_page, page@);
            ViewModel {
                history_query_pending: false,
                history_images: images_for(m.history_images, shown.records),
                history_page: Some(shown),
                history_error: None,
                ..m
            }
        } else {
            ViewModel { history_query_pending: false, ..m }
        },
        FrontendEvent::HistoryPinResult { event_id, pinned, updated } => ViewModel {
            history_page: match m.history_page {
                Some(page) if updated => Some(
                    PageModel { records: records_pinned(page.records, event_id, pinned), ..page },
                ),
                other => other,
            },
            history_refresh_needed: true,
            ..m
        },
        FrontendEvent::HistoryImageResult { event_id, image, error } => ViewModel {
            history_error: error,
            history_images: if image is Some && m.history_page is Some && has_record(
                m.history_page->Some_0.records,
                event_id,
            ) {
                m.history_images.insert(
                    (event_id.origin_device_id@, event_id.origin_sequence),
                    image->Some_0,
                )
            } else {
                m.history_images
            },
            ..m
        },
        FrontendEvent::HistoryClearResult {
            operation_id,
            affected,
            peers_acknowledged,
            error,
        } => ViewModel {
            history_clear_result: Some((affected, peers_acknowledged)),
            history_clear_error: error,
            history_clear_pending: false,
            history_refresh_needed: true,
            ..m
        },
        FrontendEvent::HistoryError(error) => ViewModel {
            history_error: Some(error),
            history_query_pending: false,
            history_clear_pending: false,
            history_refresh_needed: false,
            ..m
        },
        FrontendEvent::CaptureStatus(enabled) => ViewModel {
            input_health: InputHealth { capture: enabled, ..m.input_health },
            ..m
        },
        FrontendEvent::InputSharing(enabled) => ViewModel { input_sharing: Some(enabled), ..m },
        FrontendEvent::EmulationStatus(enabled) => ViewModel {
            input_health: InputHealth { emulation: enabled, ..m.input_health },
            ..m
        },
        FrontendEvent::AuthorizedUpdated(keys) => ViewModel {
            authorization: texts_by_key(keys@),
            ..m
        },
        FrontendEvent::PublicKeyFingerprint(key) => ViewModel {
            public_key_fingerprint: Some(key),
            ..m
        },
        FrontendEvent::DeviceConnected { addr, fingerprint } => ViewModel {
            connected_devices: m.connected_devices.insert(
                addr,
                DeviceView { fingerprint, position: None },
            ),
            ..m
        },
        FrontendEvent::DeviceEntered { fingerprint, addr, pos } => ViewModel {
            incoming_devices: m.incoming_devices.insert(
                addr,
                DeviceView { fingerprint, position: Some(pos) },
            ),
            ..m
        },
        FrontendEvent::IncomingDisconnected(addr) => ViewModel {
            connected_devices: m.connected_devices.remove(addr),
            incoming_devices: m.incoming_devices.remove(addr),
            last_disconnected_device: Some(addr),
            ..m
        },
        FrontendEvent::ConnectionAttempt { fingerprint } => ViewModel {
            connection_attempt: Some(ConnectionAttemptView { fingerprint }),
            ..m
        },
        FrontendEvent::ClipboardSettings(settings) => ViewModel { clipboard: settings, ..m },
        FrontendEvent::ClipboardTransferStatus(status) => ViewModel {
            transfers: m.transfers.insert((status.transfer_id, status.file_id), status),
            ..m
        },
        FrontendEvent::LogSpec(spec) => ViewModel {
            diagnostics: Diagnostics { log_spec: spec, ..m.diagnostics },
            ..m
        },
        FrontendEvent::Plugins(plugins) => ViewModel { plugins: plugins@, ..m },
    }
}

/// The transfers that stay in view when the daemon is gone.
pub open spec fn finished_transfers(
    m: Map<(Seq<char>, u64), ManualTransferStatus>,
) -> Map<(Seq<char>, u64), ManualTransferStatus> {
    Map::new(
        |k: (Seq<char>, u64)| m.contains_key(k) && finished(m[k].state),
        |k: (Seq<char>, u64)| m[k],
    )
}

pub open spec fn transport_after(e: TransportLifecycleEvent) -> TransportLifecycle {
    match e {
        TransportLifecycleEvent::DaemonUnavailable => TransportLifecycle::Unavailable,
        TransportLifecycleEvent::Reconnecting => TransportLifecycle::Reconnecting,
        TransportLifecycleEvent::Resynchronized => TransportLifecycle::Ready,
    }
}

/// The state after a change of the connection. Without a connection whatever
/// waits for an answer of the daemon is given up, and so are the offers of
/// files.
pub open spec fn transport_reduced(m: ViewModel, e: TransportLifecycleEvent) -> ViewModel {
    let transport = transport_after(e);
    let status = AppStatus {
        connected: transport is Ready,
        reconnecting: transport is Reconnecting,
        transport,
    };
    if transport is Ready {
        ViewModel { status, ..m }
    } else {
        ViewModel {
            status,
            history_query_pending: false,
            history_clear_pending: false,
            history_refresh_needed: true,
            file_receive_pending: false,
            file_receive_settings: None,
            pending_file_offers: Seq::empty(),
            manual_transfers: finished_transfers(m.manual_transfers),
            ..m
        }
    }
}

/// The history is to be asked for anew: it is shown, there is a connection, no
/// answer is waited for, and something has changed.
pub open spec fn refresh_due(m: ViewModel) -> bool {
    m.page@ == "history"@ && m.status.connected && !m.history_query_pending
        && m.history_refresh_needed
}

// ---------------------------------------------------------------------------
// Reducing
// ---------------------------------------------------------------------------

impl ClientView {
    /// A client as the daemon described it.
    pub fn from_wire(handle: ClientHandle, c: ClientConfig, s: ClientState) -> (v: ClientView)
        ensures
            v@ == client_model(handle, c, s),
    {
        let ips: Vec<IpAddr> = sort_addresses(&s.ips);
        ClientView {
            handle,
            hostname: c.hostname,
            fixed_ips: c.fix_ips,
            port: c.port,
            position: c.pos,
            enter_hook: c.cmd,
            active: s.active,
            active_addr: s.active_addr,
            alive: s.alive,
            remote_ready: s.remote_ready,
            dns_ips: s.dns_ips,
            ips,
            has_pressed_keys: s.has_pressed_keys,
            resolving: s.resolving,
            peer_commit: s.peer_commit,
        }
    }
}

/// Whether two events are the same.
pub fn is_same_event(a: &HistoryEventId, b: &HistoryEventId) -> (r: bool)
    ensures
        r == same_event(*a, *b),
{
    a.origin_sequence == b.origin_sequence && same_text(
        a.origin_device_id.as_str(),
        b.origin_device_id.as_str(),
    )
}

fn is_finished(s: ManualTransferState) -> (r: bool)
    ensures
        r == finished(s),
{
    match s {
        ManualTransferState::Completed
        | ManualTransferState::Declined
        | ManualTransferState::Cancelled
        | ManualTransferState::Failed => true,
        _ => false,
    }
}

fn is_offer_of(o: &IncomingFileOffer, peer: &str, id: u64) -> (r: bool)
    ensures
        r == offer_is(*o, peer@, id),
{
    o.transfer_id == id && same_text(o.peer_fingerprint.as_str(), peer)
}

fn enumerate_clients(xs: Vec<(ClientHandle, ClientConfig, ClientState)>) -> (t: Table<
    ClientHandle,
    ClientView,
>)
    ensures
        clients_of(t@) == enumerated(xs@),
{
    let mut t: Table<ClientHandle, ClientView> = Table::new();
    let ghost all = xs@;
    let mut rest: Vec<(ClientHandle, ClientConfig, ClientState)> = xs;
    assert(clients_of(t@) =~= enumerated(all.take(0)));
    assert(all.skip(0) =~= all);
    let n: usize = rest.len();
    let mut i: usize = 0;
    while i < n
        invariant
            i <= n,
            n == all.len(),
            rest@ == all.skip(i as int),
            clients_of(t@) == enumerated(all.take(i as int)),
        decreases n - i,
    {
        let (handle, config, state) = rest.remove(0);
        assert((handle, config, state) == all[i as int]);
        let ghost before = t@;
        let view: ClientView = ClientView::from_wire(handle, config, state);
        t.insert(handle, view);
        assert(all.take(i + 1).drop_last() =~= all.take(i as int));
        assert(clients_of(t@) =~= clients_of(before).insert(handle, view@));
        assert(rest@ =~= all.skip(i + 1));
        i = i + 1;
    }
    assert(all.take(n as int) =~= all);
    t
}

fn index_texts(xs: Vec<(String, String)>) -> (t: Table<String, String>)
    ensures
        t@ == texts_by_key(xs@),
{
    let mut t: Table<String, String> = Table::new();
    let ghost all = xs@;
    let mut rest: Vec<(String, String)> = xs;
    let n: usize = rest.len();
    let mut i: usize = 0;
    assert(all.skip(0) =~= all);
    while i < n
        invariant
            i <= n,
            n == all.len(),
            rest@ == all.skip(i as int),
            t@ == texts_by_key(all.take(i as int)),
        decreases n - i,
    {
        let (key, text) = rest.remove(0);
        assert((key, text) == all[i as int]);
        t.insert(key, text);
        assert(all.take(i + 1).drop_last() =~= all.take(i as int));
        assert(rest@ =~= all.skip(i + 1));
        i = i + 1;
    }
    assert(all.take(n as int) =~= all);
    t
}

fn put_offer(offers: &mut Vec<IncomingFileOffer>, offer: IncomingFileOffer)
    ensures
        final(offers)@ == offers_with(old(offers)@, offer),
{
    let ghost all = offers@;
    let ghost peer = offer.peer_fingerprint@;
    let ghost id = offer.transfer_id;
    let mut i: usize = 0;
    assert(all.skip(0) =~= all);
    assert(all.take(0) + offers_with(all.skip(0), offer) =~= offers_with(all, offer));
    while i < offers.len() && !is_offer_of(
        &offers[i],
        offer.peer_fingerprint.as_str(),
        offer.transfer_id,
    )
        invariant
            i <= all.len(),
            offers@ == all,
            peer == offer.peer_fingerprint@,
            id == offer.transfer_id,
            all.take(i as int) + offers_with(all.skip(i as int), offer) == offers_with(all, offer),
        decreases all.len() - i,
    {
        assert(all.skip(i as int).drop_first() =~= all.skip(i + 1));
        assert(all.take(i + 1) + offers_with(all.skip(i + 1), offer) =~= all.take(i as int)
            + offers_with(all.skip(i as int), offer));
        i = i + 1;
    }
    if i < offers.len() {
        offers.remove(i);
        offers.insert(i, offer);
        assert(all.skip(i as int)[0] == all[i as int]);
        assert(all.skip(i as int).drop_first() =~= all.skip(i + 1));
        assert(offers@ =~= all.take(i as int) + (seq![offer] + all.skip(i + 1)));
    } else {
        offers.push(offer);
        assert(all.skip(i as int) =~= Seq::<IncomingFileOffer>::empty());
        assert(offers@ =~= all.take(i as int) + seq![offer]);
    }
}

fn drop_offers(offers: &mut Vec<IncomingFileOffer>, peer: &str, id: u64)
    ensures
        final(offers)@ == offers_without(old(offers)@, peer@, id),
{
    let ghost all = offers@;
    let n: usize = offers.len();
    let mut rest: Vec<IncomingFileOffer> = Vec::new();
    std::mem::swap(&mut rest, offers);
    let mut i: usize = 0;
    assert(all.skip(0) =~= all);
    while i < n
        invariant
            i <= n,
            n == all.len(),
            rest@ == all.skip(i as int),
            offers@ == offers_without(all.take(i as int), peer@, id),
        decreases n - i,
    {
        let offer: IncomingFileOffer = rest.remove(0);
        assert(offer == all[i as int]);
        assert(all.take(i + 1).drop_last() =~= all.take(i as int));
        if !is_offer_of(&offer, peer, id) {
            offers.push(offer);
        }
        assert(rest@ =~= all.skip(i + 1));
        i = i + 1;
    }
    assert(all.take(n as int) =~= all);
}

/// The place of the finished transfer that leaves first.
fn oldest_finished(t: &Table<(String, u64), ManualTransferStatus>) -> (r: Option<usize>)
    ensures
        match r {
            Some(i) => i < t.sequence().len() && is_oldest(t@, t.sequence()[i as int].0.model()),
            None => !(exists|k: (Seq<char>, u64)| is_oldest(t@, k)),
        },
{
    let n: usize = t.len();
    let ghost rows = t.sequence();
    proof {
        lemma_mapping(rows);
    }
    let mut best: Option<usize> = None;
    let mut i: usize = 0;
    while i < n
        invariant
            i <= n,
            n == rows.len(),
            rows == t.sequence(),
            ordered(rows),
            t@ == mapping(rows),
            forall|j: int|
                0 <= j < rows.len() ==> t@.contains_key((#[trigger] rows[j]).0.model())
                    && t@[rows[j].0.model()] == rows[j].1,
            match best {
                Some(b) => {
                    &&& b < i
                    &&& finished(rows[b as int].1.state)
                    &&& forall|j: int|
                        0 <= j < i && j != b && finished((#[trigger] rows[j]).1.state)
                            ==> rows[b as int].1.transfer_id < rows[j].1.transfer_id || (
                        rows[b as int].1.transfer_id == rows[j].1.transfer_id && b < j)
                },
                None => forall|j: int| 0 <= j < i ==> !finished((#[trigger] rows[j]).1.state),
            },
        decreases n - i,
    {
        let state: ManualTransferState = t.row(i).1.state;
        let id: u64 = t.row(i).1.transfer_id;
        if is_finished(state) {
            match best {
                Some(b) => {
                    if id < t.row(b).1.transfer_id {
                        best = Some(i);
                    }
                },
                None => {
                    best = Some(i);
                },
            }
        }
        i = i + 1;
    }
    proof {
        match best {
            Some(b) => {
                let k = rows[b as int].0.model();
                assert forall|q: (Seq<char>, u64)|
                    #![trigger t@.contains_key(q)]
                    t@.contains_key(q) && finished(t@[q].state) && q != k implies t@[k].transfer_id
                    < t@[q].transfer_id || (t@[k].transfer_id == t@[q].transfer_id && <(
                    String,
                    u64,
                ) as Key>::below(k, q)) by {
                    assert(crate::table::has_row(rows, q));
                    let j = choose|j: int|
                        0 <= j < rows.len() && (#[trigger] rows[j]).0.model() == q;
                    assert(rows[j].1 == t@[q]);
                    if b < j {
                        assert(<(String, u64) as Key>::below(
                            rows[b as int].0.model(),
                            rows[j].0.model(),
                        ));
                    }
                }
            },
            None => {
                assert forall|k: (Seq<char>, u64)| !is_oldest(t@, k) by {
                    if t@.contains_key(k) {
                        assert(crate::table::has_row(rows, k));
                        let j = choose|j: int|
                            0 <= j < rows.len() && (#[trigger] rows[j]).0.model() == k;
                        assert(!finished(rows[j].1.state));
                    }
                }
            },
        }
    }
    best
}

/// No two transfers are both the oldest.
proof fn lemma_one_oldest(
    m: Map<(Seq<char>, u64), ManualTransferStatus>,
    a: (Seq<char>, u64),
    b: (Seq<char>, u64),
)
    requires
        is_oldest(m, a),
        is_oldest(m, b),
    ensures
        a == b,
{
    <(String, u64) as Key>::lemma_order(a, b, a);
}

fn keep_transfers(t: &mut Table<(String, u64), ManualTransferStatus>)
    ensures
        final(t)@ == kept_transfers(old(t)@, old(t)@.len()),
{
    let ghost start = t@;
    let mut n: usize = t.len();
    while n > MAX_MANUAL_TRANSFERS
        invariant
            n == t@.len(),
            start == old(t)@,
            t@.dom().finite(),
            kept_transfers(start, start.len()) == kept_transfers(t@, n as nat),
        decreases n,
    {
        match oldest_finished(t) {
            Some(i) => {
                let ghost k = t.sequence()[i as int].0.model();
                proof {
                    let c = choose|c: (Seq<char>, u64)| is_oldest(t@, c);
                    lemma_one_oldest(t@, k, c);
                    assert(t@.remove(k).dom() =~= t@.dom().remove(k));
                }
                t.remove_at(i);
                n = n - 1;
            },
            None => {
                return;
            },
        }
    }
}

/// Keeps the finished transfers only.
fn keep_finished(t: &mut Table<(String, u64), ManualTransferStatus>)
    ensures
        final(t)@ == finished_transfers(old(t)@),
{
    let ghost start = t@;
    let mut i: usize = t.len();
    proof {
        lemma_mapping(t.sequence());
    }
    while i > 0
        invariant
            i <= t.sequence().len(),
            ordered(t.sequence()),
            t@ == mapping(t.sequence()),
            forall|k: (Seq<char>, u64)| #[trigger]
                t@.contains_key(k) ==> start.contains_key(k) && start[k] == t@[k],
            forall|k: (Seq<char>, u64)|
                start.contains_key(k) && finished((#[trigger] start[k]).state) ==> t@.contains_key(k),
            forall|j: int|
                i <= j < t.sequence().len() ==> finished((#[trigger] t.sequence()[j]).1.state),
        decreases i,
    {
        i = i - 1;
        let state: ManualTransferState = t.row(i).1.state;
        let ghost rows = t.sequence();
        if !is_finished(state) {
            proof {
                lemma_mapping(rows);
            }
            t.remove_at(i);
            proof {
                assert forall|j: int| i <= j < t.sequence().len() implies finished(
                    (#[trigger] t.sequence()[j]).1.state,
                ) by {
                    assert(t.sequence()[j] == rows[j + 1]);
                }
            }
            let n: usize = t.len();
        } else {
            proof {
                assert forall|j: int| i <= j < t.sequence().len() implies finished(
                    (#[trigger] t.sequence()[j]).1.state,
                ) by {
                    if j == i {
                        assert(rows[i as int].1.state == state);
                    }
                }
            }
        }
    }
    proof {
        lemma_mapping(t.sequence());
        assert forall|k: (Seq<char>, u64)| #[trigger] t@.contains_key(k) implies finished(
            t@[k].state,
        ) by {
            let j = choose|j: int|
                0 <= j < t.sequence().len() && (#[trigger] t.sequence()[j]).0.model() == k;
            assert(crate::table::has_row(t.sequence(), k));
            assert(t.sequence()[j].1 == t@[k]);
        }
        assert forall|k: (Seq<char>, u64)| #[trigger]
            start.contains_key(k) && finished(start[k].state) implies t@.contains_key(k) by {
            assert(finished(start[k].state));
        }
        assert(t@ =~= finished_transfers(start));
    }
}

/// Whether some record is the one of an event.
pub fn holds_record(records: &Vec<HistoryRecordSummary>, id: &HistoryEventId) -> (r: bool)
    ensures
        r == has_record(records@, *id),
{
    let mut i: usize = 0;
    while i < records.len()
        invariant
            i <= records@.len(),
            forall|j: int|
                0 <= j < i ==> !same_event((#[trigger] records@[j]).event_id, *id),
        decreases records@.len() - i,
    {
        if is_same_event(&records[i].event_id, id) {
            assert(same_event(records@[i as int].event_id, *id));
            return true;
        }
        i = i + 1;
    }
    false
}

fn append_records(records: &mut Vec<HistoryRecordSummary>, more: Vec<HistoryRecordSummary>)
    ensures
        final(records)@ == records_with(old(records)@, more@),
{
    let ghost start = records@;
    let ghost all = more@;
    let n: usize = more.len();
    let mut rest: Vec<HistoryRecordSummary> = more;
    let mut i: usize = 0;
    assert(all.skip(0) =~= all);
    while i < n
        invariant
            i <= n,
            n == all.len(),
            rest@ == all.skip(i as int),
            records@ == records_with(start, all.take(i as int)),
        decreases n - i,
    {
        let record: HistoryRecordSummary = rest.remove(0);
        assert(record == all[i as int]);
        assert(all.take(i + 1).drop_last() =~= all.take(i as int));
        if !holds_record(&*records, &record.event_id) {
            records.push(record);
        }
        assert(rest@ =~= all.skip(i + 1));
        i = i + 1;
    }
    assert(all.take(n as int) =~= all);
}

/// The page that is shown after a further one has come.
fn continue_page(previous: Option<HistoryPage>, page: HistoryPage) -> (r: HistoryPage)
    ensures
        r@ == continued(page_of(previous), page@),
{
    if page.offset > 0 {
        if let Some(previous) = previous {
            if same_text(previous.query.as_str(), page.query.as_str()) {
                let mut records: Vec<HistoryRecordSummary> = previous.records;
                append_records(&mut records, page.records);
                return HistoryPage {
                    query: page.query,
                    offset: 0,
                    next_offset: page.next_offset,
                    records,
                };
            }
        }
    }
    page
}

fn is_shown(records: &Vec<HistoryRecordSummary>, key: &(String, u64)) -> (r: bool)
    ensures
        r == shown(records@, key.model()),
{
    let mut i: usize = 0;
    while i < records.len()
        invariant
            i <= records@.len(),
            forall|j: int|
                0 <= j < i ==> !((#[trigger] records@[j]).event_id.origin_device_id@ == key.0@
                    && records@[j].event_id.origin_sequence == key.1),
        decreases records@.len() - i,
    {
        if records[i].event_id.origin_sequence == key.1 && same_text(
            records[i].event_id.origin_device_id.as_str(),
            key.0.as_str(),
        ) {
            assert(records@[i as int].event_id.origin_device_id@ == key.0@);
            return true;
        }
        i = i + 1;
    }
    false
}

/// Keeps the images of the records that are shown.
fn keep_images(
    t: &mut Table<(String, u64), HistoryImage>,
    records: &Vec<HistoryRecordSummary>,
)
    ensures
        final(t)@ == images_for(old(t)@, records@),
{
    let ghost start = t@;
    let mut i: usize = t.len();
    proof {
        lemma_mapping(t.sequence());
    }
    while i > 0
        invariant
            i <= t.sequence().len(),
            ordered(t.sequence()),
            t@ == mapping(t.sequence()),
            forall|k: (Seq<char>, u64)| #[trigger]
                t@.contains_key(k) ==> start.contains_key(k) && start[k] == t@[k],
            forall|k: (Seq<char>, u64)|
                start.contains_key(k) && #[trigger] shown(records@, k) ==> t@.contains_key(k),
            forall|j: int|
                i <= j < t.sequence().len() ==> shown(
                    records@,
                    (#[trigger] t.sequence()[j]).0.model(),
                ),
        decreases i,
    {
        i = i - 1;
        let ghost rows = t.sequence();
        let keep: bool = is_shown(records, &t.row(i).0);
        if !keep {
            proof {
                lemma_mapping(rows);
            }
            t.remove_at(i);
            proof {
                assert forall|j: int| i <= j < t.sequence().len() implies shown(
                    records@,
                    (#[trigger] t.sequence()[j]).0.model(),
                ) by {
                    assert(t.sequence()[j] == rows[j + 1]);
                }
            }
            let n: usize = t.len();
        }
    }
    proof {
        lemma_mapping(t.sequence());
        assert forall|k: (Seq<char>, u64)| #[trigger] t@.contains_key(k) implies shown(
            records@,
            k,
        ) by {
            assert(crate::table::has_row(t.sequence(), k));
            let j = choose|j: int|
                0 <= j < t.sequence().len() && (#[trigger] t.sequence()[j]).0.model() == k;
            assert(shown(records@, t.sequence()[j].0.model()));
        }
        assert(t@ =~= images_for(start, records@));
    }
}

fn pin_record(records: &mut Vec<HistoryRecordSummary>, id: &HistoryEventId, pinned: bool)
    ensures
        final(records)@ == records_pinned(old(records)@, *id, pinned),
{
    let ghost all = records@;
    let mut i: usize = 0;
    assert(all.skip(0) =~= all);
    assert(all.take(0) + records_pinned(all.skip(0), *id, pinned) =~= records_pinned(
        all,
        *id,
        pinned,
    ));
    while i < records.len() && !is_same_event(&records[i].event_id, id)
        invariant
            i <= all.len(),
            records@ == all,
            all.take(i as int) + records_pinned(all.skip(i as int), *id, pinned) == records_pinned(
                all,
                *id,
                pinned,
            ),
        decreases all.len() - i,
    {
        assert(all.skip(i as int).drop_first() =~= all.skip(i + 1));
        assert(all.take(i + 1) + records_pinned(all.skip(i + 1), *id, pinned) =~= all.take(
            i as int,
        ) + records_pinned(all.skip(i as int), *id, pinned));
        i = i + 1;
    }
    if i < records.len() {
        let record: HistoryRecordSummary = records.remove(i);
        records.insert(i, HistoryRecordSummary { pinned, ..record });
        assert(all.skip(i as int)[0] == all[i as int]);
        assert(all.skip(i as int).drop_first() =~= all.skip(i + 1));
        assert(records@ =~= all.take(i as int) + (seq![
            HistoryRecordSummary { pinned, ..all[i as int] },
        ] + all.skip(i + 1)));
    } else {
        assert(all.skip(i as int) =~= Seq::<HistoryRecordSummary>::empty());
        assert(records@ =~= all.take(i as int) + Seq::<HistoryRecordSummary>::empty());
    }
}

/// Nothing was heard yet.
pub open spec fn is_fresh(v: ViewModel) -> bool {
    &&& v.clients == Map::<ClientHandle, ClientModel>::empty()
    &&& v.client_fingerprints == Map::<ClientHandle, String>::empty()
    &&& v.peer_profiles == Map::<Seq<char>, DeviceProfile>::empty()
    &&& v.authorization == Map::<Seq<char>, String>::empty()
    &&& v.history_images == Map::<(Seq<char>, u64), HistoryImage>::empty()
    &&& v.transfers == Map::<(u64, u64), ClipboardTransferStatus>::empty()
    &&& v.manual_transfers == Map::<(Seq<char>, u64), ManualTransferStatus>::empty()
    &&& v.connected_devices == Map::<SocketAddr, DeviceView>::empty()
    &&& v.incoming_devices == Map::<SocketAddr, DeviceView>::empty()
    &&& v.plugins.len() == 0
    &&& v.discovered_peers.len() == 0
    &&& v.pending_file_offers.len() == 0
    &&& v.page@.len() == 0
    &&& v.history_query@.len() == 0
    &&& v.input_health == (InputHealth { capture: false, emulation: false })
    &&& v.input_sharing is None
    &&& v.clipboard == (ClipboardSettings { text: false, image: false, files: false })
    &&& v.history_page is None
    &&& v.history_error is None
    &&& v.history_clear_result is None
    &&& v.history_clear_error is None
    &&& !v.history_query_pending
    &&& !v.history_clear_pending
    &&& !v.history_refresh_needed
    &&& v.file_receive_settings is None
    &&& v.file_receive_error is None
    &&& !v.file_receive_pending
    &&& v.manual_transfer_error is None
    &&& v.diagnostics.last_error is None
    &&& v.diagnostics.port == 0
    &&& v.diagnostics.missing_client is None
    &&& v.diagnostics.log_spec@.len() == 0
    &&& v.status == (AppStatus {
        connected: false,
        reconnecting: false,
        transport: TransportLifecycle::Unavailable,
    })
    &&& v.preferences.locale@.len() == 0
    &&& v.capabilities == (PlatformCapabilities {
        capture: false,
        emulation: false,
        clipboard_files: false,
    })
    &&& v.public_key_fingerprint is None
    &&& v.pending_identity_fingerprint is None
    &&& v.connection_attempt is None
    &&& v.last_disconnected_device is None
}

impl Default for AppViewState {
    fn default() -> (s: AppViewState)
        ensures
            is_fresh(s@),
    {
        AppViewState::new()
    }
}

/// What asking for the history again does.
pub open spec fn asks_again(m: ViewModel, r: Option<FrontendRequest>, after: ViewModel) -> bool {
    &&& refresh_due(m) ==> r == Some(
        FrontendRequest::QueryHistory {
            query: m.history_query,
            offset: 0,
            limit: HISTORY_PAGE_SIZE,
        },
    ) && after == (ViewModel {
        history_refresh_needed: false,
        history_query_pending: true,
        ..m
    })
    &&& !refresh_due(m) ==> r is None && after == m
}

impl AppViewState {
    /// A dashboard that has heard nothing yet.
    pub fn new() -> (s: AppViewState)
        ensures
            is_fresh(s@),
    {
        let s: AppViewState = AppViewState {
            navigation: Navigation { page: String::new() },
            plugins: Vec::new(),
            clients: Table::new(),
            client_fingerprints: Table::new(),
            peer_profiles: Table::new(),
            discovered_peers: Vec::new(),
            authorization: Table::new(),
            input_health: InputHealth { capture: false, emulation: false },
            input_sharing: None,
            clipboard: ClipboardSettings { text: false, image: false, files: false },
            history_page: None,
            history_query: String::new(),
            history_error: None,
            history_clear_result: None,
            history_clear_error: None,
            history_query_pending: false,
            history_clear_pending: false,
            history_refresh_needed: false,
            history_images: Table::new(),
            transfers: Table::new(),
            file_receive_settings: None,
            file_receive_error: None,
            file_receive_pending: false,
            manual_transfers: Table::new(),
            pending_file_offers: Vec::new(),
            manual_transfer_error: None,
            diagnostics: Diagnostics {
                last_error: None,
                port: 0,
                missing_client: None,
                log_spec: String::new(),
            },
            status: AppStatus {
                connected: false,
                reconnecting: false,
                transport: TransportLifecycle::Unavailable,
            },
            preferences: Preferences { locale: String::new() },
            capabilities: PlatformCapabilities {
                capture: false,
                emulation: false,
                clipboard_files: false,
            },
            public_key_fingerprint: None,
            pending_identity_fingerprint: None,
            connection_attempt: None,
            connected_devices: Table::new(),
            incoming_devices: Table::new(),
            last_disconnected_device: None,
        };
        assert(s@.clients =~= Map::<ClientHandle, ClientModel>::empty());
        s
    }

    /// Asks for the history where it is due, and remembers that it was asked
    /// for.
    pub fn next_history_refresh(&mut self) -> (r: Option<FrontendRequest>)
        ensures
            asks_again(old(self)@, r, final(self)@),
    {
        if !same_text(self.navigation.page.as_str(), "history") || !self.status.connected
            || self.history_query_pending || !self.history_refresh_needed {
            return None;
        }
        self.history_refresh_needed = false;
        self.history_query_pending = true;
        Some(
            FrontendRequest::QueryHistory {
                query: self.history_query.clone(),
                offset: 0,
                limit: HISTORY_PAGE_SIZE,
            },
        )
    }

    /// Takes a change of the connection into the state.
    pub fn reduce_transport(&mut self, e: TransportLifecycleEvent)
        ensures
            final(self)@ == transport_reduced(old(self)@, e),
    {
        let transport: TransportLifecycle = match e {
            TransportLifecycleEvent::DaemonUnavailable => TransportLifecycle::Unavailable,
            TransportLifecycleEvent::Reconnecting => TransportLifecycle::Reconnecting,
            TransportLifecycleEvent::Resynchronized => TransportLifecycle::Ready,
        };
        let connected: bool = transport == TransportLifecycle::Ready;
        self.status =
        AppStatus {
            connected,
            reconnecting: transport == TransportLifecycle::Reconnecting,
            transport,
        };
        if !connected {
            self.history_query_pending = false;
            self.history_clear_pending = false;
            self.history_refresh_needed = true;
            self.file_receive_pending = false;
            self.file_receive_settings = None;
            self.pending_file_offers.clear();
            keep_finished(&mut self.manual_transfers);
        }
    }

    /// Takes an event about a client or a peer into the state.
    #[verifier::rlimit(60)]
    #[verifier::spinoff_prover]
    fn reduce_client(&mut self, e: FrontendEvent)
        requires
            e is Created || e is State || e is Deleted || e is NoSuchClient || e is Enumerate
                || e is DiscoveredPeers || e is ClientFingerprint || e is PeerDeviceProfile
                || e is AuthorizedUpdated || e is DeviceConnected || e is DeviceEntered
                || e is IncomingDisconnected || e is ConnectionAttempt,
        ensures
            final(self)@ == reduced(old(self)@, e),
    {
        let ghost clients = self.clients@;
        match e {
            FrontendEvent::Created(h, c, s) => {
                let view: ClientView = ClientView::from_wire(h, c, s);
                self.clients.insert(h, view);
                assert(clients_of(self.clients@) =~= clients_of(clients).insert(h, view@));
            },
            FrontendEvent::State(h, c, s) => {
                let view: ClientView = ClientView::from_wire(h, c, s);
                self.clients.insert(h, view);
                assert(clients_of(self.clients@) =~= clients_of(clients).insert(h, view@));
            },
            FrontendEvent::Deleted(h) => {
                self.clients.remove(&h);
                self.client_fingerprints.remove(&h);
                assert(clients_of(self.clients@) =~= clients_of(clients).remove(h));
            },
            FrontendEvent::NoSuchClient(h) => {
                self.diagnostics.missing_client = Some(h);
            },
            FrontendEvent::Enumerate(xs) => {
                self.clients = enumerate_clients(xs);
            },
            FrontendEvent::DiscoveredPeers(peers) => {
                self.discovered_peers = peers;
            },
            FrontendEvent::ClientFingerprint { handle, fingerprint } => {
                self.client_fingerprints.insert(handle, fingerprint);
            },
            FrontendEvent::PeerDeviceProfile { fingerprint, profile, valid } => {
                if valid {
                    self.peer_profiles.insert(fingerprint, profile);
                }
            },
            FrontendEvent::AuthorizedUpdated(keys) => {
                self.authorization = index_texts(keys);
            },
            FrontendEvent::DeviceConnected { addr, fingerprint } => {
                self.connected_devices.insert(addr, DeviceView { fingerprint, position: None });
            },
            FrontendEvent::DeviceEntered { fingerprint, addr, pos } => {
                self.incoming_devices.insert(addr, DeviceView { fingerprint, position: Some(pos) });
            },
            FrontendEvent::IncomingDisconnected(addr) => {
                self.connected_devices.remove(&addr);
                self.incoming_devices.remove(&addr);
                self.last_disconnected_device = Some(addr);
            },
            FrontendEvent::ConnectionAttempt { fingerprint } => {
                self.connection_attempt = Some(ConnectionAttemptView { fingerprint });
            },
            _ => {},
        }
    }

    /// Takes an event about a transfer of files into the state.
    #[verifier::rlimit(60)]
    #[verifier::spinoff_prover]
    fn reduce_transfer(&mut self, e: FrontendEvent)
        requires
            e is FileReceiveSettingsChanged || e is IncomingFileOffer || e is ManualTransferStatus
                || e is ManualTransferError || e is ClipboardTransferStatus,
        ensures
            final(self)@ == reduced(old(self)@, e),
    {
        match e {
            FrontendEvent::FileReceiveSettingsChanged(settings, error) => {
                self.file_receive_settings = Some(settings);
                self.file_receive_error = error;
                self.file_receive_pending = false;
            },
            FrontendEvent::IncomingFileOffer(offer) => {
                put_offer(&mut self.pending_file_offers, offer);
            },
            FrontendEvent::ManualTransferStatus(status) => {
                if status.state != ManualTransferState::AwaitingAcceptance {
                    drop_offers(
                        &mut self.pending_file_offers,
                        status.peer_fingerprint.as_str(),
                        status.transfer_id,
                    );
                }
                let key: (String, u64) = (status.peer_fingerprint.clone(), status.transfer_id);
                self.manual_transfers.insert(key, status);
                keep_transfers(&mut self.manual_transfers);
            },
            FrontendEvent::ManualTransferError(error) => {
                self.manual_transfer_error = Some(error);
            },
            FrontendEvent::ClipboardTransferStatus(status) => {
                self.transfers.insert((status.transfer_id, status.file_id), status);
            },
            _ => {},
        }
    }

    /// Takes an event about the history into the state.
    #[verifier::rlimit(60)]
    #[verifier::spinoff_prover]
    fn reduce_history(&mut self, e: FrontendEvent)
        requires
            e is HistoryChanged || e is HistoryPage || e is HistoryPinResult
                || e is HistoryImageResult || e is HistoryClearResult || e is HistoryError,
        ensures
            final(self)@ == reduced(old(self)@, e),
    {
        match e {
            FrontendEvent::HistoryChanged => {
                self.history_refresh_needed = true;
            },
            FrontendEvent::HistoryPage(page) => {
                self.history_query_pending = false;
                if same_text(page.query.as_str(), self.history_query.as_str()) {
                    let previous: Option<HistoryPage> = self.history_page.take();
                    let page: HistoryPage = continue_page(previous, page);
                    keep_images(&mut self.history_images, &page.records);
                    self.history_page = Some(page);
                    self.history_error = None;
                }
            },
            FrontendEvent::HistoryPinResult { event_id, pinned, updated } => {
                if updated {
                    if let Some(page) = self.history_page.take() {
                        let mut page: HistoryPage = page;
                        pin_record(&mut page.records, &event_id, pinned);
                        self.history_page = Some(page);
                    }
                }
                self.history_refresh_needed = true;
            },
            FrontendEvent::HistoryImageResult { event_id, image, error } => {
                self.history_error = error;
                if let Some(image) = image {
                    let wanted: bool = match &self.history_page {
                        Some(page) => holds_record(&page.records, &event_id),
                        None => false,
                    };
                    if wanted {
                        self.history_images.insert(
                            (event_id.origin_device_id, event_id.origin_sequence),
                            image,
                        );
                    }
                }
            },
            FrontendEvent::HistoryClearResult {
                operation_id: _,
                affected,
                peers_acknowledged,
                error,
            } => {
                self.history_clear_result = Some((affected, peers_acknowledged));
                self.history_clear_error = error;
                self.history_clear_pending = false;
                self.history_refresh_needed = true;
            },
            FrontendEvent::HistoryError(error) => {
                self.history_error = Some(error);
                self.history_query_pending = false;
                self.history_clear_pending = false;
                self.history_refresh_needed = false;
            },
            _ => {},
        }
    }

    /// Takes an event about the service itself into the state.
    #[verifier::rlimit(60)]
    #[verifier::spinoff_prover]
    fn reduce_service(&mut self, e: FrontendEvent)
        requires
            e is IdentityRegenerated || e is PortChanged || e is Error || e is CaptureStatus
                || e is InputSharing || e is EmulationStatus || e is PublicKeyFingerprint
                || e is ClipboardSettings || e is LogSpec || e is Plugins,
        ensures
            final(self)@ == reduced(old(self)@, e),
    {
        match e {
            FrontendEvent::IdentityRegenerated { fingerprint } => {
                self.pending_identity_fingerprint = Some(fingerprint);
            },
            FrontendEvent::PortChanged(port, error) => {
                self.diagnostics.port = port;
                self.diagnostics.last_error = error;
            },
            FrontendEvent::Error(error) => {
                self.diagnostics.last_error = Some(error);
            },
            FrontendEvent::CaptureStatus(enabled) => {
                self.input_health.capture = enabled;
            },
            FrontendEvent::InputSharing(enabled) => {
                self.input_sharing = Some(enabled);
            },
            FrontendEvent::EmulationStatus(enabled) => {
                self.input_health.emulation = enabled;
            },
            FrontendEvent::PublicKeyFingerprint(key) => {
                self.public_key_fingerprint = Some(key);
            },
            FrontendEvent::ClipboardSettings(settings) => {
                self.clipboard = settings;
            },
            FrontendEvent::LogSpec(spec) => {
                self.diagnostics.log_spec = spec;
            },
            FrontendEvent::Plugins(plugins) => {
                self.plugins = plugins;
            },
            _ => {},
        }
    }

    /// Takes an event of the daemon into the state.
    pub fn reduce(&mut self, e: FrontendEvent)
        ensures
            final(self)@ == reduced(old(self)@, e),
    {
        match e {
            FrontendEvent::Created(..)
            | FrontendEvent::State(..)
            | FrontendEvent::Deleted(..)
            | FrontendEvent::NoSuchClient(..)
            | FrontendEvent::Enumerate(..)
            | FrontendEvent::DiscoveredPeers(..)
            | FrontendEvent::ClientFingerprint { .. }
            | FrontendEvent::PeerDeviceProfile { .. }
            | FrontendEvent::AuthorizedUpdated(..)
            | FrontendEvent::DeviceConnected { .. }
            | FrontendEvent::DeviceEntered { .. }
            | FrontendEvent::IncomingDisconnected(..)
            | FrontendEvent::ConnectionAttempt { .. } => self.reduce_client(e),
            FrontendEvent::FileReceiveSettingsChanged(..)
            | FrontendEvent::IncomingFileOffer(..)
            | FrontendEvent::ManualTransferStatus(..)
            | FrontendEvent::ManualTransferError(..)
            | FrontendEvent::ClipboardTransferStatus(..) => self.reduce_transfer(e),
            FrontendEvent::HistoryChanged
            | FrontendEvent::HistoryPage(..)
            | FrontendEvent::HistoryPinResult { .. }
            | FrontendEvent::HistoryImageResult { .. }
            | FrontendEvent::HistoryClearResult { .. }
            | FrontendEvent::HistoryError(..) => self.reduce_history(e),
            _ => self.reduce_service(e),
        }
    }
}

} // verus!
