//! Files that the user sends, and files that peers offer: what the dashboard
//! shows of them and what it answers to the user.
use crate::api::ClientHandle;
use crate::api::IncomingFileOffer;
use crate::api::SocketAddr;
use crate::table::text_below;
use crate::table::Key;
use crate::table::Table;
use crate::text::decimal;
use crate::text::decimal_of;
use crate::text::same_text;
use crate::ui::labels::format_bytes;
use crate::ui::labels::size_text;
use crate::ui::models::AppViewState;
use crate::ui::models::ClientView;
use crate::ui::models::DeviceView;
use crate::ui::models::ViewModel;
use crate::ui::projection::device_label;
use crate::ui::projection::device_picture;
use crate::ui::projection::device_presentation;
use crate::ui::projection::fingerprint_of;
use crate::ui::projection::or_empty;
use crate::ui::projection::text_or_empty;
use crate::ui::projection::ClientItem;
use crate::ui::projection::DeviceImage;
use crate::ui::projection::Label;
use crate::ui::projection::LocalDevice;
use vstd::prelude::*;

verus! {

/// A peer that a file can be sent to.
#[derive(Clone, Debug, PartialEq, Eq)]
pub struct TransferPeerItem {
    pub fingerprint: String,
    pub name: Label,
    pub image: DeviceImage,
    pub connected: bool,
}

/// The form in which the user says where received files go.
#[derive(Clone, Debug, PartialEq, Eq)]
pub struct ReceiveForm {
    /// The user has changed it since it was saved.
    pub dirty: bool,
    pub auto_accept: bool,
    pub directory: String,
    pub busy: bool,
    pub picker_busy: bool,
}

/// The dialog in which the user answers an offer.
#[derive(Clone, Debug, PartialEq, Eq)]
pub struct OfferDialog {
    pub visible: bool,
    pub peer: String,
    pub id: String,
    pub directory: String,
    pub error: String,
    pub busy: bool,
    pub picker_busy: bool,
}

/// What the dialog shows of an offer.
#[derive(Clone, Debug, PartialEq, Eq)]
pub struct OfferView {
    pub peer_name: Label,
    pub peer_image: DeviceImage,
    pub file_name: String,
    pub size: String,
}

/// What is shown of manual transfers.
#[derive(Debug)]
pub struct ManualView {
    pub error: String,
    pub file_receive_known: bool,
    pub file_receive_error: String,
    pub peers: Vec<TransferPeerItem>,
    pub offer_count: i32,
    pub offer: Option<OfferView>,
}

// ---------------------------------------------------------------------------
// Peers
// ---------------------------------------------------------------------------

/// A client whose certificate is known.
pub open spec fn names_peer(c: ClientView, v: ViewModel, fingerprint: Seq<char>) -> bool {
    fingerprint.len() > 0 && fingerprint_of(v, c.handle) == fingerprint
}

/// Some of the first `n` clients has the certificate.
pub open spec fn listed(
    clients: Seq<(ClientHandle, ClientView)>,
    n: int,
    v: ViewModel,
    fingerprint: Seq<char>,
) -> bool {
    exists|i: int| 0 <= i < n && names_peer((#[trigger] clients[i]).1, v, fingerprint)
}

/// Some of them that is alive has it.
pub open spec fn listed_alive(
    clients: Seq<(ClientHandle, ClientView)>,
    n: int,
    v: ViewModel,
    fingerprint: Seq<char>,
) -> bool {
    exists|i: int|
        0 <= i < n && names_peer((#[trigger] clients[i]).1, v, fingerprint) && clients[i].1.alive
}

/// Some of the first `n` connected devices has the certificate.
pub open spec fn attached(
    devices: Seq<(SocketAddr, DeviceView)>,
    n: int,
    fingerprint: Seq<char>,
) -> bool {
    exists|i: int| 0 <= i < n && (#[trigger] devices[i]).1.fingerprint@ == fingerprint
}

/// A peer is known from the list of clients or because it is connected.
pub open spec fn known_peer(
    clients: Seq<(ClientHandle, ClientView)>,
    devices: Seq<(SocketAddr, DeviceView)>,
    v: ViewModel,
    fingerprint: Seq<char>,
) -> bool {
    listed(clients, clients.len() as int, v, fingerprint) || attached(
        devices,
        devices.len() as int,
        fingerprint,
    )
}

/// A peer can be reached: a client of its certificate is alive, or it is
/// connected.
pub open spec fn reachable(
    clients: Seq<(ClientHandle, ClientView)>,
    devices: Seq<(SocketAddr, DeviceView)>,
    v: ViewModel,
    fingerprint: Seq<char>,
) -> bool {
    listed_alive(clients, clients.len() as int, v, fingerprint) || attached(
        devices,
        devices.len() as int,
        fingerprint,
    )
}

/// How a row shows a peer. Nothing can be sent while the daemon is away or has
/// not said where files go.
pub open spec fn peer_shown(
    p: TransferPeerItem,
    clients: Seq<(ClientHandle, ClientView)>,
    devices: Seq<(SocketAddr, DeviceView)>,
    items: Seq<ClientItem>,
    v: ViewModel,
    local: LocalDevice,
) -> bool {
    let fingerprint = p.fingerprint@;
    &&& known_peer(clients, devices, v, fingerprint)
    &&& p.name@ == device_label(items, v, local.name@, fingerprint, None)
    &&& p.image == device_picture(items, v, local.has_image, fingerprint)
    &&& p.connected == (v.status.connected && v.file_receive_settings is Some && reachable(
        clients,
        devices,
        v,
        fingerprint,
    ))
}

/// Every known peer has one row; the rows are in the order of the certificates.
pub open spec fn peers_shown(
    peers: Seq<TransferPeerItem>,
    clients: Seq<(ClientHandle, ClientView)>,
    devices: Seq<(SocketAddr, DeviceView)>,
    items: Seq<ClientItem>,
    v: ViewModel,
    local: LocalDevice,
) -> bool {
    &&& forall|i: int, j: int|
        0 <= i < j < peers.len() ==> text_below(
            (#[trigger] peers[i]).fingerprint@,
            (#[trigger] peers[j]).fingerprint@,
        )
    &&& forall|i: int|
        0 <= i < peers.len() ==> peer_shown(#[trigger] peers[i], clients, devices, items, v, local)
    &&& forall|f: Seq<char>| #[trigger]
        known_peer(clients, devices, v, f) ==> exists|i: int|
            0 <= i < peers.len() && (#[trigger] peers[i]).fingerprint@ == f
}

fn known_peers(state: &AppViewState) -> (peers: Table<String, bool>)
    ensures
        forall|f: Seq<char>| #[trigger]
            peers@.contains_key(f) <==> known_peer(
                state.clients.sequence(),
                state.connected_devices.sequence(),
                state@,
                f,
            ),
        forall|f: Seq<char>| #[trigger]
            peers@.contains_key(f) ==> peers@[f] == reachable(
                state.clients.sequence(),
                state.connected_devices.sequence(),
                state@,
                f,
            ),
{
    let ghost clients = state.clients.sequence();
    let ghost devices = state.connected_devices.sequence();
    let ghost v = state@;
    let mut peers: Table<String, bool> = Table::new();
    let n: usize = state.clients.len();
    let mut i: usize = 0;
    while i < n
        invariant
            n == clients.len(),
            clients == state.clients.sequence(),
            v == state@,
            i <= n,
            forall|f: Seq<char>| #[trigger]
                peers@.contains_key(f) <==> listed(clients, i as int, v, f),
            forall|f: Seq<char>| #[trigger]
                peers@.contains_key(f) ==> peers@[f] == listed_alive(clients, i as int, v, f),
        decreases n - i,
    {
        let ghost before = peers@;
        let client: &ClientView = &state.clients.row(i).1;
        assert(*client == clients[i as int].1);
        match state.client_fingerprints.get(&client.handle) {
            Some(fingerprint) => {
                if fingerprint.as_str().unicode_len() > 0 {
                    let connected: bool = match peers.get(fingerprint) {
                        Some(connected) => *connected || client.alive,
                        None => client.alive,
                    };
                    peers.insert(fingerprint.clone(), connected);
                    assert(names_peer(clients[i as int].1, v, fingerprint@));
                    proof {
                        lemma_next_client(clients, i as int, v, before, peers@, fingerprint@);
                    }
                } else {
                    proof {
                        lemma_same_clients(clients, i as int, v);
                    }
                }
            },
            None => {
                proof {
                    lemma_same_clients(clients, i as int, v);
                }
            },
        }
        i = i + 1;
    }
    let m: usize = state.connected_devices.len();
    let mut k: usize = 0;
    while k < m
        invariant
            n == clients.len(),
            m == devices.len(),
            devices == state.connected_devices.sequence(),
            v == state@,
            k <= m,
            forall|f: Seq<char>| #[trigger]
                peers@.contains_key(f) <==> listed(clients, n as int, v, f) || attached(
                    devices,
                    k as int,
                    f,
                ),
            forall|f: Seq<char>| #[trigger]
                peers@.contains_key(f) ==> peers@[f] == (listed_alive(clients, n as int, v, f)
                    || attached(devices, k as int, f)),
        decreases m - k,
    {
        let ghost before = peers@;
        let device: &DeviceView = &state.connected_devices.row(k).1;
        peers.insert(device.fingerprint.clone(), true);
        let ghost f0 = device.fingerprint@;
        proof {
            assert(devices[k as int].1.fingerprint@ == f0);
            assert forall|f: Seq<char>| attached(devices, k + 1, f) == (attached(
                devices,
                k as int,
                f,
            ) || f == f0) by {
                if attached(devices, k as int, f) {
                    let j = choose|j: int|
                        0 <= j < k && (#[trigger] devices[j]).1.fingerprint@ == f;
                    assert(devices[j].1.fingerprint@ == f);
                }
                if attached(devices, k + 1, f) && f != f0 {
                    let j = choose|j: int|
                        0 <= j < k + 1 && (#[trigger] devices[j]).1.fingerprint@ == f;
                    assert(j < k);
                    assert(devices[j].1.fingerprint@ == f);
                }
            }
        }
        k = k + 1;
    }
    peers
}

proof fn lemma_same_clients(clients: Seq<(ClientHandle, ClientView)>, i: int, v: ViewModel)
    requires
        0 <= i < clients.len(),
        fingerprint_of(v, clients[i].1.handle).len() == 0,
    ensures
        forall|f: Seq<char>|
            #[trigger] listed(clients, i + 1, v, f) == listed(clients, i, v, f),
        forall|f: Seq<char>|
            #[trigger] listed_alive(clients, i + 1, v, f) == listed_alive(clients, i, v, f),
{
    assert forall|f: Seq<char>| #[trigger]
        listed(clients, i + 1, v, f) == listed(clients, i, v, f) by {
        if listed(clients, i, v, f) {
            let j = choose|j: int| 0 <= j < i && names_peer((#[trigger] clients[j]).1, v, f);
            assert(names_peer(clients[j].1, v, f));
        }
        if listed(clients, i + 1, v, f) {
            let j = choose|j: int| 0 <= j < i + 1 && names_peer((#[trigger] clients[j]).1, v, f);
            assert(names_peer(clients[j].1, v, f));
        }
    }
    assert forall|f: Seq<char>| #[trigger]
        listed_alive(clients, i + 1, v, f) == listed_alive(clients, i, v, f) by {
        if listed_alive(clients, i, v, f) {
            let j = choose|j: int|
                0 <= j < i && names_peer((#[trigger] clients[j]).1, v, f) && clients[j].1.alive;
            assert(names_peer(clients[j].1, v, f));
        }
        if listed_alive(clients, i + 1, v, f) {
            let j = choose|j: int|
                0 <= j < i + 1 && names_peer((#[trigger] clients[j]).1, v, f)
                    && clients[j].1.alive;
            assert(names_peer(clients[j].1, v, f));
        }
    }
}

proof fn lemma_next_client(
    clients: Seq<(ClientHandle, ClientView)>,
    i: int,
    v: ViewModel,
    before: Map<Seq<char>, bool>,
    after: Map<Seq<char>, bool>,
    f0: Seq<char>,
)
    requires
        0 <= i < clients.len(),
        names_peer(clients[i].1, v, f0),
        forall|f: Seq<char>| #[trigger] before.contains_key(f) <==> listed(clients, i, v, f),
        forall|f: Seq<char>| #[trigger]
            before.contains_key(f) ==> before[f] == listed_alive(clients, i, v, f),
        after == before.insert(
            f0,
            if before.contains_key(f0) {
                before[f0] || clients[i].1.alive
            } else {
                clients[i].1.alive
            },
        ),
    ensures
        forall|f: Seq<char>| #[trigger] after.contains_key(f) <==> listed(clients, i + 1, v, f),
        forall|f: Seq<char>| #[trigger]
            after.contains_key(f) ==> after[f] == listed_alive(clients, i + 1, v, f),
{
    assert forall|f: Seq<char>| listed(clients, i + 1, v, f) == (listed(clients, i, v, f) || f
        == f0) by {
        if listed(clients, i, v, f) {
            let j = choose|j: int| 0 <= j < i && names_peer((#[trigger] clients[j]).1, v, f);
            assert(names_peer(clients[j].1, v, f));
        }
        if listed(clients, i + 1, v, f) && f != f0 {
            let j = choose|j: int| 0 <= j < i + 1 && names_peer((#[trigger] clients[j]).1, v, f);
            assert(names_peer(clients[j].1, v, f));
            assert(j != i);
        }
    }
    assert forall|f: Seq<char>| listed_alive(clients, i + 1, v, f) == (listed_alive(
        clients,
        i,
        v,
        f,
    ) || f == f0 && clients[i].1.alive) by {
        if listed_alive(clients, i, v, f) {
            let j = choose|j: int|
                0 <= j < i && names_peer((#[trigger] clients[j]).1, v, f) && clients[j].1.alive;
            assert(names_peer(clients[j].1, v, f));
        }
        if listed_alive(clients, i + 1, v, f) && !(f == f0 && clients[i].1.alive) {
            let j = choose|j: int|
                0 <= j < i + 1 && names_peer((#[trigger] clients[j]).1, v, f)
                    && clients[j].1.alive;
            assert(names_peer(clients[j].1, v, f));
            assert(j != i);
        }
    }
    if !before.contains_key(f0) {
        assert(!listed(clients, i, v, f0));
        if listed_alive(clients, i, v, f0) {
            let j = choose|j: int|
                0 <= j < i && names_peer((#[trigger] clients[j]).1, v, f0) && clients[j].1.alive;
            assert(names_peer(clients[j].1, v, f0));
        }
    }
}

/// The rows of the peers that a file can be sent to.
pub fn project_peers(state: &AppViewState, items: &Vec<ClientItem>, local: &LocalDevice) -> (r: Vec<
    TransferPeerItem,
>)
    ensures
        peers_shown(
            r@,
            state.clients.sequence(),
            state.connected_devices.sequence(),
            items@,
            state@,
            *local,
        ),
{
    let ghost clients = state.clients.sequence();
    let ghost devices = state.connected_devices.sequence();
    let peers: Table<String, bool> = known_peers(state);
    let n: usize = peers.len();
    let ghost rows = peers.sequence();
    let ready: bool = state.status.connected && state.file_receive_settings.is_some();
    let mut r: Vec<TransferPeerItem> = Vec::new();
    let mut i: usize = 0;
    while i < n
        invariant
            n == rows.len(),
            rows == peers.sequence(),
            clients == state.clients.sequence(),
            devices == state.connected_devices.sequence(),
            ready == (state@.status.connected && state@.file_receive_settings is Some),
            i <= n,
            r@.len() == i,
            forall|f: Seq<char>| #[trigger]
                peers@.contains_key(f) <==> known_peer(clients, devices, state@, f),
            forall|f: Seq<char>| #[trigger]
                peers@.contains_key(f) ==> peers@[f] == reachable(clients, devices, state@, f),
            forall|j: int| 0 <= j < i ==> (#[trigger] r@[j]).fingerprint@ == rows[j].0@,
            forall|j: int|
                0 <= j < i ==> peer_shown(
                    #[trigger] r@[j],
                    clients,
                    devices,
                    items@,
                    state@,
                    *local,
                ),
        decreases n - i,
    {
        let row: &(String, bool) = peers.row(i);
        assert(peers@.contains_key(row.0@));
        let (name, image) = device_presentation(items, state, local, row.0.as_str(), None);
        r.push(
            TransferPeerItem {
                fingerprint: row.0.clone(),
                name,
                image,
                connected: ready && row.1,
            },
        );
        i = i + 1;
    }
    proof {
        crate::table::lemma_mapping(rows);
        assert forall|a: int, b: int| 0 <= a < b < r@.len() implies text_below(
            (#[trigger] r@[a]).fingerprint@,
            (#[trigger] r@[b]).fingerprint@,
        ) by {
            assert(<String as Key>::below(rows[a].0.model(), rows[b].0.model()));
        }
        assert forall|f: Seq<char>| #[trigger]
            known_peer(clients, devices, state@, f) implies exists|i: int|
            0 <= i < r@.len() && (#[trigger] r@[i]).fingerprint@ == f by {
            assert(peers@.contains_key(f));
            assert(crate::table::has_row(rows, f));
            let j = choose|j: int| 0 <= j < rows.len() && (#[trigger] rows[j]).0.model() == f;
            assert(r@[j].fingerprint@ == f);
        }
    }
    r
}

// ---------------------------------------------------------------------------
// The dialog and the form
// ---------------------------------------------------------------------------

/// The offer that the dialog is about: the first one, while the daemon is there.
pub open spec fn offer_of(v: ViewModel) -> Option<IncomingFileOffer> {
    if v.status.connected && v.pending_file_offers.len() > 0 {
        Some(v.pending_file_offers[0])
    } else {
        None
    }
}

/// The form follows the daemon until the user changes it.
pub open spec fn form_shown(before: ReceiveForm, after: ReceiveForm, v: ViewModel) -> bool {
    &&& after.dirty == before.dirty
    &&& after.picker_busy == before.picker_busy
    &&& after.busy == v.file_receive_pending
    &&& if before.dirty || v.file_receive_settings is None {
        after.auto_accept == before.auto_accept && after.directory@ == before.directory@
    } else {
        after.auto_accept == v.file_receive_settings->Some_0.auto_accept && after.directory@
            == v.file_receive_settings->Some_0.download_directory@
    }
}

/// The dialog is about another offer than before.
pub open spec fn offer_changed(dialog: OfferDialog, offer: IncomingFileOffer) -> bool {
    dialog.peer@ != offer.peer_fingerprint@ || dialog.id@ != decimal(offer.transfer_id as nat)
}

/// What went wrong with the transfer of an offer.
pub open spec fn offer_error(v: ViewModel, offer: IncomingFileOffer) -> Seq<char> {
    let key = (offer.peer_fingerprint@, offer.transfer_id);
    if v.manual_transfers.contains_key(key) {
        or_empty(v.manual_transfers[key].error)
    } else {
        Seq::empty()
    }
}

/// The dialog follows the first offer: a new one brings its own directory, the
/// same one keeps what the user chose.
pub open spec fn dialog_shown(before: OfferDialog, after: OfferDialog, v: ViewModel) -> bool {
    &&& after.visible == (offer_of(v) is Some)
    &&& after.picker_busy == before.picker_busy
    &&& match offer_of(v) {
        Some(offer) => {
            &&& after.peer@ == offer.peer_fingerprint@
            &&& after.id@ == decimal(offer.transfer_id as nat)
            &&& after.directory@ == (if offer_changed(before, offer) {
                offer.suggested_directory@
            } else {
                before.directory@
            })
            &&& after.busy == (before.busy && !offer_changed(before, offer))
            &&& after.error@ == offer_error(v, offer)
        },
        None => {
            &&& after.peer@.len() == 0
            &&& after.id@.len() == 0
            &&& after.directory@ == before.directory@
            &&& !after.busy
            &&& after.error@ == before.error@
        },
    }
}

pub open spec fn offer_shown(
    o: Option<OfferView>,
    items: Seq<ClientItem>,
    v: ViewModel,
    local: LocalDevice,
) -> bool {
    match (offer_of(v), o) {
        (Some(offer), Some(o)) => {
            &&& o.peer_name@ == device_label(items, v, local.name@, offer.peer_fingerprint@, None)
            &&& o.peer_image == device_picture(items, v, local.has_image, offer.peer_fingerprint@)
            &&& o.file_name@ == offer.file_name@
            &&& o.size@ == size_text(offer.size)
        },
        (None, None) => true,
        _ => false,
    }
}

fn follow_form(form: &mut ReceiveForm, state: &AppViewState)
    ensures
        form_shown(*old(form), *final(form), state@),
{
    if !form.dirty {
        match &state.file_receive_settings {
            Some(settings) => {
                form.auto_accept = settings.auto_accept;
                form.directory = settings.download_directory.clone();
            },
            None => {},
        }
    }
    form.busy = state.file_receive_pending;
}

fn follow_offer(
    dialog: &mut OfferDialog,
    items: &Vec<ClientItem>,
    state: &AppViewState,
    local: &LocalDevice,
) -> (o: Option<OfferView>)
    ensures
        dialog_shown(*old(dialog), *final(dialog), state@),
        offer_shown(o, items@, state@, *local),
{
    if !state.status.connected || state.pending_file_offers.len() == 0 {
        dialog.visible = false;
        dialog.peer = String::new();
        dialog.id = String::new();
        dialog.busy = false;
        return None;
    }
    let offer: &IncomingFileOffer = &state.pending_file_offers[0];
    let id: String = decimal_of(offer.transfer_id);
    let changed: bool = !same_text(dialog.peer.as_str(), offer.peer_fingerprint.as_str())
        || !same_text(dialog.id.as_str(), id.as_str());
    if changed {
        dialog.peer = offer.peer_fingerprint.clone();
        dialog.id = id;
        dialog.directory = offer.suggested_directory.clone();
        dialog.busy = false;
    }
    dialog.visible = true;
    let key: (String, u64) = (offer.peer_fingerprint.clone(), offer.transfer_id);
    dialog.error = match state.manual_transfers.get(&key) {
        Some(status) => text_or_empty(&status.error),
        None => {
            let s: String = String::new();
            assert(s@ =~= Seq::<char>::empty());
            s
        },
    };
    let (peer_name, peer_image) = device_presentation(
        items,
        state,
        local,
        offer.peer_fingerprint.as_str(),
        None,
    );
    Some(
        OfferView {
            peer_name,
            peer_image,
            file_name: offer.file_name.clone(),
            size: format_bytes(offer.size),
        },
    )
}

/// What is shown of manual transfers.
pub open spec fn manual_view_shown(
    m: ManualView,
    clients: Seq<(ClientHandle, ClientView)>,
    devices: Seq<(SocketAddr, DeviceView)>,
    items: Seq<ClientItem>,
    v: ViewModel,
    local: LocalDevice,
) -> bool {
    &&& m.error@ == or_empty(v.manual_transfer_error)
    &&& m.file_receive_known == (v.status.connected && v.file_receive_settings is Some)
    &&& m.file_receive_error@ == or_empty(v.file_receive_error)
    &&& peers_shown(m.peers@, clients, devices, items, v, local)
    &&& m.offer_count == (if v.pending_file_offers.len() > i32::MAX {
        i32::MAX as int
    } else {
        v.pending_file_offers.len() as int
    })
    &&& offer_shown(m.offer, items, v, local)
}

/// What is shown of manual transfers; the form and the dialog follow the state.
pub fn project(
    state: &AppViewState,
    items: &Vec<ClientItem>,
    local: &LocalDevice,
    form: &mut ReceiveForm,
    dialog: &mut OfferDialog,
) -> (m: ManualView)
    ensures
        manual_view_shown(
            m,
            state.clients.sequence(),
            state.connected_devices.sequence(),
            items@,
            state@,
            *local,
        ),
        form_shown(*old(form), *final(form), state@),
        dialog_shown(*old(dialog), *final(dialog), state@),
{
    follow_form(form, state);
    let offer: Option<OfferView> = follow_offer(dialog, items, state, local);
    let waiting: usize = state.pending_file_offers.len();
    ManualView {
        error: text_or_empty(&state.manual_transfer_error),
        file_receive_known: state.status.connected && state.file_receive_settings.is_some(),
        file_receive_error: text_or_empty(&state.file_receive_error),
        peers: project_peers(state, items, local),
        offer_count: if waiting > 0x7fff_ffff {
            i32::MAX
        } else {
            waiting as i32
        },
        offer,
    }
}

} // verus!
