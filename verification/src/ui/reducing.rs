//! What each event of the daemon does to what the dashboard shows, and what it
//! leaves alone.
use crate::api::ClientConfig;
use crate::api::ClientHandle;
use crate::api::ClientState;
use crate::api::ClipboardSettings;
use crate::api::ClipboardTransferStatus;
use crate::api::DeviceProfile;
use crate::api::DiscoveredPeer;
use crate::api::FileReceiveSettings;
use crate::api::FrontendEvent;
use crate::api::HistoryEventId;
use crate::api::HistoryImage;
use crate::api::HistoryPage;
use crate::api::HistoryRecordSummary;
use crate::api::IncomingFileOffer;
use crate::api::IpAddr;
use crate::api::ManualTransferState;
use crate::api::ManualTransferStatus;
use crate::api::PluginStatus;
use crate::api::Position;
use crate::api::SocketAddr;
use crate::ui::laws::law_decision_keeps_other_offers;
use crate::ui::laws::law_repeated_offer_is_one;
use crate::ui::models::enumerated;
use crate::ui::models::has_record;
use crate::ui::models::is_oldest;
use crate::ui::models::kept_transfers;
use crate::ui::models::law_addresses_are_sorted;
use crate::ui::models::offer_is;
use crate::ui::models::records_pinned;
use crate::ui::models::records_with;
use crate::ui::models::reduced;
use crate::ui::models::refresh_due;
use crate::ui::models::texts_by_key;
use crate::ui::models::transport_reduced;
use crate::ui::models::ClientModel;
use crate::ui::models::TransportLifecycle;
use crate::ui::models::TransportLifecycleEvent;
use crate::ui::models::ViewModel;
use crate::ui::models::is_fresh;
use vstd::prelude::*;

verus! {

/// A client is shown with what the daemon says of it, its addresses sorted.
pub open spec fn tells(v: ClientModel, h: ClientHandle, c: ClientConfig, s: ClientState) -> bool {
    &&& v.handle == h
    &&& v.hostname == c.hostname && v.fixed_ips == c.fix_ips@ && v.port == c.port
    &&& v.position == c.pos && v.enter_hook == c.cmd
    &&& v.active == s.active && v.active_addr == s.active_addr && v.alive == s.alive
    &&& v.remote_ready == s.remote_ready && v.dns_ips == s.dns_ips@
    &&& v.has_pressed_keys == s.has_pressed_keys && v.resolving == s.resolving
    &&& v.peer_commit == s.peer_commit
    &&& v.ips.to_multiset() == s.ips@.to_multiset()
    &&& forall|i: int, j: int|
        0 <= i < j < v.ips.len() ==> match (#[trigger] v.ips[i], #[trigger] v.ips[j]) {
            (IpAddr::V4(a), IpAddr::V4(b)) => a <= b,
            (IpAddr::V6(a), IpAddr::V6(b)) => a <= b,
            (IpAddr::V4(_), IpAddr::V6(_)) => true,
            (IpAddr::V6(_), IpAddr::V4(_)) => false,
        }
}

/// A client that was created, or whose state changed, is shown as the daemon says;
/// every other client stays as it is, and so does everything else.
pub proof fn law_clients_are_shown_as_reported(
    m: ViewModel,
    h: ClientHandle,
    c: ClientConfig,
    s: ClientState,
    other: ClientHandle,
)
    ensures
        ({
            let after = reduced(m, FrontendEvent::Created(h, c, s));
            &&& reduced(m, FrontendEvent::State(h, c, s)) == after
            &&& after.clients.contains_key(h)
            &&& tells(after.clients[h], h, c, s)
            &&& other != h ==> after.clients.contains_key(other) == m.clients.contains_key(other)
                && after.clients[other] == m.clients[other]
            &&& after == ViewModel { clients: after.clients, ..m }
        }),
{
    law_addresses_are_sorted(s.ips@);
}

/// A client that was deleted is shown no more, nor is its fingerprint kept; every
/// other client stays as it is, and so does everything else.
pub proof fn law_deleted_clients_are_gone(m: ViewModel, h: ClientHandle, other: ClientHandle)
    ensures
        ({
            let after = reduced(m, FrontendEvent::Deleted(h));
            &&& !after.clients.contains_key(h)
            &&& !after.client_fingerprints.contains_key(h)
            &&& other != h ==> {
                &&& after.clients.contains_key(other) == m.clients.contains_key(other)
                &&& after.clients[other] == m.clients[other]
                &&& after.client_fingerprints.contains_key(other)
                    == m.client_fingerprints.contains_key(other)
                &&& after.client_fingerprints[other] == m.client_fingerprints[other]
            }
            &&& after == ViewModel {
                clients: after.clients,
                client_fingerprints: after.client_fingerprints,
                ..m
            }
        }),
{
}

/// A client that was created and then deleted leaves no trace among the clients.
pub proof fn law_deleting_undoes_creating(
    m: ViewModel,
    h: ClientHandle,
    c: ClientConfig,
    s: ClientState,
)
    requires
        !m.clients.contains_key(h),
    ensures
        reduced(reduced(m, FrontendEvent::Created(h, c, s)), FrontendEvent::Deleted(h)).clients
            == m.clients,
{
    assert(reduced(
        reduced(m, FrontendEvent::Created(h, c, s)),
        FrontendEvent::Deleted(h),
    ).clients =~= m.clients);
}

proof fn lemma_enumerated(xs: Seq<(ClientHandle, ClientConfig, ClientState)>, i: int)
    requires
        0 <= i < xs.len(),
        forall|j: int| i < j < xs.len() ==> (#[trigger] xs[j]).0 != xs[i].0,
    ensures
        enumerated(xs).contains_key(xs[i].0),
        tells(enumerated(xs)[xs[i].0], xs[i].0, xs[i].1, xs[i].2),
    decreases xs.len(),
{
    if i == xs.len() - 1 {
        law_addresses_are_sorted(xs[i].2.ips@);
    } else {
        assert(xs[xs.len() - 1].0 != xs[i].0);
        assert forall|j: int| i < j < xs.drop_last().len() implies (
        #[trigger] xs.drop_last()[j]).0 != xs.drop_last()[i].0 by {
            assert(xs[j].0 != xs[i].0);
        }
        lemma_enumerated(xs.drop_last(), i);
    }
}

/// A list of all clients replaces those that were shown: each of the list is shown, as
/// its last entry says, and no other.
pub proof fn law_a_list_of_clients_is_shown_whole(
    m: ViewModel,
    xs: Vec<(ClientHandle, ClientConfig, ClientState)>,
    i: int,
    h: ClientHandle,
)
    ensures
        ({
            let after = reduced(m, FrontendEvent::Enumerate(xs));
            &&& after == ViewModel { clients: after.clients, ..m }
            &&& 0 <= i < xs@.len() && (forall|j: int|
                i < j < xs@.len() ==> (#[trigger] xs@[j]).0 != xs@[i].0)
                ==> after.clients.contains_key(xs@[i].0) && tells(
                after.clients[xs@[i].0],
                xs@[i].0,
                xs@[i].1,
                xs@[i].2,
            )
            &&& (forall|j: int| 0 <= j < xs@.len() ==> (#[trigger] xs@[j]).0 != h)
                ==> !after.clients.contains_key(h)
        }),
{
    if 0 <= i < xs@.len() && (forall|j: int| i < j < xs@.len() ==> (#[trigger] xs@[j]).0 != xs@[i].0) {
        lemma_enumerated(xs@, i);
    }
    crate::ui::laws::law_enumerate_replaces(xs@, h);
}

proof fn lemma_texts(xs: Seq<(String, String)>, i: int)
    requires
        0 <= i < xs.len(),
        forall|j: int| i < j < xs.len() ==> (#[trigger] xs[j]).0@ != xs[i].0@,
    ensures
        texts_by_key(xs).contains_key(xs[i].0@),
        texts_by_key(xs)[xs[i].0@] == xs[i].1,
    decreases xs.len(),
{
    if i < xs.len() - 1 {
        assert(xs[xs.len() - 1].0@ != xs[i].0@);
        assert forall|j: int| i < j < xs.drop_last().len() implies (
        #[trigger] xs.drop_last()[j]).0@ != xs.drop_last()[i].0@ by {
            assert(xs[j].0@ != xs[i].0@);
        }
        lemma_texts(xs.drop_last(), i);
    }
}

proof fn lemma_no_other_text(xs: Seq<(String, String)>, key: Seq<char>)
    requires
        forall|j: int| 0 <= j < xs.len() ==> (#[trigger] xs[j]).0@ != key,
    ensures
        !texts_by_key(xs).contains_key(key),
    decreases xs.len(),
{
    if xs.len() > 0 {
        assert(xs[xs.len() - 1].0@ != key);
        assert forall|j: int| 0 <= j < xs.drop_last().len() implies (
        #[trigger] xs.drop_last()[j]).0@ != key by {
            assert(xs[j].0@ != key);
        }
        lemma_no_other_text(xs.drop_last(), key);
    }
}

/// The authorized keys are those of the last list, with their names.
pub proof fn law_authorized_keys_are_replaced(
    m: ViewModel,
    keys: Vec<(String, String)>,
    i: int,
    key: Seq<char>,
)
    ensures
        ({
            let after = reduced(m, FrontendEvent::AuthorizedUpdated(keys));
            &&& after == ViewModel { authorization: after.authorization, ..m }
            &&& 0 <= i < keys@.len() && (forall|j: int|
                i < j < keys@.len() ==> (#[trigger] keys@[j]).0@ != keys@[i].0@)
                ==> after.authorization.contains_key(keys@[i].0@)
                && after.authorization[keys@[i].0@] == keys@[i].1
            &&& (forall|j: int| 0 <= j < keys@.len() ==> (#[trigger] keys@[j]).0@ != key)
                ==> !after.authorization.contains_key(key)
        }),
{
    if 0 <= i < keys@.len() && (forall|j: int|
        i < j < keys@.len() ==> (#[trigger] keys@[j]).0@ != keys@[i].0@) {
        lemma_texts(keys@, i);
    }
    if forall|j: int| 0 <= j < keys@.len() ==> (#[trigger] keys@[j]).0@ != key {
        lemma_no_other_text(keys@, key);
    }
}

/// A device that connected is shown at its address, without a side; one that entered
/// is shown with the side where it entered; a fingerprint is shown with its client.
/// Nothing else changes.
pub proof fn law_devices_are_shown_where_they_are(
    m: ViewModel,
    addr: SocketAddr,
    other: SocketAddr,
    fingerprint: String,
    pos: Position,
    handle: ClientHandle,
)
    ensures
        ({
            let after = reduced(m, FrontendEvent::DeviceConnected { addr, fingerprint });
            &&& after == ViewModel { connected_devices: after.connected_devices, ..m }
            &&& after.connected_devices.contains_key(addr)
            &&& after.connected_devices[addr].fingerprint == fingerprint
            &&& after.connected_devices[addr].position is None
            &&& after.connected_devices.remove(addr) == m.connected_devices.remove(addr)
        }),
        ({
            let after = reduced(m, FrontendEvent::DeviceEntered { fingerprint, addr, pos });
            &&& after == ViewModel { incoming_devices: after.incoming_devices, ..m }
            &&& after.incoming_devices.contains_key(addr)
            &&& after.incoming_devices[addr].fingerprint == fingerprint
            &&& after.incoming_devices[addr].position == Some(pos)
            &&& after.incoming_devices.remove(addr) == m.incoming_devices.remove(addr)
        }),
        ({
            let after = reduced(m, FrontendEvent::IncomingDisconnected(addr));
            &&& !after.connected_devices.contains_key(addr)
            &&& !after.incoming_devices.contains_key(addr)
            &&& after.last_disconnected_device == Some(addr)
            &&& other != addr ==> {
                &&& after.connected_devices.contains_key(other)
                    == m.connected_devices.contains_key(other)
                &&& after.connected_devices[other] == m.connected_devices[other]
                &&& after.incoming_devices.contains_key(other)
                    == m.incoming_devices.contains_key(other)
                &&& after.incoming_devices[other] == m.incoming_devices[other]
            }
            &&& after == ViewModel {
                connected_devices: after.connected_devices,
                incoming_devices: after.incoming_devices,
                last_disconnected_device: after.last_disconnected_device,
                ..m
            }
        }),
        ({
            let after = reduced(m, FrontendEvent::ClientFingerprint { handle, fingerprint });
            &&& after == ViewModel { client_fingerprints: after.client_fingerprints, ..m }
            &&& after.client_fingerprints.contains_key(handle)
            &&& after.client_fingerprints[handle] == fingerprint
            &&& after.client_fingerprints.remove(handle) == m.client_fingerprints.remove(handle)
        }),
        ({
            let after = reduced(m, FrontendEvent::ConnectionAttempt { fingerprint });
            &&& after.connection_attempt matches Some(attempt) && attempt.fingerprint == fingerprint
            &&& after == ViewModel { connection_attempt: after.connection_attempt, ..m }
        }),
{
    let a = reduced(m, FrontendEvent::DeviceConnected { addr, fingerprint });
    assert(a.connected_devices.remove(addr) =~= m.connected_devices.remove(addr));
    let b = reduced(m, FrontendEvent::DeviceEntered { fingerprint, addr, pos });
    assert(b.incoming_devices.remove(addr) =~= m.incoming_devices.remove(addr));
    let c = reduced(m, FrontendEvent::ClientFingerprint { handle, fingerprint });
    assert(c.client_fingerprints.remove(handle) =~= m.client_fingerprints.remove(handle));
}

/// The profile of a peer is shown if it is valid, in place of the one before; an
/// invalid one changes nothing. The peers that were discovered are those of the last
/// list.
pub proof fn law_valid_profiles_are_shown(
    m: ViewModel,
    fingerprint: String,
    profile: DeviceProfile,
    peers: Vec<DiscoveredPeer>,
)
    ensures
        reduced(m, FrontendEvent::PeerDeviceProfile { fingerprint, profile, valid: false }) == m,
        ({
            let after = reduced(
                m,
                FrontendEvent::PeerDeviceProfile { fingerprint, profile, valid: true },
            );
            &&& after == ViewModel { peer_profiles: after.peer_profiles, ..m }
            &&& after.peer_profiles.contains_key(fingerprint@)
            &&& after.peer_profiles[fingerprint@] == profile
            &&& after.peer_profiles.remove(fingerprint@) == m.peer_profiles.remove(fingerprint@)
        }),
        ({
            let after = reduced(m, FrontendEvent::DiscoveredPeers(peers));
            &&& after.discovered_peers == peers@
            &&& after == ViewModel { discovered_peers: after.discovered_peers, ..m }
        }),
{
    let after = reduced(m, FrontendEvent::PeerDeviceProfile { fingerprint, profile, valid: true });
    assert(after.peer_profiles.remove(fingerprint@) =~= m.peer_profiles.remove(fingerprint@));
}

/// What the service says of itself is shown as it says it, and changes nothing else:
/// its port, its errors, its input, its sharing, its keys, its log and its plugins.
pub proof fn law_the_service_is_shown_as_it_says(
    m: ViewModel,
    text: String,
    error: Option<String>,
    port: u16,
    on: bool,
    h: ClientHandle,
    clipboard: ClipboardSettings,
    plugins: Vec<PluginStatus>,
)
    ensures
        ({
            let after = reduced(m, FrontendEvent::PortChanged(port, error));
            &&& after.diagnostics.port == port
            &&& after.diagnostics.last_error == error
            &&& after.diagnostics.missing_client == m.diagnostics.missing_client
            &&& after.diagnostics.log_spec == m.diagnostics.log_spec
            &&& after == ViewModel { diagnostics: after.diagnostics, ..m }
        }),
        ({
            let after = reduced(m, FrontendEvent::Error(text));
            &&& after.diagnostics.last_error == Some(text)
            &&& after.diagnostics.port == m.diagnostics.port
            &&& after.diagnostics.missing_client == m.diagnostics.missing_client
            &&& after.diagnostics.log_spec == m.diagnostics.log_spec
            &&& after == ViewModel { diagnostics: after.diagnostics, ..m }
        }),
        ({
            let after = reduced(m, FrontendEvent::NoSuchClient(h));
            &&& after.diagnostics.missing_client == Some(h)
            &&& after.diagnostics.port == m.diagnostics.port
            &&& after.diagnostics.last_error == m.diagnostics.last_error
            &&& after.diagnostics.log_spec == m.diagnostics.log_spec
            &&& after == ViewModel { diagnostics: after.diagnostics, ..m }
        }),
        ({
            let after = reduced(m, FrontendEvent::LogSpec(text));
            &&& after.diagnostics.log_spec == text
            &&& after.diagnostics.port == m.diagnostics.port
            &&& after.diagnostics.last_error == m.diagnostics.last_error
            &&& after.diagnostics.missing_client == m.diagnostics.missing_client
            &&& after == ViewModel { diagnostics: after.diagnostics, ..m }
        }),
        ({
            let after = reduced(m, FrontendEvent::CaptureStatus(on));
            &&& after.input_health.capture == on
            &&& after.input_health.emulation == m.input_health.emulation
            &&& after == ViewModel { input_health: after.input_health, ..m }
        }),
        ({
            let after = reduced(m, FrontendEvent::EmulationStatus(on));
            &&& after.input_health.emulation == on
            &&& after.input_health.capture == m.input_health.capture
            &&& after == ViewModel { input_health: after.input_health, ..m }
        }),
        ({
            let after = reduced(m, FrontendEvent::InputSharing(on));
            &&& after.input_sharing == Some(on)
            &&& after == ViewModel { input_sharing: after.input_sharing, ..m }
        }),
        ({
            let after = reduced(m, FrontendEvent::PublicKeyFingerprint(text));
            &&& after.public_key_fingerprint == Some(text)
            &&& after == ViewModel { public_key_fingerprint: after.public_key_fingerprint, ..m }
        }),
        ({
            let after = reduced(m, FrontendEvent::IdentityRegenerated { fingerprint: text });
            &&& after.pending_identity_fingerprint == Some(text)
            &&& after == ViewModel {
                pending_identity_fingerprint: after.pending_identity_fingerprint,
                ..m
            }
        }),
        ({
            let after = reduced(m, FrontendEvent::ClipboardSettings(clipboard));
            &&& after.clipboard == clipboard
            &&& after == ViewModel { clipboard: after.clipboard, ..m }
        }),
        ({
            let after = reduced(m, FrontendEvent::Plugins(plugins));
            &&& after.plugins == plugins@
            &&& after == ViewModel { plugins: after.plugins, ..m }
        }),
{
}

/// An offer of a file is shown once, as it was made last; the settings for receiving
/// are those that the service has, and are no longer waited for; a transfer of the
/// clipboard is shown as it stands. Nothing else changes.
pub proof fn law_offers_and_settings_are_shown(
    m: ViewModel,
    offer: IncomingFileOffer,
    settings: FileReceiveSettings,
    error: Option<String>,
    text: String,
    status: ClipboardTransferStatus,
    i: int,
)
    ensures
        ({
            let after = reduced(m, FrontendEvent::IncomingFileOffer(offer));
            &&& after == ViewModel { pending_file_offers: after.pending_file_offers, ..m }
            &&& after.pending_file_offers.contains(offer)
            &&& 0 <= i < m.pending_file_offers.len() && (m.pending_file_offers[i].transfer_id
                != offer.transfer_id || m.pending_file_offers[i].peer_fingerprint@
                != offer.peer_fingerprint@) ==> after.pending_file_offers.contains(
                m.pending_file_offers[i],
            )
            &&& after.pending_file_offers.len() <= m.pending_file_offers.len() + 1
        }),
        ({
            let after = reduced(m, FrontendEvent::FileReceiveSettingsChanged(settings, error));
            &&& after.file_receive_settings == Some(settings)
            &&& after.file_receive_error == error
            &&& !after.file_receive_pending
            &&& after == ViewModel {
                file_receive_settings: after.file_receive_settings,
                file_receive_error: after.file_receive_error,
                file_receive_pending: after.file_receive_pending,
                ..m
            }
        }),
        ({
            let after = reduced(m, FrontendEvent::ManualTransferError(text));
            &&& after.manual_transfer_error == Some(text)
            &&& after == ViewModel { manual_transfer_error: after.manual_transfer_error, ..m }
        }),
        ({
            let after = reduced(m, FrontendEvent::ClipboardTransferStatus(status));
            let k = (status.transfer_id, status.file_id);
            &&& after == ViewModel { transfers: after.transfers, ..m }
            &&& after.transfers.contains_key(k)
            &&& after.transfers[k] == status
            &&& after.transfers.remove(k) == m.transfers.remove(k)
        }),
{
    let offers = m.pending_file_offers;
    law_repeated_offer_is_one(offers, offer);
    if 0 <= i < offers.len() && !offer_is(offers[i], offer.peer_fingerprint@, offer.transfer_id) {
        lemma_offer_stays(offers, offer, i);
    }
    lemma_offers_len(offers, offer);
    let after = reduced(m, FrontendEvent::ClipboardTransferStatus(status));
    let k = (status.transfer_id, status.file_id);
    assert(after.transfers.remove(k) =~= m.transfers.remove(k));
}

proof fn lemma_offers_len(offers: Seq<IncomingFileOffer>, offer: IncomingFileOffer)
    ensures
        crate::ui::models::offers_with(offers, offer).len() <= offers.len() + 1,
    decreases offers.len(),
{
    if offers.len() > 0 {
        lemma_offers_len(offers.drop_first(), offer);
    }
}

proof fn lemma_offer_stays(offers: Seq<IncomingFileOffer>, offer: IncomingFileOffer, i: int)
    requires
        0 <= i < offers.len(),
        !offer_is(offers[i], offer.peer_fingerprint@, offer.transfer_id),
    ensures
        crate::ui::models::offers_with(offers, offer).contains(offers[i]),
    decreases offers.len(),
{
    let with = crate::ui::models::offers_with(offers, offer);
    let rest = offers.drop_first();
    if offer_is(offers[0], offer.peer_fingerprint@, offer.transfer_id) {
        assert(with[i] == offers[i]);
    } else if i == 0 {
        assert(with[0] == offers[0]);
    } else {
        lemma_offer_stays(rest, offer, i - 1);
        let more = crate::ui::models::offers_with(rest, offer);
        let j = choose|j: int| 0 <= j < more.len() && more[j] == rest[i - 1];
        assert(with[j + 1] == offers[i]);
    }
}

/// A transfer that is over: done, declined, cancelled or failed.
pub open spec fn over(s: ManualTransferState) -> bool {
    s == ManualTransferState::Completed || s == ManualTransferState::Declined || s
        == ManualTransferState::Cancelled || s == ManualTransferState::Failed
}

/// Nothing is made up, what runs stays, and what goes is older than what of the same
/// kind stays.
proof fn lemma_kept(m: Map<(Seq<char>, u64), ManualTransferStatus>, steps: nat)
    requires
        m.dom().finite(),
    ensures
        ({
            let kept = kept_transfers(m, steps);
            &&& kept.dom().finite()
            &&& kept.len() <= m.len()
            &&& kept.submap_of(m)
            &&& m.len() <= 132 ==> kept == m
            &&& forall|k: (Seq<char>, u64)| #[trigger]
                m.contains_key(k) && !kept.contains_key(k) ==> over(m[k].state)
            &&& forall|k: (Seq<char>, u64), q: (Seq<char>, u64)|
                #![trigger m.contains_key(k), kept.contains_key(q)]
                m.contains_key(k) && !kept.contains_key(k) && kept.contains_key(q) && over(
                    kept[q].state,
                ) ==> m[k].transfer_id <= kept[q].transfer_id
            &&& kept.len() >= 132 || kept == m
        }),
    decreases steps,
{
    if !(steps == 0 || m.len() <= 132 || !(exists|k: (Seq<char>, u64)| is_oldest(m, k))) {
        let gone = choose|k: (Seq<char>, u64)| is_oldest(m, k);
        assert(is_oldest(m, gone));
        let less = m.remove(gone);
        lemma_kept(less, (steps - 1) as nat);
        let kept = kept_transfers(m, steps);
        assert(kept == kept_transfers(less, (steps - 1) as nat));
        assert forall|k: (Seq<char>, u64)| #[trigger] m.contains_key(k) && !kept.contains_key(
            k,
        ) implies over(m[k].state) by {
            if k != gone {
                assert(less.contains_key(k));
            }
        }
        assert forall|k: (Seq<char>, u64), q: (Seq<char>, u64)|
            #![trigger m.contains_key(k), kept.contains_key(q)]
            m.contains_key(k) && !kept.contains_key(k) && kept.contains_key(q) && over(
                kept[q].state,
            ) implies m[k].transfer_id <= kept[q].transfer_id by {
            assert(less.contains_key(q));
            assert(m.contains_key(q));
            if k != gone {
                assert(less.contains_key(k));
            }
        }
        assert(kept.submap_of(m)) by {
            assert forall|k: (Seq<char>, u64)| #[trigger] kept.contains_key(k) implies m.contains_key(
                k,
            ) && kept[k] == m[k] by {
                assert(less.contains_key(k));
            }
        }
    }
}

/// The state of a transfer is shown as it stands, and once it no longer waits to be
/// accepted, its offer is gone and every other offer stays. Up to 132 transfers stay in
/// view; beyond that the oldest leave that are over, and none that runs.
pub proof fn law_transfers_are_shown_as_they_stand(
    m: ViewModel,
    status: ManualTransferStatus,
    k: (Seq<char>, u64),
    offer: IncomingFileOffer,
)
    requires
        m.manual_transfers.dom().finite(),
    ensures
        ({
            let after = reduced(m, FrontendEvent::ManualTransferStatus(status));
            let own = (status.peer_fingerprint@, status.transfer_id);
            let shown = after.manual_transfers;
            &&& after == ViewModel {
                manual_transfers: shown,
                pending_file_offers: after.pending_file_offers,
                ..m
            }
            &&& shown.contains_key(own) ==> shown[own] == status
            &&& !over(status.state) || m.manual_transfers.len() < 132 ==> shown.contains_key(own)
            &&& k != own && shown.contains_key(k) ==> m.manual_transfers.contains_key(k)
                && shown[k] == m.manual_transfers[k]
            &&& k != own && m.manual_transfers.contains_key(k) && (!over(
                m.manual_transfers[k].state,
            ) || m.manual_transfers.len() < 132) ==> shown.contains_key(k)
            &&& status.state == ManualTransferState::AwaitingAcceptance
                ==> after.pending_file_offers == m.pending_file_offers
            &&& status.state != ManualTransferState::AwaitingAcceptance
                && offer.peer_fingerprint@ == own.0 && offer.transfer_id == own.1
                ==> !after.pending_file_offers.contains(offer)
            &&& (offer.peer_fingerprint@ != own.0 || offer.transfer_id != own.1)
                && m.pending_file_offers.contains(offer) ==> after.pending_file_offers.contains(
                offer,
            )
        }),
{
    let own = (status.peer_fingerprint@, status.transfer_id);
    let with = m.manual_transfers.insert(own, status);
    lemma_kept(with, with.len());
    law_decision_keeps_other_offers(m.pending_file_offers, own.0, own.1);
    assert(with.contains_key(own));
    assert(with.contains_key(k) == (k == own || m.manual_transfers.contains_key(k)));
}

/// A page of the history that was asked for is shown: a first page in place of the one
/// before, a later one behind it, with the records that are not shown yet. It is no
/// longer waited for, and the error is gone.
pub proof fn law_pages_are_shown(m: ViewModel, page: HistoryPage, i: int)
    requires
        page.query@ == m.history_query@,
    ensures
        ({
            let after = reduced(m, FrontendEvent::HistoryPage(page));
            &&& !after.history_query_pending
            &&& after.history_error is None
            &&& after.history_page is Some
            &&& after == ViewModel {
                history_query_pending: after.history_query_pending,
                history_error: after.history_error,
                history_page: after.history_page,
                history_images: after.history_images,
                ..m
            }
            &&& {
                let shown = after.history_page->Some_0;
                &&& shown.query == page.query@
                &&& shown.next_offset == page.next_offset
                &&& page.offset == 0 || m.history_page is None ==> shown.records == page.records@
                &&& page.offset > 0 && m.history_page is Some && m.history_page->Some_0.query
                    == page.query@ ==> {
                    let before = m.history_page->Some_0.records;
                    &&& shown.offset == 0
                    &&& before.len() <= shown.records.len() <= before.len() + page.records@.len()
                    &&& shown.records.take(before.len() as int) == before
                    &&& 0 <= i < page.records@.len() ==> exists|j: int|
                        0 <= j < shown.records.len() && (
                        #[trigger] shown.records[j]).event_id.origin_device_id@
                            == page.records@[i].event_id.origin_device_id@
                            && shown.records[j].event_id.origin_sequence
                            == page.records@[i].event_id.origin_sequence
                }
            }
        }),
{
    if page.offset > 0 && m.history_page is Some && m.history_page->Some_0.query == page.query@ {
        let before = m.history_page->Some_0.records;
        lemma_records(before, page.records@);
        if 0 <= i < page.records@.len() {
            lemma_record_there(before, page.records@, i);
        }
    }
}

proof fn lemma_records(a: Seq<HistoryRecordSummary>, more: Seq<HistoryRecordSummary>)
    ensures
        a.len() <= records_with(a, more).len() <= a.len() + more.len(),
        records_with(a, more).take(a.len() as int) == a,
    decreases more.len(),
{
    if more.len() > 0 {
        lemma_records(a, more.drop_last());
        let front = records_with(a, more.drop_last());
        assert(records_with(a, more).take(a.len() as int) =~= front.take(a.len() as int));
    } else {
        assert(a.take(a.len() as int) =~= a);
    }
}

proof fn lemma_record_there(a: Seq<HistoryRecordSummary>, more: Seq<HistoryRecordSummary>, i: int)
    requires
        0 <= i < more.len(),
    ensures
        exists|j: int|
            0 <= j < records_with(a, more).len() && (
            #[trigger] records_with(a, more)[j]).event_id.origin_device_id@
                == more[i].event_id.origin_device_id@ && records_with(
                a,
                more,
            )[j].event_id.origin_sequence == more[i].event_id.origin_sequence,
    decreases more.len(),
{
    let front = records_with(a, more.drop_last());
    let all = records_with(a, more);
    if i < more.len() - 1 {
        lemma_record_there(a, more.drop_last(), i);
        let j = choose|j: int|
            0 <= j < front.len() && (#[trigger] front[j]).event_id.origin_device_id@
                == more[i].event_id.origin_device_id@ && front[j].event_id.origin_sequence
                == more[i].event_id.origin_sequence;
        assert(all[j] == front[j]);
    } else if has_record(front, more.last().event_id) {
        let j = choose|j: int|
            0 <= j < front.len() && crate::ui::models::same_event(
                (#[trigger] front[j]).event_id,
                more.last().event_id,
            );
        assert(all[j] == front[j]);
    } else {
        assert(all[front.len() as int] == more[i]);
    }
}

/// A pin that was set is shown at once, on or off, on the record that it is about, and
/// the history is asked for again; one that changed nothing changes no record.
pub proof fn law_pin_results_are_shown(
    m: ViewModel,
    event_id: HistoryEventId,
    pinned: bool,
    updated: bool,
    i: int,
)
    ensures
        ({
            let after = reduced(m, FrontendEvent::HistoryPinResult { event_id, pinned, updated });
            &&& after.history_refresh_needed
            &&& after == ViewModel {
                history_page: after.history_page,
                history_refresh_needed: after.history_refresh_needed,
                ..m
            }
            &&& !updated ==> after.history_page == m.history_page
            &&& m.history_page is None ==> after.history_page is None
            &&& m.history_page is Some ==> {
                let before = m.history_page->Some_0.records;
                let shown = after.history_page->Some_0.records;
                &&& after.history_page is Some
                &&& shown.len() == before.len()
                &&& 0 <= i < before.len() ==> {
                    let first = before[i].event_id.origin_device_id@ == event_id.origin_device_id@
                        && before[i].event_id.origin_sequence == event_id.origin_sequence
                        && forall|j: int|
                        0 <= j < i ==> (#[trigger] before[j]).event_id.origin_device_id@
                            != event_id.origin_device_id@ || before[j].event_id.origin_sequence
                            != event_id.origin_sequence;
                    &&& shown[i] == (HistoryRecordSummary { pinned: shown[i].pinned, ..before[i] })
                    &&& shown[i].pinned == (if updated && first {
                        pinned
                    } else {
                        before[i].pinned
                    })
                }
            }
        }),
{
    if updated && m.history_page is Some {
        let before = m.history_page->Some_0.records;
        lemma_pinned_len(before, event_id, pinned);
        if 0 <= i < before.len() {
            lemma_pinned(before, event_id, pinned, i);
        }
    }
}

proof fn lemma_pinned_len(records: Seq<HistoryRecordSummary>, id: HistoryEventId, pinned: bool)
    ensures
        records_pinned(records, id, pinned).len() == records.len(),
    decreases records.len(),
{
    if records.len() > 0 {
        lemma_pinned_len(records.drop_first(), id, pinned);
    }
}

proof fn lemma_pinned(
    records: Seq<HistoryRecordSummary>,
    id: HistoryEventId,
    pinned: bool,
    i: int,
)
    requires
        0 <= i < records.len(),
    ensures
        ({
            let first = crate::ui::models::same_event(records[i].event_id, id) && forall|j: int|
                0 <= j < i ==> !crate::ui::models::same_event((#[trigger] records[j]).event_id, id);
            records_pinned(records, id, pinned)[i] == (if first {
                HistoryRecordSummary { pinned, ..records[i] }
            } else {
                records[i]
            })
        }),
    decreases records.len(),
{
    lemma_pinned_len(records.drop_first(), id, pinned);
    if i > 0 && !crate::ui::models::same_event(records[0].event_id, id) {
        let rest = records.drop_first();
        lemma_pinned(rest, id, pinned, i - 1);
        if forall|j: int|
            0 <= j < i - 1 ==> !crate::ui::models::same_event((#[trigger] rest[j]).event_id, id) {
            assert forall|j: int| 0 <= j < i implies !crate::ui::models::same_event(
                (#[trigger] records[j]).event_id,
                id,
            ) by {
                if j > 0 {
                    assert(rest[j - 1] == records[j]);
                }
            }
        } else {
            let j = choose|j: int|
                0 <= j < i - 1 && crate::ui::models::same_event((#[trigger] rest[j]).event_id, id);
            assert(records[j + 1] == rest[j]);
        }
    }
}

/// A picture is kept for a record that is shown, and for no other; errors, results of
/// clears and changes of the history are noted, and what they answer is no longer
/// waited for.
pub proof fn law_history_answers_are_noted(
    m: ViewModel,
    event_id: HistoryEventId,
    image: Option<HistoryImage>,
    error: Option<String>,
    text: String,
    operation_id: String,
    affected: u64,
    peers_acknowledged: u32,
)
    ensures
        ({
            let after = reduced(m, FrontendEvent::HistoryImageResult { event_id, image, error });
            let k = (event_id.origin_device_id@, event_id.origin_sequence);
            &&& after.history_error == error
            &&& after == ViewModel {
                history_error: after.history_error,
                history_images: after.history_images,
                ..m
            }
            &&& after.history_images.remove(k) == m.history_images.remove(k)
            &&& image is Some && m.history_page is Some && (exists|i: int|
                0 <= i < m.history_page->Some_0.records.len() && (
                #[trigger] m.history_page->Some_0.records[i]).event_id.origin_device_id@ == k.0
                    && m.history_page->Some_0.records[i].event_id.origin_sequence == k.1)
                ==> after.history_images.contains_key(k) && after.history_images[k]
                == image->Some_0
            &&& image is None || m.history_page is None ==> after.history_images
                == m.history_images
        }),
        ({
            let after = reduced(m, FrontendEvent::HistoryChanged);
            &&& after.history_refresh_needed
            &&& after == ViewModel { history_refresh_needed: after.history_refresh_needed, ..m }
        }),
        ({
            let after = reduced(m, FrontendEvent::HistoryError(text));
            &&& after.history_error == Some(text)
            &&& !after.history_query_pending && !after.history_clear_pending
            &&& !after.history_refresh_needed
            &&& after == ViewModel {
                history_error: after.history_error,
                history_query_pending: after.history_query_pending,
                history_clear_pending: after.history_clear_pending,
                history_refresh_needed: after.history_refresh_needed,
                ..m
            }
        }),
        ({
            let after = reduced(
                m,
                FrontendEvent::HistoryClearResult {
                    operation_id,
                    affected,
                    peers_acknowledged,
                    error,
                },
            );
            &&& after.history_clear_result == Some((affected, peers_acknowledged))
            &&& after.history_clear_error == error
            &&& !after.history_clear_pending
            &&& after.history_refresh_needed
            &&& after == ViewModel {
                history_clear_result: after.history_clear_result,
                history_clear_error: after.history_clear_error,
                history_clear_pending: after.history_clear_pending,
                history_refresh_needed: after.history_refresh_needed,
                ..m
            }
        }),
{
    let after = reduced(m, FrontendEvent::HistoryImageResult { event_id, image, error });
    let k = (event_id.origin_device_id@, event_id.origin_sequence);
    assert(after.history_images.remove(k) =~= m.history_images.remove(k));
}

/// The connection is shown as it is. A connection that is there again changes nothing
/// else; one that is not takes away what was waited for, the offers and the transfers
/// that are not over, and leaves the clients, the history and the rest in view.
pub proof fn law_the_connection_is_shown(
    m: ViewModel,
    e: TransportLifecycleEvent,
    k: (Seq<char>, u64),
)
    ensures
        ({
            let after = transport_reduced(m, e);
            &&& after.status.connected <==> e is Resynchronized
            &&& after.status.reconnecting <==> e is Reconnecting
            &&& after.status.transport == match e {
                TransportLifecycleEvent::DaemonUnavailable => TransportLifecycle::Unavailable,
                TransportLifecycleEvent::Reconnecting => TransportLifecycle::Reconnecting,
                TransportLifecycleEvent::Resynchronized => TransportLifecycle::Ready,
            }
            &&& e is Resynchronized ==> after == ViewModel { status: after.status, ..m }
            &&& !(e is Resynchronized) ==> {
                &&& after.history_refresh_needed
                &&& after.pending_file_offers.len() == 0
                &&& !after.history_query_pending && !after.history_clear_pending
                &&& !after.file_receive_pending && after.file_receive_settings is None
                &&& after.manual_transfers.contains_key(k) <==> m.manual_transfers.contains_key(k)
                    && over(m.manual_transfers[k].state)
                &&& after.manual_transfers.contains_key(k) ==> after.manual_transfers[k]
                    == m.manual_transfers[k]
                &&& after == ViewModel {
                    status: after.status,
                    history_query_pending: after.history_query_pending,
                    history_clear_pending: after.history_clear_pending,
                    history_refresh_needed: after.history_refresh_needed,
                    file_receive_pending: after.file_receive_pending,
                    file_receive_settings: after.file_receive_settings,
                    pending_file_offers: after.pending_file_offers,
                    manual_transfers: after.manual_transfers,
                    ..m
                }
            }
        }),
{
}

/// The history is asked for where it is looked at, changed, can be reached and was not
/// asked for already, and only there.
pub proof fn law_the_history_is_refreshed_where_it_is_seen(m: ViewModel)
    ensures
        refresh_due(m) <==> m.page@ == "history"@ && m.status.connected && m.history_refresh_needed
            && !m.history_query_pending,
        m.page@ == "history"@ && m.status.connected && !m.history_query_pending ==> refresh_due(
            reduced(m, FrontendEvent::HistoryChanged),
        ),
{
}

/// A dashboard that was just opened shows nothing and awaits nothing.
pub proof fn law_a_fresh_dashboard_is_empty(v: ViewModel)
    requires
        is_fresh(v),
    ensures
        v.clients.dom() == Set::<ClientHandle>::empty(),
        v.client_fingerprints.dom() == Set::<ClientHandle>::empty(),
        v.authorization.dom() == Set::<Seq<char>>::empty(),
        v.peer_profiles.dom() == Set::<Seq<char>>::empty(),
        v.transfers.dom() == Set::<(u64, u64)>::empty(),
        v.manual_transfers.dom() == Set::<(Seq<char>, u64)>::empty(),
        v.history_images.dom() == Set::<(Seq<char>, u64)>::empty(),
        v.connected_devices.dom() == Set::<SocketAddr>::empty(),
        v.incoming_devices.dom() == Set::<SocketAddr>::empty(),
        v.plugins.len() == 0 && v.discovered_peers.len() == 0 && v.pending_file_offers.len() == 0,
        v.page@.len() == 0 && v.history_query@.len() == 0 && v.preferences.locale@.len() == 0,
        !v.input_health.capture && !v.input_health.emulation && v.input_sharing is None,
        !v.clipboard.text && !v.clipboard.image && !v.clipboard.files,
        !v.capabilities.capture && !v.capabilities.emulation && !v.capabilities.clipboard_files,
        v.history_page is None && v.history_error is None && v.history_clear_result is None
            && v.history_clear_error is None,
        !v.history_query_pending && !v.history_clear_pending && !v.history_refresh_needed,
        v.file_receive_settings is None && v.file_receive_error is None && !v.file_receive_pending
            && v.manual_transfer_error is None,
        v.diagnostics.last_error is None && v.diagnostics.port == 0
            && v.diagnostics.missing_client is None && v.diagnostics.log_spec@.len() == 0,
        !v.status.connected && !v.status.reconnecting && v.status.transport
            == TransportLifecycle::Unavailable,
        v.public_key_fingerprint is None && v.pending_identity_fingerprint is None
            && v.connection_attempt is None && v.last_disconnected_device is None,
{
    assert(v.clients.dom() =~= Set::<ClientHandle>::empty());
    assert(v.client_fingerprints.dom() =~= Set::<ClientHandle>::empty());
    assert(v.authorization.dom() =~= Set::<Seq<char>>::empty());
    assert(v.peer_profiles.dom() =~= Set::<Seq<char>>::empty());
    assert(v.transfers.dom() =~= Set::<(u64, u64)>::empty());
    assert(v.manual_transfers.dom() =~= Set::<(Seq<char>, u64)>::empty());
    assert(v.history_images.dom() =~= Set::<(Seq<char>, u64)>::empty());
    assert(v.connected_devices.dom() =~= Set::<SocketAddr>::empty());
    assert(v.incoming_devices.dom() =~= Set::<SocketAddr>::empty());
}

} // verus!
