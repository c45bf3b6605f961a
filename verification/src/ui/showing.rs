//! What the dashboard shows of devices, transfers and the history, and what the user
//! can do with files.
use crate::api::ClipboardTransferDirection;
use crate::api::ClipboardTransferState;
use crate::api::ClipboardTransferStatus;
use crate::api::FrontendRequest;
use crate::api::HistoryPreview;
use crate::api::ManualTransferState;
use crate::api::ManualTransferStatus;
use crate::finding::lemma_first;
use crate::finding::lemma_found;
use crate::text::blank;
use crate::text::decimal;
use crate::ui::history_view::history_shown;
use crate::ui::history_view::shown_records;
use crate::ui::history_view::thumbnail_of;
use crate::ui::history_view::HistoryView;
use crate::ui::history_view::RecordKey;
use crate::ui::history_view::Thumbnail;
use crate::ui::labels::handle_of;
use crate::ui::labels::kind_of_name;
use crate::ui::labels::size_text;
use crate::ui::manual::dialog_shown;
use crate::ui::manual::form_shown;
use crate::ui::manual::peers_shown;
use crate::ui::manual::OfferDialog;
use crate::ui::manual::ReceiveForm;
use crate::ui::manual::TransferPeerItem;
use crate::ui::manual_actions::accepts;
use crate::ui::manual_actions::cancels;
use crate::ui::manual_actions::declines;
use crate::ui::manual_actions::drop_target_of;
use crate::ui::manual_actions::drops;
use crate::ui::manual_actions::hit_row;
use crate::ui::manual_actions::is_hit;
use crate::ui::manual_actions::pending;
use crate::ui::manual_actions::saves;
use crate::ui::manual_actions::sends_chosen;
use crate::ui::manual_actions::Answer;
use crate::ui::manual_actions::FilePicker;
use crate::ui::models::ClientModel;
use crate::ui::models::DeviceView;
use crate::ui::models::ClientView;
use crate::ui::models::ViewModel;
use crate::ui::projection::client_shown;
use crate::ui::projection::device_label;
use crate::ui::projection::is_row;
use crate::ui::projection::row_of;
use crate::ui::projection::ClientItem;
use crate::ui::projection::LabelModel;
use crate::ui::projection::LocalDevice;
use crate::ui::settings::SettingsModel;
use crate::ui::transfers::manual_shown;
use crate::ui::transfers::of_state;
use crate::ui::transfers::transfer_shown;
use crate::ui::transfers::TransferDirection;
use crate::ui::transfers::TransferItem;
use crate::ui::transfers::TransferState;
use crate::wording::law_decimals_read_back;
use crate::ui::manual_actions::connected_row;
use crate::ui::manual_actions::is_reachable;
use crate::ui::manual_actions::opens_picker;
use crate::ui::manual_actions::takes_directory;
use crate::ui::manual_actions::takes_download_directory;
use crate::ui::manual_actions::Choice;
use crate::api::Position;
use crate::api::DaemonInfo;
use crate::ui::dashboard::dashboard_shown;
use crate::ui::dashboard::Dashboard;
use crate::ui::dashboard::Window;
use crate::ui::manual::manual_view_shown;
use crate::ui::manual::ManualView;
use crate::ui::models::AppViewState;
use crate::ui::projection::clients_shown;
use crate::ui::projection::device_picture;
use crate::ui::projection::DeviceImage;
use vstd::prelude::*;

verus! {

/// A client has the name that the user gave it; without one, the name that it gives
/// itself; without that, its host name. It counts as alive and ready only while the
/// service is there, and as authorized if its fingerprint is.
pub proof fn law_clients_have_the_names_that_they_were_given(
    item: ClientItem,
    c: ClientModel,
    v: ViewModel,
    s: SettingsModel,
    loaded: bool,
    before: nat,
    fingerprint: Seq<char>,
)
    requires
        client_shown(item, c, v, s, loaded, before),
        v.client_fingerprints.contains_key(c.handle),
        v.client_fingerprints[c.handle]@ == fingerprint,
        fingerprint.len() > 0,
    ensures
        ({
            let key = "cert:"@ + fingerprint;
            let given = s.devices.contains_key(key) && !blank(s.devices[key].friendly_name);
            let said = v.peer_profiles.contains_key(fingerprint) && !blank(
                v.peer_profiles[fingerprint].display_name@,
            );
            &&& item.identity_key@ == key
            &&& item.fingerprint@ == fingerprint
            &&& given ==> item.display_name@ == s.devices[key].friendly_name
            &&& !given && said ==> item.display_name@ == v.peer_profiles[fingerprint].display_name@
            &&& !given && !said ==> item.display_name@ == (match c.hostname {
                Some(name) => name@,
                None => Seq::empty(),
            })
            &&& s.devices.contains_key(key) ==> item.image_path@ == s.devices[key].image_path
            &&& item.authorized <==> v.authorization.contains_key(fingerprint)
        }),
        item.handle@ == decimal(c.handle as nat),
        item.alive <==> v.status.connected && c.alive,
        item.remote_ready <==> v.status.connected && c.remote_ready,
        item.active == c.active,
        item.port == c.port,
        item.fixed_ips@ == c.fixed_ips,
        item.ips@ == c.ips,
        item.dns_ips@ == c.dns_ips,
        item.active_address == c.active_addr,
        item.resolving == c.resolving,
        item.has_pressed_keys == c.has_pressed_keys,
        c.hostname matches Some(name) ==> item.hostname@ == name@,
        before <= i32::MAX ==> item.zone_index == before,
        c.position == Position::Left <==> item.position == 0,
        c.position == Position::Right <==> item.position == 1,
        c.position == Position::Top <==> item.position == 2,
        c.position == Position::Bottom <==> item.position == 3,
        loaded && item.image_path@.len() > 0 ==> item.has_custom_image,
        v.peer_profiles.contains_key(fingerprint) && v.peer_profiles[fingerprint].avatar is Some
            ==> item.has_custom_image,
        c.peer_commit is None ==> item.peer_commit@.len() == 0,
{
}

/// A label that says something: not blank, and not the fingerprint itself.
pub open spec fn says(label: Seq<char>, origin: Seq<char>) -> bool {
    !blank(label) && label != origin
}

/// A device is called by the name of this device where it is this device, by the name
/// of its client where it has one, else by the name that it gives itself, by the one
/// under which it was authorized, or by the one that was recorded with it.
pub proof fn law_devices_are_called_by_the_best_name(
    items: Seq<ClientItem>,
    v: ViewModel,
    local: Seq<char>,
    origin: Seq<char>,
    recorded: Option<Seq<char>>,
    i: int,
)
    ensures
        ({
            let label = device_label(items, v, local, origin, recorded);
            let here = v.public_key_fingerprint is Some && v.public_key_fingerprint->Some_0@
                == origin;
            let listed = exists|k: int|
                0 <= k < items.len() && (#[trigger] items[k]).fingerprint@ == origin;
            let profile = v.peer_profiles.contains_key(origin) && says(
                v.peer_profiles[origin].display_name@,
                origin,
            );
            let key = v.authorization.contains_key(origin) && says(v.authorization[origin]@, origin);
            &&& here && says(local, origin) ==> label == LabelModel::Text(local)
            &&& !here && 0 <= i < items.len() && items[i].fingerprint@ == origin && (forall|k: int|
                0 <= k < i ==> (#[trigger] items[k]).fingerprint@ != origin) && says(
                items[i].display_name@,
                origin,
            ) ==> label == LabelModel::Text(items[i].display_name@)
            &&& !here && !listed && profile ==> label == LabelModel::Text(
                v.peer_profiles[origin].display_name@,
            )
            &&& !here && !listed && !profile && key ==> label == LabelModel::Text(
                v.authorization[origin]@,
            )
            &&& !here && !listed && !profile && !key && recorded is Some && says(
                recorded->Some_0,
                origin,
            ) ==> label == LabelModel::Text(recorded->Some_0)
            &&& !here && !listed && !profile && !key && recorded is None ==> label
                == LabelModel::Key("history-unknown-device"@)
        }),
{
    let n = items.len() as int;
    lemma_first(n, is_row(items, origin));
    if 0 <= i < n && items[i].fingerprint@ == origin && (forall|k: int|
        0 <= k < i ==> (#[trigger] items[k]).fingerprint@ != origin) {
        lemma_first(i, is_row(items, origin));
        lemma_first(i + 1, is_row(items, origin));
        assert(is_row(items, origin)(i));
        assert forall|k: int| 0 <= k < i implies !#[trigger] is_row(items, origin)(k) by {
            assert(items[k].fingerprint@ != origin);
        }
        lemma_found(i + 1, n, is_row(items, origin));
        assert(row_of(items, origin) == Some(i));
    }
    match row_of(items, origin) {
        Some(k) => {
            assert(items[k].fingerprint@ == origin);
        },
        None => {
            assert forall|k: int| 0 <= k < n implies (#[trigger] items[k]).fingerprint@ != origin by {
                assert(!is_row(items, origin)(k));
            }
        },
    }
}

/// A transfer of the clipboard is shown with its own numbers, name, direction and
/// state; it can be cancelled while it waits or runs, and how much is done is never more
/// than all of it.
pub proof fn law_clipboard_transfers_are_shown(item: TransferItem, t: ClipboardTransferStatus)
    requires
        transfer_shown(item, t),
    ensures
        item.transfer_id@ == decimal(t.transfer_id as nat),
        item.file_id@ == decimal(t.file_id as nat),
        item.name@ == t.name@,
        item.direction == TransferDirection::Incoming <==> t.direction
            == ClipboardTransferDirection::Receiving,
        item.state == TransferState::Active <==> (t.state is Pending || t.state is Transferring),
        item.state == TransferState::Completed <==> t.state is Completed,
        item.state == TransferState::Failed <==> t.state is Failed,
        item.state == TransferState::Cancelled <==> t.state is Cancelled,
        item.cancellable <==> (t.state is Pending || t.state is Transferring),
        t.state matches ClipboardTransferState::Failed(m) ==> item.error_message@ == m@,
        t.total_bytes > 0 && t.transferred_bytes <= t.total_bytes ==> item.progress == (
            t.transferred_bytes,
            t.total_bytes,
        ),
        t.total_bytes > 0 && t.transferred_bytes > t.total_bytes ==> item.progress.0
            == item.progress.1,
        item.transferred_label@ == size_text(t.transferred_bytes),
        item.total_label@ == size_text(t.total_bytes),
        !item.manual,
{
}

/// A file that is sent by hand is shown with its own number, name, peer and state; it
/// can be cancelled until it is over.
pub proof fn law_manual_transfers_are_shown(
    item: TransferItem,
    t: ManualTransferStatus,
    items: Seq<ClientItem>,
    v: ViewModel,
    local: LocalDevice,
)
    requires
        manual_shown(item, t, items, v, local),
    ensures
        item.transfer_id@ == decimal(t.transfer_id as nat),
        item.name@ == t.file_name@,
        item.peer_fingerprint@ == t.peer_fingerprint@,
        item.direction == TransferDirection::Incoming <==> t.direction
            == ClipboardTransferDirection::Receiving,
        item.state == TransferState::Completed <==> t.state == ManualTransferState::Completed,
        item.state == TransferState::Failed <==> t.state == ManualTransferState::Failed,
        item.state == TransferState::Cancelled <==> t.state == ManualTransferState::Cancelled
            || t.state == ManualTransferState::Declined,
        item.cancellable <==> item.state == TransferState::Active,
        t.error matches Some(e) ==> item.error_message@ == e@,
        t.destination matches Some(d) ==> item.destination@ == d@,
        t.size > 0 && t.transferred <= t.size ==> item.progress == (t.transferred, t.size),
        t.size == 0 && t.state == ManualTransferState::Completed ==> item.progress.0
            == item.progress.1,
        item.manual,
{
}

/// Each list holds the transfers of its state, all of them and in their order.
pub proof fn law_lists_hold_their_state(rows: Seq<TransferItem>, state: TransferState)
    ensures
        of_state(rows, state) == rows.filter(|r: TransferItem| r.state == state),
    decreases rows.len(),
{
    reveal(Seq::filter);
    if rows.len() > 0 {
        law_lists_hold_their_state(rows.drop_last(), state);
    }
    assert(of_state(rows, state) =~= rows.filter(|r: TransferItem| r.state == state));
}

/// A page of the history shows each record in its place, with its identity, its pin and
/// its preview, says whether there is more, and is busy while something is awaited.
pub proof fn law_the_history_is_shown(
    h: HistoryView,
    items: Seq<ClientItem>,
    v: ViewModel,
    local: LocalDevice,
    cache: Set<RecordKey>,
    i: int,
)
    requires
        history_shown(h, items, v, local, cache),
        v.history_page is Some,
    ensures
        ({
            let page = v.history_page->Some_0;
            &&& h.records@.len() == page.records.len()
            &&& h.has_more <==> page.next_offset is Some
            &&& h.busy <==> v.history_query_pending || v.history_clear_pending
            &&& h.cleared == v.history_clear_result
            &&& v.history_clear_error matches Some(e) ==> h.error@ == e@
            &&& v.history_clear_error is None ==> (v.history_error matches Some(e) ==> h.error@
                == e@)
            &&& 0 <= i < page.records.len() ==> {
                let r = page.records[i];
                let item = h.records@[i];
                &&& item.origin@ == r.event_id.origin_device_id@
                &&& item.sequence@ == decimal(r.event_id.origin_sequence as nat)
                &&& item.pinned == r.pinned
                &&& r.preview matches HistoryPreview::Text { preview, truncated }
                    ==> item.preview_text@ == preview@
                &&& r.preview matches HistoryPreview::Image { size_bytes, width, height }
                    ==> item.preview_text@ == size_text(size_bytes)
                &&& i > 0 && page.records[i - 1].pinned == r.pinned ==> item.group_header@.len()
                    == 0
                &&& (i == 0 || page.records[i - 1].pinned != r.pinned) && r.pinned
                    ==> item.group_header@ == "history-pinned-section"@
                &&& (i == 0 || page.records[i - 1].pinned != r.pinned) && !r.pinned
                    ==> item.group_header@ == "history-recent-section"@
            }
        }),
{
    assert(shown_records(v) == v.history_page->Some_0.records);
}

/// A picture of the history is decoded if it has four bytes for each pixel, and once.
pub proof fn law_pictures_are_decoded_once(
    cache: Set<RecordKey>,
    key: RecordKey,
    image: Option<crate::api::HistoryImage>,
)
    ensures
        cache.contains(key) ==> thumbnail_of(cache, key, image) == Thumbnail::Known,
        image is None && !cache.contains(key) ==> thumbnail_of(cache, key, image)
            == Thumbnail::Absent,
        !cache.contains(key) && (image matches Some(p) && p.width is Some && p.height is Some && 4
            * p.width->Some_0 * p.height->Some_0 == p.bytes@.len() && p.bytes@.len() <= 32 * 1024
            * 1024) ==> thumbnail_of(cache, key, image) is Decode,
        !cache.contains(key) && (image matches Some(p) && (p.width is None || p.height is None || 4
            * p.width->Some_0 * p.height->Some_0 != p.bytes@.len())) ==> thumbnail_of(
            cache,
            key,
            image,
        ) == Thumbnail::Absent,
{
}

/// The kind of a file is what stands behind its last dot, in capitals.
pub proof fn law_kinds_stand_behind_the_dot(stem: Seq<char>, ending: Seq<char>)
    requires
        ending.len() > 0,
        !ending.contains('.'),
    ensures
        kind_of_name(stem + seq!['.'] + ending) == crate::text::upper(ending),
        kind_of_name(ending) == "File"@,
{
    let name = stem + seq!['.'] + ending;
    let at = stem.len() as int + 1;
    let n = name.len() as int;
    assert forall|x: int| at <= x < n implies name[x] != '.' by {
        assert(ending.contains(ending[x - at]));
    }
    assert(name[at - 1] == '.');
    crate::text::law_parts_are_there(name, '.', at, n);
    assert(name.subrange(at, n) =~= ending);
    let parts = crate::text::split(name, '.');
    lemma_not_one(name, at - 1);
    assert(parts.len() > 1);
    assert forall|x: int| 0 <= x < ending.len() implies ending[x] != '.' by {
        assert(ending.contains(ending[x]));
    }
    lemma_no_dot(ending);
}

/// A text with a separator has more than one part.
proof fn lemma_not_one(s: Seq<char>, at: int)
    requires
        0 <= at < s.len(),
        s[at] == '.',
    ensures
        crate::text::split(s, '.').len() > 1,
    decreases s.len(),
{
    let front = s.drop_last();
    if at < front.len() {
        lemma_not_one(front, at);
    } else {
        lemma_some(front);
    }
}

proof fn lemma_some(s: Seq<char>)
    ensures
        crate::text::split(s, '.').len() > 0,
    decreases s.len(),
{
    if s.len() > 0 {
        lemma_some(s.drop_last());
    }
}

proof fn lemma_no_dot(s: Seq<char>)
    requires
        forall|x: int| 0 <= x < s.len() ==> s[x] != '.',
    ensures
        crate::text::split(s, '.').len() == 1,
    decreases s.len(),
{
    if s.len() > 0 {
        lemma_no_dot(s.drop_last());
    }
}

/// A file can be sent to a peer that is shown as connected: the service is there and
/// receives files, and the peer is alive or attached.
pub proof fn law_connected_peers_are_alive(
    peers: Seq<TransferPeerItem>,
    clients: Seq<(crate::api::ClientHandle, ClientView)>,
    devices: Seq<(crate::api::SocketAddr, DeviceView)>,
    items: Seq<ClientItem>,
    v: ViewModel,
    local: LocalDevice,
    i: int,
    k: int,
)
    requires
        peers_shown(peers, clients, devices, items, v, local),
        0 <= i < peers.len(),
    ensures
        peers[i].connected ==> v.status.connected && v.file_receive_settings is Some,
        v.status.connected && v.file_receive_settings is Some && 0 <= k < clients.len()
            && clients[k].1.alive && v.client_fingerprints.contains_key(clients[k].1.handle)
            && v.client_fingerprints[clients[k].1.handle]@ == peers[i].fingerprint@
            && peers[i].fingerprint@.len() > 0 ==> peers[i].connected,
        v.status.connected && v.file_receive_settings is Some && 0 <= k < devices.len()
            && devices[k].1.fingerprint@ == peers[i].fingerprint@ ==> peers[i].connected,
{
    let fingerprint = peers[i].fingerprint@;
    if 0 <= k < clients.len() && clients[k].1.alive && crate::ui::manual::names_peer(
        clients[k].1,
        v,
        fingerprint,
    ) {
        assert(crate::ui::manual::listed_alive(clients, clients.len() as int, v, fingerprint));
    }
    if 0 <= k < devices.len() && devices[k].1.fingerprint@ == fingerprint {
        assert(crate::ui::manual::attached(devices, devices.len() as int, fingerprint));
    }
}

/// The form of received files follows the service until the user changes it; from then
/// on it is the user's, until it is saved.
pub proof fn law_forms_follow_until_they_are_changed(
    before: ReceiveForm,
    after: ReceiveForm,
    v: ViewModel,
)
    requires
        form_shown(before, after, v),
    ensures
        after.dirty == before.dirty,
        before.dirty ==> after.auto_accept == before.auto_accept && after.directory@
            == before.directory@,
        !before.dirty && (v.file_receive_settings matches Some(s)) ==> after.auto_accept
            == v.file_receive_settings->Some_0.auto_accept && after.directory@
            == v.file_receive_settings->Some_0.download_directory@,
        after.busy == v.file_receive_pending,
{
}

/// The dialog is about the first offer that waits, while the service is there. For an
/// offer that it was not about before it starts with the directory that is suggested.
pub proof fn law_the_first_offer_is_asked_about(
    before: OfferDialog,
    after: OfferDialog,
    v: ViewModel,
)
    requires
        dialog_shown(before, after, v),
    ensures
        after.visible <==> v.status.connected && v.pending_file_offers.len() > 0,
        after.visible ==> {
            let offer = v.pending_file_offers[0];
            &&& after.peer@ == offer.peer_fingerprint@
            &&& after.id@ == decimal(offer.transfer_id as nat)
            &&& before.peer@ != offer.peer_fingerprint@ || before.id@ != decimal(
                offer.transfer_id as nat,
            ) ==> after.directory@ == offer.suggested_directory@ && !after.busy
            &&& before.peer@ == offer.peer_fingerprint@ && before.id@ == decimal(
                offer.transfer_id as nat,
            ) ==> after.directory@ == before.directory@ && after.busy == before.busy
        },
        !after.visible ==> after.peer@.len() == 0 && after.id@.len() == 0 && !after.busy
            && after.directory@ == before.directory@ && after.error@ == before.error@,
        after.picker_busy == before.picker_busy,
        after.visible ==> {
            let key = (v.pending_file_offers[0].peer_fingerprint@, v.pending_file_offers[0].transfer_id);
            &&& v.manual_transfers.contains_key(key) && (v.manual_transfers[key].error is Some)
                ==> after.error@ == v.manual_transfers[key].error->Some_0@
            &&& !v.manual_transfers.contains_key(key) ==> after.error@.len() == 0
        },
{
}

/// An offer that waits can be accepted into a directory given by its whole path, and
/// declined; the answer names the offer, and the dialog waits for what follows.
pub proof fn law_offers_are_answered(
    r: Answer,
    before: OfferDialog,
    after: OfferDialog,
    v: ViewModel,
    absolute: bool,
    id: u64,
    i: int,
)
    requires
        before.id@ == decimal(id as nat),
        0 <= i < v.pending_file_offers.len(),
        v.pending_file_offers[i].peer_fingerprint@ == before.peer@,
        v.pending_file_offers[i].transfer_id == id,
    ensures
        accepts(r, before, after, v, absolute) && !before.busy && absolute ==> after.busy && (
        r matches Answer::Send(
            FrontendRequest::AcceptFileTransfer {
                peer_fingerprint,
                transfer_id,
                destination_directory,
            },
        ) && peer_fingerprint@ == before.peer@ && transfer_id == id && destination_directory@
            == before.directory@),
        accepts(r, before, after, v, absolute) && !before.busy && !absolute ==> r is Error && after
            == before,
        accepts(r, before, after, v, absolute) && before.busy ==> r is Ignore && after == before,
        declines(r, before, after, v) ==> after.busy && (r matches Answer::Send(
            FrontendRequest::DeclineFileTransfer { peer_fingerprint, transfer_id },
        ) && peer_fingerprint@ == before.peer@ && transfer_id == id),
{
    law_decimals_read_back(id as nat, u64::MAX as nat);
    assert(handle_of(before.id@) == Some(id));
    assert(pending(v.pending_file_offers, before.peer@, id));
}

/// What no longer waits cannot be answered.
pub proof fn law_gone_offers_are_not_answered(
    r: Answer,
    before: OfferDialog,
    after: OfferDialog,
    v: ViewModel,
    absolute: bool,
)
    requires
        v.pending_file_offers.len() == 0,
    ensures
        accepts(r, before, after, v, absolute) ==> r is Ignore && after == before,
        declines(r, before, after, v) ==> r is Ignore && after == before,
{
}

/// The form is saved as it stands, once it names a directory by its whole path.
pub proof fn law_forms_are_saved_as_they_stand(
    r: Answer,
    before: ReceiveForm,
    after: ReceiveForm,
    dialog: OfferDialog,
    v: ViewModel,
    after_v: ViewModel,
    absolute: bool,
)
    requires
        saves(r, before, after, dialog, v, after_v, absolute),
        !before.busy,
        !dialog.visible,
    ensures
        absolute ==> after.busy && after_v.file_receive_pending && after_v.file_receive_error
            is None && (r matches Answer::Send(FrontendRequest::SetFileReceiveSettings(s))
            && s.auto_accept == before.auto_accept && s.download_directory@ == before.directory@),
        !absolute ==> r is Error && after == before && after_v == v,
{
}

/// The files that were chosen or dropped are sent to the peer that they were meant for,
/// all of them; a transfer is cancelled by its peer and its number.
pub proof fn law_files_go_where_they_were_meant(
    r: Answer,
    after: FilePicker,
    peer: Seq<char>,
    paths: Seq<Seq<char>>,
    target: Option<String>,
    path: Seq<char>,
    id: u64,
)
    ensures
        sends_chosen(r, after, peer, paths) && paths.len() > 0 ==> !after.busy && (
        r matches Answer::Send(FrontendRequest::SendFiles { peer_fingerprint, paths: sent })
            && peer_fingerprint@ == peer && sent@.len() == paths.len() && forall|i: int|
            0 <= i < paths.len() ==> (#[trigger] sent@[i])@ == paths[i]),
        sends_chosen(r, after, peer, paths) && paths.len() == 0 ==> r is Ignore && !after.busy,
        drops(r, target, path) && target is Some ==> (r matches Answer::Send(
            FrontendRequest::SendFiles { peer_fingerprint, paths: sent },
        ) && peer_fingerprint@ == target->Some_0@ && sent@.len() == 1 && sent@[0]@ == path),
        drops(r, target, path) && target is None ==> r is Error,
        cancels(r, peer, decimal(id as nat)) ==> (r matches Answer::Send(
            FrontendRequest::CancelManualTransfer { peer_fingerprint, transfer_id },
        ) && peer_fingerprint@ == peer && transfer_id == id),
{
    law_decimals_read_back(id as nat, u64::MAX as nat);
    assert(handle_of(decimal(id as nat)) == Some(id));
    if sends_chosen(r, after, peer, paths) && paths.len() > 0 {
        let sent = r->Send_0->paths;
        assert(crate::ui::labels::views(sent@) == paths);
        assert forall|i: int| 0 <= i < paths.len() implies (#[trigger] sent@[i])@ == paths[i] by {
            assert(crate::ui::labels::views(sent@)[i] == paths[i]);
        }
    }
    if drops(r, target, path) && target is Some {
        let sent = r->Send_0->paths;
        let one = seq![path];
        assert(one.len() == 1 && one[0] == path);
        assert(crate::ui::labels::views(sent@) == one);
        assert(crate::ui::labels::views(sent@).len() == sent@.len());
        assert(crate::ui::labels::views(sent@)[0] == path);
    }
}

/// A file that is dropped on the row of a connected peer goes to that peer, where the
/// transfers are looked at and nothing is asked; elsewhere it goes nowhere.
pub proof fn law_drops_hit_the_row_below_them(
    page: Seq<char>,
    dialog: OfferDialog,
    in_list: bool,
    peers: Seq<TransferPeerItem>,
    hits: Seq<bool>,
    i: int,
)
    requires
        hits.len() == peers.len(),
        0 <= i < peers.len(),
        hits[i],
        peers[i].connected,
        forall|k: int| 0 <= k < i ==> !#[trigger] hits[k],
    ensures
        page == "transfers"@ && !dialog.visible && in_list ==> drop_target_of(
            page,
            dialog,
            in_list,
            peers,
            hits,
        ) == Some(peers[i].fingerprint@),
        page != "transfers"@ || dialog.visible || !in_list ==> drop_target_of(
            page,
            dialog,
            in_list,
            peers,
            hits,
        ) is None,
{
    let n = peers.len() as int;
    lemma_first(i, is_hit(peers, hits));
    assert(is_hit(peers, hits)(i));
    assert forall|k: int| 0 <= k < i implies !#[trigger] is_hit(peers, hits)(k) by {
        assert(!hits[k]);
    }
    lemma_found(i + 1, n, is_hit(peers, hits));
    assert(hit_row(peers, hits) == Some(i));
}

/// Files can be chosen for a peer that is connected, one choice at a time and not while an
/// offer is asked about; the dialog names the peer.
pub proof fn law_files_are_chosen_for_connected_peers(
    before: FilePicker,
    dialog: OfferDialog,
    peers: Seq<TransferPeerItem>,
    fingerprint: Seq<char>,
    r: Choice,
    after: FilePicker,
    i: int,
)
    requires
        opens_picker(before, dialog, peers, fingerprint, r, after),
    ensures
        before.busy ==> r is Ignore && after.busy,
        !before.busy && dialog.visible ==> r is Error && !after.busy,
        !before.busy && !dialog.visible && 0 <= i < peers.len() && peers[i].connected
            && peers[i].fingerprint@ == fingerprint ==> r is Open && after.busy,
        r matches Choice::Open(name) ==> exists|k: int|
            0 <= k < peers.len() && (#[trigger] peers[k]).connected && peers[k].fingerprint@
                == fingerprint && name@ == peers[k].name@,
{
    let n = peers.len() as int;
    lemma_first(n, is_reachable(peers, fingerprint));
    if 0 <= i < n && peers[i].connected && peers[i].fingerprint@ == fingerprint {
        assert(is_reachable(peers, fingerprint)(i));
    }
    match connected_row(peers, fingerprint) {
        Some(k) => {
            assert(peers[k].connected && peers[k].fingerprint@ == fingerprint);
        },
        None => {},
    }
}

/// A directory that was chosen for an offer is taken if the dialog is still about that
/// offer; one that was chosen for received files is taken, and the form is the user's.
pub proof fn law_chosen_directories_are_taken(
    before: OfferDialog,
    key: (String, u64),
    folder: Option<String>,
    after: OfferDialog,
    form: ReceiveForm,
    after_form: ReceiveForm,
)
    ensures
        takes_directory(before, key, folder, after) ==> {
            &&& !after.picker_busy && after.busy == before.busy && after.peer@ == before.peer@
            &&& before.peer@ == key.0@ && before.id@ == decimal(key.1 as nat) && folder is Some
                ==> after.directory@ == folder->Some_0@
            &&& folder is None || before.peer@ != key.0@ || before.id@ != decimal(key.1 as nat)
                ==> after.directory@ == before.directory@
        },
        takes_download_directory(form, folder, after_form) ==> {
            &&& !after_form.picker_busy && after_form.auto_accept == form.auto_accept
            &&& folder is Some ==> after_form.directory == folder->Some_0 && after_form.dirty
            &&& folder is None ==> after_form.directory == form.directory && after_form.dirty
                == form.dirty
        },
{
}

/// The page of files shows the first offer that waits with its file and its size, how many
/// wait, and what went wrong.
pub proof fn law_the_page_of_files(
    m: ManualView,
    clients: Seq<(crate::api::ClientHandle, ClientView)>,
    devices: Seq<(crate::api::SocketAddr, DeviceView)>,
    items: Seq<ClientItem>,
    v: ViewModel,
    local: LocalDevice,
)
    requires
        manual_view_shown(m, clients, devices, items, v, local),
    ensures
        v.status.connected && v.pending_file_offers.len() > 0 ==> (m.offer matches Some(o)
            && o.file_name@ == v.pending_file_offers[0].file_name@ && o.size@ == size_text(
            v.pending_file_offers[0].size,
        ) && o.peer_name@ == device_label(
            items,
            v,
            local.name@,
            v.pending_file_offers[0].peer_fingerprint@,
            None,
        )),
        !v.status.connected || v.pending_file_offers.len() == 0 ==> m.offer is None,
        v.pending_file_offers.len() <= i32::MAX ==> m.offer_count == v.pending_file_offers.len(),
        v.manual_transfer_error matches Some(e) ==> m.error@ == e@,
        v.manual_transfer_error is None ==> m.error@.len() == 0,
        v.file_receive_error matches Some(e) ==> m.file_receive_error@ == e@,
        m.file_receive_known <==> v.status.connected && v.file_receive_settings is Some,
        peers_shown(m.peers@, clients, devices, items, v, local),
{
}

/// Every client has its row, in its order, with the picture of its own that was loaded.
pub proof fn law_every_client_has_its_row(
    items: Seq<ClientItem>,
    rows: Seq<(crate::api::ClientHandle, ClientView)>,
    v: ViewModel,
    s: SettingsModel,
    loaded: Seq<bool>,
    i: int,
)
    requires
        clients_shown(items, rows, v, s, loaded),
        0 <= i < rows.len(),
    ensures
        items.len() == rows.len(),
        items[i].handle@ == decimal(rows[i].1.handle as nat),
        items[i].port == rows[i].1.port,
        items[i].alive <==> v.status.connected && rows[i].1.alive,
        items[i].active == rows[i].1.active,
        i < loaded.len() && loaded[i] && items[i].image_path@.len() > 0
            ==> items[i].has_custom_image,
        (i >= loaded.len() || !loaded[i]) && !(v.client_fingerprints.contains_key(
            rows[i].1.handle,
        )) && !v.peer_profiles.contains_key(Seq::empty()) ==> !items[i].has_custom_image,
{
}

/// The dashboard shows the state as it is: the connection, the input, the clipboard, the
/// plugins in their order, the keys that are authorized, and the peers that were found.
pub proof fn law_the_dashboard_shows_the_state(
    d: Dashboard,
    state: AppViewState,
    daemon: Option<DaemonInfo>,
    s: SettingsModel,
    loaded: Seq<bool>,
    before: Window,
    i: int,
    key: Seq<char>,
)
    requires
        dashboard_shown(d, state, daemon, s, loaded, before),
    ensures
        ({
            let v = state@;
            &&& d.status.connected == v.status.connected
            &&& d.status.reconnecting == v.status.reconnecting
            &&& d.status.capture_enabled == v.input_health.capture
            &&& d.status.emulation_enabled == v.input_health.emulation
            &&& d.status.input_sharing <==> v.input_sharing == Some(true)
            &&& d.status.input_sharing_known <==> v.status.connected && v.input_sharing is Some
            &&& d.status.clipboard_text_enabled == v.clipboard.text
            &&& d.status.clipboard_image_enabled == v.clipboard.image
            &&& d.status.clipboard_files_enabled == v.clipboard.files
            &&& d.status.capture_supported == v.capabilities.capture
            &&& d.status.emulation_supported == v.capabilities.emulation
            &&& d.status.clipboard_files_supported == v.capabilities.clipboard_files
            &&& d.status.listen_port == v.diagnostics.port
            &&& v.public_key_fingerprint matches Some(f) ==> d.status.local_fingerprint@ == f@
            &&& v.pending_identity_fingerprint matches Some(f)
                ==> d.status.regenerated_fingerprint@ == f@
            &&& v.connection_attempt matches Some(a) ==> d.status.pending_fingerprint@
                == a.fingerprint@
            &&& v.diagnostics.last_error matches Some(e) ==> d.status.diagnostics_error@ == e@
            &&& d.daemon.known <==> daemon is Some
            &&& daemon matches Some(info) ==> d.daemon.version@ == info.version@ && d.daemon.port
                == info.port && d.daemon.pid@ == decimal(info.pid as nat) && d.daemon.executable@
                == info.executable@ && d.daemon.socket@ == info.socket@ && d.daemon.config_dir@
                == info.config_dir@
            &&& d.plugins@.len() == v.plugins.len()
            &&& 0 <= i < v.plugins.len() ==> d.plugins@[i].id@ == v.plugins[i].id@
                && d.plugins@[i].name@ == v.plugins[i].name@ && d.plugins@[i].enabled
                == v.plugins[i].enabled && d.plugins@[i].running == v.plugins[i].running
                && d.plugins@[i].installed == v.plugins[i].installed && d.plugins@[i].version@
                == v.plugins[i].version@
            &&& d.discovered_peers@.len() == v.discovered_peers.len()
            &&& 0 <= i < v.discovered_peers.len() ==> d.discovered_peers@[i].id@
                == v.discovered_peers[i].id@ && d.discovered_peers@[i].display_name@
                == v.discovered_peers[i].display_name@ && d.discovered_peers@[i].port
                == v.discovered_peers[i].port
            &&& v.authorization.contains_key(key) <==> exists|k: int|
                0 <= k < d.authorized_keys@.len() && (#[trigger] d.authorized_keys@[k])@ == key
            &&& d.history is Some <==> v.page@ == "history"@
            &&& d.clients@.len() == state.clients.sequence().len()
        }),
{
    if 0 <= i < state@.plugins.len() {
        assert(crate::ui::dashboard::plugin_shown(d.plugins@[i], state@.plugins[i]));
    }
    if 0 <= i < state@.discovered_peers.len() {
        assert(d.discovered_peers@[i].id@ == state@.discovered_peers[i].id@);
    }
}

/// The picture of a device is the one of this device where it is this device, the one that
/// was chosen for its client where there is one, else the one that it sends of itself.
pub proof fn law_devices_have_the_best_picture(
    items: Seq<ClientItem>,
    v: ViewModel,
    has_local_image: bool,
    origin: Seq<char>,
    i: int,
)
    ensures
        ({
            let picture = device_picture(items, v, has_local_image, origin);
            let here = v.public_key_fingerprint is Some && v.public_key_fingerprint->Some_0@
                == origin;
            let sends = v.peer_profiles.contains_key(origin) && v.peer_profiles[origin].avatar
                is Some;
            let listed = exists|k: int|
                0 <= k < items.len() && (#[trigger] items[k]).fingerprint@ == origin;
            &&& here && has_local_image ==> picture == DeviceImage::Local
            &&& here && !has_local_image ==> picture == DeviceImage::Nowhere
            &&& !here && 0 <= i < items.len() && i <= usize::MAX && items[i].fingerprint@ == origin
                && items[i].has_custom_image && (forall|k: int|
                0 <= k < i ==> (#[trigger] items[k]).fingerprint@ != origin) ==> picture
                == DeviceImage::Client(i as usize)
            &&& !here && !listed && sends ==> picture == DeviceImage::Avatar
            &&& !here && !listed && !sends ==> picture == DeviceImage::Nowhere
        }),
{
    let n = items.len() as int;
    lemma_first(n, is_row(items, origin));
    if 0 <= i < n && items[i].fingerprint@ == origin && (forall|k: int|
        0 <= k < i ==> (#[trigger] items[k]).fingerprint@ != origin) {
        lemma_first(i, is_row(items, origin));
        assert(is_row(items, origin)(i));
        assert forall|k: int| 0 <= k < i implies !#[trigger] is_row(items, origin)(k) by {
            assert(items[k].fingerprint@ != origin);
        }
        lemma_found(i + 1, n, is_row(items, origin));
        assert(row_of(items, origin) == Some(i));
    }
    match row_of(items, origin) {
        Some(k) => {
            assert(items[k].fingerprint@ == origin);
        },
        None => {},
    }
}

} // verus!
