//! What the dashboard does when the user sends a file, answers an offer, or says
//! where received files go.
//!
//! Each function takes what the user did and what the window shows, and says
//! what follows: nothing, an error with the key of its translation, a dialog to
//! open, or a request to the daemon.
use crate::api::FileReceiveSettings;
use crate::api::FrontendRequest;
use crate::api::IncomingFileOffer;
use crate::finding::first_below;
use crate::finding::lemma_first;
use crate::finding::lemma_found;
use crate::text::decimal;
use crate::text::decimal_of;
use crate::text::parse_number;
use crate::text::same_text;
use crate::ui::labels::handle_of;
use crate::ui::labels::views;
use crate::ui::manual::OfferDialog;
use crate::ui::manual::ReceiveForm;
use crate::ui::manual::TransferPeerItem;
use crate::ui::models::AppViewState;
use crate::ui::models::ViewModel;
use crate::ui::projection::Label;
use vstd::prelude::*;

verus! {

/// Where an error is shown.
#[derive(Clone, Copy, Debug, PartialEq, Eq, Structural)]
pub enum Place {
    /// On the page of transfers.
    Transfers,
    /// In the dialog of an offer.
    Offer,
    /// In the form that says where received files go.
    Settings,
}

/// What follows from what the user did.
#[derive(Debug, PartialEq, Eq)]
pub enum Answer {
    /// Nothing.
    Ignore,
    /// The text with this key is shown as an error.
    Error { place: Place, key: String },
    /// The request goes to the daemon.
    Send(FrontendRequest),
}

/// The dialog in which files are chosen.
#[derive(Clone, Copy, Debug, PartialEq, Eq, Structural)]
pub struct FilePicker {
    /// It is open.
    pub busy: bool,
}

/// What follows from the wish to choose files for a peer.
#[derive(Debug, PartialEq, Eq)]
pub enum Choice {
    Ignore,
    /// The text with this key is shown as an error.
    Error { place: Place, key: String },
    /// The files are chosen in a dialog that names the peer.
    Open(Label),
}

// ---------------------------------------------------------------------------
// Choosing files
// ---------------------------------------------------------------------------

/// A peer that can be reached.
pub open spec fn is_reachable(peers: Seq<TransferPeerItem>, fingerprint: Seq<char>) -> spec_fn(
    int,
) -> bool {
    |i: int| peers[i].connected && peers[i].fingerprint@ == fingerprint
}

/// The row of a peer that can be reached.
pub open spec fn connected_row(peers: Seq<TransferPeerItem>, fingerprint: Seq<char>) -> Option<int> {
    first_below(peers.len() as int, is_reachable(peers, fingerprint))
}

fn find_connected(peers: &Vec<TransferPeerItem>, fingerprint: &str) -> (r: Option<usize>)
    ensures
        match r {
            Some(i) => connected_row(peers@, fingerprint@) == Some(i as int) && i < peers@.len(),
            None => connected_row(peers@, fingerprint@) is None,
        },
{
    let mut i: usize = 0;
    while i < peers.len()
        invariant
            i <= peers@.len(),
            first_below(i as int, is_reachable(peers@, fingerprint@)) is None,
        decreases peers@.len() - i,
    {
        if peers[i].connected && same_text(peers[i].fingerprint.as_str(), fingerprint) {
            proof {
                lemma_found(i + 1, peers@.len() as int, is_reachable(peers@, fingerprint@));
            }
            return Some(i);
        }
        i = i + 1;
    }
    None
}

fn copy_label(label: &Label) -> (r: Label)
    ensures
        r@ == label@,
{
    match label {
        Label::Text(s) => Label::Text(s.clone()),
        Label::Key(s) => Label::Key(s.clone()),
    }
}

/// What asking for files to send does.
pub open spec fn opens_picker(
    before: FilePicker,
    dialog: OfferDialog,
    peers: Seq<TransferPeerItem>,
    fingerprint: Seq<char>,
    r: Choice,
    after: FilePicker,
) -> bool {
    &&& after.busy == (before.busy || r is Open)
    &&& match r {
        Choice::Ignore => before.busy,
        Choice::Error { place, key } => !before.busy && place == Place::Transfers
            && if dialog.visible {
            key@ == "manual-transfer-finish-dialog"@
        } else {
            connected_row(peers, fingerprint) is None && key@
                == "manual-transfer-connect-peer"@
        },
        Choice::Open(name) => !before.busy && !dialog.visible && connected_row(
            peers,
            fingerprint,
        ) is Some && name@ == peers[connected_row(peers, fingerprint)->Some_0].name@,
    }
}

/// The user wants to send files to a peer. One dialog is open at a time, an
/// offer comes first, and the peer must be reachable.
pub fn choose_manual_files(
    picker: &mut FilePicker,
    dialog: &OfferDialog,
    peers: &Vec<TransferPeerItem>,
    fingerprint: &str,
) -> (r: Choice)
    ensures
        opens_picker(*old(picker), *dialog, peers@, fingerprint@, r, *final(picker)),
{
    if picker.busy {
        return Choice::Ignore;
    }
    if dialog.visible {
        return Choice::Error {
            place: Place::Transfers,
            key: "manual-transfer-finish-dialog".to_owned(),
        };
    }
    match find_connected(peers, fingerprint) {
        Some(i) => {
            picker.busy = true;
            Choice::Open(copy_label(&peers[i].name))
        },
        None => Choice::Error {
            place: Place::Transfers,
            key: "manual-transfer-connect-peer".to_owned(),
        },
    }
}

/// A request to send files.
pub open spec fn sends(r: FrontendRequest, fingerprint: Seq<char>, paths: Seq<Seq<char>>) -> bool {
    match r {
        FrontendRequest::SendFiles { peer_fingerprint, paths: sent } => peer_fingerprint@
            == fingerprint && views(sent@) == paths,
        _ => false,
    }
}

/// What choosing files does.
pub open spec fn sends_chosen(
    r: Answer,
    after: FilePicker,
    fingerprint: Seq<char>,
    paths: Seq<Seq<char>>,
) -> bool {
    !after.busy && match r {
        Answer::Send(request) => paths.len() > 0 && sends(
            request,
            fingerprint,
            paths,
        ),
        Answer::Ignore => paths.len() == 0,
        Answer::Error { .. } => false,
    }
}

/// The user chose files, or none; the dialog is closed.
pub fn files_chosen(picker: &mut FilePicker, fingerprint: &str, paths: Vec<String>) -> (r: Answer)
    ensures
        sends_chosen(r, *final(picker), fingerprint@, views(paths@)),
{
    picker.busy = false;
    if paths.len() == 0 {
        Answer::Ignore
    } else {
        Answer::Send(
            FrontendRequest::SendFiles { peer_fingerprint: fingerprint.to_owned(), paths },
        )
    }
}

/// What cancelling a transfer does.
pub open spec fn cancels(r: Answer, peer: Seq<char>, id: Seq<char>) -> bool {
    match r {
        Answer::Send(FrontendRequest::CancelManualTransfer { peer_fingerprint, transfer_id }) => {
            &&& peer_fingerprint@ == peer
            &&& handle_of(id) == Some(transfer_id)
        },
        Answer::Error { place, key } => handle_of(id) is None && place == Place::Transfers
            && key@ == "manual-transfer-invalid-id"@,
        _ => false,
    }
}

/// The user wants to stop a transfer.
pub fn cancel_manual_transfer(peer: &str, id: &str) -> (r: Answer)
    ensures
        cancels(r, peer@, id@),
{
    match parse_number(id, u64::MAX) {
        Some(transfer_id) => Answer::Send(
            FrontendRequest::CancelManualTransfer {
                peer_fingerprint: peer.to_owned(),
                transfer_id,
            },
        ),
        None => Answer::Error {
            place: Place::Transfers,
            key: "manual-transfer-invalid-id".to_owned(),
        },
    }
}

// ---------------------------------------------------------------------------
// Answering an offer
// ---------------------------------------------------------------------------

/// The offer is still pending.
pub open spec fn pending(offers: Seq<IncomingFileOffer>, peer: Seq<char>, id: u64) -> bool {
    exists|i: int|
        0 <= i < offers.len() && (#[trigger] offers[i]).peer_fingerprint@ == peer
            && offers[i].transfer_id == id
}

/// The offer that the dialog is about, if it still is pending.
pub open spec fn offer_key_of(dialog: OfferDialog, v: ViewModel) -> Option<(Seq<char>, u64)> {
    match handle_of(dialog.id@) {
        Some(id) => if pending(v.pending_file_offers, dialog.peer@, id) {
            Some((dialog.peer@, id))
        } else {
            None
        },
        None => None,
    }
}

/// The offer that the dialog is about, if it still is pending.
pub fn offer_key(dialog: &OfferDialog, state: &AppViewState) -> (r: Option<(String, u64)>)
    ensures
        match r {
            Some(key) => offer_key_of(*dialog, state@) == Some((key.0@, key.1)),
            None => offer_key_of(*dialog, state@) is None,
        },
{
    let id: u64 = match parse_number(dialog.id.as_str(), u64::MAX) {
        Some(id) => id,
        None => {
            return None;
        },
    };
    let mut i: usize = 0;
    while i < state.pending_file_offers.len()
        invariant
            i <= state.pending_file_offers@.len(),
            handle_of(dialog.id@) == Some(id),
            forall|j: int|
                0 <= j < i ==> !((#[trigger] state.pending_file_offers@[j]).peer_fingerprint@
                    == dialog.peer@ && state.pending_file_offers@[j].transfer_id == id),
        decreases state.pending_file_offers@.len() - i,
    {
        if state.pending_file_offers[i].transfer_id == id && same_text(
            state.pending_file_offers[i].peer_fingerprint.as_str(),
            dialog.peer.as_str(),
        ) {
            assert(pending(state@.pending_file_offers, dialog.peer@, id));
            return Some((dialog.peer.clone(), id));
        }
        i = i + 1;
    }
    None
}

/// The dialog once the user has answered.
pub open spec fn answered(before: OfferDialog, after: OfferDialog) -> bool {
    after == OfferDialog { busy: true, ..before }
}

/// What accepting an offer does.
pub open spec fn accepts(
    r: Answer,
    before: OfferDialog,
    after: OfferDialog,
    v: ViewModel,
    absolute: bool,
) -> bool {
    match r {
        Answer::Ignore => (before.busy || offer_key_of(before, v) is None)
            && after == before,
        Answer::Error { place, key } => {
            &&& place == Place::Offer
            &&& !before.busy
            &&& offer_key_of(before, v) is Some
            &&& !absolute
            &&& key@ == "manual-transfer-absolute-folder"@
            &&& after == before
        },
        Answer::Send(
            FrontendRequest::AcceptFileTransfer {
                peer_fingerprint,
                transfer_id,
                destination_directory,
            },
        ) => {
            &&& !before.busy
            &&& absolute
            &&& offer_key_of(before, v) == Some((peer_fingerprint@, transfer_id))
            &&& destination_directory@ == before.directory@
            &&& answered(before, after)
        },
        _ => false,
    }
}

/// The user accepts the offer. An offer is answered once; the directory must be
/// absolute.
pub fn accept_incoming_file(dialog: &mut OfferDialog, state: &AppViewState, absolute: bool) -> (r:
    Answer)
    ensures
        accepts(r, *old(dialog), *final(dialog), state@, absolute),
{
    if dialog.busy {
        return Answer::Ignore;
    }
    match offer_key(dialog, state) {
        None => Answer::Ignore,
        Some((peer_fingerprint, transfer_id)) => {
            if !absolute {
                return Answer::Error {
                    place: Place::Offer,
                    key: "manual-transfer-absolute-folder".to_owned(),
                };
            }
            dialog.busy = true;
            Answer::Send(
                FrontendRequest::AcceptFileTransfer {
                    peer_fingerprint,
                    transfer_id,
                    destination_directory: dialog.directory.clone(),
                },
            )
        },
    }
}

/// What declining an offer does.
pub open spec fn declines(r: Answer, before: OfferDialog, after: OfferDialog, v: ViewModel) -> bool {
    match r {
        Answer::Ignore => offer_key_of(before, v) is None && after == before,
        Answer::Send(FrontendRequest::DeclineFileTransfer { peer_fingerprint, transfer_id }) => {
            &&& offer_key_of(before, v) == Some((peer_fingerprint@, transfer_id))
            &&& answered(before, after)
        },
        _ => false,
    }
}

/// The user declines the offer.
pub fn decline_incoming_file(dialog: &mut OfferDialog, state: &AppViewState) -> (r: Answer)
    ensures
        declines(r, *old(dialog), *final(dialog), state@),
{
    match offer_key(dialog, state) {
        None => Answer::Ignore,
        Some((peer_fingerprint, transfer_id)) => {
            dialog.busy = true;
            Answer::Send(FrontendRequest::DeclineFileTransfer { peer_fingerprint, transfer_id })
        },
    }
}

/// The user wants another directory for the offer: the offer that it is for, and
/// one dialog at a time.
pub fn choose_incoming_directory(dialog: &mut OfferDialog, state: &AppViewState) -> (r: Option<
    (String, u64),
>)
    ensures
        match r {
            Some(key) => {
                &&& !old(dialog).picker_busy && !old(dialog).busy
                &&& offer_key_of(*old(dialog), state@) == Some((key.0@, key.1))
                &&& *final(dialog) == (OfferDialog { picker_busy: true, ..*old(dialog) })
            },
            None => {
                &&& old(dialog).picker_busy || old(dialog).busy || offer_key_of(
                    *old(dialog),
                    state@,
                ) is None
                &&& *final(dialog) == *old(dialog)
            },
        },
{
    if dialog.picker_busy || dialog.busy {
        return None;
    }
    match offer_key(dialog, state) {
        None => None,
        Some(key) => {
            dialog.picker_busy = true;
            Some(key)
        },
    }
}

/// What choosing a directory for an offer does.
pub open spec fn takes_directory(
    before: OfferDialog,
    key: (String, u64),
    folder: Option<String>,
    after: OfferDialog,
) -> bool {
    let same = before.peer@ == key.0@ && before.id@ == decimal(key.1 as nat);
    &&& !after.picker_busy
    &&& after.visible == before.visible
    &&& after.peer@ == before.peer@
    &&& after.id@ == before.id@
    &&& after.busy == before.busy
    &&& if same && folder is Some {
        after.directory@ == folder->Some_0@ && after.error@.len() == 0
    } else {
        after.directory@ == before.directory@ && after.error@ == before.error@
    }
}

/// The user chose a directory, or none, for the offer that the key says. It
/// counts only while the dialog is about that offer.
pub fn incoming_directory_chosen(
    dialog: &mut OfferDialog,
    key: &(String, u64),
    folder: Option<String>,
)
    ensures
        takes_directory(*old(dialog), *key, folder, *final(dialog)),
{
    dialog.picker_busy = false;
    let id: String = decimal_of(key.1);
    if same_text(dialog.peer.as_str(), key.0.as_str()) && same_text(
        dialog.id.as_str(),
        id.as_str(),
    ) {
        match folder {
            Some(folder) => {
                dialog.directory = folder;
                dialog.error = String::new();
            },
            None => {},
        }
    }
}

// ---------------------------------------------------------------------------
// Where received files go
// ---------------------------------------------------------------------------

/// The user wants another directory for received files; `false` where a dialog
/// is open, the daemon has not answered yet, or an offer comes first.
pub fn choose_download_directory(form: &mut ReceiveForm, dialog: &OfferDialog) -> (r: bool)
    ensures
        r == !(old(form).picker_busy || old(form).busy || dialog.visible),
        r ==> *final(form) == (ReceiveForm { picker_busy: true, ..*old(form) }),
        !r ==> *final(form) == *old(form),
{
    if form.picker_busy || form.busy || dialog.visible {
        return false;
    }
    form.picker_busy = true;
    true
}

/// What choosing a directory for received files does.
pub open spec fn takes_download_directory(
    before: ReceiveForm,
    folder: Option<String>,
    after: ReceiveForm,
) -> bool {
    match folder {
        Some(folder) => after == (ReceiveForm {
            picker_busy: false,
            directory: folder,
            dirty: true,
            ..before
        }),
        None => after == (ReceiveForm { picker_busy: false, ..before }),
    }
}

/// The user chose a directory for received files, or none.
pub fn download_directory_chosen(form: &mut ReceiveForm, folder: Option<String>)
    ensures
        takes_download_directory(*old(form), folder, *final(form)),
{
    form.picker_busy = false;
    match folder {
        Some(folder) => {
            form.directory = folder;
            form.dirty = true;
        },
        None => {},
    }
}

/// What saving the form of received files does.
pub open spec fn saves(
    r: Answer,
    before: ReceiveForm,
    after: ReceiveForm,
    dialog: OfferDialog,
    v: ViewModel,
    after_v: ViewModel,
    absolute: bool,
) -> bool {
    match r {
        Answer::Ignore => (before.busy || dialog.visible) && after == before
            && after_v == v,
        Answer::Error { place, key } => {
            &&& place == Place::Settings
            &&& !before.busy && !dialog.visible && !absolute
            &&& key@ == "manual-transfer-absolute-folder"@
            &&& after == before
            &&& after_v == v
        },
        Answer::Send(FrontendRequest::SetFileReceiveSettings(settings)) => {
            &&& !before.busy && !dialog.visible && absolute
            &&& settings.auto_accept == before.auto_accept
            &&& settings.download_directory@ == before.directory@
            &&& after == (ReceiveForm { busy: true, ..before })
            &&& after_v == (ViewModel {
                file_receive_pending: true,
                file_receive_error: None,
                ..v
            })
        },
        _ => false,
    }
}

/// The user saves the form. The daemon's answer is awaited; the directory must
/// be absolute.
pub fn save_file_receive_settings(
    form: &mut ReceiveForm,
    dialog: &OfferDialog,
    state: &mut AppViewState,
    absolute: bool,
) -> (r: Answer)
    ensures
        saves(r, *old(form), *final(form), *dialog, old(state)@, final(state)@, absolute),
{
    if form.busy || dialog.visible {
        return Answer::Ignore;
    }
    if !absolute {
        return Answer::Error {
            place: Place::Settings,
            key: "manual-transfer-absolute-folder".to_owned(),
        };
    }
    state.file_receive_pending = true;
    state.file_receive_error = None;
    form.busy = true;
    Answer::Send(
        FrontendRequest::SetFileReceiveSettings(
            FileReceiveSettings {
                auto_accept: form.auto_accept,
                download_directory: form.directory.clone(),
            },
        ),
    )
}

/// An error is shown.
pub fn show_manual_error(state: &mut AppViewState, message: String)
    ensures
        final(state)@ == (ViewModel { manual_transfer_error: Some(message), ..old(state)@ }),
{
    state.manual_transfer_error = Some(message);
}

/// Before a request is sent the last error is taken off the screen.
pub fn clear_manual_error(state: &mut AppViewState)
    ensures
        final(state)@ == (ViewModel { manual_transfer_error: None, ..old(state)@ }),
{
    state.manual_transfer_error = None;
}

// ---------------------------------------------------------------------------
// Files dropped onto the window
// ---------------------------------------------------------------------------

/// A reachable peer whose picture is under the pointer.
pub open spec fn is_hit(peers: Seq<TransferPeerItem>, hits: Seq<bool>) -> spec_fn(int) -> bool {
    |i: int| peers[i].connected && i < hits.len() && hits[i]
}

/// The first reachable peer whose picture is under the pointer.
pub open spec fn hit_row(peers: Seq<TransferPeerItem>, hits: Seq<bool>) -> Option<int> {
    first_below(peers.len() as int, is_hit(peers, hits))
}

/// The peer that a drop is meant for: on the page of transfers, while no offer
/// is shown, inside the list.
pub open spec fn drop_target_of(
    page: Seq<char>,
    dialog: OfferDialog,
    in_list: bool,
    peers: Seq<TransferPeerItem>,
    hits: Seq<bool>,
) -> Option<Seq<char>> {
    if page != "transfers"@ || dialog.visible || !in_list {
        None
    } else {
        match hit_row(peers, hits) {
            Some(i) => Some(peers[i].fingerprint@),
            None => None,
        }
    }
}

/// The peer that a drop is meant for; `hits` says of each peer whether the
/// pointer is over its picture, `in_list` whether it is over the list.
pub fn drop_target(
    page: &str,
    dialog: &OfferDialog,
    in_list: bool,
    peers: &Vec<TransferPeerItem>,
    hits: &Vec<bool>,
) -> (r: Option<String>)
    ensures
        match r {
            Some(fingerprint) => drop_target_of(page@, *dialog, in_list, peers@, hits@) == Some(
                fingerprint@,
            ),
            None => drop_target_of(page@, *dialog, in_list, peers@, hits@) is None,
        },
{
    if !same_text(page, "transfers") || dialog.visible || !in_list {
        return None;
    }
    let mut i: usize = 0;
    while i < peers.len()
        invariant
            i <= peers@.len(),
            page@ == "transfers"@ && !dialog.visible && in_list,
            first_below(i as int, is_hit(peers@, hits@)) is None,
        decreases peers@.len() - i,
    {
        if peers[i].connected && i < hits.len() && hits[i] {
            proof {
                lemma_found(i + 1, peers@.len() as int, is_hit(peers@, hits@));
            }
            return Some(peers[i].fingerprint.clone());
        }
        i = i + 1;
    }
    None
}

/// What dropping a file does.
pub open spec fn drops(r: Answer, target: Option<String>, path: Seq<char>) -> bool {
    match r {
        Answer::Send(request) => target is Some && sends(
            request,
            target->Some_0@,
            seq![path],
        ),
        Answer::Error { place, key } => target is None && place == Place::Transfers && key@
            == "manual-transfer-drop-error"@,
        Answer::Ignore => false,
    }
}

/// A file was dropped onto a peer, or beside them.
pub fn file_dropped(target: Option<String>, path: String) -> (r: Answer)
    ensures
        drops(r, target, path@),
{
    match target {
        Some(peer_fingerprint) => {
            let mut paths: Vec<String> = Vec::new();
            paths.push(path);
            assert(views(paths@) =~= seq![path@]);
            Answer::Send(FrontendRequest::SendFiles { peer_fingerprint, paths })
        },
        None => Answer::Error {
            place: Place::Transfers,
            key: "manual-transfer-drop-error".to_owned(),
        },
    }
}

/// Whether to go on waiting for the window: it may take a while to come, but not
/// five seconds.
pub fn waits_for_window(exists: bool, elapsed_ms: u64) -> (r: bool)
    ensures
        r == (!exists && elapsed_ms < 5000),
{
    !exists && elapsed_ms < 5000
}

/// A file can only go to a peer that the dashboard shows as reachable.
pub proof fn law_drops_reach_connected_peers(
    page: Seq<char>,
    dialog: OfferDialog,
    in_list: bool,
    peers: Seq<TransferPeerItem>,
    hits: Seq<bool>,
)
    requires
        drop_target_of(page, dialog, in_list, peers, hits) is Some,
    ensures
        !dialog.visible,
        exists|i: int|
            0 <= i < peers.len() && (#[trigger] peers[i]).connected && peers[i].fingerprint@
                == drop_target_of(page, dialog, in_list, peers, hits)->Some_0,
{
    lemma_first(peers.len() as int, is_hit(peers, hits));
    let i = hit_row(peers, hits)->Some_0;
    assert(peers[i].connected);
}

} // verus!
