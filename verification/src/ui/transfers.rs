//! What the dashboard shows of transfers: those of the clipboard, and those that
//! the user started or was offered.
use crate::api::ClipboardTransferDirection;
use crate::api::ClipboardTransferState;
use crate::api::ClipboardTransferStatus;
use crate::api::ManualTransferState;
use crate::api::ManualTransferStatus;
use crate::text::decimal;
use crate::text::decimal_of;
use crate::ui::labels::file_kind;
use crate::ui::labels::format_bytes;
use crate::ui::labels::format_rate;
use crate::ui::labels::kind_of_name;
use crate::ui::labels::rate_text;
use crate::ui::labels::size_text;
use crate::ui::models::AppViewState;
use crate::ui::models::ViewModel;
use crate::ui::projection::device_label;
use crate::ui::projection::device_picture;
use crate::ui::projection::device_presentation;
use crate::ui::projection::or_empty;
use crate::ui::projection::text_or_empty;
use crate::ui::projection::ClientItem;
use crate::ui::projection::DeviceImage;
use crate::ui::projection::Label;
use crate::ui::projection::LabelModel;
use crate::ui::projection::LocalDevice;
use vstd::prelude::*;

verus! {

#[derive(Clone, Copy, Debug, PartialEq, Eq, Structural)]
pub enum TransferDirection {
    Incoming,
    Outgoing,
}

#[derive(Clone, Copy, Debug, PartialEq, Eq, Structural)]
pub enum TransferState {
    Active,
    Completed,
    Failed,
    Cancelled,
}

/// A row of a list of transfers.
#[derive(Debug, PartialEq, Eq)]
pub struct TransferItem {
    pub transfer_id: String,
    pub file_id: String,
    pub name: String,
    pub kind_label: Label,
    pub direction: TransferDirection,
    pub transferred_label: String,
    pub total_label: String,
    pub rate_label: String,
    /// How much is done, and of how much: a part of at most one.
    pub progress: (u64, u64),
    pub state: TransferState,
    pub error_message: String,
    pub cancellable: bool,
    pub manual: bool,
    pub peer_fingerprint: String,
    pub peer_label: Label,
    pub peer_image: DeviceImage,
    pub status_label: Label,
    /// The key of what is said of the destination, and the destination; both
    /// empty where there is none.
    pub destination_key: String,
    pub destination: String,
    pub show_progress: bool,
}

/// How much is done of how much, never more than all of it.
pub open spec fn part_done(done: u64, total: u64) -> (u64, u64) {
    if total == 0 {
        (0, 1)
    } else if done > total {
        (total, total)
    } else {
        (done, total)
    }
}

fn part_of(done: u64, total: u64) -> (r: (u64, u64))
    ensures
        r == part_done(done, total),
{
    if total == 0 {
        (0, 1)
    } else if done > total {
        (total, total)
    } else {
        (done, total)
    }
}

/// What is done is a part of at most one, of something.
pub proof fn law_progress_is_a_part(done: u64, total: u64)
    ensures
        part_done(done, total).0 <= part_done(done, total).1,
        part_done(done, total).1 > 0,
        done < total ==> part_done(done, total) == (done, total),
{
}

pub open spec fn direction_shown(d: ClipboardTransferDirection) -> TransferDirection {
    match d {
        ClipboardTransferDirection::Receiving => TransferDirection::Incoming,
        ClipboardTransferDirection::Sending => TransferDirection::Outgoing,
    }
}

fn shown_direction(d: ClipboardTransferDirection) -> (r: TransferDirection)
    ensures
        r == direction_shown(d),
{
    match d {
        ClipboardTransferDirection::Receiving => TransferDirection::Incoming,
        ClipboardTransferDirection::Sending => TransferDirection::Outgoing,
    }
}

pub open spec fn state_shown(s: ClipboardTransferState) -> TransferState {
    match s {
        ClipboardTransferState::Pending | ClipboardTransferState::Transferring =>
            TransferState::Active,
        ClipboardTransferState::Completed => TransferState::Completed,
        ClipboardTransferState::Cancelled => TransferState::Cancelled,
        ClipboardTransferState::Failed(_) => TransferState::Failed,
    }
}

/// How a row shows the transfer of a clipboard file.
pub open spec fn transfer_shown(item: TransferItem, t: ClipboardTransferStatus) -> bool {
    &&& item.transfer_id@ == decimal(t.transfer_id as nat)
    &&& item.file_id@ == decimal(t.file_id as nat)
    &&& item.name@ == t.name@
    &&& item.kind_label@ == LabelModel::Text(kind_of_name(t.name@))
    &&& item.direction == direction_shown(t.direction)
    &&& item.transferred_label@ == size_text(t.transferred_bytes)
    &&& item.total_label@ == size_text(t.total_bytes)
    &&& item.rate_label@ == rate_text(t.bytes_per_second)
    &&& item.progress == part_done(t.transferred_bytes, t.total_bytes)
    &&& item.state == state_shown(t.state)
    &&& item.error_message@ == (match t.state {
        ClipboardTransferState::Failed(message) => message@,
        _ => Seq::empty(),
    })
    &&& item.cancellable == (state_shown(t.state) == TransferState::Active)
    &&& !item.manual
    &&& item.peer_fingerprint@.len() == 0
    &&& item.peer_label@ == LabelModel::Text(Seq::empty())
    &&& item.peer_image == DeviceImage::Nowhere
    &&& item.status_label@ == LabelModel::Text(Seq::empty())
    &&& item.destination_key@.len() == 0
    &&& item.destination@.len() == 0
    &&& item.show_progress
}

fn empty() -> (r: String)
    ensures
        r@ == Seq::<char>::empty(),
{
    let r: String = String::new();
    assert(r@ =~= Seq::<char>::empty());
    r
}

/// A row for the transfer of a clipboard file.
pub fn transfer_item(transfer: &ClipboardTransferStatus) -> (item: TransferItem)
    ensures
        transfer_shown(item, *transfer),
{
    let (state, error_message) = match &transfer.state {
        ClipboardTransferState::Pending | ClipboardTransferState::Transferring => (
            TransferState::Active,
            empty(),
        ),
        ClipboardTransferState::Completed => (TransferState::Completed, empty()),
        ClipboardTransferState::Cancelled => (TransferState::Cancelled, empty()),
        ClipboardTransferState::Failed(message) => (TransferState::Failed, message.clone()),
    };
    TransferItem {
        transfer_id: decimal_of(transfer.transfer_id),
        file_id: decimal_of(transfer.file_id),
        name: transfer.name.clone(),
        kind_label: Label::Text(file_kind(transfer.name.as_str())),
        direction: shown_direction(transfer.direction),
        transferred_label: format_bytes(transfer.transferred_bytes),
        total_label: format_bytes(transfer.total_bytes),
        rate_label: format_rate(transfer.bytes_per_second),
        progress: part_of(transfer.transferred_bytes, transfer.total_bytes),
        state,
        error_message,
        cancellable: state == TransferState::Active,
        manual: false,
        peer_fingerprint: empty(),
        peer_label: Label::Text(empty()),
        peer_image: DeviceImage::Nowhere,
        status_label: Label::Text(empty()),
        destination_key: empty(),
        destination: empty(),
        show_progress: true,
    }
}

pub open spec fn manual_state_shown(s: ManualTransferState) -> TransferState {
    match s {
        ManualTransferState::Offering
        | ManualTransferState::AwaitingAcceptance
        | ManualTransferState::Transferring => TransferState::Active,
        ManualTransferState::Completed => TransferState::Completed,
        ManualTransferState::Declined | ManualTransferState::Cancelled => TransferState::Cancelled,
        ManualTransferState::Failed => TransferState::Failed,
    }
}

/// The key of what is said of the state.
pub open spec fn status_key(s: ManualTransferState) -> Seq<char> {
    match s {
        ManualTransferState::Offering => "manual-transfer-offering"@,
        ManualTransferState::AwaitingAcceptance => "manual-transfer-awaiting"@,
        ManualTransferState::Transferring => "transfer-active"@,
        ManualTransferState::Completed => "transfer-completed"@,
        ManualTransferState::Declined => "manual-transfer-declined"@,
        ManualTransferState::Cancelled => "transfer-cancelled"@,
        ManualTransferState::Failed => "transfer-failed"@,
    }
}

/// How much is shown as done: all of a completed file, also of an empty one.
pub open spec fn manual_part(t: ManualTransferStatus) -> (u64, u64) {
    if t.size == 0 && t.state == ManualTransferState::Completed {
        (1, 1)
    } else {
        part_done(t.transferred, t.size)
    }
}

/// How a row shows a file that was sent or offered.
pub open spec fn manual_shown(
    item: TransferItem,
    t: ManualTransferStatus,
    items: Seq<ClientItem>,
    v: ViewModel,
    local: LocalDevice,
) -> bool {
    &&& item.transfer_id@ == decimal(t.transfer_id as nat)
    &&& item.file_id@.len() == 0
    &&& item.name@ == t.file_name@
    &&& item.kind_label@ == LabelModel::Key("manual-transfer-kind"@)
    &&& item.direction == direction_shown(t.direction)
    &&& item.transferred_label@ == size_text(t.transferred)
    &&& item.total_label@ == size_text(t.size)
    &&& item.rate_label@.len() == 0
    &&& item.progress == manual_part(t)
    &&& item.state == manual_state_shown(t.state)
    &&& item.error_message@ == or_empty(t.error)
    &&& item.cancellable == (manual_state_shown(t.state) == TransferState::Active)
    &&& item.manual
    &&& item.peer_fingerprint@ == t.peer_fingerprint@
    &&& item.peer_label@ == device_label(items, v, local.name@, t.peer_fingerprint@, None)
    &&& item.peer_image == device_picture(items, v, local.has_image, t.peer_fingerprint@)
    &&& item.status_label@ == LabelModel::Key(status_key(t.state))
    &&& item.destination@ == or_empty(t.destination)
    &&& item.destination_key@ == (if t.destination is None {
        Seq::empty()
    } else if t.state == ManualTransferState::Completed {
        "manual-transfer-saved-to"@
    } else {
        "manual-transfer-destination"@
    })
    &&& item.show_progress == (t.state == ManualTransferState::Transferring || t.state
        == ManualTransferState::Completed)
}

/// A row for a file that was sent or offered.
pub fn manual_transfer_item(
    items: &Vec<ClientItem>,
    state: &AppViewState,
    local: &LocalDevice,
    transfer: &ManualTransferStatus,
) -> (item: TransferItem)
    ensures
        manual_shown(item, *transfer, items@, state@, *local),
{
    let (shown, key, show_progress) = match transfer.state {
        ManualTransferState::Offering => (TransferState::Active, "manual-transfer-offering", false),
        ManualTransferState::AwaitingAcceptance => (
            TransferState::Active,
            "manual-transfer-awaiting",
            false,
        ),
        ManualTransferState::Transferring => (TransferState::Active, "transfer-active", true),
        ManualTransferState::Completed => (TransferState::Completed, "transfer-completed", true),
        ManualTransferState::Declined => (
            TransferState::Cancelled,
            "manual-transfer-declined",
            false,
        ),
        ManualTransferState::Cancelled => (TransferState::Cancelled, "transfer-cancelled", false),
        ManualTransferState::Failed => (TransferState::Failed, "transfer-failed", false),
    };
    let (peer_label, peer_image) = device_presentation(
        items,
        state,
        local,
        transfer.peer_fingerprint.as_str(),
        None,
    );
    let destination_key: String = if transfer.destination.is_none() {
        empty()
    } else if transfer.state == ManualTransferState::Completed {
        "manual-transfer-saved-to".to_owned()
    } else {
        "manual-transfer-destination".to_owned()
    };
    let progress: (u64, u64) = if transfer.size == 0 && transfer.state
        == ManualTransferState::Completed {
        (1, 1)
    } else {
        part_of(transfer.transferred, transfer.size)
    };
    TransferItem {
        transfer_id: decimal_of(transfer.transfer_id),
        file_id: empty(),
        name: transfer.file_name.clone(),
        kind_label: Label::Key("manual-transfer-kind".to_owned()),
        direction: shown_direction(transfer.direction),
        transferred_label: format_bytes(transfer.transferred),
        total_label: format_bytes(transfer.size),
        rate_label: empty(),
        progress,
        state: shown,
        error_message: text_or_empty(&transfer.error),
        cancellable: shown == TransferState::Active,
        manual: true,
        peer_fingerprint: transfer.peer_fingerprint.clone(),
        peer_label,
        peer_image,
        status_label: Label::Key(key.to_owned()),
        destination_key,
        destination: text_or_empty(&transfer.destination),
        show_progress,
    }
}

// ---------------------------------------------------------------------------
// The four lists
// ---------------------------------------------------------------------------

/// The transfers in four lists, by how they stand.
#[derive(Debug)]
pub struct TransferLists {
    pub active: Vec<TransferItem>,
    pub completed: Vec<TransferItem>,
    pub failed: Vec<TransferItem>,
    pub cancelled: Vec<TransferItem>,
}

/// The rows of one state, in their order.
pub open spec fn of_state(rows: Seq<TransferItem>, state: TransferState) -> Seq<TransferItem>
    decreases rows.len(),
{
    if rows.len() == 0 {
        Seq::empty()
    } else if rows.last().state == state {
        of_state(rows.drop_last(), state).push(rows.last())
    } else {
        of_state(rows.drop_last(), state)
    }
}

pub open spec fn sorted_into(lists: TransferLists, rows: Seq<TransferItem>) -> bool {
    &&& lists.active@ == of_state(rows, TransferState::Active)
    &&& lists.completed@ == of_state(rows, TransferState::Completed)
    &&& lists.failed@ == of_state(rows, TransferState::Failed)
    &&& lists.cancelled@ == of_state(rows, TransferState::Cancelled)
}

/// The rows of all transfers: those of the clipboard, then those of the user.
pub open spec fn all_rows(
    rows: Seq<TransferItem>,
    clipboard: Seq<((u64, u64), ClipboardTransferStatus)>,
    manual: Seq<((String, u64), ManualTransferStatus)>,
    items: Seq<ClientItem>,
    v: ViewModel,
    local: LocalDevice,
) -> bool {
    &&& rows.len() == clipboard.len() + manual.len()
    &&& forall|i: int|
        0 <= i < clipboard.len() ==> transfer_shown(#[trigger] rows[i], clipboard[i].1)
    &&& forall|i: int|
        clipboard.len() <= i < rows.len() ==> manual_shown(
            #[trigger] rows[i],
            manual[i - clipboard.len()].1,
            items,
            v,
            local,
        )
}

fn sort_into(lists: &mut TransferLists, item: TransferItem, rows: Ghost<Seq<TransferItem>>)
    requires
        sorted_into(*old(lists), rows@),
    ensures
        sorted_into(*final(lists), rows@.push(item)),
{
    assert(rows@.push(item).drop_last() =~= rows@);
    match item.state {
        TransferState::Active => lists.active.push(item),
        TransferState::Completed => lists.completed.push(item),
        TransferState::Failed => lists.failed.push(item),
        TransferState::Cancelled => lists.cancelled.push(item),
    }
}

/// All transfers, in four lists.
pub fn project_transfers(
    state: &AppViewState,
    items: &Vec<ClientItem>,
    local: &LocalDevice,
) -> (lists: TransferLists)
    ensures
        exists|rows: Seq<TransferItem>|
            {
                &&& #[trigger] all_rows(
                    rows,
                    state.transfers.sequence(),
                    state.manual_transfers.sequence(),
                    items@,
                    state@,
                    *local,
                )
                &&& sorted_into(lists, rows)
            },
{
    let mut lists: TransferLists = TransferLists {
        active: Vec::new(),
        completed: Vec::new(),
        failed: Vec::new(),
        cancelled: Vec::new(),
    };
    let ghost mut rows: Seq<TransferItem> = Seq::empty();
    let ghost clipboard = state.transfers.sequence();
    let ghost manual = state.manual_transfers.sequence();
    let n: usize = state.transfers.len();
    let mut i: usize = 0;
    assert(lists.active@ =~= of_state(rows, TransferState::Active));
    assert(lists.completed@ =~= of_state(rows, TransferState::Completed));
    assert(lists.failed@ =~= of_state(rows, TransferState::Failed));
    assert(lists.cancelled@ =~= of_state(rows, TransferState::Cancelled));
    while i < n
        invariant
            n == clipboard.len(),
            clipboard == state.transfers.sequence(),
            i <= n,
            rows.len() == i,
            sorted_into(lists, rows),
            forall|j: int| 0 <= j < i ==> transfer_shown(#[trigger] rows[j], clipboard[j].1),
        decreases n - i,
    {
        let item: TransferItem = transfer_item(&state.transfers.row(i).1);
        sort_into(&mut lists, item, Ghost(rows));
        proof {
            rows = rows.push(item);
        }
        i = i + 1;
    }
    let m: usize = state.manual_transfers.len();
    let mut k: usize = 0;
    while k < m
        invariant
            n == clipboard.len(),
            m == manual.len(),
            manual == state.manual_transfers.sequence(),
            k <= m,
            rows.len() == n + k,
            sorted_into(lists, rows),
            forall|j: int| 0 <= j < n ==> transfer_shown(#[trigger] rows[j], clipboard[j].1),
            forall|j: int|
                n <= j < rows.len() ==> manual_shown(
                    #[trigger] rows[j],
                    manual[j - n].1,
                    items@,
                    state@,
                    *local,
                ),
        decreases m - k,
    {
        let item: TransferItem = manual_transfer_item(
            items,
            state,
            local,
            &state.manual_transfers.row(k).1,
        );
        sort_into(&mut lists, item, Ghost(rows));
        proof {
            rows = rows.push(item);
        }
        k = k + 1;
    }
    assert(all_rows(rows, clipboard, manual, items@, state@, *local));
    lists
}

/// No row is lost and none is shown twice: the four lists together hold as many
/// rows as there are.
pub proof fn law_lists_hold_every_row(rows: Seq<TransferItem>)
    ensures
        of_state(rows, TransferState::Active).len() + of_state(rows, TransferState::Completed).len()
            + of_state(rows, TransferState::Failed).len() + of_state(
            rows,
            TransferState::Cancelled,
        ).len() == rows.len(),
    decreases rows.len(),
{
    if rows.len() > 0 {
        law_lists_hold_every_row(rows.drop_last());
    }
}

} // verus!
