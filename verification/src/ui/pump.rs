//! How the dashboard follows the daemon: what each event brings about, what is
//! asked at the start, and how it comes back after the connection was lost.
use crate::api::FrontendEvent;
use crate::api::FrontendRequest;
use crate::api::HistoryKind;
use crate::api::HistoryRecordSummary;
use crate::history::copy_id;
use crate::table::Key;
use crate::text::decimal;
use crate::text::decimal_of;
use crate::text::same_text;
use crate::ui::manual::OfferDialog;
use crate::ui::manual::ReceiveForm;
use crate::ui::models::reduced;
use crate::ui::models::refresh_due;
use crate::ui::models::transport_reduced;
use crate::ui::models::AppViewState;
use crate::ui::models::Diagnostics;
use crate::ui::models::PlatformCapabilities;
use crate::ui::models::TransportLifecycleEvent;
use crate::ui::models::ViewModel;
use crate::ui::models::HISTORY_PAGE_SIZE;
use vstd::prelude::*;

verus! {

// ---------------------------------------------------------------------------
// Events
// ---------------------------------------------------------------------------

/// Which answer to an offer is no longer waited for.
#[derive(Debug, PartialEq, Eq)]
pub enum Settled {
    Nothing,
    /// Any.
    All,
    /// That to the offer of this peer and number.
    Offer { peer: String, id: String },
}

/// What an event brought about beside the new state.
#[derive(Debug, PartialEq, Eq)]
pub struct Received {
    /// What is asked of the daemon, in this order.
    pub requests: Vec<FrontendRequest>,
    /// The form of received files was saved.
    pub settings_saved: bool,
    pub settled: Settled,
    /// A file was offered.
    pub incoming_offer: bool,
}

/// The state after an event: an event also shows that the daemon is there.
pub open spec fn state_after(v: ViewModel, e: FrontendEvent) -> ViewModel {
    transport_reduced(reduced(v, e), TransportLifecycleEvent::Resynchronized)
}

/// The state once the history was asked for, where it was to be.
pub open spec fn state_refreshed(w: ViewModel) -> ViewModel {
    if refresh_due(w) {
        ViewModel { history_refresh_needed: false, history_query_pending: true, ..w }
    } else {
        w
    }
}

/// The query that refreshes the history, where it is to be asked for.
pub open spec fn refresh_requests(w: ViewModel) -> Seq<FrontendRequest> {
    if refresh_due(w) {
        seq![
            FrontendRequest::QueryHistory {
                query: w.history_query,
                offset: 0,
                limit: HISTORY_PAGE_SIZE,
            },
        ]
    } else {
        Seq::empty()
    }
}

/// The image of a record is to be asked for: it is one, and it is not there.
pub open spec fn wants_image(r: HistoryRecordSummary, w: ViewModel) -> bool {
    r.kind == HistoryKind::Image && !w.history_images.contains_key(
        (r.event_id.origin_device_id@, r.event_id.origin_sequence),
    )
}

/// The requests for the images of some records, in their order.
pub open spec fn image_requests(records: Seq<HistoryRecordSummary>, w: ViewModel) -> Seq<
    FrontendRequest,
>
    decreases records.len(),
{
    if records.len() == 0 {
        Seq::empty()
    } else {
        let front = image_requests(records.drop_last(), w);
        if wants_image(records.last(), w) {
            front.push(FrontendRequest::GetHistoryImage(records.last().event_id))
        } else {
            front
        }
    }
}

/// What an event asks of the daemon: the history anew, then the images of a page
/// that came.
pub open spec fn requests_after(v: ViewModel, e: FrontendEvent) -> Seq<FrontendRequest> {
    let w = state_after(v, e);
    let shown = state_refreshed(w);
    refresh_requests(w) + (if e is HistoryPage && shown.history_page is Some {
        image_requests(shown.history_page->Some_0.records, shown)
    } else {
        Seq::empty()
    })
}

/// What an event brought about.
pub open spec fn received(v: ViewModel, e: FrontendEvent, r: Received, after: ViewModel) -> bool {
    &&& after == state_refreshed(state_after(v, e))
    &&& r.requests@ == requests_after(v, e)
    &&& r.settings_saved == (e is FileReceiveSettingsChanged && v.file_receive_pending
        && after.file_receive_error is None)
    &&& r.incoming_offer == (e is IncomingFileOffer)
    &&& match e {
        FrontendEvent::ManualTransferError(_) => r.settled is All,
        FrontendEvent::ManualTransferStatus(status) => r.settled matches Settled::Offer { peer, id }
            && peer@ == status.peer_fingerprint@ && id@ == decimal(status.transfer_id as nat),
        _ => r.settled is Nothing,
    }
}

fn ask_for_images(state: &AppViewState, requests: &mut Vec<FrontendRequest>)
    ensures
        final(requests)@ == old(requests)@ + (if state@.history_page is Some {
            image_requests(state@.history_page->Some_0.records, state@)
        } else {
            Seq::empty()
        }),
{
    let ghost before = requests@;
    assert(before + Seq::<FrontendRequest>::empty() =~= before);
    match &state.history_page {
        Some(page) => {
            let mut i: usize = 0;
            assert(page.records@.take(0) =~= Seq::<HistoryRecordSummary>::empty());
            while i < page.records.len()
                invariant
                    i <= page.records@.len(),
                    requests@ == before + image_requests(page.records@.take(i as int), state@),
                decreases page.records@.len() - i,
            {
                let record: &HistoryRecordSummary = &page.records[i];
                assert(page.records@.take(i + 1).drop_last() =~= page.records@.take(i as int));
                let key: (String, u64) = (
                    record.event_id.origin_device_id.clone(),
                    record.event_id.origin_sequence,
                );
                let known: bool = state.history_images.get(&key).is_some();
                if record.kind == HistoryKind::Image && !known {
                    let ghost sofar = requests@;
                    requests.push(FrontendRequest::GetHistoryImage(copy_id(&record.event_id)));
                    assert(requests@ =~= before + image_requests(
                        page.records@.take(i + 1),
                        state@,
                    ));
                }
                i = i + 1;
            }
            assert(page.records@.take(i as int) =~= page.records@);
        },
        None => {},
    }
}

/// Takes an event of the daemon.
pub fn receive(state: &mut AppViewState, event: FrontendEvent) -> (r: Received)
    ensures
        received(old(state)@, event, r, final(state)@),
{
    let ghost v = state@;
    let history_page: bool = matches!(&event, FrontendEvent::HistoryPage(_));
    let incoming_offer: bool = matches!(&event, FrontendEvent::IncomingFileOffer(_));
    let settings_reply: bool = matches!(&event, FrontendEvent::FileReceiveSettingsChanged(..));
    let settled: Settled = match &event {
        FrontendEvent::ManualTransferError(_) => Settled::All,
        FrontendEvent::ManualTransferStatus(status) => Settled::Offer {
            peer: status.peer_fingerprint.clone(),
            id: decimal_of(status.transfer_id),
        },
        _ => Settled::Nothing,
    };
    let were_pending: bool = state.file_receive_pending;
    state.reduce(event);
    state.reduce_transport(TransportLifecycleEvent::Resynchronized);
    let ghost w = state@;
    let mut requests: Vec<FrontendRequest> = Vec::new();
    match state.next_history_refresh() {
        Some(request) => {
            requests.push(request);
        },
        None => {},
    }
    assert(requests@ =~= refresh_requests(w));
    if history_page {
        ask_for_images(state, &mut requests);
    }
    assert(requests@ =~= requests_after(v, event));
    Received {
        requests,
        settings_saved: settings_reply && were_pending && state.file_receive_error.is_none(),
        settled,
        incoming_offer,
    }
}

/// Whether an answer that was waited for has come.
pub open spec fn settles(s: Settled, dialog: OfferDialog) -> bool {
    match s {
        Settled::Nothing => false,
        Settled::All => true,
        Settled::Offer { peer, id } => dialog.peer@ == peer@ && dialog.id@ == id@,
    }
}

/// The window follows: a saved form is clean, an answered offer no longer waits,
/// and a file that is offered brings the window to the front.
pub fn follow(form: &mut ReceiveForm, dialog: &mut OfferDialog, r: &Received) -> (show: bool)
    ensures
        *final(form) == (ReceiveForm { dirty: old(form).dirty && !r.settings_saved, ..*old(form) }),
        *final(dialog) == (OfferDialog {
            busy: old(dialog).busy && !settles(r.settled, *old(dialog)),
            ..*old(dialog)
        }),
        show == (r.incoming_offer && old(dialog).visible),
{
    if r.settings_saved {
        form.dirty = false;
    }
    let done: bool = match &r.settled {
        Settled::Nothing => false,
        Settled::All => true,
        Settled::Offer { peer, id } => same_text(dialog.peer.as_str(), peer.as_str())
            && same_text(dialog.id.as_str(), id.as_str()),
    };
    if done {
        dialog.busy = false;
    }
    r.incoming_offer && dialog.visible
}

/// The state once the connection was lost.
pub open spec fn disconnected(v: ViewModel, text: String) -> ViewModel {
    let w = transport_reduced(v, TransportLifecycleEvent::DaemonUnavailable);
    ViewModel { diagnostics: Diagnostics { last_error: Some(text), ..w.diagnostics }, ..w }
}

/// The connection was lost.
pub fn connection_lost(state: &mut AppViewState)
    ensures
        exists|text: String| #[trigger] disconnected(old(state)@, text) == final(state)@ && text@
            == "The service connection was lost"@,
{
    let ghost v = state@;
    state.reduce_transport(TransportLifecycleEvent::DaemonUnavailable);
    let text: String = "The service connection was lost".to_owned();
    let ghost shown = text;
    state.diagnostics.last_error = Some(text);
    assert(disconnected(v, shown) == state@);
}

/// A page of the history that came asks for each image that is not there, and
/// for no other.
pub proof fn law_every_missing_image_is_asked_for(
    records: Seq<HistoryRecordSummary>,
    w: ViewModel,
)
    ensures
        forall|i: int|
            0 <= i < records.len() && wants_image(#[trigger] records[i], w) ==> image_requests(
                records,
                w,
            ).contains(FrontendRequest::GetHistoryImage(records[i].event_id)),
        forall|j: int|
            0 <= j < image_requests(records, w).len() ==> exists|i: int|
                0 <= i < records.len() && wants_image(#[trigger] records[i], w)
                    && #[trigger] image_requests(records, w)[j]
                    == FrontendRequest::GetHistoryImage(records[i].event_id),
    decreases records.len(),
{
    if records.len() > 0 {
        let front = records.drop_last();
        let all = image_requests(records, w);
        let before = image_requests(front, w);
        law_every_missing_image_is_asked_for(front, w);
        assert forall|i: int|
            0 <= i < records.len() && wants_image(#[trigger] records[i], w) implies all.contains(
            FrontendRequest::GetHistoryImage(records[i].event_id),
        ) by {
            let request = FrontendRequest::GetHistoryImage(records[i].event_id);
            if i == records.len() - 1 {
                assert(all.last() == request);
            } else {
                assert(front[i] == records[i]);
                assert(before.contains(request));
                let k = choose|k: int| 0 <= k < before.len() && before[k] == request;
                assert(all[k] == request);
            }
        }
        assert forall|j: int| 0 <= j < all.len() implies exists|i: int|
            0 <= i < records.len() && wants_image(#[trigger] records[i], w) && #[trigger] all[j]
                == FrontendRequest::GetHistoryImage(records[i].event_id) by {
            if j < before.len() {
                assert(all[j] == before[j]);
                let i = choose|i: int|
                    0 <= i < front.len() && wants_image(#[trigger] front[i], w) && before[j]
                        == FrontendRequest::GetHistoryImage(front[i].event_id);
                assert(front[i] == records[i]);
            } else {
                let last = records[records.len() - 1];
                assert(wants_image(last, w));
                assert(all[j] == FrontendRequest::GetHistoryImage(last.event_id));
            }
        }
    }
}

// ---------------------------------------------------------------------------
// The start
// ---------------------------------------------------------------------------

/// How the dashboard presents itself when it starts.
#[derive(Clone, Copy, Debug, PartialEq, Eq, Structural)]
pub enum StartupMode {
    /// Open the window immediately.
    Window,
    /// Start without a window, reachable from the tray.
    ///
    /// Falls back to opening the window when no tray is available, so a start in
    /// the background can never produce a process the user cannot reach.
    Background,
}

/// Whether the window is opened. Without a tray there is no way back to a hidden
/// window.
pub fn opens_window(startup: StartupMode, tray: bool) -> (r: bool)
    ensures
        r == (startup == StartupMode::Window || !tray),
{
    startup == StartupMode::Window || !tray
}

/// What the dashboard asks as it starts.
pub fn startup_requests() -> (r: Vec<FrontendRequest>)
    ensures
        r@ == seq![
            FrontendRequest::Sync,
            FrontendRequest::Enumerate,
            FrontendRequest::QueryPlugins,
            FrontendRequest::QueryDaemonInfo,
        ],
{
    let mut r: Vec<FrontendRequest> = Vec::new();
    r.push(FrontendRequest::Sync);
    r.push(FrontendRequest::Enumerate);
    r.push(FrontendRequest::QueryPlugins);
    r.push(FrontendRequest::QueryDaemonInfo);
    assert(r@ =~= seq![
        FrontendRequest::Sync,
        FrontendRequest::Enumerate,
        FrontendRequest::QueryPlugins,
        FrontendRequest::QueryDaemonInfo,
    ]);
    r
}

/// What the host of the dashboard can do: everything on a desktop, nothing of
/// it on a phone.
pub fn default_host_capabilities(phone: bool) -> (c: PlatformCapabilities)
    ensures
        c == (PlatformCapabilities { capture: !phone, emulation: !phone, clipboard_files: !phone }),
{
    if phone {
        crate::ui::lifecycle::HostCapabilities::android_default().into()
    } else {
        PlatformCapabilities { capture: true, emulation: true, clipboard_files: true }
    }
}

/// The state in which the dashboard opens: it looks for the daemon.
pub fn open_state(state: &mut AppViewState, capabilities: PlatformCapabilities)
    ensures
        final(state)@ == (ViewModel {
            capabilities,
            ..transport_reduced(old(state)@, TransportLifecycleEvent::Reconnecting)
        }),
{
    state.reduce_transport(TransportLifecycleEvent::Reconnecting);
    state.capabilities = capabilities;
}

/// How long the first screen stays, in milliseconds.
pub fn launch_display_ms(motion_enabled: bool) -> (ms: u64)
    ensures
        ms == (if motion_enabled {
            1200int
        } else {
            250int
        }),
{
    if motion_enabled {
        1200
    } else {
        250
    }
}

// ---------------------------------------------------------------------------
// Coming back
// ---------------------------------------------------------------------------

/// Delay before the first reconnection attempt, in milliseconds.
pub const RECONNECT_MIN: u64 = 250;

/// Upper bound on the reconnection backoff, in milliseconds.
pub const RECONNECT_MAX: u64 = 5000;

/// The delay after another attempt.
pub open spec fn backoff(delay: u64) -> u64 {
    if 2 * delay > RECONNECT_MAX {
        RECONNECT_MAX
    } else {
        (2 * delay) as u64
    }
}

/// The delay after so many attempts.
pub open spec fn delay_after(attempts: nat) -> u64
    decreases attempts,
{
    if attempts == 0 {
        RECONNECT_MIN
    } else {
        backoff(delay_after((attempts - 1) as nat))
    }
}

/// The delay before the next attempt.
pub fn next_delay(delay: u64) -> (r: u64)
    ensures
        r == backoff(delay),
{
    if delay > RECONNECT_MAX / 2 {
        RECONNECT_MAX
    } else {
        2 * delay
    }
}

/// The delay never falls under the first one nor rises above the bound, and
/// reaches it after five attempts.
pub proof fn law_backoff_is_bounded(attempts: nat)
    ensures
        RECONNECT_MIN <= delay_after(attempts) <= RECONNECT_MAX,
        attempts >= 5 ==> delay_after(attempts) == RECONNECT_MAX,
    decreases attempts,
{
    if attempts > 0 {
        law_backoff_is_bounded((attempts - 1) as nat);
    }
    if attempts == 5 {
        assert(delay_after(0) == 250);
        assert(delay_after(1) == 500);
        assert(delay_after(2) == 1000);
        assert(delay_after(3) == 2000);
        assert(delay_after(4) == 4000);
    }
}

/// What comes of an attempt to reach the daemon.
#[derive(Clone, Copy, Debug, PartialEq, Eq, Structural)]
pub enum Attempt {
    /// Nobody answers: wait, and try again.
    Again { wait_ms: u64, next_ms: u64 },
    /// The new connection does not take the first requests: give up.
    GiveUp,
    Attached,
}

/// What comes of an attempt to connect.
pub open spec fn tries(connected: bool, primed: bool, delay: u64, a: Attempt) -> bool {
    a == (if !connected {
        Attempt::Again { wait_ms: delay, next_ms: backoff(delay) }
    } else if primed {
        Attempt::Attached
    } else {
        Attempt::GiveUp
    })
}

/// What comes of an attempt to reach the daemon; `primed` says whether the new
/// connection took the first requests, without which the dashboard would keep
/// showing what was before.
pub fn reconnect_step(connected: bool, primed: bool, delay: u64) -> (a: Attempt)
    ensures
        tries(connected, primed, delay, a),
{
    if !connected {
        Attempt::Again { wait_ms: delay, next_ms: next_delay(delay) }
    } else if primed {
        Attempt::Attached
    } else {
        Attempt::GiveUp
    }
}

} // verus!
