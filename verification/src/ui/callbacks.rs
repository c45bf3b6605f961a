//! What the dashboard does when the user acts on it: the request that goes to
//! the daemon, the intent that is checked first, or the error that is shown.
use crate::api::FrontendRequest;
use crate::api::HistoryEventId;
use crate::api::IpAddr;
use crate::api::Position;
use crate::text::parse_number;
use crate::ui::labels::first_unread;
use crate::ui::labels::handle_of;
use crate::ui::labels::parse_addresses;
use crate::ui::labels::parse_client_handle;
use crate::ui::labels::parse_port;
use crate::ui::labels::parse_position;
use crate::ui::labels::port_of;
use crate::ui::labels::position_of;
use crate::ui::labels::signed_decimal;
use crate::ui::models::refresh_due;
use crate::ui::models::AppViewState;
use crate::ui::models::ViewModel;
use crate::ui::models::HISTORY_PAGE_SIZE;
use vstd::prelude::*;

verus! {

/// What the user did.
#[derive(Debug, PartialEq, Eq)]
#[allow(inconsistent_fields)]
pub enum UserAction {
    RegenerateIdentity,
    HistorySearch(String),
    HistoryLoadMore,
    HistoryPin { origin: String, sequence: String, pinned: bool },
    HistoryClearGlobal,
    SetInputSharing(bool),
    CreateClient,
    DiscoverPeers,
    EnableCapture,
    EnableEmulation,
    Synchronize,
    ActivateClient { handle: String, active: bool },
    DeleteClient(String),
    ResolveDns(String),
    UpdateHostname { handle: String, hostname: String },
    UpdatePort { handle: String, port: i32 },
    UpdatePosition { handle: String, position: i32 },
    /// The texts between the separators, and what each was read as.
    UpdateFixedIps { handle: String, addresses: Vec<(String, Option<IpAddr>)> },
    ChangePort(i32),
    AuthorizeKey { description: String, fingerprint: String },
    RemoveAuthorizedKey(String),
    /// The preferences were saved, or why they could not be.
    SaveConfiguration(Result<(), String>),
    SetClipboardText(bool),
    SetClipboardImage(bool),
    SetClipboardFiles(bool),
    CancelTransfer(String),
    SetPluginEnabled { id: String, enabled: bool },
    RestartPlugin(String),
    RefreshPlugins,
}

/// What the user wants of the daemon, before the fields are checked.
#[derive(Debug, Clone, PartialEq, Eq)]
#[allow(inconsistent_fields)]
pub enum UiIntent {
    Create,
    DiscoverPeers,
    EnableCapture,
    EnableEmulation,
    Sync,
    Activate(u64, bool),
    Delete(u64),
    ResolveDns(u64),
    UpdateHostname(u64, Option<String>),
    UpdatePort(u64, u16),
    UpdatePosition(u64, Position),
    UpdateFixIps(u64, Vec<IpAddr>),
    ChangePort(u16),
    Authorize(String, String),
    RemoveAuthorized(String),
    SaveConfiguration,
    SetClipboardText(bool),
    SetClipboardImage(bool),
    SetClipboardFiles(bool),
    CancelTransfer(u64),
}

/// What follows from what the user did.
#[derive(Debug, PartialEq, Eq)]
pub enum Reaction {
    Nothing,
    Send(FrontendRequest),
    Dispatch(UiIntent),
    ShowError(String),
}

/// Why the fields of an intent are refused.
#[derive(Clone, Debug, PartialEq, Eq)]
pub enum IntentError {
    EmptyField(String),
    InvalidPort,
    InvalidTransferId,
}

pub open spec fn intent_error_text(e: IntentError) -> Seq<char> {
    match e {
        IntentError::EmptyField(field) => "Required field is empty: "@ + field@,
        IntentError::InvalidPort => "Invalid port"@,
        IntentError::InvalidTransferId => "Invalid transfer id"@,
    }
}

/// What is said of a refused intent.
pub fn intent_error_message(error: IntentError) -> (s: String)
    ensures
        s@ == intent_error_text(error),
{
    match error {
        IntentError::EmptyField(field) => {
            let mut s: String = "Required field is empty: ".to_owned();
            s.push_str(field.as_str());
            s
        },
        IntentError::InvalidPort => "Invalid port".to_owned(),
        IntentError::InvalidTransferId => "Invalid transfer id".to_owned(),
    }
}

// ---------------------------------------------------------------------------
// What follows
// ---------------------------------------------------------------------------

/// An error with the given text is shown.
pub open spec fn shows(r: Reaction, text: Seq<char>) -> bool {
    r matches Reaction::ShowError(s) && s@ == text
}

pub open spec fn wrong_handle(handle: Seq<char>) -> Seq<char> {
    "Invalid client id: "@ + handle
}

/// The next part of the history can be asked for: nothing is waited for, nothing
/// is to be asked anew, and there is more.
pub open spec fn more_due(v: ViewModel) -> bool {
    &&& !v.history_query_pending
    &&& !v.history_clear_pending
    &&& !v.history_refresh_needed
    &&& v.history_page is Some
    &&& v.history_page->Some_0.next_offset is Some
}

/// The state in which a search starts.
pub open spec fn searching(v: ViewModel, query: String) -> ViewModel {
    ViewModel { history_query: query, history_error: None, history_refresh_needed: true, ..v }
}

/// What follows from an action on the history.
pub open spec fn history_reacts(v: ViewModel, a: UserAction, r: Reaction, after: ViewModel) -> bool {
    match a {
        UserAction::HistorySearch(query) => {
            let w = searching(v, query);
            if refresh_due(w) {
                &&& r == Reaction::Send(
                    FrontendRequest::QueryHistory { query, offset: 0, limit: HISTORY_PAGE_SIZE },
                )
                &&& after == (ViewModel {
                    history_refresh_needed: false,
                    history_query_pending: true,
                    ..w
                })
            } else {
                r == Reaction::Nothing && after == w
            }
        },
        UserAction::HistoryLoadMore => if more_due(v) {
            &&& r == Reaction::Send(
                FrontendRequest::QueryHistory {
                    query: v.history_query,
                    offset: v.history_page->Some_0.next_offset->Some_0,
                    limit: HISTORY_PAGE_SIZE,
                },
            )
            &&& after == (ViewModel { history_query_pending: true, ..v })
        } else {
            r == Reaction::Nothing && after == v
        },
        UserAction::HistoryPin { origin, sequence, pinned } => {
            &&& after == v
            &&& match handle_of(sequence@) {
                Some(n) => r == Reaction::Send(
                    FrontendRequest::SetHistoryPinned {
                        event_id: HistoryEventId { origin_device_id: origin, origin_sequence: n },
                        pinned,
                    },
                ),
                None => shows(r, "Invalid history event identifier"@),
            }
        },
        UserAction::HistoryClearGlobal => if v.history_clear_pending {
            r == Reaction::Nothing && after == v
        } else {
            &&& r == Reaction::Send(FrontendRequest::ClearGlobalHistory)
            &&& after == (ViewModel {
                history_clear_pending: true,
                history_clear_result: None,
                history_clear_error: None,
                ..v
            })
        },
        _ => false,
    }
}

/// What follows from an action on a client.
pub open spec fn client_reacts(a: UserAction, r: Reaction) -> bool {
    match a {
        UserAction::ActivateClient { handle, active } => match handle_of(handle@) {
            Some(n) => r == Reaction::Dispatch(UiIntent::Activate(n, active)),
            None => shows(r, wrong_handle(handle@)),
        },
        UserAction::DeleteClient(handle) => match handle_of(handle@) {
            Some(n) => r == Reaction::Dispatch(UiIntent::Delete(n)),
            None => shows(r, wrong_handle(handle@)),
        },
        UserAction::ResolveDns(handle) => match handle_of(handle@) {
            Some(n) => r == Reaction::Dispatch(UiIntent::ResolveDns(n)),
            None => shows(r, wrong_handle(handle@)),
        },
        UserAction::UpdateHostname { handle, hostname } => match handle_of(handle@) {
            Some(n) => r == Reaction::Dispatch(UiIntent::UpdateHostname(n, Some(hostname))),
            None => shows(r, wrong_handle(handle@)),
        },
        UserAction::UpdatePort { handle, port } => match handle_of(handle@) {
            None => shows(r, wrong_handle(handle@)),
            Some(n) => match port_of(port) {
                Some(p) => r == Reaction::Dispatch(UiIntent::UpdatePort(n, p)),
                None => shows(r, "Invalid port: "@ + signed_decimal(port as int)),
            },
        },
        UserAction::UpdatePosition { handle, position } => match handle_of(handle@) {
            None => shows(r, wrong_handle(handle@)),
            Some(n) => match position_of(position) {
                Some(p) => r == Reaction::Dispatch(UiIntent::UpdatePosition(n, p)),
                None => shows(r, "Invalid client position: "@ + signed_decimal(position as int)),
            },
        },
        UserAction::UpdateFixedIps { handle, addresses } => match handle_of(handle@) {
            None => shows(r, wrong_handle(handle@)),
            Some(n) => match first_unread(addresses@) {
                Some(i) => shows(r, "Invalid IP address: "@ + addresses@[i].0@),
                None => r matches Reaction::Dispatch(UiIntent::UpdateFixIps(h, ips)) && h == n
                    && ips@ == Seq::new(addresses@.len(), |i: int| addresses@[i].1->Some_0),
            },
        },
        _ => false,
    }
}

/// What follows from any other action.
pub open spec fn plainly_reacts(a: UserAction, r: Reaction) -> bool {
    match a {
        UserAction::RegenerateIdentity => r == Reaction::Send(FrontendRequest::RegenerateIdentity),
        UserAction::SetInputSharing(enabled) => r == Reaction::Send(
            FrontendRequest::SetInputSharing(enabled),
        ),
        UserAction::CreateClient => r == Reaction::Dispatch(UiIntent::Create),
        UserAction::DiscoverPeers => r == Reaction::Dispatch(UiIntent::DiscoverPeers),
        UserAction::EnableCapture => r == Reaction::Dispatch(UiIntent::EnableCapture),
        UserAction::EnableEmulation => r == Reaction::Dispatch(UiIntent::EnableEmulation),
        UserAction::Synchronize => r == Reaction::Dispatch(UiIntent::Sync),
        UserAction::ChangePort(port) => match port_of(port) {
            Some(p) => r == Reaction::Dispatch(UiIntent::ChangePort(p)),
            None => shows(r, "Invalid port: "@ + signed_decimal(port as int)),
        },
        UserAction::AuthorizeKey { description, fingerprint } => r == Reaction::Dispatch(
            UiIntent::Authorize(description, fingerprint),
        ),
        UserAction::RemoveAuthorizedKey(fingerprint) => r == Reaction::Dispatch(
            UiIntent::RemoveAuthorized(fingerprint),
        ),
        UserAction::SaveConfiguration(saved) => match saved {
            Ok(_) => r == Reaction::Dispatch(UiIntent::SaveConfiguration),
            Err(error) => shows(r, "Unable to save preferences: "@ + error@),
        },
        UserAction::SetClipboardText(on) => r == Reaction::Dispatch(UiIntent::SetClipboardText(on)),
        UserAction::SetClipboardImage(on) => r == Reaction::Dispatch(
            UiIntent::SetClipboardImage(on),
        ),
        UserAction::SetClipboardFiles(on) => r == Reaction::Dispatch(
            UiIntent::SetClipboardFiles(on),
        ),
        UserAction::CancelTransfer(id) => match handle_of(id@) {
            Some(n) => r == Reaction::Dispatch(UiIntent::CancelTransfer(n)),
            None => shows(r, "Invalid transfer id"@),
        },
        UserAction::SetPluginEnabled { id, enabled } => r == Reaction::Send(
            FrontendRequest::SetPluginEnabled { id, enabled },
        ),
        UserAction::RestartPlugin(id) => r == Reaction::Send(FrontendRequest::RestartPlugin { id }),
        UserAction::RefreshPlugins => r == Reaction::Send(FrontendRequest::QueryPlugins),
        _ => false,
    }
}

pub open spec fn is_history(a: UserAction) -> bool {
    a is HistorySearch || a is HistoryLoadMore || a is HistoryPin || a is HistoryClearGlobal
}

pub open spec fn is_client(a: UserAction) -> bool {
    a is ActivateClient || a is DeleteClient || a is ResolveDns || a is UpdateHostname
        || a is UpdatePort || a is UpdatePosition || a is UpdateFixedIps
}

/// What follows from what the user did: the reaction, and the state after it.
pub open spec fn reacts(v: ViewModel, a: UserAction, r: Reaction, after: ViewModel) -> bool {
    if is_history(a) {
        history_reacts(v, a, r, after)
    } else if is_client(a) {
        client_reacts(a, r) && after == v
    } else {
        plainly_reacts(a, r) && after == v
    }
}

fn with_handle(handle: &String) -> (r: Result<u64, Reaction>)
    ensures
        match r {
            Ok(n) => handle_of(handle@) == Some(n),
            Err(reaction) => handle_of(handle@) is None && shows(reaction, wrong_handle(handle@)),
        },
{
    match parse_client_handle(handle.as_str()) {
        Ok(n) => Ok(n),
        Err(text) => Err(Reaction::ShowError(text)),
    }
}

fn client_reaction(a: UserAction) -> (r: Reaction)
    requires
        is_client(a),
    ensures
        client_reacts(a, r),
{
    match a {
        UserAction::ActivateClient { handle, active } => match with_handle(&handle) {
            Ok(n) => Reaction::Dispatch(UiIntent::Activate(n, active)),
            Err(r) => r,
        },
        UserAction::DeleteClient(handle) => match with_handle(&handle) {
            Ok(n) => Reaction::Dispatch(UiIntent::Delete(n)),
            Err(r) => r,
        },
        UserAction::ResolveDns(handle) => match with_handle(&handle) {
            Ok(n) => Reaction::Dispatch(UiIntent::ResolveDns(n)),
            Err(r) => r,
        },
        UserAction::UpdateHostname { handle, hostname } => match with_handle(&handle) {
            Ok(n) => Reaction::Dispatch(UiIntent::UpdateHostname(n, Some(hostname))),
            Err(r) => r,
        },
        UserAction::UpdatePort { handle, port } => match with_handle(&handle) {
            Ok(n) => match parse_port(port) {
                Ok(p) => Reaction::Dispatch(UiIntent::UpdatePort(n, p)),
                Err(text) => Reaction::ShowError(text),
            },
            Err(r) => r,
        },
        UserAction::UpdatePosition { handle, position } => match with_handle(&handle) {
            Ok(n) => match parse_position(position) {
                Ok(p) => Reaction::Dispatch(UiIntent::UpdatePosition(n, p)),
                Err(text) => Reaction::ShowError(text),
            },
            Err(r) => r,
        },
        UserAction::UpdateFixedIps { handle, addresses } => match with_handle(&handle) {
            Ok(n) => match parse_addresses(&addresses) {
                Ok(ips) => Reaction::Dispatch(UiIntent::UpdateFixIps(n, ips)),
                Err(text) => Reaction::ShowError(text),
            },
            Err(r) => r,
        },
        _ => Reaction::Nothing,
    }
}

fn plain_reaction(a: UserAction) -> (r: Reaction)
    requires
        !is_client(a),
        !is_history(a),
    ensures
        plainly_reacts(a, r),
{
    match a {
        UserAction::RegenerateIdentity => Reaction::Send(FrontendRequest::RegenerateIdentity),
        UserAction::SetInputSharing(enabled) => Reaction::Send(
            FrontendRequest::SetInputSharing(enabled),
        ),
        UserAction::CreateClient => Reaction::Dispatch(UiIntent::Create),
        UserAction::DiscoverPeers => Reaction::Dispatch(UiIntent::DiscoverPeers),
        UserAction::EnableCapture => Reaction::Dispatch(UiIntent::EnableCapture),
        UserAction::EnableEmulation => Reaction::Dispatch(UiIntent::EnableEmulation),
        UserAction::Synchronize => Reaction::Dispatch(UiIntent::Sync),
        UserAction::ChangePort(port) => match parse_port(port) {
            Ok(p) => Reaction::Dispatch(UiIntent::ChangePort(p)),
            Err(text) => Reaction::ShowError(text),
        },
        UserAction::AuthorizeKey { description, fingerprint } => Reaction::Dispatch(
            UiIntent::Authorize(description, fingerprint),
        ),
        UserAction::RemoveAuthorizedKey(fingerprint) => Reaction::Dispatch(
            UiIntent::RemoveAuthorized(fingerprint),
        ),
        UserAction::SaveConfiguration(saved) => match saved {
            Ok(_) => Reaction::Dispatch(UiIntent::SaveConfiguration),
            Err(error) => {
                let mut text: String = "Unable to save preferences: ".to_owned();
                text.push_str(error.as_str());
                Reaction::ShowError(text)
            },
        },
        UserAction::SetClipboardText(on) => Reaction::Dispatch(UiIntent::SetClipboardText(on)),
        UserAction::SetClipboardImage(on) => Reaction::Dispatch(UiIntent::SetClipboardImage(on)),
        UserAction::SetClipboardFiles(on) => Reaction::Dispatch(UiIntent::SetClipboardFiles(on)),
        UserAction::CancelTransfer(id) => match parse_number(id.as_str(), u64::MAX) {
            Some(n) => Reaction::Dispatch(UiIntent::CancelTransfer(n)),
            None => Reaction::ShowError("Invalid transfer id".to_owned()),
        },
        UserAction::SetPluginEnabled { id, enabled } => Reaction::Send(
            FrontendRequest::SetPluginEnabled { id, enabled },
        ),
        UserAction::RestartPlugin(id) => Reaction::Send(FrontendRequest::RestartPlugin { id }),
        UserAction::RefreshPlugins => Reaction::Send(FrontendRequest::QueryPlugins),
        _ => Reaction::Nothing,
    }
}

fn history_reaction(state: &mut AppViewState, a: UserAction) -> (r: Reaction)
    requires
        is_history(a),
    ensures
        history_reacts(old(state)@, a, r, final(state)@),
{
    match a {
        UserAction::HistorySearch(query) => {
            state.history_query = query;
            state.history_error = None;
            state.history_refresh_needed = true;
            match state.next_history_refresh() {
                Some(request) => Reaction::Send(request),
                None => Reaction::Nothing,
            }
        },
        UserAction::HistoryLoadMore => {
            if state.history_query_pending || state.history_clear_pending
                || state.history_refresh_needed {
                return Reaction::Nothing;
            }
            let next: Option<u64> = match &state.history_page {
                Some(page) => page.next_offset,
                None => None,
            };
            match next {
                Some(offset) => {
                    state.history_query_pending = true;
                    Reaction::Send(
                        FrontendRequest::QueryHistory {
                            query: state.history_query.clone(),
                            offset,
                            limit: HISTORY_PAGE_SIZE,
                        },
                    )
                },
                None => Reaction::Nothing,
            }
        },
        UserAction::HistoryPin { origin, sequence, pinned } => {
            match parse_number(sequence.as_str(), u64::MAX) {
                Some(origin_sequence) => Reaction::Send(
                    FrontendRequest::SetHistoryPinned {
                        event_id: HistoryEventId { origin_device_id: origin, origin_sequence },
                        pinned,
                    },
                ),
                None => Reaction::ShowError("Invalid history event identifier".to_owned()),
            }
        },
        UserAction::HistoryClearGlobal => {
            if state.history_clear_pending {
                return Reaction::Nothing;
            }
            state.history_clear_pending = true;
            state.history_clear_result = None;
            state.history_clear_error = None;
            Reaction::Send(FrontendRequest::ClearGlobalHistory)
        },
        _ => Reaction::Nothing,
    }
}

/// What follows from what the user did.
pub fn react(state: &mut AppViewState, a: UserAction) -> (r: Reaction)
    ensures
        reacts(old(state)@, a, r, final(state)@),
{
    match a {
        UserAction::HistorySearch(_)
        | UserAction::HistoryLoadMore
        | UserAction::HistoryPin { .. }
        | UserAction::HistoryClearGlobal => history_reaction(state, a),
        UserAction::ActivateClient { .. }
        | UserAction::DeleteClient(_)
        | UserAction::ResolveDns(_)
        | UserAction::UpdateHostname { .. }
        | UserAction::UpdatePort { .. }
        | UserAction::UpdatePosition { .. }
        | UserAction::UpdateFixedIps { .. } => client_reaction(a),
        _ => plain_reaction(a),
    }
}

/// An error is shown, and kept for the page of diagnostics.
pub fn show_error(state: &mut AppViewState, message: String)
    ensures
        final(state)@ == (ViewModel {
            diagnostics: crate::ui::models::Diagnostics {
                last_error: Some(message),
                ..old(state)@.diagnostics
            },
            ..old(state)@
        }),
{
    state.diagnostics.last_error = Some(message);
}

/// The history is never asked for twice at a time: while an answer is waited
/// for, neither a search nor more of the list is requested.
pub proof fn law_one_history_query_at_a_time(
    v: ViewModel,
    a: UserAction,
    r: Reaction,
    after: ViewModel,
)
    requires
        reacts(v, a, r, after),
        v.history_query_pending,
    ensures
        !(r matches Reaction::Send(FrontendRequest::QueryHistory { .. })),
{
}

/// A query that is sent is waited for.
pub proof fn law_queries_are_waited_for(
    v: ViewModel,
    a: UserAction,
    r: Reaction,
    after: ViewModel,
)
    requires
        reacts(v, a, r, after),
        r matches Reaction::Send(FrontendRequest::QueryHistory { .. }),
    ensures
        after.history_query_pending,
{
}

/// A clear is not asked for again while one is under way.
pub proof fn law_one_clear_at_a_time(v: ViewModel, a: UserAction, r: Reaction, after: ViewModel)
    requires
        reacts(v, a, r, after),
        r matches Reaction::Send(FrontendRequest::ClearGlobalHistory),
    ensures
        !v.history_clear_pending,
        after.history_clear_pending,
{
}

} // verus!
