//! What the actions of the user ask for, and what follows from what the daemon says.
use crate::api::FrontendEvent;
use crate::api::FrontendRequest;
use crate::api::IpAddr;
use crate::api::Position;
use crate::finding::lemma_first;
use crate::text::decimal;
use crate::ui::callbacks::reacts;
use crate::ui::callbacks::Reaction;
use crate::ui::callbacks::UiIntent;
use crate::ui::callbacks::UserAction;
use crate::ui::labels::first_unread;
use crate::ui::labels::handle_of;
use crate::ui::labels::is_unread;
use crate::ui::labels::port_of;
use crate::ui::labels::position_of;
use crate::ui::lifecycle::LifecycleAction;
use crate::ui::lifecycle::LifecycleEvent;
use crate::ui::lifecycle::LifecycleModel;
use crate::ui::lifecycle::LifecycleState;
use crate::ui::lifecycle::Link;
use crate::ui::lifecycle::Visibility;
use crate::ui::models::reduced;
use crate::ui::models::ViewModel;
use crate::ui::pump::backoff;
use crate::ui::pump::received;
use crate::ui::pump::Received;
use crate::wording::law_decimals_read_back;
use crate::ui::models::asks_again;
use crate::ui::preferences::repository_of;
use crate::ui::pump::tries;
use crate::ui::pump::Attempt;
use crate::ui::update_card::checks;
use crate::ui::update_card::UpdateCard;
use crate::ui::updates::RepositoryConfig;
use vstd::prelude::*;

verus! {

/// What is asked for a client is asked for that client: the number in the row is the
/// number in the request, and the value is the one that was given.
pub proof fn law_requests_name_their_client(
    v: ViewModel,
    after: ViewModel,
    r: Reaction,
    n: u64,
    handle: String,
    on: bool,
    text: String,
    number: i32,
)
    requires
        handle@ == decimal(n as nat),
    ensures
        reacts(v, UserAction::ActivateClient { handle, active: on }, r, after) ==> r
            == Reaction::Dispatch(UiIntent::Activate(n, on)) && after == v,
        reacts(v, UserAction::DeleteClient(handle), r, after) ==> r == Reaction::Dispatch(
            UiIntent::Delete(n),
        ) && after == v,
        reacts(v, UserAction::ResolveDns(handle), r, after) ==> r == Reaction::Dispatch(
            UiIntent::ResolveDns(n),
        ) && after == v,
        reacts(v, UserAction::UpdateHostname { handle, hostname: text }, r, after) ==> r
            == Reaction::Dispatch(UiIntent::UpdateHostname(n, Some(text))) && after == v,
        reacts(v, UserAction::UpdatePort { handle, port: number }, r, after) && 1 <= number <= 65535
            ==> r == Reaction::Dispatch(UiIntent::UpdatePort(n, number as u16)) && after == v,
        reacts(v, UserAction::UpdatePort { handle, port: number }, r, after) && !(1 <= number
            <= 65535) ==> r is ShowError && after == v,
        reacts(v, UserAction::UpdatePosition { handle, position: number }, r, after) ==> after == v
            && match number {
            0 => r == Reaction::Dispatch(UiIntent::UpdatePosition(n, Position::Left)),
            1 => r == Reaction::Dispatch(UiIntent::UpdatePosition(n, Position::Right)),
            2 => r == Reaction::Dispatch(UiIntent::UpdatePosition(n, Position::Top)),
            3 => r == Reaction::Dispatch(UiIntent::UpdatePosition(n, Position::Bottom)),
            _ => r is ShowError,
        },
        reacts(v, UserAction::CancelTransfer(handle), r, after) ==> r == Reaction::Dispatch(
            UiIntent::CancelTransfer(n),
        ) && after == v,
{
    law_decimals_read_back(n as nat, u64::MAX as nat);
    assert(handle_of(handle@) == Some(n));
}

/// The addresses that were given are the addresses that are asked for, in their order;
/// if one of them cannot be read, nothing is asked for.
pub proof fn law_fixed_addresses_are_taken(
    v: ViewModel,
    after: ViewModel,
    r: Reaction,
    n: u64,
    handle: String,
    addresses: Vec<(String, Option<IpAddr>)>,
    i: int,
)
    requires
        handle@ == decimal(n as nat),
        reacts(v, UserAction::UpdateFixedIps { handle, addresses }, r, after),
    ensures
        (forall|k: int| 0 <= k < addresses@.len() ==> (#[trigger] addresses@[k]).1 is Some) ==> (
        r matches Reaction::Dispatch(UiIntent::UpdateFixIps(h, ips)) && h == n && ips@.len()
            == addresses@.len() && forall|k: int|
            0 <= k < ips@.len() ==> Some(#[trigger] ips@[k]) == addresses@[k].1),
        0 <= i < addresses@.len() && addresses@[i].1 is None ==> r is ShowError,
{
    law_decimals_read_back(n as nat, u64::MAX as nat);
    lemma_first(addresses@.len() as int, is_unread(addresses@));
    assert(first_unread(addresses@) is Some ==> addresses@[first_unread(
        addresses@,
    )->Some_0].1 is None);
    if 0 <= i < addresses@.len() && addresses@[i].1 is None {
        assert(is_unread(addresses@)(i));
    }
}

/// What is not a number names no client, and is answered with an error.
pub proof fn law_wrong_names_are_refused(
    v: ViewModel,
    after: ViewModel,
    r: Reaction,
    handle: String,
    on: bool,
)
    requires
        handle@.len() == 0 || !('0' <= handle@.last() <= '9'),
    ensures
        reacts(v, UserAction::ActivateClient { handle, active: on }, r, after) ==> r is ShowError
            && after == v,
        reacts(v, UserAction::DeleteClient(handle), r, after) ==> r is ShowError && after == v,
        reacts(v, UserAction::CancelTransfer(handle), r, after) ==> r is ShowError && after == v,
{
    let s = handle@;
    let digits = crate::text::unsigned_part(s);
    if digits.len() > 0 {
        assert(digits[digits.len() - 1] == s.last());
    }
}

/// A search of the history is asked for at once where the history is looked at and
/// nothing is awaited; it is noted in any case. More of it is asked for from where the
/// page ends.
pub proof fn law_the_history_is_searched(
    v: ViewModel,
    after: ViewModel,
    r: Reaction,
    query: String,
)
    ensures
        reacts(v, UserAction::HistorySearch(query), r, after) ==> {
            &&& after.history_query == query
            &&& after.history_error is None
            &&& v.page@ == "history"@ && v.status.connected && !v.history_query_pending ==> r
                == Reaction::Send(FrontendRequest::QueryHistory { query, offset: 0, limit: 50 })
                && after.history_query_pending
            &&& v.history_query_pending ==> r is Nothing && after.history_refresh_needed
            &&& after.history_page == v.history_page
        },
        reacts(v, UserAction::HistoryLoadMore, r, after) ==> {
            &&& v.history_page is Some && v.history_page->Some_0.next_offset is Some
                && !v.history_query_pending && !v.history_clear_pending
                && !v.history_refresh_needed ==> {
                &&& r == Reaction::Send(
                    FrontendRequest::QueryHistory {
                        query: v.history_query,
                        offset: v.history_page->Some_0.next_offset->Some_0,
                        limit: 50,
                    },
                )
                &&& after.history_query_pending
            }
            &&& v.history_page is None || v.history_query_pending ==> r is Nothing && after == v
        },
{
}

/// A record is pinned and unpinned by its device and its number, and a clear is asked
/// for once.
pub proof fn law_pins_and_clears_are_asked_for(
    v: ViewModel,
    after: ViewModel,
    r: Reaction,
    origin: String,
    sequence: String,
    n: u64,
    pinned: bool,
)
    requires
        sequence@ == decimal(n as nat),
    ensures
        reacts(v, UserAction::HistoryPin { origin, sequence, pinned }, r, after) ==> after == v && (
        r matches Reaction::Send(FrontendRequest::SetHistoryPinned { event_id, pinned: p })
            && event_id.origin_device_id == origin && event_id.origin_sequence == n && p
            == pinned),
        reacts(v, UserAction::HistoryClearGlobal, r, after) ==> {
            &&& v.history_clear_pending ==> r is Nothing && after == v
            &&& !v.history_clear_pending ==> r == Reaction::Send(
                FrontendRequest::ClearGlobalHistory,
            ) && after.history_clear_pending && after.history_clear_result is None
        },
{
    law_decimals_read_back(n as nat, u64::MAX as nat);
}

/// Each switch and each button asks for what it says, with the value that it has.
pub proof fn law_switches_ask_for_what_they_say(
    v: ViewModel,
    after: ViewModel,
    r: Reaction,
    on: bool,
    text: String,
    other: String,
    number: i32,
)
    ensures
        reacts(v, UserAction::SetInputSharing(on), r, after) ==> r == Reaction::Send(
            FrontendRequest::SetInputSharing(on),
        ) && after == v,
        reacts(v, UserAction::SetClipboardText(on), r, after) ==> r == Reaction::Dispatch(
            UiIntent::SetClipboardText(on),
        ),
        reacts(v, UserAction::SetClipboardImage(on), r, after) ==> r == Reaction::Dispatch(
            UiIntent::SetClipboardImage(on),
        ),
        reacts(v, UserAction::SetClipboardFiles(on), r, after) ==> r == Reaction::Dispatch(
            UiIntent::SetClipboardFiles(on),
        ),
        reacts(v, UserAction::AuthorizeKey { description: text, fingerprint: other }, r, after)
            ==> r == Reaction::Dispatch(UiIntent::Authorize(text, other)),
        reacts(v, UserAction::RemoveAuthorizedKey(text), r, after) ==> r == Reaction::Dispatch(
            UiIntent::RemoveAuthorized(text),
        ),
        reacts(v, UserAction::SetPluginEnabled { id: text, enabled: on }, r, after) ==> r
            == Reaction::Send(FrontendRequest::SetPluginEnabled { id: text, enabled: on }),
        reacts(v, UserAction::RestartPlugin(text), r, after) ==> r == Reaction::Send(
            FrontendRequest::RestartPlugin { id: text },
        ),
        reacts(v, UserAction::RefreshPlugins, r, after) ==> r == Reaction::Send(
            FrontendRequest::QueryPlugins,
        ),
        reacts(v, UserAction::RegenerateIdentity, r, after) ==> r == Reaction::Send(
            FrontendRequest::RegenerateIdentity,
        ),
        reacts(v, UserAction::CreateClient, r, after) ==> r == Reaction::Dispatch(UiIntent::Create),
        reacts(v, UserAction::DiscoverPeers, r, after) ==> r == Reaction::Dispatch(
            UiIntent::DiscoverPeers,
        ),
        reacts(v, UserAction::EnableCapture, r, after) ==> r == Reaction::Dispatch(
            UiIntent::EnableCapture,
        ),
        reacts(v, UserAction::EnableEmulation, r, after) ==> r == Reaction::Dispatch(
            UiIntent::EnableEmulation,
        ),
        reacts(v, UserAction::ChangePort(number), r, after) ==> if 1 <= number <= 65535 {
            r == Reaction::Dispatch(UiIntent::ChangePort(number as u16))
        } else {
            r is ShowError
        },
        reacts(v, UserAction::SaveConfiguration(Ok(())), r, after) ==> r == Reaction::Dispatch(
            UiIntent::SaveConfiguration,
        ),
        reacts(v, UserAction::SaveConfiguration(Err(text)), r, after) ==> r is ShowError,
{
}

/// Ports are the numbers from 1 to 65535, and positions the four sides in their order.
pub proof fn law_ports_and_positions(value: i32)
    ensures
        port_of(value) is Some <==> 1 <= value <= 65535,
        port_of(value) matches Some(p) ==> p == value,
        position_of(0) == Some(Position::Left),
        position_of(1) == Some(Position::Right),
        position_of(2) == Some(Position::Top),
        position_of(3) == Some(Position::Bottom),
        position_of(value) is Some <==> 0 <= value <= 3,
{
}

/// An event that arrives is shown, and that it arrived shows that the service is there.
/// The history is asked for again where it is looked at and has changed.
pub proof fn law_events_that_arrive_are_shown(
    v: ViewModel,
    e: FrontendEvent,
    r: Received,
    after: ViewModel,
)
    requires
        received(v, e, r, after),
    ensures
        after.status.connected,
        !after.status.reconnecting,
        after == (ViewModel {
            status: after.status,
            history_refresh_needed: after.history_refresh_needed,
            history_query_pending: after.history_query_pending,
            ..reduced(v, e)
        }),
        e is HistoryChanged && v.page@ == "history"@ && !v.history_query_pending ==> {
            &&& r.requests@.len() == 1
            &&& r.requests@[0] == (FrontendRequest::QueryHistory {
                query: v.history_query,
                offset: 0,
                limit: 50,
            })
            &&& after.history_query_pending
        },
        e is IncomingFileOffer <==> r.incoming_offer,
        e is FileReceiveSettingsChanged && v.file_receive_pending && (e matches
            FrontendEvent::FileReceiveSettingsChanged(_, error) && error is None)
            ==> r.settings_saved,
        !(e is FileReceiveSettingsChanged) ==> !r.settings_saved,
{
}

/// The dashboard connects where it comes to the front without a connection, and again
/// where one is lost; it asks for everything anew where it has one, and only then is
/// ready. Where it is seen has nothing to do with the connection otherwise.
pub proof fn law_connections_are_made_and_kept(m: LifecycleModel, e: LifecycleEvent)
    ensures
        ({
            let (after, actions) = m.step(e);
            &&& e == LifecycleEvent::Foregrounded ==> after.visibility == Visibility::Foreground
            &&& e == LifecycleEvent::Backgrounded ==> after.visibility == Visibility::Background
                && after.link == m.link && actions.len() == 0
            &&& e != LifecycleEvent::Foregrounded && e != LifecycleEvent::Backgrounded
                ==> after.visibility == m.visibility
            &&& e == LifecycleEvent::Foregrounded && m.link == Link::Disconnected ==> after.link
                == Link::Connecting && actions == seq![LifecycleAction::Connect]
            &&& e == LifecycleEvent::Foregrounded && m.link != Link::Disconnected ==> after.link
                == m.link && actions.len() == 0
            &&& e == LifecycleEvent::TransportConnected && m.link == Link::Connecting
                ==> after.link == Link::Resynchronizing && actions
                == seq![LifecycleAction::RequestResync]
            &&& e == LifecycleEvent::ResyncCompleted && m.link == Link::Resynchronizing
                ==> after.link == Link::Connected && actions.len() == 0
            &&& e == LifecycleEvent::TransportLost && (m.link == Link::Connected || m.link
                == Link::Resynchronizing) ==> after.link == Link::Connecting && actions
                == seq![LifecycleAction::Connect]
            &&& m.link == Link::Connected && m.visibility == Visibility::Foreground <==> m.state()
                == LifecycleState::Foreground
            &&& m.link == Link::Connected && m.visibility == Visibility::Background <==> m.state()
                == LifecycleState::Background
            &&& m.link != Link::Connected && m.visibility == Visibility::Background <==> m.state()
                == LifecycleState::BackgroundDisconnected
            &&& m.link == Link::Resynchronizing && m.visibility == Visibility::Foreground
                <==> m.state() == LifecycleState::Resynchronizing
        }),
{
}

/// The wait between two attempts doubles, up to five seconds.
pub proof fn law_waits_double(delay: u64)
    ensures
        delay <= 2500 ==> backoff(delay) == 2 * delay,
        delay > 2500 ==> backoff(delay) == 5000,
{
}

/// The history is asked for again from its start, by the words that are searched, where it
/// has changed and is looked at; then an answer is awaited.
pub proof fn law_the_history_is_asked_for_again(
    m: ViewModel,
    r: Option<FrontendRequest>,
    after: ViewModel,
)
    requires
        asks_again(m, r, after),
    ensures
        m.page@ == "history"@ && m.status.connected && m.history_refresh_needed
            && !m.history_query_pending ==> {
            &&& r == Some(
                FrontendRequest::QueryHistory { query: m.history_query, offset: 0, limit: 50 },
            )
            &&& after.history_query_pending && !after.history_refresh_needed
            &&& after.history_page == m.history_page && after.history_query == m.history_query
        },
        m.page@ != "history"@ || !m.status.connected || !m.history_refresh_needed
            || m.history_query_pending ==> r is None && after == m,
{
}

/// Where nobody answers it is tried again after the wait, and then after twice as long; a
/// connection that takes the first requests is the connection.
pub proof fn law_attempts_are_repeated(connected: bool, primed: bool, delay: u64, a: Attempt)
    requires
        tries(connected, primed, delay, a),
    ensures
        !connected ==> (a matches Attempt::Again { wait_ms, next_ms } && wait_ms == delay && (delay
            <= 2500 ==> next_ms == 2 * delay) && next_ms <= 5000),
        connected && primed ==> a == Attempt::Attached,
        connected && !primed ==> a == Attempt::GiveUp,
{
}

/// A look for updates is begun for the source that is named, once at a time; without a
/// source nothing is begun, and why is said.
pub proof fn law_looks_for_updates_are_begun(
    before: UpdateCard,
    repository: Seq<char>,
    r: Option<RepositoryConfig>,
    after: UpdateCard,
    owner: Seq<char>,
    name: Seq<char>,
)
    requires
        checks(before, repository, r, after),
    ensures
        before.busy ==> r is None && after.busy && after.status@ == before.status@,
        !before.busy && repository_of(repository) == Ok::<
            Option<(Seq<char>, Seq<char>)>,
            Seq<char>,
        >(Some((owner, name))) ==> after.busy && (r matches Some(c) && c.owner is Some
            && c.owner->Some_0@ == owner && c.repository is Some && c.repository->Some_0@ == name),
        !before.busy && (repository_of(repository) is Err || repository_of(repository)->Ok_0
            is None) ==> r is None && !after.busy,
        after.repository == before.repository,
        after.automatic_check == before.automatic_check,
{
}

} // verus!
