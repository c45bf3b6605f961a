//! What the state of the dashboard keeps true, whatever the daemon reports.
use crate::api::ClientConfig;
use crate::api::ClientHandle;
use crate::api::ClientState;
use crate::api::FrontendEvent;
use crate::api::HistoryPage;
use crate::api::HistoryRecordSummary;
use crate::api::IncomingFileOffer;
use crate::api::ManualTransferStatus;
use crate::api::SocketAddr;
use crate::ui::models::client_model;
use crate::ui::models::enumerated;
use crate::ui::models::finished;
use crate::ui::models::has_record;
use crate::ui::models::is_oldest;
use crate::ui::models::kept_transfers;
use crate::ui::models::offer_is;
use crate::ui::models::offers_with;
use crate::ui::models::offers_without;
use crate::ui::models::records_with;
use crate::ui::models::reduced;
use crate::ui::models::refresh_due;
use crate::ui::models::same_event;
use crate::ui::models::shown;
use crate::ui::models::transport_reduced;
use crate::ui::models::TransportLifecycleEvent;
use crate::ui::models::ViewModel;
use crate::ui::models::MAX_MANUAL_TRANSFERS;
use vstd::prelude::*;

verus! {

/// No event of the daemon changes what is known of the connection: that is the
/// transport's to say.
pub proof fn law_events_leave_the_transport(m: ViewModel, e: FrontendEvent)
    ensures
        reduced(m, e).status == m.status,
{
}

/// A peer that disconnected is not left connected.
pub proof fn law_disconnected_peer_is_gone(m: ViewModel, addr: SocketAddr)
    ensures
        ({
            let after = reduced(m, FrontendEvent::IncomingDisconnected(addr));
            &&& !after.connected_devices.contains_key(addr)
            &&& !after.incoming_devices.contains_key(addr)
            &&& after.last_disconnected_device == Some(addr)
        }),
{
}

/// Without a connection no offer of a file is shown, nothing is waited for, and
/// no transfer is shown as running.
pub proof fn law_lost_service_leaves_nothing_pending(m: ViewModel, e: TransportLifecycleEvent)
    requires
        !(e is Resynchronized),
    ensures
        ({
            let after = transport_reduced(m, e);
            &&& !after.status.connected
            &&& after.pending_file_offers.len() == 0
            &&& !after.history_query_pending
            &&& !after.history_clear_pending
            &&& !after.file_receive_pending
            &&& after.file_receive_settings is None
            &&& forall|k: (Seq<char>, u64)| #[trigger]
                after.manual_transfers.contains_key(k) ==> finished(after.manual_transfers[k].state)
        }),
{
}

/// A finished transfer stays in view when the connection is lost.
pub proof fn law_lost_service_keeps_results(
    m: ViewModel,
    e: TransportLifecycleEvent,
    k: (Seq<char>, u64),
)
    requires
        m.manual_transfers.contains_key(k),
        finished(m.manual_transfers[k].state),
    ensures
        transport_reduced(m, e).manual_transfers.contains_key(k),
        transport_reduced(m, e).manual_transfers[k] == m.manual_transfers[k],
{
}

/// Two states of the connection are never shown at once.
pub proof fn law_one_transport_state(m: ViewModel, e: TransportLifecycleEvent)
    ensures
        !(transport_reduced(m, e).status.connected && transport_reduced(m, e).status.reconnecting),
{
}

/// However often the history changes, one answer is waited for at a time: once
/// it was asked for, it is not asked for again before an answer came.
pub proof fn law_one_history_query(m: ViewModel)
    requires
        m.history_query_pending,
    ensures
        !refresh_due(m),
        !refresh_due(reduced(m, FrontendEvent::HistoryChanged)),
        reduced(m, FrontendEvent::HistoryChanged).history_query_pending,
{
}

/// An answer to an earlier search changes nothing that is shown, and lets the
/// present search be asked for.
pub proof fn law_stale_page_is_not_shown(m: ViewModel, page: HistoryPage)
    requires
        page.query@ != m.history_query@,
    ensures
        reduced(m, FrontendEvent::HistoryPage(page)) == (ViewModel {
            history_query_pending: false,
            ..m
        }),
{
}

/// A list of clients replaces the one before: after it the clients are those of
/// the list, each as its last entry says.
pub proof fn law_enumerate_replaces(
    xs: Seq<(ClientHandle, ClientConfig, ClientState)>,
    h: ClientHandle,
)
    ensures
        enumerated(xs).contains_key(h) <==> exists|i: int|
            0 <= i < xs.len() && (#[trigger] xs[i]).0 == h,
        xs.len() > 0 ==> enumerated(xs)[xs.last().0] == client_model(
            xs.last().0,
            xs.last().1,
            xs.last().2,
        ),
    decreases xs.len(),
{
    if xs.len() > 0 {
        let front = xs.drop_last();
        law_enumerate_replaces(front, h);
        if exists|i: int| 0 <= i < xs.len() && (#[trigger] xs[i]).0 == h {
            let i = choose|i: int| 0 <= i < xs.len() && (#[trigger] xs[i]).0 == h;
            if i < front.len() {
                assert(front[i].0 == h);
            }
        }
        if exists|i: int| 0 <= i < front.len() && (#[trigger] front[i]).0 == h {
            let i = choose|i: int| 0 <= i < front.len() && (#[trigger] front[i]).0 == h;
            assert(xs[i].0 == h);
        }
        assert(xs[xs.len() - 1] == xs.last());
    }
}

proof fn lemma_without_front(first: IncomingFileOffer, rest: Seq<IncomingFileOffer>, peer: Seq<char>, id: u64)
    ensures
        offers_without(seq![first] + rest, peer, id) == (if offer_is(first, peer, id) {
            Seq::empty()
        } else {
            seq![first]
        }) + offers_without(rest, peer, id),
    decreases rest.len(),
{
    let all = seq![first] + rest;
    if rest.len() == 0 {
        assert(all.drop_last() =~= Seq::<IncomingFileOffer>::empty());
        assert(all.last() == first);
        assert(offers_without(all.drop_last(), peer, id) =~= Seq::<IncomingFileOffer>::empty());
        assert(offers_without(all, peer, id) =~= (if offer_is(first, peer, id) {
            Seq::<IncomingFileOffer>::empty()
        } else {
            seq![first]
        }) + offers_without(rest, peer, id));
    } else {
        lemma_without_front(first, rest.drop_last(), peer, id);
        assert(all.drop_last() =~= seq![first] + rest.drop_last());
        assert(all.last() == rest.last());
        assert(offers_without(all, peer, id) =~= (if offer_is(first, peer, id) {
            Seq::<IncomingFileOffer>::empty()
        } else {
            seq![first]
        }) + offers_without(rest, peer, id));
    }
}

/// An offer that is repeated is shown once: after it there is one offer of its
/// transfer where there was one at most, and the offers of the other transfers
/// are the same.
pub proof fn law_repeated_offer_is_one(offers: Seq<IncomingFileOffer>, offer: IncomingFileOffer)
    ensures
        offers_without(
            offers_with(offers, offer),
            offer.peer_fingerprint@,
            offer.transfer_id,
        ) == offers_without(offers, offer.peer_fingerprint@, offer.transfer_id),
        offers_with(offers, offer).contains(offer),
        (exists|i: int|
            0 <= i < offers.len() && offer_is(
                #[trigger] offers[i],
                offer.peer_fingerprint@,
                offer.transfer_id,
            )) ==> offers_with(offers, offer).len() == offers.len(),
        !(exists|i: int|
            0 <= i < offers.len() && offer_is(
                #[trigger] offers[i],
                offer.peer_fingerprint@,
                offer.transfer_id,
            )) ==> offers_with(offers, offer) == offers.push(offer),
    decreases offers.len(),
{
    let peer = offer.peer_fingerprint@;
    let id = offer.transfer_id;
    let with = offers_with(offers, offer);
    if offers.len() == 0 {
        assert(with =~= offers.push(offer));
        assert(with[0] == offer);
        assert(with.drop_last() =~= offers);
    } else if offer_is(offers[0], peer, id) {
        assert(with[0] == offer);
        lemma_without_front(offer, offers.drop_first(), peer, id);
        lemma_without_front(offers[0], offers.drop_first(), peer, id);
        assert(offers =~= seq![offers[0]] + offers.drop_first());
    } else {
        let rest = offers.drop_first();
        lemma_without_front(offers[0], offers_with(rest, offer), peer, id);
        lemma_without_front(offers[0], rest, peer, id);
        assert(offers =~= seq![offers[0]] + rest);
        law_repeated_offer_is_one(rest, offer);
        let rest_with = offers_with(rest, offer);
        assert(rest_with.contains(offer));
        let w = choose|w: int| 0 <= w < rest_with.len() && rest_with[w] == offer;
        assert(with[w + 1] == offer);
        if exists|i: int| 0 <= i < offers.len() && offer_is(#[trigger] offers[i], peer, id) {
            let i = choose|i: int| 0 <= i < offers.len() && offer_is(#[trigger] offers[i], peer, id);
            assert(rest[i - 1] == offers[i]);
        } else {
            assert forall|i: int| 0 <= i < rest.len() implies !offer_is(
                #[trigger] rest[i],
                peer,
                id,
            ) by {
                assert(offers[i + 1] == rest[i]);
            }
            assert(with =~= offers.push(offer));
            assert(with.drop_last() =~= offers);
        }
    }
}

/// A decision about one transfer leaves the offers of every other transfer as
/// they are, in their order, and leaves none of its own.
pub proof fn law_decision_keeps_other_offers(
    offers: Seq<IncomingFileOffer>,
    peer: Seq<char>,
    id: u64,
)
    ensures
        forall|i: int|
            0 <= i < offers_without(offers, peer, id).len() ==> !offer_is(
                #[trigger] offers_without(offers, peer, id)[i],
                peer,
                id,
            ),
        forall|o: IncomingFileOffer|
            offers.contains(o) && !offer_is(o, peer, id) ==> #[trigger] offers_without(
                offers,
                peer,
                id,
            ).contains(o),
    decreases offers.len(),
{
    if offers.len() > 0 {
        let front = offers.drop_last();
        law_decision_keeps_other_offers(front, peer, id);
        let kept = offers_without(front, peer, id);
        let result = offers_without(offers, peer, id);
        assert forall|o: IncomingFileOffer|
            offers.contains(o) && !offer_is(o, peer, id) implies #[trigger] result.contains(o) by {
            let i = choose|i: int| 0 <= i < offers.len() && offers[i] == o;
            if i < front.len() {
                assert(front[i] == o);
                assert(front.contains(o));
                assert(kept.contains(o));
                let j = choose|j: int| 0 <= j < kept.len() && kept[j] == o;
                assert(result[j] == o);
            } else {
                assert(result[kept.len() as int] == o);
            }
        }
    }
}

/// A transfer that is still running never leaves the view to make room.
pub proof fn law_running_transfers_stay(
    m: Map<(Seq<char>, u64), ManualTransferStatus>,
    steps: nat,
    k: (Seq<char>, u64),
)
    requires
        m.contains_key(k),
        !finished(m[k].state),
    ensures
        kept_transfers(m, steps).contains_key(k),
        kept_transfers(m, steps)[k] == m[k],
    decreases steps,
{
    if !(steps == 0 || m.len() <= MAX_MANUAL_TRANSFERS || !(exists|q: (Seq<char>, u64)|
        is_oldest(m, q))) {
        let gone = choose|q: (Seq<char>, u64)| is_oldest(m, q);
        assert(is_oldest(m, gone));
        law_running_transfers_stay(m.remove(gone), (steps - 1) as nat, k);
    }
}

/// A page that continues another repeats no record.
pub proof fn law_no_record_twice(
    records: Seq<HistoryRecordSummary>,
    more: Seq<HistoryRecordSummary>,
)
    requires
        forall|i: int, j: int|
            0 <= i < j < records.len() ==> !same_event(
                (#[trigger] records[i]).event_id,
                (#[trigger] records[j]).event_id,
            ),
    ensures
        forall|i: int, j: int|
            0 <= i < j < records_with(records, more).len() ==> !same_event(
                (#[trigger] records_with(records, more)[i]).event_id,
                (#[trigger] records_with(records, more)[j]).event_id,
            ),
        records_with(records, more).len() >= records.len(),
        records_with(records, more).take(records.len() as int) == records,
    decreases more.len(),
{
    if more.len() > 0 {
        law_no_record_twice(records, more.drop_last());
        let front = records_with(records, more.drop_last());
        let all = records_with(records, more);
        assert forall|i: int, j: int| 0 <= i < j < all.len() implies !same_event(
            (#[trigger] all[i]).event_id,
            (#[trigger] all[j]).event_id,
        ) by {
            if j == front.len() {
                assert(!has_record(front, more.last().event_id));
                assert(!same_event(front[i].event_id, more.last().event_id));
            }
        }
        assert(all.take(records.len() as int) =~= front.take(records.len() as int));
    } else {
        assert(records.take(records.len() as int) =~= records);
    }
}

/// No image is kept of a record that is not shown.
pub proof fn law_images_are_of_shown_records(m: ViewModel, page: HistoryPage, k: (Seq<char>, u64))
    requires
        page.query@ == m.history_query@,
    ensures
        ({
            let after = reduced(m, FrontendEvent::HistoryPage(page));
            after.history_images.contains_key(k) ==> shown(
                after.history_page->Some_0.records,
                k,
            ) && after.history_images[k] == m.history_images[k]
        }),
{
}

} // verus!
