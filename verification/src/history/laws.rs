//! What the operations of the history keep true.
use crate::history::store::key_of;
use crate::history::store::listed_before;
use crate::history::store::page_end;
use crate::history::store::page_next;
use crate::history::store::page_start;
use crate::history::store::EventKey;
use crate::history::store::StoreModel;
use crate::history::validate::event_fault;
use crate::history::EventModel;
use crate::history::HistoryFault;
use crate::history::MergeOutcome;
use crate::history::RecordModel;
use vstd::prelude::*;

verus! {

/// The store after everything unpinned was cleared.
pub open spec fn all_cleared(m: StoreModel) -> StoreModel {
    StoreModel { events: m.dismissing(|k: EventKey| m.unpinned(k)), ..m }
}

/// A pinned event survives every clear, content and pin.
pub proof fn law_pins_survive_clear(
    m: StoreModel,
    op: Seq<char>,
    boundary: Map<Seq<char>, u64>,
    k: EventKey,
)
    requires
        m.visible(k),
        m.events[k].pinned,
    ensures
        all_cleared(m).visible(k),
        all_cleared(m).record(k) == m.record(k),
        m.cleared(op, boundary).0.visible(k),
        m.cleared(op, boundary).0.record(k) == m.record(k),
{
}

/// After a clear of everything only pinned events are listed.
pub proof fn law_clear_leaves_pins_only(m: StoreModel, k: EventKey)
    ensures
        all_cleared(m).visible(k) <==> m.visible(k) && m.events[k].pinned,
{
}

/// An event that cannot be read stands in nobody's way once everything was
/// cleared, unless it is pinned.
pub proof fn law_clear_mends(m: StoreModel, query: Seq<char>, k: EventKey)
    ensures
        all_cleared(m).stumbles(query, k) ==> m.stumbles(query, k) && m.events[k].pinned,
{
}

/// A search that fails has no list, and one that has a list does not fail.
pub proof fn law_searches_list_or_fail(
    m: StoreModel,
    query: Seq<char>,
    all: Seq<RecordModel>,
    fault: HistoryFault,
)
    ensures
        !(m.is_listing(query, all) && m.fails(query, fault)),
{
}

/// What was cleared cannot come back: an event of a cleared identity is
/// suppressed, and nothing changes.
pub proof fn law_cleared_events_stay_cleared(
    m: StoreModel,
    k: EventKey,
    e: EventModel,
    json: Option<Seq<char>>,
)
    requires
        m.unpinned(k),
        k == (e.id.device, e.id.sequence),
        event_fault(e) is None,
    ensures
        all_cleared(m).merged(e, json) == Ok::<(MergeOutcome, StoreModel), HistoryFault>(
            (MergeOutcome::Suppressed, all_cleared(m)),
        ),
{
}

/// A bounded clear touches nothing of the origins that its boundary does not
/// name, nor what lies above the boundary.
pub proof fn law_bounded_clear_is_bounded(
    m: StoreModel,
    op: Seq<char>,
    boundary: Map<Seq<char>, u64>,
    k: EventKey,
)
    requires
        m.events.contains_key(k),
        !boundary.contains_key(k.0) || k.1 > boundary[k.0],
    ensures
        m.cleared(op, boundary).0.events.contains_key(k),
        m.cleared(op, boundary).0.events[k] == m.events[k],
{
}

/// A bounded clear hides every unpinned event that it reaches.
pub proof fn law_bounded_clear_hides(
    m: StoreModel,
    op: Seq<char>,
    boundary: Map<Seq<char>, u64>,
    k: EventKey,
)
    requires
        !m.operations.contains_key(op),
        m.dismissable(boundary, k),
    ensures
        !m.cleared(op, boundary).0.visible(k),
{
}

/// An event that a bounded clear reaches, but that arrives only later, is
/// suppressed.
pub proof fn law_late_events_are_suppressed(
    m: StoreModel,
    op: Seq<char>,
    boundary: Map<Seq<char>, u64>,
    e: EventModel,
    json: Option<Seq<char>>,
)
    requires
        !m.operations.contains_key(op),
        !m.events.contains_key((e.id.device, e.id.sequence)),
        boundary.contains_key(e.id.device),
        e.id.sequence <= boundary[e.id.device],
        event_fault(e) is None,
    ensures
        ({
            let after = m.cleared(op, boundary).0;
            after.merged(e, json) == Ok::<(MergeOutcome, StoreModel), HistoryFault>(
                (MergeOutcome::Suppressed, after),
            )
        }),
{
    let after = m.cleared(op, boundary).0;
    let k = (e.id.device, e.id.sequence);
    assert(after.operations.contains_key(op));
    assert(after.operations[op].boundary == boundary);
    assert(after.covered(k));
}

/// A clear operation that is repeated counts what it counted first, and changes
/// nothing.
pub proof fn law_clear_is_idempotent(m: StoreModel, op: Seq<char>, boundary: Map<Seq<char>, u64>)
    requires
        m.cleared(op, boundary).1 <= usize::MAX,
    ensures
        m.cleared(op, boundary).0.cleared(op, boundary) == m.cleared(op, boundary),
{
}

/// A clear operation that is repeated with another boundary is refused.
pub proof fn law_clear_conflict(
    m: StoreModel,
    op: Seq<char>,
    boundary: Map<Seq<char>, u64>,
    other: Map<Seq<char>, u64>,
)
    requires
        !m.operations.contains_key(op),
        m.clear_fault(op, boundary) is None,
        m.clear_fault(op, other) is None,
        other != boundary,
    ensures
        m.cleared(op, boundary).0.clear_fault(op, other) == Some(
            HistoryFault::ClearOperationConflict(op),
        ),
{
}

/// An event that is merged twice is there once: the second time nothing
/// changes.
pub proof fn law_merge_is_idempotent(m: StoreModel, e: EventModel, json: Option<Seq<char>>)
    requires
        m.merged(e, json) is Ok,
    ensures
        ({
            let (outcome, after) = m.merged(e, json)->Ok_0;
            &&& after.merged(e, json) is Ok
            &&& after.merged(e, json)->Ok_0.1 == after
            &&& after.merged(e, json)->Ok_0.0 == (if outcome is Suppressed {
                MergeOutcome::Suppressed
            } else {
                MergeOutcome::AlreadyPresent
            })
        }),
{
}

/// An identity stands for one event: where it is shown and can be read, any other
/// event of that identity is refused.
pub proof fn law_identity_is_one_event(m: StoreModel, e: EventModel, json: Option<Seq<char>>)
    requires
        event_fault(e) is None,
        m.visible((e.id.device, e.id.sequence)),
        m.row_fault((e.id.device, e.id.sequence)) is None,
        m.event((e.id.device, e.id.sequence)) != e,
    ensures
        m.merged(e, json) == Err::<(MergeOutcome, StoreModel), HistoryFault>(
            HistoryFault::EventConflict(e.id),
        ),
{
}

/// Merging leaves every other event, its pin and its dismissal as they are.
pub proof fn law_merge_leaves_others(
    m: StoreModel,
    e: EventModel,
    json: Option<Seq<char>>,
    k: EventKey,
)
    requires
        m.merged(e, json) is Ok,
        m.events.contains_key(k),
    ensures
        m.merged(e, json)->Ok_0.1.events.contains_key(k),
        m.merged(e, json)->Ok_0.1.events[k] == m.events[k],
{
}

/// A sequence that is allocated next is fresh: no event has it, no clear
/// operation reaches it, so a new event under it is taken.
pub proof fn law_next_sequence_is_fresh(
    m: StoreModel,
    n: u64,
    e: EventModel,
    json: Option<Seq<char>>,
)
    requires
        m.is_highest(e.id.device, n),
        e.id.sequence > n,
        event_fault(e) is None,
    ensures
        m.merged(e, json) is Ok,
        m.merged(e, json)->Ok_0.0 is Inserted,
{
    let k = (e.id.device, e.id.sequence);
    if m.events.contains_key(k) {
        assert(k.1 <= n);
    }
    if m.covered(k) {
        let op = choose|op: Seq<char>| #[trigger]
            m.operations.contains_key(op) && m.operations[op].boundary.contains_key(k.0)
                && m.operations[op].boundary[k.0] >= k.1;
        assert(m.operations[op].boundary[k.0] <= n);
    }
}

/// Sequences never rewind: neither a merge nor a clear makes the highest
/// sequence of a device smaller.
pub proof fn law_sequences_never_rewind(
    m: StoreModel,
    after: StoreModel,
    device: Seq<char>,
    before_n: u64,
    after_n: u64,
)
    requires
        m.is_highest(device, before_n),
        after.is_highest(device, after_n),
        grown(m, after),
    ensures
        before_n <= after_n,
{
    if before_n > 0 {
        if m.events.contains_key((device, before_n)) {
            assert(after.events.contains_key((device, before_n)));
        } else {
            let op = choose|op: Seq<char>| #[trigger]
                m.operations.contains_key(op) && m.operations[op].boundary.contains_key(device)
                    && m.operations[op].boundary[device] == before_n;
            assert(after.operations.contains_key(op));
            assert(after.operations[op].boundary[device] <= after_n);
        }
    }
}

/// No identity and no clear operation was forgotten.
pub open spec fn grown(m: StoreModel, after: StoreModel) -> bool {
    &&& forall|k: EventKey| #[trigger] m.events.contains_key(k) ==> after.events.contains_key(k)
    &&& forall|op: Seq<char>| #[trigger]
        m.operations.contains_key(op) ==> after.operations.contains_key(op)
            && after.operations[op].boundary == m.operations[op].boundary
}

/// No operation forgets an identity or a clear operation.
pub proof fn law_nothing_is_forgotten(
    m: StoreModel,
    e: EventModel,
    json: Option<Seq<char>>,
    op: Seq<char>,
    boundary: Map<Seq<char>, u64>,
)
    ensures
        m.merged(e, json) is Ok ==> grown(m, m.merged(e, json)->Ok_0.1),
        grown(m, m.cleared(op, boundary).0),
        grown(m, all_cleared(m)),
{
}

/// A list is determined by the store and the search: two lists of the same are
/// the same.
pub proof fn law_one_listing(
    m: StoreModel,
    query: Seq<char>,
    a: Seq<RecordModel>,
    b: Seq<RecordModel>,
)
    requires
        m.is_listing(query, a),
        m.is_listing(query, b),
    ensures
        a == b,
    decreases a.len(),
{
    lemma_listing_len(m, query, a, b);
    lemma_listing_len(m, query, b, a);
    assert forall|i: int| 0 <= i < a.len() implies a[i] == b[i] by {
        lemma_listing_at(m, query, a, b, i);
    }
    assert(a =~= b);
}

/// The place of a record in another list of the same.
spec fn place_in(b: Seq<RecordModel>, r: RecordModel) -> int {
    choose|j: int| 0 <= j < b.len() && key_of(#[trigger] b[j]) == key_of(r)
}

proof fn lemma_place_in(
    m: StoreModel,
    query: Seq<char>,
    a: Seq<RecordModel>,
    b: Seq<RecordModel>,
    i: int,
)
    requires
        m.is_listing(query, a),
        m.is_listing(query, b),
        0 <= i < a.len(),
    ensures
        0 <= place_in(b, a[i]) < b.len(),
        b[place_in(b, a[i])] == a[i],
{
    assert(m.found(query, key_of(a[i])));
    let j = place_in(b, a[i]);
    assert(key_of(b[j]) == key_of(a[i]));
    assert(b[j] == m.record(key_of(b[j])));
}

/// Places keep their order.
proof fn lemma_places_grow(
    m: StoreModel,
    query: Seq<char>,
    a: Seq<RecordModel>,
    b: Seq<RecordModel>,
    i: int,
    j: int,
)
    requires
        m.is_listing(query, a),
        m.is_listing(query, b),
        0 <= i < j < a.len(),
    ensures
        place_in(b, a[i]) < place_in(b, a[j]),
{
    lemma_place_in(m, query, a, b, i);
    lemma_place_in(m, query, a, b, j);
    let x = place_in(b, a[i]);
    let y = place_in(b, a[j]);
    assert(listed_before(a[i], a[j]));
    crate::table::lemma_text_order(
        a[i].event.id.device,
        a[j].event.id.device,
        a[i].event.id.device,
    );
    if y < x {
        assert(listed_before(b[y], b[x]));
    }
}

/// A record stands no earlier in another list of the same than in this one.
proof fn lemma_place_bound(
    m: StoreModel,
    query: Seq<char>,
    a: Seq<RecordModel>,
    b: Seq<RecordModel>,
    i: int,
)
    requires
        m.is_listing(query, a),
        m.is_listing(query, b),
        0 <= i < a.len(),
    ensures
        place_in(b, a[i]) >= i,
    decreases i,
{
    lemma_place_in(m, query, a, b, i);
    if i > 0 {
        lemma_place_bound(m, query, a, b, i - 1);
        lemma_places_grow(m, query, a, b, i - 1, i);
    }
}

proof fn lemma_listing_len(
    m: StoreModel,
    query: Seq<char>,
    a: Seq<RecordModel>,
    b: Seq<RecordModel>,
)
    requires
        m.is_listing(query, a),
        m.is_listing(query, b),
    ensures
        a.len() <= b.len(),
{
    if a.len() > 0 {
        lemma_place_bound(m, query, a, b, a.len() - 1);
        lemma_place_in(m, query, a, b, a.len() - 1);
    }
}

proof fn lemma_listing_at(
    m: StoreModel,
    query: Seq<char>,
    a: Seq<RecordModel>,
    b: Seq<RecordModel>,
    i: int,
)
    requires
        m.is_listing(query, a),
        m.is_listing(query, b),
        a.len() == b.len(),
        0 <= i < a.len(),
    ensures
        a[i] == b[i],
{
    let x = place_in(b, a[i]);
    lemma_place_in(m, query, a, b, i);
    lemma_place_bound(m, query, a, b, i);
    if x > i {
        lemma_place_in(m, query, b, a, x);
        lemma_place_bound(m, query, b, a, x);
        let y = place_in(a, b[x]);
        assert(a[y] == b[x]);
        assert(listed_before(a[i], a[y]));
        crate::table::lemma_text_order(
            a[i].event.id.device,
            a[i].event.id.device,
            a[i].event.id.device,
        );
    }
}

/// Pages follow each other without a gap and without an overlap: the next one
/// starts where this one ends, and the last one ends with the list.
pub proof fn law_pages_follow(len: int, offset: int, limit: int)
    requires
        0 <= offset,
        0 <= len <= u64::MAX,
    ensures
        page_next(len, offset, limit) is None ==> page_end(len, offset, limit) == len,
        page_next(len, offset, limit) is Some ==> {
            let next = page_next(len, offset, limit)->Some_0 as int;
            &&& page_start(len, next) == page_end(len, offset, limit)
            &&& next > offset
        },
        page_end(len, offset, limit) - page_start(len, offset) <= 50,
{
}

} // verus!
