//! What the history promises to those who use it: what is recorded is kept, found
//! and listed, pins hold, and clears do what they say.
use crate::history::laws::all_cleared;
use crate::history::search::before_null;
use crate::history::search::folded;
use crate::history::search::matched;
use crate::history::store::decoded;
use crate::history::store::is_export;
use crate::history::store::is_page;
use crate::history::store::key_of;
use crate::history::store::row_holds;
use crate::history::store::row_in;
use crate::history::store::text_holds;
use crate::history::store::EventColumns;
use crate::history::store::EventKey;
use crate::history::store::StoreModel;
use crate::history::validate::event_fault;
use crate::history::validate::file_fault;
use crate::history::validate::files_fault;
use crate::history::ContentModel;
use crate::history::EventModel;
use crate::history::FileModel;
use crate::history::RecordModel;
use crate::text::byte_len;
use crate::text::holds;
use crate::text::index_of;
use crate::text::lemma_index_found;
use crate::text::lemma_index_missing;
use crate::text::part_at;
use crate::history::store::clears_all;
use crate::history::store::copies;
use crate::history::store::gets;
use crate::history::store::numbers_next;
use crate::history::HistoryContent;
use crate::history::HistoryError;
use crate::history::HistoryKind;
use crate::history::HistoryOrigin;
use crate::history::HistoryRecord;
use crate::history::MergeOutcome;
use vstd::prelude::*;

verus! {

/// Two characters that a search does not tell apart: the same one, an ASCII letter in
/// both cases, or two of the last three of the first plane.
pub open spec fn alike(a: char, b: char) -> bool {
    ||| a == b
    ||| 'A' <= a <= 'Z' && b as int == a as int + 32
    ||| 'A' <= b <= 'Z' && a as int == b as int + 32
    ||| '\u{fffd}' <= a <= '\u{ffff}' && '\u{fffd}' <= b <= '\u{ffff}'
}

/// A text has what is searched at a place, and no null character up to its end.
pub open spec fn shows(text: Seq<char>, query: Seq<char>, at: int) -> bool {
    &&& 0 <= at && at + query.len() <= text.len()
    &&& forall|i: int| 0 <= i < query.len() ==> alike(#[trigger] text[at + i], query[i])
    &&& forall|i: int| 0 <= i < at + query.len() ==> #[trigger] text[i] != '\0'
}

/// A text of a stored event that a search looks at.
pub open spec fn searched(m: StoreModel, k: EventKey, text: Seq<char>) -> bool {
    ||| m.events[k].label == Some(text)
    ||| m.events[k].files_json == Some(text)
    ||| m.events[k].content == Some(ContentModel::Text(text))
    ||| m.events[k].content matches Some(
        ContentModel::Image { bytes, media_type, width, height },
    ) && media_type == Some(text)
}

proof fn lemma_alike(a: char, b: char)
    ensures
        alike(a, b) == (crate::history::search::fold_char(a)
            == crate::history::search::fold_char(b)),
{
}

proof fn lemma_before_null(s: Seq<char>, n: int)
    requires
        0 <= n <= s.len(),
        forall|i: int| 0 <= i < n ==> s[i] != '\0',
    ensures
        n <= before_null(s).len() <= s.len(),
        forall|i: int| 0 <= i < before_null(s).len() ==> before_null(s)[i] == s[i],
{
    if index_of(s, '\0') is Some {
        lemma_index_found(s, '\0', index_of(s, '\0')->Some_0);
    }
}

proof fn lemma_matched(text: Seq<char>, query: Seq<char>)
    requires
        !query.contains('\0'),
    ensures
        matched(text, query) <==> exists|at: int| shows(text, query, at),
{
    if index_of(query, '\0') is Some {
        lemma_index_found(query, '\0', index_of(query, '\0')->Some_0);
        assert(query.contains('\0'));
    }
    let front = before_null(text);
    let a = folded(front);
    let b = folded(query);
    lemma_before_null(text, 0);
    if exists|at: int| shows(text, query, at) {
        let at = choose|at: int| shows(text, query, at);
        lemma_before_null(text, at + query.len());
        assert forall|i: int| 0 <= i < b.len() implies a.subrange(at, at + b.len())[i] == b[i] by {
            assert(alike(text[at + i], query[i]));
            lemma_alike(text[at + i], query[i]);
        }
        assert(a.subrange(at, at + b.len()) =~= b);
        assert(part_at(a, b, at));
        assert(holds(a, b));
    }
    if matched(text, query) {
        let at = choose|at: int| part_at(a, b, at);
        assert(part_at(a, b, at));
        assert forall|i: int| 0 <= i < query.len() implies alike(
            #[trigger] text[at + i],
            query[i],
        ) by {
            assert(a.subrange(at, at + b.len())[i] == b[i]);
            lemma_alike(text[at + i], query[i]);
        }
        assert forall|i: int| 0 <= i < at + query.len() implies #[trigger] text[i] != '\0' by {
            match index_of(text, '\0') {
                Some(n) => lemma_index_found(text, '\0', n),
                None => lemma_index_missing(text, '\0'),
            }
        }
        assert(shows(text, query, at));
    }
}

/// A search finds an event by any text of it: the label of its device, the text that
/// was copied, the type of the image, and the files as they are stored. Whatever is
/// not hidden, can be read and has the searched words in one of those texts, in
/// capitals or small letters, is in the list, as it was stored.
pub proof fn law_searches_find_every_text(
    m: StoreModel,
    query: Seq<char>,
    all: Seq<RecordModel>,
    k: EventKey,
    text: Seq<char>,
    at: int,
)
    requires
        m.wf(),
        m.is_listing(query, all),
        m.events.contains_key(k),
        !m.events[k].dismissed,
        !query.contains('\0'),
        searched(m, k, text),
        shows(text, query, at),
    ensures
        exists|i: int|
            {
                &&& 0 <= i < all.len()
                &&& (#[trigger] all[i]).event.id.device == k.0
                &&& all[i].event.id.sequence == k.1
                &&& all[i].event.created_at_ms == m.events[k].created_at_ms
                &&& all[i].event.label == m.events[k].label
                &&& m.events[k].content == Some(all[i].event.content)
                &&& all[i].pinned == m.events[k].pinned
            },
{
    lemma_matched(text, query);
    assert(matched(text, query));
    let row = m.events[k];
    if row.label == Some(text) {
        assert(text_holds(row.label, query));
    } else if row.files_json == Some(text) {
        assert(text_holds(row.files_json, query));
    }
    assert(row_holds(row, query));
    assert(m.found(query, k));
    assert(!m.stumbles(query, k));
    let i = choose|i: int| 0 <= i < all.len() && key_of(#[trigger] all[i]) == k;
    assert(all[i] == m.record(k));
}

/// A search shows nothing else: every event in its list is stored, not hidden, and
/// has the searched words in one of its texts.
pub proof fn law_searches_show_only_what_they_name(
    m: StoreModel,
    query: Seq<char>,
    all: Seq<RecordModel>,
    i: int,
)
    requires
        m.wf(),
        m.is_listing(query, all),
        0 <= i < all.len(),
        query.len() > 0,
        !query.contains('\0'),
    ensures
        ({
            let k = (all[i].event.id.device, all[i].event.id.sequence);
            &&& m.events.contains_key(k)
            &&& !m.events[k].dismissed
            &&& m.events[k].content == Some(all[i].event.content)
            &&& exists|text: Seq<char>, at: int| searched(m, k, text) && shows(text, query, at)
        }),
{
    let k = key_of(all[i]);
    assert(m.found(query, k));
    assert(!m.stumbles(query, k));
    let row = m.events[k];
    assert(row.broken is None);
    let text = if text_holds(row.label, query) {
        row.label->Some_0
    } else if text_holds(row.files_json, query) {
        row.files_json->Some_0
    } else {
        match row.content->Some_0 {
            ContentModel::Text(text) => text,
            ContentModel::Image { bytes, media_type, width, height } => media_type->Some_0,
            ContentModel::Files(_) => Seq::empty(),
        }
    };
    assert(searched(m, k, text));
    lemma_matched(text, query);
    let at = choose|at: int| shows(text, query, at);
    assert(searched(m, k, text) && shows(text, query, at));
}

/// Without a search every event that is not hidden is in the list, once.
pub proof fn law_the_list_is_complete(m: StoreModel, all: Seq<RecordModel>, k: EventKey)
    requires
        m.is_listing(Seq::empty(), all),
    ensures
        (m.events.contains_key(k) && !m.events[k].dismissed) <==> exists|i: int|
            0 <= i < all.len() && (#[trigger] all[i]).event.id.device == k.0
                && all[i].event.id.sequence == k.1,
        forall|i: int, j: int|
            0 <= i < j < all.len() ==> (#[trigger] all[i]).event.id != (#[trigger] all[j]).event.id,
{
    if m.events.contains_key(k) && !m.events[k].dismissed {
        assert(m.found(Seq::empty(), k));
        let i = choose|i: int| 0 <= i < all.len() && key_of(#[trigger] all[i]) == k;
        assert(all[i].event.id.device == k.0);
    }
    if exists|i: int|
        0 <= i < all.len() && (#[trigger] all[i]).event.id.device == k.0
            && all[i].event.id.sequence == k.1 {
        let i = choose|i: int|
            0 <= i < all.len() && (#[trigger] all[i]).event.id.device == k.0
                && all[i].event.id.sequence == k.1;
        assert(key_of(all[i]) == k);
    }
    assert forall|i: int, j: int| 0 <= i < j < all.len() implies (#[trigger] all[i]).event.id != (
    #[trigger] all[j]).event.id by {
        crate::table::lemma_text_order(
            all[i].event.id.device,
            all[j].event.id.device,
            all[i].event.id.device,
        );
    }
}

/// The list starts with the newest event. Of one moment the devices come in the order
/// of their names, and of one device the later event comes first.
pub proof fn law_the_newest_comes_first(
    m: StoreModel,
    query: Seq<char>,
    all: Seq<RecordModel>,
    i: int,
    j: int,
)
    requires
        m.is_listing(query, all),
        0 <= i < j < all.len(),
    ensures
        ({
            let a = all[i].event;
            let b = all[j].event;
            &&& a.created_at_ms >= b.created_at_ms
            &&& a.created_at_ms == b.created_at_ms && a.id.device == b.id.device ==> a.id.sequence
                > b.id.sequence
            &&& a.created_at_ms == b.created_at_ms && a.id.device != b.id.device
                ==> exists|n: int|
                {
                    &&& 0 <= n <= a.id.device.len() && n < b.id.device.len()
                    &&& #[trigger] a.id.device.take(n) == b.id.device.take(n)
                    &&& n == a.id.device.len() || a.id.device[n] < b.id.device[n]
                }
        }),
{
    let a = all[i].event;
    let b = all[j].event;
    assert(crate::history::store::listed_before(all[i], all[j]));
    if a.created_at_ms == b.created_at_ms && a.id.device != b.id.device {
        lemma_below(a.id.device, b.id.device);
    }
}

proof fn lemma_below(a: Seq<char>, b: Seq<char>)
    requires
        crate::table::text_below(a, b),
    ensures
        exists|n: int|
            {
                &&& 0 <= n <= a.len() && n < b.len()
                &&& #[trigger] a.take(n) == b.take(n)
                &&& n == a.len() || a[n] < b[n]
            },
    decreases a.len(),
{
    if a.len() == 0 || a[0] != b[0] {
        assert(a.take(0) =~= b.take(0));
    } else {
        let x = a.drop_first();
        let y = b.drop_first();
        lemma_below(x, y);
        let n = choose|n: int|
            {
                &&& 0 <= n <= x.len() && n < y.len()
                &&& #[trigger] x.take(n) == y.take(n)
                &&& n == x.len() || x[n] < y[n]
            };
        assert forall|i: int| 0 <= i < n + 1 implies a[i] == b[i] by {
            if i > 0 {
                assert(x.take(n)[i - 1] == y.take(n)[i - 1]);
            }
        }
        assert(a.take(n + 1) =~= b.take(n + 1));
    }
}

/// A page of a list holds the records from its offset on, at most as many as were
/// asked for (1 to 50), and names the place of the next record if there is one.
pub proof fn law_pages_hold_what_was_asked_for(
    all: Seq<RecordModel>,
    offset: u64,
    limit: usize,
    records: Seq<RecordModel>,
    next: Option<u64>,
    events: Seq<EventModel>,
    next_event: Option<u64>,
)
    requires
        is_page(all, offset, limit, records, next),
        is_export(all, offset, limit, events, next_event),
        all.len() <= u64::MAX,
    ensures
        records.len() == events.len(),
        forall|i: int|
            0 <= i < records.len() ==> offset + i < all.len() && #[trigger] records[i] == all[offset
                + i] && events[i] == all[offset + i].event,
        1 <= limit <= 50 ==> records.len() <= limit,
        records.len() <= 50,
        offset + records.len() < all.len() ==> next == Some((offset + records.len()) as u64)
            && records.len() == (if limit == 0 {
            1
        } else if limit > 50 {
            50
        } else {
            limit as int
        }),
        offset + records.len() >= all.len() ==> next is None,
        next_event == next,
{
}

/// An event is recorded if and only if it keeps the limits: 1 to 1024 bytes for the
/// device, 1 to 16384 for a label, a sequence that a database holds, and content
/// that is not empty and not too large.
pub proof fn law_which_events_are_recorded(e: EventModel)
    ensures
        event_fault(e) is None <==> {
            &&& 0 < e.id.device.len() && byte_len(e.id.device) <= 1024
            &&& e.label matches Some(label) ==> 0 < label.len() && byte_len(label) <= 16384
            &&& e.id.sequence <= 0x7fff_ffff_ffff_ffff
            &&& match e.content {
                ContentModel::Text(text) => 0 < text.len() && byte_len(text) <= 1024 * 1024,
                ContentModel::Files(files) => {
                    &&& 1 <= files.len() <= 1024
                    &&& forall|i: int|
                        0 <= i < files.len() ==> {
                            let file = #[trigger] files[i];
                            &&& 0 < file.name.len() && byte_len(file.name) <= 16384
                            &&& file.media_type matches Some(t) ==> 0 < t.len() && byte_len(t)
                                <= 16384
                        }
                },
                ContentModel::Image { bytes, media_type, width, height } => {
                    &&& bytes is Some || media_type is Some
                    &&& bytes matches Some(b) ==> 1 <= b.len() <= 32 * 1024 * 1024
                    &&& media_type matches Some(t) ==> 0 < t.len() && byte_len(t) <= 16384
                    &&& width is Some <==> height is Some
                    &&& width != Some(0u32) && height != Some(0u32)
                    &&& media_type == Some("image/x-rgba8"@) ==> {
                        &&& bytes is Some && width is Some
                        &&& bytes->Some_0.len() == width->Some_0 * height->Some_0 * 4
                    }
                },
            }
        },
{
    match e.content {
        ContentModel::Files(files) => {
            lemma_files(files, 0);
        },
        _ => {},
    }
}

proof fn lemma_files(files: Seq<FileModel>, i: int)
    requires
        0 <= i <= files.len(),
    ensures
        files_fault(files, i) is None <==> forall|k: int|
            i <= k < files.len() ==> file_fault(#[trigger] files[k]) is None,
    decreases files.len() - i,
{
    if i < files.len() {
        lemma_files(files, i + 1);
        if file_fault(files[i]) is None && files_fault(files, i + 1) is None {
            assert forall|k: int| i <= k < files.len() implies file_fault(
                #[trigger] files[k],
            ) is None by {
                if k == i {
                    assert(files[k] == files[i]);
                }
            }
        }
    }
}

/// What is recorded is kept: a valid event under an identity that is new and that no
/// clear reaches is inserted, shown, unpinned, with all that it says.
pub proof fn law_recorded_events_are_kept(m: StoreModel, e: EventModel, json: Option<Seq<char>>)
    requires
        event_fault(e) is None,
        !m.events.contains_key((e.id.device, e.id.sequence)),
        forall|op: Seq<char>| #[trigger]
            m.operations.contains_key(op) && m.operations[op].boundary.contains_key(e.id.device)
                ==> m.operations[op].boundary[e.id.device] < e.id.sequence,
    ensures
        m.merged(e, json) matches Ok((outcome, after)) && outcome is Inserted && {
            let k = (e.id.device, e.id.sequence);
            let row = after.events[k];
            &&& after.events.contains_key(k)
            &&& !row.dismissed && !row.pinned && row.broken is None
            &&& row.content == Some(e.content)
            &&& row.label == e.label
            &&& row.created_at_ms == e.created_at_ms
            &&& e.content is Files ==> row.files_json == json
            &&& after.events.remove(k) == m.events.remove(k)
            &&& after.operations == m.operations
        },
{
    let k = (e.id.device, e.id.sequence);
    let after = m.merged(e, json)->Ok_0.1;
    assert(!m.covered(k));
    assert(after.events.remove(k) =~= m.events.remove(k));
}

/// Whatever a merge answers, it changes nothing unless it inserts; and a clear that
/// reached an identity suppresses it for ever, as does its being hidden.
pub proof fn law_merges_only_insert(m: StoreModel, e: EventModel, json: Option<Seq<char>>)
    requires
        m.wf(),
        m.merged(e, json) is Ok,
    ensures
        ({
            let k = (e.id.device, e.id.sequence);
            let (outcome, after) = m.merged(e, json)->Ok_0;
            &&& !(outcome is Inserted) ==> after == m
            &&& outcome is Inserted ==> !m.events.contains_key(k)
            &&& outcome is AlreadyPresent <==> m.events.contains_key(k) && !m.events[k].dismissed
            &&& outcome is AlreadyPresent ==> m.events[k].content == Some(e.content)
            &&& outcome is AlreadyPresent ==> m.events[k].label == e.label
                && m.events[k].created_at_ms == e.created_at_ms
            &&& m.events.contains_key(k) && m.events[k].dismissed ==> outcome is Suppressed
            &&& forall|op: Seq<char>|
                !m.events.contains_key(k) && #[trigger] m.operations.contains_key(op)
                    && m.operations[op].boundary.contains_key(e.id.device)
                    && m.operations[op].boundary[e.id.device] >= e.id.sequence
                    ==> outcome is Suppressed
        }),
{
}

/// The pin of an event that is shown becomes what was asked for, on or off, and
/// nothing else changes.
pub proof fn law_pins_are_set(m: StoreModel, k: EventKey, pinned: bool, j: EventKey)
    requires
        m.events.contains_key(k),
        !m.events[k].dismissed,
    ensures
        ({
            let after = m.with_pin(k, pinned);
            &&& after.events.contains_key(k)
            &&& after.events[k].pinned == pinned
            &&& after.events[k].content == m.events[k].content
            &&& after.events[k].label == m.events[k].label
            &&& after.events[k].created_at_ms == m.events[k].created_at_ms
            &&& after.events[k].files_json == m.events[k].files_json
            &&& !after.events[k].dismissed
            &&& after.events.dom() == m.events.dom()
            &&& j != k && m.events.contains_key(j) ==> after.events[j] == m.events[j]
            &&& after.operations == m.operations
            &&& after.with_pin(k, m.events[k].pinned) == m
        }),
{
    let after = m.with_pin(k, pinned);
    assert(after.events.dom() =~= m.events.dom());
    assert(after.with_pin(k, m.events[k].pinned).events =~= m.events);
}

/// What is hidden or unknown cannot be pinned.
pub proof fn law_hidden_events_are_not_pinned(m: StoreModel, k: EventKey, pinned: bool)
    requires
        m.events.contains_key(k) ==> m.events[k].dismissed,
    ensures
        m.with_pin(k, pinned) == m,
{
}

/// A clear of everything hides what was shown and not pinned, keeps what was pinned
/// as it is, brings nothing back, and forgets the content of what it hides.
pub proof fn law_a_clear_spares_pins_alone(m: StoreModel, k: EventKey)
    requires
        m.events.contains_key(k),
    ensures
        ({
            let after = all_cleared(m);
            &&& after.events.contains_key(k)
            &&& after.operations == m.operations
            &&& m.events[k].pinned ==> after.events[k] == m.events[k]
            &&& !m.events[k].pinned ==> after.events[k].dismissed
            &&& !m.events[k].pinned && !m.events[k].dismissed ==> after.events[k].content is None
                && after.events[k].files_json is None
        }),
{
}

/// A clear up to a boundary hides, of each device that it names, what is not pinned up
/// to the sequence that it names; everything else stays as it is. It counts what it
/// hid, and is remembered with its boundary.
pub proof fn law_a_bounded_clear_hides_what_it_names(
    m: StoreModel,
    op: Seq<char>,
    boundary: Map<Seq<char>, u64>,
    k: EventKey,
)
    requires
        !m.operations.contains_key(op),
        m.events.contains_key(k),
        m.events.dom().finite(),
    ensures
        ({
            let (after, n) = m.cleared(op, boundary);
            &&& after.events.contains_key(k)
            &&& if !m.events[k].pinned && boundary.contains_key(k.0) && boundary[k.0] >= k.1 {
                after.events[k].dismissed
            } else {
                after.events[k] == m.events[k]
            }
            &&& n == m.events.dom().filter(
                |j: EventKey| !m.events[j].dismissed && after.events[j].dismissed,
            ).len()
            &&& after.operations.contains_key(op)
            &&& after.operations[op].boundary == boundary
            &&& after.operations.remove(op) == m.operations.remove(op)
        }),
{
    let (after, n) = m.cleared(op, boundary);
    assert(after.operations.remove(op) =~= m.operations.remove(op));
    assert(m.events.dom().filter(
        |j: EventKey| !m.events[j].dismissed && after.events[j].dismissed,
    ) =~= m.events.dom().filter(|j: EventKey| m.dismissable(boundary, j)));
}

/// A clear is accepted if and only if its name and the devices have 1 to 1024 bytes,
/// and it is either new, with sequences that a database holds, or the same as before.
pub proof fn law_which_clears_are_accepted(
    m: StoreModel,
    op: Seq<char>,
    boundary: Map<Seq<char>, u64>,
)
    ensures
        m.clear_fault(op, boundary) is None <==> {
            &&& 0 < op.len() && byte_len(op) <= 1024
            &&& forall|d: Seq<char>| #[trigger]
                boundary.contains_key(d) ==> 0 < d.len() && byte_len(d) <= 1024
            &&& if m.operations.contains_key(op) {
                m.operations[op].boundary == boundary
            } else {
                forall|d: Seq<char>| #[trigger]
                    boundary.contains_key(d) ==> boundary[d] <= 0x7fff_ffff_ffff_ffff
            }
        },
{
    let none = Seq::<char>::empty();
    if boundary.contains_key(none) {
        assert(none.len() == 0);
    }
    if m.clear_fault(op, boundary) is None {
        assert forall|d: Seq<char>| #[trigger] boundary.contains_key(d) implies 0 < d.len()
            && byte_len(d) <= 1024 by {
            if d.len() == 0 {
                assert(d =~= none);
            }
        }
        assert forall|d: Seq<char>| !m.operations.contains_key(op) && #[trigger] boundary.contains_key(
            d,
        ) implies boundary[d] <= 0x7fff_ffff_ffff_ffff by {
            assert(boundary[d] <= 0x7fff_ffff_ffff_ffff || boundary[d] > 0x7fff_ffff_ffff_ffff);
        }
    } else if exists|d: Seq<char>|
        boundary.contains_key(d) && #[trigger] boundary[d] > 0x7fff_ffff_ffff_ffff {
        let d = choose|d: Seq<char>|
            boundary.contains_key(d) && #[trigger] boundary[d] > 0x7fff_ffff_ffff_ffff;
        assert(boundary.contains_key(d));
    }
}

/// A row of the database stands for the event that its columns name, with the content
/// of its kind. One that is hidden keeps no content.
pub proof fn law_columns_stand_for_their_event(c: EventColumns)
    requires
        c.sequence >= 0,
    ensures
        row_in(c) matches Ok((k, row)) && {
            &&& k == (c.device_id@, c.sequence as u64)
            &&& row.created_at_ms == c.created_at_ms
            &&& row.label == crate::history::chars(c.label)
            &&& row.dismissed == c.dismissed
            &&& !c.dismissed ==> row.pinned == c.pinned
            &&& c.dismissed ==> row.content is None
            &&& !c.dismissed && c.unread is None && c.kind@ == "text"@ && c.text is Some
                ==> row.content == Some(ContentModel::Text(c.text->Some_0@))
            &&& !c.dismissed && c.unread is None && c.kind@ == "image"@ ==> row.content == Some(
                ContentModel::Image {
                    bytes: crate::history::bytes_of(c.image),
                    media_type: crate::history::chars(c.media_type),
                    width: c.width,
                    height: c.height,
                },
            )
            &&& !c.dismissed && c.unread is None && c.kind@ == "files"@ && (c.files matches Some(
                Ok(files),
            )) ==> row.content == Some(
                ContentModel::Files(crate::history::files_of(c.files->Some_0->Ok_0@)),
            ) && row.files_json == crate::history::chars(c.files_json)
        },
{
    reveal_strlit("text");
    reveal_strlit("image");
    reveal_strlit("files");
    assert("text"@[0] != "image"@[0]);
    assert("text"@[0] != "files"@[0]);
    assert("image"@[0] != "files"@[0]);
}

/// The number that comes next for a device is above those of all its events and of all
/// clears that reached it, and the number before it was used, or none was. There is none
/// only for a device that cannot be named, or that used the last one.
pub proof fn law_numbers_follow_each_other(
    m: StoreModel,
    device: Seq<char>,
    r: Result<u64, HistoryError>,
    k: EventKey,
    op: Seq<char>,
)
    requires
        numbers_next(m, device, r),
    ensures
        r matches Ok(n) ==> {
            &&& 1 <= n <= 0x7fff_ffff_ffff_ffff
            &&& m.events.contains_key(k) && k.0 == device ==> k.1 < n
            &&& m.operations.contains_key(op) && m.operations[op].boundary.contains_key(device)
                ==> m.operations[op].boundary[device] < n
            &&& n == 1 || m.events.contains_key((device, (n - 1) as u64)) || exists|o: Seq<char>|
                #[trigger] m.operations.contains_key(o) && m.operations[o].boundary.contains_key(
                    device,
                ) && m.operations[o].boundary[device] == n - 1
        },
        r is Err ==> device.len() == 0 || byte_len(device) > 1024 || m.is_highest(
            device,
            0x7fff_ffff_ffff_ffff,
        ),
{
}

/// A copy is recorded with the content, the label, the time and the identity that it came
/// with, if its kind is that of its content; otherwise nothing is recorded.
pub proof fn law_copies_are_stored(
    m: StoreModel,
    kind: HistoryKind,
    content: HistoryContent,
    origin: HistoryOrigin,
    now_ms: i64,
    files_json: Option<String>,
    r: Result<MergeOutcome, HistoryError>,
    after: StoreModel,
)
    requires
        copies(m, kind, content, origin, now_ms, files_json, r, after),
    ensures
        r matches Ok(outcome) ==> {
            &&& kind == HistoryKind::Text <==> content is Text
            &&& kind == HistoryKind::Image <==> content is Image
            &&& kind == HistoryKind::Files <==> content is Files
            &&& outcome is Inserted ==> {
                let k = (origin.device_id@, origin.sequence);
                &&& after.events.contains_key(k)
                &&& after.events[k].content == Some(content@)
                &&& after.events[k].label == crate::history::chars(origin.label)
                &&& after.events[k].created_at_ms == now_ms
                &&& !after.events[k].pinned && !after.events[k].dismissed
            }
            &&& !(outcome is Inserted) ==> after == m
        },
        r is Err ==> after == m,
{
}

/// A clear of everything counts what it hid, and is what all clears of everything do.
pub proof fn law_clears_count_what_they_hid(m: StoreModel, n: usize, after: StoreModel, k: EventKey)
    requires
        clears_all(m, n, after),
        m.events.dom().finite(),
    ensures
        n == m.events.dom().filter(
            |j: EventKey| !m.events[j].dismissed && after.events[j].dismissed,
        ).len(),
        after.operations == m.operations,
        m.events.contains_key(k) ==> after.events.contains_key(k) && (if m.events[k].pinned {
            after.events[k] == m.events[k]
        } else {
            after.events[k].dismissed
        }),
{
    assert(m.events.dom().filter(
        |j: EventKey| !m.events[j].dismissed && after.events[j].dismissed,
    ) =~= m.events.dom().filter(|j: EventKey| m.unpinned(j)));
}

/// An event that is shown and can be read is found by its identity, with all that it
/// says; one that is hidden or unknown is not.
pub proof fn law_events_are_found_by_identity(
    m: StoreModel,
    k: EventKey,
    r: Result<Option<HistoryRecord>, HistoryError>,
)
    requires
        m.wf(),
        gets(m, k, r),
    ensures
        r matches Ok(Some(record)) ==> {
            &&& m.events.contains_key(k) && !m.events[k].dismissed
            &&& record@.event.id.device == k.0 && record@.event.id.sequence == k.1
            &&& Some(record@.event.content) == m.events[k].content
            &&& record@.event.label == m.events[k].label
            &&& record@.event.created_at_ms == m.events[k].created_at_ms
            &&& record@.pinned == m.events[k].pinned
        },
        m.events.contains_key(k) && !m.events[k].dismissed && m.events[k].broken is None
            ==> (r matches Ok(Some(_))),
        k.1 <= 0x7fff_ffff_ffff_ffff && (!m.events.contains_key(k) || m.events[k].dismissed)
            ==> (r matches Ok(None)),
{
}

/// A search within its limit over events that can all be read does not fail.
pub proof fn law_readable_histories_are_searched(
    m: StoreModel,
    query: Seq<char>,
    fault: crate::history::HistoryFault,
)
    requires
        forall|k: EventKey| #[trigger]
            m.events.contains_key(k) && !m.events[k].dismissed ==> m.events[k].broken is None,
        byte_len(crate::history::search::search_pattern(query)) <= 50000 || query.len() == 0,
    ensures
        !m.fails(query, fault),
{
    if m.fails(query, fault) {
        let k = choose|k: EventKey|
            {
                &&& #[trigger] m.stumbles(query, k)
                &&& m.row_fault(k) == Some(fault)
                &&& forall|j: EventKey| #[trigger]
                    m.stumbles(query, j) && j != k ==> crate::history::store::listed_before(
                        m.record(k),
                        m.record(j),
                    )
            };
        assert(m.stumbles(query, k));
        assert(m.events.contains_key(k));
    }
}

/// An event that cannot be read and is not hidden stands in the way of the list, and of a
/// search only if the search finds it.
pub proof fn law_unreadable_events_stand_in_the_way(
    m: StoreModel,
    query: Seq<char>,
    all: Seq<RecordModel>,
    k: EventKey,
)
    requires
        m.is_listing(query, all),
        m.events.contains_key(k),
        !m.events[k].dismissed,
        m.events[k].broken is Some,
    ensures
        query.len() > 0,
        !row_holds(m.events[k], query),
{
    assert(!m.stumbles(query, k));
}

/// A search whose pattern has more than 50000 bytes is refused as too long, unless there is
/// nothing to search.
pub proof fn law_long_searches_are_refused(
    m: StoreModel,
    query: Seq<char>,
    all: Seq<RecordModel>,
    fault: crate::history::HistoryFault,
    k: EventKey,
)
    requires
        query.len() > 0,
        byte_len(crate::history::search::search_pattern(query)) > 50000,
        m.events.contains_key(k),
    ensures
        !m.is_listing(query, all),
        m.fails(query, fault) <==> fault == crate::history::HistoryFault::Database(
            "LIKE or GLOB pattern too complex"@,
        ),
{
}

/// An event that cannot be read is searched by the texts that can: a search that finds one
/// of them has no list.
pub proof fn law_unreadable_events_are_searched(
    m: StoreModel,
    query: Seq<char>,
    all: Seq<RecordModel>,
    k: EventKey,
    text: Seq<char>,
    at: int,
)
    requires
        m.events.contains_key(k),
        !m.events[k].dismissed,
        m.events[k].broken is Some,
        !query.contains('\0'),
        m.events[k].broken->Some_0.text == Some(text) || m.events[k].broken->Some_0.media_type
            == Some(text) || m.events[k].files_json == Some(text) || m.events[k].label == Some(text),
        shows(text, query, at),
    ensures
        !m.is_listing(query, all),
{
    lemma_matched(text, query);
    assert(row_holds(m.events[k], query));
    assert(m.stumbles(query, k));
}

/// A search that fails, and is not too long, fails for an event that it finds, that is not
/// hidden and that cannot be read, and says what is wrong with it.
pub proof fn law_failures_say_what_is_wrong(
    m: StoreModel,
    query: Seq<char>,
    fault: crate::history::HistoryFault,
)
    requires
        m.fails(query, fault),
        byte_len(crate::history::search::search_pattern(query)) <= 50000 || query.len() == 0,
    ensures
        exists|k: EventKey|
            {
                &&& #[trigger] m.events.contains_key(k)
                &&& !m.events[k].dismissed
                &&& m.events[k].broken is Some
                &&& decoded(m.events[k].broken->Some_0) is Err ==> fault
                    == crate::history::HistoryFault::Database(
                    decoded(m.events[k].broken->Some_0)->Err_0,
                )
                &&& query.len() == 0 || row_holds(m.events[k], query)
            },
{
    let k = choose|k: EventKey|
        {
            &&& #[trigger] m.stumbles(query, k)
            &&& m.row_fault(k) == Some(fault)
            &&& forall|j: EventKey| #[trigger]
                m.stumbles(query, j) && j != k ==> crate::history::store::listed_before(
                    m.record(k),
                    m.record(j),
                )
        };
    assert(m.stumbles(query, k));
    assert(m.events.contains_key(k));
}

} // verus!
