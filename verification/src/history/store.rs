//! The events of the history and what each operation does to them.
//!
//! The store holds what the database holds: the events, which of them are
//! pinned or dismissed here, and the clear operations that were applied. What
//! changes is for the caller to write down.
use crate::history::chars;
use crate::history::copy_id;
use crate::history::copy_text;
use crate::history::kind_of;
use crate::history::same_optional;
use crate::history::search::is_overlong;
use crate::history::search::matched;
use crate::history::search::matches_text;
use crate::history::search::search_pattern;
use crate::history::search::MAX_PATTERN_BYTES;
use crate::history::validate::event_fault;
use crate::history::validate::sequence_fault;
use crate::history::validate::sequence_to_sql;
use crate::history::validate::text_fault;
use crate::history::validate::validate_event;
use crate::history::validate::validate_string;
use crate::history::ContentModel;
use crate::history::EventIdModel;
use crate::history::EventModel;
use crate::history::HistoryContent;
use crate::history::HistoryError;
use crate::history::HistoryEventId;
use crate::history::HistoryFault;
use crate::history::HistoryKind;
use crate::history::HistoryOrigin;
use crate::history::HistoryRecord;
use crate::history::ImportedHistoryEvent;
use crate::history::MergeOutcome;
use crate::history::RecordModel;
use crate::history::MAX_DEVICE_ID_BYTES;
use crate::history::MAX_OPERATION_ID_BYTES;
use crate::history::MAX_SEQUENCE;
use crate::table::has_row;
use crate::table::lemma_mapping;
use crate::table::mapping;
use crate::table::ordered;
use crate::table::text_below;
use crate::table::text_is_below;
use crate::table::Key;
use crate::table::Table;
use crate::text::byte_len;
use crate::text::decimal;
use crate::text::same_text;
use vstd::prelude::*;

verus! {

/// Inclusive maximum observed sequence for each event origin.
pub type ClearBoundary = Table<String, u64>;

/// The most records that a page holds.
pub const MAX_PAGE: usize = 50;

/// The most bytes that SQLite takes in one column.
pub const MAX_COLUMN_BYTES: usize = 1_000_000_000;

/// A row of the database: an event, and its local state. Dismissed events have
/// lost their content; of an event whose content cannot be read, the columns are
/// kept.
#[derive(Debug, PartialEq, Eq)]
pub struct Row {
    pub created_at_ms: i64,
    pub label: Option<String>,
    pub kind: HistoryKind,
    pub content: Option<HistoryContent>,
    /// The files of the event as the database column spells them.
    pub files_json: Option<String>,
    pub broken: Option<EventColumns>,
    pub pinned: bool,
    pub dismissed: bool,
}

/// A clear operation that was applied: through where, and how many events it
/// dismissed.
#[derive(Debug, PartialEq, Eq)]
pub struct ClearOperation {
    pub boundary: ClearBoundary,
    pub affected: usize,
}

/// Clipboard history, intended for one worker.
#[derive(Debug)]
pub struct HistoryStore {
    events: Table<(String, u64), Row>,
    operations: Table<String, ClearOperation>,
}

// ---------------------------------------------------------------------------
// The store as a mathematical value
// ---------------------------------------------------------------------------

/// The key of an event: its device and its sequence.
pub type EventKey = (Seq<char>, u64);

pub ghost struct RowModel {
    pub created_at_ms: i64,
    pub label: Option<Seq<char>>,
    pub kind: HistoryKind,
    pub content: Option<ContentModel>,
    pub files_json: Option<Seq<char>>,
    pub broken: Option<ColumnsModel>,
    pub pinned: bool,
    pub dismissed: bool,
}

pub ghost struct OperationModel {
    pub boundary: Map<Seq<char>, u64>,
    pub affected: usize,
}

pub ghost struct StoreModel {
    pub events: Map<EventKey, RowModel>,
    pub operations: Map<Seq<char>, OperationModel>,
}

impl View for Row {
    type V = RowModel;

    open spec fn view(&self) -> RowModel {
        RowModel {
            created_at_ms: self.created_at_ms,
            label: chars(self.label),
            kind: self.kind,
            content: match self.content {
                Some(content) => Some(content@),
                None => None,
            },
            files_json: chars(self.files_json),
            broken: match self.broken {
                Some(columns) => Some(columns@),
                None => None,
            },
            pinned: self.pinned,
            dismissed: self.dismissed,
        }
    }
}

impl View for ClearOperation {
    type V = OperationModel;

    open spec fn view(&self) -> OperationModel {
        OperationModel { boundary: self.boundary@, affected: self.affected }
    }
}

pub open spec fn rows_of(m: Map<EventKey, Row>) -> Map<EventKey, RowModel> {
    m.map_values(|r: Row| r@)
}

pub open spec fn operations_of(m: Map<Seq<char>, ClearOperation>) -> Map<Seq<char>, OperationModel> {
    m.map_values(|o: ClearOperation| o@)
}

impl View for HistoryStore {
    type V = StoreModel;

    closed spec fn view(&self) -> StoreModel {
        StoreModel {
            events: rows_of(self.events@),
            operations: operations_of(self.operations@),
        }
    }
}

/// A row is sound: a dismissed event is not pinned and has lost its content,
/// any other has content of its kind, which fits into a column, or columns that
/// cannot be read.
pub open spec fn row_wf(r: RowModel) -> bool {
    &&& r.dismissed ==> !r.pinned && r.content is None && r.files_json is None && r.broken is None
    &&& !r.dismissed ==> match r.broken {
        None => r.content is Some && kind_of(r.content->Some_0) == r.kind && image_fits(
            r.content->Some_0,
        ),
        Some(c) => r.content is None && decoded(c) is Err && r.kind == kind_or_text(c.kind)
            && (c.image matches Some(bytes) ==> bytes.len() <= MAX_COLUMN_BYTES),
    }
}

/// The bytes of an image fit into a column.
pub open spec fn image_fits(c: ContentModel) -> bool {
    c matches ContentModel::Image { bytes: Some(bytes), .. } ==> bytes.len() <= MAX_COLUMN_BYTES
}

/// The bytes of an image that a database holds fit into a column.
pub open spec fn columns_fit(c: EventColumns) -> bool {
    c.image matches Some(bytes) ==> bytes@.len() <= MAX_COLUMN_BYTES
}

impl StoreModel {
    /// What every store keeps true.
    pub open spec fn wf(self) -> bool {
        &&& forall|k: EventKey| #[trigger]
            self.events.contains_key(k) ==> row_wf(self.events[k]) && k.1 <= MAX_SEQUENCE
        &&& forall|op: Seq<char>, device: Seq<char>|
            self.operations.contains_key(op) && (
            #[trigger] self.operations[op]).boundary.contains_key(device)
                ==> #[trigger] self.operations[op].boundary[device] <= MAX_SEQUENCE
    }

    /// An event that is listed.
    pub open spec fn visible(self, k: EventKey) -> bool {
        self.events.contains_key(k) && !self.events[k].dismissed
    }

    /// What is wrong with the columns of an event, where its content cannot be
    /// read.
    pub open spec fn row_fault(self, k: EventKey) -> Option<HistoryFault> {
        match self.events[k].broken {
            Some(c) => Some(HistoryFault::Database(decoded(c)->Err_0)),
            None => None,
        }
    }

    /// Why an event cannot be had: its sequence fits into no column, or its content
    /// cannot be read.
    pub open spec fn get_fault(self, k: EventKey) -> Option<HistoryFault> {
        if sequence_fault(k.1) is Some {
            sequence_fault(k.1)
        } else if self.visible(k) {
            self.row_fault(k)
        } else {
            None
        }
    }

    /// The event of a row that is listed.
    pub open spec fn event(self, k: EventKey) -> EventModel {
        EventModel {
            id: EventIdModel { device: k.0, sequence: k.1 },
            created_at_ms: self.events[k].created_at_ms,
            label: self.events[k].label,
            content: self.events[k].content->Some_0,
        }
    }

    pub open spec fn record(self, k: EventKey) -> RecordModel {
        RecordModel { event: self.event(k), pinned: self.events[k].pinned }
    }

    /// Some clear operation reaches as far as the event.
    pub open spec fn covered(self, k: EventKey) -> bool {
        exists|op: Seq<char>| #[trigger]
            self.operations.contains_key(op) && self.operations[op].boundary.contains_key(k.0)
                && self.operations[op].boundary[k.0] >= k.1
    }

    /// `n` is the highest sequence of a device, among its events and the clear
    /// operations; 0 where there is none.
    pub open spec fn is_highest(self, device: Seq<char>, n: u64) -> bool {
        &&& forall|k: EventKey| #[trigger] self.events.contains_key(k) && k.0 == device ==> k.1 <= n
        &&& forall|op: Seq<char>| #[trigger]
            self.operations.contains_key(op) && self.operations[op].boundary.contains_key(device)
                ==> self.operations[op].boundary[device] <= n
        &&& n == 0 || self.events.contains_key((device, n)) || exists|op: Seq<char>| #[trigger]
            self.operations.contains_key(op) && self.operations[op].boundary.contains_key(device)
                && self.operations[op].boundary[device] == n
    }

    /// What merging an event comes to.
    pub open spec fn merged(self, e: EventModel, json: Option<Seq<char>>) -> Result<
        (MergeOutcome, StoreModel),
        HistoryFault,
    > {
        let k = (e.id.device, e.id.sequence);
        if event_fault(e) is Some {
            Err(event_fault(e)->Some_0)
        } else if self.events.contains_key(k) && self.events[k].dismissed {
            Ok((MergeOutcome::Suppressed, self))
        } else if self.events.contains_key(k) {
            if self.row_fault(k) is Some {
                Err(self.row_fault(k)->Some_0)
            } else if self.event(k) == e {
                Ok((MergeOutcome::AlreadyPresent, self))
            } else {
                Err(HistoryFault::EventConflict(e.id))
            }
        } else if self.covered(k) {
            Ok((MergeOutcome::Suppressed, self))
        } else {
            Ok(
                (
                    MergeOutcome::Inserted,
                    StoreModel {
                        events: self.events.insert(
                            k,
                            RowModel {
                                created_at_ms: e.created_at_ms,
                                label: e.label,
                                kind: kind_of(e.content),
                                content: Some(e.content),
                                files_json: if e.content is Files {
                                    json
                                } else {
                                    None
                                },
                                broken: None,
                                pinned: false,
                                dismissed: false,
                            },
                        ),
                        ..self
                    },
                ),
            )
        }
    }

    /// An event that a clear through the boundary dismisses.
    pub open spec fn dismissable(self, boundary: Map<Seq<char>, u64>, k: EventKey) -> bool {
        self.visible(k) && !self.events[k].pinned && boundary.contains_key(k.0) && k.1
            <= boundary[k.0]
    }

    /// The events after those were dismissed that `chosen` holds of.
    pub open spec fn dismissing(self, chosen: spec_fn(EventKey) -> bool) -> Map<
        EventKey,
        RowModel,
    > {
        Map::new(
            |k: EventKey| self.events.contains_key(k),
            |k: EventKey|
                if chosen(k) {
                    dismissed_row(self.events[k])
                } else {
                    self.events[k]
                },
        )
    }

    /// Why a clear is refused.
    pub open spec fn clear_fault(self, op: Seq<char>, boundary: Map<Seq<char>, u64>) -> Option<
        HistoryFault,
    > {
        if text_fault("clear operation id"@, op, MAX_OPERATION_ID_BYTES) is Some {
            text_fault("clear operation id"@, op, MAX_OPERATION_ID_BYTES)
        } else if boundary.contains_key(Seq::empty()) {
            text_fault("boundary device id"@, Seq::empty(), MAX_DEVICE_ID_BYTES)
        } else if exists|d: Seq<char>| #[trigger]
            boundary.contains_key(d) && byte_len(d) > MAX_DEVICE_ID_BYTES {
            Some(
                HistoryFault::InvalidPayload(
                    "boundary device id"@ + " exceeds "@ + decimal(MAX_DEVICE_ID_BYTES as nat)
                        + " bytes"@,
                ),
            )
        } else if self.operations.contains_key(op) {
            if self.operations[op].boundary == boundary {
                None
            } else {
                Some(HistoryFault::ClearOperationConflict(op))
            }
        } else if exists|d: Seq<char>|
            boundary.contains_key(d) && #[trigger] boundary[d] > MAX_SEQUENCE {
            Some(HistoryFault::InvalidPayload("origin sequence exceeds SQLite INTEGER"@))
        } else {
            None
        }
    }

    /// The store after a clear, and how many events it dismissed. A clear that
    /// was applied already changes nothing and counts what it counted then.
    pub open spec fn cleared(self, op: Seq<char>, boundary: Map<Seq<char>, u64>) -> (
        StoreModel,
        nat,
    ) {
        if self.operations.contains_key(op) {
            (self, self.operations[op].affected as nat)
        } else {
            let chosen = |k: EventKey| self.dismissable(boundary, k);
            let n = self.events.dom().filter(chosen).len();
            (
                StoreModel {
                    events: self.dismissing(chosen),
                    operations: self.operations.insert(
                        op,
                        OperationModel { boundary, affected: n as usize },
                    ),
                },
                n,
            )
        }
    }

    /// An event that is hidden by clearing everything.
    pub open spec fn unpinned(self, k: EventKey) -> bool {
        self.visible(k) && !self.events[k].pinned
    }

    /// An event that a search finds: in its label, its text, its media type or
    /// the spelling of its files. An empty search finds every visible event.
    pub open spec fn found(self, query: Seq<char>, k: EventKey) -> bool {
        self.visible(k) && (query.len() == 0 || row_holds(self.events[k], query))
    }

    /// A search finds an event that cannot be read.
    pub open spec fn stumbles(self, query: Seq<char>, k: EventKey) -> bool {
        self.found(query, k) && self.row_fault(k) is Some
    }

    /// The store with an event that is shown pinned, or no longer pinned.
    pub open spec fn with_pin(self, k: EventKey, pinned: bool) -> StoreModel {
        if self.visible(k) {
            StoreModel {
                events: self.events.insert(k, RowModel { pinned, ..self.events[k] }),
                ..self
            }
        } else {
            self
        }
    }

    /// A search is too long for the database, which sees that at its first event.
    pub open spec fn overwhelms(self, query: Seq<char>) -> bool {
        query.len() > 0 && byte_len(search_pattern(query)) > MAX_PATTERN_BYTES && exists|k: EventKey|
         #[trigger] self.events.contains_key(k)
    }

    /// Why a search fails: it is too long, or it finds an event that cannot be read.
    pub open spec fn fails(self, query: Seq<char>, fault: HistoryFault) -> bool {
        if self.overwhelms(query) {
            fault == HistoryFault::Database("LIKE or GLOB pattern too complex"@)
        } else {
            self.stumbles_first(query, fault)
        }
    }

    /// The first event that a search finds and that cannot be read has this fault.
    pub open spec fn stumbles_first(self, query: Seq<char>, fault: HistoryFault) -> bool {
        exists|k: EventKey|
            {
                &&& #[trigger] self.stumbles(query, k)
                &&& self.row_fault(k) == Some(fault)
                &&& forall|j: EventKey| #[trigger]
                    self.stumbles(query, j) && j != k ==> listed_before(
                        self.record(k),
                        self.record(j),
                    )
            }
    }

    /// The records that a search finds, in the order in which they are listed. All
    /// of them can be read.
    pub open spec fn is_listing(self, query: Seq<char>, r: Seq<RecordModel>) -> bool {
        &&& !self.overwhelms(query)
        &&& forall|k: EventKey| !#[trigger] self.stumbles(query, k)
        &&& forall|i: int, j: int|
            0 <= i < j < r.len() ==> listed_before(#[trigger] r[i], #[trigger] r[j])
        &&& forall|i: int|
            0 <= i < r.len() ==> self.found(query, key_of(#[trigger] r[i])) && r[i] == self.record(
                key_of(r[i]),
            )
        &&& forall|k: EventKey| #[trigger]
            self.found(query, k) ==> exists|i: int| 0 <= i < r.len() && key_of(#[trigger] r[i]) == k
    }
}

pub open spec fn dismissed_row(r: RowModel) -> RowModel {
    RowModel { content: None, files_json: None, broken: None, dismissed: true, ..r }
}

pub open spec fn text_holds(s: Option<Seq<char>>, query: Seq<char>) -> bool {
    s is Some && matched(s->Some_0, query)
}

pub open spec fn row_holds(r: RowModel, query: Seq<char>) -> bool {
    ||| text_holds(r.label, query)
    ||| text_holds(
        match r.content {
            Some(ContentModel::Text(text)) => Some(text),
            _ => None,
        },
        query,
    )
    ||| text_holds(
        match r.content {
            Some(ContentModel::Image { bytes, media_type, width, height }) => media_type,
            _ => None,
        },
        query,
    )
    ||| text_holds(r.files_json, query)
    ||| r.broken matches Some(c) && (text_holds(c.text, query) || text_holds(c.media_type, query))
}

pub open spec fn key_of(r: RecordModel) -> EventKey {
    (r.event.id.device, r.event.id.sequence)
}

/// The order of a list: the newest first; of one time, by device, and the
/// later of one device first.
pub open spec fn listed_before(a: RecordModel, b: RecordModel) -> bool {
    earlier(a.event.created_at_ms, key_of(a), b.event.created_at_ms, key_of(b))
}

/// The order of a list, by times and keys.
pub open spec fn earlier(a_ms: i64, a: EventKey, b_ms: i64, b: EventKey) -> bool {
    if a_ms != b_ms {
        a_ms > b_ms
    } else if a.0 != b.0 {
        text_below(a.0, b.0)
    } else {
        a.1 > b.1
    }
}

/// The records of a list as mathematical values.
pub open spec fn records_of(v: Seq<HistoryRecord>) -> Seq<RecordModel> {
    Seq::new(v.len(), |i: int| v[i]@)
}

pub open spec fn events_of(v: Seq<ImportedHistoryEvent>) -> Seq<EventModel> {
    Seq::new(v.len(), |i: int| v[i]@)
}

/// A number of records that a page may hold.
pub open spec fn page_limit(limit: int) -> int {
    if limit < 1 {
        1
    } else if limit > MAX_PAGE {
        MAX_PAGE as int
    } else {
        limit
    }
}

/// Where a page starts in a list of `len`, and where it ends.
pub open spec fn page_start(len: int, offset: int) -> int {
    if offset > len {
        len
    } else {
        offset
    }
}

pub open spec fn page_end(len: int, offset: int, limit: int) -> int {
    if page_start(len, offset) + page_limit(limit) > len {
        len
    } else {
        page_start(len, offset) + page_limit(limit)
    }
}

/// Where the next page starts, if there is one.
pub open spec fn page_next(len: int, offset: int, limit: int) -> Option<u64> {
    if page_end(len, offset, limit) < len {
        Some(page_end(len, offset, limit) as u64)
    } else {
        None
    }
}

/// A page of a list, and where the next one starts.
pub open spec fn is_page(
    all: Seq<RecordModel>,
    offset: u64,
    limit: usize,
    records: Seq<RecordModel>,
    next: Option<u64>,
) -> bool {
    &&& records == all.subrange(
        page_start(all.len() as int, offset as int),
        page_end(all.len() as int, offset as int, limit as int),
    )
    &&& next == page_next(all.len() as int, offset as int, limit as int)
}

/// A page of a list, as other devices get it.
pub open spec fn is_export(
    all: Seq<RecordModel>,
    offset: u64,
    limit: usize,
    events: Seq<EventModel>,
    next: Option<u64>,
) -> bool {
    let start = page_start(all.len() as int, offset as int);
    let end = page_end(all.len() as int, offset as int, limit as int);
    &&& events == Seq::new((end - start) as nat, |i: int| all[start + i].event)
    &&& next == page_next(all.len() as int, offset as int, limit as int)
}

// ---------------------------------------------------------------------------
// Operations
// ---------------------------------------------------------------------------

fn key_for(id: &HistoryEventId) -> (k: (String, u64))
    ensures
        k.model() == (id@.device, id@.sequence),
{
    (id.origin_device_id.clone(), id.origin_sequence)
}

fn text_found(s: &Option<String>, query: &str) -> (r: bool)
    ensures
        r == text_holds(chars(*s), query@),
{
    match s {
        Some(s) => matches_text(s.as_str(), query),
        None => false,
    }
}

impl Row {
    /// Whether a search finds the row.
    fn holds(&self, query: &str) -> (r: bool)
        ensures
            r == row_holds(self@, query@),
    {
        if text_found(&self.label, query) || text_found(&self.files_json, query) {
            return true;
        }
        match &self.broken {
            Some(c) => {
                if text_found(&c.text, query) || text_found(&c.media_type, query) {
                    return true;
                }
            },
            None => {},
        }
        match &self.content {
            Some(HistoryContent::Text(text)) => matches_text(text.as_str(), query),
            Some(HistoryContent::Image { bytes: _, media_type, width: _, height: _ }) => text_found(
                media_type,
                query,
            ),
            _ => false,
        }
    }

    /// The row without its content.
    fn without_content(&self) -> (r: Row)
        ensures
            r@ == dismissed_row(self@),
    {
        Row {
            created_at_ms: self.created_at_ms,
            label: copy_text(&self.label),
            kind: self.kind,
            content: None,
            files_json: None,
            broken: None,
            pinned: self.pinned,
            dismissed: true,
        }
    }
}

/// Whether two boundaries are the same.
fn same_boundary(a: &ClearBoundary, b: &ClearBoundary) -> (r: bool)
    ensures
        r == (a@ == b@),
{
    let n: usize = a.len();
    if b.len() != n {
        return false;
    }
    let ghost rows = a.sequence();
    proof {
        lemma_mapping(rows);
    }
    let mut i: usize = 0;
    while i < n
        invariant
            i <= n,
            n == rows.len(),
            rows == a.sequence(),
            a@ == mapping(rows),
            ordered(rows),
            a@.len() == b@.len(),
            a@.dom().finite(),
            b@.dom().finite(),
            forall|j: int|
                0 <= j < i ==> b@.contains_key((#[trigger] rows[j]).0@) && b@[rows[j].0@]
                    == rows[j].1,
        decreases n - i,
    {
        let row: &(String, u64) = a.row(i);
        match b.get(&row.0) {
            Some(v) => {
                if *v != row.1 {
                    return false;
                }
            },
            None => {
                return false;
            },
        }
        i = i + 1;
    }
    proof {
        lemma_mapping(rows);
        assert forall|d: Seq<char>| #[trigger] a@.contains_key(d) implies b@.contains_key(d)
            && b@[d] == a@[d] by {
            assert(has_row(rows, d));
            let j = choose|j: int|
                0 <= j < rows.len() && Key::model(&(#[trigger] rows[j]).0) == d;
            assert(b@.contains_key(rows[j].0@));
        }
        assert(a@.dom().subset_of(b@.dom()));
        vstd::set_lib::lemma_subset_equality(a@.dom(), b@.dom());
        assert(a@ =~= b@);
    }
    true
}

/// The number that comes next for a device, or why there is none.
pub open spec fn numbers_next(
    m: StoreModel,
    device: Seq<char>,
    r: Result<u64, HistoryError>,
) -> bool {
    match r {
        Ok(next) => {
            &&& text_fault("origin device id"@, device, MAX_DEVICE_ID_BYTES)
                is None
            &&& 0 < next <= MAX_SEQUENCE
            &&& m.is_highest(device, (next - 1) as u64)
        },
        Err(error) => {
            let fault = text_fault(
                "origin device id"@,
                device,
                MAX_DEVICE_ID_BYTES,
            );
            ||| fault == Some(error@)
            ||| fault is None && m.is_highest(device, MAX_SEQUENCE)
                && error@ == HistoryFault::InvalidPayload(
                "origin sequence exhausted SQLite INTEGER"@,
            )
        },
    }
}

/// What recording a copy does.
pub open spec fn copies(
    m: StoreModel,
    kind: HistoryKind,
    content: HistoryContent,
    origin: HistoryOrigin,
    now_ms: i64,
    files_json: Option<String>,
    r: Result<MergeOutcome, HistoryError>,
    after: StoreModel,
) -> bool {
    &&& {
        let e = EventModel {
            id: EventIdModel { device: origin.device_id@, sequence: origin.sequence },
            created_at_ms: now_ms,
            label: chars(origin.label),
            content: content@,
        };
        let merged = m.merged(e, chars(files_json));
        match r {
            Ok(outcome) => kind == kind_of(content@) && merged == Ok::<
                (MergeOutcome, StoreModel),
                HistoryFault,
            >((outcome, after)),
            Err(error) => {
                &&& after == m
                &&& if kind == kind_of(content@) {
                    merged == Err::<(MergeOutcome, StoreModel), HistoryFault>(error@)
                } else {
                    error@ == HistoryFault::InvalidPayload(
                        "kind "@ + kind_debug(kind) + " does not match "@ + kind_debug(
                            kind_of(content@),
                        ) + " content"@,
                    )
                }
            },
        }
    }
    &&& after.wf()
}

impl HistoryStore {
    #[verifier::type_invariant]
    closed spec fn inv(self) -> bool {
        self@.wf()
    }

    /// A history without events.
    pub fn new() -> (s: HistoryStore)
        ensures
            s@.events == Map::<EventKey, RowModel>::empty(),
            s@.operations == Map::<Seq<char>, OperationModel>::empty(),
            s@.wf(),
    {
        let events: Table<(String, u64), Row> = Table::new();
        let operations: Table<String, ClearOperation> = Table::new();
        assert(rows_of(events@) =~= Map::<EventKey, RowModel>::empty());
        assert(operations_of(operations@) =~= Map::<Seq<char>, OperationModel>::empty());
        HistoryStore { events, operations }
    }

    /// The highest sequence of a device.
    fn highest(&self, device: &str) -> (n: u64)
        ensures
            self@.is_highest(device@, n),
            n <= MAX_SEQUENCE,
    {
        proof {
            use_type_invariant(self);
        }
        let mut best: u64 = 0;
        let n: usize = self.events.len();
        let ghost rows = self.events.sequence();
        let ghost m = self@;
        proof {
            lemma_mapping(rows);
        }
        let mut i: usize = 0;
        while i < n
            invariant
                i <= n,
                n == rows.len(),
                m == self@,
                m.wf(),
                m.events == rows_of(self.events@),
                rows == self.events.sequence(),
                ordered(rows),
                self.events@ == mapping(rows),
                best <= MAX_SEQUENCE,
                best == 0 || m.events.contains_key((device@, best)),
                forall|j: int|
                    0 <= j < i && (#[trigger] rows[j]).0.0@ == device@ ==> rows[j].0.1 <= best,
            decreases n - i,
        {
            let row: &((String, u64), Row) = self.events.row(i);
            assert(m.events.contains_key(row.0.model()));
            if row.0.1 > best && same_text(row.0.0.as_str(), device) {
                best = row.0.1;
            }
            i = i + 1;
        }
        proof {
            assert forall|k: EventKey| #[trigger]
                m.events.contains_key(k) && k.0 == device@ implies k.1 <= best by {
                assert(self.events@.contains_key(k));
                assert(has_row(rows, k));
                let j = choose|j: int| 0 <= j < rows.len() && (#[trigger] rows[j]).0.model() == k;
                assert(rows[j].0.0@ == device@);
            }
        }
        let count: usize = self.operations.len();
        let ghost ops = self.operations.sequence();
        let ghost from_events = best;
        proof {
            lemma_mapping(ops);
        }
        let mut j: usize = 0;
        while j < count
            invariant
                j <= count,
                count == ops.len(),
                m == self@,
                m.wf(),
                m.operations == operations_of(self.operations@),
                ops == self.operations.sequence(),
                ordered(ops),
                self.operations@ == mapping(ops),
                best <= MAX_SEQUENCE,
                from_events <= best,
                best == from_events || exists|op: Seq<char>| #[trigger]
                    m.operations.contains_key(op) && m.operations[op].boundary.contains_key(device@)
                        && m.operations[op].boundary[device@] == best,
                forall|i: int|
                    0 <= i < j && (#[trigger] ops[i]).1.boundary@.contains_key(device@)
                        ==> ops[i].1.boundary@[device@] <= best,
            decreases count - j,
        {
            let row: &(String, ClearOperation) = self.operations.row(j);
            assert(m.operations.contains_key(row.0@));
            assert(m.operations[row.0@] == row.1@);
            match row.1.boundary.get(&device.to_owned()) {
                Some(reach) => {
                    if *reach > best {
                        best = *reach;
                        assert(m.operations[row.0@].boundary[device@] == best);
                    }
                },
                None => {},
            }
            j = j + 1;
        }
        proof {
            assert forall|op: Seq<char>| #[trigger]
                m.operations.contains_key(op) && m.operations[op].boundary.contains_key(
                    device@,
                ) implies m.operations[op].boundary[device@] <= best by {
                assert(self.operations@.contains_key(op));
                assert(has_row(ops, op));
                let i = choose|i: int| 0 <= i < ops.len() && Key::model(&(#[trigger] ops[i]).0) == op;
                assert(ops[i].1@ == m.operations[op]);
                assert(ops[i].1.boundary@.contains_key(device@));
            }
        }
        best
    }

    /// Returns the next origin sequence for a device.
    ///
    /// Existing events and clear boundaries both participate, so sequences
    /// never rewind or repeatedly collide with a suppression range.
    pub fn next_sequence(&self, origin_device_id: &str) -> (r: Result<u64, HistoryError>)
        ensures
            numbers_next(self@, origin_device_id@, r),
    {
        validate_string("origin device id", origin_device_id, MAX_DEVICE_ID_BYTES)?;
        let highest: u64 = self.highest(origin_device_id);
        if highest == MAX_SEQUENCE {
            return Err(
                HistoryError::InvalidPayload("origin sequence exhausted SQLite INTEGER".to_owned()),
            );
        }
        Ok(highest + 1)
    }

    /// Whether some clear operation reaches as far as an event.
    fn covered_by_clear(&self, id: &HistoryEventId) -> (r: bool)
        ensures
            r == self@.covered((id@.device, id@.sequence)),
    {
        let count: usize = self.operations.len();
        let ghost ops = self.operations.sequence();
        let ghost m = self@;
        let ghost k = (id@.device, id@.sequence);
        proof {
            lemma_mapping(ops);
        }
        let mut j: usize = 0;
        while j < count
            invariant
                j <= count,
                count == ops.len(),
                m == self@,
                k == (id@.device, id@.sequence),
                m.operations == operations_of(self.operations@),
                ops == self.operations.sequence(),
                ordered(ops),
                self.operations@ == mapping(ops),
                forall|i: int|
                    0 <= i < j ==> !((#[trigger] ops[i]).1.boundary@.contains_key(k.0)
                        && ops[i].1.boundary@[k.0] >= k.1),
            decreases count - j,
        {
            let row: &(String, ClearOperation) = self.operations.row(j);
            if let Some(reach) = row.1.boundary.get(&id.origin_device_id) {
                if *reach >= id.origin_sequence {
                    assert(m.operations.contains_key(row.0@));
                    assert(m.operations[row.0@] == row.1@);
                    return true;
                }
            }
            j = j + 1;
        }
        proof {
            if m.covered(k) {
                let op = choose|op: Seq<char>| #[trigger]
                    m.operations.contains_key(op) && m.operations[op].boundary.contains_key(k.0)
                        && m.operations[op].boundary[k.0] >= k.1;
                assert(self.operations@.contains_key(op));
                assert(has_row(ops, op));
                let i = choose|i: int| 0 <= i < ops.len() && Key::model(&(#[trigger] ops[i]).0) == op;
                assert(ops[i].1@ == m.operations[op]);
            }
        }
        false
    }

    /// Merges an event without changing local pin or dismissal state. Callers
    /// forward the original identity and time unchanged; `files_json` is the
    /// spelling of its files in the database.
    pub fn merge_imported(&mut self, event: ImportedHistoryEvent, files_json: Option<String>) -> (r:
        Result<MergeOutcome, HistoryError>)
        ensures
            match r {
                Ok(outcome) => old(self)@.merged(event@, chars(files_json)) == Ok::<
                    (MergeOutcome, StoreModel),
                    HistoryFault,
                >((outcome, final(self)@)),
                Err(error) => {
                    &&& old(self)@.merged(event@, chars(files_json)) == Err::<
                        (MergeOutcome, StoreModel),
                        HistoryFault,
                    >(error@)
                    &&& final(self)@ == old(self)@
                },
            },
            final(self)@.wf(),
    {
        proof {
            use_type_invariant(&*self);
        }
        validate_event(&event)?;
        let key: (String, u64) = key_for(&event.event_id);
        let ghost k = key.model();
        match self.events.find(&key) {
            Some(i) => {
                let row: &Row = &self.events.row(i).1;
                assert(self@.events.contains_key(k));
                assert(self@.events[k] == row@);
                if row.dismissed {
                    return Ok(MergeOutcome::Suppressed);
                }
                match &row.broken {
                    Some(c) => {
                        return Err(HistoryError::Database(fault_in(c)));
                    },
                    None => {},
                }
                let same: bool = row.created_at_ms == event.created_at_ms && same_optional(
                    &row.label,
                    &event.origin_label,
                ) && match &row.content {
                    Some(content) => content.same(&event.content),
                    None => false,
                };
                if same {
                    return Ok(MergeOutcome::AlreadyPresent);
                }
                return Err(HistoryError::EventConflict(event.event_id));
            },
            None => {},
        }
        if self.covered_by_clear(&event.event_id) {
            return Ok(MergeOutcome::Suppressed);
        }
        let kind: HistoryKind = event.content.kind();
        let row: Row = Row {
            created_at_ms: event.created_at_ms,
            label: event.origin_label,
            kind,
            content: Some(event.content),
            files_json: if kind == HistoryKind::Files {
                files_json
            } else {
                None
            },
            broken: None,
            pinned: false,
            dismissed: false,
        };
        self.put(key, row);
        Ok(MergeOutcome::Inserted)
    }

    /// Puts a sound row into the store.
    fn put(&mut self, key: (String, u64), row: Row)
        requires
            row_wf(row@),
            key.1 <= MAX_SEQUENCE,
        ensures
            final(self)@ == (StoreModel {
                events: old(self)@.events.insert(key.model(), row@),
                ..old(self)@
            }),
            final(self)@.wf(),
    {
        proof {
            use_type_invariant(&*self);
        }
        let ghost before = self.events@;
        let ghost m = self@;
        let mut taken: HistoryStore = HistoryStore::new();
        std::mem::swap(&mut taken, self);
        let HistoryStore { events, operations } = taken;
        let mut events: Table<(String, u64), Row> = events;
        events.insert(key, row);
        assert(rows_of(events@) =~= rows_of(before).insert(key.model(), row@));
        let ghost after = StoreModel {
            events: rows_of(events@),
            operations: operations_of(operations@),
        };
        assert(after.operations == m.operations);
        assert(after.wf()) by {
            assert forall|q: EventKey| #[trigger] after.events.contains_key(q) implies row_wf(
                after.events[q],
            ) && q.1 <= MAX_SEQUENCE by {
                if q != key.model() {
                    assert(m.events.contains_key(q));
                }
            }
        }
        *self = HistoryStore { events, operations };
    }

    /// Stores a newly observed event under the identity that its application
    /// assigned; `now_ms` is the time. New local copies are unpinned.
    pub fn record(
        &mut self,
        kind: HistoryKind,
        content: HistoryContent,
        origin: HistoryOrigin,
        now_ms: i64,
        files_json: Option<String>,
    ) -> (r: Result<MergeOutcome, HistoryError>)
        ensures
            copies(
                old(self)@,
                kind,
                content,
                origin,
                now_ms,
                files_json,
                r,
                final(self)@,
            ),
    {
        proof {
            use_type_invariant(&*self);
        }
        let actual: HistoryKind = content.kind();
        if kind != actual {
            let mut text: String = "kind ".to_owned();
            text.push_str(kind_name(kind));
            text.push_str(" does not match ");
            text.push_str(kind_name(actual));
            text.push_str(" content");
            return Err(HistoryError::InvalidPayload(text));
        }
        let event_id: HistoryEventId = origin.event_id();
        self.merge_imported(
            ImportedHistoryEvent {
                event_id,
                created_at_ms: now_ms,
                origin_label: origin.label,
                content,
            },
            files_json,
        )
    }

    /// Changes local pin state. Returns `false` when the event is unknown or
    /// dismissed.
    pub fn set_pinned(&mut self, event_id: &HistoryEventId, pinned: bool) -> (r: Result<
        bool,
        HistoryError,
    >)
        ensures
            ({
                let k = (event_id@.device, event_id@.sequence);
                match r {
                    Ok(updated) => {
                        &&& sequence_fault(k.1) is None
                        &&& updated == old(self)@.visible(k)
                        &&& final(self)@ == old(self)@.with_pin(k, pinned)
                    },
                    Err(error) => {
                        &&& sequence_fault(k.1) == Some(error@)
                        &&& final(self)@ == old(self)@
                    },
                }
            }),
            final(self)@.wf(),
    {
        proof {
            use_type_invariant(&*self);
        }
        sequence_to_sql(event_id.origin_sequence)?;
        let key: (String, u64) = key_for(event_id);
        let ghost k = key.model();
        match self.events.find(&key) {
            Some(i) => {
                if self.events.row(i).1.dismissed {
                    return Ok(false);
                }
                let ghost m = self@;
                assert(m.events.contains_key(k));
                let row: Row = self.take_row(i);
                let row: Row = Row { pinned, ..row };
                assert(row@ == RowModel { pinned, ..m.events[k] });
                self.put(key, row);
                assert(self@.events =~= m.events.insert(k, row@));
                Ok(true)
            },
            None => Ok(false),
        }
    }

    /// Takes the row at a place out of the store.
    fn take_row(&mut self, i: usize) -> (row: Row)
        requires
            i < old(self).events.sequence().len(),
        ensures
            ({
                let k = old(self).events.sequence()[i as int].0.model();
                &&& old(self)@.events.contains_key(k)
                &&& row@ == old(self)@.events[k]
                &&& final(self)@ == (StoreModel {
                    events: old(self)@.events.remove(k),
                    ..old(self)@
                })
            }),
            final(self)@.wf(),
    {
        proof {
            use_type_invariant(&*self);
        }
        let ghost before = self.events@;
        let ghost m = self@;
        let ghost k = self.events.sequence()[i as int].0.model();
        let kind: HistoryKind = self.events.row(i).1.kind;
        assert(before.contains_key(k));
        let mut taken: HistoryStore = HistoryStore::new();
        std::mem::swap(&mut taken, self);
        let HistoryStore { events, operations } = taken;
        let mut events: Table<(String, u64), Row> = events;
        let empty: Row = Row {
            created_at_ms: 0,
            label: None,
            kind,
            content: None,
            files_json: None,
            broken: None,
            pinned: false,
            dismissed: true,
        };
        let row: Row = events.update_at(i, empty);
        events.remove_at(i);
        assert(events@ =~= before.remove(k));
        assert(rows_of(events@) =~= rows_of(before).remove(k));
        let ghost after = StoreModel {
            events: rows_of(events@),
            operations: operations_of(operations@),
        };
        assert(after.operations == m.operations);
        assert(after.wf()) by {
            assert forall|q: EventKey| #[trigger] after.events.contains_key(q) implies row_wf(
                after.events[q],
            ) && q.1 <= MAX_SEQUENCE by {
                assert(m.events.contains_key(q));
            }
        }
        *self = HistoryStore { events, operations };
        row
    }

    /// The inclusive highest retained sequence for every known origin.
    pub fn snapshot_boundary(&self) -> (b: ClearBoundary)
        ensures
            forall|d: Seq<char>| #[trigger]
                b@.contains_key(d) <==> exists|k: EventKey| #[trigger]
                    self@.events.contains_key(k) && k.0 == d,
            forall|d: Seq<char>| #[trigger]
                b@.contains_key(d) ==> self@.events.contains_key((d, b@[d])),
            forall|k: EventKey| #[trigger] self@.events.contains_key(k) ==> k.1 <= b@[k.0],
    {
        let n: usize = self.events.len();
        let ghost rows = self.events.sequence();
        let ghost m = self@;
        let mut b: ClearBoundary = Table::new();
        proof {
            lemma_mapping(rows);
        }
        let mut i: usize = 0;
        while i < n
            invariant
                i <= n,
                n == rows.len(),
                m == self@,
                m.events == rows_of(self.events@),
                rows == self.events.sequence(),
                ordered(rows),
                self.events@ == mapping(rows),
                forall|d: Seq<char>| #[trigger]
                    b@.contains_key(d) ==> m.events.contains_key((d, b@[d])),
                forall|j: int|
                    0 <= j < i ==> b@.contains_key((#[trigger] rows[j]).0.0@) && rows[j].0.1
                        <= b@[rows[j].0.0@],
            decreases n - i,
        {
            let row: &((String, u64), Row) = self.events.row(i);
            assert(m.events.contains_key(row.0.model()));
            let higher: bool = match b.get(&row.0.0) {
                Some(known) => row.0.1 > *known,
                None => true,
            };
            if higher {
                b.insert(row.0.0.clone(), row.0.1);
            }
            i = i + 1;
        }
        proof {
            assert forall|k: EventKey| #[trigger] m.events.contains_key(k) implies b@.contains_key(
                k.0,
            ) && k.1 <= b@[k.0] by {
                assert(self.events@.contains_key(k));
                assert(has_row(rows, k));
                let j = choose|j: int| 0 <= j < rows.len() && (#[trigger] rows[j]).0.model() == k;
                assert(b@.contains_key(rows[j].0.0@));
            }
            assert forall|d: Seq<char>| #[trigger] b@.contains_key(d) implies exists|k: EventKey|
             #[trigger] m.events.contains_key(k) && k.0 == d by {
                assert(m.events.contains_key((d, b@[d])));
            }
        }
        b
    }
}

/// The name of a kind as `Debug` shows it.
pub open spec fn kind_debug(k: HistoryKind) -> Seq<char> {
    match k {
        HistoryKind::Text => "Text"@,
        HistoryKind::Image => "Image"@,
        HistoryKind::Files => "Files"@,
    }
}

fn kind_name(k: HistoryKind) -> (s: &'static str)
    ensures
        s@ == kind_debug(k),
{
    match k {
        HistoryKind::Text => "Text",
        HistoryKind::Image => "Image",
        HistoryKind::Files => "Files",
    }
}

// ---------------------------------------------------------------------------
// Clearing
// ---------------------------------------------------------------------------

/// Which events a clear is about: all of them, or those up to a boundary.
pub open spec fn chosen_by(m: StoreModel, boundary: Option<Map<Seq<char>, u64>>, k: EventKey) -> bool {
    match boundary {
        Some(boundary) => m.dismissable(boundary, k),
        None => m.unpinned(k),
    }
}

/// Whether a clear dismisses a row.
fn clears(key: &(String, u64), row: &Row, boundary: &Option<&ClearBoundary>) -> (r: bool)
    ensures
        r == (!row.dismissed && !row.pinned && match *boundary {
            Some(boundary) => boundary@.contains_key(key.0@) && key.1 <= boundary@[key.0@],
            None => true,
        }),
{
    if row.dismissed || row.pinned {
        return false;
    }
    match boundary {
        Some(boundary) => match boundary.get(&key.0) {
            Some(reach) => key.1 <= *reach,
            None => false,
        },
        None => true,
    }
}

pub open spec fn boundary_model(b: Option<&ClearBoundary>) -> Option<Map<Seq<char>, u64>> {
    match b {
        Some(b) => Some(b@),
        None => None,
    }
}

/// Dismisses the rows that a clear is about, and counts them.
fn dismiss(events: &mut Table<(String, u64), Row>, boundary: Option<&ClearBoundary>, m: Ghost<StoreModel>) -> (n: usize)
    requires
        m@.events == rows_of(old(events)@),
        m@.events.dom().finite(),
    ensures
        ({
            let chosen = |k: EventKey| chosen_by(m@, boundary_model(boundary), k);
            &&& rows_of(final(events)@) == m@.dismissing(chosen)
            &&& n == m@.events.dom().filter(chosen).len()
        }),
{
    let ghost chosen = |k: EventKey| chosen_by(m@, boundary_model(boundary), k);
    let count: usize = events.len();
    let ghost start = events.sequence();
    let ghost start_map = events@;
    proof {
        lemma_mapping(start);
    }
    let ghost mut done: Set<EventKey> = Set::empty();
    let mut n: usize = 0;
    let mut i: usize = 0;
    while i < count
        invariant
            i <= count,
            count == start.len(),
            events.sequence().len() == count,
            ordered(start),
            start_map == mapping(start),
            m@.events == rows_of(start_map),
            chosen == (|k: EventKey| chosen_by(m@, boundary_model(boundary), k)),
            forall|j: int|
                0 <= j < count ==> start_map.contains_key((#[trigger] start[j]).0.model())
                    && start_map[start[j].0.model()] == start[j].1,
            forall|j: int| i <= j < count ==> #[trigger] events.sequence()[j] == start[j],
            forall|j: int|
                0 <= j < count ==> (#[trigger] events.sequence()[j]).0 == start[j].0,
            events@.dom() == start_map.dom(),
            forall|j: int|
                0 <= j < i ==> events@[(#[trigger] start[j]).0.model()]@ == (if chosen(
                    start[j].0.model(),
                ) {
                    dismissed_row(start[j].1@)
                } else {
                    start[j].1@
                }),
            done.finite(),
            n == done.len(),
            n <= i,
            forall|k: EventKey| #[trigger]
                done.contains(k) <==> exists|j: int|
                    0 <= j < i && (#[trigger] start[j]).0.model() == k && chosen(k),
        decreases count - i,
    {
        let ghost k = start[i as int].0.model();
        let row: &((String, u64), Row) = events.row(i);
        assert(m@.events.contains_key(k));
        assert(m@.events[k] == row.1@);
        let clear: bool = clears(&row.0, &row.1, &boundary);
        assert(clear == chosen(k));
        let ghost before_map = events@;
        let ghost before_done = done;
        proof {
            assert(!done.contains(k)) by {
                if done.contains(k) {
                    let j = choose|j: int|
                        0 <= j < i && (#[trigger] start[j]).0.model() == k && chosen(k);
                    <(String, u64) as Key>::lemma_order(k, k, k);
                    assert(<(String, u64) as Key>::below(
                        start[j].0.model(),
                        start[i as int].0.model(),
                    ));
                }
            }
            assert forall|j: int| 0 <= j < count && j != i implies (#[trigger] start[j]).0.model()
                != k by {
                <(String, u64) as Key>::lemma_order(k, k, k);
                if j < i {
                    assert(<(String, u64) as Key>::below(
                        start[j].0.model(),
                        start[i as int].0.model(),
                    ));
                } else {
                    assert(<(String, u64) as Key>::below(
                        start[i as int].0.model(),
                        start[j].0.model(),
                    ));
                }
            }
        }
        if clear {
            let emptied: Row = row.1.without_content();
            events.update_at(i, emptied);
            n = n + 1;
            proof {
                done = done.insert(k);
                assert(events@.dom() =~= start_map.dom());
            }
        }
        proof {
            assert forall|q: EventKey| #[trigger] done.contains(q) <==> exists|j: int|
                0 <= j < i + 1 && (#[trigger] start[j]).0.model() == q && chosen(q) by {
                if before_done.contains(q) {
                    let j = choose|j: int|
                        0 <= j < i && (#[trigger] start[j]).0.model() == q && chosen(q);
                    assert(start[j].0.model() == q);
                }
                if q == k && chosen(k) {
                    assert(start[i as int].0.model() == q);
                }
            }
        }
        i = i + 1;
    }
    proof {
        assert forall|k: EventKey| start_map.contains_key(k) implies events@[k]@ == (if chosen(k) {
            dismissed_row(start_map[k]@)
        } else {
            start_map[k]@
        }) by {
            assert(has_row(start, k));
            let j = choose|j: int| 0 <= j < start.len() && (#[trigger] start[j]).0.model() == k;
            assert(events@[start[j].0.model()]@ == (if chosen(start[j].0.model()) {
                dismissed_row(start[j].1@)
            } else {
                start[j].1@
            }));
        }
        assert(rows_of(events@) =~= m@.dismissing(chosen));
        assert(done =~= m@.events.dom().filter(chosen)) by {
            assert forall|k: EventKey| done.contains(k) <==> m@.events.dom().filter(
                chosen,
            ).contains(k) by {
                if m@.events.dom().contains(k) && chosen(k) {
                    assert(start_map.contains_key(k));
                    assert(has_row(start, k));
                    let j = choose|j: int|
                        0 <= j < start.len() && (#[trigger] start[j]).0.model() == k;
                    assert(start[j].0.model() == k);
                }
                if done.contains(k) {
                    let j = choose|j: int|
                        0 <= j < count && (#[trigger] start[j]).0.model() == k && chosen(k);
                    assert(start_map.contains_key(start[j].0.model()));
                }
            }
        }
    }
    n
}

/// Checks the device names of a boundary.
fn validate_boundary(boundary: &ClearBoundary) -> (r: Result<(), HistoryError>)
    ensures
        match r {
            Ok(_) => forall|d: Seq<char>| #[trigger]
                boundary@.contains_key(d) ==> d.len() > 0 && byte_len(d) <= MAX_DEVICE_ID_BYTES,
            Err(error) => {
                ||| boundary@.contains_key(Seq::empty()) && text_fault(
                    "boundary device id"@,
                    Seq::empty(),
                    MAX_DEVICE_ID_BYTES,
                ) == Some(error@)
                ||| !boundary@.contains_key(Seq::empty()) && (exists|d: Seq<char>| #[trigger]
                    boundary@.contains_key(d) && byte_len(d) > MAX_DEVICE_ID_BYTES) && error@
                    == HistoryFault::InvalidPayload(
                    "boundary device id"@ + " exceeds "@ + decimal(MAX_DEVICE_ID_BYTES as nat)
                        + " bytes"@,
                )
            },
        },
{
    let n: usize = boundary.len();
    let ghost rows = boundary.sequence();
    proof {
        lemma_mapping(rows);
    }
    let mut i: usize = 0;
    while i < n
        invariant
            i <= n,
            n == rows.len(),
            rows == boundary.sequence(),
            ordered(rows),
            boundary@ == mapping(rows),
            forall|j: int|
                0 <= j < i ==> (#[trigger] rows[j]).0@.len() > 0 && byte_len(rows[j].0@)
                    <= MAX_DEVICE_ID_BYTES,
        decreases n - i,
    {
        let row: &(String, u64) = boundary.row(i);
        match validate_string("boundary device id", row.0.as_str(), MAX_DEVICE_ID_BYTES) {
            Ok(_) => {},
            Err(error) => {
                proof {
                    if row.0@.len() == 0 {
                        assert(row.0@ =~= Seq::<char>::empty());
                    } else {
                        assert(!boundary@.contains_key(Seq::empty())) by {
                            if boundary@.contains_key(Seq::empty()) {
                                lemma_mapping(rows);
                                assert(has_row(rows, Seq::<char>::empty()));
                                let j = choose|j: int|
                                    0 <= j < rows.len() && Key::model(&(#[trigger] rows[j]).0)
                                        == Seq::<char>::empty();
                                if j < i {
                                    assert(rows[j].0@.len() > 0);
                                } else if j > i {
                                    assert(<String as Key>::below(
                                        rows[i as int].0.model(),
                                        rows[j].0.model(),
                                    ));
                                }
                            }
                        }
                    }
                }
                return Err(error);
            },
        }
        i = i + 1;
    }
    proof {
        lemma_mapping(rows);
        assert forall|d: Seq<char>| #[trigger] boundary@.contains_key(d) implies d.len() > 0
            && byte_len(d) <= MAX_DEVICE_ID_BYTES by {
            assert(has_row(rows, d));
            let j = choose|j: int| 0 <= j < rows.len() && Key::model(&(#[trigger] rows[j]).0) == d;
            assert(rows[j].0@.len() > 0);
        }
    }
    Ok(())
}

/// Whether every sequence of a boundary fits into a database column.
fn reaches_fit(boundary: &ClearBoundary) -> (r: bool)
    ensures
        r == !(exists|d: Seq<char>|
            boundary@.contains_key(d) && #[trigger] boundary@[d] > MAX_SEQUENCE),
{
    let n: usize = boundary.len();
    let ghost rows = boundary.sequence();
    proof {
        lemma_mapping(rows);
    }
    let mut i: usize = 0;
    while i < n
        invariant
            i <= n,
            n == rows.len(),
            rows == boundary.sequence(),
            ordered(rows),
            boundary@ == mapping(rows),
            forall|j: int| 0 <= j < i ==> (#[trigger] rows[j]).1 <= MAX_SEQUENCE,
        decreases n - i,
    {
        let row: &(String, u64) = boundary.row(i);
        if row.1 > MAX_SEQUENCE {
            assert(boundary@[row.0@] > MAX_SEQUENCE);
            return false;
        }
        i = i + 1;
    }
    proof {
        lemma_mapping(rows);
        assert forall|d: Seq<char>| boundary@.contains_key(d) implies #[trigger] boundary@[d]
            <= MAX_SEQUENCE by {
            assert(has_row(rows, d));
            let j = choose|j: int| 0 <= j < rows.len() && Key::model(&(#[trigger] rows[j]).0) == d;
            assert(rows[j].1 <= MAX_SEQUENCE);
        }
    }
    true
}

/// The same boundary once more.
fn copy_boundary(b: &ClearBoundary) -> (r: ClearBoundary)
    ensures
        r@ == b@,
{
    let n: usize = b.len();
    let ghost rows = b.sequence();
    let mut r: ClearBoundary = Table::new();
    proof {
        lemma_mapping(rows);
    }
    let mut i: usize = 0;
    while i < n
        invariant
            i <= n,
            n == rows.len(),
            rows == b.sequence(),
            ordered(rows),
            b@ == mapping(rows),
            forall|d: Seq<char>| #[trigger]
                r@.contains_key(d) ==> b@.contains_key(d) && r@[d] == b@[d],
            forall|j: int| 0 <= j < i ==> r@.contains_key((#[trigger] rows[j]).0@),
        decreases n - i,
    {
        let row: &(String, u64) = b.row(i);
        r.insert(row.0.clone(), row.1);
        i = i + 1;
    }
    proof {
        lemma_mapping(rows);
        assert forall|d: Seq<char>| #[trigger] b@.contains_key(d) implies r@.contains_key(d) by {
            assert(has_row(rows, d));
            let j = choose|j: int| 0 <= j < rows.len() && Key::model(&(#[trigger] rows[j]).0) == d;
            assert(r@.contains_key(rows[j].0@));
        }
        assert(r@ =~= b@);
    }
    r
}

/// Dismissing keeps a store sound.
proof fn lemma_dismissing_wf(m: StoreModel, chosen: spec_fn(EventKey) -> bool)
    requires
        m.wf(),
        forall|k: EventKey| #[trigger] chosen(k) ==> m.unpinned(k),
    ensures
        (StoreModel { events: m.dismissing(chosen), ..m }).wf(),
{
    let after = StoreModel { events: m.dismissing(chosen), ..m };
    assert forall|k: EventKey| #[trigger] after.events.contains_key(k) implies row_wf(
        after.events[k],
    ) && k.1 <= MAX_SEQUENCE by {
        assert(m.events.contains_key(k));
        if chosen(k) {
            assert(m.unpinned(k));
        }
    }
}

/// What a clear of everything does.
pub open spec fn clears_all(m: StoreModel, n: usize, after: StoreModel) -> bool {
    &&& {
        let chosen = |k: EventKey| m.unpinned(k);
        &&& after == (StoreModel {
            events: m.dismissing(chosen),
            ..m
        })
        &&& n == m.events.dom().filter(chosen).len()
    }
    &&& after.wf()
}

impl HistoryStore {
    /// Applies a clear operation through an inclusive per-origin boundary.
    ///
    /// Origins absent from `boundary`, locally pinned events, and events above a
    /// boundary are untouched. Boundaries suppress covered events that arrive
    /// later through reconciliation. Reusing `operation_id` with an identical
    /// boundary returns the original affected count; differing reuse is refused.
    pub fn clear_unpinned_through(&mut self, operation_id: &str, boundary: &ClearBoundary) -> (r:
        Result<usize, HistoryError>)
        ensures
            match r {
                Ok(affected) => {
                    &&& old(self)@.clear_fault(operation_id@, boundary@) is None
                    &&& old(self)@.cleared(operation_id@, boundary@) == (
                        final(self)@,
                        affected as nat,
                    )
                },
                Err(error) => {
                    &&& old(self)@.clear_fault(operation_id@, boundary@) == Some(error@)
                    &&& final(self)@ == old(self)@
                },
            },
            final(self)@.wf(),
    {
        proof {
            use_type_invariant(&*self);
        }
        validate_string("clear operation id", operation_id, MAX_OPERATION_ID_BYTES)?;
        validate_boundary(boundary)?;
        let key: String = operation_id.to_owned();
        match self.operations.get(&key) {
            Some(operation) => {
                assert(self@.operations.contains_key(operation_id@));
                assert(self@.operations[operation_id@] == operation@);
                if !same_boundary(&operation.boundary, boundary) {
                    return Err(HistoryError::ClearOperationConflict(operation_id.to_owned()));
                }
                return Ok(operation.affected);
            },
            None => {},
        }
        if !reaches_fit(boundary) {
            return Err(
                HistoryError::InvalidPayload("origin sequence exceeds SQLite INTEGER".to_owned()),
            );
        }
        let ghost m = self@;
        let ghost chosen = |k: EventKey| m.dismissable(boundary@, k);
        let ghost before_operations = self.operations@;
        let _rows: usize = self.events.len();
        let mut taken: HistoryStore = HistoryStore::new();
        std::mem::swap(&mut taken, self);
        let HistoryStore { events, operations } = taken;
        let mut events: Table<(String, u64), Row> = events;
        let mut operations: Table<String, ClearOperation> = operations;
        proof {
            assert(m.events.dom() =~= events@.dom());
            assert(chosen =~= (|k: EventKey| chosen_by(m, Some(boundary@), k)));
        }
        let affected: usize = dismiss(&mut events, Some(boundary), Ghost(m));
        operations.insert(key, ClearOperation { boundary: copy_boundary(boundary), affected });
        proof {
            lemma_dismissing_wf(m, chosen);
            let after = StoreModel {
                events: rows_of(events@),
                operations: operations_of(operations@),
            };
            assert(operations_of(operations@) =~= m.operations.insert(
                operation_id@,
                OperationModel { boundary: boundary@, affected },
            ));
            assert forall|op: Seq<char>, device: Seq<char>|
                after.operations.contains_key(op) && (
                #[trigger] after.operations[op]).boundary.contains_key(
                    device,
                ) implies #[trigger] after.operations[op].boundary[device] <= MAX_SEQUENCE by {
                if op != operation_id@ {
                    assert(m.operations.contains_key(op));
                    assert(m.operations[op].boundary[device] <= MAX_SEQUENCE);
                } else {
                    assert(boundary@[device] <= MAX_SEQUENCE);
                }
            }
            assert forall|k: EventKey| #[trigger] after.events.contains_key(k) implies row_wf(
                after.events[k],
            ) && k.1 <= MAX_SEQUENCE by {
                assert((StoreModel { events: m.dismissing(chosen), ..m }).events.contains_key(k));
            }
            assert(after.wf());
        }
        *self = HistoryStore { events, operations };
        Ok(affected)
    }

    /// Hides every visible, unpinned event on this installation, and counts
    /// them.
    ///
    /// Pinned events and payloads remain intact. Dismissal markers are kept, so
    /// importing the same immutable events after reconnect cannot resurrect
    /// them. No remote deletion information is produced.
    pub fn clear_unpinned(&mut self) -> (n: usize)
        ensures
            clears_all(old(self)@, n, final(self)@),
    {
        proof {
            use_type_invariant(&*self);
        }
        let ghost m = self@;
        let ghost chosen = |k: EventKey| m.unpinned(k);
        let _rows: usize = self.events.len();
        let mut taken: HistoryStore = HistoryStore::new();
        std::mem::swap(&mut taken, self);
        let HistoryStore { events, operations } = taken;
        let mut events: Table<(String, u64), Row> = events;
        proof {
            assert(m.events.dom() =~= events@.dom());
            assert(chosen =~= (|k: EventKey| chosen_by(m, None, k)));
        }
        let n: usize = dismiss(&mut events, None, Ghost(m));
        proof {
            lemma_dismissing_wf(m, chosen);
        }
        *self = HistoryStore { events, operations };
        n
    }
}

// ---------------------------------------------------------------------------
// Listing
// ---------------------------------------------------------------------------

/// Whether a record is listed before another.
fn is_listed_before(a: &HistoryRecord, b: &HistoryRecord) -> (r: bool)
    ensures
        r == listed_before(a@, b@),
{
    if a.created_at_ms != b.created_at_ms {
        return a.created_at_ms > b.created_at_ms;
    }
    let left: &str = a.event_id.origin_device_id.as_str();
    let right: &str = b.event_id.origin_device_id.as_str();
    if !same_text(left, right) {
        return text_is_below(left, right);
    }
    a.event_id.origin_sequence > b.event_id.origin_sequence
}

/// Whether the record of a row would be listed before that of another.
fn is_earlier(a: &((String, u64), Row), b: &((String, u64), Row)) -> (r: bool)
    ensures
        r == earlier(a.1.created_at_ms, a.0.model(), b.1.created_at_ms, b.0.model()),
{
    if a.1.created_at_ms != b.1.created_at_ms {
        return a.1.created_at_ms > b.1.created_at_ms;
    }
    if !same_text(a.0.0.as_str(), b.0.0.as_str()) {
        return text_is_below(a.0.0.as_str(), b.0.0.as_str());
    }
    a.0.1 > b.0.1
}

/// The order of a list is strict and total over records of different events.
proof fn lemma_listed_order(a: RecordModel, b: RecordModel, c: RecordModel)
    ensures
        !listed_before(a, a),
        listed_before(a, b) && listed_before(b, c) ==> listed_before(a, c),
        key_of(a) == key_of(b) || a.event.created_at_ms != b.event.created_at_ms || listed_before(
            a,
            b,
        ) || listed_before(b, a),
        a.event.created_at_ms != b.event.created_at_ms ==> listed_before(a, b) || listed_before(
            b,
            a,
        ),
{
    crate::table::lemma_text_order(a.event.id.device, b.event.id.device, c.event.id.device);
    crate::table::lemma_text_order(b.event.id.device, a.event.id.device, c.event.id.device);
}

/// Puts a record into its place in a list.
fn place_record(list: &mut Vec<HistoryRecord>, record: HistoryRecord) -> (at: usize)
    requires
        forall|i: int, j: int|
            0 <= i < j < old(list)@.len() ==> listed_before(
                #[trigger] records_of(old(list)@)[i],
                #[trigger] records_of(old(list)@)[j],
            ),
        forall|i: int|
            0 <= i < old(list)@.len() ==> key_of(#[trigger] records_of(old(list)@)[i]) != key_of(
                record@,
            ),
    ensures
        at <= old(list)@.len(),
        records_of(final(list)@) == records_of(old(list)@).insert(at as int, record@),
        forall|i: int, j: int|
            0 <= i < j < final(list)@.len() ==> listed_before(
                #[trigger] records_of(final(list)@)[i],
                #[trigger] records_of(final(list)@)[j],
            ),
{
    let ghost before = records_of(list@);
    let ghost new = record@;
    let mut at: usize = 0;
    while at < list.len() && is_listed_before(&list[at], &record)
        invariant
            at <= list@.len(),
            new == record@,
            before == records_of(list@),
            forall|i: int| 0 <= i < at ==> listed_before(#[trigger] before[i], new),
        decreases list@.len() - at,
    {
        at = at + 1;
    }
    proof {
        assert forall|i: int| at <= i < before.len() implies listed_before(
            new,
            #[trigger] before[i],
        ) by {
            let b = before[at as int];
            lemma_listed_order(new, b, before[i]);
            assert(key_of(before[at as int]) != key_of(new));
            assert(!listed_before(b, new));
            if i > at {
                assert(listed_before(before[at as int], before[i]));
            }
        }
    }
    list.insert(at, record);
    proof {
        let after = records_of(list@);
        assert(after =~= before.insert(at as int, new));
        assert forall|i: int, j: int| 0 <= i < j < after.len() implies listed_before(
            #[trigger] after[i],
            #[trigger] after[j],
        ) by {
            if i < at {
                assert(after[i] == before[i]);
            }
            if j < at {
                assert(after[j] == before[j]);
            }
            if i > at {
                assert(after[i] == before[i - 1]);
            }
            if j > at {
                assert(after[j] == before[j - 1]);
            }
        }
    }
    at
}

/// The keys of rows, in their order.
pub open spec fn keys_of(rows: Seq<((String, u64), Row)>) -> Seq<EventKey> {
    Seq::new(rows.len(), |i: int| rows[i].0.model())
}

/// A list of what a search finds among the first `i` keys.
spec fn listing_upto(
    m: StoreModel,
    query: Seq<char>,
    keys: Seq<EventKey>,
    i: int,
    r: Seq<RecordModel>,
) -> bool {
    &&& forall|a: int, b: int|
        0 <= a < b < r.len() ==> listed_before(#[trigger] r[a], #[trigger] r[b])
    &&& forall|a: int|
        0 <= a < r.len() ==> m.found(query, key_of(#[trigger] r[a])) && r[a] == m.record(
            key_of(r[a]),
        ) && among(keys, i, key_of(r[a]))
    &&& forall|j: int|
        0 <= j < i && m.found(query, #[trigger] keys[j]) ==> listed(r, keys[j])
}

/// A key among the first `i`.
spec fn among(keys: Seq<EventKey>, i: int, k: EventKey) -> bool {
    exists|j: int| 0 <= j < i && #[trigger] keys[j] == k
}

/// An event in a list.
spec fn listed(r: Seq<RecordModel>, k: EventKey) -> bool {
    exists|a: int| 0 <= a < r.len() && key_of(#[trigger] r[a]) == k
}

/// The next key is not in the list yet.
proof fn lemma_new_key(
    rows: Seq<((String, u64), Row)>,
    m: StoreModel,
    query: Seq<char>,
    i: int,
    r: Seq<RecordModel>,
)
    requires
        ordered(rows),
        0 <= i < rows.len(),
        listing_upto(m, query, keys_of(rows), i, r),
    ensures
        forall|a: int| 0 <= a < r.len() ==> key_of(#[trigger] r[a]) != keys_of(rows)[i],
{
    let keys = keys_of(rows);
    assert forall|a: int| 0 <= a < r.len() implies key_of(#[trigger] r[a]) != keys[i] by {
        assert(among(keys, i, key_of(r[a])));
        let j = choose|j: int| 0 <= j < i && #[trigger] keys[j] == key_of(r[a]);
        <(String, u64) as Key>::lemma_order(keys[i], keys[i], keys[i]);
        assert(<(String, u64) as Key>::below(rows[j].0.model(), rows[i].0.model()));
    }
}

proof fn lemma_list_skip(
    m: StoreModel,
    query: Seq<char>,
    keys: Seq<EventKey>,
    i: int,
    r: Seq<RecordModel>,
)
    requires
        0 <= i < keys.len(),
        listing_upto(m, query, keys, i, r),
        !m.found(query, keys[i]),
    ensures
        listing_upto(m, query, keys, i + 1, r),
{
    assert forall|a: int| 0 <= a < r.len() implies among(keys, i + 1, key_of(#[trigger] r[a])) by {
        assert(among(keys, i, key_of(r[a])));
        let j = choose|j: int| 0 <= j < i && #[trigger] keys[j] == key_of(r[a]);
        assert(keys[j] == key_of(r[a]));
    }
}

proof fn lemma_list_insert(
    m: StoreModel,
    query: Seq<char>,
    keys: Seq<EventKey>,
    i: int,
    r: Seq<RecordModel>,
    at: int,
    new: RecordModel,
)
    requires
        0 <= i < keys.len(),
        listing_upto(m, query, keys, i, r),
        m.found(query, keys[i]),
        new == m.record(keys[i]),
        0 <= at <= r.len(),
        forall|a: int, b: int|
            0 <= a < b < r.len() + 1 ==> listed_before(
                #[trigger] r.insert(at, new)[a],
                #[trigger] r.insert(at, new)[b],
            ),
    ensures
        listing_upto(m, query, keys, i + 1, r.insert(at, new)),
{
    let after = r.insert(at, new);
    assert(key_of(new) == keys[i]);
    assert forall|a: int| 0 <= a < after.len() implies m.found(query, key_of(#[trigger] after[a]))
        && after[a] == m.record(key_of(after[a])) && among(keys, i + 1, key_of(after[a])) by {
        if a == at {
            assert(after[a] == new);
            assert(keys[i] == key_of(after[a]));
        } else {
            let b = if a < at {
                a
            } else {
                a - 1
            };
            assert(after[a] == r[b]);
            assert(among(keys, i, key_of(r[b])));
            let j = choose|j: int| 0 <= j < i && #[trigger] keys[j] == key_of(r[b]);
            assert(keys[j] == key_of(after[a]));
        }
    }
    assert forall|j: int| 0 <= j < i + 1 && m.found(query, #[trigger] keys[j]) implies listed(
        after,
        keys[j],
    ) by {
        if j == i {
            assert(key_of(after[at]) == keys[j]);
        } else {
            assert(listed(r, keys[j]));
            let b = choose|b: int| 0 <= b < r.len() && key_of(#[trigger] r[b]) == keys[j];
            let a = if b < at {
                b
            } else {
                b + 1
            };
            assert(after[a] == r[b]);
        }
    }
}

/// What looking up an event gives.
pub open spec fn gets(
    m: StoreModel,
    k: EventKey,
    r: Result<Option<HistoryRecord>, HistoryError>,
) -> bool {
    match r {
        Ok(Some(record)) => sequence_fault(k.1) is None && m.visible(k)
            && m.row_fault(k) is None && record@ == m.record(k) && image_fits(
            record@.event.content,
        ),
        Ok(None) => sequence_fault(k.1) is None && !m.visible(k),
        Err(error) => m.get_fault(k) == Some(error@),
    }
}

impl HistoryStore {
    /// The record of a visible row that can be read.
    fn record_at(&self, i: usize) -> (r: Option<HistoryRecord>)
        requires
            i < self.events.sequence().len(),
        ensures
            ({
                let k = self.events.sequence()[i as int].0.model();
                &&& self@.events.contains_key(k)
                &&& match r {
                    Some(record) => self@.visible(k) && self@.row_fault(k) is None && record@
                        == self@.record(k),
                    None => !self@.visible(k) || self@.row_fault(k) is Some,
                }
            }),
    {
        proof {
            use_type_invariant(self);
        }
        let row: &((String, u64), Row) = self.events.row(i);
        let ghost k = row.0.model();
        assert(self@.events.contains_key(k));
        assert(self@.events[k] == row.1@);
        if row.1.dismissed {
            return None;
        }
        match &row.1.content {
            Some(content) => Some(
                HistoryRecord {
                    event_id: HistoryEventId {
                        origin_device_id: row.0.0.clone(),
                        origin_sequence: row.0.1,
                    },
                    created_at_ms: row.1.created_at_ms,
                    origin_label: copy_text(&row.1.label),
                    pinned: row.1.pinned,
                    content: content.copy(),
                },
            ),
            None => None,
        }
    }

    /// Why a search fails: the first event that it finds and that cannot be read.
    fn first_fault(&self, query: &str) -> (r: Option<String>)
        ensures
            match r {
                Some(text) => self@.stumbles_first(query@, HistoryFault::Database(text@)),
                None => forall|k: EventKey| !#[trigger] self@.stumbles(query@, k),
            },
    {
        proof {
            use_type_invariant(self);
        }
        let n: usize = self.events.len();
        let ghost rows = self.events.sequence();
        let ghost keys = keys_of(rows);
        let ghost m = self@;
        proof {
            lemma_mapping(rows);
        }
        let mut first: Option<usize> = None;
        let mut i: usize = 0;
        while i < n
            invariant
                i <= n,
                n == rows.len(),
                m == self@,
                m.wf(),
                m.events == rows_of(self.events@),
                rows == self.events.sequence(),
                keys == keys_of(rows),
                ordered(rows),
                self.events@ == mapping(rows),
                match first {
                    Some(f) => {
                        &&& f < i
                        &&& m.stumbles(query@, keys[f as int])
                        &&& forall|j: int|
                            0 <= j < i && m.stumbles(query@, #[trigger] keys[j]) && keys[j]
                                != keys[f as int] ==> listed_before(
                                m.record(keys[f as int]),
                                m.record(keys[j]),
                            )
                    },
                    None => forall|j: int|
                        0 <= j < i ==> !m.stumbles(query@, #[trigger] keys[j]),
                },
            decreases n - i,
        {
            let ghost k = keys[i as int];
            let row: &((String, u64), Row) = self.events.row(i);
            assert(m.events.contains_key(k));
            assert(m.events[k] == row.1@);
            if !row.1.dismissed && row.1.broken.is_some() && (query.is_empty() || row.1.holds(
                query,
            )) {
                assert(m.stumbles(query@, k));
                match first {
                    Some(f) => {
                        let held: &((String, u64), Row) = self.events.row(f);
                        let ghost kept = keys[f as int];
                        assert(m.events.contains_key(kept));
                        assert(m.events[kept] == held.1@);
                        if is_earlier(row, held) {
                            proof {
                                assert(listed_before(m.record(k), m.record(kept)));
                                assert forall|j: int|
                                    0 <= j < i + 1 && m.stumbles(query@, #[trigger] keys[j])
                                        && keys[j] != k implies listed_before(
                                    m.record(k),
                                    m.record(keys[j]),
                                ) by {
                                    lemma_listed_order(
                                        m.record(k),
                                        m.record(kept),
                                        m.record(keys[j]),
                                    );
                                }
                            }
                            first = Some(i);
                        } else {
                            proof {
                                lemma_listed_order(m.record(k), m.record(kept), m.record(kept));
                                lemma_listed_order(m.record(kept), m.record(k), m.record(kept));
                                assert(key_of(m.record(k)) == k);
                                assert(key_of(m.record(kept)) == kept);
                            }
                        }
                    },
                    None => {
                        first = Some(i);
                    },
                }
            } else {
                assert(!m.stumbles(query@, k));
            }
            i = i + 1;
        }
        proof {
            assert forall|k: EventKey| #[trigger] m.stumbles(query@, k) implies exists|j: int|
                0 <= j < n && #[trigger] keys[j] == k by {
                assert(self.events@.contains_key(k));
                assert(has_row(rows, k));
                let j = choose|j: int| 0 <= j < rows.len() && (#[trigger] rows[j]).0.model() == k;
                assert(keys[j] == k);
            }
        }
        match first {
            Some(f) => {
                let held: &((String, u64), Row) = self.events.row(f);
                let ghost kept = keys[f as int];
                assert(m.events.contains_key(kept));
                assert(m.events[kept] == held.1@);
                assert(m.stumbles(query@, kept));
                match &held.1.broken {
                    Some(c) => Some(fault_in(c)),
                    None => None,
                }
            },
            None => None,
        }
    }

    /// Searches visible text, media type, file metadata, and origin labels;
    /// newest first. An event that is found and cannot be read fails the search.
    pub fn search(&self, query: &str) -> (r: Result<Vec<HistoryRecord>, HistoryError>)
        ensures
            match r {
                Ok(list) => self@.is_listing(query@, records_of(list@)),
                Err(error) => self@.fails(query@, error@),
            },
    {
        if !query.is_empty() && self.events.len() > 0 && is_overlong(query) {
            proof {
                let k = self.events.sequence()[0].0.model();
                lemma_mapping(self.events.sequence());
                assert(self@.events.contains_key(k));
            }
            return Err(HistoryError::Database("LIKE or GLOB pattern too complex".to_owned()));
        }
        proof {
            assert(!self@.overwhelms(query@)) by {
                if self@.overwhelms(query@) {
                    let k = choose|k: EventKey| #[trigger] self@.events.contains_key(k);
                    lemma_mapping(self.events.sequence());
                    assert(self.events@.contains_key(k));
                    assert(has_row(self.events.sequence(), k));
                }
            }
        }
        match self.first_fault(query) {
            Some(text) => {
                return Err(HistoryError::Database(text));
            },
            None => {},
        }
        let n: usize = self.events.len();
        let ghost rows = self.events.sequence();
        let ghost keys = keys_of(rows);
        let ghost m = self@;
        let mut list: Vec<HistoryRecord> = Vec::new();
        proof {
            lemma_mapping(rows);
        }
        let mut i: usize = 0;
        while i < n
            invariant
                i <= n,
                n == rows.len(),
                m == self@,
                m.events == rows_of(self.events@),
                rows == self.events.sequence(),
                keys == keys_of(rows),
                ordered(rows),
                self.events@ == mapping(rows),
                forall|k: EventKey| !#[trigger] m.stumbles(query@, k),
                listing_upto(m, query@, keys, i as int, records_of(list@)),
            decreases n - i,
        {
            let ghost k = keys[i as int];
            let ghost before = records_of(list@);
            let row: &((String, u64), Row) = self.events.row(i);
            assert(m.events.contains_key(k));
            assert(m.events[k] == row.1@);
            let wanted: bool = query.is_empty() || row.1.holds(query);
            proof {
                lemma_new_key(rows, m, query@, i as int, before);
            }
            match self.record_at(i) {
                Some(record) => {
                    if wanted {
                        let ghost new = record@;
                        let at: usize = place_record(&mut list, record);
                        proof {
                            assert(records_of(list@).len() == before.len() + 1);
                            lemma_list_insert(m, query@, keys, i as int, before, at as int, new);
                        }
                    } else {
                        proof {
                            lemma_list_skip(m, query@, keys, i as int, before);
                        }
                    }
                },
                None => {
                    proof {
                        assert(!m.stumbles(query@, k));
                        lemma_list_skip(m, query@, keys, i as int, before);
                    }
                },
            }
            i = i + 1;
        }
        proof {
            let r = records_of(list@);
            assert forall|k: EventKey| #[trigger] m.found(query@, k) implies exists|a: int|
                0 <= a < r.len() && key_of(#[trigger] r[a]) == k by {
                assert(self.events@.contains_key(k));
                assert(has_row(rows, k));
                let j = choose|j: int| 0 <= j < rows.len() && (#[trigger] rows[j]).0.model() == k;
                assert(keys[j] == k);
            }
        }
        Ok(list)
    }

    /// Returns visible records newest first. Locally dismissed events are
    /// excluded.
    pub fn list(&self) -> (r: Result<Vec<HistoryRecord>, HistoryError>)
        ensures
            match r {
                Ok(list) => self@.is_listing(Seq::empty(), records_of(list@)),
                Err(error) => self@.fails(Seq::empty(), error@),
            },
    {
        let everything: String = String::new();
        assert(everything@ =~= Seq::<char>::empty());
        self.search(everything.as_str())
    }

    /// Returns one visible event by stable identity, including its payload.
    pub fn get(&self, event_id: &HistoryEventId) -> (r: Result<
        Option<HistoryRecord>,
        HistoryError,
    >)
        ensures
            gets(self@, (event_id@.device, event_id@.sequence), r),
    {
        proof {
            use_type_invariant(self);
        }
        sequence_to_sql(event_id.origin_sequence)?;
        match self.events.find(&key_for(event_id)) {
            Some(i) => {
                let row: &Row = &self.events.row(i).1;
                let ghost k = self.events.sequence()[i as int].0.model();
                assert(self@.events.contains_key(k));
                assert(self@.events[k] == row@);
                if !row.dismissed {
                    match &row.broken {
                        Some(c) => {
                            return Err(HistoryError::Database(fault_in(c)));
                        },
                        None => {},
                    }
                }
                Ok(self.record_at(i))
            },
            None => Ok(None),
        }
    }

    /// Returns a bounded page of visible events, and where the next one starts.
    /// `limit` is always clamped to 50.
    pub fn page(&self, query: &str, offset: u64, limit: usize) -> (r: Result<
        (Vec<HistoryRecord>, Option<u64>),
        HistoryError,
    >)
        ensures
            match r {
                Ok((records, next)) => exists|all: Seq<RecordModel>|
                    {
                        &&& #[trigger] self@.is_listing(query@, all)
                        &&& is_page(all, offset, limit, records_of(records@), next)
                    },
                Err(error) => self@.fails(query@, error@),
            },
    {
        let limit: usize = if limit < 1 {
            1
        } else if limit > MAX_PAGE {
            MAX_PAGE
        } else {
            limit
        };
        let mut all: Vec<HistoryRecord> = match self.search(query) {
            Ok(all) => all,
            Err(error) => {
                return Err(error);
            },
        };
        let ghost listing = records_of(all@);
        let len: usize = all.len();
        let start: usize = if offset > len as u64 {
            len
        } else {
            offset as usize
        };
        let end: usize = if len - start < limit {
            len
        } else {
            start + limit
        };
        let ghost full = all@;
        let mut page: Vec<HistoryRecord> = all.split_off(start);
        page.truncate(end - start);
        assert(page@ =~= full.subrange(start as int, end as int));
        assert(records_of(page@) =~= listing.subrange(start as int, end as int));
        assert(self@.is_listing(query@, listing));
        let next: Option<u64> = if end < len {
            Some(end as u64)
        } else {
            None
        };
        Ok((page, next))
    }

    /// Exports an immutable bounded page for authenticated peer reconciliation.
    pub fn export_page(&self, offset: u64, limit: usize) -> (r: Result<
        (Vec<ImportedHistoryEvent>, Option<u64>),
        HistoryError,
    >)
        ensures
            match r {
                Ok((events, next)) => exists|all: Seq<RecordModel>|
                    {
                        &&& #[trigger] self@.is_listing(Seq::empty(), all)
                        &&& is_export(all, offset, limit, events_of(events@), next)
                    },
                Err(error) => self@.fails(Seq::empty(), error@),
            },
    {
        let everything: String = String::new();
        assert(everything@ =~= Seq::<char>::empty());
        let (records, next) = match self.page(everything.as_str(), offset, limit) {
            Ok(page) => page,
            Err(error) => {
                return Err(error);
            },
        };
        let ghost all = choose|all: Seq<RecordModel>|
            {
                &&& #[trigger] self@.is_listing(Seq::empty(), all)
                &&& records_of(records@) == all.subrange(
                    page_start(all.len() as int, offset as int),
                    page_end(all.len() as int, offset as int, limit as int),
                )
                &&& next == page_next(all.len() as int, offset as int, limit as int)
            };
        let ghost shown = records_of(records@);
        let mut events: Vec<ImportedHistoryEvent> = Vec::new();
        let mut i: usize = 0;
        while i < records.len()
            invariant
                i <= records@.len(),
                shown == records_of(records@),
                events_of(events@) == Seq::new(i as nat, |j: int| shown[j].event),
            decreases records@.len() - i,
        {
            let ghost before = events_of(events@);
            let event: ImportedHistoryEvent = immutable_event(&records[i]);
            assert(event@ == shown[i as int].event);
            events.push(event);
            i = i + 1;
            assert(events_of(events@) =~= before.push(event@));
            assert(events_of(events@) =~= Seq::new(i as nat, |j: int| shown[j].event));
        }
        proof {
            let start = page_start(all.len() as int, offset as int);
            let end = page_end(all.len() as int, offset as int, limit as int);
            assert(shown.len() == end - start);
            assert forall|i: int| 0 <= i < end - start implies shown[i] == all[start + i] by {}
            assert(events_of(events@) =~= Seq::new(
                (end - start) as nat,
                |i: int| all[start + i].event,
            ));
        }
        Ok((events, next))
    }
}

/// What never changes of a record.
pub fn immutable_event(record: &HistoryRecord) -> (e: ImportedHistoryEvent)
    ensures
        e@ == record@.event,
{
    ImportedHistoryEvent {
        event_id: copy_id(&record.event_id),
        created_at_ms: record.created_at_ms,
        origin_label: copy_text(&record.origin_label),
        content: record.content.copy(),
    }
}

// ---------------------------------------------------------------------------
// Reading a database
// ---------------------------------------------------------------------------

/// The columns of an event in the database.
#[derive(Debug, PartialEq, Eq)]
pub struct EventColumns {
    pub device_id: String,
    pub sequence: i64,
    pub kind: String,
    pub created_at_ms: i64,
    pub label: Option<String>,
    pub pinned: bool,
    pub dismissed: bool,
    pub text: Option<String>,
    pub image: Option<Vec<u8>>,
    pub media_type: Option<String>,
    pub width: Option<u32>,
    pub height: Option<u32>,
    pub files_json: Option<String>,
    /// The files that `files_json` spells, or why it cannot be read.
    pub files: Option<Result<Vec<crate::history::FileMetadata>, String>>,
    /// Why a column cannot be read, where it cannot.
    pub unread: Option<String>,
}

/// The columns of the content of an event.
pub ghost struct ColumnsModel {
    pub kind: Seq<char>,
    pub text: Option<Seq<char>>,
    pub image: Option<Seq<u8>>,
    pub media_type: Option<Seq<char>>,
    pub width: Option<u32>,
    pub height: Option<u32>,
    pub files: Option<Result<Seq<crate::history::FileModel>, Seq<char>>>,
    pub unread: Option<Seq<char>>,
}

impl View for EventColumns {
    type V = ColumnsModel;

    open spec fn view(&self) -> ColumnsModel {
        ColumnsModel {
            kind: self.kind@,
            text: chars(self.text),
            image: crate::history::bytes_of(self.image),
            media_type: chars(self.media_type),
            width: self.width,
            height: self.height,
            files: match self.files {
                Some(Ok(files)) => Some(Ok(crate::history::files_of(files@))),
                Some(Err(error)) => Some(Err(error@)),
                None => None,
            },
            unread: chars(self.unread),
        }
    }
}

/// What the database says of columns that can be read, but mean nothing.
pub open spec fn conversion_text(text: Seq<char>) -> Seq<char> {
    "Conversion error from type Text at index: 0, clipboard history database contains invalid data: "@
        + text
}

fn conversion_error(text: &str) -> (s: String)
    ensures
        s@ == conversion_text(text@),
{
    let mut s: String =
        "Conversion error from type Text at index: 0, clipboard history database contains invalid data: ".to_owned();
    s.push_str(text);
    s
}

/// The content that the columns of a visible event hold, or what is wrong with
/// them.
pub open spec fn decoded(c: ColumnsModel) -> Result<ContentModel, Seq<char>> {
    if c.unread is Some {
        Err(c.unread->Some_0)
    } else {
        match crate::history::kind_named(c.kind) {
            None => Err(
                conversion_text("unknown kind "@ + crate::text::debug_text(c.kind)),
            ),
            Some(HistoryKind::Text) => match c.text {
                Some(text) => Ok(ContentModel::Text(text)),
                None => Err(conversion_text("text payload missing"@)),
            },
            Some(HistoryKind::Image) => Ok(
                ContentModel::Image {
                    bytes: c.image,
                    media_type: c.media_type,
                    width: c.width,
                    height: c.height,
                },
            ),
            Some(HistoryKind::Files) => match c.files {
                Some(Ok(files)) => Ok(ContentModel::Files(files)),
                Some(Err(error)) => Err(conversion_text(error)),
                None => Err(conversion_text("file metadata missing"@)),
            },
        }
    }
}

/// The kind of a name; of any other name it does not matter.
pub open spec fn kind_or_text(name: Seq<char>) -> HistoryKind {
    match crate::history::kind_named(name) {
        Some(kind) => kind,
        None => HistoryKind::Text,
    }
}

/// The row that the columns of an event stand for. Of a dismissed event only
/// what never changes is read. An event without a proper sequence has no row.
pub open spec fn row_in(c: EventColumns) -> Result<(EventKey, RowModel), HistoryFault> {
    if c.sequence < 0 {
        Err(
            HistoryFault::Database(
                if !c.dismissed && decoded(c@) is Err {
                    decoded(c@)->Err_0
                } else {
                    conversion_text("negative origin sequence"@)
                },
            ),
        )
    } else {
        Ok(
            (
                (c.device_id@, c.sequence as u64),
                RowModel {
                    created_at_ms: c.created_at_ms,
                    label: chars(c.label),
                    kind: kind_or_text(c.kind@),
                    content: match decoded(c@) {
                        Ok(content) => if c.dismissed {
                            None
                        } else {
                            Some(content)
                        },
                        Err(_) => None,
                    },
                    files_json: if c.dismissed {
                        None
                    } else {
                        chars(c.files_json)
                    },
                    broken: if !c.dismissed && decoded(c@) is Err {
                        Some(c@)
                    } else {
                        None
                    },
                    pinned: c.pinned && !c.dismissed,
                    dismissed: c.dismissed,
                },
            ),
        )
    }
}

/// What is wrong with the columns of an event, where anything is.
fn decode_fault(c: &EventColumns) -> (r: Option<String>)
    ensures
        match r {
            Some(text) => decoded(c@) == Err::<ContentModel, Seq<char>>(text@),
            None => decoded(c@) is Ok,
        },
{
    match &c.unread {
        Some(text) => {
            return Some(text.clone());
        },
        None => {},
    }
    match HistoryKind::parse(c.kind.as_str()) {
        Err(_) => {
            let mut text: String = "unknown kind ".to_owned();
            text.push_str(crate::text::debug_of(c.kind.as_str()).as_str());
            Some(conversion_error(text.as_str()))
        },
        Ok(HistoryKind::Text) => if c.text.is_none() {
            Some(conversion_error("text payload missing"))
        } else {
            None
        },
        Ok(HistoryKind::Image) => None,
        Ok(HistoryKind::Files) => match &c.files {
            Some(Ok(_)) => None,
            Some(Err(error)) => Some(conversion_error(error.as_str())),
            None => Some(conversion_error("file metadata missing")),
        },
    }
}

/// What is wrong with columns that cannot be read.
fn fault_in(c: &EventColumns) -> (text: String)
    requires
        decoded(c@) is Err,
    ensures
        text@ == decoded(c@)->Err_0,
{
    match decode_fault(c) {
        Some(text) => text,
        None => String::new(),
    }
}

fn read_kind(name: &str) -> (k: HistoryKind)
    ensures
        k == kind_or_text(name@),
{
    match HistoryKind::parse(name) {
        Ok(kind) => kind,
        Err(_) => HistoryKind::Text,
    }
}

fn read_content(
    kind: HistoryKind,
    text: Option<String>,
    image: Option<Vec<u8>>,
    media_type: Option<String>,
    width: Option<u32>,
    height: Option<u32>,
    files: Option<Result<Vec<crate::history::FileMetadata>, String>>,
    c: Ghost<EventColumns>,
) -> (r: Option<HistoryContent>)
    requires
        c@.text == text,
        c@.image == image,
        c@.media_type == media_type,
        c@.width == width,
        c@.height == height,
        c@.files == files,
        kind == kind_or_text(c@.kind@),
        decoded(c@@) is Ok,
    ensures
        r matches Some(content) && decoded(c@@) == Ok::<ContentModel, Seq<char>>(content@),
{
    match kind {
        HistoryKind::Text => match text {
            Some(text) => Some(HistoryContent::Text(text)),
            None => None,
        },
        HistoryKind::Image => Some(
            HistoryContent::Image { bytes: image, media_type, width, height },
        ),
        HistoryKind::Files => match files {
            Some(Ok(files)) => Some(HistoryContent::Files(files)),
            _ => None,
        },
    }
}

impl HistoryStore {
    /// Takes an event in as the database holds it. One whose content cannot be read
    /// is taken in as well: it stands in the way of those who look at it, and of
    /// nobody else.
    pub fn load_event(&mut self, c: EventColumns) -> (r: Result<(), HistoryError>)
        requires
            columns_fit(c),
        ensures
            match r {
                Ok(_) => row_in(c) is Ok && final(self)@ == (StoreModel {
                    events: old(self)@.events.insert(row_in(c)->Ok_0.0, row_in(c)->Ok_0.1),
                    ..old(self)@
                }),
                Err(error) => row_in(c) == Err::<(EventKey, RowModel), HistoryFault>(error@)
                    && final(self)@ == old(self)@,
            },
            final(self)@.wf(),
    {
        proof {
            use_type_invariant(&*self);
        }
        let ghost columns = c;
        let dismissed: bool = c.dismissed;
        let fault: Option<String> = if dismissed {
            None
        } else {
            decode_fault(&c)
        };
        if c.sequence < 0 {
            return Err(
                HistoryError::Database(
                    match fault {
                        Some(text) => text,
                        None => conversion_error("negative origin sequence"),
                    },
                ),
            );
        }
        let key: (String, u64) = (c.device_id.clone(), c.sequence as u64);
        let kind: HistoryKind = read_kind(c.kind.as_str());
        let row: Row = if fault.is_some() {
            Row {
                created_at_ms: c.created_at_ms,
                label: copy_text(&c.label),
                kind,
                content: None,
                files_json: copy_text(&c.files_json),
                pinned: c.pinned,
                dismissed: false,
                broken: Some(c),
            }
        } else {
            let content: Option<HistoryContent> = if dismissed {
                None
            } else {
                read_content(
                    kind,
                    c.text,
                    c.image,
                    c.media_type,
                    c.width,
                    c.height,
                    c.files,
                    Ghost(columns),
                )
            };
            Row {
                created_at_ms: c.created_at_ms,
                label: c.label,
                kind,
                content,
                files_json: if dismissed {
                    None
                } else {
                    c.files_json
                },
                broken: None,
                pinned: c.pinned && !dismissed,
                dismissed,
            }
        };
        assert(row@ == row_in(columns)->Ok_0.1);
        self.put(key, row);
        Ok(())
    }

    /// Takes a clear operation in as the database holds it; `false` where a
    /// sequence of its boundary does not fit into a database column.
    pub fn load_operation(&mut self, operation_id: String, operation: ClearOperation) -> (r: bool)
        ensures
            r == !(exists|d: Seq<char>|
                operation.boundary@.contains_key(d) && #[trigger] operation.boundary@[d]
                    > MAX_SEQUENCE),
            r ==> final(self)@ == (StoreModel {
                operations: old(self)@.operations.insert(operation_id@, operation@),
                ..old(self)@
            }),
            !r ==> final(self)@ == old(self)@,
            final(self)@.wf(),
    {
        proof {
            use_type_invariant(&*self);
        }
        if !reaches_fit(&operation.boundary) {
            return false;
        }
        let ghost m = self@;
        let ghost model = operation@;
        let mut taken: HistoryStore = HistoryStore::new();
        std::mem::swap(&mut taken, self);
        let HistoryStore { events, operations } = taken;
        let mut operations: Table<String, ClearOperation> = operations;
        operations.insert(operation_id, operation);
        proof {
            let after = StoreModel {
                events: rows_of(events@),
                operations: operations_of(operations@),
            };
            assert(after.operations =~= m.operations.insert(operation_id@, model));
            assert(after.events == m.events);
            assert forall|op: Seq<char>, device: Seq<char>|
                after.operations.contains_key(op) && (
                #[trigger] after.operations[op]).boundary.contains_key(
                    device,
                ) implies #[trigger] after.operations[op].boundary[device] <= MAX_SEQUENCE by {
                if op != operation_id@ {
                    assert(m.operations.contains_key(op));
                    assert(m.operations[op].boundary[device] <= MAX_SEQUENCE);
                } else {
                    assert(model.boundary[device] <= MAX_SEQUENCE);
                }
            }
            assert(after.wf());
        }
        *self = HistoryStore { events, operations };
        true
    }

    /// Whether a clear operation was applied.
    pub fn knows_operation(&self, operation_id: &str) -> (r: bool)
        ensures
            r == self@.operations.contains_key(operation_id@),
    {
        let key: String = operation_id.to_owned();
        match self.operations.get(&key) {
            Some(_) => true,
            None => false,
        }
    }
}

// ---------------------------------------------------------------------------
// Writing a database
// ---------------------------------------------------------------------------

fn text_column(row: &Row) -> (r: Option<String>)
    ensures
        chars(r) == (match row@.content {
            Some(ContentModel::Text(text)) => Some(text),
            _ => None,
        }),
{
    match &row.content {
        Some(HistoryContent::Text(text)) => Some(text.clone()),
        _ => None,
    }
}

/// The columns of an event whose content cannot be read, as they were found.
fn broken_columns(key: &(String, u64), row: &Row, c: &EventColumns) -> (r: EventColumns)
    requires
        row.broken == Some(*c),
        row_wf(row@),
        key.1 <= MAX_SEQUENCE,
    ensures
        row_in(r) == Ok::<(EventKey, RowModel), HistoryFault>((key.model(), row@)),
        columns_fit(r),
{
    let image: Option<Vec<u8>> = match &c.image {
        Some(bytes) => Some(crate::history::copy_bytes(bytes)),
        None => None,
    };
    let files: Option<Result<Vec<crate::history::FileMetadata>, String>> = match &c.files {
        Some(Ok(list)) => Some(Ok(crate::history::copy_files(list))),
        Some(Err(error)) => Some(Err(error.clone())),
        None => None,
    };
    let r: EventColumns = EventColumns {
        device_id: key.0.clone(),
        sequence: key.1 as i64,
        kind: c.kind.clone(),
        created_at_ms: row.created_at_ms,
        label: copy_text(&row.label),
        pinned: row.pinned,
        dismissed: false,
        text: copy_text(&c.text),
        image,
        media_type: copy_text(&c.media_type),
        width: c.width,
        height: c.height,
        files_json: copy_text(&row.files_json),
        files,
        unread: copy_text(&c.unread),
    };
    assert(r@ == c@);
    r
}

/// The columns of an event.
fn columns_of(key: &(String, u64), row: &Row) -> (c: EventColumns)
    requires
        row_wf(row@),
        key.1 <= MAX_SEQUENCE,
    ensures
        row_in(c) == Ok::<(EventKey, RowModel), HistoryFault>((key.model(), row@)),
        columns_fit(c),
{
    proof {
        crate::history::law_kind_names(row.kind);
    }
    match &row.broken {
        Some(c) => {
            return broken_columns(key, row, c);
        },
        None => {},
    }
    let mut image: Option<Vec<u8>> = None;
    let mut media_type: Option<String> = None;
    let mut width: Option<u32> = None;
    let mut height: Option<u32> = None;
    let mut files: Option<Result<Vec<crate::history::FileMetadata>, String>> = None;
    match &row.content {
        Some(HistoryContent::Image { bytes, media_type: media, width: w, height: h }) => {
            image = match bytes {
                Some(bytes) => Some(crate::history::copy_bytes(bytes)),
                None => None,
            };
            media_type = copy_text(media);
            width = *w;
            height = *h;
        },
        Some(HistoryContent::Files(list)) => {
            files = Some(Ok(crate::history::copy_files(list)));
        },
        _ => {},
    }
    EventColumns {
        device_id: key.0.clone(),
        sequence: key.1 as i64,
        kind: row.kind.as_str().to_owned(),
        created_at_ms: row.created_at_ms,
        label: copy_text(&row.label),
        pinned: row.pinned,
        dismissed: row.dismissed,
        text: text_column(row),
        image,
        media_type,
        width,
        height,
        files_json: copy_text(&row.files_json),
        files,
        unread: None,
    }
}

/// The columns say of each event what the store says of it, and of no other.
pub open spec fn columns_hold(columns: Seq<EventColumns>, m: StoreModel) -> bool {
    &&& forall|i: int|
        0 <= i < columns.len() ==> row_in(#[trigger] columns[i]) is Ok && m.events.contains_key(
            row_in(columns[i])->Ok_0.0,
        ) && m.events[row_in(columns[i])->Ok_0.0] == row_in(columns[i])->Ok_0.1
    &&& forall|k: EventKey| #[trigger]
        m.events.contains_key(k) ==> exists|i: int|
            0 <= i < columns.len() && row_in(#[trigger] columns[i])->Ok_0.0 == k
}

/// The operations of the store, and no other.
pub open spec fn operations_hold(
    operations: Seq<(String, ClearOperation)>,
    m: StoreModel,
) -> bool {
    &&& forall|i: int|
        0 <= i < operations.len() ==> m.operations.contains_key((#[trigger] operations[i]).0@)
            && m.operations[operations[i].0@] == operations[i].1@
    &&& forall|op: Seq<char>| #[trigger]
        m.operations.contains_key(op) ==> exists|i: int|
            0 <= i < operations.len() && (#[trigger] operations[i]).0@ == op
}

impl HistoryStore {
    /// The columns that a database holds of the events.
    pub fn saved_events(&self) -> (r: Vec<EventColumns>)
        ensures
            columns_hold(r@, self@),
            forall|i: int| 0 <= i < r@.len() ==> columns_fit(#[trigger] r@[i]),
            self@.wf(),
    {
        proof {
            use_type_invariant(self);
        }
        let n: usize = self.events.len();
        let ghost rows = self.events.sequence();
        let ghost m = self@;
        let mut r: Vec<EventColumns> = Vec::new();
        proof {
            lemma_mapping(rows);
        }
        let mut i: usize = 0;
        while i < n
            invariant
                n == rows.len(),
                rows == self.events.sequence(),
                m == self@,
                m.wf(),
                i <= n,
                r@.len() == i,
                forall|j: int| 0 <= j < i ==> columns_fit(#[trigger] r@[j]),
                forall|j: int|
                    0 <= j < i ==> row_in(#[trigger] r@[j]) == Ok::<
                        (EventKey, RowModel),
                        HistoryFault,
                    >((rows[j].0.model(), rows[j].1@)) && m.events.contains_key(rows[j].0.model())
                        && m.events[rows[j].0.model()] == rows[j].1@,
            decreases n - i,
        {
            let row: &((String, u64), Row) = self.events.row(i);
            assert(m.events.contains_key(row.0.model()));
            assert(m.events[row.0.model()] == row.1@);
            r.push(columns_of(&row.0, &row.1));
            i = i + 1;
        }
        proof {
            assert forall|k: EventKey| #[trigger] m.events.contains_key(k) implies exists|i: int|
                0 <= i < r@.len() && row_in(#[trigger] r@[i])->Ok_0.0 == k by {
                assert(has_row(rows, k));
                let j = choose|j: int| 0 <= j < rows.len() && (#[trigger] rows[j]).0.model() == k;
                assert(row_in(r@[j])->Ok_0.0 == k);
            }
        }
        r
    }

    /// The columns that a database holds of one event.
    pub fn saved_event(&self, event_id: &HistoryEventId) -> (r: Option<EventColumns>)
        ensures
            ({
                let k = (event_id@.device, event_id@.sequence);
                match r {
                    Some(c) => self@.events.contains_key(k) && row_in(c) == Ok::<
                        (EventKey, RowModel),
                        HistoryFault,
                    >((k, self@.events[k])) && columns_fit(c),
                    None => !self@.events.contains_key(k),
                }
            }),
    {
        proof {
            use_type_invariant(self);
        }
        let key: (String, u64) = key_for(event_id);
        match self.events.get(&key) {
            Some(row) => {
                assert(self@.events.contains_key(key.model()));
                assert(self@.events[key.model()] == row@);
                Some(columns_of(&key, row))
            },
            None => {
                assert(!self@.events.contains_key(key.model()));
                None
            },
        }
    }

    /// The events that a clear through a boundary would dismiss.
    pub fn dismissable(&self, boundary: &ClearBoundary) -> (r: Vec<HistoryEventId>)
        ensures
            forall|i: int|
                0 <= i < r@.len() ==> self@.dismissable(
                    boundary@,
                    ((#[trigger] r@[i])@.device, r@[i]@.sequence),
                ),
            forall|k: EventKey| #[trigger]
                self@.dismissable(boundary@, k) ==> exists|i: int|
                    0 <= i < r@.len() && ((#[trigger] r@[i])@.device, r@[i]@.sequence) == k,
    {
        let n: usize = self.events.len();
        let ghost rows = self.events.sequence();
        let ghost m = self@;
        let mut r: Vec<HistoryEventId> = Vec::new();
        proof {
            lemma_mapping(rows);
        }
        let mut i: usize = 0;
        while i < n
            invariant
                n == rows.len(),
                rows == self.events.sequence(),
                m == self@,
                i <= n,
                forall|j: int|
                    0 <= j < r@.len() ==> m.dismissable(
                        boundary@,
                        ((#[trigger] r@[j])@.device, r@[j]@.sequence),
                    ),
                forall|j: int|
                    0 <= j < i && m.dismissable(boundary@, (#[trigger] rows[j]).0.model())
                        ==> exists|l: int|
                        0 <= l < r@.len() && ((#[trigger] r@[l])@.device, r@[l]@.sequence)
                            == rows[j].0.model(),
            decreases n - i,
        {
            let row: &((String, u64), Row) = self.events.row(i);
            assert(m.events.contains_key(row.0.model()));
            assert(m.events[row.0.model()] == row.1@);
            let ghost before = r@;
            if clears(&row.0, &row.1, &Some(boundary)) {
                let id: HistoryEventId = HistoryEventId {
                    origin_device_id: row.0.0.clone(),
                    origin_sequence: row.0.1,
                };
                assert((id@.device, id@.sequence) == row.0.model());
                r.push(id);
                assert((r@[r@.len() - 1]@.device, r@[r@.len() - 1]@.sequence)
                    == rows[i as int].0.model());
            }
            proof {
                assert forall|j: int|
                    0 <= j < i + 1 && m.dismissable(
                        boundary@,
                        (#[trigger] rows[j]).0.model(),
                    ) implies exists|l: int|
                    0 <= l < r@.len() && ((#[trigger] r@[l])@.device, r@[l]@.sequence)
                        == rows[j].0.model() by {
                    if j < i {
                        let l = choose|l: int|
                            0 <= l < before.len() && ((#[trigger] before[l])@.device, before[l]@.sequence)
                                == rows[j].0.model();
                        assert(r@[l] == before[l]);
                    }
                }
            }
            i = i + 1;
        }
        proof {
            assert forall|k: EventKey| #[trigger]
                m.dismissable(boundary@, k) implies exists|i: int|
                0 <= i < r@.len() && ((#[trigger] r@[i])@.device, r@[i]@.sequence) == k by {
                assert(m.events.contains_key(k));
                assert(has_row(rows, k));
                let j = choose|j: int| 0 <= j < rows.len() && (#[trigger] rows[j]).0.model() == k;
                assert(m.dismissable(boundary@, rows[j].0.model()));
            }
        }
        r
    }

    /// The clear operations that a database holds.
    pub fn saved_operations(&self) -> (r: Vec<(String, ClearOperation)>)
        ensures
            operations_hold(r@, self@),
    {
        let n: usize = self.operations.len();
        let ghost rows = self.operations.sequence();
        let ghost m = self@;
        let mut r: Vec<(String, ClearOperation)> = Vec::new();
        proof {
            lemma_mapping(rows);
        }
        let mut i: usize = 0;
        while i < n
            invariant
                n == rows.len(),
                rows == self.operations.sequence(),
                m == self@,
                i <= n,
                r@.len() == i,
                forall|j: int|
                    0 <= j < i ==> (#[trigger] r@[j]).0@ == rows[j].0@ && r@[j].1@ == rows[j].1@
                        && m.operations.contains_key(rows[j].0@) && m.operations[rows[j].0@]
                        == rows[j].1@,
            decreases n - i,
        {
            let row: &(String, ClearOperation) = self.operations.row(i);
            assert(m.operations.contains_key(row.0@));
            assert(m.operations[row.0@] == row.1@);
            r.push(
                (
                    row.0.clone(),
                    ClearOperation {
                        boundary: copy_boundary(&row.1.boundary),
                        affected: row.1.affected,
                    },
                ),
            );
            i = i + 1;
        }
        proof {
            assert forall|op: Seq<char>| #[trigger] m.operations.contains_key(op) implies exists|
                i: int,
            | 0 <= i < r@.len() && (#[trigger] r@[i]).0@ == op by {
                assert(has_row(rows, op));
                let j = choose|j: int|
                    0 <= j < rows.len() && (#[trigger] rows[j]).0.model() == op;
                assert(r@[j].0@ == op);
            }
        }
        r
    }

    /// The store of a database: every event and every clear operation that it
    /// holds. An operation whose boundary does not fit into a column was not
    /// written by this store.
    pub fn load(
        events: Vec<EventColumns>,
        operations: Vec<(String, ClearOperation)>,
    ) -> (r: Result<HistoryStore, HistoryError>)
        requires
            forall|i: int| 0 <= i < events@.len() ==> columns_fit(#[trigger] events@[i]),
        ensures
            match r {
                Ok(store) => {
                    &&& forall|i: int| 0 <= i < events@.len() ==> row_in(#[trigger] events@[i]) is Ok
                    &&& store@.events == loaded_events(events@)
                    &&& store@.operations == loaded_operations(operations@)
                },
                Err(error) => exists|i: int|
                    {
                        &&& 0 <= i < events@.len()
                        &&& row_in(#[trigger] events@[i]) == Err::<
                            (EventKey, RowModel),
                            HistoryFault,
                        >(error@)
                        &&& forall|j: int| 0 <= j < i ==> row_in(#[trigger] events@[j]) is Ok
                    },
            },
    {
        let ghost all = events@;
        let ghost ops = operations@;
        let mut store: HistoryStore = HistoryStore::new();
        for c in it: events
            invariant
                it.seq() == all,
                all == events@,
                forall|i: int| 0 <= i < all.len() ==> columns_fit(#[trigger] all[i]),
                store@.operations == Map::<Seq<char>, OperationModel>::empty(),
                forall|j: int| 0 <= j < it.index() ==> row_in(#[trigger] all[j]) is Ok,
                store@.events == loaded_events(all.take(it.index() as int)),
        {
            assert(all[it.index() as int] == c);
            assert(all.take(it.index() as int + 1).drop_last() =~= all.take(it.index() as int));
            match store.load_event(c) {
                Ok(_) => {},
                Err(error) => {
                    return Err(error);
                },
            }
        }
        assert(all.take(all.len() as int) =~= all);
        let ghost events_loaded = store@.events;
        for operation in it: operations
            invariant
                it.seq() == ops,
                events_loaded == loaded_events(all),
                store@.events == events_loaded,
                store@.operations == loaded_operations(ops.take(it.index() as int)),
        {
            assert(ops.take(it.index() as int + 1).drop_last() =~= ops.take(it.index() as int));
            assert(ops[it.index() as int] == operation);
            let (id, applied) = operation;
            let ghost model = applied@;
            let taken: bool = store.load_operation(id, applied);
            assert(model.boundary == applied.boundary@);
            assert(taken == fits(model));
        }
        assert(ops.take(ops.len() as int) =~= ops);
        Ok(store)
    }
}

/// The events of some columns, one after the other.
pub open spec fn loaded_events(columns: Seq<EventColumns>) -> Map<EventKey, RowModel>
    decreases columns.len(),
{
    if columns.len() == 0 {
        Map::empty()
    } else {
        let (k, row) = row_in(columns.last())->Ok_0;
        loaded_events(columns.drop_last()).insert(k, row)
    }
}

/// A boundary that fits into columns.
pub open spec fn fits(o: OperationModel) -> bool {
    !(exists|d: Seq<char>| o.boundary.contains_key(d) && #[trigger] o.boundary[d] > MAX_SEQUENCE)
}

/// The operations of some columns, one after the other.
pub open spec fn loaded_operations(operations: Seq<(String, ClearOperation)>) -> Map<
    Seq<char>,
    OperationModel,
>
    decreases operations.len(),
{
    if operations.len() == 0 {
        Map::empty()
    } else {
        let front = loaded_operations(operations.drop_last());
        let last = operations.last();
        if fits(last.1@) {
            front.insert(last.0@, last.1@)
        } else {
            front
        }
    }
}

proof fn lemma_loaded_events(columns: Seq<EventColumns>, m: StoreModel)
    requires
        forall|i: int|
            0 <= i < columns.len() ==> row_in(#[trigger] columns[i]) is Ok && m.events.contains_key(
                row_in(columns[i])->Ok_0.0,
            ) && m.events[row_in(columns[i])->Ok_0.0] == row_in(columns[i])->Ok_0.1,
    ensures
        forall|k: EventKey| #[trigger]
            loaded_events(columns).contains_key(k) ==> m.events.contains_key(k) && loaded_events(
                columns,
            )[k] == m.events[k],
        forall|i: int|
            0 <= i < columns.len() ==> loaded_events(columns).contains_key(
                row_in(#[trigger] columns[i])->Ok_0.0,
            ),
    decreases columns.len(),
{
    if columns.len() > 0 {
        let front = columns.drop_last();
        assert forall|i: int| 0 <= i < front.len() implies row_in(#[trigger] front[i]) is Ok
            && m.events.contains_key(row_in(front[i])->Ok_0.0) && m.events[row_in(
            front[i],
        )->Ok_0.0] == row_in(front[i])->Ok_0.1 by {
            assert(front[i] == columns[i]);
        }
        lemma_loaded_events(front, m);
        let last = columns.last();
        assert(columns[columns.len() - 1] == last);
        assert forall|k: EventKey| #[trigger] loaded_events(columns).contains_key(k) implies
            m.events.contains_key(k) && loaded_events(columns)[k] == m.events[k] by {
            if k != row_in(last)->Ok_0.0 {
                assert(loaded_events(front).contains_key(k));
            }
        }
        assert forall|i: int| 0 <= i < columns.len() implies loaded_events(columns).contains_key(
            row_in(#[trigger] columns[i])->Ok_0.0,
        ) by {
            if i < front.len() {
                assert(front[i] == columns[i]);
            }
        }
    }
}

proof fn lemma_loaded_operations(operations: Seq<(String, ClearOperation)>, m: StoreModel)
    requires
        m.wf(),
        forall|i: int|
            0 <= i < operations.len() ==> m.operations.contains_key((#[trigger] operations[i]).0@)
                && m.operations[operations[i].0@] == operations[i].1@,
    ensures
        forall|op: Seq<char>| #[trigger]
            loaded_operations(operations).contains_key(op) ==> m.operations.contains_key(op)
                && loaded_operations(operations)[op] == m.operations[op],
        forall|i: int|
            0 <= i < operations.len() ==> loaded_operations(operations).contains_key(
                (#[trigger] operations[i]).0@,
            ),
    decreases operations.len(),
{
    if operations.len() > 0 {
        let front = operations.drop_last();
        let last = operations.last();
        assert(operations[operations.len() - 1] == last);
        assert forall|i: int| 0 <= i < front.len() implies m.operations.contains_key(
            (#[trigger] front[i]).0@,
        ) && m.operations[front[i].0@] == front[i].1@ by {
            assert(front[i] == operations[i]);
        }
        lemma_loaded_operations(front, m);
        assert(fits(last.1@)) by {
            assert(m.operations[last.0@] == last.1@);
            assert forall|d: Seq<char>| last.1@.boundary.contains_key(d) implies
                #[trigger] last.1@.boundary[d] <= MAX_SEQUENCE by {
                assert(m.operations[last.0@].boundary[d] <= MAX_SEQUENCE);
            }
        }
        assert forall|op: Seq<char>| #[trigger]
            loaded_operations(operations).contains_key(op) implies m.operations.contains_key(op)
            && loaded_operations(operations)[op] == m.operations[op] by {
            if op != last.0@ {
                assert(loaded_operations(front).contains_key(op));
            }
        }
        assert forall|i: int| 0 <= i < operations.len() implies loaded_operations(
            operations,
        ).contains_key((#[trigger] operations[i]).0@) by {
            if i < front.len() {
                assert(front[i] == operations[i]);
            }
        }
    }
}

/// A store comes back from its database as it was: pins, dismissals and clear
/// operations survive.
pub proof fn law_saved_store_comes_back(
    columns: Seq<EventColumns>,
    operations: Seq<(String, ClearOperation)>,
    m: StoreModel,
)
    requires
        m.wf(),
        columns_hold(columns, m),
        operations_hold(operations, m),
    ensures
        loaded_events(columns) == m.events,
        loaded_operations(operations) == m.operations,
{
    lemma_loaded_events(columns, m);
    lemma_loaded_operations(operations, m);
    assert forall|k: EventKey| m.events.contains_key(k) implies loaded_events(
        columns,
    ).contains_key(k) by {
        let i = choose|i: int| 0 <= i < columns.len() && row_in(#[trigger] columns[i])->Ok_0.0 == k;
        assert(loaded_events(columns).contains_key(row_in(columns[i])->Ok_0.0));
    }
    assert forall|op: Seq<char>| m.operations.contains_key(op) implies loaded_operations(
        operations,
    ).contains_key(op) by {
        let i = choose|i: int| 0 <= i < operations.len() && (#[trigger] operations[i]).0@ == op;
        assert(loaded_operations(operations).contains_key(operations[i].0@));
    }
    assert(loaded_events(columns) =~= m.events);
    assert(loaded_operations(operations) =~= m.operations);
}

} // verus!
