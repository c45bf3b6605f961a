//! What the dashboard shows of the clipboard history.
use crate::api::HistoryImage;
use crate::api::HistoryPreview;
use crate::api::HistoryRecordSummary;
use crate::finding::first_below;
use crate::finding::lemma_found;
use crate::table::Key;
use crate::table::Table;
use crate::text::decimal;
use crate::text::decimal_of;
use crate::text::push_decimal;
use crate::text::same_text;
use crate::ui::labels::format_bytes;
use crate::ui::labels::format_time;
use crate::ui::labels::join;
use crate::ui::labels::joined;
use crate::ui::labels::size_text;
use crate::ui::labels::time_text;
use crate::ui::labels::views;
use crate::ui::models::AppViewState;
use crate::ui::models::ViewModel;
use crate::ui::projection::device_label;
use crate::ui::projection::device_picture;
use crate::ui::projection::device_presentation;
use crate::ui::projection::or_empty;
use crate::ui::projection::text_or_empty;
use crate::ui::projection::ClientItem;
use crate::ui::projection::DeviceImage;
use crate::ui::projection::Label;
use crate::ui::projection::LocalDevice;
use vstd::prelude::*;

verus! {

/// Bound on remembered thumbnails, so scrolling a long history cannot grow
/// without limit. All are forgotten at once rather than one by one: the cost is
/// that what is still on screen is decoded once more.
pub const THUMBNAIL_CACHE_LIMIT: usize = 128;

/// The most bytes that a thumbnail is decoded from.
pub const MAX_THUMBNAIL_BYTES: usize = 32 * 1024 * 1024;

/// Which records the window holds a decoded thumbnail of. A record is immutable
/// once received, so its pixels are decoded at most once.
#[derive(Debug)]
pub struct ThumbnailCache {
    keys: Table<(String, u64), bool>,
}

/// What the window does for the thumbnail of a record.
#[derive(Clone, Copy, Debug, PartialEq, Eq, Structural)]
pub enum Thumbnail {
    /// There is none.
    Absent,
    /// It was decoded before.
    Known,
    /// It is decoded now; `forget` says that all others are forgotten first.
    Decode { forget: bool },
}

/// The key of a record.
pub type RecordKey = (Seq<char>, u64);

impl View for ThumbnailCache {
    type V = Set<RecordKey>;

    closed spec fn view(&self) -> Set<RecordKey> {
        self.keys@.dom()
    }
}

/// An image that can be shown: four bytes for each pixel, and not too many.
pub open spec fn showable(image: HistoryImage) -> bool {
    &&& image.width is Some
    &&& image.height is Some
    &&& 4 * image.width->Some_0 * image.height->Some_0 == image.bytes@.len()
    &&& image.bytes@.len() <= MAX_THUMBNAIL_BYTES
}

/// What the window does for the thumbnail of a record.
pub open spec fn thumbnail_of(
    cache: Set<RecordKey>,
    key: RecordKey,
    image: Option<HistoryImage>,
) -> Thumbnail {
    if cache.contains(key) {
        Thumbnail::Known
    } else if image is Some && showable(image->Some_0) {
        Thumbnail::Decode { forget: cache.len() >= THUMBNAIL_CACHE_LIMIT }
    } else {
        Thumbnail::Absent
    }
}

/// What the window holds after that.
pub open spec fn cache_with(
    cache: Set<RecordKey>,
    key: RecordKey,
    image: Option<HistoryImage>,
) -> Set<RecordKey> {
    match thumbnail_of(cache, key, image) {
        Thumbnail::Decode { forget } => if forget {
            Set::empty().insert(key)
        } else {
            cache.insert(key)
        },
        _ => cache,
    }
}

fn can_be_shown(image: &HistoryImage) -> (r: bool)
    ensures
        r == showable(*image),
{
    match (image.width, image.height) {
        (Some(width), Some(height)) => {
            assert(width * height <= 0xffff_ffff * 0xffff_ffff) by (nonlinear_arith)
                requires
                    width <= 0xffff_ffff,
                    height <= 0xffff_ffff,
            ;
            assert(4 * width * height == 4 * (width * height)) by (nonlinear_arith);
            let length: u128 = (width as u128) * (height as u128);
            length * 4 == image.bytes.len() as u128 && image.bytes.len() <= MAX_THUMBNAIL_BYTES
        },
        _ => false,
    }
}

impl ThumbnailCache {
    /// Nothing was decoded yet.
    pub fn new() -> (c: ThumbnailCache)
        ensures
            c@ == Set::<RecordKey>::empty(),
    {
        let keys: Table<(String, u64), bool> = Table::new();
        assert(keys@.dom() =~= Set::<RecordKey>::empty());
        ThumbnailCache { keys }
    }

    /// What the window does for the thumbnail of a record, and what it holds
    /// then.
    pub fn look_up(&mut self, key: &(String, u64), image: Option<&HistoryImage>) -> (r: Thumbnail)
        ensures
            ({
                let image = match image {
                    Some(image) => Some(*image),
                    None => None,
                };
                &&& r == thumbnail_of(old(self)@, key.model(), image)
                &&& final(self)@ == cache_with(old(self)@, key.model(), image)
            }),
    {
        let ghost before = self@;
        let held: usize = self.keys.len();
        assert(held == before.len());
        if self.keys.get(key).is_some() {
            return Thumbnail::Known;
        }
        let found: bool = match image {
            Some(image) => can_be_shown(image),
            None => false,
        };
        if !found {
            return Thumbnail::Absent;
        }
        let forget: bool = held >= THUMBNAIL_CACHE_LIMIT;
        if forget {
            self.keys.clear();
            assert(self.keys@.dom() =~= Set::<RecordKey>::empty());
        }
        self.keys.insert((key.0.clone(), key.1), true);
        assert(self@ =~= (if forget {
            Set::<RecordKey>::empty().insert(key.model())
        } else {
            before.insert(key.model())
        }));
        Thumbnail::Decode { forget }
    }
}

/// The cache stays within its bound.
pub proof fn law_thumbnails_are_bounded(
    cache: Set<RecordKey>,
    key: RecordKey,
    image: Option<HistoryImage>,
)
    requires
        cache.finite(),
        cache.len() <= THUMBNAIL_CACHE_LIMIT,
    ensures
        cache_with(cache, key, image).finite(),
        cache_with(cache, key, image).len() <= THUMBNAIL_CACHE_LIMIT,
{
}

/// A row of the list of the history.
#[derive(Clone, Debug, PartialEq, Eq)]
pub struct HistoryItem {
    pub origin: String,
    pub sequence: String,
    pub timestamp: String,
    pub source_label: Label,
    pub source_image: DeviceImage,
    /// The key of the translated kind.
    pub kind_key: String,
    pub preview_text: String,
    pub thumbnail: Thumbnail,
    pub pinned: bool,
    /// The key of the translated header above the row; empty where it has none.
    pub group_header: String,
}

/// What the page of the history shows.
#[derive(Debug)]
pub struct HistoryView {
    pub error: String,
    /// How many events a clear removed, and how many peers acknowledged it.
    pub cleared: Option<(u64, u32)>,
    pub busy: bool,
    pub has_more: bool,
    pub records: Vec<HistoryItem>,
}

pub open spec fn kind_key_of(p: HistoryPreview) -> Seq<char> {
    match p {
        HistoryPreview::Text { .. } => "clipboard-text"@,
        HistoryPreview::Image { .. } => "clipboard-images"@,
        HistoryPreview::Files { .. } => "clipboard-files"@,
    }
}

/// What is shown of a content: a text itself, the size of an image, the names
/// and the size of files.
pub open spec fn preview_of(p: HistoryPreview) -> Seq<char> {
    match p {
        HistoryPreview::Text { preview, truncated } => preview@,
        HistoryPreview::Image { size_bytes, width, height } => size_text(size_bytes),
        HistoryPreview::Files { names, total_files, total_size_bytes } => joined(
            views(names@),
            ", "@,
        ) + "\n"@ + size_text(total_size_bytes),
    }
}

/// The header above a row: where pinned records begin, and where others do.
pub open spec fn header_at(records: Seq<HistoryRecordSummary>, i: int) -> Seq<char> {
    if i > 0 && records[i - 1].pinned == records[i].pinned {
        Seq::empty()
    } else if records[i].pinned {
        "history-pinned-section"@
    } else {
        "history-recent-section"@
    }
}

/// A record of an origin.
pub open spec fn is_of(records: Seq<HistoryRecordSummary>, origin: Seq<char>) -> spec_fn(
    int,
) -> bool {
    |i: int| records[i].event_id.origin_device_id@ == origin
}

/// The first record of an origin.
pub open spec fn first_of(records: Seq<HistoryRecordSummary>, origin: Seq<char>) -> Option<int> {
    first_below(records.len() as int, is_of(records, origin))
}

/// What was recorded of an origin: what its first record says.
pub open spec fn recorded_label(records: Seq<HistoryRecordSummary>, origin: Seq<char>) -> Option<
    Seq<char>,
> {
    match first_of(records, origin) {
        Some(i) => match records[i].origin_label {
            Some(label) => Some(label@),
            None => None,
        },
        None => None,
    }
}

pub open spec fn key_at(records: Seq<HistoryRecordSummary>, i: int) -> RecordKey {
    (records[i].event_id.origin_device_id@, records[i].event_id.origin_sequence)
}

pub open spec fn image_of(v: ViewModel, key: RecordKey) -> Option<HistoryImage> {
    if v.history_images.contains_key(key) {
        Some(v.history_images[key])
    } else {
        None
    }
}

/// What the window holds after the first `n` records were shown.
pub open spec fn cache_after(
    cache: Set<RecordKey>,
    records: Seq<HistoryRecordSummary>,
    v: ViewModel,
    n: int,
) -> Set<RecordKey>
    decreases n,
{
    if n <= 0 {
        cache
    } else {
        let key = key_at(records, n - 1);
        cache_with(cache_after(cache, records, v, n - 1), key, image_of(v, key))
    }
}

/// How a row shows a record.
pub open spec fn record_shown(
    item: HistoryItem,
    records: Seq<HistoryRecordSummary>,
    i: int,
    items: Seq<ClientItem>,
    v: ViewModel,
    local: LocalDevice,
    cache: Set<RecordKey>,
) -> bool {
    let r = records[i];
    let origin = r.event_id.origin_device_id@;
    &&& item.origin@ == origin
    &&& item.sequence@ == decimal(r.event_id.origin_sequence as nat)
    &&& item.timestamp@ == time_text(r.created_at_ms)
    &&& item.source_label@ == device_label(
        items,
        v,
        local.name@,
        origin,
        recorded_label(records, origin),
    )
    &&& item.source_image == device_picture(items, v, local.has_image, origin)
    &&& item.kind_key@ == kind_key_of(r.preview)
    &&& item.preview_text@ == preview_of(r.preview)
    &&& item.thumbnail == thumbnail_of(
        cache_after(cache, records, v, i),
        key_at(records, i),
        image_of(v, key_at(records, i)),
    )
    &&& item.pinned == r.pinned
    &&& item.group_header@ == header_at(records, i)
}

pub open spec fn shown_records(v: ViewModel) -> Seq<HistoryRecordSummary> {
    match v.history_page {
        Some(page) => page.records,
        None => Seq::empty(),
    }
}

/// What the page of the history shows.
pub open spec fn history_shown(
    h: HistoryView,
    items: Seq<ClientItem>,
    v: ViewModel,
    local: LocalDevice,
    cache: Set<RecordKey>,
) -> bool {
    let records = shown_records(v);
    &&& h.error@ == (if v.history_clear_error is Some {
        v.history_clear_error->Some_0@
    } else {
        or_empty(v.history_error)
    })
    &&& h.cleared == v.history_clear_result
    &&& h.busy == (v.history_query_pending || v.history_clear_pending)
    &&& h.has_more == (v.history_page is Some && v.history_page->Some_0.next_offset is Some)
    &&& h.records@.len() == records.len()
    &&& forall|i: int|
        0 <= i < records.len() ==> record_shown(
            #[trigger] h.records@[i],
            records,
            i,
            items,
            v,
            local,
            cache,
        )
}

fn preview_text(p: &HistoryPreview) -> (r: (String, String))
    ensures
        r.0@ == kind_key_of(*p),
        r.1@ == preview_of(*p),
{
    match p {
        HistoryPreview::Text { preview, .. } => ("clipboard-text".to_owned(), preview.clone()),
        HistoryPreview::Image { size_bytes, .. } => (
            "clipboard-images".to_owned(),
            format_bytes(*size_bytes),
        ),
        HistoryPreview::Files { names, total_size_bytes, .. } => {
            let mut s: String = join(names, ", ");
            s.push_str("\n");
            s.push_str(format_bytes(*total_size_bytes).as_str());
            ("clipboard-files".to_owned(), s)
        },
    }
}

fn find_first(records: &Vec<HistoryRecordSummary>, origin: &str) -> (r: Option<usize>)
    ensures
        match r {
            Some(i) => first_of(records@, origin@) == Some(i as int) && i < records@.len(),
            None => first_of(records@, origin@) is None,
        },
{
    let mut i: usize = 0;
    while i < records.len()
        invariant
            i <= records@.len(),
            first_below(i as int, is_of(records@, origin@)) is None,
        decreases records@.len() - i,
    {
        if same_text(records[i].event_id.origin_device_id.as_str(), origin) {
            proof {
                lemma_found(i + 1, records@.len() as int, is_of(records@, origin@));
            }
            return Some(i);
        }
        i = i + 1;
    }
    None
}

fn header_for(records: &Vec<HistoryRecordSummary>, i: usize) -> (s: String)
    requires
        i < records@.len(),
    ensures
        s@ == header_at(records@, i as int),
{
    if i > 0 && records[i - 1].pinned == records[i].pinned {
        let s: String = String::new();
        assert(s@ =~= Seq::<char>::empty());
        s
    } else if records[i].pinned {
        "history-pinned-section".to_owned()
    } else {
        "history-recent-section".to_owned()
    }
}

fn history_item(
    records: &Vec<HistoryRecordSummary>,
    i: usize,
    items: &Vec<ClientItem>,
    state: &AppViewState,
    local: &LocalDevice,
    cache: &mut ThumbnailCache,
    start: Ghost<Set<RecordKey>>,
) -> (item: HistoryItem)
    requires
        i < records@.len(),
        old(cache)@ == cache_after(start@, records@, state@, i as int),
    ensures
        record_shown(item, records@, i as int, items@, state@, *local, start@),
        final(cache)@ == cache_after(start@, records@, state@, i + 1),
{
    let record: &HistoryRecordSummary = &records[i];
    let key: (String, u64) = (
        record.event_id.origin_device_id.clone(),
        record.event_id.origin_sequence,
    );
    let thumbnail: Thumbnail = cache.look_up(&key, state.history_images.get(&key));
    let (kind_key, preview_text) = preview_text(&record.preview);
    let recorded: Option<&str> = match find_first(records, key.0.as_str()) {
        Some(first) => match &records[first].origin_label {
            Some(label) => Some(label.as_str()),
            None => None,
        },
        None => None,
    };
    let (source_label, source_image) = device_presentation(
        items,
        state,
        local,
        key.0.as_str(),
        recorded,
    );
    HistoryItem {
        origin: record.event_id.origin_device_id.clone(),
        sequence: decimal_of(record.event_id.origin_sequence),
        timestamp: format_time(record.created_at_ms),
        source_label,
        source_image,
        kind_key,
        preview_text,
        thumbnail,
        pinned: record.pinned,
        group_header: header_for(records, i),
    }
}

/// What the page of the history shows; `cache` holds what the window has
/// decoded.
pub fn project_history(
    state: &AppViewState,
    items: &Vec<ClientItem>,
    local: &LocalDevice,
    cache: &mut ThumbnailCache,
) -> (h: HistoryView)
    ensures
        history_shown(h, items@, state@, *local, old(cache)@),
        final(cache)@ == cache_after(
            old(cache)@,
            shown_records(state@),
            state@,
            shown_records(state@).len() as int,
        ),
{
    let error: String = match &state.history_clear_error {
        Some(error) => error.clone(),
        None => text_or_empty(&state.history_error),
    };
    let has_more: bool = match &state.history_page {
        Some(page) => page.next_offset.is_some(),
        None => false,
    };
    let ghost start = cache@;
    let mut rows: Vec<HistoryItem> = Vec::new();
    match &state.history_page {
        Some(page) => {
            let mut i: usize = 0;
            while i < page.records.len()
                invariant
                    i <= page.records@.len(),
                    rows@.len() == i,
                    cache@ == cache_after(start, page.records@, state@, i as int),
                    forall|j: int|
                        0 <= j < i ==> record_shown(
                            #[trigger] rows@[j],
                            page.records@,
                            j,
                            items@,
                            state@,
                            *local,
                            start,
                        ),
                decreases page.records@.len() - i,
            {
                let item: HistoryItem = history_item(
                    &page.records,
                    i,
                    items,
                    state,
                    local,
                    cache,
                    Ghost(start),
                );
                rows.push(item);
                i = i + 1;
            }
        },
        None => {},
    }
    HistoryView {
        error,
        cleared: state.history_clear_result,
        busy: state.history_query_pending || state.history_clear_pending,
        has_more,
        records: rows,
    }
}

/// What is said of a clear, in the words of the user's language.
pub fn cleared_text(removed: &str, peers: &str, affected: u64, acknowledged: u32) -> (s: String)
    ensures
        s@ == removed@ + ": "@ + decimal(affected as nat) + " \u{b7} "@ + peers@ + ": "@ + decimal(
            acknowledged as nat,
        ),
{
    let mut s: String = removed.to_owned();
    s.push_str(": ");
    push_decimal(&mut s, affected);
    s.push_str(" \u{b7} ");
    s.push_str(peers);
    s.push_str(": ");
    push_decimal(&mut s, acknowledged as u64);
    s
}

} // verus!
