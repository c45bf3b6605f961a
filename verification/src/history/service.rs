//! What the history answers to the commands that it serves.
use crate::history::chars;
use crate::history::promises::law_a_bounded_clear_hides_what_it_names;
use crate::history::store::is_page;
use crate::history::store::ClearBoundary;
use crate::history::store::EventKey;
use crate::history::store::StoreModel;
use crate::history::validate::event_fault;
use crate::history::worker::content_summary;
use crate::history::worker::is_snapshot;
use crate::history::worker::summaries_of;
use crate::history::worker::total_size;
use crate::history::worker::Command;
use crate::history::worker::HistoryPage;
use crate::history::worker::ImagePayload;
use crate::history::worker::Reply;
use crate::history::worker::SummaryContentModel;
use crate::history::worker::WorkerModel;
use crate::history::ContentModel;
use crate::history::EventIdModel;
use crate::history::EventModel;
use crate::history::FileModel;
use crate::history::HistoryContent;
use crate::history::HistoryError;
use crate::history::HistoryEventId;
use crate::history::ImportedHistoryEvent;
use crate::history::MergeOutcome;
use crate::history::RecordModel;
use crate::text::byte_len;
use crate::text::fitting;
use vstd::prelude::*;

verus! {

/// The number behind another, or 0 behind the last one.
pub open spec fn next_number(n: u64) -> u64 {
    ((n + 1) % 0x1_0000_0000_0000_0000) as u64
}

/// Pinning an event that is shown sets its pin to what was asked for, on or off. The
/// answer says whether that changed it, and only then the revision grows; no other
/// event changes.
pub proof fn law_pins_are_set_on_command(
    w: WorkerModel,
    event_id: HistoryEventId,
    pinned: bool,
    changed: bool,
    after: WorkerModel,
    j: EventKey,
)
    requires
        w.answers(Command::Pin { event_id, pinned }, Reply::Pinned(Ok(changed)), after),
    ensures
        ({
            let k = (event_id@.device, event_id@.sequence);
            if w.store.events.contains_key(k) && !w.store.events[k].dismissed {
                &&& after.store.events.contains_key(k)
                &&& !after.store.events[k].dismissed
                &&& after.store.events[k].pinned == pinned
                &&& after.store.events[k].content == w.store.events[k].content
                &&& changed == (w.store.events[k].pinned != pinned)
            } else {
                !changed
            }
        }),
        j != (event_id@.device, event_id@.sequence) ==> after.store.events.contains_key(j)
            == w.store.events.contains_key(j) && after.store.events[j] == w.store.events[j],
        after.store.operations == w.store.operations,
        after.revision == (if changed {
            next_number(w.revision)
        } else {
            w.revision
        }),
        !changed ==> after == w,
{
}

/// A pin fails only for an event that cannot be named or cannot be read.
pub proof fn law_readable_events_can_be_pinned(
    w: WorkerModel,
    event_id: HistoryEventId,
    pinned: bool,
    error: HistoryError,
    after: WorkerModel,
)
    requires
        w.answers(Command::Pin { event_id, pinned }, Reply::Pinned(Err(error)), after),
    ensures
        after == w,
        event_id@.sequence > 0x7fff_ffff_ffff_ffff || w.store.events[(
            event_id@.device,
            event_id@.sequence,
        )].broken is Some,
{
}

/// A copy is recorded under the device and the label that it came with, or those of
/// this device where it came with none, at the time of the clock, behind everything
/// that the device recorded before; it is shown, and nothing else changes.
pub proof fn law_copies_are_recorded(
    w: WorkerModel,
    device_id: Option<String>,
    label: Option<String>,
    content: HistoryContent,
    clock: Option<u128>,
    files_json: Option<String>,
    id: HistoryEventId,
    after: WorkerModel,
    j: EventKey,
)
    requires
        w.answers(
            Command::Record { device_id, label, content, clock, files_json },
            Reply::Recorded(Ok(id)),
            after,
        ),
    ensures
        id@.device == (match device_id {
            Some(device) => device@,
            None => w.device,
        }),
        id@.sequence > 0,
        ({
            let k = (id@.device, id@.sequence);
            let row = after.store.events[k];
            &&& !w.store.events.contains_key(k)
            &&& after.store.events.contains_key(k)
            &&& !row.dismissed && !row.pinned
            &&& row.content == Some(content@)
            &&& row.label == (match label {
                Some(label) => Some(label@),
                None => w.label,
            })
            &&& clock is Some && row.created_at_ms == clock->Some_0
            &&& content is Files ==> row.files_json == chars(files_json)
        }),
        w.store.events.contains_key(j) ==> after.store.events.contains_key(j)
            && after.store.events[j] == w.store.events[j],
        w.store.events.contains_key(j) && j.0 == id@.device ==> j.1 < id@.sequence,
        after.store.operations == w.store.operations,
        after.revision == next_number(w.revision),
{
    let device = w.device_or_own(chars(device_id));
    let own = w.label_or_own(chars(label));
    let e = choose|e: EventModel|
        e.id == id@ && #[trigger] w.records(
            device,
            own,
            content@,
            clock,
            chars(files_json),
            e,
            after,
        );
    lemma_recorded(w, device, own, content@, clock, chars(files_json), e, after);
}

proof fn lemma_recorded(
    w: WorkerModel,
    device: Seq<char>,
    label: Option<Seq<char>>,
    content: ContentModel,
    clock: Option<u128>,
    json: Option<Seq<char>>,
    e: EventModel,
    after: WorkerModel,
)
    requires
        w.records(device, label, content, clock, json, e, after),
    ensures
        e.id.device == device,
        e.id.sequence > 0,
        !w.store.events.contains_key((device, e.id.sequence)),
        forall|j: EventKey| #[trigger]
            w.store.events.contains_key(j) && j.0 == device ==> j.1 < e.id.sequence,
{
}

/// What this device records is what it hands out: the event has its name, its label
/// and the content, and is shown from then on.
pub proof fn law_recorded_events_are_handed_out(
    w: WorkerModel,
    content: HistoryContent,
    clock: Option<u128>,
    files_json: Option<String>,
    event: ImportedHistoryEvent,
    after: WorkerModel,
)
    requires
        w.answers(
            Command::RecordEvent { content, clock, files_json },
            Reply::RecordedEvent(Ok(event)),
            after,
        ),
    ensures
        event@.id.device == w.device,
        event@.label == w.label,
        event@.content == content@,
        clock is Some && event@.created_at_ms == clock->Some_0,
        ({
            let k = (w.device, event@.id.sequence);
            let row = after.store.events[k];
            &&& !w.store.events.contains_key(k)
            &&& after.store.events.contains_key(k)
            &&& !row.dismissed && !row.pinned
            &&& row.content == Some(content@)
            &&& row.label == w.label
            &&& row.created_at_ms == event@.created_at_ms
        }),
        after.revision == next_number(w.revision),
{
    lemma_recorded(w, w.device, w.label, content@, clock, chars(files_json), event@, after);
}

/// A copy is not refused where its device, label and content keep the limits, the
/// clock stands at a moment that the database holds, and sequences are left.
pub proof fn law_good_copies_are_not_refused(
    w: WorkerModel,
    device_id: Option<String>,
    label: Option<String>,
    content: HistoryContent,
    clock: u128,
    files_json: Option<String>,
    error: HistoryError,
    after: WorkerModel,
    highest: u64,
)
    requires
        w.store.is_highest(w.device_or_own(chars(device_id)), highest),
        highest < 0x7fff_ffff_ffff_ffff,
        clock <= 0x7fff_ffff_ffff_ffff,
        event_fault(
            EventModel {
                id: EventIdModel {
                    device: match device_id {
                        Some(device) => device@,
                        None => w.device,
                    },
                    sequence: 1,
                },
                created_at_ms: 0,
                label: match label {
                    Some(label) => Some(label@),
                    None => w.label,
                },
                content: content@,
            },
        ) is None,
    ensures
        !w.answers(
            Command::Record { device_id, label, content, clock: Some(clock), files_json },
            Reply::Recorded(Err(error)),
            after,
        ),
{
    let device = w.device_or_own(chars(device_id));
    let own = w.label_or_own(chars(label));
    if w.store.is_highest(device, crate::history::MAX_SEQUENCE) {
        assert(w.store.events.contains_key((device, crate::history::MAX_SEQUENCE))
            ==> crate::history::MAX_SEQUENCE <= highest);
        if !w.store.events.contains_key((device, crate::history::MAX_SEQUENCE)) {
            let op = choose|op: Seq<char>| #[trigger]
                w.store.operations.contains_key(op)
                    && w.store.operations[op].boundary.contains_key(device)
                    && w.store.operations[op].boundary[device] == crate::history::MAX_SEQUENCE;
            assert(w.store.operations[op].boundary[device] <= highest);
        }
    }
}

/// An event of another device is taken in as it is; what is known or was cleared
/// changes nothing.
pub proof fn law_imports_are_taken_in(
    w: WorkerModel,
    event: ImportedHistoryEvent,
    files_json: Option<String>,
    outcome: MergeOutcome,
    after: WorkerModel,
)
    requires
        w.answers(
            Command::Import { event, files_json },
            Reply::Imported(Ok(outcome)),
            after,
        ),
    ensures
        ({
            let k = (event@.id.device, event@.id.sequence);
            let row = after.store.events[k];
            &&& outcome is Inserted ==> {
                &&& !w.store.events.contains_key(k)
                &&& after.store.events.contains_key(k)
                &&& !row.dismissed && !row.pinned
                &&& row.content == Some(event@.content)
                &&& row.label == event@.label
                &&& row.created_at_ms == event@.created_at_ms
                &&& after.revision == next_number(w.revision)
            }
            &&& !(outcome is Inserted) ==> after == w
        }),
{
}

/// A page shows the records of a list one for one, with their identities, times,
/// labels and pins, and reading it changes nothing.
pub proof fn law_pages_show_the_list(
    w: WorkerModel,
    query: String,
    offset: u64,
    limit: usize,
    page: HistoryPage,
    after: WorkerModel,
)
    requires
        w.answers(Command::Page { query, offset, limit }, Reply::Page(Ok(page)), after),
    ensures
        after == w,
        exists|all: Seq<RecordModel>|
            {
                let shown = summaries_of(page.records@);
                &&& #[trigger] w.store.is_listing(query@, all)
                &&& is_page(
                    all,
                    offset,
                    limit,
                    all.subrange(
                        crate::history::store::page_start(all.len() as int, offset as int),
                        crate::history::store::page_start(all.len() as int, offset as int)
                            + shown.len(),
                    ),
                    page.next_offset,
                )
                &&& forall|i: int|
                    0 <= i < shown.len() ==> {
                        &&& offset + i < all.len()
                        &&& (#[trigger] shown[i]).id == all[offset + i].event.id
                        &&& shown[i].created_at_ms == all[offset + i].event.created_at_ms
                        &&& shown[i].label == all[offset + i].event.label
                        &&& shown[i].pinned == all[offset + i].pinned
                        &&& shown[i].content == content_summary(all[offset + i].event.content)
                    }
            },
{
    let shown = summaries_of(page.records@);
    let all = choose|all: Seq<RecordModel>|
        {
            let start = crate::history::store::page_start(all.len() as int, offset as int);
            let end = crate::history::store::page_end(
                all.len() as int,
                offset as int,
                limit as int,
            );
            &&& #[trigger] w.store.is_listing(query@, all)
            &&& shown == Seq::new(
                (end - start) as nat,
                |i: int| crate::history::worker::summary(all[start + i]),
            )
            &&& page.next_offset == crate::history::store::page_next(
                all.len() as int,
                offset as int,
                limit as int,
            )
        };
    assert(w.store.is_listing(query@, all));
}

/// The preview of a text is its beginning, as much of it as 512 bytes hold, and says
/// whether something is missing. An image is shown with its type, its sides and its
/// size; of files the first eight names are shown, how many there are, and what they
/// weigh together.
pub proof fn law_previews_say_what_they_stand_for(c: ContentModel)
    ensures
        match (c, content_summary(c)) {
            (ContentModel::Text(text), SummaryContentModel::Text { preview, truncated }) => {
                &&& byte_len(preview) <= 512
                &&& preview.len() <= text.len() && preview == text.take(preview.len() as int)
                &&& truncated <==> byte_len(text) > 512
                &&& truncated <==> preview != text
                &&& truncated ==> byte_len(text.take(preview.len() as int + 1)) > 512
            },
            (
                ContentModel::Image { bytes, media_type, width, height },
                SummaryContentModel::Image {
                    media_type: shown_type,
                    width: shown_width,
                    height: shown_height,
                    size_bytes,
                },
            ) => {
                &&& shown_type == media_type && shown_width == width && shown_height == height
                &&& bytes is Some && bytes->Some_0.len() <= u64::MAX ==> size_bytes
                    == bytes->Some_0.len()
                &&& bytes is None ==> size_bytes == 0
            },
            (
                ContentModel::Files(files),
                SummaryContentModel::Files { count, total_size_bytes, names, names_truncated },
            ) => {
                let sum = files.fold_left(0int, |sum: int, file: FileModel| sum + file.size_bytes);
                &&& files.len() <= u32::MAX ==> count == files.len()
                &&& sum <= u64::MAX ==> total_size_bytes == sum
                &&& sum > u64::MAX ==> total_size_bytes == u64::MAX
                &&& names.len() <= 8
                &&& names.len() < 8 ==> names.len() == files.len()
                &&& names_truncated <==> names.len() < files.len()
                &&& forall|i: int| 0 <= i < names.len() ==> #[trigger] names[i] == files[i].name
            },
            _ => false,
        },
{
    match c {
        ContentModel::Text(text) => {
            lemma_preview(text, 512);
            assert(text.take(text.len() as int) =~= text);
        },
        ContentModel::Files(files) => lemma_total(files),
        _ => {},
    }
}

proof fn lemma_preview(text: Seq<char>, maximum: nat)
    ensures
        ({
            let r = fitting(text, maximum);
            &&& byte_len(r) <= maximum
            &&& r.len() <= text.len()
            &&& r == text.take(r.len() as int)
            &&& byte_len(text) <= maximum ==> r == text
            &&& byte_len(text) > maximum ==> r.len() < text.len() && byte_len(
                text.take(r.len() as int + 1),
            ) > maximum
        }),
    decreases text.len(),
{
    let r = fitting(text, maximum);
    if byte_len(text) <= maximum || text.len() == 0 {
        assert(text.take(text.len() as int) =~= text);
        if text.len() == 0 {
            assert(text =~= Seq::<char>::empty());
            assert(byte_len(Seq::<char>::empty()) == 0);
        }
    } else {
        let front = text.drop_last();
        lemma_preview(front, maximum);
        assert(front.take(r.len() as int) =~= text.take(r.len() as int));
        if byte_len(front) <= maximum {
            assert(text.take(r.len() as int + 1) =~= text);
        } else {
            assert(front.take(r.len() as int + 1) =~= text.take(r.len() as int + 1));
        }
    }
}

proof fn lemma_total(files: Seq<FileModel>)
    ensures
        ({
            let sum = files.fold_left(0int, |sum: int, file: FileModel| sum + file.size_bytes);
            &&& 0 <= sum
            &&& sum <= u64::MAX ==> total_size(files) == sum
            &&& sum > u64::MAX ==> total_size(files) == u64::MAX
        }),
    decreases files.len(),
{
    if files.len() > 0 {
        lemma_total(files.drop_last());
    }
}

/// A picture is shown of an image that is there with its bytes, and of nothing else.
pub proof fn law_pictures_are_of_shown_images(
    w: WorkerModel,
    event_id: HistoryEventId,
    picture: Option<ImagePayload>,
    after: WorkerModel,
)
    requires
        w.answers(Command::Image { event_id }, Reply::Image(Ok(picture)), after),
    ensures
        after == w,
        ({
            let k = (event_id@.device, event_id@.sequence);
            picture is Some <==> w.store.events.contains_key(k) && !w.store.events[k].dismissed && {
                &&& w.store.event(k).content matches ContentModel::Image {
                    bytes: Some(_),
                    media_type,
                    width,
                    height,
                }
            }
        }),
        picture matches Some(p) ==> p.width is Some && p.height is Some && 1 <= p.width->Some_0
            <= 256 && 1 <= p.height->Some_0 <= 256 && p.bytes@.len() == 4 * p.width->Some_0
            * p.height->Some_0,
{
}

/// A clear answers how many events it hid: those that were shown, not pinned, and
/// within its boundary. The revision grows if and only if there were any. Repeated,
/// it answers the same and changes nothing.
pub proof fn law_clears_answer_what_they_hid(
    w: WorkerModel,
    operation_id: String,
    boundary: ClearBoundary,
    affected: usize,
    after: WorkerModel,
)
    requires
        w.answers(
            Command::ApplyClear { operation_id, boundary },
            Reply::Cleared(Ok(affected)),
            after,
        ),
        w.store.events.dom().finite(),
    ensures
        w.store.operations.contains_key(operation_id@) ==> after == w && affected
            == w.store.operations[operation_id@].affected,
        !w.store.operations.contains_key(operation_id@) ==> {
            &&& forall|k: EventKey| #[trigger]
                w.store.events.contains_key(k) ==> after.store.events.contains_key(k) && (if {
                    &&& !w.store.events[k].dismissed && !w.store.events[k].pinned
                    &&& boundary@.contains_key(k.0) && boundary@[k.0] >= k.1
                } {
                    after.store.events[k].dismissed
                } else {
                    after.store.events[k] == w.store.events[k]
                })
            &&& affected == w.store.events.dom().filter(
                |k: EventKey| !w.store.events[k].dismissed && after.store.events[k].dismissed,
            ).len()
            &&& after.store.operations.contains_key(operation_id@)
            &&& after.store.operations[operation_id@].boundary == boundary@
            &&& after.revision == (if affected == 0 {
                w.revision
            } else {
                next_number(w.revision)
            })
        },
        after.device == w.device,
        after.label == w.label,
{
    let op = operation_id@;
    if !w.store.operations.contains_key(op) {
        let m = w.store;
        assert(after.store == m.cleared(op, boundary@).0);
        assert forall|k: EventKey| #[trigger] m.events.contains_key(k) implies
            after.store.events.contains_key(k) && (if {
            &&& !m.events[k].dismissed && !m.events[k].pinned
            &&& boundary@.contains_key(k.0) && boundary@[k.0] >= k.1
        } {
            after.store.events[k].dismissed
        } else {
            after.store.events[k] == m.events[k]
        }) by {}
        assert(m.events.dom().filter(
            |k: EventKey| !m.events[k].dismissed && after.store.events[k].dismissed,
        ) =~= m.events.dom().filter(|k: EventKey| m.dismissable(boundary@, k)));
    } else {
        assert(after.store == w.store);
    }
}

/// A clear up to a snapshot leaves nothing shown but what is pinned.
pub proof fn law_a_snapshot_clears_everything(
    m: StoreModel,
    op: Seq<char>,
    boundary: Map<Seq<char>, u64>,
    k: EventKey,
)
    requires
        is_snapshot(m, boundary),
        !m.operations.contains_key(op),
        m.events.contains_key(k),
        m.events.dom().finite(),
    ensures
        ({
            let after = m.cleared(op, boundary).0;
            &&& !m.events[k].pinned ==> after.events[k].dismissed
            &&& m.events[k].pinned ==> after.events[k] == m.events[k]
        }),
{
    assert(boundary.contains_key(k.0));
    law_a_bounded_clear_hides_what_it_names(m, op, boundary, k);
}

/// Reading changes nothing, and nothing changes the device and its label.
pub proof fn law_reading_changes_nothing(w: WorkerModel, c: Command, r: Reply, after: WorkerModel)
    requires
        w.answers(c, r, after),
    ensures
        c is Export || c is Page || c is Image || c is SnapshotBoundary ==> after == w,
        after.device == w.device,
        after.label == w.label,
        after.revision == w.revision || after.revision == next_number(w.revision),
        r matches Reply::Recorded(Err(_)) ==> after == w,
        r matches Reply::RecordedEvent(Err(_)) ==> after == w,
        r matches Reply::Imported(Err(_)) ==> after == w,
        r matches Reply::Pinned(Err(_)) ==> after == w,
        r matches Reply::Cleared(Err(_)) ==> after == w,
{
}

/// What other devices get of the history are the events of the list one for one, from the
/// offset on, and getting them changes nothing.
pub proof fn law_exports_hand_out_the_list(
    w: WorkerModel,
    offset: u64,
    limit: usize,
    events: Vec<ImportedHistoryEvent>,
    next: Option<u64>,
    after: WorkerModel,
)
    requires
        w.answers(
            Command::Export { offset, limit },
            Reply::Exported(Ok((events, next))),
            after,
        ),
    ensures
        after == w,
        exists|all: Seq<RecordModel>|
            {
                &&& #[trigger] w.store.is_listing(Seq::empty(), all)
                &&& forall|i: int|
                    0 <= i < events@.len() ==> offset + i < all.len() && (
                    #[trigger] events@[i])@ == all[offset + i].event
                &&& events@.len() <= 50
                &&& all.len() <= u64::MAX ==> next == (if offset + events@.len() < all.len() {
                    Some((offset + events@.len()) as u64)
                } else {
                    None
                })
            },
{
    let all = choose|all: Seq<RecordModel>|
        {
            let start = crate::history::store::page_start(all.len() as int, offset as int);
            let end = crate::history::store::page_end(
                all.len() as int,
                offset as int,
                limit as int,
            );
            &&& #[trigger] w.store.is_listing(Seq::empty(), all)
            &&& crate::history::store::events_of(events@) == Seq::new(
                (end - start) as nat,
                |i: int| all[start + i].event,
            )
            &&& next == crate::history::store::page_next(
                all.len() as int,
                offset as int,
                limit as int,
            )
        };
    assert(w.store.is_listing(Seq::empty(), all));
    let model = crate::history::store::events_of(events@);
    assert(model.len() == events@.len());
    assert forall|i: int| 0 <= i < events@.len() implies offset + i < all.len() && (
    #[trigger] events@[i])@ == all[offset + i].event by {
        assert(model[i] == events@[i]@);
    }
}

/// The picture of an image whose pixels are stored is those pixels, fitted into 256 on a
/// side; of one that is stored encoded, what it decodes to.
pub proof fn law_pictures_are_of_their_pixels(
    w: WorkerModel,
    event_id: HistoryEventId,
    picture: ImagePayload,
    after: WorkerModel,
    pixels: Seq<u8>,
    width: u32,
    height: u32,
)
    requires
        w.answers(Command::Image { event_id }, Reply::Image(Ok(Some(picture))), after),
        w.store.event((event_id@.device, event_id@.sequence)).content == (ContentModel::Image {
            bytes: Some(pixels),
            media_type: Some("image/x-rgba8"@),
            width: Some(width),
            height: Some(height),
        }),
    ensures
        ({
            let (w, h, rgba) = crate::history::worker::rgba_scaled(pixels, width, height, 256);
            &&& picture.width == Some(w) && picture.height == Some(h)
            &&& picture.bytes@ == rgba
            &&& chars(picture.media_type) == Some("image/x-rgba8"@)
        }),
{
}

/// An event of this device is not refused where its content and label keep the limits, the
/// clock stands at a moment that the database holds, and sequences are left.
pub proof fn law_own_copies_are_not_refused(
    w: WorkerModel,
    content: HistoryContent,
    clock: u128,
    files_json: Option<String>,
    error: HistoryError,
    after: WorkerModel,
    highest: u64,
)
    requires
        w.store.is_highest(w.device, highest),
        highest < 0x7fff_ffff_ffff_ffff,
        clock <= 0x7fff_ffff_ffff_ffff,
        event_fault(
            EventModel {
                id: EventIdModel { device: w.device, sequence: 1 },
                created_at_ms: 0,
                label: w.label,
                content: content@,
            },
        ) is None,
    ensures
        !w.answers(
            Command::RecordEvent { content, clock: Some(clock), files_json },
            Reply::RecordedEvent(Err(error)),
            after,
        ),
{
    if w.store.is_highest(w.device, crate::history::MAX_SEQUENCE) {
        assert(w.store.events.contains_key((w.device, crate::history::MAX_SEQUENCE))
            ==> crate::history::MAX_SEQUENCE <= highest);
        if !w.store.events.contains_key((w.device, crate::history::MAX_SEQUENCE)) {
            let op = choose|op: Seq<char>| #[trigger]
                w.store.operations.contains_key(op)
                    && w.store.operations[op].boundary.contains_key(w.device)
                    && w.store.operations[op].boundary[w.device] == crate::history::MAX_SEQUENCE;
            assert(w.store.operations[op].boundary[w.device] <= highest);
        }
    }
}

/// A snapshot names the devices that have events, and no others, each with its highest
/// sequence.
pub proof fn law_snapshots_name_the_highest(
    m: StoreModel,
    b: Map<Seq<char>, u64>,
    device: Seq<char>,
    k: EventKey,
)
    requires
        is_snapshot(m, b),
    ensures
        m.events.contains_key(k) ==> b.contains_key(k.0) && b[k.0] >= k.1,
        b.contains_key(device) ==> m.events.contains_key((device, b[device])),
        (forall|n: u64| !m.events.contains_key((device, n))) ==> !b.contains_key(device),
{
    if b.contains_key(device) && (forall|n: u64| !m.events.contains_key((device, n))) {
        assert(!m.events.contains_key((device, b[device])));
    }
}

} // verus!
