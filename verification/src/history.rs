//! The clipboard history of this device.
//!
//! Clipboard events are immutable and identified by their originating device and
//! monotonically increasing origin sequence. Pin and dismissal state is local:
//! clearing history never emits or represents a remote deletion.
//!
//! * [`validate`] says which events are taken;
//! * [`store`] holds the events and decides what each operation does to them;
//! * [`search`] finds them again;
//! * [`laws`] states what the operations keep true;
//! * [`worker`] answers the commands of the daemon.
use vstd::prelude::*;

pub mod laws;
pub mod promises;
pub mod search;
pub mod service;
pub mod store;
pub mod validate;
pub mod worker;

verus! {

pub const MAX_TEXT_BYTES: usize = 1024 * 1024;

pub const MAX_IMAGE_BYTES: usize = 32 * 1024 * 1024;

pub const MAX_FILES: usize = 1024;

pub const MAX_METADATA_BYTES: usize = 16 * 1024;

pub const MAX_DEVICE_ID_BYTES: usize = 1024;

pub const MAX_ORIGIN_LABEL_BYTES: usize = 16 * 1024;

pub const MAX_OPERATION_ID_BYTES: usize = 1024;

/// The largest sequence that a database column holds.
pub const MAX_SEQUENCE: u64 = 0x7fff_ffff_ffff_ffff;

/// Globally stable identity assigned by the device that first observed a copy.
/// Remote forwarding must retain this identity rather than allocating a new one.
#[derive(Clone, Debug, PartialEq, Eq)]
pub struct HistoryEventId {
    pub origin_device_id: String,
    pub origin_sequence: u64,
}

/// Immutable information about the device that originated an event.
/// `device_id` is an application-provided durable id, never inferred from a hostname.
#[derive(Clone, Debug, PartialEq, Eq)]
pub struct HistoryOrigin {
    pub device_id: String,
    pub sequence: u64,
    pub label: Option<String>,
}

/// The payload category stored in a history event.
#[derive(Clone, Copy, Debug, PartialEq, Eq, Structural)]
pub enum HistoryKind {
    Text,
    Image,
    Files,
}

/// Durable metadata for one copied file. Paths and handles are intentionally absent.
#[derive(Clone, Debug, PartialEq, Eq)]
pub struct FileMetadata {
    pub name: String,
    pub size_bytes: u64,
    pub media_type: Option<String>,
}

/// A locally owned copy of clipboard content.
#[derive(Clone, Debug, PartialEq, Eq)]
pub enum HistoryContent {
    Text(String),
    Image {
        bytes: Option<Vec<u8>>,
        media_type: Option<String>,
        width: Option<u32>,
        height: Option<u32>,
    },
    Files(Vec<FileMetadata>),
}

/// Immutable event plus this installation's mutable pin state.
#[derive(Clone, Debug, PartialEq, Eq)]
pub struct HistoryRecord {
    pub event_id: HistoryEventId,
    /// Milliseconds since the Unix epoch, assigned by the originating device.
    pub created_at_ms: i64,
    pub origin_label: Option<String>,
    pub pinned: bool,
    pub content: HistoryContent,
}

/// An immutable event received during device reconciliation.
#[derive(Clone, Debug, PartialEq, Eq)]
pub struct ImportedHistoryEvent {
    pub event_id: HistoryEventId,
    pub created_at_ms: i64,
    pub origin_label: Option<String>,
    pub content: HistoryContent,
}

/// Result of merging an event that may be known already.
#[derive(Clone, Copy, Debug, PartialEq, Eq, Structural)]
pub enum MergeOutcome {
    Inserted,
    AlreadyPresent,
    /// Already known and locally dismissed; it remains absent from list/search.
    Suppressed,
}

/// Why an operation on the history is refused.
#[derive(Clone, Debug, PartialEq, Eq)]
pub enum HistoryError {
    /// The database cannot do what was asked of it, or holds what cannot be read.
    Database(String),
    InvalidPayload(String),
    CorruptData(String),
    EventConflict(HistoryEventId),
    ClearOperationConflict(String),
    InvalidClock,
}

// ---------------------------------------------------------------------------
// Events as mathematical values
// ---------------------------------------------------------------------------

pub ghost struct EventIdModel {
    pub device: Seq<char>,
    pub sequence: u64,
}

pub ghost struct FileModel {
    pub name: Seq<char>,
    pub size_bytes: u64,
    pub media_type: Option<Seq<char>>,
}

pub ghost enum ContentModel {
    Text(Seq<char>),
    Image {
        bytes: Option<Seq<u8>>,
        media_type: Option<Seq<char>>,
        width: Option<u32>,
        height: Option<u32>,
    },
    Files(Seq<FileModel>),
}

/// What never changes of an event.
pub ghost struct EventModel {
    pub id: EventIdModel,
    pub created_at_ms: i64,
    pub label: Option<Seq<char>>,
    pub content: ContentModel,
}

/// An event and whether it is pinned here.
pub ghost struct RecordModel {
    pub event: EventModel,
    pub pinned: bool,
}

pub ghost enum HistoryFault {
    Database(Seq<char>),
    InvalidPayload(Seq<char>),
    CorruptData(Seq<char>),
    EventConflict(EventIdModel),
    ClearOperationConflict(Seq<char>),
    InvalidClock,
}

pub open spec fn chars(s: Option<String>) -> Option<Seq<char>> {
    match s {
        Some(s) => Some(s@),
        None => None,
    }
}

pub open spec fn bytes_of(b: Option<Vec<u8>>) -> Option<Seq<u8>> {
    match b {
        Some(b) => Some(b@),
        None => None,
    }
}

pub open spec fn files_of(files: Seq<FileMetadata>) -> Seq<FileModel> {
    Seq::new(files.len(), |i: int| files[i]@)
}

impl View for HistoryEventId {
    type V = EventIdModel;

    open spec fn view(&self) -> EventIdModel {
        EventIdModel { device: self.origin_device_id@, sequence: self.origin_sequence }
    }
}

impl View for FileMetadata {
    type V = FileModel;

    open spec fn view(&self) -> FileModel {
        FileModel {
            name: self.name@,
            size_bytes: self.size_bytes,
            media_type: chars(self.media_type),
        }
    }
}

impl View for HistoryContent {
    type V = ContentModel;

    open spec fn view(&self) -> ContentModel {
        match *self {
            HistoryContent::Text(text) => ContentModel::Text(text@),
            HistoryContent::Image { bytes, media_type, width, height } => ContentModel::Image {
                bytes: bytes_of(bytes),
                media_type: chars(media_type),
                width,
                height,
            },
            HistoryContent::Files(files) => ContentModel::Files(files_of(files@)),
        }
    }
}

impl View for ImportedHistoryEvent {
    type V = EventModel;

    open spec fn view(&self) -> EventModel {
        EventModel {
            id: self.event_id@,
            created_at_ms: self.created_at_ms,
            label: chars(self.origin_label),
            content: self.content@,
        }
    }
}

impl View for HistoryRecord {
    type V = RecordModel;

    open spec fn view(&self) -> RecordModel {
        RecordModel {
            event: EventModel {
                id: self.event_id@,
                created_at_ms: self.created_at_ms,
                label: chars(self.origin_label),
                content: self.content@,
            },
            pinned: self.pinned,
        }
    }
}

impl View for HistoryError {
    type V = HistoryFault;

    open spec fn view(&self) -> HistoryFault {
        match *self {
            HistoryError::Database(text) => HistoryFault::Database(text@),
            HistoryError::InvalidPayload(text) => HistoryFault::InvalidPayload(text@),
            HistoryError::CorruptData(text) => HistoryFault::CorruptData(text@),
            HistoryError::EventConflict(id) => HistoryFault::EventConflict(id@),
            HistoryError::ClearOperationConflict(id) => HistoryFault::ClearOperationConflict(id@),
            HistoryError::InvalidClock => HistoryFault::InvalidClock,
        }
    }
}

pub open spec fn kind_of(c: ContentModel) -> HistoryKind {
    match c {
        ContentModel::Text(_) => HistoryKind::Text,
        ContentModel::Image { .. } => HistoryKind::Image,
        ContentModel::Files(_) => HistoryKind::Files,
    }
}

pub open spec fn kind_text(k: HistoryKind) -> Seq<char> {
    match k {
        HistoryKind::Text => "text"@,
        HistoryKind::Image => "image"@,
        HistoryKind::Files => "files"@,
    }
}

/// The kind of a name in a database column.
pub open spec fn kind_named(s: Seq<char>) -> Option<HistoryKind> {
    if s == "text"@ {
        Some(HistoryKind::Text)
    } else if s == "image"@ {
        Some(HistoryKind::Image)
    } else if s == "files"@ {
        Some(HistoryKind::Files)
    } else {
        None
    }
}

impl HistoryOrigin {
    /// The identity of the event of this origin.
    pub fn event_id(&self) -> (id: HistoryEventId)
        ensures
            id.origin_device_id == self.device_id,
            id.origin_sequence == self.sequence,
    {
        HistoryEventId {
            origin_device_id: self.device_id.clone(),
            origin_sequence: self.sequence,
        }
    }
}

impl HistoryKind {
    /// The name of the kind in a database column.
    pub fn as_str(self) -> (s: &'static str)
        ensures
            s@ == kind_text(self),
    {
        match self {
            HistoryKind::Text => "text",
            HistoryKind::Image => "image",
            HistoryKind::Files => "files",
        }
    }

    /// The kind of a name in a database column.
    pub fn parse(value: &str) -> (r: Result<HistoryKind, HistoryError>)
        ensures
            match r {
                Ok(kind) => kind_named(value@) == Some(kind),
                Err(error) => kind_named(value@) is None && error@ == HistoryFault::CorruptData(
                    "unknown kind "@ + crate::text::debug_text(value@),
                ),
            },
    {
        if crate::text::same_text(value, "text") {
            Ok(HistoryKind::Text)
        } else if crate::text::same_text(value, "image") {
            Ok(HistoryKind::Image)
        } else if crate::text::same_text(value, "files") {
            Ok(HistoryKind::Files)
        } else {
            let mut text: String = "unknown kind ".to_owned();
            text.push_str(crate::text::debug_of(value).as_str());
            Err(HistoryError::CorruptData(text))
        }
    }
}

impl HistoryContent {
    /// The kind of the content.
    pub fn kind(&self) -> (k: HistoryKind)
        ensures
            k == kind_of(self@),
    {
        match self {
            HistoryContent::Text(_) => HistoryKind::Text,
            HistoryContent::Image { .. } => HistoryKind::Image,
            HistoryContent::Files(_) => HistoryKind::Files,
        }
    }

    /// The same content once more.
    pub fn copy(&self) -> (c: HistoryContent)
        ensures
            c@ == self@,
    {
        match self {
            HistoryContent::Text(text) => HistoryContent::Text(text.clone()),
            HistoryContent::Image { bytes, media_type, width, height } => {
                let copied: Option<Vec<u8>> = match bytes {
                    Some(bytes) => Some(copy_bytes(bytes)),
                    None => None,
                };
                HistoryContent::Image {
                    bytes: copied,
                    media_type: copy_text(media_type),
                    width: *width,
                    height: *height,
                }
            },
            HistoryContent::Files(files) => {
                let copied: Vec<FileMetadata> = copy_files(files);
                assert(files_of(copied@) =~= files_of(files@));
                HistoryContent::Files(copied)
            },
        }
    }

    /// Whether two contents are the same.
    pub fn same(&self, other: &HistoryContent) -> (r: bool)
        ensures
            r == (self@ == other@),
    {
        match (self, other) {
            (HistoryContent::Text(a), HistoryContent::Text(b)) => crate::text::same_text(
                a.as_str(),
                b.as_str(),
            ),
            (
                HistoryContent::Image { bytes, media_type, width, height },
                HistoryContent::Image {
                    bytes: other_bytes,
                    media_type: other_media,
                    width: other_width,
                    height: other_height,
                },
            ) => same_numbers(*width, *other_width) && same_numbers(*height, *other_height)
                && same_optional(media_type, other_media) && same_optional_bytes(
                bytes,
                other_bytes,
            ),
            (HistoryContent::Files(a), HistoryContent::Files(b)) => same_files(a, b),
            _ => false,
        }
    }
}

fn same_numbers(a: Option<u32>, b: Option<u32>) -> (r: bool)
    ensures
        r == (a == b),
{
    match (a, b) {
        (Some(a), Some(b)) => a == b,
        (None, None) => true,
        _ => false,
    }
}

pub fn same_optional(a: &Option<String>, b: &Option<String>) -> (r: bool)
    ensures
        r == (chars(*a) == chars(*b)),
{
    match (a, b) {
        (Some(a), Some(b)) => crate::text::same_text(a.as_str(), b.as_str()),
        (None, None) => true,
        _ => false,
    }
}

fn same_optional_bytes(a: &Option<Vec<u8>>, b: &Option<Vec<u8>>) -> (r: bool)
    ensures
        r == (bytes_of(*a) == bytes_of(*b)),
{
    match (a, b) {
        (Some(a), Some(b)) => same_bytes(a, b),
        (None, None) => true,
        _ => false,
    }
}

fn same_bytes(a: &Vec<u8>, b: &Vec<u8>) -> (r: bool)
    ensures
        r == (a@ == b@),
{
    if a.len() != b.len() {
        return false;
    }
    let mut i: usize = 0;
    while i < a.len()
        invariant
            i <= a@.len(),
            a@.len() == b@.len(),
            forall|j: int| 0 <= j < i ==> a@[j] == b@[j],
        decreases a@.len() - i,
    {
        if a[i] != b[i] {
            return false;
        }
        i = i + 1;
    }
    assert(a@ =~= b@);
    true
}

fn same_files(a: &Vec<FileMetadata>, b: &Vec<FileMetadata>) -> (r: bool)
    ensures
        r == (files_of(a@) == files_of(b@)),
{
    if a.len() != b.len() {
        assert(files_of(a@).len() != files_of(b@).len());
        return false;
    }
    let mut i: usize = 0;
    while i < a.len()
        invariant
            i <= a@.len(),
            a@.len() == b@.len(),
            forall|j: int| 0 <= j < i ==> files_of(a@)[j] == files_of(b@)[j],
        decreases a@.len() - i,
    {
        if !(a[i].size_bytes == b[i].size_bytes && crate::text::same_text(
            a[i].name.as_str(),
            b[i].name.as_str(),
        ) && same_optional(&a[i].media_type, &b[i].media_type)) {
            assert(files_of(a@)[i as int] != files_of(b@)[i as int]);
            return false;
        }
        i = i + 1;
    }
    assert(files_of(a@) =~= files_of(b@));
    true
}

/// The same text once more, where there is one.
pub fn copy_text(s: &Option<String>) -> (r: Option<String>)
    ensures
        r == *s,
{
    match s {
        Some(s) => Some(s.clone()),
        None => None,
    }
}

/// The same bytes once more.
pub fn copy_bytes(b: &Vec<u8>) -> (r: Vec<u8>)
    ensures
        r@ == b@,
{
    vstd::slice::slice_to_vec(b.as_slice())
}

/// The same identity once more.
pub fn copy_id(id: &HistoryEventId) -> (r: HistoryEventId)
    ensures
        r == *id,
{
    HistoryEventId {
        origin_device_id: id.origin_device_id.clone(),
        origin_sequence: id.origin_sequence,
    }
}

/// The same files once more.
pub fn copy_files(files: &Vec<FileMetadata>) -> (r: Vec<FileMetadata>)
    ensures
        r@ == files@,
{
    let mut r: Vec<FileMetadata> = Vec::new();
    let mut i: usize = 0;
    while i < files.len()
        invariant
            i <= files@.len(),
            r@ == files@.take(i as int),
        decreases files@.len() - i,
    {
        r.push(
            FileMetadata {
                name: files[i].name.clone(),
                size_bytes: files[i].size_bytes,
                media_type: copy_text(&files[i].media_type),
            },
        );
        i = i + 1;
        assert(r@ =~= files@.take(i as int));
    }
    assert(r@ =~= files@);
    r
}

/// Every kind comes back from its name.
pub proof fn law_kind_names(k: HistoryKind)
    ensures
        kind_named(kind_text(k)) == Some(k),
{
    reveal_strlit("text");
    reveal_strlit("image");
    reveal_strlit("files");
    assert("text"@[0] == 't' && "image"@[0] == 'i' && "files"@[0] == 'f');
}

} // verus!
