//! Answers the commands of the daemon on the history: what it records, what it
//! shows of it, and when what is shown has changed.
use crate::history::chars;
use crate::history::copy_text;
use crate::history::files_of;
use crate::history::kind_of;
use crate::history::store::page_end;
use crate::history::store::page_next;
use crate::history::store::page_start;
use crate::history::store::events_of;
use crate::history::store::ClearBoundary;
use crate::history::store::EventKey;
use crate::history::store::HistoryStore;
use crate::history::store::RowModel;
use crate::history::store::StoreModel;
use crate::history::store::MAX_COLUMN_BYTES;
use crate::history::validate::event_fault;
use crate::history::validate::sequence_fault;
use crate::history::validate::text_fault;
use crate::history::ContentModel;
use crate::history::EventIdModel;
use crate::history::EventModel;
use crate::history::FileMetadata;
use crate::history::FileModel;
use crate::history::HistoryContent;
use crate::history::HistoryError;
use crate::history::HistoryEventId;
use crate::history::HistoryFault;
use crate::history::HistoryKind;
use crate::history::HistoryOrigin;
use crate::history::HistoryRecord;
use crate::history::ImportedHistoryEvent;
use crate::history::MergeOutcome;
use crate::history::RecordModel;
use crate::history::MAX_DEVICE_ID_BYTES;
use crate::history::MAX_SEQUENCE;
use crate::text::byte_len;
use crate::text::debug_of;
use crate::text::debug_text;
use crate::text::decimal;
use crate::text::fitting;
use crate::text::len_of;
use crate::text::push_decimal;
use crate::text::same_text;
use crate::text::truncate_utf8;
use vstd::prelude::*;

verus! {

pub const MAX_PAGE_SIZE: usize = 50;

pub const MAX_TEXT_PREVIEW_BYTES: usize = 512;

pub const MAX_FILE_NAMES: usize = 8;

/// The longest edge of a thumbnail.
pub const MAX_EDGE: u32 = 256;

/// What a list shows of the content of an event.
#[derive(Clone, Debug, PartialEq, Eq)]
pub enum HistorySummaryContent {
    Text { preview: String, truncated: bool },
    Image {
        media_type: Option<String>,
        width: Option<u32>,
        height: Option<u32>,
        size_bytes: u64,
    },
    Files { count: u32, total_size_bytes: u64, names: Vec<String>, names_truncated: bool },
}

/// What a list shows of an event.
#[derive(Clone, Debug, PartialEq, Eq)]
pub struct HistorySummary {
    pub event_id: HistoryEventId,
    pub created_at_ms: i64,
    pub origin_label: Option<String>,
    pub pinned: bool,
    pub kind: HistoryKind,
    pub content: HistorySummaryContent,
}

/// A part of the list, and where the next part starts.
#[derive(Clone, Debug, PartialEq, Eq)]
pub struct HistoryPage {
    pub records: Vec<HistorySummary>,
    pub next_offset: Option<u64>,
}

/// The pixels of an image.
#[derive(Clone, Debug, PartialEq, Eq)]
pub struct ImagePayload {
    pub bytes: Vec<u8>,
    pub media_type: Option<String>,
    pub width: Option<u32>,
    pub height: Option<u32>,
}

// ---------------------------------------------------------------------------
// Summaries
// ---------------------------------------------------------------------------

pub ghost enum SummaryContentModel {
    Text { preview: Seq<char>, truncated: bool },
    Image {
        media_type: Option<Seq<char>>,
        width: Option<u32>,
        height: Option<u32>,
        size_bytes: u64,
    },
    Files { count: u32, total_size_bytes: u64, names: Seq<Seq<char>>, names_truncated: bool },
}

pub ghost struct SummaryModel {
    pub id: EventIdModel,
    pub created_at_ms: i64,
    pub label: Option<Seq<char>>,
    pub pinned: bool,
    pub kind: HistoryKind,
    pub content: SummaryContentModel,
}

pub open spec fn names_of(names: Seq<String>) -> Seq<Seq<char>> {
    Seq::new(names.len(), |i: int| names[i]@)
}

impl View for HistorySummaryContent {
    type V = SummaryContentModel;

    open spec fn view(&self) -> SummaryContentModel {
        match *self {
            HistorySummaryContent::Text { preview, truncated } => SummaryContentModel::Text {
                preview: preview@,
                truncated,
            },
            HistorySummaryContent::Image { media_type, width, height, size_bytes } => {
                SummaryContentModel::Image {
                    media_type: chars(media_type),
                    width,
                    height,
                    size_bytes,
                }
            },
            HistorySummaryContent::Files { count, total_size_bytes, names, names_truncated } => {
                SummaryContentModel::Files {
                    count,
                    total_size_bytes,
                    names: names_of(names@),
                    names_truncated,
                }
            },
        }
    }
}

impl View for HistorySummary {
    type V = SummaryModel;

    open spec fn view(&self) -> SummaryModel {
        SummaryModel {
            id: self.event_id@,
            created_at_ms: self.created_at_ms,
            label: chars(self.origin_label),
            pinned: self.pinned,
            kind: self.kind,
            content: self.content@,
        }
    }
}

pub open spec fn summaries_of(v: Seq<HistorySummary>) -> Seq<SummaryModel> {
    Seq::new(v.len(), |i: int| v[i]@)
}

/// The sizes of files together; the largest number where they are more.
pub open spec fn total_size(files: Seq<FileModel>) -> u64
    decreases files.len(),
{
    if files.len() == 0 {
        0
    } else {
        let total = total_size(files.drop_last()) + files.last().size_bytes;
        if total > u64::MAX {
            u64::MAX
        } else {
            total as u64
        }
    }
}

/// What a list shows of a content.
pub open spec fn content_summary(c: ContentModel) -> SummaryContentModel {
    match c {
        ContentModel::Text(text) => SummaryContentModel::Text {
            preview: fitting(text, MAX_TEXT_PREVIEW_BYTES as nat),
            truncated: byte_len(text) > MAX_TEXT_PREVIEW_BYTES,
        },
        ContentModel::Image { bytes, media_type, width, height } => SummaryContentModel::Image {
            media_type,
            width,
            height,
            size_bytes: match bytes {
                Some(bytes) => bytes.len() as u64,
                None => 0,
            },
        },
        ContentModel::Files(files) => SummaryContentModel::Files {
            count: if files.len() > u32::MAX {
                u32::MAX
            } else {
                files.len() as u32
            },
            total_size_bytes: total_size(files),
            names: Seq::new(
                if files.len() > MAX_FILE_NAMES {
                    MAX_FILE_NAMES as nat
                } else {
                    files.len()
                },
                |i: int| files[i].name,
            ),
            names_truncated: files.len() > MAX_FILE_NAMES,
        },
    }
}

/// What a list shows of an event.
pub open spec fn summary(r: RecordModel) -> SummaryModel {
    SummaryModel {
        id: r.event.id,
        created_at_ms: r.event.created_at_ms,
        label: r.event.label,
        pinned: r.pinned,
        kind: kind_of(r.event.content),
        content: content_summary(r.event.content),
    }
}

fn add_sizes(files: &Vec<FileMetadata>) -> (n: u64)
    ensures
        n == total_size(files_of(files@)),
{
    let mut n: u64 = 0;
    let mut i: usize = 0;
    let ghost models = files_of(files@);
    assert(models.take(0) =~= Seq::<FileModel>::empty());
    while i < files.len()
        invariant
            i <= files@.len(),
            models == files_of(files@),
            n == total_size(models.take(i as int)),
        decreases files@.len() - i,
    {
        assert(models.take(i + 1).drop_last() =~= models.take(i as int));
        n = n.saturating_add(files[i].size_bytes);
        i = i + 1;
    }
    assert(models.take(i as int) =~= models);
    n
}

fn first_names(files: &Vec<FileMetadata>) -> (names: Vec<String>)
    ensures
        names_of(names@) == (content_summary(ContentModel::Files(files_of(files@))))->names,
{
    let mut names: Vec<String> = Vec::new();
    let ghost models = files_of(files@);
    while names.len() < files.len() && names.len() < MAX_FILE_NAMES
        invariant
            models == files_of(files@),
            names@.len() <= files@.len(),
            names@.len() <= MAX_FILE_NAMES,
            forall|j: int| 0 <= j < names@.len() ==> (#[trigger] names@[j])@ == models[j].name,
        decreases MAX_FILE_NAMES - names@.len(),
    {
        let name: String = files[names.len()].name.clone();
        names.push(name);
    }
    assert(names_of(names@) =~= (content_summary(ContentModel::Files(models)))->names);
    names
}

/// What a list shows of an event.
pub fn summarize(record: HistoryRecord) -> (s: HistorySummary)
    ensures
        s@ == summary(record@),
{
    let kind: HistoryKind = record.content.kind();
    let content: HistorySummaryContent = match record.content {
        HistoryContent::Text(text) => {
            let preview: String = truncate_utf8(text.as_str(), MAX_TEXT_PREVIEW_BYTES);
            let truncated: bool = len_of(text.as_str()) > MAX_TEXT_PREVIEW_BYTES;
            HistorySummaryContent::Text { preview, truncated }
        },
        HistoryContent::Image { bytes, media_type, width, height } => {
            let size_bytes: u64 = match &bytes {
                Some(bytes) => bytes.len() as u64,
                None => 0,
            };
            HistorySummaryContent::Image { media_type, width, height, size_bytes }
        },
        HistoryContent::Files(files) => {
            let count: u32 = if files.len() > u32::MAX as usize {
                u32::MAX
            } else {
                files.len() as u32
            };
            HistorySummaryContent::Files {
                count,
                total_size_bytes: add_sizes(&files),
                names: first_names(&files),
                names_truncated: files.len() > MAX_FILE_NAMES,
            }
        },
    };
    HistorySummary {
        event_id: record.event_id,
        created_at_ms: record.created_at_ms,
        origin_label: record.origin_label,
        pinned: record.pinned,
        kind,
        content,
    }
}

// ---------------------------------------------------------------------------
// Thumbnails
// ---------------------------------------------------------------------------

/// Pixels with their dimensions: red, green, blue and alpha of each.
#[derive(Debug, PartialEq, Eq)]
pub struct Pixels {
    pub width: u32,
    pub height: u32,
    pub rgba: Vec<u8>,
}

/// Pixels as a mathematical value: the width, the height and the bytes.
pub open spec fn pixels_model(p: Pixels) -> (u32, u32, Seq<u8>) {
    (p.width, p.height, p.rgba@)
}

/// What `image` makes of an RGBA image that is scaled to fit a square.
pub uninterp spec fn rgba_scaled(rgba: Seq<u8>, width: u32, height: u32, edge: u32) -> (
    u32,
    u32,
    Seq<u8>,
);

/// What `image` decodes: the width, the height, the bytes of a pixel and the
/// channels of a pixel, or why nothing can be decoded.
pub uninterp spec fn encoded_shape(encoded: Seq<u8>) -> Result<(u32, u32, u8, u8), Seq<char>>;

/// What `image` makes of an encoded image that is scaled to fit a square, or
/// why it cannot be decoded.
pub uninterp spec fn encoded_scaled(encoded: Seq<u8>, edge: u32) -> Result<
    (u32, u32, Seq<u8>),
    Seq<char>,
>;

/// There are four values for each pixel, and those of a line can be counted.
pub open spec fn pixels_fit(width: u32, height: u32, len: nat) -> bool {
    4 * width <= usize::MAX && 4 * width * height <= len
}

/// `image::RgbaImage::from_raw`, then `DynamicImage::thumbnail` to a square of
/// the given edge and `into_rgba8`. The first gives nothing exactly where the
/// bytes are fewer than four for each pixel, or those of a line cannot be counted;
/// the second keeps within the square and leaves no dimension empty; the last has
/// four bytes for each pixel. The colours are left to the name. The bounds keep the sums that `thumbnail`
/// averages with, which have 32 bits, from overflowing.
#[verifier::external_body]
fn scale_rgba(rgba: Vec<u8>, width: u32, height: u32, edge: u32) -> (r: Option<Pixels>)
    requires
        256 <= edge <= 4096,
        rgba@.len() <= MAX_COLUMN_BYTES,
    ensures
        r is Some <==> pixels_fit(width, height, rgba@.len()),
        r matches Some(p) ==> {
            &&& pixels_model(p) == rgba_scaled(rgba@, width, height, edge)
            &&& 0 < p.width <= edge
            &&& 0 < p.height <= edge
            &&& p.rgba@.len() == 4 * p.width * p.height
        },
{
    let whole = image::DynamicImage::ImageRgba8(image::RgbaImage::from_raw(width, height, rgba)?);
    let small = whole.thumbnail(edge, edge).into_rgba8();
    let (width, height) = small.dimensions();
    Some(Pixels { width, height, rgba: small.into_raw() })
}

/// The least that a side of an image comes to when its longer side is scaled to
/// an edge.
pub open spec fn scaled_side(side: int, longer: int, edge: int) -> int {
    if longer <= 0 || side * edge / longer < 1 {
        1
    } else {
        side * edge / longer
    }
}

/// The most pixels along one side that become one pixel. Rounding adds a few, and
/// more along a side that is so long that its pixels are counted inexactly.
pub open spec fn block_side(side: int, scaled: int) -> int {
    let most = side / scaled + 3 + side / 0x10_0000;
    if most < side {
        most
    } else {
        side
    }
}

/// The most pixels that become one pixel when an image is scaled to fit a square.
pub open spec fn block_size(width: u32, height: u32, edge: u32) -> int {
    let longer = if width < height {
        height
    } else {
        width
    };
    block_side(width as int, scaled_side(width as int, longer as int, edge as int)) * block_side(
        height as int,
        scaled_side(height as int, longer as int, edge as int),
    )
}

/// How many pixels with two bytes for a channel can be averaged in 32 bits.
pub const DEEP_BLOCK_LIMIT: u64 = 0x1_0000;

/// Two bytes for each channel of a pixel.
pub open spec fn is_deep(shape: (u32, u32, u8, u8)) -> bool {
    shape.2 == 2 * shape.3
}

/// An image of this shape can be averaged in 32 bits to fit a square. With one
/// byte for a channel every image can: none that is decoded is large enough for
/// its sums to overflow.
pub open spec fn averages(shape: (u32, u32, u8, u8), edge: u32) -> bool {
    is_deep(shape) ==> block_size(shape.0, shape.1, edge) <= DEEP_BLOCK_LIMIT
}

/// An image whose pixels cannot be averaged in 32 bits has lines.
proof fn lemma_has_lines(width: u32, height: u32, edge: u32)
    ensures
        block_size(width, height, edge) > 0 ==> height > 0,
{
    if height == 0 {
        let longer = width as int;
        let scaled = scaled_side(0, longer, edge as int);
        assert(0int / scaled == 0) by (nonlinear_arith)
            requires
                scaled >= 1,
        ;
        assert(block_side(0, scaled) == 0);
        assert(block_side(width as int, scaled_side(width as int, longer, edge as int)) * 0 == 0)
            by (nonlinear_arith);
    }
}

fn scaled_side_of(side: u32, longer: u32, edge: u32) -> (n: u64)
    ensures
        n == scaled_side(side as int, longer as int, edge as int),
        n >= 1,
{
    if longer == 0 {
        return 1;
    }
    assert(side * edge <= 0xffff_ffff * 0xffff_ffff) by (nonlinear_arith)
        requires
            side <= 0xffff_ffff,
            edge <= 0xffff_ffff,
    ;
    let n: u64 = side as u64 * edge as u64 / longer as u64;
    if n < 1 {
        1
    } else {
        n
    }
}

fn block_side_of(side: u32, scaled: u64) -> (n: u64)
    requires
        scaled >= 1,
    ensures
        n == block_side(side as int, scaled as int),
        0 <= n <= side,
{
    let part: u64 = side as u64 / scaled;
    assert(side as int / scaled as int <= side as int) by (nonlinear_arith)
        requires
            scaled >= 1,
            side >= 0,
    ;
    assert(side as int / scaled as int >= 0) by (nonlinear_arith)
        requires
            scaled >= 1,
            side >= 0,
    ;
    let most: u64 = part + 3 + side as u64 / 0x10_0000;
    if most < side as u64 {
        most
    } else {
        side as u64
    }
}

/// Whether an image of this shape can be averaged in 32 bits to fit a square.
pub fn can_average(
    width: u32,
    height: u32,
    bytes_per_pixel: u8,
    channels: u8,
    edge: u32,
) -> (r: bool)
    ensures
        r == averages((width, height, bytes_per_pixel, channels), edge),
{
    if bytes_per_pixel as u32 != 2 * channels as u32 {
        return true;
    }
    let longer: u32 = if width < height {
        height
    } else {
        width
    };
    let across: u64 = block_side_of(width, scaled_side_of(width, longer, edge));
    let down: u64 = block_side_of(height, scaled_side_of(height, longer, edge));
    assert(across * down <= 0xffff_ffff * 0xffff_ffff) by (nonlinear_arith)
        requires
            across <= 0xffff_ffff,
            down <= 0xffff_ffff,
    ;
    across * down <= DEEP_BLOCK_LIMIT
}

/// The most bytes that a decoded image takes.
pub const MAX_DECODED_BYTES: u64 = 0x2000_0000;

/// `image::load_from_memory`, and of what it gives `width`, `height` and
/// `color` with its `bytes_per_pixel` and `channel_count`. They, and the text of
/// the error, depend on the bytes alone and are left to the name. A pixel has one
/// to four channels, and its limit of 512 MiB keeps larger images from being
/// decoded.
#[verifier::external_body]
fn shape_of(encoded: &[u8]) -> (r: Result<(u32, u32, u8, u8), String>)
    ensures
        match r {
            Ok(shape) => {
                &&& encoded_shape(encoded@) == Ok::<(u32, u32, u8, u8), Seq<char>>(shape)
                &&& 1 <= shape.3 <= 4
                &&& shape.0 * shape.1 * shape.2 <= MAX_DECODED_BYTES
            },
            Err(text) => encoded_shape(encoded@) == Err::<(u32, u32, u8, u8), Seq<char>>(text@),
        },
{
    match image::load_from_memory(encoded) {
        Ok(whole) => {
            let color = whole.color();
            Ok((whole.width(), whole.height(), color.bytes_per_pixel(), color.channel_count()))
        },
        Err(error) => Err(error.to_string()),
    }
}

/// `image::load_from_memory`, then `DynamicImage::thumbnail` to a square of the
/// given edge and `into_rgba8`. What the first decodes, and the text of its
/// error, depend on the bytes alone; the second keeps within the square and
/// leaves no dimension empty; the last has four bytes for each pixel. The colours
/// are left to the name. The sums that `thumbnail` averages with have 32 bits: an
/// image with two bytes for a channel whose sums could overflow is left out. With
/// one byte the limit of 512 MiB on what is decoded keeps them small enough.
#[verifier::external_body]
fn scale_encoded(encoded: &[u8], edge: u32) -> (r: Result<Pixels, String>)
    requires
        256 <= edge <= 4096,
        encoded_shape(encoded@) matches Ok(shape) ==> averages(shape, edge),
    ensures
        match r {
            Ok(p) => {
                &&& encoded_scaled(encoded@, edge) == Ok::<(u32, u32, Seq<u8>), Seq<char>>(
                    pixels_model(p),
                )
                &&& 0 < p.width <= edge
                &&& 0 < p.height <= edge
                &&& p.rgba@.len() == 4 * p.width * p.height
            },
            Err(text) => encoded_scaled(encoded@, edge) == Err::<(u32, u32, Seq<u8>), Seq<char>>(
                text@,
            ),
        },
{
    match image::load_from_memory(encoded) {
        Ok(whole) => {
            let small = whole.thumbnail(edge, edge).into_rgba8();
            let (width, height) = small.dimensions();
            Ok(Pixels { width, height, rgba: small.into_raw() })
        },
        Err(error) => Err(error.to_string()),
    }
}

// ---------------------------------------------------------------------------
// Images whose sums do not fit
// ---------------------------------------------------------------------------

/// What `image` decodes with two bytes for a channel: the channels of the pixels,
/// line by line.
pub uninterp spec fn encoded_samples(encoded: Seq<u8>) -> Seq<u16>;

/// Something was decoded, with two bytes for a channel.
pub open spec fn decodes_deep(shape: Result<(u32, u32, u8, u8), Seq<char>>) -> bool {
    shape is Ok && is_deep(shape->Ok_0)
}

/// One sample for each channel of each pixel.
pub open spec fn sample_count(shape: (u32, u32, u8, u8)) -> int {
    shape.0 * shape.1 * shape.3
}

/// `image::load_from_memory`, and the samples of what it gives where a channel has
/// two bytes. There is one for each channel of each pixel; their values are left
/// to the name.
#[verifier::external_body]
fn samples_of(encoded: &[u8]) -> (r: Option<Vec<u16>>)
    ensures
        r is Some <==> decodes_deep(encoded_shape(encoded@)),
        r matches Some(samples) ==> samples@ == encoded_samples(encoded@),
        r matches Some(samples) ==> samples@.len() == sample_count(encoded_shape(encoded@)->Ok_0),
{
    match image::load_from_memory(encoded).ok()? {
        image::DynamicImage::ImageLuma16(whole) => Some(whole.into_raw()),
        image::DynamicImage::ImageLumaA16(whole) => Some(whole.into_raw()),
        image::DynamicImage::ImageRgb16(whole) => Some(whole.into_raw()),
        image::DynamicImage::ImageRgba16(whole) => Some(whole.into_raw()),
        _ => None,
    }
}

/// The size that `image` gives to an image that it scales to fit a square.
pub uninterp spec fn thumbnail_size(width: u32, height: u32, edge: u32) -> (u32, u32);

/// `image::DynamicImage::new_luma8`, then `thumbnail` to a square of the given
/// edge: the size of what it gives depends on the sizes alone and is left to the
/// name; it keeps within the square and leaves no dimension empty.
#[verifier::external_body]
fn size_within(width: u32, height: u32, edge: u32) -> (r: (u32, u32))
    requires
        256 <= edge <= 4096,
        width * height <= MAX_DECODED_BYTES,
    ensures
        r == thumbnail_size(width, height, edge),
        0 < r.0 <= edge,
        0 < r.1 <= edge,
{
    let small = image::DynamicImage::new_luma8(width, height).thumbnail(edge, edge);
    (small.width(), small.height())
}

/// What `image` makes of RGBA values of 32 bits that are scaled to a size.
pub uninterp spec fn wide_scaled(
    rgba: Seq<u32>,
    width: u32,
    height: u32,
    new_width: u32,
    new_height: u32,
) -> Seq<u32>;

/// `image::ImageBuffer::from_raw` of RGBA pixels with 32 bits for a channel, then
/// `image::imageops::thumbnail` to the given size. The first gives nothing exactly
/// where the values are fewer than four for each pixel, or those of a line cannot
/// be counted; the second has four values for each pixel. The colours are left to
/// the name. Its sums have 64 bits here; values of 16 bits keep its averages in
/// range.
#[verifier::external_body]
fn scale_wide(
    rgba: Vec<u32>,
    width: u32,
    height: u32,
    new_width: u32,
    new_height: u32,
) -> (r: Option<Vec<u32>>)
    requires
        0 < new_width <= 4096,
        0 < new_height <= 4096,
        rgba@.len() <= 4 * MAX_DECODED_BYTES,
        forall|i: int| 0 <= i < rgba@.len() ==> #[trigger] rgba@[i] <= 0xffff,
    ensures
        r is Some <==> pixels_fit(width, height, rgba@.len()),
        r matches Some(s) ==> s@ == wide_scaled(rgba@, width, height, new_width, new_height)
            && s@.len() == 4 * new_width * new_height,
{
    let whole: image::ImageBuffer<image::Rgba<u32>, Vec<u32>> =
        image::ImageBuffer::from_raw(width, height, rgba)?;
    Some(image::imageops::thumbnail(&whole, new_width, new_height).into_raw())
}

/// A channel of a pixel as RGBA has it: grey is all three colours, and a pixel
/// without an alpha channel is opaque.
pub open spec fn rgba_sample(samples: Seq<u16>, channels: int, pixel: int, channel: int) -> u32 {
    if channel == 3 {
        if channels == 2 || channels == 4 {
            samples[channels * pixel + channels - 1] as u32
        } else {
            0xffff
        }
    } else if channels <= 2 {
        samples[channels * pixel] as u32
    } else {
        samples[channels * pixel + channel] as u32
    }
}

/// Some pixels as RGBA.
pub open spec fn rgba_samples(samples: Seq<u16>, channels: int, pixels: nat) -> Seq<u32> {
    Seq::new(4 * pixels, |i: int| rgba_sample(samples, channels, i / 4, i % 4))
}

fn expand(samples: &Vec<u16>, channels: u8, pixels: usize) -> (r: Vec<u32>)
    requires
        1 <= channels <= 4,
        samples@.len() == pixels * channels,
    ensures
        r@ == rgba_samples(samples@, channels as int, pixels as nat),
        forall|i: int| 0 <= i < r@.len() ==> #[trigger] r@[i] <= 0xffff,
{
    let mut r: Vec<u32> = Vec::new();
    let c: usize = channels as usize;
    let n: usize = samples.len();
    let mut p: usize = 0;
    while p < pixels
        invariant
            p <= pixels,
            c == channels,
            1 <= c <= 4,
            samples@.len() == pixels * c,
            n == samples@.len(),
            r@ == rgba_samples(samples@, c as int, p as nat),
            forall|i: int| 0 <= i < r@.len() ==> #[trigger] r@[i] <= 0xffff,
        decreases pixels - p,
    {
        let ghost before = r@;
        assert(c * p + c <= pixels * c) by (nonlinear_arith)
            requires
                p < pixels,
                c >= 1,
        ;
        assert(c * p >= 0) by (nonlinear_arith)
            requires
                p >= 0,
                c >= 1,
        ;
        let at: usize = c * p;
        let (red, green, blue): (u32, u32, u32) = if c <= 2 {
            (samples[at] as u32, samples[at] as u32, samples[at] as u32)
        } else {
            (samples[at] as u32, samples[at + 1] as u32, samples[at + 2] as u32)
        };
        let alpha: u32 = if c == 2 || c == 4 {
            samples[at + c - 1] as u32
        } else {
            0xffff
        };
        r.push(red);
        r.push(green);
        r.push(blue);
        r.push(alpha);
        p = p + 1;
        proof {
            let after = rgba_samples(samples@, c as int, p as nat);
            assert(r@.len() == after.len());
            assert forall|i: int| 0 <= i < r@.len() implies r@[i] == after[i] by {
                if i < before.len() {
                    assert(r@[i] == before[i]);
                } else {
                    assert(i / 4 == p - 1 && i % 4 == i - 4 * (p - 1));
                }
            }
            assert(r@ =~= after);
        }
    }
    r
}

/// A value of 16 bits as the nearest of 8 bits.
pub open spec fn nearest_byte(v: u32) -> u8 {
    if v >= 0xffff {
        255
    } else {
        ((v + 128) / 257) as u8
    }
}

fn nearest_bytes(values: &Vec<u32>) -> (r: Vec<u8>)
    ensures
        r@ == values@.map_values(|v: u32| nearest_byte(v)),
{
    let mut r: Vec<u8> = Vec::new();
    let mut i: usize = 0;
    while i < values.len()
        invariant
            i <= values@.len(),
            r@ == values@.take(i as int).map_values(|v: u32| nearest_byte(v)),
        decreases values@.len() - i,
    {
        let v: u32 = values[i];
        r.push(
            if v >= 0xffff {
                255
            } else {
                ((v + 128) / 257) as u8
            },
        );
        i = i + 1;
        assert(r@ =~= values@.take(i as int).map_values(|v: u32| nearest_byte(v)));
    }
    assert(values@.take(i as int) =~= values@);
    r
}

/// The thumbnail of an image with two bytes for a channel, from its samples: its
/// pixels are averaged in more bits, then each channel gets the nearest byte.
pub open spec fn deep_scaled(shape: (u32, u32, u8, u8), samples: Seq<u16>, edge: u32) -> (
    u32,
    u32,
    Seq<u8>,
) {
    let (width, height) = thumbnail_size(shape.0, shape.1, edge);
    let wide = wide_scaled(
        rgba_samples(samples, shape.3 as int, (shape.0 * shape.1) as nat),
        shape.0,
        shape.1,
        width,
        height,
    );
    (width, height, wide.map_values(|v: u32| nearest_byte(v)))
}

/// The thumbnail of an image with two bytes for a channel, from its samples.
fn scale_deep(width: u32, height: u32, channels: u8, samples: Vec<u16>, edge: u32) -> (r: Option<
    Pixels,
>)
    requires
        256 <= edge <= 4096,
        1 <= channels <= 4,
        height > 0,
        2 * (width * height * channels) <= MAX_DECODED_BYTES,
        samples@.len() == width * height * channels,
    ensures
        r matches Some(p) && {
            &&& pixels_model(p) == deep_scaled(
                (width, height, (2 * channels) as u8, channels),
                samples@,
                edge,
            )
            &&& 0 < p.width <= edge
            &&& 0 < p.height <= edge
            &&& p.rgba@.len() == 4 * p.width * p.height
        },
{
    assert(width * height <= width * height * channels) by (nonlinear_arith)
        requires
            channels >= 1,
            width >= 0,
            height >= 0,
    ;
    assert(4 * width * height == 4 * (width * height)) by (nonlinear_arith);
    assert(width <= width * height) by (nonlinear_arith)
        requires
            height >= 1,
            width >= 0,
    ;
    let pixels: usize = width as usize * height as usize;
    let (new_width, new_height) = size_within(width, height, edge);
    let rgba: Vec<u32> = expand(&samples, channels, pixels);
    match scale_wide(rgba, width, height, new_width, new_height) {
        Some(wide) => Some(
            Pixels { width: new_width, height: new_height, rgba: nearest_bytes(&wide) },
        ),
        None => None,
    }
}

pub ghost struct PayloadModel {
    pub bytes: Seq<u8>,
    pub media_type: Option<Seq<char>>,
    pub width: Option<u32>,
    pub height: Option<u32>,
}

impl View for ImagePayload {
    type V = PayloadModel;

    open spec fn view(&self) -> PayloadModel {
        PayloadModel {
            bytes: self.bytes@,
            media_type: chars(self.media_type),
            width: self.width,
            height: self.height,
        }
    }
}

/// Pixels as the answer to a request for an image.
pub open spec fn payload(p: (u32, u32, Seq<u8>)) -> PayloadModel {
    PayloadModel {
        bytes: p.2,
        media_type: Some("image/x-rgba8"@),
        width: Some(p.0),
        height: Some(p.1),
    }
}

/// What an attempt at scaled pixels comes to.
pub open spec fn payload_result(r: Result<(u32, u32, Seq<u8>), Seq<char>>) -> Result<
    PayloadModel,
    HistoryFault,
> {
    match r {
        Ok(p) => Ok(payload(p)),
        Err(text) => Err(HistoryFault::InvalidPayload("cannot decode history image: "@ + text)),
    }
}

/// What a request for the thumbnail of an encoded image comes to, from what it
/// decodes to and what it is scaled to: `scaled` where its pixels can be averaged in
/// 32 bits, else from its samples.
pub open spec fn encoded_result(
    shape: Result<(u32, u32, u8, u8), Seq<char>>,
    scaled: Result<(u32, u32, Seq<u8>), Seq<char>>,
    samples: Seq<u16>,
) -> Result<PayloadModel, HistoryFault> {
    match shape {
        Err(text) => payload_result(Err(text)),
        Ok(shape) => if averages(shape, MAX_EDGE) {
            payload_result(scaled)
        } else {
            Ok(payload(deep_scaled(shape, samples, MAX_EDGE)))
        },
    }
}

/// What a request for the thumbnail of an image comes to. Raw pixels need their
/// dimensions and enough bytes; anything else is decoded.
pub open spec fn thumbnail_result(
    bytes: Seq<u8>,
    media_type: Option<Seq<char>>,
    width: Option<u32>,
    height: Option<u32>,
) -> Result<PayloadModel, HistoryFault> {
    if media_type != Some("image/x-rgba8"@) {
        encoded_result(
            encoded_shape(bytes),
            encoded_scaled(bytes, MAX_EDGE),
            encoded_samples(bytes),
        )
    } else if width is None || height is None {
        Err(HistoryFault::InvalidPayload("RGBA image is missing dimensions"@))
    } else if !pixels_fit(width->Some_0, height->Some_0, bytes.len()) {
        Err(HistoryFault::InvalidPayload("invalid RGBA image byte length"@))
    } else {
        Ok(payload(rgba_scaled(bytes, width->Some_0, height->Some_0, MAX_EDGE)))
    }
}

/// A payload that can be shown: four bytes for each pixel, no empty dimension,
/// none longer than a thumbnail's edge.
pub open spec fn sound_payload(p: PayloadModel) -> bool {
    &&& p.media_type == Some("image/x-rgba8"@)
    &&& p.width matches Some(w) && p.height matches Some(h) && 0 < w <= MAX_EDGE && 0 < h
        <= MAX_EDGE && p.bytes.len() == 4 * w * h
}

/// Scaled pixels as the answer to a request for an image, or the reason why
/// there are none.
pub fn decoded_payload(scaled: Result<Pixels, String>) -> (r: Result<ImagePayload, HistoryError>)
    ensures
        match (scaled, r) {
            (Ok(p), Ok(image)) => image@ == payload(pixels_model(p)),
            (Err(text), Err(error)) => error@ == HistoryFault::InvalidPayload(
                "cannot decode history image: "@ + text@,
            ),
            _ => false,
        },
{
    match scaled {
        Ok(p) => Ok(
            ImagePayload {
                bytes: p.rgba,
                media_type: Some("image/x-rgba8".to_owned()),
                width: Some(p.width),
                height: Some(p.height),
            },
        ),
        Err(text) => {
            let mut message: String = "cannot decode history image: ".to_owned();
            message.push_str(text.as_str());
            Err(HistoryError::InvalidPayload(message))
        },
    }
}

/// The thumbnail of an image.
pub fn thumbnail(
    bytes: Vec<u8>,
    media_type: Option<String>,
    width: Option<u32>,
    height: Option<u32>,
) -> (r: Result<ImagePayload, HistoryError>)
    requires
        bytes@.len() <= MAX_COLUMN_BYTES,
    ensures
        match r {
            Ok(image) => {
                &&& thumbnail_result(bytes@, chars(media_type), width, height) == Ok::<
                    PayloadModel,
                    HistoryFault,
                >(image@)
                &&& sound_payload(image@)
            },
            Err(error) => thumbnail_result(bytes@, chars(media_type), width, height) == Err::<
                PayloadModel,
                HistoryFault,
            >(error@),
        },
{
    let raw: bool = match &media_type {
        Some(media_type) => same_text(media_type.as_str(), "image/x-rgba8"),
        None => false,
    };
    if !raw {
        return match shape_of(bytes.as_slice()) {
            Err(text) => decoded_payload(Err(text)),
            Ok((width, height, bytes_per_pixel, channels)) => {
                if can_average(width, height, bytes_per_pixel, channels, MAX_EDGE) {
                    return decoded_payload(scale_encoded(bytes.as_slice(), MAX_EDGE));
                }
                proof {
                    lemma_has_lines(width, height, MAX_EDGE);
                    assert(width * height * bytes_per_pixel == 2 * (width * height * channels))
                        by (nonlinear_arith)
                        requires
                            bytes_per_pixel == 2 * channels,
                    ;
                }
                let scaled: Option<Pixels> = match samples_of(bytes.as_slice()) {
                    Some(samples) => scale_deep(width, height, channels, samples, MAX_EDGE),
                    None => None,
                };
                match scaled {
                    Some(pixels) => decoded_payload(Ok(pixels)),
                    None => decoded_payload(Err(String::new())),
                }
            },
        };
    }
    match (width, height) {
        (Some(width), Some(height)) => match scale_rgba(bytes, width, height, MAX_EDGE) {
            Some(pixels) => decoded_payload(Ok(pixels)),
            None => Err(
                HistoryError::InvalidPayload("invalid RGBA image byte length".to_owned()),
            ),
        },
        _ => Err(HistoryError::InvalidPayload("RGBA image is missing dimensions".to_owned())),
    }
}

// ---------------------------------------------------------------------------
// Errors in words
// ---------------------------------------------------------------------------

/// What is said of a fault.
pub open spec fn fault_text(f: HistoryFault) -> Seq<char> {
    match f {
        HistoryFault::Database(text) => "clipboard history database error: "@ + text,
        HistoryFault::InvalidPayload(text) => "invalid clipboard history payload: "@ + text,
        HistoryFault::CorruptData(text) => "clipboard history database contains invalid data: "@
            + text,
        HistoryFault::EventConflict(id) => {
            "history event identity collision for HistoryEventId { origin_device_id: "@
                + debug_text(id.device) + ", origin_sequence: "@ + decimal(id.sequence as nat)
                + " }"@
        },
        HistoryFault::ClearOperationConflict(op) => "clear operation "@ + debug_text(op)
            + " was reused with a different boundary"@,
        HistoryFault::InvalidClock => "system clock is before the Unix epoch"@,
    }
}

impl HistoryError {
    /// What is said of the error.
    pub fn to_text(&self) -> (s: String)
        ensures
            s@ == fault_text(self@),
    {
        let mut s: String = String::new();
        assert(s@ =~= Seq::<char>::empty());
        let ghost none = s@;
        match self {
            HistoryError::Database(text) => {
                s.push_str("clipboard history database error: ");
                s.push_str(text.as_str());
            },
            HistoryError::InvalidPayload(text) => {
                s.push_str("invalid clipboard history payload: ");
                s.push_str(text.as_str());
            },
            HistoryError::CorruptData(text) => {
                s.push_str("clipboard history database contains invalid data: ");
                s.push_str(text.as_str());
            },
            HistoryError::EventConflict(id) => {
                s.push_str(
                    "history event identity collision for HistoryEventId { origin_device_id: ",
                );
                s.push_str(debug_of(id.origin_device_id.as_str()).as_str());
                s.push_str(", origin_sequence: ");
                push_decimal(&mut s, id.origin_sequence);
                s.push_str(" }");
            },
            HistoryError::ClearOperationConflict(op) => {
                s.push_str("clear operation ");
                s.push_str(debug_of(op.as_str()).as_str());
                s.push_str(" was reused with a different boundary");
            },
            HistoryError::InvalidClock => {
                s.push_str("system clock is before the Unix epoch");
            },
        }
        assert(s@ =~= fault_text(self@));
        s
    }
}

/// The time of an event, from the milliseconds since the Unix epoch; nothing
/// stands for a clock before it.
pub open spec fn timestamp_of(elapsed_ms: Option<u128>) -> Result<i64, HistoryFault> {
    match elapsed_ms {
        None => Err(HistoryFault::InvalidClock),
        Some(ms) => if ms > i64::MAX as u128 {
            Err(HistoryFault::InvalidPayload("timestamp exceeds SQLite INTEGER"@))
        } else {
            Ok(ms as i64)
        },
    }
}

/// The time of an event, from the milliseconds since the Unix epoch; nothing
/// stands for a clock before it.
pub fn timestamp(elapsed_ms: Option<u128>) -> (r: Result<i64, HistoryError>)
    ensures
        match r {
            Ok(now) => timestamp_of(elapsed_ms) == Ok::<i64, HistoryFault>(now),
            Err(error) => timestamp_of(elapsed_ms) == Err::<i64, HistoryFault>(error@),
        },
{
    match elapsed_ms {
        None => Err(HistoryError::InvalidClock),
        Some(ms) => if ms > 0x7fff_ffff_ffff_ffff {
            Err(HistoryError::InvalidPayload("timestamp exceeds SQLite INTEGER".to_owned()))
        } else {
            Ok(ms as i64)
        },
    }
}

// ---------------------------------------------------------------------------
// Commands
// ---------------------------------------------------------------------------

/// What the daemon asks of the history. Where something is recorded, `clock` is
/// the time in milliseconds since the Unix epoch, nothing before it, and
/// `files_json` the spelling of the files in the database.
#[derive(Debug)]
pub enum Command {
    /// Records a copy of this device, or one observed from a peer whose frame
    /// does not carry a durable event identity.
    Record {
        device_id: Option<String>,
        label: Option<String>,
        content: HistoryContent,
        clock: Option<u128>,
        files_json: Option<String>,
    },
    /// Records a copy of this device and returns the event, ready for export.
    RecordEvent { content: HistoryContent, clock: Option<u128>, files_json: Option<String> },
    Import { event: ImportedHistoryEvent, files_json: Option<String> },
    Export { offset: u64, limit: usize },
    Page { query: String, offset: u64, limit: usize },
    Image { event_id: HistoryEventId },
    Pin { event_id: HistoryEventId, pinned: bool },
    SnapshotBoundary,
    ApplyClear { operation_id: String, boundary: ClearBoundary },
}

/// The answer to a command.
#[derive(Debug)]
pub enum Reply {
    Recorded(Result<HistoryEventId, HistoryError>),
    RecordedEvent(Result<ImportedHistoryEvent, HistoryError>),
    Imported(Result<MergeOutcome, HistoryError>),
    Exported(Result<(Vec<ImportedHistoryEvent>, Option<u64>), HistoryError>),
    Page(Result<HistoryPage, HistoryError>),
    Image(Result<Option<ImagePayload>, HistoryError>),
    Pinned(Result<bool, HistoryError>),
    Boundary(ClearBoundary),
    Cleared(Result<usize, HistoryError>),
}

/// The history of one device, and the number of times that what is shown of it
/// has changed.
#[derive(Debug)]
pub struct HistoryWorker {
    store: HistoryStore,
    local_device_id: String,
    local_label: Option<String>,
    revision: u64,
}

pub ghost struct WorkerModel {
    pub store: StoreModel,
    pub device: Seq<char>,
    pub label: Option<Seq<char>>,
    pub revision: u64,
}

impl View for HistoryWorker {
    type V = WorkerModel;

    closed spec fn view(&self) -> WorkerModel {
        WorkerModel {
            store: self.store@,
            device: self.local_device_id@,
            label: chars(self.local_label),
            revision: self.revision,
        }
    }
}

/// The number after `revision`; after the largest comes 0.
pub open spec fn following(revision: u64) -> u64 {
    if revision == u64::MAX {
        0
    } else {
        (revision + 1) as u64
    }
}

impl WorkerModel {
    /// The worker with another store; what is shown has changed.
    pub open spec fn with(self, store: StoreModel) -> WorkerModel {
        WorkerModel { store, revision: following(self.revision), ..self }
    }

    /// A new event of a device, under a sequence.
    pub open spec fn event(
        self,
        device: Seq<char>,
        sequence: u64,
        now: i64,
        label: Option<Seq<char>>,
        content: ContentModel,
    ) -> EventModel {
        EventModel {
            id: EventIdModel { device, sequence },
            created_at_ms: now,
            label,
            content,
        }
    }

    /// Why a new event of a device is refused: its device, its exhausted
    /// sequence, the clock, or the event itself, in this order.
    pub open spec fn record_fault(
        self,
        device: Seq<char>,
        label: Option<Seq<char>>,
        content: ContentModel,
        clock: Option<u128>,
        fault: HistoryFault,
    ) -> bool {
        let device_fault = text_fault("origin device id"@, device, MAX_DEVICE_ID_BYTES);
        if device_fault is Some {
            device_fault == Some(fault)
        } else if self.store.is_highest(device, MAX_SEQUENCE) {
            fault == HistoryFault::InvalidPayload("origin sequence exhausted SQLite INTEGER"@)
        } else if timestamp_of(clock) is Err {
            fault == timestamp_of(clock)->Err_0
        } else {
            exists|n: u64| #[trigger]
                self.store.is_highest(device, n) && n < MAX_SEQUENCE && event_fault(
                    self.event(device, (n + 1) as u64, timestamp_of(clock)->Ok_0, label, content),
                ) == Some(fault)
        }
    }

    /// The event that was recorded: the next one of its device.
    pub open spec fn records(
        self,
        device: Seq<char>,
        label: Option<Seq<char>>,
        content: ContentModel,
        clock: Option<u128>,
        json: Option<Seq<char>>,
        e: EventModel,
        after: WorkerModel,
    ) -> bool {
        &&& text_fault("origin device id"@, device, MAX_DEVICE_ID_BYTES) is None
        &&& timestamp_of(clock) is Ok
        &&& 0 < e.id.sequence <= MAX_SEQUENCE
        &&& self.store.is_highest(device, (e.id.sequence - 1) as u64)
        &&& e == self.event(device, e.id.sequence, timestamp_of(clock)->Ok_0, label, content)
        &&& self.store.merged(e, json) is Ok
        &&& self.store.merged(e, json)->Ok_0.0 is Inserted
        &&& after == self.with(self.store.merged(e, json)->Ok_0.1)
    }

    /// The device of a copy, and its label: those that were given, or those of
    /// this device.
    pub open spec fn device_or_own(self, device: Option<Seq<char>>) -> Seq<char> {
        match device {
            Some(device) => device,
            None => self.device,
        }
    }

    pub open spec fn label_or_own(self, label: Option<Seq<char>>) -> Option<Seq<char>> {
        match label {
            Some(_) => label,
            None => self.label,
        }
    }

    /// What importing an event comes to. What is shown changes only where the
    /// event is new.
    pub open spec fn imports(
        self,
        e: EventModel,
        json: Option<Seq<char>>,
        r: Result<MergeOutcome, HistoryError>,
        after: WorkerModel,
    ) -> bool {
        match r {
            Ok(outcome) => {
                &&& self.store.merged(e, json) is Ok
                &&& self.store.merged(e, json)->Ok_0.0 == outcome
                &&& after == (if outcome is Inserted {
                    self.with(self.store.merged(e, json)->Ok_0.1)
                } else {
                    self
                })
            },
            Err(error) => {
                &&& self.store.merged(e, json) == Err::<(MergeOutcome, StoreModel), HistoryFault>(
                    error@,
                )
                &&& after == self
            },
        }
    }

    /// A part of the list, and where the next one starts.
    pub open spec fn shows(
        self,
        query: Seq<char>,
        offset: u64,
        limit: usize,
        records: Seq<SummaryModel>,
        next: Option<u64>,
    ) -> bool {
        exists|all: Seq<RecordModel>|
            {
                let start = page_start(all.len() as int, offset as int);
                let end = page_end(all.len() as int, offset as int, limit as int);
                &&& #[trigger] self.store.is_listing(query, all)
                &&& records == Seq::new((end - start) as nat, |i: int| summary(all[start + i]))
                &&& next == page_next(all.len() as int, offset as int, limit as int)
            }
    }

    pub open spec fn exports(
        self,
        offset: u64,
        limit: usize,
        events: Seq<EventModel>,
        next: Option<u64>,
    ) -> bool {
        exists|all: Seq<RecordModel>|
            {
                let start = page_start(all.len() as int, offset as int);
                let end = page_end(all.len() as int, offset as int, limit as int);
                &&& #[trigger] self.store.is_listing(Seq::empty(), all)
                &&& events == Seq::new((end - start) as nat, |i: int| all[start + i].event)
                &&& next == page_next(all.len() as int, offset as int, limit as int)
            }
    }

    /// What a request for the image of an event comes to: the thumbnail of a
    /// shown event that holds one.
    pub open spec fn image_result(self, id: EventIdModel) -> Result<
        Option<PayloadModel>,
        HistoryFault,
    > {
        let k: EventKey = (id.device, id.sequence);
        if sequence_fault(id.sequence) is Some {
            Err(sequence_fault(id.sequence)->Some_0)
        } else if !self.store.visible(k) {
            Ok(None)
        } else if self.store.row_fault(k) is Some {
            Err(self.store.row_fault(k)->Some_0)
        } else {
            match self.store.record(k).event.content {
                ContentModel::Image { bytes: Some(bytes), media_type, width, height } => {
                    match thumbnail_result(bytes, media_type, width, height) {
                        Ok(payload) => Ok(Some(payload)),
                        Err(fault) => Err(fault),
                    }
                },
                _ => Ok(None),
            }
        }
    }

    /// Why a pin cannot be changed: the event cannot be had.
    pub open spec fn pin_fault(self, id: EventIdModel) -> Option<HistoryFault> {
        self.store.get_fault((id.device, id.sequence))
    }

    /// Whether a pin changes: the event is shown and its pin is another.
    pub open spec fn repins(self, id: EventIdModel, pinned: bool) -> bool {
        let k: EventKey = (id.device, id.sequence);
        self.store.visible(k) && self.store.events[k].pinned != pinned
    }

    /// The worker after the pin of a shown event changed.
    pub open spec fn pinning(self, id: EventIdModel, pinned: bool) -> WorkerModel {
        let k: EventKey = (id.device, id.sequence);
        if self.repins(id, pinned) {
            self.with(
                StoreModel {
                    events: self.store.events.insert(
                        k,
                        RowModel { pinned, ..self.store.events[k] },
                    ),
                    ..self.store
                },
            )
        } else {
            self
        }
    }

    /// The worker after a clear: what is shown changes where the clear is new
    /// and dismisses anything.
    pub open spec fn clearing(self, op: Seq<char>, boundary: Map<Seq<char>, u64>) -> WorkerModel {
        let (store, affected) = self.store.cleared(op, boundary);
        if affected != 0 && !self.store.operations.contains_key(op) {
            self.with(store)
        } else {
            WorkerModel { store, ..self }
        }
    }

    /// The answer to a command, and the worker after it.
    pub open spec fn answers(self, c: Command, r: Reply, after: WorkerModel) -> bool {
        match (c, r) {
            (
                Command::Record { device_id, label, content, clock, files_json },
                Reply::Recorded(r),
            ) => {
                let device = self.device_or_own(chars(device_id));
                let label = self.label_or_own(chars(label));
                match r {
                    Ok(id) => exists|e: EventModel|
                        e.id == id@ && #[trigger] self.records(
                            device,
                            label,
                            content@,
                            clock,
                            chars(files_json),
                            e,
                            after,
                        ),
                    Err(error) => self.record_fault(device, label, content@, clock, error@)
                        && after == self,
                }
            },
            (Command::RecordEvent { content, clock, files_json }, Reply::RecordedEvent(r)) => {
                match r {
                    Ok(e) => self.records(
                        self.device,
                        self.label,
                        content@,
                        clock,
                        chars(files_json),
                        e@,
                        after,
                    ),
                    Err(error) => self.record_fault(
                        self.device,
                        self.label,
                        content@,
                        clock,
                        error@,
                    ) && after == self,
                }
            },
            (Command::Import { event, files_json }, Reply::Imported(r)) => self.imports(
                event@,
                chars(files_json),
                r,
                after,
            ),
            (Command::Export { offset, limit }, Reply::Exported(r)) => after == self && match r {
                Ok((events, next)) => self.exports(offset, limit, events_of(events@), next),
                Err(error) => self.store.fails(Seq::empty(), error@),
            },
            (Command::Page { query, offset, limit }, Reply::Page(r)) => after == self && match r {
                Ok(page) => self.shows(
                    query@,
                    offset,
                    limit,
                    summaries_of(page.records@),
                    page.next_offset,
                ),
                Err(error) => self.store.fails(query@, error@),
            },
            (Command::Image { event_id }, Reply::Image(r)) => image_answer(
                self.image_result(event_id@),
                r,
            ) && after == self,
            (Command::Pin { event_id, pinned }, Reply::Pinned(r)) => match r {
                Ok(changed) => {
                    &&& self.pin_fault(event_id@) is None
                    &&& changed == self.repins(event_id@, pinned)
                    &&& after == self.pinning(event_id@, pinned)
                },
                Err(error) => self.pin_fault(event_id@) == Some(error@) && after == self,
            },
            (Command::SnapshotBoundary, Reply::Boundary(boundary)) => is_snapshot(
                self.store,
                boundary@,
            ) && after == self,
            (Command::ApplyClear { operation_id, boundary }, Reply::Cleared(r)) => match r {
                Ok(affected) => {
                    &&& self.store.clear_fault(operation_id@, boundary@) is None
                    &&& affected as nat == self.store.cleared(operation_id@, boundary@).1
                    &&& after == self.clearing(operation_id@, boundary@)
                },
                Err(error) => self.store.clear_fault(operation_id@, boundary@) == Some(error@)
                    && after == self,
            },
            _ => false,
        }
    }
}

/// The highest retained sequence of every origin.
pub open spec fn is_snapshot(m: StoreModel, b: Map<Seq<char>, u64>) -> bool {
    &&& forall|d: Seq<char>| #[trigger]
        b.contains_key(d) <==> exists|k: EventKey| #[trigger] m.events.contains_key(k) && k.0 == d
    &&& forall|d: Seq<char>| #[trigger] b.contains_key(d) ==> m.events.contains_key((d, b[d]))
    &&& forall|k: EventKey| #[trigger] m.events.contains_key(k) ==> k.1 <= b[k.0]
}

pub open spec fn image_answer(
    expected: Result<Option<PayloadModel>, HistoryFault>,
    r: Result<Option<ImagePayload>, HistoryError>,
) -> bool {
    match r {
        Ok(Some(image)) => expected == Ok::<Option<PayloadModel>, HistoryFault>(Some(image@))
            && sound_payload(image@),
        Ok(None) => expected == Ok::<Option<PayloadModel>, HistoryFault>(None),
        Err(error) => expected == Err::<Option<PayloadModel>, HistoryFault>(error@),
    }
}

impl HistoryWorker {
    /// A worker on a store, for the device and under the label that are given.
    pub fn start(
        store: HistoryStore,
        local_device_id: String,
        local_label: Option<String>,
    ) -> (w: HistoryWorker)
        ensures
            w@ == (WorkerModel {
                store: store@,
                device: local_device_id@,
                label: chars(local_label),
                revision: 0,
            }),
    {
        HistoryWorker { store, local_device_id, local_label, revision: 0 }
    }

    /// The events themselves.
    pub fn store(&self) -> (s: &HistoryStore)
        ensures
            s@ == self@.store,
    {
        &self.store
    }

    /// The identity of this device.
    pub fn local_device_id(&self) -> (s: &str)
        ensures
            s@ == self@.device,
    {
        self.local_device_id.as_str()
    }

    /// How many times what is shown has changed, modulo the size of the number.
    pub fn revision(&self) -> (n: u64)
        ensures
            n == self@.revision,
    {
        self.revision
    }

    fn mark_changed(&mut self)
        ensures
            final(self)@ == old(self)@.with(old(self)@.store),
    {
        self.revision = if self.revision == u64::MAX {
            0
        } else {
            self.revision + 1
        };
    }

    /// Records a copy, of this device where no other is named, under the next
    /// sequence of its device.
    fn record_new(
        &mut self,
        device: String,
        label: Option<String>,
        content: HistoryContent,
        clock: Option<u128>,
        files_json: Option<String>,
    ) -> (r: Result<ImportedHistoryEvent, HistoryError>)
        ensures
            match r {
                Ok(e) => old(self)@.records(
                    device@,
                    chars(label),
                    content@,
                    clock,
                    chars(files_json),
                    e@,
                    final(self)@,
                ),
                Err(error) => old(self)@.record_fault(
                    device@,
                    chars(label),
                    content@,
                    clock,
                    error@,
                ) && final(self)@ == old(self)@,
            },
    {
        let ghost m = self@;
        let sequence: u64 = match self.store.next_sequence(device.as_str()) {
            Ok(sequence) => sequence,
            Err(error) => {
                return Err(error);
            },
        };
        proof {
            assert(m.store.is_highest(device@, (sequence - 1) as u64));
            if m.store.is_highest(device@, MAX_SEQUENCE) {
                lemma_highest_is_one(m.store, device@, (sequence - 1) as u64, MAX_SEQUENCE);
            }
        }
        let now: i64 = match timestamp(clock) {
            Ok(now) => now,
            Err(error) => {
                return Err(error);
            },
        };
        let event: ImportedHistoryEvent = ImportedHistoryEvent {
            event_id: HistoryEventId { origin_device_id: device.clone(), origin_sequence: sequence },
            created_at_ms: now,
            origin_label: copy_text(&label),
            content: content.copy(),
        };
        let origin: HistoryOrigin = HistoryOrigin { device_id: device, sequence, label };
        let kind: HistoryKind = content.kind();
        let ghost e = event@;
        let ghost json = chars(files_json);
        assert(e == m.event(device@, sequence, now, chars(label), content@));
        proof {
            if event_fault(e) is None {
                crate::history::laws::law_next_sequence_is_fresh(
                    m.store,
                    (sequence - 1) as u64,
                    e,
                    json,
                );
            } else {
                assert(m.store.merged(e, json) == Err::<(MergeOutcome, StoreModel), HistoryFault>(
                    event_fault(e)->Some_0,
                ));
                assert(((sequence - 1) as u64 + 1) as u64 == sequence);
            }
        }
        match self.store.record(kind, content, origin, now, files_json) {
            Ok(_) => {
                self.mark_changed();
                Ok(event)
            },
            Err(error) => Err(error),
        }
    }

    /// Records a copy of this device.
    pub fn record(
        &mut self,
        content: HistoryContent,
        clock: Option<u128>,
        files_json: Option<String>,
    ) -> (r: Result<HistoryEventId, HistoryError>)
        ensures
            old(self)@.answers(
                Command::Record { device_id: None, label: None, content, clock, files_json },
                Reply::Recorded(r),
                final(self)@,
            ),
    {
        self.record_copy(None, None, content, clock, files_json)
    }

    /// Records content observed from an authenticated peer whose clipboard
    /// frame does not carry a durable event identity.
    pub fn record_observed(
        &mut self,
        device_id: String,
        label: Option<String>,
        content: HistoryContent,
        clock: Option<u128>,
        files_json: Option<String>,
    ) -> (r: Result<HistoryEventId, HistoryError>)
        ensures
            old(self)@.answers(
                Command::Record { device_id: Some(device_id), label, content, clock, files_json },
                Reply::Recorded(r),
                final(self)@,
            ),
    {
        self.record_copy(Some(device_id), label, content, clock, files_json)
    }

    fn record_copy(
        &mut self,
        device_id: Option<String>,
        label: Option<String>,
        content: HistoryContent,
        clock: Option<u128>,
        files_json: Option<String>,
    ) -> (r: Result<HistoryEventId, HistoryError>)
        ensures
            old(self)@.answers(
                Command::Record { device_id, label, content, clock, files_json },
                Reply::Recorded(r),
                final(self)@,
            ),
    {
        let ghost m = self@;
        let ghost given_device = device_id;
        let ghost given_label = label;
        let device: String = match device_id {
            Some(device) => device,
            None => self.local_device_id.clone(),
        };
        let label: Option<String> = match label {
            Some(label) => Some(label),
            None => copy_text(&self.local_label),
        };
        match self.record_new(device, label, content, clock, files_json) {
            Ok(event) => {
                let ghost e = event@;
                assert(e.id == event.event_id@);
                assert(m.records(
                    m.device_or_own(chars(given_device)),
                    m.label_or_own(chars(given_label)),
                    content@,
                    clock,
                    chars(files_json),
                    e,
                    self@,
                ));
                Ok(event.event_id)
            },
            Err(error) => Err(error),
        }
    }

    /// Records a copy of this device and returns the immutable event, ready for
    /// export to a peer.
    pub fn record_event(
        &mut self,
        content: HistoryContent,
        clock: Option<u128>,
        files_json: Option<String>,
    ) -> (r: Result<ImportedHistoryEvent, HistoryError>)
        ensures
            old(self)@.answers(
                Command::RecordEvent { content, clock, files_json },
                Reply::RecordedEvent(r),
                final(self)@,
            ),
    {
        let device: String = self.local_device_id.clone();
        let label: Option<String> = copy_text(&self.local_label);
        self.record_new(device, label, content, clock, files_json)
    }

    /// Merges an event of a peer.
    pub fn import(&mut self, event: ImportedHistoryEvent, files_json: Option<String>) -> (r: Result<
        MergeOutcome,
        HistoryError,
    >)
        ensures
            old(self)@.imports(event@, chars(files_json), r, final(self)@),
    {
        let outcome: MergeOutcome = match self.store.merge_imported(event, files_json) {
            Ok(outcome) => outcome,
            Err(error) => {
                return Err(error);
            },
        };
        if outcome == MergeOutcome::Inserted {
            self.mark_changed();
        }
        Ok(outcome)
    }

    /// A part of the history for a peer.
    pub fn export(&self, offset: u64, limit: usize) -> (r: Result<
        (Vec<ImportedHistoryEvent>, Option<u64>),
        HistoryError,
    >)
        ensures
            match r {
                Ok((events, next)) => self@.exports(offset, limit, events_of(events@), next),
                Err(error) => self@.store.fails(Seq::empty(), error@),
            },
    {
        let (events, next) = match self.store.export_page(offset, limit) {
            Ok(page) => page,
            Err(error) => {
                return Err(error);
            },
        };
        proof {
            let all = choose|all: Seq<RecordModel>|
                {
                    let start = page_start(all.len() as int, offset as int);
                    let end = page_end(all.len() as int, offset as int, limit as int);
                    &&& #[trigger] self@.store.is_listing(Seq::empty(), all)
                    &&& events_of(events@) == Seq::new(
                        (end - start) as nat,
                        |i: int| all[start + i].event,
                    )
                    &&& next == page_next(all.len() as int, offset as int, limit as int)
                };
            let start = page_start(all.len() as int, offset as int);
            let end = page_end(all.len() as int, offset as int, limit as int);
            assert(self@.store.is_listing(Seq::empty(), all));
            assert(events_of(events@) =~= Seq::new(
                (end - start) as nat,
                |i: int| all[start + i].event,
            ));
        }
        Ok((events, next))
    }

    /// A part of the list of what a search finds.
    pub fn page(&self, query: &str, offset: u64, limit: usize) -> (r: Result<
        HistoryPage,
        HistoryError,
    >)
        ensures
            match r {
                Ok(page) => self@.shows(
                    query@,
                    offset,
                    limit,
                    summaries_of(page.records@),
                    page.next_offset,
                ),
                Err(error) => self@.store.fails(query@, error@),
            },
    {
        let (found, next_offset) = match self.store.page(query, offset, limit) {
            Ok(page) => page,
            Err(error) => {
                return Err(error);
            },
        };
        let ghost models = crate::history::store::records_of(found@);
        let ghost all = choose|all: Seq<RecordModel>|
            {
                &&& #[trigger] self@.store.is_listing(query@, all)
                &&& models == all.subrange(
                    page_start(all.len() as int, offset as int),
                    page_end(all.len() as int, offset as int, limit as int),
                )
                &&& next_offset == page_next(all.len() as int, offset as int, limit as int)
            };
        let mut records: Vec<HistorySummary> = Vec::new();
        for record in it: found
            invariant
                it.seq() == found@,
                models == crate::history::store::records_of(found@),
                summaries_of(records@) == Seq::new(
                    it.index() as nat,
                    |i: int| summary(models[i]),
                ),
        {
            let ghost before = summaries_of(records@);
            let one: HistorySummary = summarize(record);
            assert(one@ == summary(models[it.index() as int]));
            records.push(one);
            assert(summaries_of(records@) =~= before.push(one@));
            assert(summaries_of(records@) =~= Seq::new(
                (it.index() + 1) as nat,
                |i: int| summary(models[i]),
            ));
        }
        proof {
            let start = page_start(all.len() as int, offset as int);
            let end = page_end(all.len() as int, offset as int, limit as int);
            assert(models.len() == end - start);
            assert forall|i: int| 0 <= i < end - start implies models[i] == all[start + i] by {}
            assert(summaries_of(records@) =~= Seq::new(
                (end - start) as nat,
                |i: int| summary(all[start + i]),
            ));
        }
        Ok(HistoryPage { records, next_offset })
    }

    /// The thumbnail of an event.
    pub fn image(&self, event_id: &HistoryEventId) -> (r: Result<
        Option<ImagePayload>,
        HistoryError,
    >)
        ensures
            image_answer(self@.image_result(event_id@), r),
    {
        let found: Option<HistoryRecord> = match self.store.get(event_id) {
            Ok(found) => found,
            Err(error) => {
                return Err(error);
            },
        };
        match found {
            Some(record) => match record.content {
                HistoryContent::Image { bytes: Some(bytes), media_type, width, height } => {
                    match thumbnail(bytes, media_type, width, height) {
                        Ok(image) => Ok(Some(image)),
                        Err(error) => Err(error),
                    }
                },
                _ => Ok(None),
            },
            None => Ok(None),
        }
    }

    /// Pins or unpins an event; `false` where nothing changes.
    pub fn set_pinned(&mut self, event_id: &HistoryEventId, pinned: bool) -> (r: Result<
        bool,
        HistoryError,
    >)
        ensures
            match r {
                Ok(changed) => {
                    &&& old(self)@.pin_fault(event_id@) is None
                    &&& changed == old(self)@.repins(event_id@, pinned)
                    &&& final(self)@ == old(self)@.pinning(event_id@, pinned)
                },
                Err(error) => old(self)@.pin_fault(event_id@) == Some(error@) && final(self)@
                    == old(self)@,
            },
    {
        let found: Option<HistoryRecord> = match self.store.get(event_id) {
            Ok(found) => found,
            Err(error) => {
                return Err(error);
            },
        };
        match found {
            Some(record) => {
                if record.pinned == pinned {
                    return Ok(false);
                }
            },
            None => {
                return Ok(false);
            },
        }
        match self.store.set_pinned(event_id, pinned) {
            Ok(updated) => {
                if updated {
                    self.mark_changed();
                }
                Ok(updated)
            },
            Err(error) => Err(error),
        }
    }

    /// The highest retained sequence of every origin.
    pub fn snapshot_boundary(&self) -> (b: ClearBoundary)
        ensures
            is_snapshot(self@.store, b@),
    {
        self.store.snapshot_boundary()
    }

    /// Applies a clear. Repeated, it returns the original count without
    /// changing what is shown.
    pub fn apply_clear(&mut self, operation_id: &str, boundary: &ClearBoundary) -> (r: Result<
        usize,
        HistoryError,
    >)
        ensures
            match r {
                Ok(affected) => {
                    &&& old(self)@.store.clear_fault(operation_id@, boundary@) is None
                    &&& affected as nat == old(self)@.store.cleared(operation_id@, boundary@).1
                    &&& final(self)@ == old(self)@.clearing(operation_id@, boundary@)
                },
                Err(error) => {
                    &&& old(self)@.store.clear_fault(operation_id@, boundary@) == Some(error@)
                    &&& final(self)@ == old(self)@
                },
            },
    {
        let repeated: bool = self.store.knows_operation(operation_id);
        match self.store.clear_unpinned_through(operation_id, boundary) {
            Ok(affected) => {
                if affected != 0 && !repeated {
                    self.mark_changed();
                }
                Ok(affected)
            },
            Err(error) => Err(error),
        }
    }

    /// Answers a command.
    pub fn handle_command(&mut self, command: Command) -> (reply: Reply)
        ensures
            old(self)@.answers(command, reply, final(self)@),
    {
        match command {
            Command::Record { device_id, label, content, clock, files_json } => Reply::Recorded(
                self.record_copy(device_id, label, content, clock, files_json),
            ),
            Command::RecordEvent { content, clock, files_json } => Reply::RecordedEvent(
                self.record_event(content, clock, files_json),
            ),
            Command::Import { event, files_json } => Reply::Imported(
                self.import(event, files_json),
            ),
            Command::Export { offset, limit } => Reply::Exported(self.export(offset, limit)),
            Command::Page { query, offset, limit } => Reply::Page(
                self.page(query.as_str(), offset, limit),
            ),
            Command::Image { event_id } => Reply::Image(self.image(&event_id)),
            Command::Pin { event_id, pinned } => Reply::Pinned(self.set_pinned(&event_id, pinned)),
            Command::SnapshotBoundary => Reply::Boundary(self.snapshot_boundary()),
            Command::ApplyClear { operation_id, boundary } => Reply::Cleared(
                self.apply_clear(operation_id.as_str(), &boundary),
            ),
        }
    }
}

/// There is one highest sequence.
proof fn lemma_highest_is_one(m: StoreModel, device: Seq<char>, a: u64, b: u64)
    requires
        m.is_highest(device, a),
        m.is_highest(device, b),
    ensures
        a == b,
{
    if a < b {
        crate::history::laws::law_sequences_never_rewind(m, m, device, b, a);
    } else if b < a {
        crate::history::laws::law_sequences_never_rewind(m, m, device, a, b);
    }
}

/// What is shown changes only where the revision does: after a command that
/// leaves the revision alone, every search lists what it listed before, or fails
/// as it failed before.
pub proof fn law_same_revision_same_list(
    w: WorkerModel,
    c: Command,
    r: Reply,
    after: WorkerModel,
    query: Seq<char>,
    all: Seq<RecordModel>,
    fault: HistoryFault,
)
    requires
        w.store.events.dom().finite(),
        w.answers(c, r, after),
        after.revision == w.revision,
    ensures
        w.store.is_listing(query, all) <==> after.store.is_listing(query, all),
        w.store.fails(query, fault) <==> after.store.fails(query, fault),
{
    assert(after.store.events =~= w.store.events) by {
        match (c, r) {
            (Command::ApplyClear { operation_id, boundary }, Reply::Cleared(Ok(affected))) => {
                let m = w.store;
                let op = operation_id@;
                if !m.operations.contains_key(op) {
                    let chosen = |k: EventKey| m.dismissable(boundary@, k);
                    let reached = m.events.dom().filter(chosen);
                    assert(m.cleared(op, boundary@).1 == reached.len());
                    assert(after == w.clearing(op, boundary@));
                    assert(reached.len() == 0);
                    assert forall|k: EventKey| m.events.contains_key(k) implies !m.dismissable(
                        boundary@,
                        k,
                    ) by {
                        if m.dismissable(boundary@, k) {
                            assert(reached.contains(k));
                            reached.lemma_len0_is_empty();
                        }
                    }
                    assert(m.dismissing(chosen) =~= m.events);
                }
            },
            _ => {},
        }
    }
    if w.store.is_listing(query, all) {
        lemma_listing_of_events(w.store, after.store, query, all);
    }
    if after.store.is_listing(query, all) {
        lemma_listing_of_events(after.store, w.store, query, all);
    }
    if w.store.fails(query, fault) {
        lemma_failure_of_events(w.store, after.store, query, fault);
    }
    if after.store.fails(query, fault) {
        lemma_failure_of_events(after.store, w.store, query, fault);
    }
}

/// A failure depends on the events alone.
proof fn lemma_failure_of_events(
    m: StoreModel,
    n: StoreModel,
    query: Seq<char>,
    fault: HistoryFault,
)
    requires
        m.events == n.events,
        m.fails(query, fault),
    ensures
        n.fails(query, fault),
{
    if !m.overwhelms(query) {
        let k = choose|k: EventKey|
            {
                &&& #[trigger] m.stumbles(query, k)
                &&& m.row_fault(k) == Some(fault)
                &&& forall|j: EventKey| #[trigger]
                    m.stumbles(query, j) && j != k ==> crate::history::store::listed_before(
                        m.record(k),
                        m.record(j),
                    )
            };
        assert(n.stumbles(query, k));
        assert forall|j: EventKey| #[trigger] n.stumbles(query, j) && j
            != k implies crate::history::store::listed_before(n.record(k), n.record(j)) by {
            assert(m.stumbles(query, j));
        }
    }
}

/// A list depends on the events alone.
proof fn lemma_listing_of_events(
    m: StoreModel,
    n: StoreModel,
    query: Seq<char>,
    all: Seq<RecordModel>,
)
    requires
        m.events == n.events,
        m.is_listing(query, all),
    ensures
        n.is_listing(query, all),
{
    assert forall|k: EventKey| !#[trigger] n.stumbles(query, k) by {
        assert(!m.stumbles(query, k));
    }
    assert forall|i: int| 0 <= i < all.len() implies n.found(
        query,
        crate::history::store::key_of(#[trigger] all[i]),
    ) && all[i] == n.record(crate::history::store::key_of(all[i])) by {
        assert(m.found(query, crate::history::store::key_of(all[i])));
    }
    assert forall|k: EventKey| #[trigger] n.found(query, k) implies exists|i: int|
        0 <= i < all.len() && crate::history::store::key_of(#[trigger] all[i]) == k by {
        assert(m.found(query, k));
    }
}

/// A thumbnail can always be shown: four bytes for each pixel, within its
/// square.
pub proof fn law_image_answers_are_sound(
    w: WorkerModel,
    c: Command,
    image: ImagePayload,
    after: WorkerModel,
)
    requires
        w.answers(c, Reply::Image(Ok(Some(image))), after),
    ensures
        sound_payload(image@),
{
}

} // verus!
