//! Which events the history takes.
use crate::history::chars;
use crate::history::ContentModel;
use crate::history::EventModel;
use crate::history::FileMetadata;
use crate::history::FileModel;
use crate::history::HistoryContent;
use crate::history::HistoryError;
use crate::history::HistoryFault;
use crate::history::ImportedHistoryEvent;
use crate::history::MAX_DEVICE_ID_BYTES;
use crate::history::MAX_FILES;
use crate::history::MAX_IMAGE_BYTES;
use crate::history::MAX_METADATA_BYTES;
use crate::history::MAX_ORIGIN_LABEL_BYTES;
use crate::history::MAX_SEQUENCE;
use crate::history::MAX_TEXT_BYTES;
use crate::text::byte_len;
use crate::text::decimal;
use crate::text::len_of;
use crate::text::push_decimal;
use crate::text::same_text;
use vstd::prelude::*;

verus! {

/// What a checking function returns: nothing, or the fault that was found.
pub open spec fn reports(r: Result<(), HistoryError>, fault: Option<HistoryFault>) -> bool {
    match r {
        Ok(_) => fault is None,
        Err(error) => fault == Some(error@),
    }
}

/// A text that is neither empty nor longer than allowed; `label` names it.
pub open spec fn text_fault(label: Seq<char>, value: Seq<char>, maximum: usize) -> Option<
    HistoryFault,
> {
    if value.len() == 0 {
        Some(HistoryFault::InvalidPayload(label + " must not be empty"@))
    } else if byte_len(value) > maximum {
        Some(
            HistoryFault::InvalidPayload(
                label + " exceeds "@ + decimal(maximum as nat) + " bytes"@,
            ),
        )
    } else {
        None
    }
}

pub open spec fn optional_text_fault(
    label: Seq<char>,
    value: Option<Seq<char>>,
    maximum: usize,
) -> Option<HistoryFault> {
    match value {
        Some(value) => text_fault(label, value, maximum),
        None => None,
    }
}

/// A sequence that a database column holds.
pub open spec fn sequence_fault(sequence: u64) -> Option<HistoryFault> {
    if sequence > MAX_SEQUENCE {
        Some(HistoryFault::InvalidPayload("origin sequence exceeds SQLite INTEGER"@))
    } else {
        None
    }
}

/// The first of two faults.
pub open spec fn first(a: Option<HistoryFault>, b: Option<HistoryFault>) -> Option<HistoryFault> {
    match a {
        Some(_) => a,
        None => b,
    }
}

pub open spec fn file_fault(file: FileModel) -> Option<HistoryFault> {
    first(
        text_fault("file name"@, file.name, MAX_METADATA_BYTES),
        optional_text_fault("file media type"@, file.media_type, MAX_METADATA_BYTES),
    )
}

/// The first fault of the files from `i` on.
pub open spec fn files_fault(files: Seq<FileModel>, i: int) -> Option<HistoryFault>
    decreases files.len() - i,
{
    if i < 0 || i >= files.len() {
        None
    } else {
        first(file_fault(files[i]), files_fault(files, i + 1))
    }
}

/// The media type of plain pixels.
pub open spec fn rgba_type() -> Seq<char> {
    "image/x-rgba8"@
}

/// An image of plain pixels has a size, and four bytes for each pixel.
pub open spec fn rgba_fault(
    bytes: Option<Seq<u8>>,
    width: Option<u32>,
    height: Option<u32>,
) -> Option<HistoryFault> {
    if width is None || height is None || width->Some_0 * height->Some_0 * 4 > usize::MAX {
        Some(HistoryFault::InvalidPayload("RGBA image requires valid width and height"@))
    } else if bytes is None || bytes->Some_0.len() != width->Some_0 * height->Some_0 * 4 {
        Some(
            HistoryFault::InvalidPayload(
                "RGBA image byte length does not match width * height * 4"@,
            ),
        )
    } else {
        None
    }
}

pub open spec fn image_fault(
    bytes: Option<Seq<u8>>,
    media_type: Option<Seq<char>>,
    width: Option<u32>,
    height: Option<u32>,
) -> Option<HistoryFault> {
    if bytes is Some && bytes->Some_0.len() > MAX_IMAGE_BYTES {
        Some(
            HistoryFault::InvalidPayload(
                "image exceeds "@ + decimal(MAX_IMAGE_BYTES as nat) + " bytes"@,
            ),
        )
    } else if bytes is Some && bytes->Some_0.len() == 0 {
        Some(HistoryFault::InvalidPayload("image bytes must not be empty"@))
    } else if optional_text_fault("image media type"@, media_type, MAX_METADATA_BYTES) is Some {
        optional_text_fault("image media type"@, media_type, MAX_METADATA_BYTES)
    } else if width is Some != height is Some {
        Some(HistoryFault::InvalidPayload("image width and height must be supplied together"@))
    } else if width == Some(0u32) || height == Some(0u32) {
        Some(HistoryFault::InvalidPayload("image dimensions must be positive"@))
    } else if media_type == Some(rgba_type()) && rgba_fault(bytes, width, height) is Some {
        rgba_fault(bytes, width, height)
    } else if bytes is None && media_type is None {
        Some(HistoryFault::InvalidPayload("image requires bytes or a media type"@))
    } else {
        None
    }
}

pub open spec fn content_fault(c: ContentModel) -> Option<HistoryFault> {
    match c {
        ContentModel::Text(text) => text_fault("text"@, text, MAX_TEXT_BYTES),
        ContentModel::Image { bytes, media_type, width, height } => image_fault(
            bytes,
            media_type,
            width,
            height,
        ),
        ContentModel::Files(files) => if files.len() == 0 || files.len() > MAX_FILES {
            Some(
                HistoryFault::InvalidPayload(
                    "file metadata must contain 1 to "@ + decimal(MAX_FILES as nat) + " entries"@,
                ),
            )
        } else {
            files_fault(files, 0)
        },
    }
}

/// Why an event is not taken: the first rule that it breaks.
pub open spec fn event_fault(e: EventModel) -> Option<HistoryFault> {
    first(
        text_fault("origin device id"@, e.id.device, MAX_DEVICE_ID_BYTES),
        first(
            optional_text_fault("origin label"@, e.label, MAX_ORIGIN_LABEL_BYTES),
            first(sequence_fault(e.id.sequence), content_fault(e.content)),
        ),
    )
}

/// Checks a text that is neither empty nor longer than allowed.
pub fn validate_string(label: &str, value: &str, maximum: usize) -> (r: Result<(), HistoryError>)
    ensures
        reports(r, text_fault(label@, value@, maximum)),
{
    if value.is_empty() {
        let mut text: String = label.to_owned();
        text.push_str(" must not be empty");
        return Err(HistoryError::InvalidPayload(text));
    }
    if len_of(value) > maximum {
        let mut text: String = label.to_owned();
        text.push_str(" exceeds ");
        push_decimal(&mut text, maximum as u64);
        text.push_str(" bytes");
        return Err(HistoryError::InvalidPayload(text));
    }
    Ok(())
}

fn validate_optional(label: &str, value: &Option<String>, maximum: usize) -> (r: Result<
    (),
    HistoryError,
>)
    ensures
        reports(r, optional_text_fault(label@, chars(*value), maximum)),
{
    match value {
        Some(value) => validate_string(label, value.as_str(), maximum),
        None => Ok(()),
    }
}

/// The sequence as a database column holds it.
pub fn sequence_to_sql(sequence: u64) -> (r: Result<i64, HistoryError>)
    ensures
        match r {
            Ok(n) => n == sequence && sequence_fault(sequence) is None,
            Err(error) => sequence_fault(sequence) == Some(error@),
        },
{
    if sequence > MAX_SEQUENCE {
        return Err(
            HistoryError::InvalidPayload("origin sequence exceeds SQLite INTEGER".to_owned()),
        );
    }
    Ok(sequence as i64)
}

fn validate_files(files: &Vec<FileMetadata>) -> (r: Result<(), HistoryError>)
    ensures
        reports(r, files_fault(crate::history::files_of(files@), 0)),
{
    let ghost model = crate::history::files_of(files@);
    let mut i: usize = 0;
    while i < files.len()
        invariant
            i <= files@.len(),
            model == crate::history::files_of(files@),
            files_fault(model, 0) == files_fault(model, i as int),
        decreases files@.len() - i,
    {
        assert(model[i as int] == files@[i as int]@);
        validate_string("file name", files[i].name.as_str(), MAX_METADATA_BYTES)?;
        validate_optional("file media type", &files[i].media_type, MAX_METADATA_BYTES)?;
        i = i + 1;
    }
    Ok(())
}

/// The number of bytes of an image of plain pixels, where it can be held.
pub fn rgba_len(width: Option<u32>, height: Option<u32>) -> (n: Option<usize>)
    ensures
        match n {
            Some(n) => width is Some && height is Some && n == width->Some_0 * height->Some_0 * 4,
            None => width is None || height is None || width->Some_0 * height->Some_0 * 4
                > usize::MAX,
        },
{
    match (width, height) {
        (Some(width), Some(height)) => {
            assert(0 <= width * height <= 0xffff_ffff * 0xffff_ffff) by (nonlinear_arith)
                requires
                    0 <= width <= 0xffff_ffff,
                    0 <= height <= 0xffff_ffff,
            ;
            let n: u128 = width as u128 * height as u128 * 4;
            if n > usize::MAX as u128 {
                None
            } else {
                Some(n as usize)
            }
        },
        _ => None,
    }
}

fn validate_image(
    bytes: &Option<Vec<u8>>,
    media_type: &Option<String>,
    width: Option<u32>,
    height: Option<u32>,
) -> (r: Result<(), HistoryError>)
    ensures
        reports(
            r,
            image_fault(crate::history::bytes_of(*bytes), chars(*media_type), width, height),
        ),
{
    if let Some(bytes) = bytes {
        if bytes.len() > MAX_IMAGE_BYTES {
            let mut text: String = "image exceeds ".to_owned();
            push_decimal(&mut text, MAX_IMAGE_BYTES as u64);
            text.push_str(" bytes");
            return Err(HistoryError::InvalidPayload(text));
        }
        if bytes.len() == 0 {
            return Err(HistoryError::InvalidPayload("image bytes must not be empty".to_owned()));
        }
    }
    validate_optional("image media type", media_type, MAX_METADATA_BYTES)?;
    if width.is_some() != height.is_some() {
        return Err(
            HistoryError::InvalidPayload(
                "image width and height must be supplied together".to_owned(),
            ),
        );
    }
    let flat: bool = match width {
        Some(width) => width == 0,
        None => false,
    } || match height {
        Some(height) => height == 0,
        None => false,
    };
    if flat {
        return Err(HistoryError::InvalidPayload("image dimensions must be positive".to_owned()));
    }
    let plain: bool = match media_type {
        Some(media_type) => same_text(media_type.as_str(), "image/x-rgba8"),
        None => false,
    };
    if plain {
        let expected: usize = match rgba_len(width, height) {
            Some(expected) => expected,
            None => return Err(
                HistoryError::InvalidPayload(
                    "RGBA image requires valid width and height".to_owned(),
                ),
            ),
        };
        let exact: bool = match bytes {
            Some(bytes) => bytes.len() == expected,
            None => false,
        };
        if !exact {
            return Err(
                HistoryError::InvalidPayload(
                    "RGBA image byte length does not match width * height * 4".to_owned(),
                ),
            );
        }
    }
    if bytes.is_none() && media_type.is_none() {
        return Err(
            HistoryError::InvalidPayload("image requires bytes or a media type".to_owned()),
        );
    }
    Ok(())
}

/// Checks an event before it is taken.
pub fn validate_event(event: &ImportedHistoryEvent) -> (r: Result<(), HistoryError>)
    ensures
        reports(r, event_fault(event@)),
{
    validate_string(
        "origin device id",
        event.event_id.origin_device_id.as_str(),
        MAX_DEVICE_ID_BYTES,
    )?;
    validate_optional("origin label", &event.origin_label, MAX_ORIGIN_LABEL_BYTES)?;
    sequence_to_sql(event.event_id.origin_sequence)?;
    match &event.content {
        HistoryContent::Text(value) => validate_string("text", value.as_str(), MAX_TEXT_BYTES),
        HistoryContent::Image { bytes, media_type, width, height } => validate_image(
            bytes,
            media_type,
            *width,
            *height,
        ),
        HistoryContent::Files(files) => {
            if files.len() == 0 || files.len() > MAX_FILES {
                let mut text: String = "file metadata must contain 1 to ".to_owned();
                push_decimal(&mut text, MAX_FILES as u64);
                text.push_str(" entries");
                return Err(HistoryError::InvalidPayload(text));
            }
            validate_files(files)
        },
    }
}

} // verus!
