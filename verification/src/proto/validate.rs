//! The rules that a message has to keep, each with the error that names the
//! rule which is broken.
use crate::proto::model::as_length;
use crate::proto::model::entries_of;
use crate::proto::model::boundary_of;
use crate::proto::model::text_of;
use crate::proto::model::EntryModel;
use crate::proto::model::EventModel;
use crate::proto::model::Fault;
use crate::proto::ClipboardEntryKind;
use crate::proto::ClipboardManifestEntry;
use crate::proto::ProtoEvent;
use crate::proto::ProtocolError;
use crate::proto::CLIPBOARD_CHUNK_HEADER_SIZE;
use crate::proto::MAX_CLIPBOARD_CHUNK_SIZE;
use crate::proto::MAX_CLIPBOARD_FILE_CHUNK_SIZE;
use crate::proto::MAX_CLIPBOARD_MANIFEST_ENTRIES;
use crate::proto::MAX_CLIPBOARD_PATH_SIZE;
use crate::proto::MAX_CLIPBOARD_SIZE;
use crate::proto::MAX_DATAGRAM_SIZE;
use crate::proto::MAX_HISTORY_BOUNDARY_ENTRIES;
use crate::proto::MAX_HISTORY_CHUNK_SIZE;
use crate::proto::MAX_HISTORY_DEVICE_ID_SIZE;
use crate::proto::MAX_HISTORY_RECORD_SIZE;
use crate::proto::MAX_MANUAL_FILE_CHUNK_SIZE;
use crate::proto::MAX_MANUAL_FILE_ERROR_SIZE;
use crate::proto::MAX_MANUAL_FILE_NAME_SIZE;
use crate::proto::MAX_PROFILE_CHUNK_SIZE;
use crate::proto::MAX_PROFILE_NAME_SIZE;
use crate::proto::PROFILE_CHUNK_HEADER_SIZE;
use crate::proto::SAFE_DATAGRAM_SIZE;
use crate::text::byte_len;
use crate::text::chars_of;
use crate::text::len_of;
use crate::text::lower;
use crate::text::lower_chars;
use crate::text::same_chars;
use crate::text::split;
use crate::text::split_chars;
use vstd::prelude::*;

verus! {

/// What a checking function returns: nothing, or the fault that was found.
pub open spec fn reports(r: Result<(), ProtocolError>, fault: Option<Fault>) -> bool {
    match r {
        Ok(_) => fault is None,
        Err(error) => fault == Some(error@),
    }
}

/// How many pieces of `size` bytes hold `total` bytes.
pub open spec fn pieces(total: int, size: int) -> int {
    (total + size - 1) / size
}

// ---------------------------------------------------------------------------
// File names and paths
// ---------------------------------------------------------------------------

/// A character that no portable file name holds.
pub open spec fn unportable(c: char) -> bool {
    c < ' ' || c == '\u{7f}' || c == '/' || c == '\\' || c == '<' || c == '>' || c == ':' || c
        == '"' || c == '|' || c == '?' || c == '*'
}

/// A text without the spaces at its end.
pub open spec fn without_end_spaces(s: Seq<char>) -> Seq<char>
    decreases s.len(),
{
    if s.len() > 0 && s.last() == ' ' {
        without_end_spaces(s.drop_last())
    } else {
        s
    }
}

/// The digits that number a serial or parallel port.
pub open spec fn port_digit(c: char) -> bool {
    '1' <= c <= '9' || c == '\u{b9}' || c == '\u{b2}' || c == '\u{b3}'
}

/// A name that Windows keeps for a device, in capitals or small letters.
pub open spec fn device_name(stem: Seq<char>) -> bool {
    let s = lower(stem);
    ||| s == seq!['c', 'o', 'n']
    ||| s == seq!['p', 'r', 'n']
    ||| s == seq!['a', 'u', 'x']
    ||| s == seq!['n', 'u', 'l']
    ||| s.len() == 4 && port_digit(stem[3]) && (s.take(3) == seq!['c', 'o', 'm'] || s.take(3)
        == seq!['l', 'p', 't'])
}

/// A file name that every platform takes as the name of one ordinary file.
pub open spec fn portable_name(name: Seq<char>) -> bool {
    &&& name.len() > 0
    &&& byte_len(name) <= MAX_MANUAL_FILE_NAME_SIZE
    &&& name.last() != '.' && name.last() != ' '
    &&& forall|i: int| 0 <= i < name.len() ==> !unportable(#[trigger] name[i])
    &&& !device_name(without_end_spaces(split(name, '.')[0]))
}

pub open spec fn name_fault(name: Seq<char>) -> Option<Fault> {
    if portable_name(name) {
        None
    } else {
        Some(Fault::InvalidPath(name))
    }
}

/// A part of a path that names an entry of a directory.
pub open spec fn ordinary_part(part: Seq<char>) -> bool {
    part.len() > 0 && part != seq!['.'] && part != seq!['.', '.']
}

/// A relative path whose parts name entries below the directory it starts at.
pub open spec fn safe_path(path: Seq<char>) -> bool {
    &&& forall|i: int|
        0 <= i < path.len() ==> #[trigger] path[i] != '\\' && path[i] != ':' && path[i] != '\0'
    &&& forall|i: int|
        0 <= i < split(path, '/').len() ==> ordinary_part(#[trigger] split(path, '/')[i])
}

pub open spec fn path_fault(path: Seq<char>) -> Option<Fault> {
    if byte_len(path) > MAX_CLIPBOARD_PATH_SIZE {
        Some(
            Fault::TooLarge {
                actual: byte_len(path) as usize,
                limit: MAX_CLIPBOARD_PATH_SIZE,
            },
        )
    } else if safe_path(path) {
        None
    } else {
        Some(Fault::InvalidPath(path))
    }
}

fn is_unportable(c: char) -> (r: bool)
    ensures
        r == unportable(c),
{
    c < ' ' || c == '\u{7f}' || c == '/' || c == '\\' || c == '<' || c == '>' || c == ':' || c
        == '"' || c == '|' || c == '?' || c == '*'
}

fn is_port_digit(c: char) -> (r: bool)
    ensures
        r == port_digit(c),
{
    ('1' <= c && c <= '9') || c == '\u{b9}' || c == '\u{b2}' || c == '\u{b3}'
}

fn is_device_name(stem: &[char]) -> (r: bool)
    ensures
        r == device_name(stem@),
{
    let s: Vec<char> = lower_chars(stem);
    if same_chars(s.as_slice(), &['c', 'o', 'n']) || same_chars(s.as_slice(), &['p', 'r', 'n'])
        || same_chars(s.as_slice(), &['a', 'u', 'x']) || same_chars(
        s.as_slice(),
        &['n', 'u', 'l'],
    ) {
        return true;
    }
    if s.len() != 4 || !is_port_digit(stem[3]) {
        return false;
    }
    let head: &[char] = vstd::slice::slice_subrange(s.as_slice(), 0, 3);
    assert(head@ =~= s@.take(3));
    same_chars(head, &['c', 'o', 'm']) || same_chars(head, &['l', 'p', 't'])
}

fn trim_end_spaces(v: &[char]) -> (r: Vec<char>)
    ensures
        r@ == without_end_spaces(v@),
{
    let mut r: Vec<char> = vstd::slice::slice_to_vec(v);
    while r.len() > 0 && r[r.len() - 1] == ' '
        invariant
            without_end_spaces(r@) == without_end_spaces(v@),
        decreases r@.len(),
    {
        r.pop();
    }
    r
}

/// Accepts the names that every platform takes as an ordinary file name.
pub fn validate_manual_file_name(name: &str) -> (r: Result<(), ProtocolError>)
    ensures
        reports(r, name_fault(name@)),
{
    let chars: Vec<char> = chars_of(name);
    if chars.len() == 0 || len_of(name) > MAX_MANUAL_FILE_NAME_SIZE || chars[chars.len() - 1]
        == '.' || chars[chars.len() - 1] == ' ' {
        return Err(ProtocolError::InvalidPath(name.to_owned()));
    }
    let mut i: usize = 0;
    while i < chars.len()
        invariant
            i <= chars@.len(),
            chars@ == name@,
            forall|j: int| 0 <= j < i ==> !unportable(#[trigger] name@[j]),
        decreases chars@.len() - i,
    {
        if is_unportable(chars[i]) {
            return Err(ProtocolError::InvalidPath(name.to_owned()));
        }
        i = i + 1;
    }
    let parts: Vec<Vec<char>> = split_chars(chars.as_slice(), '.');
    let stem: Vec<char> = trim_end_spaces(parts[0].as_slice());
    assert(parts@[0]@ == split(name@, '.')[0]);
    if is_device_name(stem.as_slice()) {
        return Err(ProtocolError::InvalidPath(name.to_owned()));
    }
    Ok(())
}

fn is_ordinary_part(part: &[char]) -> (r: bool)
    ensures
        r == ordinary_part(part@),
{
    let current: bool = part.len() == 1 && part[0] == '.';
    let parent: bool = part.len() == 2 && part[0] == '.' && part[1] == '.';
    assert(current ==> part@ =~= seq!['.']);
    assert(parent ==> part@ =~= seq!['.', '.']);
    part.len() > 0 && !current && !parent
}

/// Accepts the relative paths that stay below the directory they start at.
pub fn validate_path(path: &str) -> (r: Result<(), ProtocolError>)
    ensures
        reports(r, path_fault(path@)),
{
    let len: usize = len_of(path);
    if len > MAX_CLIPBOARD_PATH_SIZE {
        return Err(ProtocolError::TooLarge { actual: len, limit: MAX_CLIPBOARD_PATH_SIZE });
    }
    let chars: Vec<char> = chars_of(path);
    let mut i: usize = 0;
    while i < chars.len()
        invariant
            i <= chars@.len(),
            chars@ == path@,
            byte_len(path@) <= MAX_CLIPBOARD_PATH_SIZE,
            forall|j: int|
                0 <= j < i ==> #[trigger] path@[j] != '\\' && path@[j] != ':' && path@[j] != '\0',
        decreases chars@.len() - i,
    {
        if chars[i] == '\\' || chars[i] == ':' || chars[i] == '\0' {
            return Err(ProtocolError::InvalidPath(path.to_owned()));
        }
        i = i + 1;
    }
    let parts: Vec<Vec<char>> = split_chars(chars.as_slice(), '/');
    let ghost expected = split(path@, '/');
    let mut k: usize = 0;
    while k < parts.len()
        invariant
            k <= parts@.len(),
            expected == split(path@, '/'),
            crate::text::parts_of(parts@) == expected,
            byte_len(path@) <= MAX_CLIPBOARD_PATH_SIZE,
            forall|j: int| 0 <= j < k ==> ordinary_part(#[trigger] expected[j]),
        decreases parts@.len() - k,
    {
        assert(parts@[k as int]@ == expected[k as int]);
        if !is_ordinary_part(parts[k].as_slice()) {
            return Err(ProtocolError::InvalidPath(path.to_owned()));
        }
        k = k + 1;
    }
    Ok(())
}

// ---------------------------------------------------------------------------
// Sizes, positions and identities
// ---------------------------------------------------------------------------

/// A place in a clipboard file.
pub open spec fn position_fault(value: u64) -> Option<Fault> {
    if value > MAX_CLIPBOARD_SIZE {
        Some(Fault::TooLarge { actual: as_length(value as int), limit: MAX_CLIPBOARD_SIZE })
    } else {
        None
    }
}

/// A range of a clipboard file that is asked for.
pub open spec fn request_fault(offset: u64, length: u64) -> Option<Fault> {
    if position_fault(offset) is Some {
        position_fault(offset)
    } else if length == 0 || length > MAX_CLIPBOARD_FILE_CHUNK_SIZE {
        Some(Fault::InvalidFileChunk("invalid request length"@))
    } else {
        position_fault((offset + length) as u64)
    }
}

/// A piece of a clipboard file, at its place.
pub open spec fn file_chunk_fault(offset: u64, data_len: usize) -> Option<Fault> {
    if data_len == 0 {
        Some(Fault::InvalidFileChunk("empty chunk"@))
    } else if data_len > MAX_CLIPBOARD_FILE_CHUNK_SIZE {
        Some(Fault::TooLarge { actual: data_len, limit: MAX_CLIPBOARD_FILE_CHUNK_SIZE })
    } else if position_fault(offset) is Some {
        position_fault(offset)
    } else {
        position_fault((offset + data_len) as u64)
    }
}

pub open spec fn ids_fault(file_id: u64, request_id: u64) -> Option<Fault> {
    if file_id == 0 {
        Some(Fault::InvalidFileChunk("zero file id"@))
    } else if request_id == 0 {
        Some(Fault::InvalidFileChunk("zero request id"@))
    } else {
        None
    }
}

pub open spec fn progress_fault(completed: u64, total: u64) -> Option<Fault> {
    if position_fault(total) is Some {
        position_fault(total)
    } else if completed > total {
        Some(Fault::InvalidProgress { completed, total })
    } else {
        None
    }
}

/// The announcement of a clipboard payload: its size, and as many chunks as
/// hold it.
pub open spec fn clipboard_start_fault(total_len: u32, chunks: u32) -> Option<Fault> {
    if total_len > MAX_CLIPBOARD_SIZE {
        Some(Fault::TooLarge { actual: total_len as usize, limit: MAX_CLIPBOARD_SIZE })
    } else if chunks != pieces(total_len as int, MAX_CLIPBOARD_CHUNK_SIZE as int) {
        Some(
            Fault::InvalidChunkCount {
                expected: pieces(total_len as int, MAX_CLIPBOARD_CHUNK_SIZE as int) as u32,
                actual: chunks,
            },
        )
    } else {
        None
    }
}

/// The announcement of a clipboard image: four bytes for each pixel.
pub open spec fn clipboard_image_fault(
    width: u32,
    height: u32,
    total_len: u32,
    chunks: u32,
) -> Option<Fault> {
    let expected = width * height * 4;
    if expected > usize::MAX {
        Some(Fault::TooLarge { actual: usize::MAX, limit: MAX_CLIPBOARD_SIZE })
    } else if expected != total_len {
        Some(Fault::TooLarge { actual: total_len as usize, limit: expected as usize })
    } else {
        clipboard_start_fault(total_len, chunks)
    }
}

/// The announcement of a history record.
pub open spec fn history_start_fault(total_len: u32, chunks: u32) -> Option<Fault> {
    if total_len == 0 || total_len > MAX_HISTORY_RECORD_SIZE {
        Some(Fault::TooLarge { actual: total_len as usize, limit: MAX_HISTORY_RECORD_SIZE })
    } else if chunks != pieces(total_len as int, MAX_HISTORY_CHUNK_SIZE as int) {
        Some(
            Fault::InvalidChunkCount {
                expected: pieces(total_len as int, MAX_HISTORY_CHUNK_SIZE as int) as u32,
                actual: chunks,
            },
        )
    } else {
        None
    }
}

/// The picture of a device profile: none at all, or at most 128 by 128 pixels
/// of four bytes each.
pub open spec fn profile_picture_ok(width: u32, height: u32, total_len: u32, chunks: u32) -> bool {
    ||| width == 0 && height == 0 && total_len == 0 && chunks == 0
    ||| width <= 128 && height <= 128 && chunks != 0 && width * height * 4 == total_len
}

/// Whether a place lies inside the largest clipboard payload.
pub fn validate_file_position(value: u64) -> (r: Result<(), ProtocolError>)
    ensures
        reports(r, position_fault(value)),
{
    if value > MAX_CLIPBOARD_SIZE as u64 {
        let actual: usize = if value <= usize::MAX as u64 {
            value as usize
        } else {
            usize::MAX
        };
        return Err(ProtocolError::TooLarge { actual, limit: MAX_CLIPBOARD_SIZE });
    }
    Ok(())
}

pub fn validate_file_chunk(offset: u64, data_len: usize) -> (r: Result<(), ProtocolError>)
    ensures
        reports(r, file_chunk_fault(offset, data_len)),
{
    if data_len == 0 {
        return Err(ProtocolError::InvalidFileChunk("empty chunk"));
    }
    if data_len > MAX_CLIPBOARD_FILE_CHUNK_SIZE {
        return Err(
            ProtocolError::TooLarge { actual: data_len, limit: MAX_CLIPBOARD_FILE_CHUNK_SIZE },
        );
    }
    validate_file_position(offset)?;
    validate_file_position(offset + data_len as u64)
}

pub fn validate_progress(completed: u64, total: u64) -> (r: Result<(), ProtocolError>)
    ensures
        reports(r, progress_fault(completed, total)),
{
    validate_file_position(total)?;
    if completed > total {
        return Err(ProtocolError::InvalidProgress { completed, total });
    }
    Ok(())
}

pub fn validate_ids(file_id: u64, request_id: u64) -> (r: Result<(), ProtocolError>)
    ensures
        reports(r, ids_fault(file_id, request_id)),
{
    if file_id == 0 {
        return Err(ProtocolError::InvalidFileChunk("zero file id"));
    }
    if request_id == 0 {
        return Err(ProtocolError::InvalidFileChunk("zero request id"));
    }
    Ok(())
}

pub fn validate_request(offset: u64, length: u64) -> (r: Result<(), ProtocolError>)
    ensures
        reports(r, request_fault(offset, length)),
{
    validate_file_position(offset)?;
    if length == 0 || length > MAX_CLIPBOARD_FILE_CHUNK_SIZE as u64 {
        return Err(ProtocolError::InvalidFileChunk("invalid request length"));
    }
    validate_file_position(offset + length)
}

/// How many pieces of `size` bytes hold `total` bytes.
pub fn pieces_of(total: u32, size: u32) -> (n: u32)
    requires
        0 < size,
        total + size <= u32::MAX,
    ensures
        n == pieces(total as int, size as int),
{
    (total + size - 1) / size
}

pub fn validate_clipboard_start(total_len: u32, chunks: u32) -> (r: Result<(), ProtocolError>)
    ensures
        reports(r, clipboard_start_fault(total_len, chunks)),
{
    if total_len as usize > MAX_CLIPBOARD_SIZE {
        return Err(
            ProtocolError::TooLarge { actual: total_len as usize, limit: MAX_CLIPBOARD_SIZE },
        );
    }
    let expected: u32 = pieces_of(total_len, MAX_CLIPBOARD_CHUNK_SIZE as u32);
    if chunks != expected {
        return Err(ProtocolError::InvalidChunkCount { expected, actual: chunks });
    }
    Ok(())
}

pub fn validate_clipboard_image(width: u32, height: u32, total_len: u32, chunks: u32) -> (r: Result<
    (),
    ProtocolError,
>)
    ensures
        reports(r, clipboard_image_fault(width, height, total_len, chunks)),
{
    assert(0 <= width * height <= 0xffff_ffff * 0xffff_ffff) by (nonlinear_arith)
        requires
            0 <= width <= 0xffff_ffff,
            0 <= height <= 0xffff_ffff,
    ;
    let expected: u128 = width as u128 * height as u128 * 4;
    if expected > usize::MAX as u128 {
        return Err(ProtocolError::TooLarge { actual: usize::MAX, limit: MAX_CLIPBOARD_SIZE });
    }
    if expected != total_len as u128 {
        return Err(
            ProtocolError::TooLarge { actual: total_len as usize, limit: expected as usize },
        );
    }
    validate_clipboard_start(total_len, chunks)
}

pub fn validate_history_start(total_len: u32, chunks: u32) -> (r: Result<(), ProtocolError>)
    ensures
        reports(r, history_start_fault(total_len, chunks)),
{
    if total_len == 0 || total_len as usize > MAX_HISTORY_RECORD_SIZE {
        return Err(
            ProtocolError::TooLarge { actual: total_len as usize, limit: MAX_HISTORY_RECORD_SIZE },
        );
    }
    let expected: u32 = pieces_of(total_len, MAX_HISTORY_CHUNK_SIZE as u32);
    if chunks != expected {
        return Err(ProtocolError::InvalidChunkCount { expected, actual: chunks });
    }
    Ok(())
}

/// Whether the announced picture of a profile is none, or one of an accepted
/// size.
pub fn validate_profile_picture(width: u32, height: u32, total_len: u32, chunks: u32) -> (r: bool)
    ensures
        r == profile_picture_ok(width, height, total_len, chunks),
{
    if width == 0 && height == 0 && total_len == 0 && chunks == 0 {
        return true;
    }
    if width > 128 || height > 128 || chunks == 0 {
        return false;
    }
    assert(0 <= width * height <= 128 * 128) by (nonlinear_arith)
        requires
            0 <= width <= 128,
            0 <= height <= 128,
    ;
    width * height * 4 == total_len
}

// ---------------------------------------------------------------------------
// Manifests, boundaries and texts
// ---------------------------------------------------------------------------

/// The first fault of the entries from `i` on, when the one before had the id
/// `previous` and those before had `total` bytes together.
pub open spec fn entries_fault(
    entries: Seq<EntryModel>,
    i: int,
    previous: u64,
    total: int,
) -> Option<Fault>
    decreases entries.len() - i,
{
    if i < 0 || i >= entries.len() {
        None
    } else {
        let e = entries[i];
        if path_fault(e.path) is Some {
            path_fault(e.path)
        } else if e.file_id <= previous {
            Some(Fault::InvalidManifest("file ids must increase"@))
        } else if total + e.size > u64::MAX {
            Some(Fault::LengthOverflow)
        } else if total + e.size > MAX_CLIPBOARD_SIZE {
            Some(Fault::TooLarge { actual: usize::MAX, limit: MAX_CLIPBOARD_SIZE })
        } else if e.kind == ClipboardEntryKind::Directory && e.size != 0 {
            Some(Fault::InvalidManifest("directory size"@))
        } else {
            entries_fault(entries, i + 1, e.file_id, total + e.size)
        }
    }
}

pub open spec fn manifest_fault(entries: Seq<EntryModel>) -> Option<Fault> {
    if entries.len() == 0 || entries.len() > MAX_CLIPBOARD_MANIFEST_ENTRIES {
        Some(Fault::InvalidManifest("entry count"@))
    } else {
        entries_fault(entries, 0, 0, 0)
    }
}

/// A device name that a clear boundary may hold.
pub open spec fn device_ok(device: Seq<char>) -> bool {
    device.len() > 0 && byte_len(device) <= MAX_HISTORY_DEVICE_ID_SIZE
}

pub open spec fn boundary_fault(boundary: Seq<(Seq<char>, u64)>) -> Option<Fault> {
    if boundary.len() > MAX_HISTORY_BOUNDARY_ENTRIES {
        Some(Fault::InvalidHistory("too many boundary entries"@))
    } else if exists|i: int| 0 <= i < boundary.len() && !device_ok(#[trigger] boundary[i].0) {
        Some(Fault::InvalidHistory("invalid boundary device id"@))
    } else {
        None
    }
}

/// A text that says why something failed.
pub open spec fn optional_text_fault(s: Option<Seq<char>>) -> Option<Fault> {
    match s {
        Some(s) => if s.len() == 0 || byte_len(s) > u16::MAX {
            Some(Fault::InvalidHistory("invalid error string"@))
        } else {
            None
        },
        None => None,
    }
}

/// A transfer identity of a manually sent file.
pub open spec fn manual_id_fault(transfer_id: u64) -> Option<Fault> {
    if transfer_id == 0 {
        Some(Fault::InvalidFileChunk("zero transfer id"@))
    } else {
        None
    }
}

/// The rule that a message breaks, if it breaks one: the first in the order in
/// which the fields are looked at.
pub open spec fn fault_of(e: EventModel) -> Option<Fault> {
    match e {
        EventModel::ProfileRequest { request_id } => if request_id == 0 {
            Some(Fault::InvalidProfile("zero request id"@))
        } else {
            None
        },
        EventModel::ProfileStart {
            request_id,
            width,
            height,
            total_len,
            chunks,
            display_name,
        } => if request_id == 0 || byte_len(display_name) > MAX_PROFILE_NAME_SIZE
            || !profile_picture_ok(width, height, total_len, chunks) {
            Some(Fault::InvalidProfile("invalid profile metadata"@))
        } else {
            None
        },
        EventModel::ProfileChunk { request_id, index, data } => if request_id == 0 || data.len()
            == 0 || data.len() > MAX_PROFILE_CHUNK_SIZE {
            Some(
                Fault::TooLarge {
                    actual: as_length(PROFILE_CHUNK_HEADER_SIZE + data.len()),
                    limit: SAFE_DATAGRAM_SIZE,
                },
            )
        } else {
            None
        },
        EventModel::ClipboardStart { transfer_id, total_len, chunks } => clipboard_start_fault(
            total_len,
            chunks,
        ),
        EventModel::ClipboardImageStart { transfer_id, width, height, total_len, chunks } =>
            clipboard_image_fault(width, height, total_len, chunks),
        EventModel::ClipboardChunk { transfer_id, index, data } => if CLIPBOARD_CHUNK_HEADER_SIZE
            + data.len() > MAX_DATAGRAM_SIZE {
            Some(
                Fault::TooLarge {
                    actual: as_length(CLIPBOARD_CHUNK_HEADER_SIZE + data.len()),
                    limit: MAX_DATAGRAM_SIZE,
                },
            )
        } else {
            None
        },
        EventModel::ClipboardManifest { transfer_id, entries } => manifest_fault(entries),
        EventModel::ClipboardFileRequest { transfer_id, file_id, request_id, offset, length } =>
            if ids_fault(file_id, request_id) is Some {
            ids_fault(file_id, request_id)
        } else {
            request_fault(offset, length)
        },
        EventModel::ClipboardFileChunk { transfer_id, file_id, request_id, offset, data } =>
            if ids_fault(file_id, request_id) is Some {
            ids_fault(file_id, request_id)
        } else {
            file_chunk_fault(offset, data.len() as usize)
        },
        EventModel::ClipboardFileComplete { transfer_id, file_id, request_id, size, digest } =>
            if ids_fault(file_id, request_id) is Some {
            ids_fault(file_id, request_id)
        } else {
            position_fault(size)
        },
        EventModel::ClipboardTransferProgress { transfer_id, file_id, completed, total } =>
            if completed > total {
            Some(Fault::InvalidProgress { completed, total })
        } else {
            None
        },
        EventModel::HistoryRecordStart { request_id, record_id, total_len, chunks } =>
            history_start_fault(total_len, chunks),
        EventModel::HistoryRecordChunk { request_id, record_id, index, data } => if data.len()
            == 0 || data.len() > MAX_HISTORY_CHUNK_SIZE {
            Some(Fault::TooLarge { actual: data.len() as usize, limit: MAX_HISTORY_CHUNK_SIZE })
        } else {
            None
        },
        EventModel::ManualFileOffer { transfer_id, file_name, size } => if transfer_id == 0 {
            manual_id_fault(transfer_id)
        } else {
            name_fault(file_name)
        },
        EventModel::ManualFileDecision { transfer_id, decision } => manual_id_fault(transfer_id),
        EventModel::ManualFileRequest { transfer_id, offset, length } => if transfer_id == 0
            || length == 0 || length > MAX_MANUAL_FILE_CHUNK_SIZE {
            Some(Fault::InvalidFileChunk("invalid manual request"@))
        } else {
            None
        },
        EventModel::ManualFileChunk { transfer_id, offset, data } => if transfer_id == 0
            || data.len() == 0 || data.len() > MAX_MANUAL_FILE_CHUNK_SIZE {
            Some(Fault::InvalidFileChunk("invalid manual chunk"@))
        } else {
            None
        },
        EventModel::ManualFileComplete { transfer_id, sha256 } => manual_id_fault(transfer_id),
        EventModel::ManualFileResult { transfer_id, success, error } => if transfer_id == 0 {
            manual_id_fault(transfer_id)
        } else if error is Some && byte_len(error->Some_0) > MAX_MANUAL_FILE_ERROR_SIZE {
            Some(
                Fault::TooLarge {
                    actual: byte_len(error->Some_0) as usize,
                    limit: MAX_MANUAL_FILE_ERROR_SIZE,
                },
            )
        } else {
            optional_text_fault(error)
        },
        EventModel::ManualFileCancel { transfer_id } => manual_id_fault(transfer_id),
        EventModel::HistoryClearBoundary { operation_id, boundary } => boundary_fault(boundary),
        EventModel::HistoryClearApply { operation_id, boundary } => boundary_fault(boundary),
        EventModel::HistoryClearAck { operation_id, affected, error } => optional_text_fault(
            error,
        ),
        _ => None,
    }
}

/// Checks the entries of a manifest, in their order.
pub fn validate_manifest(entries: &[ClipboardManifestEntry]) -> (r: Result<(), ProtocolError>)
    ensures
        reports(r, manifest_fault(entries_of(entries@))),
{
    if entries.len() == 0 || entries.len() > MAX_CLIPBOARD_MANIFEST_ENTRIES {
        return Err(ProtocolError::InvalidManifest("entry count".to_owned()));
    }
    let ghost model = entries_of(entries@);
    let mut previous: u64 = 0;
    let mut total: u64 = 0;
    let mut i: usize = 0;
    while i < entries.len()
        invariant
            i <= entries@.len(),
            model == entries_of(entries@),
            total <= MAX_CLIPBOARD_SIZE,
            0 < entries@.len() <= MAX_CLIPBOARD_MANIFEST_ENTRIES,
            manifest_fault(model) == entries_fault(model, i as int, previous, total as int),
        decreases entries@.len() - i,
    {
        let entry: &ClipboardManifestEntry = &entries[i];
        assert(model[i as int] == entry@);
        validate_path(entry.path.as_str())?;
        if entry.file_id <= previous {
            return Err(ProtocolError::InvalidManifest("file ids must increase".to_owned()));
        }
        previous = entry.file_id;
        match total.checked_add(entry.size) {
            Some(sum) => {
                total = sum;
            },
            None => {
                return Err(ProtocolError::LengthOverflow);
            },
        }
        if total > MAX_CLIPBOARD_SIZE as u64 {
            return Err(
                ProtocolError::TooLarge { actual: usize::MAX, limit: MAX_CLIPBOARD_SIZE },
            );
        }
        if entry.kind == ClipboardEntryKind::Directory && entry.size != 0 {
            return Err(ProtocolError::InvalidManifest("directory size".to_owned()));
        }
        i = i + 1;
    }
    Ok(())
}

/// Checks the device names of a clear boundary.
pub fn validate_boundary(boundary: &[(String, u64)]) -> (r: Result<(), ProtocolError>)
    ensures
        reports(r, boundary_fault(boundary_of(boundary@))),
{
    if boundary.len() > MAX_HISTORY_BOUNDARY_ENTRIES {
        return Err(ProtocolError::InvalidHistory("too many boundary entries"));
    }
    let ghost model = boundary_of(boundary@);
    let mut i: usize = 0;
    while i < boundary.len()
        invariant
            i <= boundary@.len(),
            model == boundary_of(boundary@),
            boundary@.len() <= MAX_HISTORY_BOUNDARY_ENTRIES,
            forall|j: int| 0 <= j < i ==> device_ok(#[trigger] model[j].0),
        decreases boundary@.len() - i,
    {
        let device: &String = &boundary[i].0;
        assert(model[i as int].0 == device@);
        if device.as_str().is_empty() || len_of(device.as_str()) > MAX_HISTORY_DEVICE_ID_SIZE {
            return Err(ProtocolError::InvalidHistory("invalid boundary device id"));
        }
        i = i + 1;
    }
    Ok(())
}

/// Checks a text that says why something failed.
pub fn validate_optional_text(text: &Option<String>) -> (r: Result<(), ProtocolError>)
    ensures
        reports(r, optional_text_fault(text_of(*text))),
{
    match text {
        Some(text) => {
            if text.as_str().is_empty() || len_of(text.as_str()) > u16::MAX as usize {
                return Err(ProtocolError::InvalidHistory("invalid error string"));
            }
        },
        None => {},
    }
    Ok(())
}

/// Checks the identity of a manually sent file.
pub fn validate_manual_id(transfer_id: u64) -> (r: Result<(), ProtocolError>)
    ensures
        reports(r, manual_id_fault(transfer_id)),
{
    if transfer_id == 0 {
        return Err(ProtocolError::InvalidFileChunk("zero transfer id"));
    }
    Ok(())
}

impl ProtoEvent {
    /// Checks the rules that this message has to keep.
    pub fn validate(&self) -> (r: Result<(), ProtocolError>)
        ensures
            reports(r, fault_of(self@)),
    {
        match self {
            ProtoEvent::ProfileRequest { request_id } => {
                if *request_id == 0 {
                    return Err(ProtocolError::InvalidProfile("zero request id"));
                }
                Ok(())
            },
            ProtoEvent::ProfileStart {
                request_id,
                width,
                height,
                total_len,
                chunks,
                display_name,
            } => {
                if *request_id == 0 || len_of(display_name.as_str()) > MAX_PROFILE_NAME_SIZE
                    || !validate_profile_picture(*width, *height, *total_len, *chunks) {
                    return Err(ProtocolError::InvalidProfile("invalid profile metadata"));
                }
                Ok(())
            },
            ProtoEvent::ProfileChunk { request_id, index: _, data } => {
                if *request_id == 0 || data.len() == 0 || data.len() > MAX_PROFILE_CHUNK_SIZE {
                    return Err(
                        ProtocolError::TooLarge {
                            actual: data.len().saturating_add(PROFILE_CHUNK_HEADER_SIZE),
                            limit: SAFE_DATAGRAM_SIZE,
                        },
                    );
                }
                Ok(())
            },
            ProtoEvent::ClipboardStart { transfer_id: _, total_len, chunks } => {
                validate_clipboard_start(*total_len, *chunks)
            },
            ProtoEvent::ClipboardImageStart {
                transfer_id: _,
                width,
                height,
                total_len,
                chunks,
            } => { validate_clipboard_image(*width, *height, *total_len, *chunks) },
            ProtoEvent::ClipboardChunk { transfer_id: _, index: _, data } => {
                let actual: usize = data.len().saturating_add(CLIPBOARD_CHUNK_HEADER_SIZE);
                if actual > MAX_DATAGRAM_SIZE {
                    return Err(ProtocolError::TooLarge { actual, limit: MAX_DATAGRAM_SIZE });
                }
                Ok(())
            },
            ProtoEvent::ClipboardManifest { transfer_id: _, entries } => {
                validate_manifest(entries.as_slice())
            },
            ProtoEvent::ClipboardFileRequest {
                transfer_id: _,
                file_id,
                request_id,
                offset,
                length,
            } => {
                validate_ids(*file_id, *request_id)?;
                validate_request(*offset, *length)
            },
            ProtoEvent::ClipboardFileChunk {
                transfer_id: _,
                file_id,
                request_id,
                offset,
                data,
            } => {
                validate_ids(*file_id, *request_id)?;
                validate_file_chunk(*offset, data.len())
            },
            ProtoEvent::ClipboardFileComplete {
                transfer_id: _,
                file_id,
                request_id,
                size,
                digest: _,
            } => {
                validate_ids(*file_id, *request_id)?;
                validate_file_position(*size)
            },
            ProtoEvent::ClipboardTransferProgress {
                transfer_id: _,
                file_id: _,
                completed,
                total,
            } => {
                if *completed > *total {
                    return Err(
                        ProtocolError::InvalidProgress { completed: *completed, total: *total },
                    );
                }
                Ok(())
            },
            ProtoEvent::HistoryRecordStart { request_id: _, record_id: _, total_len, chunks } => {
                validate_history_start(*total_len, *chunks)
            },
            ProtoEvent::HistoryRecordChunk { request_id: _, record_id: _, index: _, data } => {
                if data.len() == 0 || data.len() > MAX_HISTORY_CHUNK_SIZE {
                    return Err(
                        ProtocolError::TooLarge {
                            actual: data.len(),
                            limit: MAX_HISTORY_CHUNK_SIZE,
                        },
                    );
                }
                Ok(())
            },
            ProtoEvent::ManualFileOffer { transfer_id, file_name, size: _ } => {
                validate_manual_id(*transfer_id)?;
                validate_manual_file_name(file_name.as_str())
            },
            ProtoEvent::ManualFileDecision { transfer_id, decision: _ } => validate_manual_id(
                *transfer_id,
            ),
            ProtoEvent::ManualFileRequest { transfer_id, offset: _, length } => {
                if *transfer_id == 0 || *length == 0 || *length as usize
                    > MAX_MANUAL_FILE_CHUNK_SIZE {
                    return Err(ProtocolError::InvalidFileChunk("invalid manual request"));
                }
                Ok(())
            },
            ProtoEvent::ManualFileChunk { transfer_id, offset: _, data } => {
                if *transfer_id == 0 || data.len() == 0 || data.len() > MAX_MANUAL_FILE_CHUNK_SIZE {
                    return Err(ProtocolError::InvalidFileChunk("invalid manual chunk"));
                }
                Ok(())
            },
            ProtoEvent::ManualFileComplete { transfer_id, sha256: _ } => validate_manual_id(
                *transfer_id,
            ),
            ProtoEvent::ManualFileResult { transfer_id, success: _, error } => {
                validate_manual_id(*transfer_id)?;
                if let Some(text) = error {
                    let actual: usize = len_of(text.as_str());
                    if actual > MAX_MANUAL_FILE_ERROR_SIZE {
                        return Err(
                            ProtocolError::TooLarge { actual, limit: MAX_MANUAL_FILE_ERROR_SIZE },
                        );
                    }
                }
                validate_optional_text(error)
            },
            ProtoEvent::ManualFileCancel { transfer_id } => validate_manual_id(*transfer_id),
            ProtoEvent::HistoryClearBoundary { operation_id: _, boundary } => validate_boundary(
                boundary.as_slice(),
            ),
            ProtoEvent::HistoryClearApply { operation_id: _, boundary } => validate_boundary(
                boundary.as_slice(),
            ),
            ProtoEvent::HistoryClearAck { operation_id: _, affected: _, error } =>
                validate_optional_text(error),
            _ => Ok(()),
        }
    }
}

} // verus!
