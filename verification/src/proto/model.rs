//! What a message is, apart from how it is held in memory, and what its
//! datagram looks like.
use crate::proto::ClipboardCancelReason;
use crate::proto::ClipboardCapabilities;
use crate::proto::ClipboardEntryKind;
use crate::proto::ClipboardManifestEntry;
use crate::proto::EventType;
use crate::proto::InputEvent;
use crate::proto::KeyboardEvent;
use crate::proto::ManualDecision;
use crate::proto::PointerEvent;
use crate::proto::Position;
use crate::proto::ProtoEvent;
use crate::proto::ProtocolError;
use crate::wire::be16;
use crate::wire::be32;
use crate::wire::be64;
use crate::wire::bits32;
use crate::wire::flag;
use vstd::prelude::*;
use vstd::utf8::encode_utf8;

verus! {

/// A manifest entry with its path as characters.
pub ghost struct EntryModel {
    pub file_id: u64,
    pub path: Seq<char>,
    pub kind: ClipboardEntryKind,
    pub size: u64,
}

/// A message with its texts as characters and its payloads as bytes.
#[allow(inconsistent_fields)]
pub ghost enum EventModel {
    Enter(Position),
    Leave(u32),
    Ack(u32),
    Input(InputEvent),
    Ping,
    Pong(bool),
    Hello { commit: Seq<u8> },
    ProfileChanged,
    ProfileRequest { request_id: u64 },
    ProfileStart {
        request_id: u64,
        width: u32,
        height: u32,
        total_len: u32,
        chunks: u32,
        display_name: Seq<char>,
    },
    ProfileChunk { request_id: u64, index: u32, data: Seq<u8> },
    ClipboardStart { transfer_id: u64, total_len: u32, chunks: u32 },
    ClipboardImageStart {
        transfer_id: u64,
        width: u32,
        height: u32,
        total_len: u32,
        chunks: u32,
    },
    ClipboardChunk { transfer_id: u64, index: u32, data: Seq<u8> },
    ClipboardCapabilities(ClipboardCapabilities),
    ClipboardManifest { transfer_id: u64, entries: Seq<EntryModel> },
    ClipboardFileRequest {
        transfer_id: u64,
        file_id: u64,
        request_id: u64,
        offset: u64,
        length: u64,
    },
    ClipboardFileChunk {
        transfer_id: u64,
        file_id: u64,
        request_id: u64,
        offset: u64,
        data: Seq<u8>,
    },
    ClipboardFileComplete {
        transfer_id: u64,
        file_id: u64,
        request_id: u64,
        size: u64,
        digest: Seq<u8>,
    },
    ClipboardTransferCancel {
        transfer_id: u64,
        file_id: Option<u64>,
        reason: ClipboardCancelReason,
    },
    ClipboardTransferProgress { transfer_id: u64, file_id: u64, completed: u64, total: u64 },
    HistorySyncRequest { request_id: u64, offset: u64 },
    HistoryRecordStart { request_id: u64, record_id: u64, total_len: u32, chunks: u32 },
    HistoryRecordChunk { request_id: u64, record_id: u64, index: u32, data: Seq<u8> },
    ManualFileOffer { transfer_id: u64, file_name: Seq<char>, size: u64 },
    ManualFileDecision { transfer_id: u64, decision: ManualDecision },
    ManualFileRequest { transfer_id: u64, offset: u64, length: u32 },
    ManualFileChunk { transfer_id: u64, offset: u64, data: Seq<u8> },
    ManualFileComplete { transfer_id: u64, sha256: Seq<u8> },
    ManualFileResult { transfer_id: u64, success: bool, error: Option<Seq<char>> },
    ManualFileCancel { transfer_id: u64 },
    HistorySyncPageEnd { request_id: u64, next_offset: Option<u64> },
    HistoryClearBoundaryRequest { operation_id: Seq<u8> },
    HistoryClearBoundary { operation_id: Seq<u8>, boundary: Seq<(Seq<char>, u64)> },
    HistoryClearApply { operation_id: Seq<u8>, boundary: Seq<(Seq<char>, u64)> },
    HistoryClearAck { operation_id: Seq<u8>, affected: u64, error: Option<Seq<char>> },
}

/// A protocol error with its texts as characters.
#[allow(inconsistent_fields)]
pub ghost enum Fault {
    InvalidEventId(u8),
    InvalidPosition(u8),
    Truncated,
    TooLarge { actual: usize, limit: usize },
    InvalidChunkCount { expected: u32, actual: u32 },
    InvalidPath(Seq<char>),
    InvalidManifest(Seq<char>),
    LengthOverflow,
    InvalidProgress { completed: u64, total: u64 },
    TrailingBytes(usize),
    InvalidBoolean(u8),
    InvalidCancelReason(u8),
    InvalidFileChunk(Seq<char>),
    InvalidHistory(Seq<char>),
    InvalidProfile(Seq<char>),
}

impl View for ClipboardManifestEntry {
    type V = EntryModel;

    open spec fn view(&self) -> EntryModel {
        EntryModel {
            file_id: self.file_id,
            path: self.path@,
            kind: self.kind,
            size: self.size,
        }
    }
}

impl View for ProtocolError {
    type V = Fault;

    open spec fn view(&self) -> Fault {
        match *self {
            ProtocolError::InvalidEventId(id) => Fault::InvalidEventId(id),
            ProtocolError::InvalidPosition(id) => Fault::InvalidPosition(id),
            ProtocolError::Truncated => Fault::Truncated,
            ProtocolError::TooLarge { actual, limit } => Fault::TooLarge { actual, limit },
            ProtocolError::InvalidChunkCount { expected, actual } => Fault::InvalidChunkCount {
                expected,
                actual,
            },
            ProtocolError::InvalidPath(path) => Fault::InvalidPath(path@),
            ProtocolError::InvalidManifest(reason) => Fault::InvalidManifest(reason@),
            ProtocolError::LengthOverflow => Fault::LengthOverflow,
            ProtocolError::InvalidProgress { completed, total } => Fault::InvalidProgress {
                completed,
                total,
            },
            ProtocolError::TrailingBytes(count) => Fault::TrailingBytes(count),
            ProtocolError::InvalidBoolean(value) => Fault::InvalidBoolean(value),
            ProtocolError::InvalidCancelReason(value) => Fault::InvalidCancelReason(value),
            ProtocolError::InvalidFileChunk(reason) => Fault::InvalidFileChunk(reason@),
            ProtocolError::InvalidHistory(reason) => Fault::InvalidHistory(reason@),
            ProtocolError::InvalidProfile(reason) => Fault::InvalidProfile(reason@),
        }
    }
}

/// The characters of an optional text.
pub open spec fn text_of(s: Option<String>) -> Option<Seq<char>> {
    match s {
        Some(s) => Some(s@),
        None => None,
    }
}

/// A clear boundary with its device names as characters.
pub open spec fn boundary_of(b: Seq<(String, u64)>) -> Seq<(Seq<char>, u64)> {
    Seq::new(b.len(), |i: int| (b[i].0@, b[i].1))
}

/// Manifest entries with their paths as characters.
pub open spec fn entries_of(e: Seq<ClipboardManifestEntry>) -> Seq<EntryModel> {
    Seq::new(e.len(), |i: int| e[i]@)
}

impl View for ProtoEvent {
    type V = EventModel;

    open spec fn view(&self) -> EventModel {
        match *self {
            ProtoEvent::Enter(position) => EventModel::Enter(position),
            ProtoEvent::Leave(serial) => EventModel::Leave(serial),
            ProtoEvent::Ack(serial) => EventModel::Ack(serial),
            ProtoEvent::Input(event) => EventModel::Input(event),
            ProtoEvent::Ping => EventModel::Ping,
            ProtoEvent::Pong(alive) => EventModel::Pong(alive),
            ProtoEvent::Hello { commit } => EventModel::Hello { commit: commit@ },
            ProtoEvent::ProfileChanged => EventModel::ProfileChanged,
            ProtoEvent::ProfileRequest { request_id } => EventModel::ProfileRequest { request_id },
            ProtoEvent::ProfileStart {
                request_id,
                width,
                height,
                total_len,
                chunks,
                display_name,
            } => EventModel::ProfileStart {
                request_id,
                width,
                height,
                total_len,
                chunks,
                display_name: display_name@,
            },
            ProtoEvent::ProfileChunk { request_id, index, data } => EventModel::ProfileChunk {
                request_id,
                index,
                data: data@,
            },
            ProtoEvent::ClipboardStart { transfer_id, total_len, chunks } =>
                EventModel::ClipboardStart { transfer_id, total_len, chunks },
            ProtoEvent::ClipboardImageStart { transfer_id, width, height, total_len, chunks } =>
                EventModel::ClipboardImageStart { transfer_id, width, height, total_len, chunks },
            ProtoEvent::ClipboardChunk { transfer_id, index, data } => EventModel::ClipboardChunk {
                transfer_id,
                index,
                data: data@,
            },
            ProtoEvent::ClipboardCapabilities(c) => EventModel::ClipboardCapabilities(c),
            ProtoEvent::ClipboardManifest { transfer_id, entries } =>
                EventModel::ClipboardManifest { transfer_id, entries: entries_of(entries@) },
            ProtoEvent::ClipboardFileRequest {
                transfer_id,
                file_id,
                request_id,
                offset,
                length,
            } => EventModel::ClipboardFileRequest {
                transfer_id,
                file_id,
                request_id,
                offset,
                length,
            },
            ProtoEvent::ClipboardFileChunk { transfer_id, file_id, request_id, offset, data } =>
                EventModel::ClipboardFileChunk {
                transfer_id,
                file_id,
                request_id,
                offset,
                data: data@,
            },
            ProtoEvent::ClipboardFileComplete {
                transfer_id,
                file_id,
                request_id,
                size,
                digest,
            } => EventModel::ClipboardFileComplete {
                transfer_id,
                file_id,
                request_id,
                size,
                digest: digest@,
            },
            ProtoEvent::ClipboardTransferCancel { transfer_id, file_id, reason } =>
                EventModel::ClipboardTransferCancel { transfer_id, file_id, reason },
            ProtoEvent::ClipboardTransferProgress { transfer_id, file_id, completed, total } =>
                EventModel::ClipboardTransferProgress { transfer_id, file_id, completed, total },
            ProtoEvent::HistorySyncRequest { request_id, offset } =>
                EventModel::HistorySyncRequest { request_id, offset },
            ProtoEvent::HistoryRecordStart { request_id, record_id, total_len, chunks } =>
                EventModel::HistoryRecordStart { request_id, record_id, total_len, chunks },
            ProtoEvent::HistoryRecordChunk { request_id, record_id, index, data } =>
                EventModel::HistoryRecordChunk { request_id, record_id, index, data: data@ },
            ProtoEvent::ManualFileOffer { transfer_id, file_name, size } =>
                EventModel::ManualFileOffer { transfer_id, file_name: file_name@, size },
            ProtoEvent::ManualFileDecision { transfer_id, decision } =>
                EventModel::ManualFileDecision { transfer_id, decision },
            ProtoEvent::ManualFileRequest { transfer_id, offset, length } =>
                EventModel::ManualFileRequest { transfer_id, offset, length },
            ProtoEvent::ManualFileChunk { transfer_id, offset, data } =>
                EventModel::ManualFileChunk { transfer_id, offset, data: data@ },
            ProtoEvent::ManualFileComplete { transfer_id, sha256 } =>
                EventModel::ManualFileComplete { transfer_id, sha256: sha256@ },
            ProtoEvent::ManualFileResult { transfer_id, success, error } =>
                EventModel::ManualFileResult { transfer_id, success, error: text_of(error) },
            ProtoEvent::ManualFileCancel { transfer_id } => EventModel::ManualFileCancel {
                transfer_id,
            },
            ProtoEvent::HistorySyncPageEnd { request_id, next_offset } =>
                EventModel::HistorySyncPageEnd { request_id, next_offset },
            ProtoEvent::HistoryClearBoundaryRequest { operation_id } =>
                EventModel::HistoryClearBoundaryRequest { operation_id: operation_id@ },
            ProtoEvent::HistoryClearBoundary { operation_id, boundary } =>
                EventModel::HistoryClearBoundary {
                operation_id: operation_id@,
                boundary: boundary_of(boundary@),
            },
            ProtoEvent::HistoryClearApply { operation_id, boundary } =>
                EventModel::HistoryClearApply {
                operation_id: operation_id@,
                boundary: boundary_of(boundary@),
            },
            ProtoEvent::HistoryClearAck { operation_id, affected, error } =>
                EventModel::HistoryClearAck {
                operation_id: operation_id@,
                affected,
                error: text_of(error),
            },
        }
    }
}

/// The byte that stands for a kind of message.
pub open spec fn type_id(t: EventType) -> u8 {
    match t {
        EventType::PointerMotion => 0,
        EventType::PointerButton => 1,
        EventType::PointerAxis => 2,
        EventType::PointerAxisValue120 => 3,
        EventType::KeyboardKey => 4,
        EventType::KeyboardModifiers => 5,
        EventType::Ping => 6,
        EventType::Pong => 7,
        EventType::Enter => 8,
        EventType::Leave => 9,
        EventType::Ack => 10,
        EventType::Hello => 11,
        EventType::ClipboardStart => 12,
        EventType::ClipboardChunk => 13,
        EventType::ClipboardImageStart => 14,
        EventType::ClipboardCapabilities => 15,
        EventType::ClipboardManifest => 16,
        EventType::ClipboardFileRequest => 17,
        EventType::ClipboardFileChunk => 18,
        EventType::ClipboardFileComplete => 19,
        EventType::ClipboardTransferCancel => 20,
        EventType::ClipboardTransferProgress => 21,
        EventType::HistorySyncRequest => 22,
        EventType::HistoryRecordStart => 23,
        EventType::HistoryRecordChunk => 24,
        EventType::HistorySyncPageEnd => 25,
        EventType::HistoryClearBoundaryRequest => 26,
        EventType::HistoryClearBoundary => 27,
        EventType::HistoryClearApply => 28,
        EventType::HistoryClearAck => 29,
        EventType::ProfileStart => 30,
        EventType::ProfileChunk => 31,
        EventType::ProfileRequest => 32,
        EventType::ProfileChanged => 33,
        EventType::ManualFileOffer => 34,
        EventType::ManualFileDecision => 35,
        EventType::ManualFileRequest => 36,
        EventType::ManualFileChunk => 37,
        EventType::ManualFileComplete => 38,
        EventType::ManualFileResult => 39,
        EventType::ManualFileCancel => 40,
    }
}

/// How many kinds of message there are.
pub const EVENT_TYPES: u8 = 41;

/// The byte that stands for a position.
pub open spec fn position_id(p: Position) -> u8 {
    match p {
        Position::Left => 0,
        Position::Right => 1,
        Position::Top => 2,
        Position::Bottom => 3,
    }
}

pub open spec fn decision_id(d: ManualDecision) -> u8 {
    match d {
        ManualDecision::Pending => 0,
        ManualDecision::Accepted => 1,
        ManualDecision::Declined => 2,
    }
}

pub open spec fn reason_id(r: ClipboardCancelReason) -> u8 {
    match r {
        ClipboardCancelReason::User => 0,
        ClipboardCancelReason::IoError => 1,
        ClipboardCancelReason::Protocol => 2,
    }
}

pub open spec fn kind_id(k: ClipboardEntryKind) -> u8 {
    flag(k == ClipboardEntryKind::File)
}

/// The kind of a message.
pub open spec fn kind_of(e: EventModel) -> EventType {
    match e {
        EventModel::Input(InputEvent::Pointer(PointerEvent::Motion { .. })) =>
            EventType::PointerMotion,
        EventModel::Input(InputEvent::Pointer(PointerEvent::Button { .. })) =>
            EventType::PointerButton,
        EventModel::Input(InputEvent::Pointer(PointerEvent::Axis { .. })) => EventType::PointerAxis,
        EventModel::Input(InputEvent::Pointer(PointerEvent::AxisDiscrete120 { .. })) =>
            EventType::PointerAxisValue120,
        EventModel::Input(InputEvent::Keyboard(KeyboardEvent::Key { .. })) =>
            EventType::KeyboardKey,
        EventModel::Input(InputEvent::Keyboard(KeyboardEvent::Modifiers { .. })) =>
            EventType::KeyboardModifiers,
        EventModel::Ping => EventType::Ping,
        EventModel::Pong(_) => EventType::Pong,
        EventModel::Enter(_) => EventType::Enter,
        EventModel::Leave(_) => EventType::Leave,
        EventModel::Ack(_) => EventType::Ack,
        EventModel::Hello { .. } => EventType::Hello,
        EventModel::ClipboardStart { .. } => EventType::ClipboardStart,
        EventModel::ClipboardChunk { .. } => EventType::ClipboardChunk,
        EventModel::ClipboardImageStart { .. } => EventType::ClipboardImageStart,
        EventModel::ClipboardCapabilities(_) => EventType::ClipboardCapabilities,
        EventModel::ClipboardManifest { .. } => EventType::ClipboardManifest,
        EventModel::ClipboardFileRequest { .. } => EventType::ClipboardFileRequest,
        EventModel::ClipboardFileChunk { .. } => EventType::ClipboardFileChunk,
        EventModel::ClipboardFileComplete { .. } => EventType::ClipboardFileComplete,
        EventModel::ClipboardTransferCancel { .. } => EventType::ClipboardTransferCancel,
        EventModel::ClipboardTransferProgress { .. } => EventType::ClipboardTransferProgress,
        EventModel::HistorySyncRequest { .. } => EventType::HistorySyncRequest,
        EventModel::HistoryRecordStart { .. } => EventType::HistoryRecordStart,
        EventModel::HistoryRecordChunk { .. } => EventType::HistoryRecordChunk,
        EventModel::HistorySyncPageEnd { .. } => EventType::HistorySyncPageEnd,
        EventModel::HistoryClearBoundaryRequest { .. } => EventType::HistoryClearBoundaryRequest,
        EventModel::HistoryClearBoundary { .. } => EventType::HistoryClearBoundary,
        EventModel::HistoryClearApply { .. } => EventType::HistoryClearApply,
        EventModel::HistoryClearAck { .. } => EventType::HistoryClearAck,
        EventModel::ProfileStart { .. } => EventType::ProfileStart,
        EventModel::ProfileChunk { .. } => EventType::ProfileChunk,
        EventModel::ProfileRequest { .. } => EventType::ProfileRequest,
        EventModel::ProfileChanged => EventType::ProfileChanged,
        EventModel::ManualFileOffer { .. } => EventType::ManualFileOffer,
        EventModel::ManualFileDecision { .. } => EventType::ManualFileDecision,
        EventModel::ManualFileRequest { .. } => EventType::ManualFileRequest,
        EventModel::ManualFileChunk { .. } => EventType::ManualFileChunk,
        EventModel::ManualFileComplete { .. } => EventType::ManualFileComplete,
        EventModel::ManualFileResult { .. } => EventType::ManualFileResult,
        EventModel::ManualFileCancel { .. } => EventType::ManualFileCancel,
    }
}

/// A text with its length in bytes in front, in two bytes.
pub open spec fn text_bytes(s: Seq<char>) -> Seq<u8> {
    be16(encode_utf8(s).len() as u16) + encode_utf8(s)
}

/// An optional text: the length 0 stands for none.
pub open spec fn optional_text_bytes(s: Option<Seq<char>>) -> Seq<u8> {
    match s {
        None => be16(0),
        Some(s) => text_bytes(s),
    }
}

/// An optional number: a flag, then the number where there is one.
pub open spec fn optional_u64_bytes(v: Option<u64>) -> Seq<u8> {
    match v {
        None => seq![0u8],
        Some(v) => seq![1u8] + be64(v),
    }
}

pub open spec fn entry_bytes(e: EntryModel) -> Seq<u8> {
    be64(e.file_id) + seq![kind_id(e.kind)] + text_bytes(e.path) + be64(e.size)
}

/// Manifest entries, one after the other.
pub open spec fn entries_bytes(entries: Seq<EntryModel>) -> Seq<u8>
    decreases entries.len(),
{
    if entries.len() == 0 {
        Seq::empty()
    } else {
        entries_bytes(entries.drop_last()) + entry_bytes(entries.last())
    }
}

/// The devices of a clear boundary, one after the other.
pub open spec fn devices_bytes(boundary: Seq<(Seq<char>, u64)>) -> Seq<u8>
    decreases boundary.len(),
{
    if boundary.len() == 0 {
        Seq::empty()
    } else {
        devices_bytes(boundary.drop_last()) + (text_bytes(boundary.last().0) + be64(
            boundary.last().1,
        ))
    }
}

pub open spec fn boundary_bytes(boundary: Seq<(Seq<char>, u64)>) -> Seq<u8> {
    be16(boundary.len() as u16) + devices_bytes(boundary)
}

/// The fields of an input event.
pub open spec fn input_bytes(e: InputEvent) -> Seq<u8> {
    match e {
        InputEvent::Pointer(PointerEvent::Motion { time, dx, dy }) => be32(time) + be64(dx) + be64(
            dy,
        ),
        InputEvent::Pointer(PointerEvent::Button { time, button, state }) => be32(time) + be32(
            button,
        ) + be32(state),
        InputEvent::Pointer(PointerEvent::Axis { time, axis, value }) => be32(time) + seq![axis]
            + be64(value),
        InputEvent::Pointer(PointerEvent::AxisDiscrete120 { axis, value }) => seq![axis] + be32(
            bits32(value),
        ),
        InputEvent::Keyboard(KeyboardEvent::Key { time, key, state }) => be32(time) + be32(key)
            + seq![state],
        InputEvent::Keyboard(KeyboardEvent::Modifiers { depressed, latched, locked, group }) =>
            be32(depressed) + be32(latched) + be32(locked) + be32(group),
    }
}

/// The fields of a message, in the order in which they travel.
pub open spec fn body(e: EventModel) -> Seq<u8> {
    match e {
        EventModel::Enter(position) => seq![position_id(position)],
        EventModel::Leave(serial) => be32(serial),
        EventModel::Ack(serial) => be32(serial),
        EventModel::Input(event) => input_bytes(event),
        EventModel::Ping => Seq::empty(),
        EventModel::Pong(alive) => seq![flag(alive)],
        EventModel::Hello { commit } => commit,
        EventModel::ProfileChanged => Seq::empty(),
        EventModel::ProfileRequest { request_id } => be64(request_id),
        EventModel::ProfileStart {
            request_id,
            width,
            height,
            total_len,
            chunks,
            display_name,
        } => be64(request_id) + be32(width) + be32(height) + be32(total_len) + be32(chunks)
            + seq![encode_utf8(display_name).len() as u8] + encode_utf8(display_name),
        EventModel::ProfileChunk { request_id, index, data } => be64(request_id) + be32(index)
            + data,
        EventModel::ClipboardStart { transfer_id, total_len, chunks } => be64(transfer_id) + be32(
            total_len,
        ) + be32(chunks),
        EventModel::ClipboardImageStart { transfer_id, width, height, total_len, chunks } => be64(
            transfer_id,
        ) + be32(width) + be32(height) + be32(total_len) + be32(chunks),
        EventModel::ClipboardChunk { transfer_id, index, data } => be64(transfer_id) + be32(index)
            + data,
        EventModel::ClipboardCapabilities(c) => seq![flag(c.text), flag(c.image), flag(c.files)],
        EventModel::ClipboardManifest { transfer_id, entries } => be64(transfer_id) + be32(
            entries.len() as u32,
        ) + entries_bytes(entries),
        EventModel::ClipboardFileRequest { transfer_id, file_id, request_id, offset, length } =>
            be64(transfer_id) + be64(file_id) + be64(request_id) + be64(offset) + be64(length),
        EventModel::ClipboardFileChunk { transfer_id, file_id, request_id, offset, data } => be64(
            transfer_id,
        ) + be64(file_id) + be64(request_id) + be64(offset) + data,
        EventModel::ClipboardFileComplete { transfer_id, file_id, request_id, size, digest } =>
            be64(transfer_id) + be64(file_id) + be64(request_id) + be64(size) + digest,
        EventModel::ClipboardTransferCancel { transfer_id, file_id, reason } => be64(transfer_id)
            + be64(file_id.unwrap_or(0)) + seq![reason_id(reason)],
        EventModel::ClipboardTransferProgress { transfer_id, file_id, completed, total } => be64(
            transfer_id,
        ) + be64(file_id) + be64(completed) + be64(total),
        EventModel::HistorySyncRequest { request_id, offset } => be64(request_id) + be64(offset),
        EventModel::HistoryRecordStart { request_id, record_id, total_len, chunks } => be64(
            request_id,
        ) + be64(record_id) + be32(total_len) + be32(chunks),
        EventModel::HistoryRecordChunk { request_id, record_id, index, data } => be64(request_id)
            + be64(record_id) + be32(index) + data,
        EventModel::ManualFileOffer { transfer_id, file_name, size } => be64(transfer_id)
            + text_bytes(file_name) + be64(size),
        EventModel::ManualFileDecision { transfer_id, decision } => be64(transfer_id)
            + seq![decision_id(decision)],
        EventModel::ManualFileRequest { transfer_id, offset, length } => be64(transfer_id) + be64(
            offset,
        ) + be32(length),
        EventModel::ManualFileChunk { transfer_id, offset, data } => be64(transfer_id) + be64(
            offset,
        ) + data,
        EventModel::ManualFileComplete { transfer_id, sha256 } => be64(transfer_id) + sha256,
        EventModel::ManualFileResult { transfer_id, success, error } => be64(transfer_id)
            + seq![flag(success)] + optional_text_bytes(error),
        EventModel::ManualFileCancel { transfer_id } => be64(transfer_id),
        EventModel::HistorySyncPageEnd { request_id, next_offset } => be64(request_id)
            + optional_u64_bytes(next_offset),
        EventModel::HistoryClearBoundaryRequest { operation_id } => operation_id,
        EventModel::HistoryClearBoundary { operation_id, boundary } => operation_id
            + boundary_bytes(boundary),
        EventModel::HistoryClearApply { operation_id, boundary } => operation_id + boundary_bytes(
            boundary,
        ),
        EventModel::HistoryClearAck { operation_id, affected, error } => operation_id + be64(
            affected,
        ) + optional_text_bytes(error),
    }
}

/// The datagram of a message: its kind, then its fields.
pub open spec fn datagram(e: EventModel) -> Seq<u8> {
    seq![type_id(kind_of(e))] + body(e)
}

/// A number of bytes as a length in memory, where it fits.
pub open spec fn as_length(n: int) -> usize {
    if n <= usize::MAX {
        n as usize
    } else {
        usize::MAX
    }
}

} // verus!
