//! The peer protocol: what two devices say to each other.
//!
//! A message is one datagram: a byte that tells its kind, then its fields,
//! numbers big-endian. Floating-point fields of input events travel as their
//! bit patterns, and that is how they are held here.
//!
//! * [`model`] says what a message is and what its bytes are;
//! * [`validate`] holds the rules that a message has to keep;
//! * [`encode`] and [`decode`] turn messages into datagrams and back;
//! * [`laws`] states what holds of both together;
//! * [`layout`] states where the fields lie;
//! * [`rules`] states which messages are accepted, in numbers;
//! * [`display`] gives the text of a message in a log line.
use vstd::prelude::*;

pub mod canonical;
pub mod decode;
pub mod display;
pub mod encode;
pub mod framing;
pub mod laws;
pub mod layout;
pub mod model;
pub mod rules;
pub mod transfer;
pub mod validate;

verus! {

/// Largest datagram accepted by the application protocol.
pub const MAX_DATAGRAM_SIZE: usize = 16 * 1024;

/// Largest clipboard payload accepted by the protocol.
pub const MAX_CLIPBOARD_SIZE: usize = 64 * 1024 * 1024;

pub const CLIPBOARD_CHUNK_HEADER_SIZE: usize = 1 + 8 + 4;

pub const MAX_CLIPBOARD_CHUNK_SIZE: usize = MAX_DATAGRAM_SIZE - CLIPBOARD_CHUNK_HEADER_SIZE;

pub const MAX_CLIPBOARD_PATH_SIZE: usize = 1024;

pub const MAX_CLIPBOARD_MANIFEST_ENTRIES: usize = 256;

pub const CLIPBOARD_FILE_CHUNK_HEADER_SIZE: usize = 1 + 8 + 8 + 8 + 8;

/// File chunks must survive a single DTLS datagram on a normal 1500 byte
/// path MTU: larger payloads rely on IP fragmentation and are dropped,
/// which stalls a paste after the first request.
pub const SAFE_DATAGRAM_SIZE: usize = 1200;

pub const MAX_CLIPBOARD_FILE_CHUNK_SIZE: usize = SAFE_DATAGRAM_SIZE
    - CLIPBOARD_FILE_CHUNK_HEADER_SIZE;

pub const MAX_MANUAL_FILE_CHUNK_SIZE: usize = SAFE_DATAGRAM_SIZE - (1 + 8 + 8);

pub const MAX_MANUAL_FILE_NAME_SIZE: usize = 1024;

pub const MAX_MANUAL_FILE_ERROR_SIZE: usize = 512;

/// Maximum serialized history record accepted by reconciliation.
pub const MAX_HISTORY_RECORD_SIZE: usize = 48 * 1024 * 1024;

pub const HISTORY_CHUNK_HEADER_SIZE: usize = 1 + 8 + 8 + 4;

pub const MAX_HISTORY_CHUNK_SIZE: usize = SAFE_DATAGRAM_SIZE - HISTORY_CHUNK_HEADER_SIZE;

pub const MAX_HISTORY_BOUNDARY_ENTRIES: usize = 100;

pub const MAX_HISTORY_DEVICE_ID_SIZE: usize = 128;

pub const MAX_PROFILE_NAME_SIZE: usize = 128;

pub const MAX_PROFILE_SIZE: usize = 128 * 128 * 4;

pub const PROFILE_CHUNK_HEADER_SIZE: usize = 1 + 8 + 4;

pub const MAX_PROFILE_CHUNK_SIZE: usize = SAFE_DATAGRAM_SIZE - PROFILE_CHUNK_HEADER_SIZE;

/// What the receiver of an offered file answers.
#[derive(Clone, Copy, Debug, PartialEq, Eq, Structural)]
pub enum ManualDecision {
    Pending,
    Accepted,
    Declined,
}

#[derive(Clone, Copy, Debug, PartialEq, Eq, Structural)]
pub enum ClipboardEntryKind {
    File,
    Directory,
}

/// One file or directory of an announced clipboard.
#[derive(Clone, Debug, PartialEq, Eq)]
pub struct ClipboardManifestEntry {
    pub file_id: u64,
    pub path: String,
    pub kind: ClipboardEntryKind,
    pub size: u64,
}

#[derive(Clone, Copy, Debug, PartialEq, Eq, Structural)]
pub struct ClipboardCapabilities {
    pub text: bool,
    pub image: bool,
    pub files: bool,
}

#[derive(Clone, Copy, Debug, PartialEq, Eq, Structural)]
pub enum ClipboardCancelReason {
    User,
    IoError,
    Protocol,
}

/// Why a message cannot be sent, or a datagram is not a message.
#[derive(Clone, Debug, PartialEq, Eq)]
#[allow(inconsistent_fields)]
pub enum ProtocolError {
    InvalidEventId(u8),
    InvalidPosition(u8),
    Truncated,
    TooLarge { actual: usize, limit: usize },
    InvalidChunkCount { expected: u32, actual: u32 },
    InvalidPath(String),
    InvalidManifest(String),
    LengthOverflow,
    InvalidProgress { completed: u64, total: u64 },
    TrailingBytes(usize),
    InvalidBoolean(u8),
    InvalidCancelReason(u8),
    InvalidFileChunk(&'static str),
    InvalidHistory(&'static str),
    InvalidProfile(&'static str),
}

/// The edge of the screen at which a device sits.
#[derive(Clone, Copy, Debug, PartialEq, Eq, Structural)]
pub enum Position {
    Left,
    Right,
    Top,
    Bottom,
}

/// Pointer input. `dx`, `dy` and the `value` of `Axis` are the bit patterns of
/// double-precision numbers.
#[derive(Clone, Copy, Debug, PartialEq, Eq, Structural)]
#[allow(inconsistent_fields)]
pub enum PointerEvent {
    Motion { time: u32, dx: u64, dy: u64 },
    Button { time: u32, button: u32, state: u32 },
    Axis { time: u32, axis: u8, value: u64 },
    AxisDiscrete120 { axis: u8, value: i32 },
}

#[derive(Clone, Copy, Debug, PartialEq, Eq, Structural)]
pub enum KeyboardEvent {
    Key { time: u32, key: u32, state: u8 },
    Modifiers { depressed: u32, latched: u32, locked: u32, group: u32 },
}

#[derive(Clone, Copy, Debug, PartialEq, Eq, Structural)]
pub enum InputEvent {
    Pointer(PointerEvent),
    Keyboard(KeyboardEvent),
}

/// A message from one device to another.
#[derive(Clone, Debug, PartialEq, Eq)]
#[allow(inconsistent_fields)]
pub enum ProtoEvent {
    Enter(Position),
    Leave(u32),
    Ack(u32),
    Input(InputEvent),
    Ping,
    Pong(bool),
    Hello { commit: [u8; 8] },
    ProfileChanged,
    ProfileRequest { request_id: u64 },
    ProfileStart {
        request_id: u64,
        width: u32,
        height: u32,
        total_len: u32,
        chunks: u32,
        display_name: String,
    },
    ProfileChunk { request_id: u64, index: u32, data: Vec<u8> },
    ClipboardStart { transfer_id: u64, total_len: u32, chunks: u32 },
    ClipboardImageStart {
        transfer_id: u64,
        width: u32,
        height: u32,
        total_len: u32,
        chunks: u32,
    },
    ClipboardChunk { transfer_id: u64, index: u32, data: Vec<u8> },
    ClipboardCapabilities(ClipboardCapabilities),
    ClipboardManifest { transfer_id: u64, entries: Vec<ClipboardManifestEntry> },
    ClipboardFileRequest {
        transfer_id: u64,
        file_id: u64,
        request_id: u64,
        offset: u64,
        length: u64,
    },
    ClipboardFileChunk {
        transfer_id: u64,
        file_id: u64,
        request_id: u64,
        offset: u64,
        data: Vec<u8>,
    },
    ClipboardFileComplete {
        transfer_id: u64,
        file_id: u64,
        request_id: u64,
        size: u64,
        digest: [u8; 32],
    },
    ClipboardTransferCancel {
        transfer_id: u64,
        file_id: Option<u64>,
        reason: ClipboardCancelReason,
    },
    ClipboardTransferProgress { transfer_id: u64, file_id: u64, completed: u64, total: u64 },
    HistorySyncRequest { request_id: u64, offset: u64 },
    HistoryRecordStart { request_id: u64, record_id: u64, total_len: u32, chunks: u32 },
    HistoryRecordChunk { request_id: u64, record_id: u64, index: u32, data: Vec<u8> },
    ManualFileOffer { transfer_id: u64, file_name: String, size: u64 },
    ManualFileDecision { transfer_id: u64, decision: ManualDecision },
    ManualFileRequest { transfer_id: u64, offset: u64, length: u32 },
    ManualFileChunk { transfer_id: u64, offset: u64, data: Vec<u8> },
    ManualFileComplete { transfer_id: u64, sha256: [u8; 32] },
    ManualFileResult { transfer_id: u64, success: bool, error: Option<String> },
    ManualFileCancel { transfer_id: u64 },
    HistorySyncPageEnd { request_id: u64, next_offset: Option<u64> },
    HistoryClearBoundaryRequest { operation_id: [u8; 16] },
    HistoryClearBoundary { operation_id: [u8; 16], boundary: Vec<(String, u64)> },
    HistoryClearApply { operation_id: [u8; 16], boundary: Vec<(String, u64)> },
    HistoryClearAck { operation_id: [u8; 16], affected: u64, error: Option<String> },
}

/// The kind of a message. Its place in this list is the byte on the wire, so
/// new kinds are only ever appended.
#[derive(Clone, Copy, Debug, PartialEq, Eq, Structural)]
pub enum EventType {
    PointerMotion,
    PointerButton,
    PointerAxis,
    PointerAxisValue120,
    KeyboardKey,
    KeyboardModifiers,
    Ping,
    Pong,
    Enter,
    Leave,
    Ack,
    Hello,
    ClipboardStart,
    ClipboardChunk,
    ClipboardImageStart,
    ClipboardCapabilities,
    ClipboardManifest,
    ClipboardFileRequest,
    ClipboardFileChunk,
    ClipboardFileComplete,
    ClipboardTransferCancel,
    ClipboardTransferProgress,
    HistorySyncRequest,
    HistoryRecordStart,
    HistoryRecordChunk,
    HistorySyncPageEnd,
    HistoryClearBoundaryRequest,
    HistoryClearBoundary,
    HistoryClearApply,
    HistoryClearAck,
    ProfileStart,
    ProfileChunk,
    ProfileRequest,
    ProfileChanged,
    ManualFileOffer,
    ManualFileDecision,
    ManualFileRequest,
    ManualFileChunk,
    ManualFileComplete,
    ManualFileResult,
    ManualFileCancel,
}

} // verus!
