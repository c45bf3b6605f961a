//! The text of a message in a log line.
use crate::proto::model::EventModel;
use crate::proto::model::Fault;
use crate::proto::ManualDecision;
use crate::proto::Position;
use crate::proto::ProtoEvent;
use crate::proto::ProtocolError;
use crate::text::debug_of;
use crate::text::debug_text;
use crate::text::decimal;
use crate::text::hex_byte;
use crate::text::push_decimal;
use crate::text::push_hex_byte;
use crate::text::text_from_utf8;
use vstd::prelude::*;
use vstd::utf8::decode_utf8;
use vstd::utf8::valid_utf8;

verus! {

pub open spec fn position_text(p: Position) -> Seq<char> {
    match p {
        Position::Left => "left"@,
        Position::Right => "right"@,
        Position::Top => "top"@,
        Position::Bottom => "bottom"@,
    }
}

pub open spec fn decision_text(d: ManualDecision) -> Seq<char> {
    match d {
        ManualDecision::Pending => "Pending"@,
        ManualDecision::Accepted => "Accepted"@,
        ManualDecision::Declined => "Declined"@,
    }
}

/// Bytes in hexadecimal, with a comma and a space between them.
pub open spec fn hex_list(bytes: Seq<u8>) -> Seq<char>
    decreases bytes.len(),
{
    if bytes.len() == 0 {
        Seq::empty()
    } else if bytes.len() == 1 {
        hex_byte(bytes[0])
    } else {
        hex_list(bytes.drop_last()) + ", "@ + hex_byte(bytes.last())
    }
}

pub open spec fn optional_number_text(n: Option<u64>) -> Seq<char> {
    match n {
        Some(n) => "Some("@ + decimal(n as nat) + ")"@,
        None => "None"@,
    }
}

pub open spec fn optional_debug_text(s: Option<Seq<char>>) -> Seq<char> {
    match s {
        Some(s) => "Some("@ + debug_text(s) + ")"@,
        None => "None"@,
    }
}

/// The text of a message; `input` is the text of its input event, where it is
/// one.
pub open spec fn event_text(e: EventModel, input: Seq<char>) -> Seq<char> {
    match e {
        EventModel::Enter(position) => "Enter("@ + position_text(position) + ")"@,
        EventModel::Leave(serial) => "Leave("@ + decimal(serial as nat) + ")"@,
        EventModel::Ack(serial) => "Ack("@ + decimal(serial as nat) + ")"@,
        EventModel::Input(_) => input,
        EventModel::Ping => "ping"@,
        EventModel::Pong(alive) => if alive {
            "pong: alive"@
        } else {
            "pong: not available"@
        },
        EventModel::Hello { commit } => "Hello("@ + (if valid_utf8(commit) {
            decode_utf8(commit)
        } else {
            "????????"@
        }) + ")"@,
        EventModel::ProfileRequest { request_id } => "ProfileRequest("@ + decimal(
            request_id as nat,
        ) + ")"@,
        EventModel::ProfileChanged => "ProfileChanged"@,
        EventModel::ProfileStart {
            request_id,
            width,
            height,
            total_len,
            chunks,
            display_name,
        } => "ProfileStart("@ + decimal(request_id as nat) + ", "@ + decimal(width as nat) + "x"@
            + decimal(height as nat) + ", "@ + decimal(total_len as nat) + " bytes, "@ + decimal(
            chunks as nat,
        ) + " chunks)"@,
        EventModel::ProfileChunk { request_id, index, data } => "ProfileChunk("@ + decimal(
            request_id as nat,
        ) + ", "@ + decimal(index as nat) + ", "@ + decimal(data.len()) + " bytes)"@,
        EventModel::ClipboardStart { transfer_id, total_len, chunks } => "ClipboardStart("@
            + decimal(transfer_id as nat) + ", "@ + decimal(total_len as nat) + " bytes, "@
            + decimal(chunks as nat) + " chunks)"@,
        EventModel::ClipboardImageStart { transfer_id, width, height, total_len, chunks } =>
            "ClipboardImageStart("@ + decimal(transfer_id as nat) + ", "@ + decimal(width as nat)
            + "x"@ + decimal(height as nat) + ", "@ + decimal(total_len as nat) + " bytes, "@
            + decimal(chunks as nat) + " chunks)"@,
        EventModel::ClipboardChunk { transfer_id, index, data } => "ClipboardChunk("@ + decimal(
            transfer_id as nat,
        ) + ", "@ + decimal(index as nat) + ", "@ + decimal(data.len()) + " bytes)"@,
        EventModel::ClipboardFileRequest { transfer_id, file_id, request_id, offset, length } =>
            "ClipboardFileRequest("@ + decimal(transfer_id as nat) + ", "@ + decimal(file_id as nat)
            + ", "@ + decimal(request_id as nat) + ", "@ + decimal(offset as nat) + ", "@ + decimal(
            length as nat,
        ) + " bytes)"@,
        EventModel::ClipboardFileChunk { transfer_id, file_id, request_id, offset, data } =>
            "ClipboardFileChunk("@ + decimal(transfer_id as nat) + ", "@ + decimal(file_id as nat)
            + ", "@ + decimal(request_id as nat) + ", "@ + decimal(offset as nat) + ", "@ + decimal(
            data.len(),
        ) + " bytes)"@,
        EventModel::ClipboardFileComplete { transfer_id, file_id, request_id, size, digest } =>
            "ClipboardFileComplete("@ + decimal(transfer_id as nat) + ", "@ + decimal(
            file_id as nat,
        ) + ", "@ + decimal(request_id as nat) + ", "@ + decimal(size as nat) + " bytes)"@,
        EventModel::ManualFileOffer { transfer_id, file_name, size } => "ManualFileOffer("@
            + decimal(transfer_id as nat) + ", "@ + debug_text(file_name) + ", "@ + decimal(
            size as nat,
        ) + " bytes)"@,
        EventModel::ManualFileDecision { transfer_id, decision } => "ManualFileDecision("@
            + decimal(transfer_id as nat) + ", "@ + decision_text(decision) + ")"@,
        EventModel::ManualFileRequest { transfer_id, offset, length } => "ManualFileRequest("@
            + decimal(transfer_id as nat) + ", "@ + decimal(offset as nat) + ", "@ + decimal(
            length as nat,
        ) + " bytes)"@,
        EventModel::ManualFileChunk { transfer_id, offset, data } => "ManualFileChunk("@ + decimal(
            transfer_id as nat,
        ) + ", "@ + decimal(offset as nat) + ", "@ + decimal(data.len()) + " bytes)"@,
        EventModel::ManualFileComplete { transfer_id, sha256 } => "ManualFileComplete("@ + decimal(
            transfer_id as nat,
        ) + ")"@,
        EventModel::ManualFileResult { transfer_id, success, error } => "ManualFileResult("@
            + decimal(transfer_id as nat) + (if success {
            ", true, "@
        } else {
            ", false, "@
        }) + optional_debug_text(error) + ")"@,
        EventModel::ManualFileCancel { transfer_id } => "ManualFileCancel("@ + decimal(
            transfer_id as nat,
        ) + ")"@,
        EventModel::ClipboardCapabilities(_) => "clipboard file transfer"@,
        EventModel::ClipboardManifest { .. } => "clipboard file transfer"@,
        EventModel::ClipboardTransferCancel { .. } => "clipboard file transfer"@,
        EventModel::ClipboardTransferProgress { .. } => "clipboard file transfer"@,
        EventModel::HistorySyncRequest { request_id, offset } => "HistorySyncRequest("@ + decimal(
            request_id as nat,
        ) + ", offset "@ + decimal(offset as nat) + ")"@,
        EventModel::HistoryRecordStart { request_id, record_id, total_len, chunks } =>
            "HistoryRecordStart("@ + decimal(request_id as nat) + ", "@ + decimal(record_id as nat)
            + ", "@ + decimal(total_len as nat) + " bytes, "@ + decimal(chunks as nat)
            + " chunks)"@,
        EventModel::HistoryRecordChunk { request_id, record_id, index, data } =>
            "HistoryRecordChunk("@ + decimal(request_id as nat) + ", "@ + decimal(record_id as nat)
            + ", "@ + decimal(index as nat) + ", "@ + decimal(data.len()) + " bytes)"@,
        EventModel::HistorySyncPageEnd { request_id, next_offset } => "HistorySyncPageEnd("@
            + decimal(request_id as nat) + ", "@ + optional_number_text(next_offset) + ")"@,
        EventModel::HistoryClearBoundaryRequest { operation_id } => clear_text(operation_id),
        EventModel::HistoryClearBoundary { operation_id, boundary } => clear_text(operation_id),
        EventModel::HistoryClearApply { operation_id, boundary } => clear_text(operation_id),
        EventModel::HistoryClearAck { operation_id, affected, error } => clear_text(operation_id),
    }
}

pub open spec fn clear_text(operation_id: Seq<u8>) -> Seq<char> {
    "history clear ["@ + hex_list(operation_id) + "]"@
}

/// The text of an error.
pub open spec fn fault_text(f: Fault) -> Seq<char> {
    match f {
        Fault::InvalidEventId(id) =>
            "invalid event id: `No discriminant in enum `EventType` matches the value `"@ + decimal(
            id as nat,
        ) + "``"@,
        Fault::InvalidPosition(id) =>
            "invalid position: `No discriminant in enum `Position` matches the value `"@ + decimal(
            id as nat,
        ) + "``"@,
        Fault::Truncated => "truncated event"@,
        Fault::TooLarge { actual, limit } => "event exceeds protocol limit: "@ + decimal(
            actual as nat,
        ) + " > "@ + decimal(limit as nat),
        Fault::InvalidChunkCount { expected, actual } =>
            "invalid clipboard chunk count: expected "@ + decimal(expected as nat) + ", got "@
            + decimal(actual as nat),
        Fault::InvalidPath(path) => "invalid clipboard path: "@ + path,
        Fault::InvalidManifest(reason) => "invalid clipboard manifest: "@ + reason,
        Fault::LengthOverflow => "integer overflow"@,
        Fault::InvalidProgress { completed, total } => "invalid progress: "@ + decimal(
            completed as nat,
        ) + " > "@ + decimal(total as nat),
        Fault::TrailingBytes(count) => "trailing bytes: "@ + decimal(count as nat),
        Fault::InvalidBoolean(value) => "invalid boolean value: "@ + decimal(value as nat),
        Fault::InvalidCancelReason(value) => "invalid clipboard cancel reason: "@ + decimal(
            value as nat,
        ),
        Fault::InvalidFileChunk(reason) => "invalid clipboard file chunk: "@ + reason,
        Fault::InvalidHistory(reason) => "invalid history protocol message: "@ + reason,
        Fault::InvalidProfile(reason) => "invalid peer profile message: "@ + reason,
    }
}

impl Position {
    /// The name of the position.
    pub fn to_text(&self) -> (s: &'static str)
        ensures
            s@ == position_text(*self),
    {
        match self {
            Position::Left => "left",
            Position::Right => "right",
            Position::Top => "top",
            Position::Bottom => "bottom",
        }
    }
}

impl ManualDecision {
    /// The name of the decision.
    pub fn to_text(&self) -> (s: &'static str)
        ensures
            s@ == decision_text(*self),
    {
        match self {
            ManualDecision::Pending => "Pending",
            ManualDecision::Accepted => "Accepted",
            ManualDecision::Declined => "Declined",
        }
    }
}

fn push_optional_number(s: &mut String, n: Option<u64>)
    ensures
        final(s)@ == old(s)@ + optional_number_text(n),
{
    match n {
        Some(n) => {
            s.push_str("Some(");
            push_decimal(s, n);
            s.push_str(")");
        },
        None => s.push_str("None"),
    }
    assert(s@ =~= old(s)@ + optional_number_text(n));
}

fn push_optional_debug(s: &mut String, text: &Option<String>)
    ensures
        final(s)@ == old(s)@ + optional_debug_text(crate::proto::model::text_of(*text)),
{
    match text {
        Some(text) => {
            s.push_str("Some(");
            s.push_str(debug_of(text.as_str()).as_str());
            s.push_str(")");
        },
        None => s.push_str("None"),
    }
    assert(s@ =~= old(s)@ + optional_debug_text(crate::proto::model::text_of(*text)));
}

fn clear_line(operation_id: &[u8]) -> (s: String)
    ensures
        s@ == clear_text(operation_id@),
{
    let mut list: String = String::new();
    let mut i: usize = 0;
    while i < operation_id.len()
        invariant
            i <= operation_id@.len(),
            list@ == hex_list(operation_id@.take(i as int)),
        decreases operation_id@.len() - i,
    {
        let ghost before = list@;
        if i > 0 {
            list.push_str(", ");
        }
        push_hex_byte(&mut list, operation_id[i]);
        proof {
            let bytes = operation_id@.take(i + 1);
            assert(bytes.drop_last() =~= operation_id@.take(i as int));
            assert(list@ =~= hex_list(bytes));
        }
        i = i + 1;
    }
    assert(operation_id@.take(operation_id@.len() as int) =~= operation_id@);
    let mut s: String = "history clear [".to_owned();
    s.push_str(list.as_str());
    s.push_str("]");
    s
}

impl ProtoEvent {
    /// The text of this message; `input` is the text of its input event, where
    /// it is one.
    pub fn to_text(&self, input: &str) -> (s: String)
        ensures
            s@ == event_text(self@, input@),
    {
        match self {
            ProtoEvent::Enter(position) => {
                let mut s: String = "Enter(".to_owned();
                s.push_str(position.to_text());
                s.push_str(")");
                s
            },
            ProtoEvent::Leave(serial) => {
                let mut s: String = "Leave(".to_owned();
                push_decimal(&mut s, *serial as u64);
                s.push_str(")");
                s
            },
            ProtoEvent::Ack(serial) => {
                let mut s: String = "Ack(".to_owned();
                push_decimal(&mut s, *serial as u64);
                s.push_str(")");
                s
            },
            ProtoEvent::Input(_) => input.to_owned(),
            ProtoEvent::Ping => "ping".to_owned(),
            ProtoEvent::Pong(alive) => if *alive {
                "pong: alive".to_owned()
            } else {
                "pong: not available".to_owned()
            },
            ProtoEvent::Hello { commit } => {
                let mut s: String = "Hello(".to_owned();
                match text_from_utf8(vstd::slice::slice_to_vec(commit.as_slice())) {
                    Ok(text) => s.push_str(text.as_str()),
                    Err(_) => s.push_str("????????"),
                }
                s.push_str(")");
                s
            },
            ProtoEvent::ProfileRequest { request_id } => {
                let mut s: String = "ProfileRequest(".to_owned();
                push_decimal(&mut s, *request_id as u64);
                s.push_str(")");
                s
            },
            ProtoEvent::ProfileChanged => "ProfileChanged".to_owned(),
            ProtoEvent::ProfileStart { request_id, width, height, total_len, chunks, display_name: _ } => {
                let mut s: String = "ProfileStart(".to_owned();
                push_decimal(&mut s, *request_id as u64);
                s.push_str(", ");
                push_decimal(&mut s, *width as u64);
                s.push_str("x");
                push_decimal(&mut s, *height as u64);
                s.push_str(", ");
                push_decimal(&mut s, *total_len as u64);
                s.push_str(" bytes, ");
                push_decimal(&mut s, *chunks as u64);
                s.push_str(" chunks)");
                s
            },
            ProtoEvent::ProfileChunk { request_id, index, data } => {
                let mut s: String = "ProfileChunk(".to_owned();
                push_decimal(&mut s, *request_id as u64);
                s.push_str(", ");
                push_decimal(&mut s, *index as u64);
                s.push_str(", ");
                push_decimal(&mut s, data.len() as u64);
                s.push_str(" bytes)");
                s
            },
            ProtoEvent::ClipboardStart { transfer_id, total_len, chunks } => {
                let mut s: String = "ClipboardStart(".to_owned();
                push_decimal(&mut s, *transfer_id as u64);
                s.push_str(", ");
                push_decimal(&mut s, *total_len as u64);
                s.push_str(" bytes, ");
                push_decimal(&mut s, *chunks as u64);
                s.push_str(" chunks)");
                s
            },
            ProtoEvent::ClipboardImageStart { transfer_id, width, height, total_len, chunks } => {
                let mut s: String = "ClipboardImageStart(".to_owned();
                push_decimal(&mut s, *transfer_id as u64);
                s.push_str(", ");
                push_decimal(&mut s, *width as u64);
                s.push_str("x");
                push_decimal(&mut s, *height as u64);
                s.push_str(", ");
                push_decimal(&mut s, *total_len as u64);
                s.push_str(" bytes, ");
                push_decimal(&mut s, *chunks as u64);
                s.push_str(" chunks)");
                s
            },
            ProtoEvent::ClipboardChunk { transfer_id, index, data } => {
                let mut s: String = "ClipboardChunk(".to_owned();
                push_decimal(&mut s, *transfer_id as u64);
                s.push_str(", ");
                push_decimal(&mut s, *index as u64);
                s.push_str(", ");
                push_decimal(&mut s, data.len() as u64);
                s.push_str(" bytes)");
                s
            },
            ProtoEvent::ClipboardFileRequest { transfer_id, file_id, request_id, offset, length } => {
                let mut s: String = "ClipboardFileRequest(".to_owned();
                push_decimal(&mut s, *transfer_id as u64);
                s.push_str(", ");
                push_decimal(&mut s, *file_id as u64);
                s.push_str(", ");
                push_decimal(&mut s, *request_id as u64);
                s.push_str(", ");
                push_decimal(&mut s, *offset as u64);
                s.push_str(", ");
                push_decimal(&mut s, *length as u64);
                s.push_str(" bytes)");
                s
            },
            ProtoEvent::ClipboardFileChunk { transfer_id, file_id, request_id, offset, data } => {
                let mut s: String = "ClipboardFileChunk(".to_owned();
                push_decimal(&mut s, *transfer_id as u64);
                s.push_str(", ");
                push_decimal(&mut s, *file_id as u64);
                s.push_str(", ");
                push_decimal(&mut s, *request_id as u64);
                s.push_str(", ");
                push_decimal(&mut s, *offset as u64);
                s.push_str(", ");
                push_decimal(&mut s, data.len() as u64);
                s.push_str(" bytes)");
                s
            },
            ProtoEvent::ClipboardFileComplete { transfer_id, file_id, request_id, size, digest: _ } => {
                let mut s: String = "ClipboardFileComplete(".to_owned();
                push_decimal(&mut s, *transfer_id as u64);
                s.push_str(", ");
                push_decimal(&mut s, *file_id as u64);
                s.push_str(", ");
                push_decimal(&mut s, *request_id as u64);
                s.push_str(", ");
                push_decimal(&mut s, *size as u64);
                s.push_str(" bytes)");
                s
            },
            ProtoEvent::ManualFileOffer { transfer_id, file_name, size } => {
                let mut s: String = "ManualFileOffer(".to_owned();
                push_decimal(&mut s, *transfer_id as u64);
                s.push_str(", ");
                s.push_str(debug_of(file_name.as_str()).as_str());
                s.push_str(", ");
                push_decimal(&mut s, *size as u64);
                s.push_str(" bytes)");
                s
            },
            ProtoEvent::ManualFileDecision { transfer_id, decision } => {
                let mut s: String = "ManualFileDecision(".to_owned();
                push_decimal(&mut s, *transfer_id as u64);
                s.push_str(", ");
                s.push_str(decision.to_text());
                s.push_str(")");
                s
            },
            ProtoEvent::ManualFileRequest { transfer_id, offset, length } => {
                let mut s: String = "ManualFileRequest(".to_owned();
                push_decimal(&mut s, *transfer_id as u64);
                s.push_str(", ");
                push_decimal(&mut s, *offset as u64);
                s.push_str(", ");
                push_decimal(&mut s, *length as u64);
                s.push_str(" bytes)");
                s
            },
            ProtoEvent::ManualFileChunk { transfer_id, offset, data } => {
                let mut s: String = "ManualFileChunk(".to_owned();
                push_decimal(&mut s, *transfer_id as u64);
                s.push_str(", ");
                push_decimal(&mut s, *offset as u64);
                s.push_str(", ");
                push_decimal(&mut s, data.len() as u64);
                s.push_str(" bytes)");
                s
            },
            ProtoEvent::ManualFileComplete { transfer_id, sha256: _ } => {
                let mut s: String = "ManualFileComplete(".to_owned();
                push_decimal(&mut s, *transfer_id as u64);
                s.push_str(")");
                s
            },
            ProtoEvent::ManualFileResult { transfer_id, success, error } => {
                let mut s: String = "ManualFileResult(".to_owned();
                push_decimal(&mut s, *transfer_id as u64);
                s.push_str(if *success { ", true, " } else { ", false, " });
                push_optional_debug(&mut s, error);
                s.push_str(")");
                s
            },
            ProtoEvent::ManualFileCancel { transfer_id } => {
                let mut s: String = "ManualFileCancel(".to_owned();
                push_decimal(&mut s, *transfer_id as u64);
                s.push_str(")");
                s
            },
            ProtoEvent::ClipboardCapabilities(_)
            | ProtoEvent::ClipboardManifest { .. }
            | ProtoEvent::ClipboardTransferCancel { .. }
            | ProtoEvent::ClipboardTransferProgress { .. } =>
                "clipboard file transfer".to_owned(),
            ProtoEvent::HistorySyncRequest { request_id, offset } => {
                let mut s: String = "HistorySyncRequest(".to_owned();
                push_decimal(&mut s, *request_id as u64);
                s.push_str(", offset ");
                push_decimal(&mut s, *offset as u64);
                s.push_str(")");
                s
            },
            ProtoEvent::HistoryRecordStart { request_id, record_id, total_len, chunks } => {
                let mut s: String = "HistoryRecordStart(".to_owned();
                push_decimal(&mut s, *request_id as u64);
                s.push_str(", ");
                push_decimal(&mut s, *record_id as u64);
                s.push_str(", ");
                push_decimal(&mut s, *total_len as u64);
                s.push_str(" bytes, ");
                push_decimal(&mut s, *chunks as u64);
                s.push_str(" chunks)");
                s
            },
            ProtoEvent::HistoryRecordChunk { request_id, record_id, index, data } => {
                let mut s: String = "HistoryRecordChunk(".to_owned();
                push_decimal(&mut s, *request_id as u64);
                s.push_str(", ");
                push_decimal(&mut s, *record_id as u64);
                s.push_str(", ");
                push_decimal(&mut s, *index as u64);
                s.push_str(", ");
                push_decimal(&mut s, data.len() as u64);
                s.push_str(" bytes)");
                s
            },
            ProtoEvent::HistorySyncPageEnd { request_id, next_offset } => {
                let mut s: String = "HistorySyncPageEnd(".to_owned();
                push_decimal(&mut s, *request_id as u64);
                s.push_str(", ");
                push_optional_number(&mut s, *next_offset);
                s.push_str(")");
                s
            },
            ProtoEvent::HistoryClearBoundaryRequest { operation_id } => clear_line(
                operation_id.as_slice(),
            ),
            ProtoEvent::HistoryClearBoundary { operation_id, boundary: _ } => clear_line(
                operation_id.as_slice(),
            ),
            ProtoEvent::HistoryClearApply { operation_id, boundary: _ } => clear_line(
                operation_id.as_slice(),
            ),
            ProtoEvent::HistoryClearAck { operation_id, affected: _, error: _ } => clear_line(
                operation_id.as_slice(),
            ),
        }
    }
}

impl ProtocolError {
    /// The text of this error.
    pub fn to_text(&self) -> (s: String)
        ensures
            s@ == fault_text(self@),
    {
        match self {
            ProtocolError::InvalidEventId(id) => {
                let mut s: String = "invalid event id: `No discriminant in enum `EventType` matches the value `".to_owned();
                push_decimal(&mut s, *id as u64);
                s.push_str("``");
                s
            },
            ProtocolError::InvalidPosition(id) => {
                let mut s: String = "invalid position: `No discriminant in enum `Position` matches the value `".to_owned();
                push_decimal(&mut s, *id as u64);
                s.push_str("``");
                s
            },
            ProtocolError::Truncated => "truncated event".to_owned(),
            ProtocolError::TooLarge { actual, limit } => {
                let mut s: String = "event exceeds protocol limit: ".to_owned();
                push_decimal(&mut s, *actual as u64);
                s.push_str(" > ");
                push_decimal(&mut s, *limit as u64);
                s
            },
            ProtocolError::InvalidChunkCount { expected, actual } => {
                let mut s: String = "invalid clipboard chunk count: expected ".to_owned();
                push_decimal(&mut s, *expected as u64);
                s.push_str(", got ");
                push_decimal(&mut s, *actual as u64);
                s
            },
            ProtocolError::InvalidPath(path) => {
                let mut s: String = "invalid clipboard path: ".to_owned();
                s.push_str(path.as_str());
                s
            },
            ProtocolError::InvalidManifest(reason) => {
                let mut s: String = "invalid clipboard manifest: ".to_owned();
                s.push_str(reason.as_str());
                s
            },
            ProtocolError::LengthOverflow => "integer overflow".to_owned(),
            ProtocolError::InvalidProgress { completed, total } => {
                let mut s: String = "invalid progress: ".to_owned();
                push_decimal(&mut s, *completed as u64);
                s.push_str(" > ");
                push_decimal(&mut s, *total as u64);
                s
            },
            ProtocolError::TrailingBytes(count) => {
                let mut s: String = "trailing bytes: ".to_owned();
                push_decimal(&mut s, *count as u64);
                s
            },
            ProtocolError::InvalidBoolean(value) => {
                let mut s: String = "invalid boolean value: ".to_owned();
                push_decimal(&mut s, *value as u64);
                s
            },
            ProtocolError::InvalidCancelReason(value) => {
                let mut s: String = "invalid clipboard cancel reason: ".to_owned();
                push_decimal(&mut s, *value as u64);
                s
            },
            ProtocolError::InvalidFileChunk(reason) => {
                let mut s: String = "invalid clipboard file chunk: ".to_owned();
                s.push_str(reason);
                s
            },
            ProtocolError::InvalidHistory(reason) => {
                let mut s: String = "invalid history protocol message: ".to_owned();
                s.push_str(reason);
                s
            },
            ProtocolError::InvalidProfile(reason) => {
                let mut s: String = "invalid peer profile message: ".to_owned();
                s.push_str(reason);
                s
            },
        }
    }
}

} // verus!
