//! From a message to its datagram.
use crate::proto::model::body;
use crate::proto::model::boundary_bytes;
use crate::proto::model::boundary_of;
use crate::proto::model::datagram;
use crate::proto::model::devices_bytes;
use crate::proto::model::entries_bytes;
use crate::proto::model::entries_of;
use crate::proto::model::entry_bytes;
use crate::proto::model::input_bytes;
use crate::proto::model::kind_of;
use crate::proto::model::optional_text_bytes;
use crate::proto::model::optional_u64_bytes;
use crate::proto::model::position_id;
use crate::proto::model::text_bytes;
use crate::proto::model::text_of;
use crate::proto::model::type_id;
use crate::proto::model::EventModel;
use crate::proto::model::Fault;
use crate::proto::validate::boundary_fault;
use crate::proto::validate::device_ok;
use crate::proto::validate::entries_fault;
use crate::proto::validate::fault_of;
use crate::proto::validate::manifest_fault;
use crate::proto::validate::optional_text_fault;
use crate::proto::validate::path_fault;
use crate::proto::ClipboardCancelReason;
use crate::proto::ClipboardEntryKind;
use crate::proto::ClipboardManifestEntry;
use crate::proto::EventType;
use crate::proto::InputEvent;
use crate::proto::KeyboardEvent;
use crate::proto::ManualDecision;
use crate::proto::PointerEvent;
use crate::proto::Position;
use crate::proto::ProtoEvent;
use crate::proto::ProtocolError;
use crate::proto::MAX_DATAGRAM_SIZE;
use crate::text::byte_len;
use crate::wire::put_bool;
use crate::wire::put_bytes;
use crate::wire::put_i32;
use crate::wire::put_u16;
use crate::wire::put_u32;
use crate::wire::put_u64;
use vstd::prelude::*;

verus! {

broadcast use crate::wire::group_be_len;

/// Why a message has no datagram: it breaks a rule, or its datagram would be
/// too large.
pub open spec fn encode_fault(e: EventModel) -> Option<Fault> {
    if fault_of(e) is Some {
        fault_of(e)
    } else if datagram(e).len() > MAX_DATAGRAM_SIZE {
        Some(Fault::TooLarge { actual: datagram(e).len() as usize, limit: MAX_DATAGRAM_SIZE })
    } else {
        None
    }
}

/// A message that has a datagram.
pub open spec fn encodable(e: EventModel) -> bool {
    encode_fault(e) is None
}

impl EventType {
    /// The byte that stands for this kind on the wire.
    pub fn id(self) -> (id: u8)
        ensures
            id == type_id(self),
    {
        match self {
            EventType::PointerMotion => 0,
            EventType::PointerButton => 1,
            EventType::PointerAxis => 2,
            EventType::PointerAxisValue120 => 3,
            EventType::KeyboardKey => 4,
            EventType::KeyboardModifiers => 5,
            EventType::Ping => 6,
            EventType::Pong => 7,
            EventType::Enter => 8,
            EventType::Leave => 9,
            EventType::Ack => 10,
            EventType::Hello => 11,
            EventType::ClipboardStart => 12,
            EventType::ClipboardChunk => 13,
            EventType::ClipboardImageStart => 14,
            EventType::ClipboardCapabilities => 15,
            EventType::ClipboardManifest => 16,
            EventType::ClipboardFileRequest => 17,
            EventType::ClipboardFileChunk => 18,
            EventType::ClipboardFileComplete => 19,
            EventType::ClipboardTransferCancel => 20,
            EventType::ClipboardTransferProgress => 21,
            EventType::HistorySyncRequest => 22,
            EventType::HistoryRecordStart => 23,
            EventType::HistoryRecordChunk => 24,
            EventType::HistorySyncPageEnd => 25,
            EventType::HistoryClearBoundaryRequest => 26,
            EventType::HistoryClearBoundary => 27,
            EventType::HistoryClearApply => 28,
            EventType::HistoryClearAck => 29,
            EventType::ProfileStart => 30,
            EventType::ProfileChunk => 31,
            EventType::ProfileRequest => 32,
            EventType::ProfileChanged => 33,
            EventType::ManualFileOffer => 34,
            EventType::ManualFileDecision => 35,
            EventType::ManualFileRequest => 36,
            EventType::ManualFileChunk => 37,
            EventType::ManualFileComplete => 38,
            EventType::ManualFileResult => 39,
            EventType::ManualFileCancel => 40,
        }
    }
}

impl Position {
    /// The byte that stands for this position on the wire.
    pub fn id(self) -> (id: u8)
        ensures
            id == position_id(self),
    {
        match self {
            Position::Left => 0,
            Position::Right => 1,
            Position::Top => 2,
            Position::Bottom => 3,
        }
    }
}

fn put_text(buf: &mut Vec<u8>, text: &str)
    requires
        byte_len(text@) <= u16::MAX,
    ensures
        final(buf)@ == old(buf)@ + text_bytes(text@),
{
    let bytes: &[u8] = text.as_bytes();
    put_u16(buf, bytes.len() as u16);
    put_bytes(buf, bytes);
    assert(buf@ =~= old(buf)@ + text_bytes(text@));
}

fn put_optional_string(buf: &mut Vec<u8>, text: &Option<String>)
    requires
        optional_text_fault(text_of(*text)) is None,
    ensures
        final(buf)@ == old(buf)@ + optional_text_bytes(text_of(*text)),
{
    match text {
        None => put_u16(buf, 0),
        Some(text) => put_text(buf, text.as_str()),
    }
}

fn put_optional_u64(buf: &mut Vec<u8>, value: Option<u64>)
    ensures
        final(buf)@ == old(buf)@ + optional_u64_bytes(value),
{
    match value {
        None => {
            buf.push(0);
        },
        Some(value) => {
            buf.push(1);
            put_u64(buf, value);
        },
    }
    assert(buf@ =~= old(buf)@ + optional_u64_bytes(value));
}

/// The paths of a faultless manifest are short.
proof fn lemma_entry_path(
    entries: Seq<crate::proto::model::EntryModel>,
    i: int,
    previous: u64,
    total: int,
    k: int,
)
    requires
        0 <= i <= k < entries.len(),
        entries_fault(entries, i, previous, total) is None,
    ensures
        path_fault(entries[k].path) is None,
    decreases k - i,
{
    if i < k {
        lemma_entry_path(entries, i + 1, entries[i].file_id, total + entries[i].size, k);
    }
}

fn encode_manifest(buf: &mut Vec<u8>, transfer_id: u64, entries: &[ClipboardManifestEntry])
    requires
        manifest_fault(entries_of(entries@)) is None,
    ensures
        final(buf)@ == old(buf)@ + body(
            EventModel::ClipboardManifest { transfer_id, entries: entries_of(entries@) },
        ),
{
    let ghost model = entries_of(entries@);
    put_u64(buf, transfer_id);
    put_u32(buf, entries.len() as u32);
    let ghost start = buf@;
    let mut i: usize = 0;
    assert(start =~= start + entries_bytes(model.take(0)));
    while i < entries.len()
        invariant
            i <= entries@.len(),
            model == entries_of(entries@),
            entries_fault(model, 0, 0, 0) is None,
            buf@ == start + entries_bytes(model.take(i as int)),
        decreases entries@.len() - i,
    {
        let entry: &ClipboardManifestEntry = &entries[i];
        let ghost before = buf@;
        proof {
            lemma_entry_path(model, 0, 0, 0, i as int);
            assert(model[i as int] == entry@);
        }
        put_u64(buf, entry.file_id);
        put_bool(buf, entry.kind == ClipboardEntryKind::File);
        put_text(buf, entry.path.as_str());
        put_u64(buf, entry.size);
        proof {
            assert(buf@ =~= before + entry_bytes(entry@));
            assert(model.take(i + 1).drop_last() =~= model.take(i as int));
            assert(buf@ =~= start + entries_bytes(model.take(i + 1)));
        }
        i = i + 1;
    }
    proof {
        assert(model.take(model.len() as int) =~= model);
        assert(buf@ =~= old(buf)@ + body(
            EventModel::ClipboardManifest { transfer_id, entries: model },
        ));
    }
}

fn encode_history_boundary(buf: &mut Vec<u8>, boundary: &[(String, u64)])
    requires
        boundary_fault(boundary_of(boundary@)) is None,
    ensures
        final(buf)@ == old(buf)@ + boundary_bytes(boundary_of(boundary@)),
{
    let ghost model = boundary_of(boundary@);
    put_u16(buf, boundary.len() as u16);
    let ghost start = buf@;
    let mut i: usize = 0;
    assert(start =~= start + devices_bytes(model.take(0)));
    while i < boundary.len()
        invariant
            i <= boundary@.len(),
            model == boundary_of(boundary@),
            boundary_fault(model) is None,
            buf@ == start + devices_bytes(model.take(i as int)),
        decreases boundary@.len() - i,
    {
        let ghost before = buf@;
        assert(device_ok(model[i as int].0));
        put_text(buf, boundary[i].0.as_str());
        put_u64(buf, boundary[i].1);
        proof {
            assert(model.take(i + 1).drop_last() =~= model.take(i as int));
            assert(buf@ =~= start + devices_bytes(model.take(i + 1)));
        }
        i = i + 1;
    }
    proof {
        assert(model.take(model.len() as int) =~= model);
        assert(buf@ =~= old(buf)@ + boundary_bytes(model));
    }
}

fn put_input(buf: &mut Vec<u8>, event: &InputEvent)
    ensures
        final(buf)@ == old(buf)@ + input_bytes(*event),
{
    match *event {
        InputEvent::Pointer(PointerEvent::Motion { time, dx, dy }) => {
            put_u32(buf, time);
            put_u64(buf, dx);
            put_u64(buf, dy);
        },
        InputEvent::Pointer(PointerEvent::Button { time, button, state }) => {
            put_u32(buf, time);
            put_u32(buf, button);
            put_u32(buf, state);
        },
        InputEvent::Pointer(PointerEvent::Axis { time, axis, value }) => {
            put_u32(buf, time);
            buf.push(axis);
            put_u64(buf, value);
        },
        InputEvent::Pointer(PointerEvent::AxisDiscrete120 { axis, value }) => {
            buf.push(axis);
            put_i32(buf, value);
        },
        InputEvent::Keyboard(KeyboardEvent::Key { time, key, state }) => {
            put_u32(buf, time);
            put_u32(buf, key);
            buf.push(state);
        },
        InputEvent::Keyboard(KeyboardEvent::Modifiers { depressed, latched, locked, group }) => {
            put_u32(buf, depressed);
            put_u32(buf, latched);
            put_u32(buf, locked);
            put_u32(buf, group);
        },
    }
    assert(buf@ =~= old(buf)@ + input_bytes(*event));
}

impl ProtoEvent {
    /// The kind of this message.
    pub fn event_type(&self) -> (t: EventType)
        ensures
            t == kind_of(self@),
    {
        match self {
            ProtoEvent::Input(InputEvent::Pointer(PointerEvent::Motion { .. })) =>
                EventType::PointerMotion,
            ProtoEvent::Input(InputEvent::Pointer(PointerEvent::Button { .. })) =>
                EventType::PointerButton,
            ProtoEvent::Input(InputEvent::Pointer(PointerEvent::Axis { .. })) =>
                EventType::PointerAxis,
            ProtoEvent::Input(InputEvent::Pointer(PointerEvent::AxisDiscrete120 { .. })) =>
                EventType::PointerAxisValue120,
            ProtoEvent::Input(InputEvent::Keyboard(KeyboardEvent::Key { .. })) =>
                EventType::KeyboardKey,
            ProtoEvent::Input(InputEvent::Keyboard(KeyboardEvent::Modifiers { .. })) =>
                EventType::KeyboardModifiers,
            ProtoEvent::Ping => EventType::Ping,
            ProtoEvent::Pong(_) => EventType::Pong,
            ProtoEvent::Enter(_) => EventType::Enter,
            ProtoEvent::Leave(_) => EventType::Leave,
            ProtoEvent::Ack(_) => EventType::Ack,
            ProtoEvent::Hello { .. } => EventType::Hello,
            ProtoEvent::ClipboardStart { .. } => EventType::ClipboardStart,
            ProtoEvent::ClipboardChunk { .. } => EventType::ClipboardChunk,
            ProtoEvent::ClipboardImageStart { .. } => EventType::ClipboardImageStart,
            ProtoEvent::ClipboardCapabilities(_) => EventType::ClipboardCapabilities,
            ProtoEvent::ClipboardManifest { .. } => EventType::ClipboardManifest,
            ProtoEvent::ClipboardFileRequest { .. } => EventType::ClipboardFileRequest,
            ProtoEvent::ClipboardFileChunk { .. } => EventType::ClipboardFileChunk,
            ProtoEvent::ClipboardFileComplete { .. } => EventType::ClipboardFileComplete,
            ProtoEvent::ClipboardTransferCancel { .. } => EventType::ClipboardTransferCancel,
            ProtoEvent::ClipboardTransferProgress { .. } => EventType::ClipboardTransferProgress,
            ProtoEvent::HistorySyncRequest { .. } => EventType::HistorySyncRequest,
            ProtoEvent::HistoryRecordStart { .. } => EventType::HistoryRecordStart,
            ProtoEvent::HistoryRecordChunk { .. } => EventType::HistoryRecordChunk,
            ProtoEvent::HistorySyncPageEnd { .. } => EventType::HistorySyncPageEnd,
            ProtoEvent::HistoryClearBoundaryRequest { .. } =>
                EventType::HistoryClearBoundaryRequest,
            ProtoEvent::HistoryClearBoundary { .. } => EventType::HistoryClearBoundary,
            ProtoEvent::HistoryClearApply { .. } => EventType::HistoryClearApply,
            ProtoEvent::HistoryClearAck { .. } => EventType::HistoryClearAck,
            ProtoEvent::ProfileStart { .. } => EventType::ProfileStart,
            ProtoEvent::ProfileChunk { .. } => EventType::ProfileChunk,
            ProtoEvent::ProfileRequest { .. } => EventType::ProfileRequest,
            ProtoEvent::ProfileChanged => EventType::ProfileChanged,
            ProtoEvent::ManualFileOffer { .. } => EventType::ManualFileOffer,
            ProtoEvent::ManualFileDecision { .. } => EventType::ManualFileDecision,
            ProtoEvent::ManualFileRequest { .. } => EventType::ManualFileRequest,
            ProtoEvent::ManualFileChunk { .. } => EventType::ManualFileChunk,
            ProtoEvent::ManualFileComplete { .. } => EventType::ManualFileComplete,
            ProtoEvent::ManualFileResult { .. } => EventType::ManualFileResult,
            ProtoEvent::ManualFileCancel { .. } => EventType::ManualFileCancel,
        }
    }

    /// Appends the fields of a message that keeps its rules.
    #[verifier::rlimit(60)]
    #[verifier::spinoff_prover]
    fn put_body(&self, buf: &mut Vec<u8>)
        requires
            fault_of(self@) is None,
        ensures
            final(buf)@ == old(buf)@ + body(self@),
    {
        match self {
            ProtoEvent::Ping => {
                assert(buf@ =~= old(buf)@ + body(self@));
            },
            ProtoEvent::ProfileChanged => {
                assert(buf@ =~= old(buf)@ + body(self@));
            },
            ProtoEvent::Pong(alive) => {
                put_bool(buf, *alive);
                assert(buf@ =~= old(buf)@ + body(self@));
            },
            ProtoEvent::Enter(position) => {
                buf.push(position.id());
                assert(buf@ =~= old(buf)@ + body(self@));
            },
            ProtoEvent::Leave(serial) => put_u32(buf, *serial),
            ProtoEvent::Ack(serial) => put_u32(buf, *serial),
            ProtoEvent::Input(event) => put_input(buf, event),
            ProtoEvent::Hello { commit } => put_bytes(buf, commit.as_slice()),
            ProtoEvent::ProfileRequest { request_id } => put_u64(buf, *request_id),
            ProtoEvent::ProfileStart {
                request_id,
                width,
                height,
                total_len,
                chunks,
                display_name,
            } => {
                let name: &[u8] = display_name.as_str().as_bytes();
                put_u64(buf, *request_id);
                put_u32(buf, *width);
                put_u32(buf, *height);
                put_u32(buf, *total_len);
                put_u32(buf, *chunks);
                buf.push(name.len() as u8);
                put_bytes(buf, name);
                assert(buf@ =~= old(buf)@ + body(self@));
            },
            ProtoEvent::ProfileChunk { request_id, index, data } => {
                put_u64(buf, *request_id);
                put_u32(buf, *index);
                put_bytes(buf, data.as_slice());
                assert(buf@ =~= old(buf)@ + body(self@));
            },
            ProtoEvent::ClipboardStart { transfer_id, total_len, chunks } => {
                put_u64(buf, *transfer_id);
                put_u32(buf, *total_len);
                put_u32(buf, *chunks);
                assert(buf@ =~= old(buf)@ + body(self@));
            },
            ProtoEvent::ClipboardImageStart { transfer_id, width, height, total_len, chunks } => {
                put_u64(buf, *transfer_id);
                put_u32(buf, *width);
                put_u32(buf, *height);
                put_u32(buf, *total_len);
                put_u32(buf, *chunks);
                assert(buf@ =~= old(buf)@ + body(self@));
            },
            ProtoEvent::ClipboardChunk { transfer_id, index, data } => {
                put_u64(buf, *transfer_id);
                put_u32(buf, *index);
                put_bytes(buf, data.as_slice());
                assert(buf@ =~= old(buf)@ + body(self@));
            },
            ProtoEvent::ClipboardCapabilities(c) => {
                put_bool(buf, c.text);
                put_bool(buf, c.image);
                put_bool(buf, c.files);
                assert(buf@ =~= old(buf)@ + body(self@));
            },
            ProtoEvent::ClipboardManifest { transfer_id, entries } => {
                encode_manifest(buf, *transfer_id, entries.as_slice());
                assert(buf@ =~= old(buf)@ + body(self@));
            },
            ProtoEvent::ClipboardFileRequest {
                transfer_id,
                file_id,
                request_id,
                offset,
                length,
            } => {
                put_u64(buf, *transfer_id);
                put_u64(buf, *file_id);
                put_u64(buf, *request_id);
                put_u64(buf, *offset);
                put_u64(buf, *length);
                assert(buf@ =~= old(buf)@ + body(self@));
            },
            ProtoEvent::ClipboardFileChunk { transfer_id, file_id, request_id, offset, data } => {
                put_u64(buf, *transfer_id);
                put_u64(buf, *file_id);
                put_u64(buf, *request_id);
                put_u64(buf, *offset);
                put_bytes(buf, data.as_slice());
                assert(buf@ =~= old(buf)@ + body(self@));
            },
            ProtoEvent::ClipboardFileComplete {
                transfer_id,
                file_id,
                request_id,
                size,
                digest,
            } => {
                put_u64(buf, *transfer_id);
                put_u64(buf, *file_id);
                put_u64(buf, *request_id);
                put_u64(buf, *size);
                put_bytes(buf, digest.as_slice());
                assert(buf@ =~= old(buf)@ + body(self@));
            },
            ProtoEvent::ClipboardTransferCancel { transfer_id, file_id, reason } => {
                put_u64(buf, *transfer_id);
                put_u64(buf, file_id.unwrap_or(0));
                buf.push(
                    match reason {
                        ClipboardCancelReason::User => 0,
                        ClipboardCancelReason::IoError => 1,
                        ClipboardCancelReason::Protocol => 2,
                    },
                );
                assert(buf@ =~= old(buf)@ + body(self@));
            },
            ProtoEvent::ClipboardTransferProgress { transfer_id, file_id, completed, total } => {
                put_u64(buf, *transfer_id);
                put_u64(buf, *file_id);
                put_u64(buf, *completed);
                put_u64(buf, *total);
                assert(buf@ =~= old(buf)@ + body(self@));
            },
            ProtoEvent::HistorySyncRequest { request_id, offset } => {
                put_u64(buf, *request_id);
                put_u64(buf, *offset);
                assert(buf@ =~= old(buf)@ + body(self@));
            },
            ProtoEvent::HistoryRecordStart { request_id, record_id, total_len, chunks } => {
                put_u64(buf, *request_id);
                put_u64(buf, *record_id);
                put_u32(buf, *total_len);
                put_u32(buf, *chunks);
                assert(buf@ =~= old(buf)@ + body(self@));
            },
            ProtoEvent::HistoryRecordChunk { request_id, record_id, index, data } => {
                put_u64(buf, *request_id);
                put_u64(buf, *record_id);
                put_u32(buf, *index);
                put_bytes(buf, data.as_slice());
                assert(buf@ =~= old(buf)@ + body(self@));
            },
            ProtoEvent::ManualFileOffer { transfer_id, file_name, size } => {
                put_u64(buf, *transfer_id);
                put_text(buf, file_name.as_str());
                put_u64(buf, *size);
                assert(buf@ =~= old(buf)@ + body(self@));
            },
            ProtoEvent::ManualFileDecision { transfer_id, decision } => {
                put_u64(buf, *transfer_id);
                buf.push(
                    match decision {
                        ManualDecision::Pending => 0,
                        ManualDecision::Accepted => 1,
                        ManualDecision::Declined => 2,
                    },
                );
                assert(buf@ =~= old(buf)@ + body(self@));
            },
            ProtoEvent::ManualFileRequest { transfer_id, offset, length } => {
                put_u64(buf, *transfer_id);
                put_u64(buf, *offset);
                put_u32(buf, *length);
                assert(buf@ =~= old(buf)@ + body(self@));
            },
            ProtoEvent::ManualFileChunk { transfer_id, offset, data } => {
                put_u64(buf, *transfer_id);
                put_u64(buf, *offset);
                put_bytes(buf, data.as_slice());
                assert(buf@ =~= old(buf)@ + body(self@));
            },
            ProtoEvent::ManualFileComplete { transfer_id, sha256 } => {
                put_u64(buf, *transfer_id);
                put_bytes(buf, sha256.as_slice());
                assert(buf@ =~= old(buf)@ + body(self@));
            },
            ProtoEvent::ManualFileResult { transfer_id, success, error } => {
                put_u64(buf, *transfer_id);
                put_bool(buf, *success);
                put_optional_string(buf, error);
                assert(buf@ =~= old(buf)@ + body(self@));
            },
            ProtoEvent::ManualFileCancel { transfer_id } => put_u64(buf, *transfer_id),
            ProtoEvent::HistorySyncPageEnd { request_id, next_offset } => {
                put_u64(buf, *request_id);
                put_optional_u64(buf, *next_offset);
                assert(buf@ =~= old(buf)@ + body(self@));
            },
            ProtoEvent::HistoryClearBoundaryRequest { operation_id } => put_bytes(
                buf,
                operation_id.as_slice(),
            ),
            ProtoEvent::HistoryClearBoundary { operation_id, boundary } => {
                put_bytes(buf, operation_id.as_slice());
                encode_history_boundary(buf, boundary.as_slice());
                assert(buf@ =~= old(buf)@ + body(self@));
            },
            ProtoEvent::HistoryClearApply { operation_id, boundary } => {
                put_bytes(buf, operation_id.as_slice());
                encode_history_boundary(buf, boundary.as_slice());
                assert(buf@ =~= old(buf)@ + body(self@));
            },
            ProtoEvent::HistoryClearAck { operation_id, affected, error } => {
                put_bytes(buf, operation_id.as_slice());
                put_u64(buf, *affected);
                put_optional_string(buf, error);
                assert(buf@ =~= old(buf)@ + body(self@));
            },
        }
    }

    /// The datagram of this message, or the rule that it breaks.
    pub fn encode(self) -> (r: Result<Vec<u8>, ProtocolError>)
        ensures
            match r {
                Ok(bytes) => encodable(self@) && bytes@ == datagram(self@),
                Err(error) => encode_fault(self@) == Some(error@),
            },
    {
        self.validate()?;
        let mut buf: Vec<u8> = Vec::with_capacity(32);
        buf.push(self.event_type().id());
        self.put_body(&mut buf);
        assert(buf@ =~= datagram(self@));
        if buf.len() > MAX_DATAGRAM_SIZE {
            return Err(ProtocolError::TooLarge { actual: buf.len(), limit: MAX_DATAGRAM_SIZE });
        }
        Ok(buf)
    }
}

} // verus!
