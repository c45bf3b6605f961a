//! What holds of sending and receiving together.
use crate::proto::decode::device_at;
use crate::proto::decode::devices_at;
use crate::proto::decode::entries_at;
use crate::proto::decode::entry_at;
use crate::proto::decode::family;
use crate::proto::decode::message_of;
use crate::proto::decode::optional_text_at;
use crate::proto::decode::tail;
use crate::proto::decode::type_of;
use crate::proto::encode::encodable;
use crate::proto::model::datagram;
use crate::proto::model::decision_id;
use crate::proto::model::devices_bytes;
use crate::proto::model::entries_bytes;
use crate::proto::model::entry_bytes;
use crate::proto::model::kind_id;
use crate::proto::model::kind_of;
use crate::proto::model::optional_text_bytes;
use crate::proto::model::reason_id;
use crate::proto::model::text_bytes;
use crate::proto::model::type_id;
use crate::proto::model::EntryModel;
use crate::proto::model::EventModel;
use crate::proto::model::Fault;
use crate::proto::validate::boundary_fault;
use crate::proto::validate::device_ok;
use crate::proto::validate::entries_fault;
use crate::proto::validate::optional_text_fault;
use crate::proto::EventType;
use crate::proto::InputEvent;
use crate::proto::KeyboardEvent;
use crate::proto::PointerEvent;
use crate::proto::MAX_CLIPBOARD_SIZE;
use crate::proto::model::EVENT_TYPES;
use crate::proto::MAX_DATAGRAM_SIZE;
use crate::proto::MAX_MANUAL_FILE_CHUNK_SIZE;
use crate::proto::SAFE_DATAGRAM_SIZE;
use crate::wire::be16;
use crate::wire::be32;
use crate::wire::be64;
use crate::wire::bits32;
use crate::wire::flag;
use crate::wire::group_be_len;
use crate::wire::lemma_be16;
use crate::wire::lemma_be32;
use crate::wire::lemma_be64;
use crate::wire::lemma_bits32;
use vstd::prelude::*;
use vstd::utf8::encode_utf8;
use vstd::utf8::encode_utf8_decode_utf8;
use vstd::utf8::encode_utf8_valid_utf8;

verus! {

/// The fields of fixed size have their size.
pub open spec fn sized(e: EventModel) -> bool {
    match e {
        EventModel::Hello { commit } => commit.len() == 8,
        EventModel::ClipboardFileComplete { transfer_id, file_id, request_id, size, digest } =>
            digest.len() == 32,
        EventModel::ManualFileComplete { transfer_id, sha256 } => sha256.len() == 32,
        EventModel::HistoryClearBoundaryRequest { operation_id } => operation_id.len() == 16,
        EventModel::HistoryClearBoundary { operation_id, boundary } => operation_id.len() == 16,
        EventModel::HistoryClearApply { operation_id, boundary } => operation_id.len() == 16,
        EventModel::HistoryClearAck { operation_id, affected, error } => operation_id.len() == 16,
        _ => true,
    }
}

/// The receiver reads the fields as the sender wrote them. A cancellation of
/// the file 0 is read as one of the whole transfer, and the receiver refuses
/// progress of the file 0 or beyond the largest payload.
pub open spec fn survives(e: EventModel) -> bool {
    match e {
        EventModel::ClipboardTransferCancel { transfer_id, file_id, reason } => file_id != Some(
            0u64,
        ),
        EventModel::ClipboardTransferProgress { transfer_id, file_id, completed, total } => file_id
            != 0 && total <= MAX_CLIPBOARD_SIZE,
        _ => true,
    }
}

/// A text with characters has bytes.
proof fn lemma_text_len(s: Seq<char>)
    ensures
        s.len() > 0 ==> encode_utf8(s).len() > 0,
{
    if s.len() > 0 {
        encode_utf8_decode_utf8(s);
        if encode_utf8(s).len() == 0 {
            assert(encode_utf8(s) =~= encode_utf8(Seq::<char>::empty()));
            encode_utf8_decode_utf8(Seq::<char>::empty());
        }
    }
}

/// An optional text at the end of a datagram is read back.
proof fn lemma_read_text(b: Seq<u8>, at: int, text: Option<Seq<char>>)
    requires
        0 <= at <= b.len(),
        tail(b, at) == optional_text_bytes(text),
        optional_text_fault(text) is None,
    ensures
        optional_text_at(b, at) == Ok::<(Option<Seq<char>>, int), Fault>((text, b.len() as int)),
{
    broadcast use group_be_len;

    let t = tail(b, at);
    assert(t.len() == b.len() - at);
    assert(t.len() >= 2);
    assert(b.subrange(at, at + 2) =~= t.subrange(0, 2));
    match text {
        None => {
            assert(t.subrange(0, 2) =~= be16(0));
            lemma_be16(b, at, 0);
        },
        Some(s) => {
            let bytes = encode_utf8(s);
            let n = bytes.len() as int;
            lemma_text_len(s);
            assert(t.subrange(0, 2) =~= be16(bytes.len() as u16));
            lemma_be16(b, at, bytes.len() as u16);
            assert(b.subrange(at + 2, at + 2 + n) =~= t.subrange(2, 2 + n));
            assert(t.subrange(2, 2 + n) =~= bytes);
            encode_utf8_valid_utf8(s);
            encode_utf8_decode_utf8(s);
        },
    }
}

/// Entries laid out one after the other: those from `i` on are the first of
/// them, then the rest.
proof fn lemma_entries_front(entries: Seq<EntryModel>)
    requires
        entries.len() > 0,
    ensures
        entries_bytes(entries) == entry_bytes(entries[0]) + entries_bytes(entries.drop_first()),
    decreases entries.len(),
{
    if entries.len() == 1 {
        assert(entries.drop_last() =~= Seq::<EntryModel>::empty());
        assert(entries.drop_first() =~= Seq::<EntryModel>::empty());
        assert(entries_bytes(entries) =~= entry_bytes(entries[0]) + entries_bytes(
            entries.drop_first(),
        ));
    } else {
        lemma_entries_front(entries.drop_last());
        assert(entries.drop_last().drop_first() =~= entries.drop_first().drop_last());
        assert(entries_bytes(entries) =~= entry_bytes(entries[0]) + entries_bytes(
            entries.drop_first(),
        ));
    }
}

/// The entries from `i` on are read back.
proof fn lemma_read_entries(
    b: Seq<u8>,
    at: int,
    entries: Seq<EntryModel>,
    i: int,
    previous: u64,
    total: int,
)
    requires
        0 <= at <= b.len(),
        0 <= i <= entries.len(),
        0 <= total <= MAX_CLIPBOARD_SIZE,
        tail(b, at) == entries_bytes(entries.skip(i)),
        entries_fault(entries, i, previous, total) is None,
    ensures
        entries_at(b, at, (entries.len() - i) as nat, entries.take(i), previous, total) == Ok::<
            (Seq<EntryModel>, int),
            Fault,
        >((entries, b.len() as int)),
    decreases entries.len() - i,
{
    broadcast use group_be_len;

    let rest = entries.skip(i);
    if i == entries.len() {
        assert(rest =~= Seq::<EntryModel>::empty());
        assert(tail(b, at).len() == 0);
        assert(entries.take(i) =~= entries);
    } else {
        let e = entries[i];
        let text = encode_utf8(e.path);
        let n = text.len() as int;
        let t = tail(b, at);
        lemma_entries_front(rest);
        assert(rest.drop_first() =~= entries.skip(i + 1));
        assert(rest[0] == e);
        assert(t == entry_bytes(e) + entries_bytes(entries.skip(i + 1)));
        let more = entries_bytes(entries.skip(i + 1));
        assert(entry_bytes(e).len() == 19 + n);
        assert(t.len() == b.len() - at);
        assert(t.len() == 19 + n + more.len());
        assert(b.subrange(at, at + 8) =~= t.subrange(0, 8));
        assert(t.subrange(0, 8) =~= be64(e.file_id));
        lemma_be64(b, at, e.file_id);
        assert(b[at + 8] == t[8]);
        assert(t[8] == kind_id(e.kind));
        assert(b.subrange(at + 9, at + 11) =~= t.subrange(9, 11));
        assert(t.subrange(9, 11) =~= be16(text.len() as u16));
        lemma_be16(b, at + 9, text.len() as u16);
        assert(b.subrange(at + 11, at + 11 + n) =~= t.subrange(11, 11 + n));
        assert(t.subrange(11, 11 + n) =~= text);
        encode_utf8_valid_utf8(e.path);
        encode_utf8_decode_utf8(e.path);
        assert(b.subrange(at + 11 + n, at + 19 + n) =~= t.subrange(11 + n, 19 + n));
        assert(t.subrange(11 + n, 19 + n) =~= be64(e.size));
        lemma_be64(b, at + 11 + n, e.size);
        assert(entry_at(b, at, previous, total) == Ok::<(EntryModel, int), Fault>(
            (e, at + 19 + n),
        ));
        assert(t.skip(19 + n) =~= more);
        assert(tail(b, at + 19 + n) =~= t.skip(19 + n));
        lemma_read_entries(b, at + 19 + n, entries, i + 1, e.file_id, total + e.size);
        assert(entries.take(i).push(e) =~= entries.take(i + 1));
    }
}

proof fn lemma_devices_front(boundary: Seq<(Seq<char>, u64)>)
    requires
        boundary.len() > 0,
    ensures
        devices_bytes(boundary) == (text_bytes(boundary[0].0) + be64(boundary[0].1))
            + devices_bytes(boundary.drop_first()),
    decreases boundary.len(),
{
    let first = text_bytes(boundary[0].0) + be64(boundary[0].1);
    if boundary.len() == 1 {
        assert(boundary.drop_last() =~= Seq::<(Seq<char>, u64)>::empty());
        assert(boundary.drop_first() =~= Seq::<(Seq<char>, u64)>::empty());
        assert(devices_bytes(boundary) =~= first + devices_bytes(boundary.drop_first()));
    } else {
        lemma_devices_front(boundary.drop_last());
        assert(boundary.drop_last().drop_first() =~= boundary.drop_first().drop_last());
        assert(devices_bytes(boundary) =~= first + devices_bytes(boundary.drop_first()));
    }
}

/// The devices from `i` on are read back.
proof fn lemma_read_devices(b: Seq<u8>, at: int, boundary: Seq<(Seq<char>, u64)>, i: int)
    requires
        0 <= at <= b.len(),
        0 <= i <= boundary.len(),
        tail(b, at) == devices_bytes(boundary.skip(i)),
        boundary_fault(boundary) is None,
    ensures
        devices_at(b, at, (boundary.len() - i) as nat, boundary.take(i)) == Ok::<
            (Seq<(Seq<char>, u64)>, int),
            Fault,
        >((boundary, b.len() as int)),
    decreases boundary.len() - i,
{
    broadcast use group_be_len;

    let rest = boundary.skip(i);
    if i == boundary.len() {
        assert(rest =~= Seq::<(Seq<char>, u64)>::empty());
        assert(tail(b, at).len() == 0);
        assert(boundary.take(i) =~= boundary);
    } else {
        let d = boundary[i];
        let text = encode_utf8(d.0);
        let n = text.len() as int;
        let t = tail(b, at);
        assert(device_ok(boundary[i].0));
        lemma_devices_front(rest);
        assert(rest.drop_first() =~= boundary.skip(i + 1));
        assert(rest[0] == d);
        assert(t == (text_bytes(d.0) + be64(d.1)) + devices_bytes(boundary.skip(i + 1)));
        let more = devices_bytes(boundary.skip(i + 1));
        assert(t.len() == b.len() - at);
        assert(t.len() == 10 + n + more.len());
        lemma_text_len(d.0);
        assert(b.subrange(at, at + 2) =~= t.subrange(0, 2));
        assert(t.subrange(0, 2) =~= be16(text.len() as u16));
        lemma_be16(b, at, text.len() as u16);
        assert(b.subrange(at + 2, at + 2 + n) =~= t.subrange(2, 2 + n));
        assert(t.subrange(2, 2 + n) =~= text);
        encode_utf8_valid_utf8(d.0);
        encode_utf8_decode_utf8(d.0);
        assert(b.subrange(at + 2 + n, at + 10 + n) =~= t.subrange(2 + n, 10 + n));
        assert(t.subrange(2 + n, 10 + n) =~= be64(d.1));
        lemma_be64(b, at + 2 + n, d.1);
        assert(device_at(b, at) == Ok::<((Seq<char>, u64), int), Fault>((d, at + 10 + n)));
        assert(t.skip(10 + n) =~= more);
        assert(tail(b, at + 10 + n) =~= t.skip(10 + n));
        lemma_read_devices(b, at + 10 + n, boundary, i + 1);
        assert(boundary.take(i).push(d) =~= boundary.take(i + 1));
    }
}

/// Messages without rules of their own come back.
proof fn lemma_simple(e: EventModel)
    requires
        sized(e),
        encodable(e),
        survives(e),
        family(kind_of(e)) is Simple,
    ensures
        message_of(datagram(e)) == Ok::<EventModel, Fault>(e),
{
    broadcast use group_be_len;

    let b = datagram(e);
    match e {
        EventModel::Leave(serial) => {
            assert(b.subrange(1, 5) =~= be32(serial));
            lemma_be32(b, 1, serial);
        },
        EventModel::Ack(serial) => {
            assert(b.subrange(1, 5) =~= be32(serial));
            lemma_be32(b, 1, serial);
        },
        EventModel::Hello { commit } => {
            assert(b.subrange(1, 9) =~= commit);
        },
        _ => {},
    }
}

/// Input events come back.
proof fn lemma_input(e: EventModel)
    requires
        sized(e),
        encodable(e),
        survives(e),
        family(kind_of(e)) is Input,
    ensures
        message_of(datagram(e)) == Ok::<EventModel, Fault>(e),
{
    broadcast use group_be_len;

    let b = datagram(e);
    match e {
        EventModel::Input(InputEvent::Pointer(PointerEvent::Motion { time, dx, dy })) => {
            assert(b.subrange(1, 5) =~= be32(time));
            lemma_be32(b, 1, time);
            assert(b.subrange(5, 13) =~= be64(dx));
            lemma_be64(b, 5, dx);
            assert(b.subrange(13, 21) =~= be64(dy));
            lemma_be64(b, 13, dy);
        },
        EventModel::Input(InputEvent::Pointer(PointerEvent::Button { time, button, state })) => {
            assert(b.subrange(1, 5) =~= be32(time));
            lemma_be32(b, 1, time);
            assert(b.subrange(5, 9) =~= be32(button));
            lemma_be32(b, 5, button);
            assert(b.subrange(9, 13) =~= be32(state));
            lemma_be32(b, 9, state);
        },
        EventModel::Input(InputEvent::Pointer(PointerEvent::Axis { time, axis, value })) => {
            assert(b.subrange(1, 5) =~= be32(time));
            lemma_be32(b, 1, time);
            assert(b[5] == axis);
            assert(b.subrange(6, 14) =~= be64(value));
            lemma_be64(b, 6, value);
        },
        EventModel::Input(InputEvent::Pointer(PointerEvent::AxisDiscrete120 { axis, value })) => {
            assert(b[1] == axis);
            assert(b.subrange(2, 6) =~= be32(bits32(value)));
            lemma_be32(b, 2, bits32(value));
            lemma_bits32(value);
        },
        EventModel::Input(InputEvent::Keyboard(KeyboardEvent::Key { time, key, state })) => {
            assert(b.subrange(1, 5) =~= be32(time));
            lemma_be32(b, 1, time);
            assert(b.subrange(5, 9) =~= be32(key));
            lemma_be32(b, 5, key);
            assert(b[9] == state);
        },
        EventModel::Input(InputEvent::Keyboard(KeyboardEvent::Modifiers { depressed, latched, locked, group })) => {
            assert(b.subrange(1, 5) =~= be32(depressed));
            lemma_be32(b, 1, depressed);
            assert(b.subrange(5, 9) =~= be32(latched));
            lemma_be32(b, 5, latched);
            assert(b.subrange(9, 13) =~= be32(locked));
            lemma_be32(b, 9, locked);
            assert(b.subrange(13, 17) =~= be32(group));
            lemma_be32(b, 13, group);
        },
        _ => {},
    }
}

/// Messages about device profiles come back.
proof fn lemma_profile(e: EventModel)
    requires
        sized(e),
        encodable(e),
        survives(e),
        family(kind_of(e)) is Profile,
    ensures
        message_of(datagram(e)) == Ok::<EventModel, Fault>(e),
{
    broadcast use group_be_len;

    let b = datagram(e);
    match e {
        EventModel::ProfileRequest { request_id } => {
            assert(b.subrange(1, 9) =~= be64(request_id));
            lemma_be64(b, 1, request_id);
        },
        EventModel::ProfileChunk { request_id, index, data } => {
            assert(b.subrange(1, 9) =~= be64(request_id));
            lemma_be64(b, 1, request_id);
            assert(b.subrange(9, 13) =~= be32(index));
            lemma_be32(b, 9, index);
            assert(tail(b, 13) =~= data);
        },
        EventModel::ProfileStart { request_id, width, height, total_len, chunks, display_name } => {
            assert(b.subrange(1, 9) =~= be64(request_id));
            lemma_be64(b, 1, request_id);
            assert(b.subrange(9, 13) =~= be32(width));
            lemma_be32(b, 9, width);
            assert(b.subrange(13, 17) =~= be32(height));
            lemma_be32(b, 13, height);
            assert(b.subrange(17, 21) =~= be32(total_len));
            lemma_be32(b, 17, total_len);
            assert(b.subrange(21, 25) =~= be32(chunks));
            lemma_be32(b, 21, chunks);
            assert(b[25] == encode_utf8(display_name).len() as u8);
            let text = encode_utf8(display_name);
            assert(b.subrange(26, 26 + text.len() as int) =~= text);
            encode_utf8_valid_utf8(display_name);
            encode_utf8_decode_utf8(display_name);
        },
        _ => {},
    }
}

/// Manifests come back.
proof fn lemma_manifest(e: EventModel)
    requires
        sized(e),
        encodable(e),
        survives(e),
        e is ClipboardManifest,
    ensures
        message_of(datagram(e)) == Ok::<EventModel, Fault>(e),
{
    broadcast use group_be_len;

    let b = datagram(e);
    match e {
        EventModel::ClipboardManifest { transfer_id, entries } => {
            assert(b.subrange(1, 9) =~= be64(transfer_id));
            lemma_be64(b, 1, transfer_id);
            assert(b.subrange(9, 13) =~= be32(entries.len() as u32));
            lemma_be32(b, 9, entries.len() as u32);
            assert(tail(b, 13) =~= entries_bytes(entries));
            assert(entries.skip(0) =~= entries);
            lemma_read_entries(b, 13, entries, 0, 0, 0);
            assert(entries.take(0) =~= Seq::<EntryModel>::empty());
        },
        _ => {},
    }
}

/// Messages about clipboards come back.
proof fn lemma_clipboard(e: EventModel)
    requires
        sized(e),
        encodable(e),
        survives(e),
        family(kind_of(e)) is Clipboard && !(e is ClipboardManifest),
    ensures
        message_of(datagram(e)) == Ok::<EventModel, Fault>(e),
{
    broadcast use group_be_len;

    let b = datagram(e);
    match e {
        EventModel::ClipboardStart { transfer_id, total_len, chunks } => {
            assert(b.subrange(1, 9) =~= be64(transfer_id));
            lemma_be64(b, 1, transfer_id);
            assert(b.subrange(9, 13) =~= be32(total_len));
            lemma_be32(b, 9, total_len);
            assert(b.subrange(13, 17) =~= be32(chunks));
            lemma_be32(b, 13, chunks);
        },
        EventModel::ClipboardImageStart { transfer_id, width, height, total_len, chunks } => {
            assert(b.subrange(1, 9) =~= be64(transfer_id));
            lemma_be64(b, 1, transfer_id);
            assert(b.subrange(9, 13) =~= be32(width));
            lemma_be32(b, 9, width);
            assert(b.subrange(13, 17) =~= be32(height));
            lemma_be32(b, 13, height);
            assert(b.subrange(17, 21) =~= be32(total_len));
            lemma_be32(b, 17, total_len);
            assert(b.subrange(21, 25) =~= be32(chunks));
            lemma_be32(b, 21, chunks);
        },
        EventModel::ClipboardChunk { transfer_id, index, data } => {
            assert(b.subrange(1, 9) =~= be64(transfer_id));
            lemma_be64(b, 1, transfer_id);
            assert(b.subrange(9, 13) =~= be32(index));
            lemma_be32(b, 9, index);
            assert(tail(b, 13) =~= data);
        },
        EventModel::ClipboardTransferCancel { transfer_id, file_id, reason } => {
            assert(b.subrange(1, 9) =~= be64(transfer_id));
            lemma_be64(b, 1, transfer_id);
            assert(b.subrange(9, 17) =~= be64(file_id.unwrap_or(0)));
            lemma_be64(b, 9, file_id.unwrap_or(0));
            assert(b[17] == reason_id(reason));
        },
        EventModel::ClipboardTransferProgress { transfer_id, file_id, completed, total } => {
            assert(b.subrange(1, 9) =~= be64(transfer_id));
            lemma_be64(b, 1, transfer_id);
            assert(b.subrange(9, 17) =~= be64(file_id));
            lemma_be64(b, 9, file_id);
            assert(b.subrange(17, 25) =~= be64(completed));
            lemma_be64(b, 17, completed);
            assert(b.subrange(25, 33) =~= be64(total));
            lemma_be64(b, 25, total);
        },
        _ => {},
    }
}

/// Messages about one clipboard file come back.
proof fn lemma_clipboard_file(e: EventModel)
    requires
        sized(e),
        encodable(e),
        survives(e),
        family(kind_of(e)) is ClipboardFile,
    ensures
        message_of(datagram(e)) == Ok::<EventModel, Fault>(e),
{
    broadcast use group_be_len;

    let b = datagram(e);
    match e {
        EventModel::ClipboardFileRequest { transfer_id, file_id, request_id, offset, length } => {
            assert(b.subrange(1, 9) =~= be64(transfer_id));
            lemma_be64(b, 1, transfer_id);
            assert(b.subrange(9, 17) =~= be64(file_id));
            lemma_be64(b, 9, file_id);
            assert(b.subrange(17, 25) =~= be64(request_id));
            lemma_be64(b, 17, request_id);
            assert(b.subrange(25, 33) =~= be64(offset));
            lemma_be64(b, 25, offset);
            assert(b.subrange(33, 41) =~= be64(length));
            lemma_be64(b, 33, length);
        },
        EventModel::ClipboardFileChunk { transfer_id, file_id, request_id, offset, data } => {
            assert(b.subrange(1, 9) =~= be64(transfer_id));
            lemma_be64(b, 1, transfer_id);
            assert(b.subrange(9, 17) =~= be64(file_id));
            lemma_be64(b, 9, file_id);
            assert(b.subrange(17, 25) =~= be64(request_id));
            lemma_be64(b, 17, request_id);
            assert(b.subrange(25, 33) =~= be64(offset));
            lemma_be64(b, 25, offset);
            assert(tail(b, 33) =~= data);
        },
        EventModel::ClipboardFileComplete { transfer_id, file_id, request_id, size, digest } => {
            assert(b.subrange(1, 9) =~= be64(transfer_id));
            lemma_be64(b, 1, transfer_id);
            assert(b.subrange(9, 17) =~= be64(file_id));
            lemma_be64(b, 9, file_id);
            assert(b.subrange(17, 25) =~= be64(request_id));
            lemma_be64(b, 17, request_id);
            assert(b.subrange(25, 33) =~= be64(size));
            lemma_be64(b, 25, size);
            assert(b.subrange(33, 65) =~= digest);
        },
        _ => {},
    }
}

/// Messages about the history come back.
proof fn lemma_history(e: EventModel)
    requires
        sized(e),
        encodable(e),
        survives(e),
        family(kind_of(e)) is History,
    ensures
        message_of(datagram(e)) == Ok::<EventModel, Fault>(e),
{
    broadcast use group_be_len;

    let b = datagram(e);
    match e {
        EventModel::HistorySyncRequest { request_id, offset } => {
            assert(b.subrange(1, 9) =~= be64(request_id));
            lemma_be64(b, 1, request_id);
            assert(b.subrange(9, 17) =~= be64(offset));
            lemma_be64(b, 9, offset);
        },
        EventModel::HistoryRecordStart { request_id, record_id, total_len, chunks } => {
            assert(b.subrange(1, 9) =~= be64(request_id));
            lemma_be64(b, 1, request_id);
            assert(b.subrange(9, 17) =~= be64(record_id));
            lemma_be64(b, 9, record_id);
            assert(b.subrange(17, 21) =~= be32(total_len));
            lemma_be32(b, 17, total_len);
            assert(b.subrange(21, 25) =~= be32(chunks));
            lemma_be32(b, 21, chunks);
        },
        EventModel::HistoryRecordChunk { request_id, record_id, index, data } => {
            assert(b.subrange(1, 9) =~= be64(request_id));
            lemma_be64(b, 1, request_id);
            assert(b.subrange(9, 17) =~= be64(record_id));
            lemma_be64(b, 9, record_id);
            assert(b.subrange(17, 21) =~= be32(index));
            lemma_be32(b, 17, index);
            assert(tail(b, 21) =~= data);
        },
        EventModel::HistorySyncPageEnd { request_id, next_offset: None } => {
            assert(b.subrange(1, 9) =~= be64(request_id));
            lemma_be64(b, 1, request_id);
            assert(b[9] == 0);
        },
        EventModel::HistorySyncPageEnd { request_id, next_offset: Some(next) } => {
            assert(b.subrange(1, 9) =~= be64(request_id));
            lemma_be64(b, 1, request_id);
            assert(b[9] == 1);
            assert(b.subrange(10, 18) =~= be64(next));
            lemma_be64(b, 10, next);
        },
        _ => {},
    }
}

/// Messages about clearing the history come back.
proof fn lemma_clear(e: EventModel)
    requires
        sized(e),
        encodable(e),
        survives(e),
        family(kind_of(e)) is Clear,
    ensures
        message_of(datagram(e)) == Ok::<EventModel, Fault>(e),
{
    broadcast use group_be_len;

    let b = datagram(e);
    match e {
        EventModel::HistoryClearBoundaryRequest { operation_id } => {
            assert(b.subrange(1, 17) =~= operation_id);
        },
        EventModel::HistoryClearBoundary { operation_id, boundary } => {
            assert(b.subrange(1, 17) =~= operation_id);
            assert(b.subrange(17, 19) =~= be16(boundary.len() as u16));
            lemma_be16(b, 17, boundary.len() as u16);
            assert(tail(b, 19) =~= devices_bytes(boundary));
            assert(boundary.skip(0) =~= boundary);
            lemma_read_devices(b, 19, boundary, 0);
            assert(boundary.take(0) =~= Seq::<(Seq<char>, u64)>::empty());
        },
        EventModel::HistoryClearApply { operation_id, boundary } => {
            assert(b.subrange(1, 17) =~= operation_id);
            assert(b.subrange(17, 19) =~= be16(boundary.len() as u16));
            lemma_be16(b, 17, boundary.len() as u16);
            assert(tail(b, 19) =~= devices_bytes(boundary));
            assert(boundary.skip(0) =~= boundary);
            lemma_read_devices(b, 19, boundary, 0);
            assert(boundary.take(0) =~= Seq::<(Seq<char>, u64)>::empty());
        },
        EventModel::HistoryClearAck { operation_id, affected, error } => {
            assert(b.subrange(1, 17) =~= operation_id);
            assert(b.subrange(17, 25) =~= be64(affected));
            lemma_be64(b, 17, affected);
            assert(tail(b, 25) =~= optional_text_bytes(error));
            lemma_read_text(b, 25, error);
        },
        _ => {},
    }
}

/// Messages about manually sent files come back.
proof fn lemma_manual(e: EventModel)
    requires
        sized(e),
        encodable(e),
        survives(e),
        family(kind_of(e)) is Manual || family(kind_of(e)) is ManualRange,
    ensures
        message_of(datagram(e)) == Ok::<EventModel, Fault>(e),
{
    broadcast use group_be_len;

    let b = datagram(e);
    match e {
        EventModel::ManualFileDecision { transfer_id, decision } => {
            assert(b.subrange(1, 9) =~= be64(transfer_id));
            lemma_be64(b, 1, transfer_id);
            assert(b[9] == decision_id(decision));
        },
        EventModel::ManualFileComplete { transfer_id, sha256 } => {
            assert(b.subrange(1, 9) =~= be64(transfer_id));
            lemma_be64(b, 1, transfer_id);
            assert(b.subrange(9, 41) =~= sha256);
        },
        EventModel::ManualFileCancel { transfer_id } => {
            assert(b.subrange(1, 9) =~= be64(transfer_id));
            lemma_be64(b, 1, transfer_id);
        },
        EventModel::ManualFileResult { transfer_id, success, error } => {
            assert(b.subrange(1, 9) =~= be64(transfer_id));
            lemma_be64(b, 1, transfer_id);
            assert(b[9] == flag(success));
            assert(tail(b, 10) =~= optional_text_bytes(error));
            lemma_read_text(b, 10, error);
        },
        EventModel::ManualFileOffer { transfer_id, file_name, size } => {
            assert(b.subrange(1, 9) =~= be64(transfer_id));
            lemma_be64(b, 1, transfer_id);
            let text = encode_utf8(file_name);
            let n = text.len() as int;
            assert(b.subrange(9, 11) =~= be16(text.len() as u16));
            lemma_be16(b, 9, text.len() as u16);
            assert(b.subrange(11, 11 + n) =~= text);
            encode_utf8_valid_utf8(file_name);
            encode_utf8_decode_utf8(file_name);
            lemma_text_len(file_name);
            assert(b.subrange(11 + n, 19 + n) =~= be64(size));
            lemma_be64(b, 11 + n, size);
        },
        EventModel::ManualFileRequest { transfer_id, offset, length } => {
            assert(b.subrange(1, 9) =~= be64(transfer_id));
            lemma_be64(b, 1, transfer_id);
            assert(b.subrange(9, 17) =~= be64(offset));
            lemma_be64(b, 9, offset);
            assert(b.subrange(17, 21) =~= be32(length));
            lemma_be32(b, 17, length);
        },
        EventModel::ManualFileChunk { transfer_id, offset, data } => {
            assert(b.subrange(1, 9) =~= be64(transfer_id));
            lemma_be64(b, 1, transfer_id);
            assert(b.subrange(9, 17) =~= be64(offset));
            lemma_be64(b, 9, offset);
            assert(tail(b, 17) =~= data);
        },
        _ => {},
    }
}

/// What is sent is what is received: the datagram of a message carries that
/// message.
pub proof fn law_round_trip(e: EventModel)
    requires
        sized(e),
        encodable(e),
        survives(e),
    ensures
        message_of(datagram(e)) == Ok::<EventModel, Fault>(e),
{
    match family(kind_of(e)) {
        crate::proto::decode::Family::Simple => lemma_simple(e),
        crate::proto::decode::Family::Input => lemma_input(e),
        crate::proto::decode::Family::Profile => lemma_profile(e),
        crate::proto::decode::Family::Clipboard => if e is ClipboardManifest {
            lemma_manifest(e);
        } else {
            lemma_clipboard(e);
        },
        crate::proto::decode::Family::ClipboardFile => lemma_clipboard_file(e),
        crate::proto::decode::Family::History => lemma_history(e),
        crate::proto::decode::Family::Clear => lemma_clear(e),
        crate::proto::decode::Family::Manual => lemma_manual(e),
        crate::proto::decode::Family::ManualRange => lemma_manual(e),
    }
}

/// No message takes more than the largest datagram, and the pieces of files,
/// of history records and of pictures, and all messages about manually sent
/// files, take no more than what survives a normal path in one packet.
pub proof fn law_datagram_sizes(e: EventModel)
    requires
        encodable(e),
    ensures
        datagram(e).len() <= MAX_DATAGRAM_SIZE,
        (e is ClipboardFileChunk || e is ManualFileChunk || e is HistoryRecordChunk
            || e is ProfileChunk) ==> datagram(e).len() <= SAFE_DATAGRAM_SIZE,
        (e is ManualFileOffer || e is ManualFileDecision || e is ManualFileRequest
            || e is ManualFileComplete || e is ManualFileResult || e is ManualFileCancel)
            && sized(e) ==> datagram(e).len() <= SAFE_DATAGRAM_SIZE,
{
    broadcast use group_be_len;

}

/// The largest piece of a manually sent file fills the safe datagram to the
/// last byte.
pub proof fn law_full_manual_chunk(transfer_id: u64, offset: u64, data: Seq<u8>)
    requires
        transfer_id != 0,
        data.len() == MAX_MANUAL_FILE_CHUNK_SIZE,
    ensures
        encodable(EventModel::ManualFileChunk { transfer_id, offset, data }),
        datagram(EventModel::ManualFileChunk { transfer_id, offset, data }).len()
            == SAFE_DATAGRAM_SIZE,
{
    broadcast use group_be_len;

}

/// Each kind of message has a byte of its own, and the bytes in use are those
/// below the number of kinds.
pub proof fn law_event_ids(t: EventType, id: u8)
    ensures
        type_of(type_id(t)) == Some(t),
        type_of(id) is Some <==> id < EVENT_TYPES,
        type_of(id) is Some ==> type_id(type_of(id)->Some_0) == id,
{
}

/// The first byte of a datagram is the kind of the message that it carries.
#[verifier::rlimit(60)]
#[verifier::spinoff_prover]
pub proof fn law_first_byte(b: Seq<u8>)
    requires
        message_of(b) is Ok,
    ensures
        b.len() > 0,
        b[0] == type_id(kind_of(message_of(b)->Ok_0)),
{
}

} // verus!
