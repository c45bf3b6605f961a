//! Where the fields of a message lie in its datagram.
use crate::proto::model::datagram;
use crate::proto::model::EventModel;
use crate::proto::InputEvent;
use crate::proto::KeyboardEvent;
use crate::proto::PointerEvent;
use crate::wire::be16;
use crate::wire::be32;
use crate::wire::be64;
use crate::wire::group_be_len;
use crate::proto::model::EntryModel;
use crate::proto::ClipboardEntryKind;
use vstd::prelude::*;
use vstd::utf8::encode_utf8;

verus! {

/// The number that `n` bytes spell from a place on, the highest byte first.
pub open spec fn number_at(b: Seq<u8>, at: int, n: nat) -> nat
    decreases n,
{
    if n == 0 {
        0
    } else {
        256 * number_at(b, at, (n - 1) as nat) + b[at + n - 1] as nat
    }
}

proof fn lemma_one(b: Seq<u8>, at: int)
    ensures
        number_at(b, at, 1) == b[at],
{
    assert(number_at(b, at, 0) == 0);
}

proof fn lemma_number16(b: Seq<u8>, at: int, x: u16)
    requires
        0 <= at,
        at + 2 <= b.len(),
        b.subrange(at, at + 2) == be16(x),
    ensures
        number_at(b, at, 2) == x,
{
    reveal(be16);
    let s = b.subrange(at, at + 2);
    assert(b[at] == s[0] && b[at + 1] == s[1]);
    lemma_one(b, at);
    assert(number_at(b, at, 2) == 256 * number_at(b, at, 1) + b[at + 1]);
}

proof fn lemma_number32(b: Seq<u8>, at: int, x: u32)
    requires
        0 <= at,
        at + 4 <= b.len(),
        b.subrange(at, at + 4) == be32(x),
    ensures
        number_at(b, at, 4) == x,
{
    broadcast use group_be_len;

    reveal(be16);
    reveal(be32);
    let s = b.subrange(at, at + 4);
    assert(b.subrange(at, at + 2) =~= s.subrange(0, 2));
    assert(s.subrange(0, 2) =~= be16((x / 65536) as u16));
    lemma_number16(b, at, (x / 65536) as u16);
    let low = be16((x % 65536) as u16);
    assert(b[at + 2] == s[2] && s[2] == low[0]);
    assert(b[at + 3] == s[3] && s[3] == low[1]);
    assert(number_at(b, at, 3) == 256 * number_at(b, at, 2) + b[at + 2]);
    assert(number_at(b, at, 4) == 256 * number_at(b, at, 3) + b[at + 3]);
}

proof fn lemma_number64(b: Seq<u8>, at: int, x: u64)
    requires
        0 <= at,
        at + 8 <= b.len(),
        b.subrange(at, at + 8) == be64(x),
    ensures
        number_at(b, at, 8) == x,
{
    broadcast use group_be_len;

    reveal(be64);
    let s = b.subrange(at, at + 8);
    let high = (x / 0x1_0000_0000) as u32;
    let low = (x % 0x1_0000_0000) as u32;
    assert(b.subrange(at, at + 4) =~= s.subrange(0, 4));
    assert(s.subrange(0, 4) =~= be32(high));
    lemma_number32(b, at, high);
    assert(b.subrange(at + 4, at + 8) =~= s.subrange(4, 8));
    assert(s.subrange(4, 8) =~= be32(low));
    lemma_number32(b, at + 4, low);
    assert(number_at(b, at + 4, 1) == b[at + 4]) by {
        lemma_one(b, at + 4);
    }
    assert(number_at(b, at + 4, 2) == 256 * number_at(b, at + 4, 1) + b[at + 5]);
    assert(number_at(b, at + 4, 3) == 256 * number_at(b, at + 4, 2) + b[at + 6]);
    assert(number_at(b, at + 4, 4) == 256 * number_at(b, at + 4, 3) + b[at + 7]);
    assert(number_at(b, at, 5) == 256 * number_at(b, at, 4) + b[at + 4]);
    assert(number_at(b, at, 6) == 256 * number_at(b, at, 5) + b[at + 5]);
    assert(number_at(b, at, 7) == 256 * number_at(b, at, 6) + b[at + 6]);
    assert(number_at(b, at, 8) == 256 * number_at(b, at, 7) + b[at + 7]);
}

/// Input travels behind the byte of its kind, each number big-endian in its place.
pub proof fn law_input_messages_on_the_wire(
    time: u32,
    dx: u64,
    dy: u64,
    button: u32,
    state: u32,
    axis: u8,
    value: u64,
    key: u32,
    pressed: u8,
)
    ensures
        ({
            let b = datagram(EventModel::Input(InputEvent::Pointer(PointerEvent::Motion { time, dx, dy })));
            &&& b[0] == 0
            &&& number_at(b, 1, 4) == time
            &&& number_at(b, 5, 8) == dx
            &&& number_at(b, 13, 8) == dy
            &&& b.len() == 21
        }),
        ({
            let b = datagram(EventModel::Input(InputEvent::Pointer(PointerEvent::Button { time, button, state })));
            &&& b[0] == 1
            &&& number_at(b, 1, 4) == time
            &&& number_at(b, 5, 4) == button
            &&& number_at(b, 9, 4) == state
            &&& b.len() == 13
        }),
        ({
            let b = datagram(EventModel::Input(InputEvent::Pointer(PointerEvent::Axis { time, axis, value })));
            &&& b[0] == 2
            &&& number_at(b, 1, 4) == time
            &&& number_at(b, 5, 1) == axis
            &&& number_at(b, 6, 8) == value
            &&& b.len() == 14
        }),
        ({
            let b = datagram(EventModel::Input(InputEvent::Keyboard(KeyboardEvent::Key { time, key, state: pressed })));
            &&& b[0] == 4
            &&& number_at(b, 1, 4) == time
            &&& number_at(b, 5, 4) == key
            &&& number_at(b, 9, 1) == pressed
            &&& b.len() == 10
        }),
        ({
            let b = datagram(EventModel::Input(InputEvent::Keyboard(KeyboardEvent::Modifiers { depressed: time, latched: button, locked: state, group: key })));
            &&& b[0] == 5
            &&& number_at(b, 1, 4) == time
            &&& number_at(b, 5, 4) == button
            &&& number_at(b, 9, 4) == state
            &&& number_at(b, 13, 4) == key
            &&& b.len() == 17
        }),
        ({
            let b = datagram(EventModel::Leave(time));
            &&& b[0] == 9
            &&& number_at(b, 1, 4) == time
            &&& b.len() == 5
        }),
        ({
            let b = datagram(EventModel::Ack(time));
            &&& b[0] == 10
            &&& number_at(b, 1, 4) == time
            &&& b.len() == 5
        }),
{
    broadcast use group_be_len;

    let b = datagram(EventModel::Input(InputEvent::Pointer(PointerEvent::Motion { time, dx, dy })));
    assert(b.subrange(1, 5) =~= be32(time));
    lemma_number32(b, 1, time);
    assert(b.subrange(5, 13) =~= be64(dx));
    lemma_number64(b, 5, dx);
    assert(b.subrange(13, 21) =~= be64(dy));
    lemma_number64(b, 13, dy);
    let b = datagram(EventModel::Input(InputEvent::Pointer(PointerEvent::Button { time, button, state })));
    assert(b.subrange(1, 5) =~= be32(time));
    lemma_number32(b, 1, time);
    assert(b.subrange(5, 9) =~= be32(button));
    lemma_number32(b, 5, button);
    assert(b.subrange(9, 13) =~= be32(state));
    lemma_number32(b, 9, state);
    let b = datagram(EventModel::Input(InputEvent::Pointer(PointerEvent::Axis { time, axis, value })));
    assert(b.subrange(1, 5) =~= be32(time));
    lemma_number32(b, 1, time);
    lemma_one(b, 5);
    assert(b.subrange(6, 14) =~= be64(value));
    lemma_number64(b, 6, value);
    let b = datagram(EventModel::Input(InputEvent::Keyboard(KeyboardEvent::Key { time, key, state: pressed })));
    assert(b.subrange(1, 5) =~= be32(time));
    lemma_number32(b, 1, time);
    assert(b.subrange(5, 9) =~= be32(key));
    lemma_number32(b, 5, key);
    lemma_one(b, 9);
    let b = datagram(EventModel::Input(InputEvent::Keyboard(KeyboardEvent::Modifiers { depressed: time, latched: button, locked: state, group: key })));
    assert(b.subrange(1, 5) =~= be32(time));
    lemma_number32(b, 1, time);
    assert(b.subrange(5, 9) =~= be32(button));
    lemma_number32(b, 5, button);
    assert(b.subrange(9, 13) =~= be32(state));
    lemma_number32(b, 9, state);
    assert(b.subrange(13, 17) =~= be32(key));
    lemma_number32(b, 13, key);
    let b = datagram(EventModel::Leave(time));
    assert(b.subrange(1, 5) =~= be32(time));
    lemma_number32(b, 1, time);
    let b = datagram(EventModel::Ack(time));
    assert(b.subrange(1, 5) =~= be32(time));
    lemma_number32(b, 1, time);
}

/// What is said of the clipboard names its transfer first, then the file and the
/// request, then the place or the size, then the bytes.
pub proof fn law_clipboard_messages_on_the_wire(
    transfer_id: u64,
    file_id: u64,
    request_id: u64,
    offset: u64,
    length: u64,
    total_len: u32,
    chunks: u32,
    width: u32,
    height: u32,
    data: Seq<u8>,
)
    ensures
        ({
            let b = datagram(EventModel::ClipboardStart { transfer_id, total_len, chunks });
            &&& b[0] == 12
            &&& number_at(b, 1, 8) == transfer_id
            &&& number_at(b, 9, 4) == total_len
            &&& number_at(b, 13, 4) == chunks
            &&& b.len() == 17
        }),
        ({
            let b = datagram(EventModel::ClipboardChunk { transfer_id, index: chunks, data });
            &&& b[0] == 13
            &&& number_at(b, 1, 8) == transfer_id
            &&& number_at(b, 9, 4) == chunks
            &&& b.subrange(13, 13 + data.len() as int) == data
            &&& b.len() == 13 + data.len() as int
        }),
        ({
            let b = datagram(EventModel::ClipboardImageStart { transfer_id, width, height, total_len, chunks });
            &&& b[0] == 14
            &&& number_at(b, 1, 8) == transfer_id
            &&& number_at(b, 9, 4) == width
            &&& number_at(b, 13, 4) == height
            &&& number_at(b, 17, 4) == total_len
            &&& number_at(b, 21, 4) == chunks
            &&& b.len() == 25
        }),
        ({
            let b = datagram(EventModel::ClipboardFileRequest { transfer_id, file_id, request_id, offset, length });
            &&& b[0] == 17
            &&& number_at(b, 1, 8) == transfer_id
            &&& number_at(b, 9, 8) == file_id
            &&& number_at(b, 17, 8) == request_id
            &&& number_at(b, 25, 8) == offset
            &&& number_at(b, 33, 8) == length
            &&& b.len() == 41
        }),
        ({
            let b = datagram(EventModel::ClipboardFileChunk { transfer_id, file_id, request_id, offset, data });
            &&& b[0] == 18
            &&& number_at(b, 1, 8) == transfer_id
            &&& number_at(b, 9, 8) == file_id
            &&& number_at(b, 17, 8) == request_id
            &&& number_at(b, 25, 8) == offset
            &&& b.subrange(33, 33 + data.len() as int) == data
            &&& b.len() == 33 + data.len() as int
        }),
        ({
            let b = datagram(EventModel::ClipboardFileComplete { transfer_id, file_id, request_id, size: length, digest: data });
            &&& b[0] == 19
            &&& number_at(b, 1, 8) == transfer_id
            &&& number_at(b, 9, 8) == file_id
            &&& number_at(b, 17, 8) == request_id
            &&& number_at(b, 25, 8) == length
            &&& b.subrange(33, 33 + data.len() as int) == data
            &&& b.len() == 33 + data.len() as int
        }),
        ({
            let b = datagram(EventModel::ClipboardTransferProgress { transfer_id, file_id, completed: offset, total: length });
            &&& b[0] == 21
            &&& number_at(b, 1, 8) == transfer_id
            &&& number_at(b, 9, 8) == file_id
            &&& number_at(b, 17, 8) == offset
            &&& number_at(b, 25, 8) == length
            &&& b.len() == 33
        }),
{
    broadcast use group_be_len;

    let b = datagram(EventModel::ClipboardStart { transfer_id, total_len, chunks });
    assert(b.subrange(1, 9) =~= be64(transfer_id));
    lemma_number64(b, 1, transfer_id);
    assert(b.subrange(9, 13) =~= be32(total_len));
    lemma_number32(b, 9, total_len);
    assert(b.subrange(13, 17) =~= be32(chunks));
    lemma_number32(b, 13, chunks);
    let b = datagram(EventModel::ClipboardChunk { transfer_id, index: chunks, data });
    assert(b.subrange(1, 9) =~= be64(transfer_id));
    lemma_number64(b, 1, transfer_id);
    assert(b.subrange(9, 13) =~= be32(chunks));
    lemma_number32(b, 9, chunks);
    assert(b.subrange(13, 13 + data.len() as int) =~= data);
    let b = datagram(EventModel::ClipboardImageStart { transfer_id, width, height, total_len, chunks });
    assert(b.subrange(1, 9) =~= be64(transfer_id));
    lemma_number64(b, 1, transfer_id);
    assert(b.subrange(9, 13) =~= be32(width));
    lemma_number32(b, 9, width);
    assert(b.subrange(13, 17) =~= be32(height));
    lemma_number32(b, 13, height);
    assert(b.subrange(17, 21) =~= be32(total_len));
    lemma_number32(b, 17, total_len);
    assert(b.subrange(21, 25) =~= be32(chunks));
    lemma_number32(b, 21, chunks);
    let b = datagram(EventModel::ClipboardFileRequest { transfer_id, file_id, request_id, offset, length });
    assert(b.subrange(1, 9) =~= be64(transfer_id));
    lemma_number64(b, 1, transfer_id);
    assert(b.subrange(9, 17) =~= be64(file_id));
    lemma_number64(b, 9, file_id);
    assert(b.subrange(17, 25) =~= be64(request_id));
    lemma_number64(b, 17, request_id);
    assert(b.subrange(25, 33) =~= be64(offset));
    lemma_number64(b, 25, offset);
    assert(b.subrange(33, 41) =~= be64(length));
    lemma_number64(b, 33, length);
    let b = datagram(EventModel::ClipboardFileChunk { transfer_id, file_id, request_id, offset, data });
    assert(b.subrange(1, 9) =~= be64(transfer_id));
    lemma_number64(b, 1, transfer_id);
    assert(b.subrange(9, 17) =~= be64(file_id));
    lemma_number64(b, 9, file_id);
    assert(b.subrange(17, 25) =~= be64(request_id));
    lemma_number64(b, 17, request_id);
    assert(b.subrange(25, 33) =~= be64(offset));
    lemma_number64(b, 25, offset);
    assert(b.subrange(33, 33 + data.len() as int) =~= data);
    let b = datagram(EventModel::ClipboardFileComplete { transfer_id, file_id, request_id, size: length, digest: data });
    assert(b.subrange(1, 9) =~= be64(transfer_id));
    lemma_number64(b, 1, transfer_id);
    assert(b.subrange(9, 17) =~= be64(file_id));
    lemma_number64(b, 9, file_id);
    assert(b.subrange(17, 25) =~= be64(request_id));
    lemma_number64(b, 17, request_id);
    assert(b.subrange(25, 33) =~= be64(length));
    lemma_number64(b, 25, length);
    assert(b.subrange(33, 33 + data.len() as int) =~= data);
    let b = datagram(EventModel::ClipboardTransferProgress { transfer_id, file_id, completed: offset, total: length });
    assert(b.subrange(1, 9) =~= be64(transfer_id));
    lemma_number64(b, 1, transfer_id);
    assert(b.subrange(9, 17) =~= be64(file_id));
    lemma_number64(b, 9, file_id);
    assert(b.subrange(17, 25) =~= be64(offset));
    lemma_number64(b, 17, offset);
    assert(b.subrange(25, 33) =~= be64(length));
    lemma_number64(b, 25, length);
}

/// What is said of the history and of profiles names its request first.
pub proof fn law_history_messages_on_the_wire(
    request_id: u64,
    record_id: u64,
    offset: u64,
    total_len: u32,
    chunks: u32,
    data: Seq<u8>,
)
    ensures
        ({
            let b = datagram(EventModel::HistorySyncRequest { request_id, offset });
            &&& b[0] == 22
            &&& number_at(b, 1, 8) == request_id
            &&& number_at(b, 9, 8) == offset
            &&& b.len() == 17
        }),
        ({
            let b = datagram(EventModel::HistoryRecordStart { request_id, record_id, total_len, chunks });
            &&& b[0] == 23
            &&& number_at(b, 1, 8) == request_id
            &&& number_at(b, 9, 8) == record_id
            &&& number_at(b, 17, 4) == total_len
            &&& number_at(b, 21, 4) == chunks
            &&& b.len() == 25
        }),
        ({
            let b = datagram(EventModel::HistoryRecordChunk { request_id, record_id, index: chunks, data });
            &&& b[0] == 24
            &&& number_at(b, 1, 8) == request_id
            &&& number_at(b, 9, 8) == record_id
            &&& number_at(b, 17, 4) == chunks
            &&& b.subrange(21, 21 + data.len() as int) == data
            &&& b.len() == 21 + data.len() as int
        }),
        ({
            let b = datagram(EventModel::HistoryClearBoundaryRequest { operation_id: data });
            &&& b[0] == 26
            &&& b.subrange(1, 1 + data.len() as int) == data
            &&& b.len() == 1 + data.len() as int
        }),
        ({
            let b = datagram(EventModel::ProfileRequest { request_id });
            &&& b[0] == 32
            &&& number_at(b, 1, 8) == request_id
            &&& b.len() == 9
        }),
        ({
            let b = datagram(EventModel::ProfileChunk { request_id, index: chunks, data });
            &&& b[0] == 31
            &&& number_at(b, 1, 8) == request_id
            &&& number_at(b, 9, 4) == chunks
            &&& b.subrange(13, 13 + data.len() as int) == data
            &&& b.len() == 13 + data.len() as int
        }),
{
    broadcast use group_be_len;

    let b = datagram(EventModel::HistorySyncRequest { request_id, offset });
    assert(b.subrange(1, 9) =~= be64(request_id));
    lemma_number64(b, 1, request_id);
    assert(b.subrange(9, 17) =~= be64(offset));
    lemma_number64(b, 9, offset);
    let b = datagram(EventModel::HistoryRecordStart { request_id, record_id, total_len, chunks });
    assert(b.subrange(1, 9) =~= be64(request_id));
    lemma_number64(b, 1, request_id);
    assert(b.subrange(9, 17) =~= be64(record_id));
    lemma_number64(b, 9, record_id);
    assert(b.subrange(17, 21) =~= be32(total_len));
    lemma_number32(b, 17, total_len);
    assert(b.subrange(21, 25) =~= be32(chunks));
    lemma_number32(b, 21, chunks);
    let b = datagram(EventModel::HistoryRecordChunk { request_id, record_id, index: chunks, data });
    assert(b.subrange(1, 9) =~= be64(request_id));
    lemma_number64(b, 1, request_id);
    assert(b.subrange(9, 17) =~= be64(record_id));
    lemma_number64(b, 9, record_id);
    assert(b.subrange(17, 21) =~= be32(chunks));
    lemma_number32(b, 17, chunks);
    assert(b.subrange(21, 21 + data.len() as int) =~= data);
    let b = datagram(EventModel::HistoryClearBoundaryRequest { operation_id: data });
    assert(b.subrange(1, 1 + data.len() as int) =~= data);
    let b = datagram(EventModel::ProfileRequest { request_id });
    assert(b.subrange(1, 9) =~= be64(request_id));
    lemma_number64(b, 1, request_id);
    let b = datagram(EventModel::ProfileChunk { request_id, index: chunks, data });
    assert(b.subrange(1, 9) =~= be64(request_id));
    lemma_number64(b, 1, request_id);
    assert(b.subrange(9, 13) =~= be32(chunks));
    lemma_number32(b, 9, chunks);
    assert(b.subrange(13, 13 + data.len() as int) =~= data);
}

/// What is said of a manually sent file names its transfer first.
pub proof fn law_manual_messages_on_the_wire(
    transfer_id: u64,
    name: Seq<char>,
    size: u64,
    offset: u64,
    length: u32,
    data: Seq<u8>,
)
    requires
        encode_utf8(name).len() <= u16::MAX,
    ensures
        ({
            let b = datagram(EventModel::ManualFileOffer { transfer_id, file_name: name, size });
            &&& b[0] == 34
            &&& number_at(b, 1, 8) == transfer_id
            &&& number_at(b, 9, 2) == encode_utf8(name).len()
            &&& b.subrange(11, 11 + encode_utf8(name).len() as int) == encode_utf8(name)
            &&& number_at(b, 11 + encode_utf8(name).len() as int, 8) == size
            &&& b.len() == 19 + encode_utf8(name).len() as int
        }),
        ({
            let b = datagram(EventModel::ManualFileRequest { transfer_id, offset, length });
            &&& b[0] == 36
            &&& number_at(b, 1, 8) == transfer_id
            &&& number_at(b, 9, 8) == offset
            &&& number_at(b, 17, 4) == length
            &&& b.len() == 21
        }),
        ({
            let b = datagram(EventModel::ManualFileChunk { transfer_id, offset, data });
            &&& b[0] == 37
            &&& number_at(b, 1, 8) == transfer_id
            &&& number_at(b, 9, 8) == offset
            &&& b.subrange(17, 17 + data.len() as int) == data
            &&& b.len() == 17 + data.len() as int
        }),
        ({
            let b = datagram(EventModel::ManualFileComplete { transfer_id, sha256: data });
            &&& b[0] == 38
            &&& number_at(b, 1, 8) == transfer_id
            &&& b.subrange(9, 9 + data.len() as int) == data
            &&& b.len() == 9 + data.len() as int
        }),
        ({
            let b = datagram(EventModel::ManualFileCancel { transfer_id });
            &&& b[0] == 40
            &&& number_at(b, 1, 8) == transfer_id
            &&& b.len() == 9
        }),
{
    broadcast use group_be_len;

    let b = datagram(EventModel::ManualFileOffer { transfer_id, file_name: name, size });
    assert(b.subrange(1, 9) =~= be64(transfer_id));
    lemma_number64(b, 1, transfer_id);
    assert(b.subrange(9, 11) =~= be16(encode_utf8(name).len() as u16));
    lemma_number16(b, 9, encode_utf8(name).len() as u16);
    assert(b.subrange(11, 11 + encode_utf8(name).len() as int) =~= encode_utf8(name));
    assert(b.subrange(11 + encode_utf8(name).len() as int, 19 + encode_utf8(name).len() as int) =~= be64(size));
    lemma_number64(b, 11 + encode_utf8(name).len() as int, size);
    let b = datagram(EventModel::ManualFileRequest { transfer_id, offset, length });
    assert(b.subrange(1, 9) =~= be64(transfer_id));
    lemma_number64(b, 1, transfer_id);
    assert(b.subrange(9, 17) =~= be64(offset));
    lemma_number64(b, 9, offset);
    assert(b.subrange(17, 21) =~= be32(length));
    lemma_number32(b, 17, length);
    let b = datagram(EventModel::ManualFileChunk { transfer_id, offset, data });
    assert(b.subrange(1, 9) =~= be64(transfer_id));
    lemma_number64(b, 1, transfer_id);
    assert(b.subrange(9, 17) =~= be64(offset));
    lemma_number64(b, 9, offset);
    assert(b.subrange(17, 17 + data.len() as int) =~= data);
    let b = datagram(EventModel::ManualFileComplete { transfer_id, sha256: data });
    assert(b.subrange(1, 9) =~= be64(transfer_id));
    lemma_number64(b, 1, transfer_id);
    assert(b.subrange(9, 9 + data.len() as int) =~= data);
    let b = datagram(EventModel::ManualFileCancel { transfer_id });
    assert(b.subrange(1, 9) =~= be64(transfer_id));
    lemma_number64(b, 1, transfer_id);
}

/// The messages of one byte, and of one byte and a flag or a choice.
pub proof fn law_small_messages_on_the_wire(
    alive: bool,
    p: crate::proto::Position,
    c: crate::proto::ClipboardCapabilities,
    transfer_id: u64,
    decision: crate::proto::ManualDecision,
)
    ensures
        datagram(EventModel::Ping) == seq![6u8],
        datagram(EventModel::ProfileChanged) == seq![33u8],
        datagram(EventModel::Pong(alive)).len() == 2,
        datagram(EventModel::Pong(alive))[0] == 7,
        datagram(EventModel::Pong(alive))[1] == (if alive {
            1u8
        } else {
            0u8
        }),
        datagram(EventModel::Enter(p)).len() == 2,
        datagram(EventModel::Enter(p))[0] == 8,
        datagram(EventModel::Enter(p))[1] == (match p {
            crate::proto::Position::Left => 0u8,
            crate::proto::Position::Right => 1u8,
            crate::proto::Position::Top => 2u8,
            crate::proto::Position::Bottom => 3u8,
        }),
        ({
            let b = datagram(EventModel::ClipboardCapabilities(c));
            &&& b.len() == 4 && b[0] == 15
            &&& b[1] == (if c.text { 1u8 } else { 0u8 })
            &&& b[2] == (if c.image { 1u8 } else { 0u8 })
            &&& b[3] == (if c.files { 1u8 } else { 0u8 })
        }),
        ({
            let b = datagram(EventModel::ManualFileDecision { transfer_id, decision });
            &&& b.len() == 10 && b[0] == 35
            &&& number_at(b, 1, 8) == transfer_id
            &&& b[9] == (match decision {
                crate::proto::ManualDecision::Pending => 0u8,
                crate::proto::ManualDecision::Accepted => 1u8,
                crate::proto::ManualDecision::Declined => 2u8,
            })
        }),
{
    broadcast use group_be_len;

    assert(datagram(EventModel::Ping) =~= seq![6u8]);
    assert(datagram(EventModel::ProfileChanged) =~= seq![33u8]);
    let b = datagram(EventModel::ManualFileDecision { transfer_id, decision });
    assert(b.subrange(1, 9) =~= be64(transfer_id));
    lemma_number64(b, 1, transfer_id);
}

/// A clear names its operation, then how many devices it is about, then each by the length
/// of its name, its name and its sequence.
pub proof fn law_clears_on_the_wire(operation_id: Seq<u8>, device: Seq<char>, sequence: u64)
    requires
        operation_id.len() == 16,
        encode_utf8(device).len() <= 128,
    ensures
        ({
            let b = datagram(
                EventModel::HistoryClearApply { operation_id, boundary: seq![(device, sequence)] },
            );
            let n = encode_utf8(device).len() as int;
            &&& b[0] == 28
            &&& b.subrange(1, 17) == operation_id
            &&& number_at(b, 17, 2) == 1
            &&& number_at(b, 19, 2) == n
            &&& b.subrange(21, 21 + n) == encode_utf8(device)
            &&& number_at(b, 21 + n, 8) == sequence
            &&& b.len() == 29 + n
        }),
{
    broadcast use group_be_len;

    let boundary = seq![(device, sequence)];
    let b = datagram(EventModel::HistoryClearApply { operation_id, boundary });
    let n = encode_utf8(device).len() as int;
    assert(boundary.drop_last() =~= Seq::<(Seq<char>, u64)>::empty());
    assert(crate::proto::model::devices_bytes(boundary.drop_last()) =~= Seq::<u8>::empty());
    assert(boundary.last() == (device, sequence));
    assert(crate::proto::model::devices_bytes(boundary)
        =~= crate::proto::model::text_bytes(device) + be64(sequence));
    assert(b.subrange(1, 17) =~= operation_id);
    assert(b.subrange(17, 19) =~= be16(1));
    lemma_number16(b, 17, 1);
    assert(b.subrange(19, 21) =~= be16(n as u16));
    lemma_number16(b, 19, n as u16);
    assert(b.subrange(21, 21 + n) =~= encode_utf8(device));
    assert(b.subrange(21 + n, 29 + n) =~= be64(sequence));
    lemma_number64(b, 21 + n, sequence);
}

/// A file of a manifest has its number, then whether it is a file, then the length of its
/// path, its path and its size.
pub proof fn law_manifests_on_the_wire(transfer_id: u64, e: EntryModel)
    requires
        encode_utf8(e.path).len() <= 1024,
    ensures
        ({
            let b = datagram(EventModel::ClipboardManifest { transfer_id, entries: seq![e] });
            let n = encode_utf8(e.path).len() as int;
            &&& b[0] == 16
            &&& number_at(b, 1, 8) == transfer_id
            &&& number_at(b, 9, 4) == 1
            &&& number_at(b, 13, 8) == e.file_id
            &&& b[21] == (if e.kind == ClipboardEntryKind::File {
                1u8
            } else {
                0u8
            })
            &&& number_at(b, 22, 2) == n
            &&& b.subrange(24, 24 + n) == encode_utf8(e.path)
            &&& number_at(b, 24 + n, 8) == e.size
            &&& b.len() == 32 + n
        }),
{
    broadcast use group_be_len;

    let entries = seq![e];
    let b = datagram(EventModel::ClipboardManifest { transfer_id, entries });
    let n = encode_utf8(e.path).len() as int;
    assert(entries.drop_last() =~= Seq::<EntryModel>::empty());
    assert(crate::proto::model::entries_bytes(entries.drop_last()) =~= Seq::<u8>::empty());
    assert(entries.last() == e);
    assert(crate::proto::model::entries_bytes(entries) =~= crate::proto::model::entry_bytes(e));
    assert(b.subrange(1, 9) =~= be64(transfer_id));
    lemma_number64(b, 1, transfer_id);
    assert(b.subrange(9, 13) =~= be32(1));
    lemma_number32(b, 9, 1);
    assert(b.subrange(13, 21) =~= be64(e.file_id));
    lemma_number64(b, 13, e.file_id);
    assert(b.subrange(22, 24) =~= be16(n as u16));
    lemma_number16(b, 22, n as u16);
    assert(b.subrange(24, 24 + n) =~= encode_utf8(e.path));
    assert(b.subrange(24 + n, 32 + n) =~= be64(e.size));
    lemma_number64(b, 24 + n, e.size);
}

} // verus!
