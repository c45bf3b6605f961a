//! A message has one datagram: what is received is, byte for byte, what would
//! be sent.
use crate::proto::decode::device_at;
use crate::proto::decode::devices_at;
use crate::proto::decode::entries_at;
use crate::proto::decode::entry_at;
use crate::proto::decode::family;
use crate::proto::decode::message_of;
use crate::proto::decode::optional_text_at;
use crate::proto::decode::type_of;
use crate::proto::decode::Family;
use crate::proto::encode::encodable;
use crate::proto::model::datagram;
use crate::proto::model::devices_bytes;
use crate::proto::model::entries_bytes;
use crate::proto::model::entry_bytes;
use crate::proto::model::optional_text_bytes;
use crate::proto::model::EntryModel;
use crate::proto::validate::device_ok;
use crate::proto::validate::entries_fault;
use crate::proto::validate::optional_text_fault;
use crate::proto::EventType;
use crate::proto::MAX_CLIPBOARD_SIZE;
use crate::wire::group_be_len;
use crate::wire::lemma_signed32;
use crate::wire::lemma_u16_at;
use crate::wire::lemma_u32_at;
use crate::wire::lemma_u64_at;
use crate::wire::u16_at;
use crate::wire::u32_at;
use vstd::prelude::*;
use vstd::utf8::decode_utf8_encode_utf8;

verus! {

/// An optional text that was read is laid out as it was.
proof fn lemma_text_read(b: Seq<u8>, at: int)
    requires
        0 <= at <= b.len(),
        optional_text_at(b, at) is Ok,
    ensures
        ({
            let (text, end) = optional_text_at(b, at)->Ok_0;
            &&& at <= end <= b.len()
            &&& optional_text_bytes(text) == b.subrange(at, end)
            &&& optional_text_fault(text) is None
        }),
{
    broadcast use group_be_len;

    let (text, end) = optional_text_at(b, at)->Ok_0;
    lemma_u16_at(b, at);
    match text {
        None => {
            assert(optional_text_bytes(text) =~= b.subrange(at, end));
        },
        Some(s) => {
            let bytes = b.subrange(at + 2, end);
            decode_utf8_encode_utf8(bytes);
            assert(optional_text_bytes(text) =~= b.subrange(at, end));
        },
    }
}

/// The entries that were read are laid out as they were, and break no rule.
proof fn lemma_entries_read(
    b: Seq<u8>,
    at: int,
    count: nat,
    read: Seq<EntryModel>,
    previous: u64,
    total: int,
)
    requires
        0 <= at <= b.len(),
        0 <= total <= MAX_CLIPBOARD_SIZE,
        entries_at(b, at, count, read, previous, total) is Ok,
    ensures
        ({
            let (entries, end) = entries_at(b, at, count, read, previous, total)->Ok_0;
            &&& at <= end <= b.len()
            &&& entries.len() == read.len() + count
            &&& entries.take(read.len() as int) == read
            &&& entries_bytes(entries) == entries_bytes(read) + b.subrange(at, end)
            &&& entries_fault(entries, read.len() as int, previous, total) is None
        }),
    decreases count,
{
    broadcast use group_be_len;

    let (entries, end) = entries_at(b, at, count, read, previous, total)->Ok_0;
    if count == 0 {
        assert(entries.take(read.len() as int) =~= read);
        assert(entries_bytes(entries) =~= entries_bytes(read) + b.subrange(at, end));
    } else {
        let (entry, next) = entry_at(b, at, previous, total)->Ok_0;
        let n = u16_at(b, at + 9) as int;
        let bytes = b.subrange(at + 11, at + 11 + n);
        lemma_u64_at(b, at);
        lemma_u16_at(b, at + 9);
        decode_utf8_encode_utf8(bytes);
        lemma_u64_at(b, at + 11 + n);
        assert(entry_bytes(entry) =~= b.subrange(at, next));
        let longer = read.push(entry);
        lemma_entries_read(
            b,
            next,
            (count - 1) as nat,
            longer,
            entry.file_id,
            total + entry.size,
        );
        assert(longer.drop_last() =~= read);
        assert(entries_bytes(longer) == entries_bytes(read) + entry_bytes(entry));
        assert(entries_bytes(entries) =~= entries_bytes(read) + b.subrange(at, end));
        assert(entries.take(read.len() as int) =~= entries.take(longer.len() as int).take(
            read.len() as int,
        ));
        assert(entries.take(read.len() as int) =~= read);
        assert(entries[read.len() as int] == entries.take(longer.len() as int)[read.len() as int]);
        assert(entries[read.len() as int] == entry);
    }
}

/// The devices that were read are laid out as they were, and break no rule.
proof fn lemma_devices_read(b: Seq<u8>, at: int, count: nat, read: Seq<(Seq<char>, u64)>)
    requires
        0 <= at <= b.len(),
        devices_at(b, at, count, read) is Ok,
        forall|i: int| 0 <= i < read.len() ==> device_ok(#[trigger] read[i].0),
    ensures
        ({
            let (devices, end) = devices_at(b, at, count, read)->Ok_0;
            &&& at <= end <= b.len()
            &&& devices.len() == read.len() + count
            &&& devices_bytes(devices) == devices_bytes(read) + b.subrange(at, end)
            &&& forall|i: int| 0 <= i < devices.len() ==> device_ok(#[trigger] devices[i].0)
        }),
    decreases count,
{
    broadcast use group_be_len;

    let (devices, end) = devices_at(b, at, count, read)->Ok_0;
    if count == 0 {
        assert(devices_bytes(devices) =~= devices_bytes(read) + b.subrange(at, end));
    } else {
        let (device, next) = device_at(b, at)->Ok_0;
        let n = u16_at(b, at) as int;
        let bytes = b.subrange(at + 2, at + 2 + n);
        lemma_u16_at(b, at);
        decode_utf8_encode_utf8(bytes);
        lemma_u64_at(b, at + 2 + n);
        let longer = read.push(device);
        assert(longer.drop_last() =~= read);
        assert(devices_bytes(longer) =~= devices_bytes(read) + b.subrange(at, next));
        lemma_devices_read(b, next, (count - 1) as nat, longer);
        assert(devices_bytes(devices) =~= devices_bytes(read) + b.subrange(at, end));
    }
}

/// Messages without rules of their own.
proof fn lemma_canonical_simple(b: Seq<u8>, t: EventType)
    requires
        message_of(b) is Ok,
        type_of(b[0]) == Some(t),
        family(t) is Simple,
        t is Pong ==> b[1] <= 1,
    ensures
        encodable(message_of(b)->Ok_0),
        datagram(message_of(b)->Ok_0) == b,
{
    broadcast use group_be_len;

    let e = message_of(b)->Ok_0;
    match t {
        EventType::Ping => {
            assert(datagram(e) =~= b);
        },
        EventType::ProfileChanged => {
            assert(datagram(e) =~= b);
        },
        EventType::Pong => {
            assert(datagram(e) =~= b);
        },
        EventType::Enter => {
            assert(datagram(e) =~= b);
        },
        EventType::Leave => {
            lemma_u32_at(b, 1);
            assert(datagram(e) =~= b);
        },
        EventType::Ack => {
            lemma_u32_at(b, 1);
            assert(datagram(e) =~= b);
        },
        EventType::Hello => {
            assert(datagram(e) =~= b);
        },
        _ => {},
    }
}

/// Input events.
proof fn lemma_canonical_input(b: Seq<u8>, t: EventType)
    requires
        message_of(b) is Ok,
        type_of(b[0]) == Some(t),
        family(t) is Input,
    ensures
        encodable(message_of(b)->Ok_0),
        datagram(message_of(b)->Ok_0) == b,
{
    broadcast use group_be_len;

    let e = message_of(b)->Ok_0;
    match t {
        EventType::PointerMotion => {
            lemma_u32_at(b, 1);
            lemma_u64_at(b, 5);
            lemma_u64_at(b, 13);
            assert(datagram(e) =~= b);
        },
        EventType::PointerButton => {
            lemma_u32_at(b, 1);
            lemma_u32_at(b, 5);
            lemma_u32_at(b, 9);
            assert(datagram(e) =~= b);
        },
        EventType::PointerAxis => {
            lemma_u32_at(b, 1);
            lemma_u64_at(b, 6);
            assert(datagram(e) =~= b);
        },
        EventType::PointerAxisValue120 => {
            lemma_u32_at(b, 2);
            lemma_signed32(u32_at(b, 2));
            assert(datagram(e) =~= b);
        },
        EventType::KeyboardKey => {
            lemma_u32_at(b, 1);
            lemma_u32_at(b, 5);
            assert(datagram(e) =~= b);
        },
        EventType::KeyboardModifiers => {
            lemma_u32_at(b, 1);
            lemma_u32_at(b, 5);
            lemma_u32_at(b, 9);
            lemma_u32_at(b, 13);
            assert(datagram(e) =~= b);
        },
        _ => {},
    }
}

/// Messages about device profiles.
proof fn lemma_canonical_profile(b: Seq<u8>, t: EventType)
    requires
        message_of(b) is Ok,
        type_of(b[0]) == Some(t),
        family(t) is Profile,
    ensures
        encodable(message_of(b)->Ok_0),
        datagram(message_of(b)->Ok_0) == b,
{
    broadcast use group_be_len;

    let e = message_of(b)->Ok_0;
    match t {
        EventType::ProfileRequest => {
            lemma_u64_at(b, 1);
            assert(datagram(e) =~= b);
        },
        EventType::ProfileChunk => {
            lemma_u64_at(b, 1);
            lemma_u32_at(b, 9);
            assert(datagram(e) =~= b);
        },
        EventType::ProfileStart => {
            lemma_u64_at(b, 1);
            lemma_u32_at(b, 9);
            lemma_u32_at(b, 13);
            lemma_u32_at(b, 17);
            lemma_u32_at(b, 21);
            let n = b[25] as int;
            let bytes = b.subrange(26, 26 + n);
            decode_utf8_encode_utf8(bytes);
            assert(datagram(e) =~= b);
        },
        _ => {},
    }
}

/// Messages about clipboards.
proof fn lemma_canonical_clipboard(b: Seq<u8>, t: EventType)
    requires
        message_of(b) is Ok,
        type_of(b[0]) == Some(t),
        family(t) is Clipboard && !(t is ClipboardManifest),
    ensures
        encodable(message_of(b)->Ok_0),
        datagram(message_of(b)->Ok_0) == b,
{
    broadcast use group_be_len;

    let e = message_of(b)->Ok_0;
    match t {
        EventType::ClipboardStart => {
            lemma_u64_at(b, 1);
            lemma_u32_at(b, 9);
            lemma_u32_at(b, 13);
            assert(datagram(e) =~= b);
        },
        EventType::ClipboardImageStart => {
            lemma_u64_at(b, 1);
            lemma_u32_at(b, 9);
            lemma_u32_at(b, 13);
            lemma_u32_at(b, 17);
            lemma_u32_at(b, 21);
            assert(datagram(e) =~= b);
        },
        EventType::ClipboardChunk => {
            lemma_u64_at(b, 1);
            lemma_u32_at(b, 9);
            assert(datagram(e) =~= b);
        },
        EventType::ClipboardCapabilities => {
            assert(datagram(e) =~= b);
        },
        EventType::ClipboardTransferCancel => {
            lemma_u64_at(b, 1);
            lemma_u64_at(b, 9);
            assert(datagram(e) =~= b);
        },
        EventType::ClipboardTransferProgress => {
            lemma_u64_at(b, 1);
            lemma_u64_at(b, 9);
            lemma_u64_at(b, 17);
            lemma_u64_at(b, 25);
            assert(datagram(e) =~= b);
        },
        _ => {},
    }
}

/// Manifests.
proof fn lemma_canonical_manifest(b: Seq<u8>, t: EventType)
    requires
        message_of(b) is Ok,
        type_of(b[0]) == Some(t),
        t is ClipboardManifest,
    ensures
        encodable(message_of(b)->Ok_0),
        datagram(message_of(b)->Ok_0) == b,
{
    broadcast use group_be_len;

    let e = message_of(b)->Ok_0;
    match t {
        EventType::ClipboardManifest => {
            lemma_u64_at(b, 1);
            lemma_u32_at(b, 9);
            lemma_entries_read(b, 13, u32_at(b, 9) as nat, Seq::empty(), 0, 0);
            assert(datagram(e) =~= b);
        },
        _ => {},
    }
}

/// Messages about one clipboard file.
proof fn lemma_canonical_clipboard_file(b: Seq<u8>, t: EventType)
    requires
        message_of(b) is Ok,
        type_of(b[0]) == Some(t),
        family(t) is ClipboardFile,
    ensures
        encodable(message_of(b)->Ok_0),
        datagram(message_of(b)->Ok_0) == b,
{
    broadcast use group_be_len;

    let e = message_of(b)->Ok_0;
    match t {
        EventType::ClipboardFileRequest => {
            lemma_u64_at(b, 1);
            lemma_u64_at(b, 9);
            lemma_u64_at(b, 17);
            lemma_u64_at(b, 25);
            lemma_u64_at(b, 33);
            assert(datagram(e) =~= b);
        },
        EventType::ClipboardFileChunk => {
            lemma_u64_at(b, 1);
            lemma_u64_at(b, 9);
            lemma_u64_at(b, 17);
            lemma_u64_at(b, 25);
            assert(datagram(e) =~= b);
        },
        EventType::ClipboardFileComplete => {
            lemma_u64_at(b, 1);
            lemma_u64_at(b, 9);
            lemma_u64_at(b, 17);
            lemma_u64_at(b, 25);
            assert(datagram(e) =~= b);
        },
        _ => {},
    }
}

/// Messages about the history.
proof fn lemma_canonical_history(b: Seq<u8>, t: EventType)
    requires
        message_of(b) is Ok,
        type_of(b[0]) == Some(t),
        family(t) is History,
    ensures
        encodable(message_of(b)->Ok_0),
        datagram(message_of(b)->Ok_0) == b,
{
    broadcast use group_be_len;

    let e = message_of(b)->Ok_0;
    match t {
        EventType::HistorySyncRequest => {
            lemma_u64_at(b, 1);
            lemma_u64_at(b, 9);
            assert(datagram(e) =~= b);
        },
        EventType::HistoryRecordStart => {
            lemma_u64_at(b, 1);
            lemma_u64_at(b, 9);
            lemma_u32_at(b, 17);
            lemma_u32_at(b, 21);
            assert(datagram(e) =~= b);
        },
        EventType::HistoryRecordChunk => {
            lemma_u64_at(b, 1);
            lemma_u64_at(b, 9);
            lemma_u32_at(b, 17);
            assert(datagram(e) =~= b);
        },
        EventType::HistorySyncPageEnd => {
            lemma_u64_at(b, 1);
            if b[9] == 1 {
                lemma_u64_at(b, 10);
            }
            assert(datagram(e) =~= b);
        },
        _ => {},
    }
}

/// Messages about clearing the history.
proof fn lemma_canonical_clear(b: Seq<u8>, t: EventType)
    requires
        message_of(b) is Ok,
        type_of(b[0]) == Some(t),
        family(t) is Clear,
    ensures
        encodable(message_of(b)->Ok_0),
        datagram(message_of(b)->Ok_0) == b,
{
    broadcast use group_be_len;

    let e = message_of(b)->Ok_0;
    match t {
        EventType::HistoryClearBoundaryRequest => {
            assert(datagram(e) =~= b);
        },
        EventType::HistoryClearBoundary => {
            lemma_u16_at(b, 17);
            lemma_devices_read(b, 19, u16_at(b, 17) as nat, Seq::empty());
            assert(datagram(e) =~= b);
        },
        EventType::HistoryClearApply => {
            lemma_u16_at(b, 17);
            lemma_devices_read(b, 19, u16_at(b, 17) as nat, Seq::empty());
            assert(datagram(e) =~= b);
        },
        EventType::HistoryClearAck => {
            lemma_u64_at(b, 17);
            lemma_text_read(b, 25);
            assert(datagram(e) =~= b);
        },
        _ => {},
    }
}

/// Messages about manually sent files.
proof fn lemma_canonical_manual(b: Seq<u8>, t: EventType)
    requires
        message_of(b) is Ok,
        type_of(b[0]) == Some(t),
        family(t) is Manual || family(t) is ManualRange,
    ensures
        encodable(message_of(b)->Ok_0),
        datagram(message_of(b)->Ok_0) == b,
{
    broadcast use group_be_len;

    let e = message_of(b)->Ok_0;
    match t {
        EventType::ManualFileDecision => {
            lemma_u64_at(b, 1);
            assert(datagram(e) =~= b);
        },
        EventType::ManualFileComplete => {
            lemma_u64_at(b, 1);
            assert(datagram(e) =~= b);
        },
        EventType::ManualFileCancel => {
            lemma_u64_at(b, 1);
            assert(datagram(e) =~= b);
        },
        EventType::ManualFileResult => {
            lemma_u64_at(b, 1);
            lemma_text_read(b, 10);
            assert(datagram(e) =~= b);
        },
        EventType::ManualFileOffer => {
            lemma_u64_at(b, 1);
            lemma_u16_at(b, 9);
            let n = u16_at(b, 9) as int;
            let bytes = b.subrange(11, 11 + n);
            decode_utf8_encode_utf8(bytes);
            lemma_u64_at(b, 11 + n);
            assert(datagram(e) =~= b);
        },
        EventType::ManualFileRequest => {
            lemma_u64_at(b, 1);
            lemma_u64_at(b, 9);
            lemma_u32_at(b, 17);
            assert(datagram(e) =~= b);
        },
        EventType::ManualFileChunk => {
            lemma_u64_at(b, 1);
            lemma_u64_at(b, 9);
            assert(datagram(e) =~= b);
        },
        _ => {},
    }
}

/// A receiver takes nothing but the one datagram of a message: whatever it
/// accepts breaks no rule and would be sent again byte for byte. Only the flag
/// of a pong may be any byte but zero where it is set.
pub proof fn law_canonical(b: Seq<u8>)
    requires
        message_of(b) is Ok,
        message_of(b)->Ok_0 is Pong ==> b[1] <= 1,
    ensures
        encodable(message_of(b)->Ok_0),
        datagram(message_of(b)->Ok_0) == b,
{
    let t = type_of(b[0])->Some_0;
    match family(t) {
        Family::Simple => lemma_canonical_simple(b, t),
        Family::Input => lemma_canonical_input(b, t),
        Family::Profile => lemma_canonical_profile(b, t),
        Family::Clipboard => if t is ClipboardManifest {
            lemma_canonical_manifest(b, t);
        } else {
            lemma_canonical_clipboard(b, t);
        },
        Family::ClipboardFile => lemma_canonical_clipboard_file(b, t),
        Family::History => lemma_canonical_history(b, t),
        Family::Clear => lemma_canonical_clear(b, t),
        Family::Manual => lemma_canonical_manual(b, t),
        Family::ManualRange => lemma_canonical_manual(b, t),
    }
}

/// Neither a cut datagram nor one with bytes behind it carries the message: no
/// other datagram does.
pub proof fn law_one_datagram(a: Seq<u8>, b: Seq<u8>)
    requires
        message_of(a) is Ok,
        message_of(a) == message_of(b),
        !(message_of(a)->Ok_0 is Pong),
    ensures
        a == b,
{
    law_canonical(a);
    law_canonical(b);
}

} // verus!
