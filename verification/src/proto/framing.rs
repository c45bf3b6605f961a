//! Where a datagram ends: what a receiver says of one that was cut, and of one
//! with bytes behind it.
use crate::proto::decode::boundary_at;
use crate::proto::decode::clear_in;
use crate::proto::decode::clipboard_file_in;
use crate::proto::decode::clipboard_in;
use crate::proto::decode::device_at;
use crate::proto::decode::devices_at;
use crate::proto::decode::entries_at;
use crate::proto::decode::entry_at;
use crate::proto::decode::family;
use crate::proto::decode::history_in;
use crate::proto::decode::input_in;
use crate::proto::decode::manual_in;
use crate::proto::decode::manual_range_in;
use crate::proto::decode::message_of;
use crate::proto::decode::optional_text_at;
use crate::proto::decode::profile_in;
use crate::proto::decode::simple_in;
use crate::proto::decode::type_of;
use crate::proto::decode::Family;
use crate::proto::model::EntryModel;
use crate::proto::model::EventModel;
use crate::proto::model::Fault;
use crate::proto::EventType;
use crate::proto::MAX_DATAGRAM_SIZE;
use crate::wire::u16_at;
use crate::wire::u32_at;
use crate::wire::u64_at;
use vstd::prelude::*;

verus! {

/// A message whose last field is as long as the datagram allows.
pub open spec fn is_chunk(e: EventModel) -> bool {
    e is ClipboardChunk || e is ClipboardFileChunk || e is ProfileChunk || e is HistoryRecordChunk
        || e is ManualFileChunk
}

/// A datagram is the front of another.
pub open spec fn fronts(short: Seq<u8>, long: Seq<u8>) -> bool {
    &&& short.len() <= long.len()
    &&& short == long.take(short.len() as int)
}

/// The fields that the front holds whole are the same in both.
proof fn lemma_same_fields(short: Seq<u8>, long: Seq<u8>)
    requires
        fronts(short, long),
    ensures
        forall|i: int| 0 <= i < short.len() ==> #[trigger] short[i] == long[i],
        forall|i: int| 0 <= i < short.len() ==> short[i] == #[trigger] long[i],
        forall|i: int| 0 <= i && i + 2 <= short.len() ==> #[trigger] u16_at(short, i) == u16_at(long, i),
        forall|i: int| 0 <= i && i + 4 <= short.len() ==> #[trigger] u32_at(short, i) == u32_at(long, i),
        forall|i: int| 0 <= i && i + 8 <= short.len() ==> #[trigger] u64_at(short, i) == u64_at(long, i),
        forall|i: int, j: int|
            0 <= i <= j <= short.len() ==> #[trigger] short.subrange(i, j) == long.subrange(i, j),
{
    reveal(u16_at);
    reveal(u32_at);
    reveal(u64_at);
    assert forall|i: int| 0 <= i && i + 4 <= short.len() implies #[trigger] u32_at(short, i)
        == u32_at(long, i) by {
        assert(u16_at(short, i) == u16_at(long, i));
        assert(u16_at(short, i + 2) == u16_at(long, i + 2));
    }
    assert forall|i: int| 0 <= i && i + 8 <= short.len() implies #[trigger] u64_at(short, i)
        == u64_at(long, i) by {
        assert(u32_at(short, i) == u32_at(long, i));
        assert(u32_at(short, i + 4) == u32_at(long, i + 4));
    }
    assert forall|i: int, j: int| 0 <= i <= j <= short.len() implies #[trigger] short.subrange(i, j)
        == long.subrange(i, j) by {
        assert(short.subrange(i, j) =~= long.subrange(i, j));
    }
}

/// What a reading of the front and of the whole say: where the whole can be read,
/// so can the front if it goes as far, else it is cut; where the front can be
/// read, the whole reads the same.
spec fn agree<T>(
    short: Result<(T, int), Fault>,
    long: Result<(T, int), Fault>,
    at: int,
    len: int,
) -> bool {
    &&& long matches Ok((value, end)) ==> at <= end && (if end <= len {
        short == long
    } else {
        short == Err::<(T, int), Fault>(Fault::Truncated)
    })
    &&& short matches Ok((value, end)) ==> at <= end <= len && short == long
}

proof fn lemma_text(short: Seq<u8>, long: Seq<u8>, at: int)
    requires
        fronts(short, long),
        0 <= at,
    ensures
        agree(optional_text_at(short, at), optional_text_at(long, at), at, short.len() as int),
{
    lemma_same_fields(short, long);
}

proof fn lemma_entry(short: Seq<u8>, long: Seq<u8>, at: int, previous: u64, total: int)
    requires
        fronts(short, long),
        0 <= at,
    ensures
        agree(
            entry_at(short, at, previous, total),
            entry_at(long, at, previous, total),
            at,
            short.len() as int,
        ),
{
    lemma_same_fields(short, long);
}

proof fn lemma_entries(
    short: Seq<u8>,
    long: Seq<u8>,
    at: int,
    count: nat,
    read: Seq<EntryModel>,
    previous: u64,
    total: int,
)
    requires
        fronts(short, long),
        0 <= at <= short.len(),
    ensures
        agree(
            entries_at(short, at, count, read, previous, total),
            entries_at(long, at, count, read, previous, total),
            at,
            short.len() as int,
        ),
    decreases count,
{
    if count > 0 {
        lemma_entry(short, long, at, previous, total);
        match entry_at(long, at, previous, total) {
            Ok((entry, end)) => {
                if end <= short.len() {
                    lemma_entries(
                        short,
                        long,
                        end,
                        (count - 1) as nat,
                        read.push(entry),
                        entry.file_id,
                        total + entry.size,
                    );
                } else {
                    lemma_entries_advance(
                        long,
                        end,
                        (count - 1) as nat,
                        read.push(entry),
                        entry.file_id,
                        total + entry.size,
                    );
                }
            },
            Err(_) => {},
        }
    }
}

/// Entries end behind where they start.
proof fn lemma_entries_advance(
    b: Seq<u8>,
    at: int,
    count: nat,
    read: Seq<EntryModel>,
    previous: u64,
    total: int,
)
    ensures
        entries_at(b, at, count, read, previous, total) matches Ok((entries, end)) ==> at <= end,
    decreases count,
{
    if count > 0 {
        match entry_at(b, at, previous, total) {
            Ok((entry, end)) => {
                lemma_entries_advance(
                    b,
                    end,
                    (count - 1) as nat,
                    read.push(entry),
                    entry.file_id,
                    total + entry.size,
                );
            },
            Err(_) => {},
        }
    }
}

proof fn lemma_device(short: Seq<u8>, long: Seq<u8>, at: int)
    requires
        fronts(short, long),
        0 <= at,
    ensures
        agree(device_at(short, at), device_at(long, at), at, short.len() as int),
{
    lemma_same_fields(short, long);
}

proof fn lemma_devices(
    short: Seq<u8>,
    long: Seq<u8>,
    at: int,
    count: nat,
    read: Seq<(Seq<char>, u64)>,
)
    requires
        fronts(short, long),
        0 <= at <= short.len(),
    ensures
        agree(
            devices_at(short, at, count, read),
            devices_at(long, at, count, read),
            at,
            short.len() as int,
        ),
    decreases count,
{
    if count > 0 {
        lemma_device(short, long, at);
        match device_at(long, at) {
            Ok((device, end)) => {
                if end <= short.len() {
                    lemma_devices(short, long, end, (count - 1) as nat, read.push(device));
                } else {
                    lemma_devices_advance(long, end, (count - 1) as nat, read.push(device));
                }
            },
            Err(_) => {},
        }
    }
}

/// Devices end behind where they start.
proof fn lemma_devices_advance(b: Seq<u8>, at: int, count: nat, read: Seq<(Seq<char>, u64)>)
    ensures
        devices_at(b, at, count, read) matches Ok((devices, end)) ==> at <= end,
    decreases count,
{
    if count > 0 {
        match device_at(b, at) {
            Ok((device, end)) => {
                lemma_devices_advance(b, end, (count - 1) as nat, read.push(device));
            },
            Err(_) => {},
        }
    }
}

proof fn lemma_boundary(short: Seq<u8>, long: Seq<u8>, at: int)
    requires
        fronts(short, long),
        0 <= at,
    ensures
        agree(boundary_at(short, at), boundary_at(long, at), at, short.len() as int),
{
    lemma_same_fields(short, long);
    if at + 2 <= short.len() {
        lemma_devices(short, long, at + 2, u16_at(long, at) as nat, Seq::empty());
    } else if at + 2 <= long.len() {
        lemma_devices_advance(long, at + 2, u16_at(long, at) as nat, Seq::empty());
    }
}

/// What a receiver says of the front of a message and of more than a message.
spec fn ends_there(
    short: Result<EventModel, Fault>,
    long: Result<EventModel, Fault>,
    more: int,
) -> bool {
    &&& long is Ok && !is_chunk(long->Ok_0) ==> short == Err::<EventModel, Fault>(Fault::Truncated)
    &&& short is Ok && !is_chunk(short->Ok_0) ==> long == Err::<EventModel, Fault>(
        Fault::TrailingBytes(more as usize),
    )
}

proof fn lemma_simple(short: Seq<u8>, long: Seq<u8>, t: EventType)
    requires
        fronts(short, long),
        0 < short.len() < long.len(),
        family(t) is Simple,
    ensures
        ends_there(simple_in(short, t), simple_in(long, t), long.len() - short.len()),
{
    lemma_same_fields(short, long);
}

proof fn lemma_input(short: Seq<u8>, long: Seq<u8>, t: EventType)
    requires
        fronts(short, long),
        0 < short.len() < long.len(),
        family(t) is Input,
    ensures
        ends_there(input_in(short, t), input_in(long, t), long.len() - short.len()),
{
}

proof fn lemma_profile(short: Seq<u8>, long: Seq<u8>, t: EventType)
    requires
        fronts(short, long),
        0 < short.len() < long.len(),
        family(t) is Profile,
    ensures
        ends_there(profile_in(short, t), profile_in(long, t), long.len() - short.len()),
{
    lemma_same_fields(short, long);
}

proof fn lemma_clipboard(short: Seq<u8>, long: Seq<u8>, t: EventType)
    requires
        fronts(short, long),
        0 < short.len() < long.len(),
        family(t) is Clipboard,
    ensures
        ends_there(clipboard_in(short, t), clipboard_in(long, t), long.len() - short.len()),
{
    lemma_same_fields(short, long);
    if short.len() >= 13 {
        lemma_entries(short, long, 13, u32_at(long, 9) as nat, Seq::empty(), 0, 0);
    }
}

proof fn lemma_clipboard_file(short: Seq<u8>, long: Seq<u8>, t: EventType)
    requires
        fronts(short, long),
        0 < short.len() < long.len(),
        family(t) is ClipboardFile,
    ensures
        ends_there(
            clipboard_file_in(short, t),
            clipboard_file_in(long, t),
            long.len() - short.len(),
        ),
{
    lemma_same_fields(short, long);
}

proof fn lemma_history(short: Seq<u8>, long: Seq<u8>, t: EventType)
    requires
        fronts(short, long),
        0 < short.len() < long.len(),
        family(t) is History,
    ensures
        ends_there(history_in(short, t), history_in(long, t), long.len() - short.len()),
{
    lemma_same_fields(short, long);
}

proof fn lemma_clear(short: Seq<u8>, long: Seq<u8>, t: EventType)
    requires
        fronts(short, long),
        0 < short.len() < long.len(),
        family(t) is Clear,
    ensures
        ends_there(clear_in(short, t), clear_in(long, t), long.len() - short.len()),
{
    lemma_same_fields(short, long);
    lemma_boundary(short, long, 17);
    lemma_text(short, long, 25);
}

proof fn lemma_manual(short: Seq<u8>, long: Seq<u8>, t: EventType)
    requires
        fronts(short, long),
        0 < short.len() < long.len(),
        family(t) is Manual,
    ensures
        ends_there(manual_in(short, t), manual_in(long, t), long.len() - short.len()),
{
    lemma_same_fields(short, long);
    lemma_text(short, long, 10);
}

proof fn lemma_manual_range(short: Seq<u8>, long: Seq<u8>, t: EventType)
    requires
        fronts(short, long),
        0 < short.len() < long.len(),
        family(t) is ManualRange,
    ensures
        ends_there(manual_range_in(short, t), manual_range_in(long, t), long.len() - short.len()),
{
    lemma_same_fields(short, long);
}

proof fn lemma_ends_there(short: Seq<u8>, long: Seq<u8>)
    requires
        fronts(short, long),
        0 < short.len() < long.len() <= MAX_DATAGRAM_SIZE,
    ensures
        ends_there(message_of(short), message_of(long), long.len() - short.len()),
{
    lemma_same_fields(short, long);
    assert(short[0] == long[0]);
    match type_of(long[0]) {
        None => {},
        Some(t) => match family(t) {
            Family::Simple => lemma_simple(short, long, t),
            Family::Input => lemma_input(short, long, t),
            Family::Profile => lemma_profile(short, long, t),
            Family::Clipboard => lemma_clipboard(short, long, t),
            Family::ClipboardFile => lemma_clipboard_file(short, long, t),
            Family::History => lemma_history(short, long, t),
            Family::Clear => lemma_clear(short, long, t),
            Family::Manual => lemma_manual(short, long, t),
            Family::ManualRange => lemma_manual_range(short, long, t),
        },
    }
}

/// A datagram that was cut anywhere is told to be truncated, unless its message
/// is a piece of something, which may have any length.
pub proof fn law_cut_datagrams_are_truncated(b: Seq<u8>, n: nat)
    requires
        message_of(b) is Ok,
        !is_chunk(message_of(b)->Ok_0),
        n < b.len(),
    ensures
        message_of(b.take(n as int)) == Err::<EventModel, Fault>(Fault::Truncated),
{
    if n > 0 {
        lemma_ends_there(b.take(n as int), b);
    }
}

/// Bytes behind a message are told by their number, unless the message is a piece
/// of something, which takes them in.
pub proof fn law_trailing_bytes_are_counted(b: Seq<u8>, more: Seq<u8>)
    requires
        message_of(b) is Ok,
        !is_chunk(message_of(b)->Ok_0),
        more.len() > 0,
        b.len() + more.len() <= MAX_DATAGRAM_SIZE,
    ensures
        message_of(b + more) == Err::<EventModel, Fault>(
            Fault::TrailingBytes(more.len() as usize),
        ),
{
    assert((b + more).take(b.len() as int) =~= b);
    lemma_ends_there(b, b + more);
}

} // verus!
