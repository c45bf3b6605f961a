//! From a datagram to the message that it carries.
use crate::proto::model::boundary_of;
use crate::proto::model::entries_of;
use crate::proto::model::text_of;
use crate::proto::model::EntryModel;
use crate::proto::model::EventModel;
use crate::proto::model::Fault;
use crate::proto::validate::clipboard_image_fault;
use crate::proto::validate::clipboard_start_fault;
use crate::proto::validate::file_chunk_fault;
use crate::proto::validate::history_start_fault;
use crate::proto::validate::name_fault;
use crate::proto::validate::path_fault;
use crate::proto::validate::position_fault;
use crate::proto::validate::profile_picture_ok;
use crate::proto::validate::progress_fault;
use crate::proto::validate::request_fault;
use crate::proto::validate::validate_clipboard_image;
use crate::proto::validate::validate_clipboard_start;
use crate::proto::validate::validate_file_chunk;
use crate::proto::validate::validate_file_position;
use crate::proto::validate::validate_history_start;
use crate::proto::validate::validate_manual_file_name;
use crate::proto::validate::validate_path;
use crate::proto::validate::validate_profile_picture;
use crate::proto::validate::validate_progress;
use crate::proto::validate::validate_request;
use crate::proto::ClipboardCancelReason;
use crate::proto::ClipboardCapabilities;
use crate::proto::ClipboardEntryKind;
use crate::proto::ClipboardManifestEntry;
use crate::proto::EventType;
use crate::proto::InputEvent;
use crate::proto::KeyboardEvent;
use crate::proto::ManualDecision;
use crate::proto::PointerEvent;
use crate::proto::Position;
use crate::proto::ProtoEvent;
use crate::proto::ProtocolError;
use crate::proto::MAX_CLIPBOARD_MANIFEST_ENTRIES;
use crate::proto::MAX_CLIPBOARD_PATH_SIZE;
use crate::proto::MAX_DATAGRAM_SIZE;
use crate::proto::MAX_HISTORY_BOUNDARY_ENTRIES;
use crate::proto::MAX_HISTORY_CHUNK_SIZE;
use crate::proto::MAX_HISTORY_DEVICE_ID_SIZE;
use crate::proto::MAX_MANUAL_FILE_CHUNK_SIZE;
use crate::proto::MAX_MANUAL_FILE_ERROR_SIZE;
use crate::proto::MAX_MANUAL_FILE_NAME_SIZE;
use crate::proto::MAX_PROFILE_CHUNK_SIZE;
use crate::proto::MAX_PROFILE_NAME_SIZE;
use crate::proto::PROFILE_CHUNK_HEADER_SIZE;
use crate::proto::SAFE_DATAGRAM_SIZE;
use crate::text::byte_len;
use crate::text::text_from_utf8;
use crate::wire::array16;
use crate::wire::array32;
use crate::wire::array8;
use crate::wire::signed32;
use crate::wire::u16_at;
use crate::wire::u32_at;
use crate::wire::u64_at;
use crate::wire::Reader;
use vstd::prelude::*;
use vstd::utf8::decode_utf8;
use vstd::utf8::valid_utf8;

verus! {

// ---------------------------------------------------------------------------
// What a datagram means
// ---------------------------------------------------------------------------

/// The kind of message that a byte stands for.
pub open spec fn type_of(id: u8) -> Option<EventType> {
    match id {
        0 => Some(EventType::PointerMotion),
        1 => Some(EventType::PointerButton),
        2 => Some(EventType::PointerAxis),
        3 => Some(EventType::PointerAxisValue120),
        4 => Some(EventType::KeyboardKey),
        5 => Some(EventType::KeyboardModifiers),
        6 => Some(EventType::Ping),
        7 => Some(EventType::Pong),
        8 => Some(EventType::Enter),
        9 => Some(EventType::Leave),
        10 => Some(EventType::Ack),
        11 => Some(EventType::Hello),
        12 => Some(EventType::ClipboardStart),
        13 => Some(EventType::ClipboardChunk),
        14 => Some(EventType::ClipboardImageStart),
        15 => Some(EventType::ClipboardCapabilities),
        16 => Some(EventType::ClipboardManifest),
        17 => Some(EventType::ClipboardFileRequest),
        18 => Some(EventType::ClipboardFileChunk),
        19 => Some(EventType::ClipboardFileComplete),
        20 => Some(EventType::ClipboardTransferCancel),
        21 => Some(EventType::ClipboardTransferProgress),
        22 => Some(EventType::HistorySyncRequest),
        23 => Some(EventType::HistoryRecordStart),
        24 => Some(EventType::HistoryRecordChunk),
        25 => Some(EventType::HistorySyncPageEnd),
        26 => Some(EventType::HistoryClearBoundaryRequest),
        27 => Some(EventType::HistoryClearBoundary),
        28 => Some(EventType::HistoryClearApply),
        29 => Some(EventType::HistoryClearAck),
        30 => Some(EventType::ProfileStart),
        31 => Some(EventType::ProfileChunk),
        32 => Some(EventType::ProfileRequest),
        33 => Some(EventType::ProfileChanged),
        34 => Some(EventType::ManualFileOffer),
        35 => Some(EventType::ManualFileDecision),
        36 => Some(EventType::ManualFileRequest),
        37 => Some(EventType::ManualFileChunk),
        38 => Some(EventType::ManualFileComplete),
        39 => Some(EventType::ManualFileResult),
        40 => Some(EventType::ManualFileCancel),
        _ => None,
    }
}

/// The position that a byte stands for.
pub open spec fn position_of(id: u8) -> Option<Position> {
    match id {
        0 => Some(Position::Left),
        1 => Some(Position::Right),
        2 => Some(Position::Top),
        3 => Some(Position::Bottom),
        _ => None,
    }
}

/// A message whose fields end at `end`: nothing may follow them.
pub open spec fn ended(b: Seq<u8>, end: int, e: EventModel) -> Result<EventModel, Fault> {
    if b.len() > end {
        Err(Fault::TrailingBytes((b.len() - end) as usize))
    } else {
        Ok(e)
    }
}

/// The bytes from `at` to the end.
pub open spec fn tail(b: Seq<u8>, at: int) -> Seq<u8> {
    b.subrange(at, b.len() as int)
}

/// A message of fixed length, whose fields may hold anything.
pub open spec fn fixed(b: Seq<u8>, end: int, e: EventModel) -> Result<EventModel, Fault> {
    if b.len() < end {
        Err(Fault::Truncated)
    } else {
        ended(b, end, e)
    }
}

/// A message of fixed length, whose fields have to keep a rule.
pub open spec fn checked(b: Seq<u8>, end: int, fault: Option<Fault>, e: EventModel) -> Result<
    EventModel,
    Fault,
> {
    if b.len() < end {
        Err(Fault::Truncated)
    } else {
        match fault {
            Some(fault) => Err(fault),
            None => ended(b, end, e),
        }
    }
}

/// The number at `at`, which may not be zero; `zero` says so.
pub open spec fn nonzero_at(b: Seq<u8>, at: int, zero: Fault) -> Result<u64, Fault> {
    if b.len() < at + 8 {
        Err(Fault::Truncated)
    } else if u64_at(b, at) == 0 {
        Err(zero)
    } else {
        Ok(u64_at(b, at))
    }
}

/// The flag at `at`.
pub open spec fn bool_at(b: Seq<u8>, at: int) -> Result<bool, Fault> {
    if b.len() < at + 1 {
        Err(Fault::Truncated)
    } else if b[at] > 1 {
        Err(Fault::InvalidBoolean(b[at]))
    } else {
        Ok(b[at] == 1)
    }
}

/// The optional text at `at`, and where it ends.
pub open spec fn optional_text_at(b: Seq<u8>, at: int) -> Result<(Option<Seq<char>>, int), Fault> {
    if b.len() < at + 2 {
        Err(Fault::Truncated)
    } else {
        let len = u16_at(b, at) as int;
        if len == 0 {
            Ok((None, at + 2))
        } else if b.len() < at + 2 + len {
            Err(Fault::Truncated)
        } else {
            let bytes = b.subrange(at + 2, at + 2 + len);
            if valid_utf8(bytes) {
                Ok((Some(decode_utf8(bytes)), at + 2 + len))
            } else {
                Err(Fault::InvalidHistory("non-UTF-8 error string"@))
            }
        }
    }
}

/// The identities of a clipboard file and of a request, behind the transfer.
pub open spec fn ids_at(b: Seq<u8>) -> Option<Fault> {
    if b.len() < 9 {
        Some(Fault::Truncated)
    } else {
        match nonzero_at(b, 9, Fault::InvalidFileChunk("zero file id"@)) {
            Err(fault) => Some(fault),
            Ok(_) => match nonzero_at(b, 17, Fault::InvalidFileChunk("zero request id"@)) {
                Err(fault) => Some(fault),
                Ok(_) => None,
            },
        }
    }
}

/// One entry of a manifest, and where it ends; the entry before had the id
/// `previous`, and those before had `total` bytes together.
pub open spec fn entry_at(b: Seq<u8>, at: int, previous: u64, total: int) -> Result<
    (EntryModel, int),
    Fault,
> {
    if b.len() < at + 8 {
        Err(Fault::Truncated)
    } else if u64_at(b, at) <= previous {
        Err(Fault::InvalidManifest("file ids must increase"@))
    } else if b.len() < at + 9 {
        Err(Fault::Truncated)
    } else if b[at + 8] > 1 {
        Err(Fault::InvalidBoolean(b[at + 8]))
    } else if b.len() < at + 11 {
        Err(Fault::Truncated)
    } else {
        let kind = if b[at + 8] == 1 {
            ClipboardEntryKind::File
        } else {
            ClipboardEntryKind::Directory
        };
        let len = u16_at(b, at + 9) as int;
        let bytes = b.subrange(at + 11, at + 11 + len);
        if len > MAX_CLIPBOARD_PATH_SIZE {
            Err(Fault::TooLarge { actual: len as usize, limit: MAX_CLIPBOARD_PATH_SIZE })
        } else if b.len() < at + 11 + len {
            Err(Fault::Truncated)
        } else if !valid_utf8(bytes) {
            Err(Fault::InvalidPath("non-UTF-8 path"@))
        } else if path_fault(decode_utf8(bytes)) is Some {
            Err(path_fault(decode_utf8(bytes))->Some_0)
        } else if b.len() < at + 19 + len {
            Err(Fault::Truncated)
        } else {
            let size = u64_at(b, at + 11 + len);
            if kind == ClipboardEntryKind::Directory && size != 0 {
                Err(Fault::InvalidManifest("directory size"@))
            } else if total + size > u64::MAX {
                Err(Fault::LengthOverflow)
            } else if position_fault((total + size) as u64) is Some {
                Err(position_fault((total + size) as u64)->Some_0)
            } else {
                Ok(
                    (
                        EntryModel {
                            file_id: u64_at(b, at),
                            path: decode_utf8(bytes),
                            kind,
                            size,
                        },
                        at + 19 + len,
                    ),
                )
            }
        }
    }
}

/// `count` more entries from `at` on, behind those already read, and where the
/// last one ends.
pub open spec fn entries_at(
    b: Seq<u8>,
    at: int,
    count: nat,
    read: Seq<EntryModel>,
    previous: u64,
    total: int,
) -> Result<(Seq<EntryModel>, int), Fault>
    decreases count,
{
    if count == 0 {
        Ok((read, at))
    } else {
        match entry_at(b, at, previous, total) {
            Err(fault) => Err(fault),
            Ok((entry, end)) => entries_at(
                b,
                end,
                (count - 1) as nat,
                read.push(entry),
                entry.file_id,
                total + entry.size,
            ),
        }
    }
}

/// One device of a clear boundary, and where it ends.
pub open spec fn device_at(b: Seq<u8>, at: int) -> Result<((Seq<char>, u64), int), Fault> {
    if b.len() < at + 2 {
        Err(Fault::Truncated)
    } else {
        let len = u16_at(b, at) as int;
        let bytes = b.subrange(at + 2, at + 2 + len);
        if len == 0 || len > MAX_HISTORY_DEVICE_ID_SIZE {
            Err(Fault::InvalidHistory("invalid boundary device id"@))
        } else if b.len() < at + 2 + len {
            Err(Fault::Truncated)
        } else if !valid_utf8(bytes) {
            Err(Fault::InvalidHistory("non-UTF-8 boundary device id"@))
        } else if b.len() < at + 10 + len {
            Err(Fault::Truncated)
        } else {
            Ok(((decode_utf8(bytes), u64_at(b, at + 2 + len)), at + 10 + len))
        }
    }
}

/// `count` more devices from `at` on, behind those already read, and where the
/// last one ends.
pub open spec fn devices_at(
    b: Seq<u8>,
    at: int,
    count: nat,
    read: Seq<(Seq<char>, u64)>,
) -> Result<(Seq<(Seq<char>, u64)>, int), Fault>
    decreases count,
{
    if count == 0 {
        Ok((read, at))
    } else {
        match device_at(b, at) {
            Err(fault) => Err(fault),
            Ok((device, end)) => devices_at(b, end, (count - 1) as nat, read.push(device)),
        }
    }
}

/// The clear boundary at `at`, and where it ends.
pub open spec fn boundary_at(b: Seq<u8>, at: int) -> Result<(Seq<(Seq<char>, u64)>, int), Fault> {
    if b.len() < at + 2 {
        Err(Fault::Truncated)
    } else if u16_at(b, at) > MAX_HISTORY_BOUNDARY_ENTRIES {
        Err(Fault::InvalidHistory("too many boundary entries"@))
    } else {
        devices_at(b, at + 2, u16_at(b, at) as nat, Seq::empty())
    }
}

/// The input event of a datagram.
pub open spec fn input_in(b: Seq<u8>, t: EventType) -> Result<EventModel, Fault> {
    match t {
        EventType::PointerMotion => fixed(
            b,
            21,
            EventModel::Input(
                InputEvent::Pointer(
                    PointerEvent::Motion {
                        time: u32_at(b, 1),
                        dx: u64_at(b, 5),
                        dy: u64_at(b, 13),
                    },
                ),
            ),
        ),
        EventType::PointerButton => fixed(
            b,
            13,
            EventModel::Input(
                InputEvent::Pointer(
                    PointerEvent::Button {
                        time: u32_at(b, 1),
                        button: u32_at(b, 5),
                        state: u32_at(b, 9),
                    },
                ),
            ),
        ),
        EventType::PointerAxis => fixed(
            b,
            14,
            EventModel::Input(
                InputEvent::Pointer(
                    PointerEvent::Axis { time: u32_at(b, 1), axis: b[5], value: u64_at(b, 6) },
                ),
            ),
        ),
        EventType::PointerAxisValue120 => fixed(
            b,
            6,
            EventModel::Input(
                InputEvent::Pointer(
                    PointerEvent::AxisDiscrete120 { axis: b[1], value: signed32(u32_at(b, 2)) },
                ),
            ),
        ),
        EventType::KeyboardKey => fixed(
            b,
            10,
            EventModel::Input(
                InputEvent::Keyboard(
                    KeyboardEvent::Key { time: u32_at(b, 1), key: u32_at(b, 5), state: b[9] },
                ),
            ),
        ),
        _ => fixed(
            b,
            17,
            EventModel::Input(
                InputEvent::Keyboard(
                    KeyboardEvent::Modifiers {
                        depressed: u32_at(b, 1),
                        latched: u32_at(b, 5),
                        locked: u32_at(b, 9),
                        group: u32_at(b, 13),
                    },
                ),
            ),
        ),
    }
}

/// The message about a device profile in a datagram.
pub open spec fn profile_in(b: Seq<u8>, t: EventType) -> Result<EventModel, Fault> {
    match nonzero_at(b, 1, Fault::InvalidFileChunk("zero request id"@)) {
        Err(fault) => Err(fault),
        Ok(request_id) => match t {
            EventType::ProfileRequest => ended(b, 9, EventModel::ProfileRequest { request_id }),
            EventType::ProfileStart => if b.len() < 26 {
                Err(Fault::Truncated)
            } else {
                let len = b[25] as int;
                let bytes = b.subrange(26, 26 + len);
                if len > MAX_PROFILE_NAME_SIZE || !profile_picture_ok(
                    u32_at(b, 9),
                    u32_at(b, 13),
                    u32_at(b, 17),
                    u32_at(b, 21),
                ) {
                    Err(Fault::InvalidProfile("invalid profile metadata"@))
                } else if b.len() < 26 + len {
                    Err(Fault::Truncated)
                } else if !valid_utf8(bytes) {
                    Err(Fault::InvalidProfile("profile name is not UTF-8"@))
                } else {
                    ended(
                        b,
                        26 + len,
                        EventModel::ProfileStart {
                            request_id,
                            width: u32_at(b, 9),
                            height: u32_at(b, 13),
                            total_len: u32_at(b, 17),
                            chunks: u32_at(b, 21),
                            display_name: decode_utf8(bytes),
                        },
                    )
                }
            },
            _ => if b.len() < 13 {
                Err(Fault::Truncated)
            } else if b.len() == 13 || b.len() - 13 > MAX_PROFILE_CHUNK_SIZE {
                Err(
                    Fault::TooLarge {
                        actual: (PROFILE_CHUNK_HEADER_SIZE + (b.len() - 13)) as usize,
                        limit: SAFE_DATAGRAM_SIZE,
                    },
                )
            } else {
                Ok(
                    EventModel::ProfileChunk {
                        request_id,
                        index: u32_at(b, 9),
                        data: tail(b, 13),
                    },
                )
            },
        },
    }
}

/// The message about a clipboard in a datagram.
pub open spec fn clipboard_in(b: Seq<u8>, t: EventType) -> Result<EventModel, Fault> {
    match t {
        EventType::ClipboardStart => checked(
            b,
            17,
            clipboard_start_fault(u32_at(b, 9), u32_at(b, 13)),
            EventModel::ClipboardStart {
                transfer_id: u64_at(b, 1),
                total_len: u32_at(b, 9),
                chunks: u32_at(b, 13),
            },
        ),
        EventType::ClipboardImageStart => checked(
            b,
            25,
            clipboard_image_fault(u32_at(b, 9), u32_at(b, 13), u32_at(b, 17), u32_at(b, 21)),
            EventModel::ClipboardImageStart {
                transfer_id: u64_at(b, 1),
                width: u32_at(b, 9),
                height: u32_at(b, 13),
                total_len: u32_at(b, 17),
                chunks: u32_at(b, 21),
            },
        ),
        EventType::ClipboardChunk => if b.len() < 13 {
            Err(Fault::Truncated)
        } else {
            Ok(
                EventModel::ClipboardChunk {
                    transfer_id: u64_at(b, 1),
                    index: u32_at(b, 9),
                    data: tail(b, 13),
                },
            )
        },
        EventType::ClipboardCapabilities => match bool_at(b, 1) {
            Err(fault) => Err(fault),
            Ok(text) => match bool_at(b, 2) {
                Err(fault) => Err(fault),
                Ok(image) => match bool_at(b, 3) {
                    Err(fault) => Err(fault),
                    Ok(files) => ended(
                        b,
                        4,
                        EventModel::ClipboardCapabilities(
                            ClipboardCapabilities { text, image, files },
                        ),
                    ),
                },
            },
        },
        EventType::ClipboardManifest => if b.len() < 13 {
            Err(Fault::Truncated)
        } else if u32_at(b, 9) == 0 || u32_at(b, 9) > MAX_CLIPBOARD_MANIFEST_ENTRIES {
            Err(Fault::InvalidManifest("entry count"@))
        } else {
            match entries_at(b, 13, u32_at(b, 9) as nat, Seq::empty(), 0, 0) {
                Err(fault) => Err(fault),
                Ok((entries, end)) => ended(
                    b,
                    end,
                    EventModel::ClipboardManifest { transfer_id: u64_at(b, 1), entries },
                ),
            }
        },
        EventType::ClipboardTransferCancel => if b.len() < 18 {
            Err(Fault::Truncated)
        } else if b[17] > 2 {
            Err(Fault::InvalidCancelReason(b[17]))
        } else {
            ended(
                b,
                18,
                EventModel::ClipboardTransferCancel {
                    transfer_id: u64_at(b, 1),
                    file_id: if u64_at(b, 9) == 0 {
                        None
                    } else {
                        Some(u64_at(b, 9))
                    },
                    reason: match b[17] {
                        0 => ClipboardCancelReason::User,
                        1 => ClipboardCancelReason::IoError,
                        _ => ClipboardCancelReason::Protocol,
                    },
                },
            )
        },
        _ => if b.len() < 9 {
            Err(Fault::Truncated)
        } else {
            match nonzero_at(b, 9, Fault::InvalidFileChunk("zero file id"@)) {
                Err(fault) => Err(fault),
                Ok(file_id) => checked(
                    b,
                    33,
                    progress_fault(u64_at(b, 17), u64_at(b, 25)),
                    EventModel::ClipboardTransferProgress {
                        transfer_id: u64_at(b, 1),
                        file_id,
                        completed: u64_at(b, 17),
                        total: u64_at(b, 25),
                    },
                ),
            }
        },
    }
}

/// The message about one clipboard file in a datagram.
pub open spec fn clipboard_file_in(b: Seq<u8>, t: EventType) -> Result<EventModel, Fault> {
    match ids_at(b) {
        Some(fault) => Err(fault),
        None => match t {
            EventType::ClipboardFileRequest => checked(
                b,
                41,
                request_fault(u64_at(b, 25), u64_at(b, 33)),
                EventModel::ClipboardFileRequest {
                    transfer_id: u64_at(b, 1),
                    file_id: u64_at(b, 9),
                    request_id: u64_at(b, 17),
                    offset: u64_at(b, 25),
                    length: u64_at(b, 33),
                },
            ),
            EventType::ClipboardFileChunk => if b.len() < 33 {
                Err(Fault::Truncated)
            } else {
                match file_chunk_fault(u64_at(b, 25), (b.len() - 33) as usize) {
                    Some(fault) => Err(fault),
                    None => Ok(
                        EventModel::ClipboardFileChunk {
                            transfer_id: u64_at(b, 1),
                            file_id: u64_at(b, 9),
                            request_id: u64_at(b, 17),
                            offset: u64_at(b, 25),
                            data: tail(b, 33),
                        },
                    ),
                }
            },
            _ => if b.len() < 33 {
                Err(Fault::Truncated)
            } else {
                match position_fault(u64_at(b, 25)) {
                    Some(fault) => Err(fault),
                    None => fixed(
                        b,
                        65,
                        EventModel::ClipboardFileComplete {
                            transfer_id: u64_at(b, 1),
                            file_id: u64_at(b, 9),
                            request_id: u64_at(b, 17),
                            size: u64_at(b, 25),
                            digest: b.subrange(33, 65),
                        },
                    ),
                }
            },
        },
    }
}

/// The message about the clipboard history in a datagram.
pub open spec fn history_in(b: Seq<u8>, t: EventType) -> Result<EventModel, Fault> {
    match t {
        EventType::HistorySyncRequest => fixed(
            b,
            17,
            EventModel::HistorySyncRequest { request_id: u64_at(b, 1), offset: u64_at(b, 9) },
        ),
        EventType::HistoryRecordStart => checked(
            b,
            25,
            history_start_fault(u32_at(b, 17), u32_at(b, 21)),
            EventModel::HistoryRecordStart {
                request_id: u64_at(b, 1),
                record_id: u64_at(b, 9),
                total_len: u32_at(b, 17),
                chunks: u32_at(b, 21),
            },
        ),
        EventType::HistoryRecordChunk => if b.len() < 21 {
            Err(Fault::Truncated)
        } else if b.len() == 21 || b.len() - 21 > MAX_HISTORY_CHUNK_SIZE {
            Err(
                Fault::TooLarge {
                    actual: (b.len() - 21) as usize,
                    limit: MAX_HISTORY_CHUNK_SIZE,
                },
            )
        } else {
            Ok(
                EventModel::HistoryRecordChunk {
                    request_id: u64_at(b, 1),
                    record_id: u64_at(b, 9),
                    index: u32_at(b, 17),
                    data: tail(b, 21),
                },
            )
        },
        _ => if b.len() < 9 {
            Err(Fault::Truncated)
        } else {
            match bool_at(b, 9) {
                Err(fault) => Err(fault),
                Ok(false) => ended(
                    b,
                    10,
                    EventModel::HistorySyncPageEnd { request_id: u64_at(b, 1), next_offset: None },
                ),
                Ok(true) => fixed(
                    b,
                    18,
                    EventModel::HistorySyncPageEnd {
                        request_id: u64_at(b, 1),
                        next_offset: Some(u64_at(b, 10)),
                    },
                ),
            }
        },
    }
}

/// The message about clearing the history in a datagram.
pub open spec fn clear_in(b: Seq<u8>, t: EventType) -> Result<EventModel, Fault> {
    if b.len() < 17 {
        Err(Fault::Truncated)
    } else {
        let operation_id = b.subrange(1, 17);
        match t {
            EventType::HistoryClearBoundaryRequest => ended(
                b,
                17,
                EventModel::HistoryClearBoundaryRequest { operation_id },
            ),
            EventType::HistoryClearBoundary => match boundary_at(b, 17) {
                Err(fault) => Err(fault),
                Ok((boundary, end)) => ended(
                    b,
                    end,
                    EventModel::HistoryClearBoundary { operation_id, boundary },
                ),
            },
            EventType::HistoryClearApply => match boundary_at(b, 17) {
                Err(fault) => Err(fault),
                Ok((boundary, end)) => ended(
                    b,
                    end,
                    EventModel::HistoryClearApply { operation_id, boundary },
                ),
            },
            _ => if b.len() < 25 {
                Err(Fault::Truncated)
            } else {
                match optional_text_at(b, 25) {
                    Err(fault) => Err(fault),
                    Ok((error, end)) => ended(
                        b,
                        end,
                        EventModel::HistoryClearAck {
                            operation_id,
                            affected: u64_at(b, 17),
                            error,
                        },
                    ),
                }
            },
        }
    }
}

/// The message about a manually sent file in a datagram.
pub open spec fn manual_in(b: Seq<u8>, t: EventType) -> Result<EventModel, Fault> {
    match nonzero_at(b, 1, Fault::InvalidFileChunk("zero transfer id"@)) {
        Err(fault) => Err(fault),
        Ok(transfer_id) => match t {
            EventType::ManualFileOffer => if b.len() < 11 {
                Err(Fault::Truncated)
            } else {
                let len = u16_at(b, 9) as int;
                let bytes = b.subrange(11, 11 + len);
                if len == 0 || len > MAX_MANUAL_FILE_NAME_SIZE {
                    Err(Fault::InvalidFileChunk("invalid manual file name"@))
                } else if b.len() < 11 + len {
                    Err(Fault::Truncated)
                } else if !valid_utf8(bytes) {
                    Err(Fault::InvalidFileChunk("invalid manual file name"@))
                } else if name_fault(decode_utf8(bytes)) is Some {
                    Err(name_fault(decode_utf8(bytes))->Some_0)
                } else {
                    fixed(
                        b,
                        19 + len,
                        EventModel::ManualFileOffer {
                            transfer_id,
                            file_name: decode_utf8(bytes),
                            size: u64_at(b, 11 + len),
                        },
                    )
                }
            },
            EventType::ManualFileDecision => if b.len() < 10 {
                Err(Fault::Truncated)
            } else if b[9] > 2 {
                Err(Fault::InvalidFileChunk("invalid manual decision"@))
            } else {
                ended(
                    b,
                    10,
                    EventModel::ManualFileDecision {
                        transfer_id,
                        decision: match b[9] {
                            0 => ManualDecision::Pending,
                            1 => ManualDecision::Accepted,
                            _ => ManualDecision::Declined,
                        },
                    },
                )
            },
            EventType::ManualFileComplete => fixed(
                b,
                41,
                EventModel::ManualFileComplete { transfer_id, sha256: b.subrange(9, 41) },
            ),
            EventType::ManualFileResult => match bool_at(b, 9) {
                Err(fault) => Err(fault),
                Ok(success) => match optional_text_at(b, 10) {
                    Err(fault) => Err(fault),
                    Ok((error, end)) => if error is Some && byte_len(error->Some_0)
                        > MAX_MANUAL_FILE_ERROR_SIZE {
                        Err(
                            Fault::TooLarge {
                                actual: byte_len(error->Some_0) as usize,
                                limit: MAX_MANUAL_FILE_ERROR_SIZE,
                            },
                        )
                    } else {
                        ended(b, end, EventModel::ManualFileResult { transfer_id, success, error })
                    },
                },
            },
            _ => ended(b, 9, EventModel::ManualFileCancel { transfer_id }),
        },
    }
}

/// A request for a range of a manually sent file, or a piece of one.
pub open spec fn manual_range_in(b: Seq<u8>, t: EventType) -> Result<EventModel, Fault> {
    match t {
        EventType::ManualFileRequest => checked(
            b,
            21,
            if u64_at(b, 1) == 0 || u32_at(b, 17) == 0 || u32_at(b, 17)
                > MAX_MANUAL_FILE_CHUNK_SIZE {
                Some(Fault::InvalidFileChunk("invalid manual request"@))
            } else {
                None
            },
            EventModel::ManualFileRequest {
                transfer_id: u64_at(b, 1),
                offset: u64_at(b, 9),
                length: u32_at(b, 17),
            },
        ),
        _ => if b.len() < 17 {
            Err(Fault::Truncated)
        } else if u64_at(b, 1) == 0 || b.len() == 17 || b.len() - 17 > MAX_MANUAL_FILE_CHUNK_SIZE {
            Err(Fault::InvalidFileChunk("invalid manual chunk"@))
        } else {
            Ok(
                EventModel::ManualFileChunk {
                    transfer_id: u64_at(b, 1),
                    offset: u64_at(b, 9),
                    data: tail(b, 17),
                },
            )
        },
    }
}

/// The families that messages are read in.
pub ghost enum Family {
    Simple,
    Input,
    Profile,
    Clipboard,
    ClipboardFile,
    History,
    Clear,
    Manual,
    ManualRange,
}

pub open spec fn family(t: EventType) -> Family {
    match t {
        EventType::PointerMotion | EventType::PointerButton | EventType::PointerAxis
        | EventType::PointerAxisValue120 | EventType::KeyboardKey
        | EventType::KeyboardModifiers => Family::Input,
        EventType::ProfileStart | EventType::ProfileChunk | EventType::ProfileRequest =>
            Family::Profile,
        EventType::ClipboardStart | EventType::ClipboardImageStart | EventType::ClipboardChunk
        | EventType::ClipboardCapabilities | EventType::ClipboardManifest
        | EventType::ClipboardTransferCancel | EventType::ClipboardTransferProgress =>
            Family::Clipboard,
        EventType::ClipboardFileRequest | EventType::ClipboardFileChunk
        | EventType::ClipboardFileComplete => Family::ClipboardFile,
        EventType::HistorySyncRequest | EventType::HistoryRecordStart
        | EventType::HistoryRecordChunk | EventType::HistorySyncPageEnd => Family::History,
        EventType::HistoryClearBoundaryRequest | EventType::HistoryClearBoundary
        | EventType::HistoryClearApply | EventType::HistoryClearAck => Family::Clear,
        EventType::ManualFileOffer | EventType::ManualFileDecision
        | EventType::ManualFileComplete | EventType::ManualFileResult
        | EventType::ManualFileCancel => Family::Manual,
        EventType::ManualFileRequest | EventType::ManualFileChunk => Family::ManualRange,
        _ => Family::Simple,
    }
}

/// A message without rules of its own.
pub open spec fn simple_in(b: Seq<u8>, t: EventType) -> Result<EventModel, Fault> {
    match t {
        EventType::Ping => ended(b, 1, EventModel::Ping),
        EventType::ProfileChanged => ended(b, 1, EventModel::ProfileChanged),
        EventType::Pong => fixed(b, 2, EventModel::Pong(b[1] != 0)),
        EventType::Enter => if b.len() < 2 {
            Err(Fault::Truncated)
        } else {
            match position_of(b[1]) {
                Some(position) => ended(b, 2, EventModel::Enter(position)),
                None => Err(Fault::InvalidPosition(b[1])),
            }
        },
        EventType::Leave => fixed(b, 5, EventModel::Leave(u32_at(b, 1))),
        EventType::Ack => fixed(b, 5, EventModel::Ack(u32_at(b, 1))),
        _ => fixed(b, 9, EventModel::Hello { commit: b.subrange(1, 9) }),
    }
}

/// The message in a datagram of a known kind.
pub open spec fn message_in(b: Seq<u8>, t: EventType) -> Result<EventModel, Fault> {
    match family(t) {
        Family::Simple => simple_in(b, t),
        Family::Input => input_in(b, t),
        Family::Profile => profile_in(b, t),
        Family::Clipboard => clipboard_in(b, t),
        Family::ClipboardFile => clipboard_file_in(b, t),
        Family::History => history_in(b, t),
        Family::Clear => clear_in(b, t),
        Family::Manual => manual_in(b, t),
        Family::ManualRange => manual_range_in(b, t),
    }
}

/// The message that a datagram carries, or what is wrong with the datagram.
pub open spec fn message_of(b: Seq<u8>) -> Result<EventModel, Fault> {
    if b.len() > MAX_DATAGRAM_SIZE {
        Err(Fault::TooLarge { actual: b.len() as usize, limit: MAX_DATAGRAM_SIZE })
    } else if b.len() == 0 {
        Err(Fault::Truncated)
    } else {
        match type_of(b[0]) {
            None => Err(Fault::InvalidEventId(b[0])),
            Some(t) => message_in(b, t),
        }
    }
}

// ---------------------------------------------------------------------------
// Reading
// ---------------------------------------------------------------------------

/// What a reading function returns: the message, or the fault.
pub open spec fn yields(r: Result<ProtoEvent, ProtocolError>, m: Result<EventModel, Fault>) -> bool {
    match r {
        Ok(event) => m == Ok::<EventModel, Fault>(event@),
        Err(error) => m == Err::<EventModel, Fault>(error@),
    }
}

fn take<'a>(buf: &mut Reader<'a>, len: usize) -> (r: Result<&'a [u8], ProtocolError>)
    requires
        old(buf).wf(),
    ensures
        match r {
            Ok(v) => {
                &&& old(buf).left() >= len
                &&& final(buf).moved(old(buf), len as int)
                &&& v@ == old(buf).data@.subrange(old(buf).at as int, old(buf).at + len)
            },
            Err(error) => old(buf).left() < len && error is Truncated,
        },
{
    match buf.take(len) {
        Some(v) => Ok(v),
        None => Err(ProtocolError::Truncated),
    }
}

fn get_u8(buf: &mut Reader<'_>) -> (r: Result<u8, ProtocolError>)
    requires
        old(buf).wf(),
    ensures
        match r {
            Ok(v) => {
                &&& old(buf).left() >= 1
                &&& final(buf).moved(old(buf), 1)
                &&& v == old(buf).data@[old(buf).at as int]
            },
            Err(error) => old(buf).left() < 1 && error is Truncated,
        },
{
    match buf.get_u8() {
        Some(v) => Ok(v),
        None => Err(ProtocolError::Truncated),
    }
}

fn get_u16(buf: &mut Reader<'_>) -> (r: Result<u16, ProtocolError>)
    requires
        old(buf).wf(),
    ensures
        match r {
            Ok(v) => {
                &&& old(buf).left() >= 2
                &&& final(buf).moved(old(buf), 2)
                &&& v == u16_at(old(buf).data@, old(buf).at as int)
            },
            Err(error) => old(buf).left() < 2 && error is Truncated,
        },
{
    match buf.get_u16() {
        Some(v) => Ok(v),
        None => Err(ProtocolError::Truncated),
    }
}

fn get_u32(buf: &mut Reader<'_>) -> (r: Result<u32, ProtocolError>)
    requires
        old(buf).wf(),
    ensures
        match r {
            Ok(v) => {
                &&& old(buf).left() >= 4
                &&& final(buf).moved(old(buf), 4)
                &&& v == u32_at(old(buf).data@, old(buf).at as int)
            },
            Err(error) => old(buf).left() < 4 && error is Truncated,
        },
{
    match buf.get_u32() {
        Some(v) => Ok(v),
        None => Err(ProtocolError::Truncated),
    }
}

fn get_u64(buf: &mut Reader<'_>) -> (r: Result<u64, ProtocolError>)
    requires
        old(buf).wf(),
    ensures
        match r {
            Ok(v) => {
                &&& old(buf).left() >= 8
                &&& final(buf).moved(old(buf), 8)
                &&& v == u64_at(old(buf).data@, old(buf).at as int)
            },
            Err(error) => old(buf).left() < 8 && error is Truncated,
        },
{
    match buf.get_u64() {
        Some(v) => Ok(v),
        None => Err(ProtocolError::Truncated),
    }
}

fn get_i32(buf: &mut Reader<'_>) -> (r: Result<i32, ProtocolError>)
    requires
        old(buf).wf(),
    ensures
        match r {
            Ok(v) => {
                &&& old(buf).left() >= 4
                &&& final(buf).moved(old(buf), 4)
                &&& v == signed32(u32_at(old(buf).data@, old(buf).at as int))
            },
            Err(error) => old(buf).left() < 4 && error is Truncated,
        },
{
    match buf.get_i32() {
        Some(v) => Ok(v),
        None => Err(ProtocolError::Truncated),
    }
}

fn get_bool(buf: &mut Reader<'_>) -> (r: Result<bool, ProtocolError>)
    requires
        old(buf).wf(),
    ensures
        match r {
            Ok(v) => {
                &&& bool_at(old(buf).data@, old(buf).at as int) == Ok::<bool, Fault>(v)
                &&& final(buf).moved(old(buf), 1)
            },
            Err(error) => bool_at(old(buf).data@, old(buf).at as int) == Err::<bool, Fault>(error@),
        },
{
    match get_u8(buf)? {
        0 => Ok(false),
        1 => Ok(true),
        value => Err(ProtocolError::InvalidBoolean(value)),
    }
}

fn get_nonzero(buf: &mut Reader<'_>, zero: &'static str) -> (r: Result<u64, ProtocolError>)
    requires
        old(buf).wf(),
    ensures
        match r {
            Ok(v) => {
                &&& nonzero_at(old(buf).data@, old(buf).at as int, Fault::InvalidFileChunk(zero@))
                    == Ok::<u64, Fault>(v)
                &&& final(buf).moved(old(buf), 8)
            },
            Err(error) => nonzero_at(
                old(buf).data@,
                old(buf).at as int,
                Fault::InvalidFileChunk(zero@),
            ) == Err::<u64, Fault>(error@),
        },
{
    match get_u64(buf)? {
        0 => Err(ProtocolError::InvalidFileChunk(zero)),
        id => Ok(id),
    }
}

fn get_optional_string(buf: &mut Reader<'_>) -> (r: Result<Option<String>, ProtocolError>)
    requires
        old(buf).wf(),
    ensures
        match r {
            Ok(v) => match optional_text_at(old(buf).data@, old(buf).at as int) {
                Ok((text, end)) => text == text_of(v) && final(buf).moved(
                    old(buf),
                    end - old(buf).at,
                ),
                Err(_) => false,
            },
            Err(error) => optional_text_at(old(buf).data@, old(buf).at as int) == Err::<
                (Option<Seq<char>>, int),
                Fault,
            >(error@),
        },
{
    let len: usize = get_u16(buf)? as usize;
    if len == 0 {
        return Ok(None);
    }
    let bytes: &[u8] = take(buf, len)?;
    match text_from_utf8(vstd::slice::slice_to_vec(bytes)) {
        Ok(text) => Ok(Some(text)),
        Err(_) => Err(ProtocolError::InvalidHistory("non-UTF-8 error string")),
    }
}

/// Gives the message out, unless something follows it.
fn finish(buf: &Reader<'_>, event: ProtoEvent) -> (r: Result<ProtoEvent, ProtocolError>)
    requires
        buf.wf(),
    ensures
        yields(r, ended(buf.data@, buf.at as int, event@)),
{
    if buf.remaining() > 0 {
        return Err(ProtocolError::TrailingBytes(buf.remaining()));
    }
    Ok(event)
}

fn decode_entry(buf: &mut Reader<'_>, previous: u64, total: u64) -> (r: Result<
    ClipboardManifestEntry,
    ProtocolError,
>)
    requires
        old(buf).wf(),
    ensures
        match r {
            Ok(entry) => {
                match entry_at(old(buf).data@, old(buf).at as int, previous, total as int) {
                    Ok((model, end)) => {
                        &&& model == entry@
                        &&& final(buf).moved(old(buf), end - old(buf).at)
                        &&& total + entry.size <= u64::MAX
                    },
                    Err(_) => false,
                }
            },
            Err(error) => entry_at(old(buf).data@, old(buf).at as int, previous, total as int)
                == Err::<(EntryModel, int), Fault>(error@),
        },
{
    let file_id: u64 = get_u64(buf)?;
    if file_id <= previous {
        return Err(ProtocolError::InvalidManifest("file ids must increase".to_owned()));
    }
    let kind: ClipboardEntryKind = match get_u8(buf)? {
        0 => ClipboardEntryKind::Directory,
        1 => ClipboardEntryKind::File,
        value => return Err(ProtocolError::InvalidBoolean(value)),
    };
    let path_len: usize = get_u16(buf)? as usize;
    if path_len > MAX_CLIPBOARD_PATH_SIZE {
        return Err(ProtocolError::TooLarge { actual: path_len, limit: MAX_CLIPBOARD_PATH_SIZE });
    }
    let bytes: &[u8] = take(buf, path_len)?;
    let path: String = match text_from_utf8(vstd::slice::slice_to_vec(bytes)) {
        Ok(path) => path,
        Err(_) => return Err(ProtocolError::InvalidPath("non-UTF-8 path".to_owned())),
    };
    validate_path(path.as_str())?;
    let size: u64 = get_u64(buf)?;
    if kind == ClipboardEntryKind::Directory && size != 0 {
        return Err(ProtocolError::InvalidManifest("directory size".to_owned()));
    }
    match total.checked_add(size) {
        Some(total) => validate_file_position(total)?,
        None => return Err(ProtocolError::LengthOverflow),
    }
    Ok(ClipboardManifestEntry { file_id, path, kind, size })
}

fn decode_manifest(buf: &mut Reader<'_>) -> (r: Result<ProtoEvent, ProtocolError>)
    requires
        old(buf).wf(),
        old(buf).at == 1,
    ensures
        yields(r, clipboard_in(old(buf).data@, EventType::ClipboardManifest)),
{
    let ghost b = buf.data@;
    let transfer_id: u64 = get_u64(buf)?;
    let count: usize = get_u32(buf)? as usize;
    if count == 0 || count > MAX_CLIPBOARD_MANIFEST_ENTRIES {
        return Err(ProtocolError::InvalidManifest("entry count".to_owned()));
    }
    let mut entries: Vec<ClipboardManifestEntry> = Vec::with_capacity(count);
    let mut previous: u64 = 0;
    let mut total: u64 = 0;
    let mut i: usize = 0;
    assert(entries_of(entries@) =~= Seq::<EntryModel>::empty());
    while i < count
        invariant
            i <= count,
            buf.wf(),
            buf.data@ == b,
            b == old(buf).data@,
            b.len() >= 13,
            count == u32_at(b, 9),
            0 < count <= MAX_CLIPBOARD_MANIFEST_ENTRIES,
            entries_at(b, 13, count as nat, Seq::empty(), 0, 0) == entries_at(
                b,
                buf.at as int,
                (count - i) as nat,
                entries_of(entries@),
                previous,
                total as int,
            ),
        decreases count - i,
    {
        let ghost before = entries@;
        let entry: ClipboardManifestEntry = decode_entry(buf, previous, total)?;
        previous = entry.file_id;
        total = total + entry.size;
        entries.push(entry);
        assert(entries_of(entries@) =~= entries_of(before).push(entry@));
        i = i + 1;
    }
    finish(buf, ProtoEvent::ClipboardManifest { transfer_id, entries })
}

fn decode_device(buf: &mut Reader<'_>) -> (r: Result<(String, u64), ProtocolError>)
    requires
        old(buf).wf(),
    ensures
        match r {
            Ok(device) => match device_at(old(buf).data@, old(buf).at as int) {
                Ok((model, end)) => {
                    &&& model == (device.0@, device.1)
                    &&& final(buf).moved(old(buf), end - old(buf).at)
                },
                Err(_) => false,
            },
            Err(error) => device_at(old(buf).data@, old(buf).at as int) == Err::<
                ((Seq<char>, u64), int),
                Fault,
            >(error@),
        },
{
    let len: usize = get_u16(buf)? as usize;
    if len == 0 || len > MAX_HISTORY_DEVICE_ID_SIZE {
        return Err(ProtocolError::InvalidHistory("invalid boundary device id"));
    }
    let bytes: &[u8] = take(buf, len)?;
    let device: String = match text_from_utf8(vstd::slice::slice_to_vec(bytes)) {
        Ok(device) => device,
        Err(_) => return Err(ProtocolError::InvalidHistory("non-UTF-8 boundary device id")),
    };
    let sequence: u64 = get_u64(buf)?;
    Ok((device, sequence))
}

fn decode_history_boundary(buf: &mut Reader<'_>) -> (r: Result<Vec<(String, u64)>, ProtocolError>)
    requires
        old(buf).wf(),
    ensures
        match r {
            Ok(boundary) => match boundary_at(old(buf).data@, old(buf).at as int) {
                Ok((model, end)) => {
                    &&& model == boundary_of(boundary@)
                    &&& final(buf).moved(old(buf), end - old(buf).at)
                },
                Err(_) => false,
            },
            Err(error) => boundary_at(old(buf).data@, old(buf).at as int) == Err::<
                (Seq<(Seq<char>, u64)>, int),
                Fault,
            >(error@),
        },
{
    let ghost b = buf.data@;
    let ghost at = buf.at as int;
    let count: usize = get_u16(buf)? as usize;
    if count > MAX_HISTORY_BOUNDARY_ENTRIES {
        return Err(ProtocolError::InvalidHistory("too many boundary entries"));
    }
    let mut boundary: Vec<(String, u64)> = Vec::with_capacity(count);
    let mut i: usize = 0;
    assert(boundary_of(boundary@) =~= Seq::<(Seq<char>, u64)>::empty());
    while i < count
        invariant
            i <= count,
            buf.wf(),
            buf.data == old(buf).data,
            buf.data@ == b,
            b == old(buf).data@,
            at == old(buf).at,
            b.len() >= at + 2,
            count == u16_at(b, at),
            count <= MAX_HISTORY_BOUNDARY_ENTRIES,
            devices_at(b, at + 2, count as nat, Seq::empty()) == devices_at(
                b,
                buf.at as int,
                (count - i) as nat,
                boundary_of(boundary@),
            ),
        decreases count - i,
    {
        let ghost before = boundary@;
        let device: (String, u64) = decode_device(buf)?;
        boundary.push(device);
        assert(boundary_of(boundary@) =~= boundary_of(before).push((device.0@, device.1)));
        i = i + 1;
    }
    Ok(boundary)
}

fn decode_input(buf: &mut Reader<'_>, t: EventType) -> (r: Result<ProtoEvent, ProtocolError>)
    requires
        old(buf).wf(),
        old(buf).at == 1,
        family(t) is Input,
    ensures
        yields(r, input_in(old(buf).data@, t)),
{
    let event: InputEvent = match t {
        EventType::PointerMotion => InputEvent::Pointer(
            PointerEvent::Motion { time: get_u32(buf)?, dx: get_u64(buf)?, dy: get_u64(buf)? },
        ),
        EventType::PointerButton => InputEvent::Pointer(
            PointerEvent::Button {
                time: get_u32(buf)?,
                button: get_u32(buf)?,
                state: get_u32(buf)?,
            },
        ),
        EventType::PointerAxis => InputEvent::Pointer(
            PointerEvent::Axis { time: get_u32(buf)?, axis: get_u8(buf)?, value: get_u64(buf)? },
        ),
        EventType::PointerAxisValue120 => InputEvent::Pointer(
            PointerEvent::AxisDiscrete120 { axis: get_u8(buf)?, value: get_i32(buf)? },
        ),
        EventType::KeyboardKey => InputEvent::Keyboard(
            KeyboardEvent::Key { time: get_u32(buf)?, key: get_u32(buf)?, state: get_u8(buf)? },
        ),
        _ => InputEvent::Keyboard(
            KeyboardEvent::Modifiers {
                depressed: get_u32(buf)?,
                latched: get_u32(buf)?,
                locked: get_u32(buf)?,
                group: get_u32(buf)?,
            },
        ),
    };
    finish(buf, ProtoEvent::Input(event))
}

fn decode_profile(buf: &mut Reader<'_>, t: EventType) -> (r: Result<ProtoEvent, ProtocolError>)
    requires
        old(buf).wf(),
        old(buf).at == 1,
        family(t) is Profile,
    ensures
        yields(r, profile_in(old(buf).data@, t)),
{
    let request_id: u64 = get_nonzero(buf, "zero request id")?;
    match t {
        EventType::ProfileRequest => finish(buf, ProtoEvent::ProfileRequest { request_id }),
        EventType::ProfileStart => {
            let width: u32 = get_u32(buf)?;
            let height: u32 = get_u32(buf)?;
            let total_len: u32 = get_u32(buf)?;
            let chunks: u32 = get_u32(buf)?;
            let name_len: usize = get_u8(buf)? as usize;
            if name_len > MAX_PROFILE_NAME_SIZE || !validate_profile_picture(
                width,
                height,
                total_len,
                chunks,
            ) {
                return Err(ProtocolError::InvalidProfile("invalid profile metadata"));
            }
            let bytes: &[u8] = take(buf, name_len)?;
            let display_name: String = match text_from_utf8(vstd::slice::slice_to_vec(bytes)) {
                Ok(name) => name,
                Err(_) => return Err(ProtocolError::InvalidProfile("profile name is not UTF-8")),
            };
            finish(
                buf,
                ProtoEvent::ProfileStart {
                    request_id,
                    width,
                    height,
                    total_len,
                    chunks,
                    display_name,
                },
            )
        },
        _ => {
            let index: u32 = get_u32(buf)?;
            let len: usize = buf.remaining();
            if len == 0 || len > MAX_PROFILE_CHUNK_SIZE {
                return Err(
                    ProtocolError::TooLarge {
                        actual: buf.data.len() - buf.at + PROFILE_CHUNK_HEADER_SIZE,
                        limit: SAFE_DATAGRAM_SIZE,
                    },
                );
            }
            Ok(ProtoEvent::ProfileChunk { request_id, index, data: buf.rest() })
        },
    }
}

fn decode_clipboard(buf: &mut Reader<'_>, t: EventType) -> (r: Result<ProtoEvent, ProtocolError>)
    requires
        old(buf).wf(),
        old(buf).at == 1,
        family(t) is Clipboard,
    ensures
        yields(r, clipboard_in(old(buf).data@, t)),
{
    match t {
        EventType::ClipboardStart => {
            let transfer_id: u64 = get_u64(buf)?;
            let total_len: u32 = get_u32(buf)?;
            let chunks: u32 = get_u32(buf)?;
            validate_clipboard_start(total_len, chunks)?;
            finish(buf, ProtoEvent::ClipboardStart { transfer_id, total_len, chunks })
        },
        EventType::ClipboardImageStart => {
            let transfer_id: u64 = get_u64(buf)?;
            let width: u32 = get_u32(buf)?;
            let height: u32 = get_u32(buf)?;
            let total_len: u32 = get_u32(buf)?;
            let chunks: u32 = get_u32(buf)?;
            validate_clipboard_image(width, height, total_len, chunks)?;
            finish(
                buf,
                ProtoEvent::ClipboardImageStart { transfer_id, width, height, total_len, chunks },
            )
        },
        EventType::ClipboardChunk => {
            let transfer_id: u64 = get_u64(buf)?;
            let index: u32 = get_u32(buf)?;
            Ok(ProtoEvent::ClipboardChunk { transfer_id, index, data: buf.rest() })
        },
        EventType::ClipboardCapabilities => {
            let text: bool = get_bool(buf)?;
            let image: bool = get_bool(buf)?;
            let files: bool = get_bool(buf)?;
            finish(
                buf,
                ProtoEvent::ClipboardCapabilities(ClipboardCapabilities { text, image, files }),
            )
        },
        EventType::ClipboardManifest => decode_manifest(buf),
        EventType::ClipboardTransferCancel => {
            let transfer_id: u64 = get_u64(buf)?;
            let file_id: Option<u64> = match get_u64(buf)? {
                0 => None,
                file_id => Some(file_id),
            };
            let reason: ClipboardCancelReason = match get_u8(buf)? {
                0 => ClipboardCancelReason::User,
                1 => ClipboardCancelReason::IoError,
                2 => ClipboardCancelReason::Protocol,
                value => return Err(ProtocolError::InvalidCancelReason(value)),
            };
            finish(buf, ProtoEvent::ClipboardTransferCancel { transfer_id, file_id, reason })
        },
        _ => {
            let transfer_id: u64 = get_u64(buf)?;
            let file_id: u64 = get_nonzero(buf, "zero file id")?;
            let completed: u64 = get_u64(buf)?;
            let total: u64 = get_u64(buf)?;
            validate_progress(completed, total)?;
            finish(
                buf,
                ProtoEvent::ClipboardTransferProgress { transfer_id, file_id, completed, total },
            )
        },
    }
}

fn decode_clipboard_file(buf: &mut Reader<'_>, t: EventType) -> (r: Result<
    ProtoEvent,
    ProtocolError,
>)
    requires
        old(buf).wf(),
        old(buf).at == 1,
        family(t) is ClipboardFile,
    ensures
        yields(r, clipboard_file_in(old(buf).data@, t)),
{
    let transfer_id: u64 = get_u64(buf)?;
    let file_id: u64 = get_nonzero(buf, "zero file id")?;
    let request_id: u64 = get_nonzero(buf, "zero request id")?;
    match t {
        EventType::ClipboardFileRequest => {
            let offset: u64 = get_u64(buf)?;
            let length: u64 = get_u64(buf)?;
            validate_request(offset, length)?;
            finish(
                buf,
                ProtoEvent::ClipboardFileRequest {
                    transfer_id,
                    file_id,
                    request_id,
                    offset,
                    length,
                },
            )
        },
        EventType::ClipboardFileChunk => {
            let offset: u64 = get_u64(buf)?;
            validate_file_chunk(offset, buf.remaining())?;
            Ok(
                ProtoEvent::ClipboardFileChunk {
                    transfer_id,
                    file_id,
                    request_id,
                    offset,
                    data: buf.rest(),
                },
            )
        },
        _ => {
            let size: u64 = get_u64(buf)?;
            validate_file_position(size)?;
            let digest: [u8; 32] = array32(take(buf, 32)?);
            finish(
                buf,
                ProtoEvent::ClipboardFileComplete {
                    transfer_id,
                    file_id,
                    request_id,
                    size,
                    digest,
                },
            )
        },
    }
}

fn decode_history(buf: &mut Reader<'_>, t: EventType) -> (r: Result<ProtoEvent, ProtocolError>)
    requires
        old(buf).wf(),
        old(buf).at == 1,
        family(t) is History,
    ensures
        yields(r, history_in(old(buf).data@, t)),
{
    let request_id: u64 = get_u64(buf)?;
    match t {
        EventType::HistorySyncRequest => {
            let offset: u64 = get_u64(buf)?;
            finish(buf, ProtoEvent::HistorySyncRequest { request_id, offset })
        },
        EventType::HistoryRecordStart => {
            let record_id: u64 = get_u64(buf)?;
            let total_len: u32 = get_u32(buf)?;
            let chunks: u32 = get_u32(buf)?;
            validate_history_start(total_len, chunks)?;
            finish(
                buf,
                ProtoEvent::HistoryRecordStart { request_id, record_id, total_len, chunks },
            )
        },
        EventType::HistoryRecordChunk => {
            let record_id: u64 = get_u64(buf)?;
            let index: u32 = get_u32(buf)?;
            let len: usize = buf.remaining();
            if len == 0 || len > MAX_HISTORY_CHUNK_SIZE {
                return Err(
                    ProtocolError::TooLarge { actual: len, limit: MAX_HISTORY_CHUNK_SIZE },
                );
            }
            Ok(ProtoEvent::HistoryRecordChunk { request_id, record_id, index, data: buf.rest() })
        },
        _ => {
            let next_offset: Option<u64> = if get_bool(buf)? {
                Some(get_u64(buf)?)
            } else {
                None
            };
            finish(buf, ProtoEvent::HistorySyncPageEnd { request_id, next_offset })
        },
    }
}

fn decode_clear(buf: &mut Reader<'_>, t: EventType) -> (r: Result<ProtoEvent, ProtocolError>)
    requires
        old(buf).wf(),
        old(buf).at == 1,
        family(t) is Clear,
    ensures
        yields(r, clear_in(old(buf).data@, t)),
{
    let operation_id: [u8; 16] = array16(take(buf, 16)?);
    match t {
        EventType::HistoryClearBoundaryRequest => finish(
            buf,
            ProtoEvent::HistoryClearBoundaryRequest { operation_id },
        ),
        EventType::HistoryClearBoundary => {
            let boundary: Vec<(String, u64)> = decode_history_boundary(buf)?;
            finish(buf, ProtoEvent::HistoryClearBoundary { operation_id, boundary })
        },
        EventType::HistoryClearApply => {
            let boundary: Vec<(String, u64)> = decode_history_boundary(buf)?;
            finish(buf, ProtoEvent::HistoryClearApply { operation_id, boundary })
        },
        _ => {
            let affected: u64 = get_u64(buf)?;
            let error: Option<String> = get_optional_string(buf)?;
            finish(buf, ProtoEvent::HistoryClearAck { operation_id, affected, error })
        },
    }
}

fn decode_manual(buf: &mut Reader<'_>, t: EventType) -> (r: Result<ProtoEvent, ProtocolError>)
    requires
        old(buf).wf(),
        old(buf).at == 1,
        family(t) is Manual,
    ensures
        yields(r, manual_in(old(buf).data@, t)),
{
    let transfer_id: u64 = get_nonzero(buf, "zero transfer id")?;
    match t {
        EventType::ManualFileOffer => {
            let name_len: usize = get_u16(buf)? as usize;
            if name_len == 0 || name_len > MAX_MANUAL_FILE_NAME_SIZE {
                return Err(ProtocolError::InvalidFileChunk("invalid manual file name"));
            }
            let bytes: &[u8] = take(buf, name_len)?;
            let file_name: String = match text_from_utf8(vstd::slice::slice_to_vec(bytes)) {
                Ok(name) => name,
                Err(_) => return Err(ProtocolError::InvalidFileChunk("invalid manual file name")),
            };
            validate_manual_file_name(file_name.as_str())?;
            let size: u64 = get_u64(buf)?;
            finish(buf, ProtoEvent::ManualFileOffer { transfer_id, file_name, size })
        },
        EventType::ManualFileDecision => {
            let decision: ManualDecision = match get_u8(buf)? {
                0 => ManualDecision::Pending,
                1 => ManualDecision::Accepted,
                2 => ManualDecision::Declined,
                _ => return Err(ProtocolError::InvalidFileChunk("invalid manual decision")),
            };
            finish(buf, ProtoEvent::ManualFileDecision { transfer_id, decision })
        },
        EventType::ManualFileComplete => {
            let sha256: [u8; 32] = array32(take(buf, 32)?);
            finish(buf, ProtoEvent::ManualFileComplete { transfer_id, sha256 })
        },
        EventType::ManualFileResult => {
            let success: bool = get_bool(buf)?;
            let error: Option<String> = get_optional_string(buf)?;
            if let Some(text) = &error {
                let actual: usize = crate::text::len_of(text.as_str());
                if actual > MAX_MANUAL_FILE_ERROR_SIZE {
                    return Err(
                        ProtocolError::TooLarge { actual, limit: MAX_MANUAL_FILE_ERROR_SIZE },
                    );
                }
            }
            finish(buf, ProtoEvent::ManualFileResult { transfer_id, success, error })
        },
        _ => finish(buf, ProtoEvent::ManualFileCancel { transfer_id }),
    }
}

fn decode_manual_range(buf: &mut Reader<'_>, t: EventType) -> (r: Result<
    ProtoEvent,
    ProtocolError,
>)
    requires
        old(buf).wf(),
        old(buf).at == 1,
        family(t) is ManualRange,
    ensures
        yields(r, manual_range_in(old(buf).data@, t)),
{
    let transfer_id: u64 = get_u64(buf)?;
    let offset: u64 = get_u64(buf)?;
    match t {
        EventType::ManualFileRequest => {
            let length: u32 = get_u32(buf)?;
            if transfer_id == 0 || length == 0 || length as usize > MAX_MANUAL_FILE_CHUNK_SIZE {
                return Err(ProtocolError::InvalidFileChunk("invalid manual request"));
            }
            finish(buf, ProtoEvent::ManualFileRequest { transfer_id, offset, length })
        },
        _ => {
            let len: usize = buf.remaining();
            if transfer_id == 0 || len == 0 || len > MAX_MANUAL_FILE_CHUNK_SIZE {
                return Err(ProtocolError::InvalidFileChunk("invalid manual chunk"));
            }
            Ok(ProtoEvent::ManualFileChunk { transfer_id, offset, data: buf.rest() })
        },
    }
}

fn decode_simple(buf: &mut Reader<'_>, t: EventType) -> (r: Result<ProtoEvent, ProtocolError>)
    requires
        old(buf).wf(),
        old(buf).at == 1,
        family(t) is Simple,
    ensures
        yields(r, simple_in(old(buf).data@, t)),
{
    let event: ProtoEvent = match t {
        EventType::Ping => ProtoEvent::Ping,
        EventType::ProfileChanged => ProtoEvent::ProfileChanged,
        EventType::Pong => ProtoEvent::Pong(get_u8(buf)? != 0),
        EventType::Enter => {
            let id: u8 = get_u8(buf)?;
            match Position::from_id(id) {
                Some(position) => ProtoEvent::Enter(position),
                None => return Err(ProtocolError::InvalidPosition(id)),
            }
        },
        EventType::Leave => ProtoEvent::Leave(get_u32(buf)?),
        EventType::Ack => ProtoEvent::Ack(get_u32(buf)?),
        _ => ProtoEvent::Hello { commit: array8(take(buf, 8)?) },
    };
    finish(buf, event)
}

impl EventType {
    /// The kind of message that a byte stands for.
    pub fn from_id(id: u8) -> (t: Option<EventType>)
        ensures
            t == type_of(id),
    {
        match id {
            0 => Some(EventType::PointerMotion),
            1 => Some(EventType::PointerButton),
            2 => Some(EventType::PointerAxis),
            3 => Some(EventType::PointerAxisValue120),
            4 => Some(EventType::KeyboardKey),
            5 => Some(EventType::KeyboardModifiers),
            6 => Some(EventType::Ping),
            7 => Some(EventType::Pong),
            8 => Some(EventType::Enter),
            9 => Some(EventType::Leave),
            10 => Some(EventType::Ack),
            11 => Some(EventType::Hello),
            12 => Some(EventType::ClipboardStart),
            13 => Some(EventType::ClipboardChunk),
            14 => Some(EventType::ClipboardImageStart),
            15 => Some(EventType::ClipboardCapabilities),
            16 => Some(EventType::ClipboardManifest),
            17 => Some(EventType::ClipboardFileRequest),
            18 => Some(EventType::ClipboardFileChunk),
            19 => Some(EventType::ClipboardFileComplete),
            20 => Some(EventType::ClipboardTransferCancel),
            21 => Some(EventType::ClipboardTransferProgress),
            22 => Some(EventType::HistorySyncRequest),
            23 => Some(EventType::HistoryRecordStart),
            24 => Some(EventType::HistoryRecordChunk),
            25 => Some(EventType::HistorySyncPageEnd),
            26 => Some(EventType::HistoryClearBoundaryRequest),
            27 => Some(EventType::HistoryClearBoundary),
            28 => Some(EventType::HistoryClearApply),
            29 => Some(EventType::HistoryClearAck),
            30 => Some(EventType::ProfileStart),
            31 => Some(EventType::ProfileChunk),
            32 => Some(EventType::ProfileRequest),
            33 => Some(EventType::ProfileChanged),
            34 => Some(EventType::ManualFileOffer),
            35 => Some(EventType::ManualFileDecision),
            36 => Some(EventType::ManualFileRequest),
            37 => Some(EventType::ManualFileChunk),
            38 => Some(EventType::ManualFileComplete),
            39 => Some(EventType::ManualFileResult),
            40 => Some(EventType::ManualFileCancel),
            _ => None,
        }
    }
}

impl Position {
    /// The position that a byte stands for.
    pub fn from_id(id: u8) -> (p: Option<Position>)
        ensures
            p == position_of(id),
    {
        match id {
            0 => Some(Position::Left),
            1 => Some(Position::Right),
            2 => Some(Position::Top),
            3 => Some(Position::Bottom),
            _ => None,
        }
    }
}

impl ProtoEvent {
    /// The message that a datagram carries, or what is wrong with it.
    pub fn decode(buf: &[u8]) -> (r: Result<ProtoEvent, ProtocolError>)
        ensures
            yields(r, message_of(buf@)),
    {
        if buf.len() > MAX_DATAGRAM_SIZE {
            return Err(ProtocolError::TooLarge { actual: buf.len(), limit: MAX_DATAGRAM_SIZE });
        }
        let mut reader: Reader<'_> = Reader::new(buf);
        let id: u8 = get_u8(&mut reader)?;
        let t: EventType = match EventType::from_id(id) {
            Some(t) => t,
            None => return Err(ProtocolError::InvalidEventId(id)),
        };
        match t {
            EventType::PointerMotion | EventType::PointerButton | EventType::PointerAxis
            | EventType::PointerAxisValue120 | EventType::KeyboardKey
            | EventType::KeyboardModifiers => decode_input(&mut reader, t),
            EventType::ProfileStart | EventType::ProfileChunk | EventType::ProfileRequest =>
                decode_profile(&mut reader, t),
            EventType::ClipboardStart | EventType::ClipboardImageStart
            | EventType::ClipboardChunk | EventType::ClipboardCapabilities
            | EventType::ClipboardManifest | EventType::ClipboardTransferCancel
            | EventType::ClipboardTransferProgress => decode_clipboard(&mut reader, t),
            EventType::ClipboardFileRequest | EventType::ClipboardFileChunk
            | EventType::ClipboardFileComplete => decode_clipboard_file(&mut reader, t),
            EventType::HistorySyncRequest | EventType::HistoryRecordStart
            | EventType::HistoryRecordChunk | EventType::HistorySyncPageEnd => decode_history(
                &mut reader,
                t,
            ),
            EventType::HistoryClearBoundaryRequest | EventType::HistoryClearBoundary
            | EventType::HistoryClearApply | EventType::HistoryClearAck => decode_clear(
                &mut reader,
                t,
            ),
            EventType::ManualFileOffer | EventType::ManualFileDecision
            | EventType::ManualFileComplete | EventType::ManualFileResult
            | EventType::ManualFileCancel => decode_manual(&mut reader, t),
            EventType::ManualFileRequest | EventType::ManualFileChunk => decode_manual_range(
                &mut reader,
                t,
            ),
            _ => decode_simple(&mut reader, t),
        }
    }
}

} // verus!
