//! The protocol of earlier releases: a part of the messages of
//! [`crate::proto`], laid out in the same bytes.
//!
//! A receiver of that time reads the fields that it knows and leaves what
//! follows them alone.
use crate::proto::decode::position_of;
use crate::proto::decode::tail;
use crate::proto::model::datagram;
use crate::proto::model::kind_of;
use crate::proto::model::type_id;
use crate::proto::model::EventModel;
use crate::proto::model::Fault;
use crate::proto::validate::clipboard_image_fault;
use crate::proto::validate::clipboard_start_fault;
use crate::proto::validate::fault_of;
use crate::proto::validate::validate_clipboard_image;
use crate::proto::validate::validate_clipboard_start;
use crate::wire::array8;
use crate::wire::signed32;
use crate::wire::u32_at;
use crate::wire::u64_at;
use crate::wire::Reader;
use vstd::prelude::*;

pub use crate::proto::InputEvent;
pub use crate::proto::KeyboardEvent;
pub use crate::proto::PointerEvent;
pub use crate::proto::Position;
pub use crate::proto::CLIPBOARD_CHUNK_HEADER_SIZE;
pub use crate::proto::MAX_CLIPBOARD_CHUNK_SIZE;
pub use crate::proto::MAX_CLIPBOARD_SIZE;
pub use crate::proto::MAX_DATAGRAM_SIZE;

verus! {

/// Why a message cannot be sent, or a datagram is not a message.
#[allow(inconsistent_fields)]
#[derive(Clone, Copy, Debug, PartialEq, Eq, Structural)]
pub enum ProtocolError {
    InvalidEventId(u8),
    InvalidPosition(u8),
    Truncated,
    TooLarge { actual: usize, limit: usize },
    InvalidChunkCount { expected: u32, actual: u32 },
}

/// A message of the earlier protocol.
#[derive(Clone, Debug, PartialEq, Eq)]
pub enum ProtoEvent {
    Enter(Position),
    Leave(u32),
    Ack(u32),
    Input(InputEvent),
    Ping,
    Pong(bool),
    Hello { commit: [u8; 8] },
    ClipboardStart { transfer_id: u64, total_len: u32, chunks: u32 },
    ClipboardImageStart {
        transfer_id: u64,
        width: u32,
        height: u32,
        total_len: u32,
        chunks: u32,
    },
    ClipboardChunk { transfer_id: u64, index: u32, data: Vec<u8> },
}

/// The kind of a message. Its place in this list is the byte on the wire.
#[derive(Clone, Copy, Debug, PartialEq, Eq, Structural)]
pub enum EventType {
    PointerMotion,
    PointerButton,
    PointerAxis,
    PointerAxisValue120,
    KeyboardKey,
    KeyboardModifiers,
    Ping,
    Pong,
    Enter,
    Leave,
    Ack,
    Hello,
    ClipboardStart,
    ClipboardChunk,
    ClipboardImageStart,
}

impl View for ProtocolError {
    type V = Fault;

    open spec fn view(&self) -> Fault {
        match *self {
            ProtocolError::InvalidEventId(id) => Fault::InvalidEventId(id),
            ProtocolError::InvalidPosition(id) => Fault::InvalidPosition(id),
            ProtocolError::Truncated => Fault::Truncated,
            ProtocolError::TooLarge { actual, limit } => Fault::TooLarge { actual, limit },
            ProtocolError::InvalidChunkCount { expected, actual } => Fault::InvalidChunkCount {
                expected,
                actual,
            },
        }
    }
}

impl View for ProtoEvent {
    type V = EventModel;

    open spec fn view(&self) -> EventModel {
        match *self {
            ProtoEvent::Enter(position) => EventModel::Enter(position),
            ProtoEvent::Leave(serial) => EventModel::Leave(serial),
            ProtoEvent::Ack(serial) => EventModel::Ack(serial),
            ProtoEvent::Input(event) => EventModel::Input(event),
            ProtoEvent::Ping => EventModel::Ping,
            ProtoEvent::Pong(alive) => EventModel::Pong(alive),
            ProtoEvent::Hello { commit } => EventModel::Hello { commit: commit@ },
            ProtoEvent::ClipboardStart { transfer_id, total_len, chunks } =>
                EventModel::ClipboardStart { transfer_id, total_len, chunks },
            ProtoEvent::ClipboardImageStart { transfer_id, width, height, total_len, chunks } =>
                EventModel::ClipboardImageStart { transfer_id, width, height, total_len, chunks },
            ProtoEvent::ClipboardChunk { transfer_id, index, data } => EventModel::ClipboardChunk {
                transfer_id,
                index,
                data: data@,
            },
        }
    }
}

/// The byte that stands for a kind of message.
pub open spec fn early_type_id(t: EventType) -> u8 {
    match t {
        EventType::PointerMotion => 0,
        EventType::PointerButton => 1,
        EventType::PointerAxis => 2,
        EventType::PointerAxisValue120 => 3,
        EventType::KeyboardKey => 4,
        EventType::KeyboardModifiers => 5,
        EventType::Ping => 6,
        EventType::Pong => 7,
        EventType::Enter => 8,
        EventType::Leave => 9,
        EventType::Ack => 10,
        EventType::Hello => 11,
        EventType::ClipboardStart => 12,
        EventType::ClipboardChunk => 13,
        EventType::ClipboardImageStart => 14,
    }
}

/// The kind of message that a byte stands for.
pub open spec fn early_type_of(id: u8) -> Option<EventType> {
    match id {
        0 => Some(EventType::PointerMotion),
        1 => Some(EventType::PointerButton),
        2 => Some(EventType::PointerAxis),
        3 => Some(EventType::PointerAxisValue120),
        4 => Some(EventType::KeyboardKey),
        5 => Some(EventType::KeyboardModifiers),
        6 => Some(EventType::Ping),
        7 => Some(EventType::Pong),
        8 => Some(EventType::Enter),
        9 => Some(EventType::Leave),
        10 => Some(EventType::Ack),
        11 => Some(EventType::Hello),
        12 => Some(EventType::ClipboardStart),
        13 => Some(EventType::ClipboardChunk),
        14 => Some(EventType::ClipboardImageStart),
        _ => None,
    }
}

/// A message whose fields end at `end`, whatever follows them.
pub open spec fn at_least(b: Seq<u8>, end: int, fault: Option<Fault>, e: EventModel) -> Result<
    EventModel,
    Fault,
> {
    if b.len() < end {
        Err(Fault::Truncated)
    } else {
        match fault {
            Some(fault) => Err(fault),
            None => Ok(e),
        }
    }
}

/// The message in a datagram of a known kind.
pub open spec fn early_message_in(b: Seq<u8>, t: EventType) -> Result<EventModel, Fault> {
    match t {
        EventType::PointerMotion => at_least(
            b,
            21,
            None,
            EventModel::Input(
                InputEvent::Pointer(
                    PointerEvent::Motion {
                        time: u32_at(b, 1),
                        dx: u64_at(b, 5),
                        dy: u64_at(b, 13),
                    },
                ),
            ),
        ),
        EventType::PointerButton => at_least(
            b,
            13,
            None,
            EventModel::Input(
                InputEvent::Pointer(
                    PointerEvent::Button {
                        time: u32_at(b, 1),
                        button: u32_at(b, 5),
                        state: u32_at(b, 9),
                    },
                ),
            ),
        ),
        EventType::PointerAxis => at_least(
            b,
            14,
            None,
            EventModel::Input(
                InputEvent::Pointer(
                    PointerEvent::Axis { time: u32_at(b, 1), axis: b[5], value: u64_at(b, 6) },
                ),
            ),
        ),
        EventType::PointerAxisValue120 => at_least(
            b,
            6,
            None,
            EventModel::Input(
                InputEvent::Pointer(
                    PointerEvent::AxisDiscrete120 { axis: b[1], value: signed32(u32_at(b, 2)) },
                ),
            ),
        ),
        EventType::KeyboardKey => at_least(
            b,
            10,
            None,
            EventModel::Input(
                InputEvent::Keyboard(
                    KeyboardEvent::Key { time: u32_at(b, 1), key: u32_at(b, 5), state: b[9] },
                ),
            ),
        ),
        EventType::KeyboardModifiers => at_least(
            b,
            17,
            None,
            EventModel::Input(
                InputEvent::Keyboard(
                    KeyboardEvent::Modifiers {
                        depressed: u32_at(b, 1),
                        latched: u32_at(b, 5),
                        locked: u32_at(b, 9),
                        group: u32_at(b, 13),
                    },
                ),
            ),
        ),
        EventType::Ping => Ok(EventModel::Ping),
        EventType::Pong => at_least(b, 2, None, EventModel::Pong(b[1] != 0)),
        EventType::Enter => if b.len() < 2 {
            Err(Fault::Truncated)
        } else {
            match position_of(b[1]) {
                Some(position) => Ok(EventModel::Enter(position)),
                None => Err(Fault::InvalidPosition(b[1])),
            }
        },
        EventType::Leave => at_least(b, 5, None, EventModel::Leave(u32_at(b, 1))),
        EventType::Ack => at_least(b, 5, None, EventModel::Ack(u32_at(b, 1))),
        EventType::Hello => at_least(b, 9, None, EventModel::Hello { commit: b.subrange(1, 9) }),
        EventType::ClipboardStart => at_least(
            b,
            17,
            clipboard_start_fault(u32_at(b, 9), u32_at(b, 13)),
            EventModel::ClipboardStart {
                transfer_id: u64_at(b, 1),
                total_len: u32_at(b, 9),
                chunks: u32_at(b, 13),
            },
        ),
        EventType::ClipboardImageStart => at_least(
            b,
            25,
            clipboard_image_fault(u32_at(b, 9), u32_at(b, 13), u32_at(b, 17), u32_at(b, 21)),
            EventModel::ClipboardImageStart {
                transfer_id: u64_at(b, 1),
                width: u32_at(b, 9),
                height: u32_at(b, 13),
                total_len: u32_at(b, 17),
                chunks: u32_at(b, 21),
            },
        ),
        EventType::ClipboardChunk => at_least(
            b,
            13,
            None,
            EventModel::ClipboardChunk {
                transfer_id: u64_at(b, 1),
                index: u32_at(b, 9),
                data: tail(b, 13),
            },
        ),
    }
}

/// The message that a datagram carries, or what is wrong with the datagram.
pub open spec fn early_message_of(b: Seq<u8>) -> Result<EventModel, Fault> {
    if b.len() > MAX_DATAGRAM_SIZE {
        Err(Fault::TooLarge { actual: b.len() as usize, limit: MAX_DATAGRAM_SIZE })
    } else if b.len() == 0 {
        Err(Fault::Truncated)
    } else {
        match early_type_of(b[0]) {
            None => Err(Fault::InvalidEventId(b[0])),
            Some(t) => early_message_in(b, t),
        }
    }
}

/// What a reading function returns: the message, or the fault.
pub open spec fn yields(r: Result<ProtoEvent, ProtocolError>, m: Result<EventModel, Fault>) -> bool {
    match r {
        Ok(event) => m == Ok::<EventModel, Fault>(event@),
        Err(error) => m == Err::<EventModel, Fault>(error@),
    }
}

/// What a checking function returns: nothing, or the fault that was found.
pub open spec fn reports(r: Result<(), ProtocolError>, fault: Option<Fault>) -> bool {
    match r {
        Ok(_) => fault is None,
        Err(error) => fault == Some(error@),
    }
}

/// An error that both protocols have. The others are never given to it.
fn shared_error(error: crate::proto::ProtocolError) -> (r: ProtocolError)
    requires
        error is TooLarge || error is InvalidChunkCount,
    ensures
        r@ == error@,
{
    match error {
        crate::proto::ProtocolError::TooLarge { actual, limit } => ProtocolError::TooLarge {
            actual,
            limit,
        },
        crate::proto::ProtocolError::InvalidChunkCount { expected, actual } =>
            ProtocolError::InvalidChunkCount { expected, actual },
        _ => ProtocolError::Truncated,
    }
}

fn check_clipboard_start(total_len: u32, chunks: u32) -> (r: Result<(), ProtocolError>)
    ensures
        reports(r, clipboard_start_fault(total_len, chunks)),
{
    match validate_clipboard_start(total_len, chunks) {
        Ok(_) => Ok(()),
        Err(error) => Err(shared_error(error)),
    }
}

fn check_clipboard_image(width: u32, height: u32, total_len: u32, chunks: u32) -> (r: Result<
    (),
    ProtocolError,
>)
    ensures
        reports(r, clipboard_image_fault(width, height, total_len, chunks)),
{
    match validate_clipboard_image(width, height, total_len, chunks) {
        Ok(_) => Ok(()),
        Err(error) => Err(shared_error(error)),
    }
}

fn take<'a>(buf: &mut Reader<'a>, len: usize) -> (r: Result<&'a [u8], ProtocolError>)
    requires
        old(buf).wf(),
    ensures
        match r {
            Ok(v) => {
                &&& old(buf).left() >= len
                &&& final(buf).moved(old(buf), len as int)
                &&& v@ == old(buf).data@.subrange(old(buf).at as int, old(buf).at + len)
            },
            Err(error) => old(buf).left() < len && error is Truncated,
        },
{
    match buf.take(len) {
        Some(v) => Ok(v),
        None => Err(ProtocolError::Truncated),
    }
}

fn get_u8(buf: &mut Reader<'_>) -> (r: Result<u8, ProtocolError>)
    requires
        old(buf).wf(),
    ensures
        match r {
            Ok(v) => {
                &&& old(buf).left() >= 1
                &&& final(buf).moved(old(buf), 1)
                &&& v == old(buf).data@[old(buf).at as int]
            },
            Err(error) => old(buf).left() < 1 && error is Truncated,
        },
{
    match buf.get_u8() {
        Some(v) => Ok(v),
        None => Err(ProtocolError::Truncated),
    }
}

fn get_u32(buf: &mut Reader<'_>) -> (r: Result<u32, ProtocolError>)
    requires
        old(buf).wf(),
    ensures
        match r {
            Ok(v) => {
                &&& old(buf).left() >= 4
                &&& final(buf).moved(old(buf), 4)
                &&& v == u32_at(old(buf).data@, old(buf).at as int)
            },
            Err(error) => old(buf).left() < 4 && error is Truncated,
        },
{
    match buf.get_u32() {
        Some(v) => Ok(v),
        None => Err(ProtocolError::Truncated),
    }
}

fn get_u64(buf: &mut Reader<'_>) -> (r: Result<u64, ProtocolError>)
    requires
        old(buf).wf(),
    ensures
        match r {
            Ok(v) => {
                &&& old(buf).left() >= 8
                &&& final(buf).moved(old(buf), 8)
                &&& v == u64_at(old(buf).data@, old(buf).at as int)
            },
            Err(error) => old(buf).left() < 8 && error is Truncated,
        },
{
    match buf.get_u64() {
        Some(v) => Ok(v),
        None => Err(ProtocolError::Truncated),
    }
}

fn get_i32(buf: &mut Reader<'_>) -> (r: Result<i32, ProtocolError>)
    requires
        old(buf).wf(),
    ensures
        match r {
            Ok(v) => {
                &&& old(buf).left() >= 4
                &&& final(buf).moved(old(buf), 4)
                &&& v == signed32(u32_at(old(buf).data@, old(buf).at as int))
            },
            Err(error) => old(buf).left() < 4 && error is Truncated,
        },
{
    match buf.get_i32() {
        Some(v) => Ok(v),
        None => Err(ProtocolError::Truncated),
    }
}

impl EventType {
    /// The byte that stands for this kind on the wire.
    pub fn id(self) -> (id: u8)
        ensures
            id == early_type_id(self),
    {
        match self {
            EventType::PointerMotion => 0,
            EventType::PointerButton => 1,
            EventType::PointerAxis => 2,
            EventType::PointerAxisValue120 => 3,
            EventType::KeyboardKey => 4,
            EventType::KeyboardModifiers => 5,
            EventType::Ping => 6,
            EventType::Pong => 7,
            EventType::Enter => 8,
            EventType::Leave => 9,
            EventType::Ack => 10,
            EventType::Hello => 11,
            EventType::ClipboardStart => 12,
            EventType::ClipboardChunk => 13,
            EventType::ClipboardImageStart => 14,
        }
    }

    /// The kind of message that a byte stands for.
    pub fn from_id(id: u8) -> (t: Option<EventType>)
        ensures
            t == early_type_of(id),
    {
        match id {
            0 => Some(EventType::PointerMotion),
            1 => Some(EventType::PointerButton),
            2 => Some(EventType::PointerAxis),
            3 => Some(EventType::PointerAxisValue120),
            4 => Some(EventType::KeyboardKey),
            5 => Some(EventType::KeyboardModifiers),
            6 => Some(EventType::Ping),
            7 => Some(EventType::Pong),
            8 => Some(EventType::Enter),
            9 => Some(EventType::Leave),
            10 => Some(EventType::Ack),
            11 => Some(EventType::Hello),
            12 => Some(EventType::ClipboardStart),
            13 => Some(EventType::ClipboardChunk),
            14 => Some(EventType::ClipboardImageStart),
            _ => None,
        }
    }
}

impl ProtoEvent {
    /// The kind of this message.
    pub fn event_type(&self) -> (t: EventType)
        ensures
            early_type_id(t) == type_id(kind_of(self@)),
    {
        match self {
            ProtoEvent::Input(InputEvent::Pointer(PointerEvent::Motion { .. })) =>
                EventType::PointerMotion,
            ProtoEvent::Input(InputEvent::Pointer(PointerEvent::Button { .. })) =>
                EventType::PointerButton,
            ProtoEvent::Input(InputEvent::Pointer(PointerEvent::Axis { .. })) =>
                EventType::PointerAxis,
            ProtoEvent::Input(InputEvent::Pointer(PointerEvent::AxisDiscrete120 { .. })) =>
                EventType::PointerAxisValue120,
            ProtoEvent::Input(InputEvent::Keyboard(KeyboardEvent::Key { .. })) =>
                EventType::KeyboardKey,
            ProtoEvent::Input(InputEvent::Keyboard(KeyboardEvent::Modifiers { .. })) =>
                EventType::KeyboardModifiers,
            ProtoEvent::Ping => EventType::Ping,
            ProtoEvent::Pong(_) => EventType::Pong,
            ProtoEvent::Enter(_) => EventType::Enter,
            ProtoEvent::Leave(_) => EventType::Leave,
            ProtoEvent::Ack(_) => EventType::Ack,
            ProtoEvent::Hello { .. } => EventType::Hello,
            ProtoEvent::ClipboardStart { .. } => EventType::ClipboardStart,
            ProtoEvent::ClipboardImageStart { .. } => EventType::ClipboardImageStart,
            ProtoEvent::ClipboardChunk { .. } => EventType::ClipboardChunk,
        }
    }

    /// The same message in the present protocol.
    pub fn into_current(self) -> (e: crate::proto::ProtoEvent)
        ensures
            e@ == self@,
    {
        match self {
            ProtoEvent::Enter(position) => crate::proto::ProtoEvent::Enter(position),
            ProtoEvent::Leave(serial) => crate::proto::ProtoEvent::Leave(serial),
            ProtoEvent::Ack(serial) => crate::proto::ProtoEvent::Ack(serial),
            ProtoEvent::Input(event) => crate::proto::ProtoEvent::Input(event),
            ProtoEvent::Ping => crate::proto::ProtoEvent::Ping,
            ProtoEvent::Pong(alive) => crate::proto::ProtoEvent::Pong(alive),
            ProtoEvent::Hello { commit } => crate::proto::ProtoEvent::Hello { commit },
            ProtoEvent::ClipboardStart { transfer_id, total_len, chunks } =>
                crate::proto::ProtoEvent::ClipboardStart { transfer_id, total_len, chunks },
            ProtoEvent::ClipboardImageStart { transfer_id, width, height, total_len, chunks } =>
                crate::proto::ProtoEvent::ClipboardImageStart {
                transfer_id,
                width,
                height,
                total_len,
                chunks,
            },
            ProtoEvent::ClipboardChunk { transfer_id, index, data } =>
                crate::proto::ProtoEvent::ClipboardChunk { transfer_id, index, data },
        }
    }

    /// The text of this message; `input` is the text of its input event, where
    /// it is one.
    pub fn to_text(self, input: &str) -> (s: String)
        ensures
            s@ == crate::proto::display::event_text(self@, input@),
    {
        self.into_current().to_text(input)
    }

    /// The datagram of this message, or the rule that it breaks.
    pub fn encode(self) -> (r: Result<Vec<u8>, ProtocolError>)
        ensures
            match r {
                Ok(bytes) => fault_of(self@) is None && bytes@ == datagram(self@),
                Err(error) => fault_of(self@) == Some(error@),
            },
    {
        proof {
            lemma_small(self@);
        }
        match self.into_current().encode() {
            Ok(bytes) => Ok(bytes),
            Err(error) => Err(shared_error(error)),
        }
    }

    /// The message that a datagram carries, or what is wrong with it.
    pub fn decode(buf: &[u8]) -> (r: Result<ProtoEvent, ProtocolError>)
        ensures
            yields(r, early_message_of(buf@)),
    {
        if buf.len() > MAX_DATAGRAM_SIZE {
            return Err(ProtocolError::TooLarge { actual: buf.len(), limit: MAX_DATAGRAM_SIZE });
        }
        let mut r: Reader<'_> = Reader::new(buf);
        let id: u8 = get_u8(&mut r)?;
        let t: EventType = match EventType::from_id(id) {
            Some(t) => t,
            None => return Err(ProtocolError::InvalidEventId(id)),
        };
        match t {
            EventType::PointerMotion => Ok(
                ProtoEvent::Input(
                    InputEvent::Pointer(
                        PointerEvent::Motion {
                            time: get_u32(&mut r)?,
                            dx: get_u64(&mut r)?,
                            dy: get_u64(&mut r)?,
                        },
                    ),
                ),
            ),
            EventType::PointerButton => Ok(
                ProtoEvent::Input(
                    InputEvent::Pointer(
                        PointerEvent::Button {
                            time: get_u32(&mut r)?,
                            button: get_u32(&mut r)?,
                            state: get_u32(&mut r)?,
                        },
                    ),
                ),
            ),
            EventType::PointerAxis => Ok(
                ProtoEvent::Input(
                    InputEvent::Pointer(
                        PointerEvent::Axis {
                            time: get_u32(&mut r)?,
                            axis: get_u8(&mut r)?,
                            value: get_u64(&mut r)?,
                        },
                    ),
                ),
            ),
            EventType::PointerAxisValue120 => Ok(
                ProtoEvent::Input(
                    InputEvent::Pointer(
                        PointerEvent::AxisDiscrete120 {
                            axis: get_u8(&mut r)?,
                            value: get_i32(&mut r)?,
                        },
                    ),
                ),
            ),
            EventType::KeyboardKey => Ok(
                ProtoEvent::Input(
                    InputEvent::Keyboard(
                        KeyboardEvent::Key {
                            time: get_u32(&mut r)?,
                            key: get_u32(&mut r)?,
                            state: get_u8(&mut r)?,
                        },
                    ),
                ),
            ),
            EventType::KeyboardModifiers => Ok(
                ProtoEvent::Input(
                    InputEvent::Keyboard(
                        KeyboardEvent::Modifiers {
                            depressed: get_u32(&mut r)?,
                            latched: get_u32(&mut r)?,
                            locked: get_u32(&mut r)?,
                            group: get_u32(&mut r)?,
                        },
                    ),
                ),
            ),
            EventType::Ping => Ok(ProtoEvent::Ping),
            EventType::Pong => Ok(ProtoEvent::Pong(get_u8(&mut r)? != 0)),
            EventType::Enter => {
                let id: u8 = get_u8(&mut r)?;
                match Position::from_id(id) {
                    Some(position) => Ok(ProtoEvent::Enter(position)),
                    None => Err(ProtocolError::InvalidPosition(id)),
                }
            },
            EventType::Leave => Ok(ProtoEvent::Leave(get_u32(&mut r)?)),
            EventType::Ack => Ok(ProtoEvent::Ack(get_u32(&mut r)?)),
            EventType::Hello => Ok(ProtoEvent::Hello { commit: array8(take(&mut r, 8)?) }),
            EventType::ClipboardStart => {
                let transfer_id: u64 = get_u64(&mut r)?;
                let total_len: u32 = get_u32(&mut r)?;
                let chunks: u32 = get_u32(&mut r)?;
                check_clipboard_start(total_len, chunks)?;
                Ok(ProtoEvent::ClipboardStart { transfer_id, total_len, chunks })
            },
            EventType::ClipboardImageStart => {
                let transfer_id: u64 = get_u64(&mut r)?;
                let width: u32 = get_u32(&mut r)?;
                let height: u32 = get_u32(&mut r)?;
                let total_len: u32 = get_u32(&mut r)?;
                let chunks: u32 = get_u32(&mut r)?;
                check_clipboard_image(width, height, total_len, chunks)?;
                Ok(
                    ProtoEvent::ClipboardImageStart {
                        transfer_id,
                        width,
                        height,
                        total_len,
                        chunks,
                    },
                )
            },
            EventType::ClipboardChunk => {
                let transfer_id: u64 = get_u64(&mut r)?;
                let index: u32 = get_u32(&mut r)?;
                Ok(ProtoEvent::ClipboardChunk { transfer_id, index, data: r.rest() })
            },
        }
    }
}

/// A message of the earlier protocol.
pub open spec fn early(e: EventModel) -> bool {
    type_id(kind_of(e)) < 15
}

/// An earlier message that keeps its rules has a datagram.
proof fn lemma_small(e: EventModel)
    requires
        early(e),
        crate::proto::laws::sized(e),
    ensures
        fault_of(e) is None ==> datagram(e).len() <= MAX_DATAGRAM_SIZE,
{
    broadcast use crate::wire::group_be_len;

}

/// The kinds that both protocols have are the same bytes in both.
pub proof fn law_same_ids(t: EventType, id: u8)
    ensures
        early_type_of(early_type_id(t)) == Some(t),
        early_type_of(id) is Some <==> id < 15,
        early_type_of(id) is Some ==> early_type_id(early_type_of(id)->Some_0) == id,
        crate::proto::decode::type_of(early_type_id(t)) is Some,
{
}

/// A receiver of the earlier protocol reads a present datagram of a message
/// that it knows as the present receiver does.
#[verifier::rlimit(60)]
#[verifier::spinoff_prover]
pub proof fn law_earlier_receiver_agrees(b: Seq<u8>)
    requires
        crate::proto::decode::message_of(b) is Ok,
        early(crate::proto::decode::message_of(b)->Ok_0),
    ensures
        early_message_of(b) == crate::proto::decode::message_of(b),
{
}

/// What is sent is what is received, in the earlier protocol as well.
pub proof fn law_early_round_trip(e: EventModel)
    requires
        early(e),
        crate::proto::laws::sized(e),
        fault_of(e) is None,
    ensures
        early_message_of(datagram(e)) == Ok::<EventModel, Fault>(e),
{
    lemma_small(e);
    crate::proto::laws::law_round_trip(e);
    law_earlier_receiver_agrees(datagram(e));
}

/// An earlier receiver reads what it needs, and does not mind what comes behind it; what
/// is too short is cut off, and a kind that it does not know is refused by its number.
pub proof fn law_earlier_receivers_read_what_they_need(b: Seq<u8>, more: Seq<u8>)
    requires
        early_message_of(b) is Ok,
        !(early_message_of(b)->Ok_0 is ClipboardChunk),
        b.len() + more.len() <= 16384,
    ensures
        early_message_of(b + more) == early_message_of(b),
{
    reveal(crate::wire::u16_at);
    reveal(u32_at);
    reveal(u64_at);
    let all = b + more;
    assert(forall|i: int| 0 <= i < b.len() ==> all[i] == b[i]);
    if b.len() >= 9 {
        assert(all.subrange(1, 9) =~= b.subrange(1, 9));
    }
}

/// A kind beyond those that it knows is refused by its number, and an empty datagram is
/// cut off.
pub proof fn law_earlier_receivers_refuse_later_kinds(b: Seq<u8>)
    ensures
        0 < b.len() <= 16384 && b[0] >= 15 ==> early_message_of(b) == Err::<EventModel, Fault>(
            Fault::InvalidEventId(b[0]),
        ),
        b.len() == 0 ==> early_message_of(b) == Err::<EventModel, Fault>(Fault::Truncated),
        b.len() > 16384 ==> early_message_of(b) is Err,
{
}

} // verus!
