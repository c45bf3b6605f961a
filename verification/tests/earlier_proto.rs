//! The earlier protocol on concrete messages.
use syntra::lan_mouse_proto::{
    EventType, InputEvent, PointerEvent, Position, ProtoEvent, ProtocolError,
    MAX_CLIPBOARD_CHUNK_SIZE, MAX_CLIPBOARD_SIZE,
};

fn assert_round_trip(event: ProtoEvent) {
    let encoded = event.encode().unwrap();
    let decoded = ProtoEvent::decode(&encoded).unwrap();
    assert_eq!(decoded.encode().unwrap(), encoded);
}

#[test]
fn lib_fixed_events_round_trip() {
    assert_round_trip(ProtoEvent::Ping);
    assert_round_trip(ProtoEvent::Pong(true));
    assert_round_trip(ProtoEvent::Enter(Position::Right));
    assert_round_trip(ProtoEvent::Leave(u32::MAX));
    assert_round_trip(ProtoEvent::Ack(17));
    assert_round_trip(ProtoEvent::Hello {
        commit: *b"deadbeef",
    });
    assert_round_trip(ProtoEvent::Input(InputEvent::Pointer(
        PointerEvent::Motion {
            time: 9,
            dx: (-1.5f64).to_bits(),
            dy: 2.25f64.to_bits(),
        },
    )));
}

#[test]
fn lib_clipboard_events_round_trip() {
    assert_round_trip(ProtoEvent::ClipboardStart {
        transfer_id: 42,
        total_len: 5,
        chunks: 1,
    });
    assert_round_trip(ProtoEvent::ClipboardImageStart {
        transfer_id: 43,
        width: 2,
        height: 1,
        total_len: 8,
        chunks: 1,
    });
    assert_round_trip(ProtoEvent::ClipboardChunk {
        transfer_id: 42,
        index: 0,
        data: b"hello".to_vec(),
    });
}

#[test]
fn lib_truncated_events_are_rejected() {
    assert!(matches!(
        ProtoEvent::decode(&[EventType::Ack.id()]),
        Err(ProtocolError::Truncated)
    ));
    assert!(matches!(
        ProtoEvent::decode(&[EventType::ClipboardStart.id()]),
        Err(ProtocolError::Truncated)
    ));
    assert!(matches!(
        ProtoEvent::decode(&[EventType::ClipboardChunk.id()]),
        Err(ProtocolError::Truncated)
    ));
}

#[test]
fn lib_clipboard_limits_are_enforced() {
    let chunks = (MAX_CLIPBOARD_SIZE as u32).div_ceil(MAX_CLIPBOARD_CHUNK_SIZE as u32);
    assert_round_trip(ProtoEvent::ClipboardStart {
        transfer_id: 1,
        total_len: MAX_CLIPBOARD_SIZE as u32,
        chunks,
    });
    assert!(matches!(
        ProtoEvent::ClipboardStart {
            transfer_id: 1,
            total_len: MAX_CLIPBOARD_SIZE as u32 + 1,
            chunks,
        }
        .encode(),
        Err(ProtocolError::TooLarge { .. })
    ));
    assert_round_trip(ProtoEvent::ClipboardChunk {
        transfer_id: 1,
        index: 0,
        data: vec![0; MAX_CLIPBOARD_CHUNK_SIZE],
    });
    assert!(matches!(
        ProtoEvent::ClipboardChunk {
            transfer_id: 1,
            index: 0,
            data: vec![0; MAX_CLIPBOARD_CHUNK_SIZE + 1],
        }
        .encode(),
        Err(ProtocolError::TooLarge { .. })
    ));
}

#[test]
fn lib_unknown_events_remain_forward_compatible_errors() {
    assert!(matches!(
        ProtoEvent::decode(&[u8::MAX]),
        Err(ProtocolError::InvalidEventId(_))
    ));
}

/// A message of the earlier protocol has the bytes that the present one gives
/// it, and a receiver of that time leaves alone what follows it.
#[test]
fn earlier_messages_have_the_present_bytes() {
    let early = ProtoEvent::ClipboardChunk { transfer_id: 7, index: 2, data: vec![1, 2, 3] };
    let bytes = early.clone().encode().unwrap();
    assert_eq!(early.into_current().encode().unwrap(), bytes);
    let mut longer = ProtoEvent::Leave(5).encode().unwrap();
    longer.push(99);
    assert_eq!(ProtoEvent::decode(&longer).unwrap(), ProtoEvent::Leave(5));
    assert_eq!(EventType::from_id(14).unwrap().id(), 14);
    assert_eq!(EventType::from_id(15), None);
}
