//! The peer protocol on concrete messages.
use syntra::proto::transfer::ClipboardFileChunkValidator;
use syntra::proto::validate::validate_manual_file_name;
use syntra::proto::{
    ClipboardCancelReason, ClipboardCapabilities, ClipboardEntryKind, ClipboardManifestEntry,
    EventType, InputEvent, KeyboardEvent, ManualDecision, PointerEvent, Position, ProtoEvent,
    ProtocolError, MAX_CLIPBOARD_CHUNK_SIZE, MAX_CLIPBOARD_FILE_CHUNK_SIZE,
    MAX_CLIPBOARD_MANIFEST_ENTRIES, MAX_CLIPBOARD_PATH_SIZE, MAX_CLIPBOARD_SIZE,
    MAX_DATAGRAM_SIZE, MAX_HISTORY_CHUNK_SIZE, MAX_HISTORY_RECORD_SIZE,
    MAX_MANUAL_FILE_CHUNK_SIZE, MAX_MANUAL_FILE_ERROR_SIZE, MAX_MANUAL_FILE_NAME_SIZE,
    SAFE_DATAGRAM_SIZE,
};

fn assert_round_trip(event: ProtoEvent) {
    let encoded = event.encode().unwrap();
    let decoded = ProtoEvent::decode(&encoded).unwrap();
    assert_eq!(decoded.encode().unwrap(), encoded);
}

#[test]
fn fixed_events_round_trip() {
    assert_round_trip(ProtoEvent::Ping);
    assert_round_trip(ProtoEvent::Pong(true));
    assert_round_trip(ProtoEvent::Enter(Position::Right));
    assert_round_trip(ProtoEvent::Leave(u32::MAX));
    assert_round_trip(ProtoEvent::Ack(17));
    assert_round_trip(ProtoEvent::Hello {
        commit: *b"deadbeef",
    });
    assert_round_trip(ProtoEvent::Input(InputEvent::Pointer(
        PointerEvent::Motion {
            time: 9,
            dx: (-1.5f64).to_bits(),
            dy: 2.25f64.to_bits(),
        },
    )));
}

#[test]
fn clipboard_events_round_trip() {
    assert_round_trip(ProtoEvent::ClipboardStart {
        transfer_id: 42,
        total_len: 5,
        chunks: 1,
    });
    assert_round_trip(ProtoEvent::ClipboardImageStart {
        transfer_id: 43,
        width: 2,
        height: 1,
        total_len: 8,
        chunks: 1,
    });
    assert_round_trip(ProtoEvent::ClipboardChunk {
        transfer_id: 42,
        index: 0,
        data: b"hello".to_vec(),
    });
}

#[test]
fn truncated_events_are_rejected() {
    assert!(matches!(
        ProtoEvent::decode(&[EventType::Ack.id()]),
        Err(ProtocolError::Truncated)
    ));
    assert!(matches!(
        ProtoEvent::decode(&[EventType::ClipboardStart.id()]),
        Err(ProtocolError::Truncated)
    ));
    assert!(matches!(
        ProtoEvent::decode(&[EventType::ClipboardChunk.id()]),
        Err(ProtocolError::Truncated)
    ));
}

#[test]
fn clipboard_limits_are_enforced() {
    let chunks = (MAX_CLIPBOARD_SIZE as u32).div_ceil(MAX_CLIPBOARD_CHUNK_SIZE as u32);
    assert_round_trip(ProtoEvent::ClipboardStart {
        transfer_id: 1,
        total_len: MAX_CLIPBOARD_SIZE as u32,
        chunks,
    });
    assert!(matches!(
        ProtoEvent::ClipboardStart {
            transfer_id: 1,
            total_len: MAX_CLIPBOARD_SIZE as u32 + 1,
            chunks,
        }
        .encode(),
        Err(ProtocolError::TooLarge { .. })
    ));
    assert_round_trip(ProtoEvent::ClipboardChunk {
        transfer_id: 1,
        index: 0,
        data: vec![0; MAX_CLIPBOARD_CHUNK_SIZE],
    });
    assert!(matches!(
        ProtoEvent::ClipboardChunk {
            transfer_id: 1,
            index: 0,
            data: vec![0; MAX_CLIPBOARD_CHUNK_SIZE + 1],
        }
        .encode(),
        Err(ProtocolError::TooLarge { .. })
    ));
}

#[test]
fn unknown_events_remain_forward_compatible_errors() {
    assert!(matches!(
        ProtoEvent::decode(&[u8::MAX]),
        Err(ProtocolError::InvalidEventId(_))
    ));
}

fn sample_manifest() -> ProtoEvent {
    ProtoEvent::ClipboardManifest {
        transfer_id: 77,
        entries: vec![
            ClipboardManifestEntry {
                file_id: 1,
                path: "photos".into(),
                kind: ClipboardEntryKind::Directory,
                size: 0,
            },
            ClipboardManifestEntry {
                file_id: 2,
                path: "photos/cat.png".into(),
                kind: ClipboardEntryKind::File,
                size: 123_456,
            },
            ClipboardManifestEntry {
                file_id: 3,
                path: "notes.txt".into(),
                kind: ClipboardEntryKind::File,
                size: 7,
            },
        ],
    }
}

#[test]
fn file_transfer_events_round_trip() {
    assert_round_trip(ProtoEvent::ClipboardCapabilities(ClipboardCapabilities {
        text: true,
        image: false,
        files: true,
    }));
    assert_round_trip(sample_manifest());
    assert_round_trip(ProtoEvent::ClipboardFileRequest {
        transfer_id: 77,
        file_id: 2,
        request_id: 9,
        offset: 4096,
        length: 1024,
    });
    assert_round_trip(ProtoEvent::ClipboardFileChunk {
        transfer_id: 77,
        file_id: 2,
        request_id: 9,
        offset: 4096,
        data: b"streamed bytes".to_vec(),
    });
    assert_round_trip(ProtoEvent::ClipboardFileComplete {
        transfer_id: 77,
        file_id: 2,
        request_id: 9,
        digest: [7; 32],
        size: 123_456,
    });
    assert_round_trip(ProtoEvent::ClipboardTransferCancel {
        transfer_id: 77,
        file_id: Some(2),
        reason: ClipboardCancelReason::IoError,
    });
    assert_round_trip(ProtoEvent::ClipboardTransferProgress {
        transfer_id: 77,
        file_id: 2,
        completed: 4096,
        total: 123_456,
    });
}

#[test]
fn manifest_rejects_unsafe_paths_and_invalid_ordering() {
    for path in [
        "",
        ".",
        "..",
        "../secret",
        "safe/../secret",
        "/absolute",
        "double//slash",
        "windows\\path",
        "C:/drive",
        "trailing/",
    ] {
        let event = ProtoEvent::ClipboardManifest {
            transfer_id: 1,
            entries: vec![ClipboardManifestEntry {
                file_id: 1,
                path: path.into(),
                kind: ClipboardEntryKind::File,
                size: 1,
            }],
        };
        assert!(
            matches!(event.encode(), Err(ProtocolError::InvalidPath(_))),
            "{path:?}"
        );
    }

    for ids in [[2, 1], [1, 1], [0, 1]] {
        let event = ProtoEvent::ClipboardManifest {
            transfer_id: 1,
            entries: ids
                .into_iter()
                .map(|file_id| ClipboardManifestEntry {
                    file_id,
                    path: format!("{file_id}.txt"),
                    kind: ClipboardEntryKind::File,
                    size: 1,
                })
                .collect(),
        };
        assert!(matches!(
            event.encode(),
            Err(ProtocolError::InvalidManifest(_))
        ));
    }
}

#[test]
fn file_metadata_limits_and_overflow_are_rejected() {
    let oversized_path = "a".repeat(MAX_CLIPBOARD_PATH_SIZE + 1);
    assert!(matches!(
        ProtoEvent::ClipboardManifest {
            transfer_id: 1,
            entries: vec![ClipboardManifestEntry {
                file_id: 1,
                path: oversized_path,
                kind: ClipboardEntryKind::File,
                size: 1,
            }],
        }
        .encode(),
        Err(ProtocolError::TooLarge { .. })
    ));

    assert!(matches!(
        ProtoEvent::ClipboardManifest {
            transfer_id: 1,
            entries: (1..=MAX_CLIPBOARD_MANIFEST_ENTRIES as u64 + 1)
                .map(|file_id| ClipboardManifestEntry {
                    file_id,
                    path: format!("{file_id}"),
                    kind: ClipboardEntryKind::File,
                    size: 1,
                })
                .collect(),
        }
        .encode(),
        Err(ProtocolError::InvalidManifest(_))
    ));

    assert!(matches!(
        ProtoEvent::ClipboardFileChunk {
            transfer_id: 1,
            file_id: 1,
            request_id: 1,
            offset: u64::MAX,
            data: vec![1],
        }
        .encode(),
        Err(ProtocolError::TooLarge { .. })
    ));
    assert!(matches!(
        ProtoEvent::ClipboardTransferProgress {
            transfer_id: 1,
            file_id: 1,
            completed: 2,
            total: 1,
        }
        .encode(),
        Err(ProtocolError::InvalidProgress { .. })
    ));
}

#[test]
fn malformed_file_events_and_trailing_bytes_are_rejected() {
    let mut encoded = sample_manifest().encode().unwrap();
    encoded.push(0);
    assert!(matches!(
        ProtoEvent::decode(&encoded),
        Err(ProtocolError::TrailingBytes(1))
    ));

    let malformed = [
        EventType::ClipboardManifest.id(),
        0,
        0,
        0,
        0,
        0,
        0,
        0,
        1, // transfer id
        0,
        0,
        0,
        1, // one entry, but entry absent
    ];
    assert!(matches!(
        ProtoEvent::decode(&malformed),
        Err(ProtocolError::Truncated)
    ));

    let over_datagram = vec![0; MAX_DATAGRAM_SIZE + 1];
    assert!(matches!(
        ProtoEvent::decode(&over_datagram),
        Err(ProtocolError::TooLarge { .. })
    ));
}
#[test]
fn strict_file_decoder_fields_and_ordering() {
    let bad_bool = [EventType::ClipboardCapabilities.id(), 2, 0, 1];
    assert!(matches!(
        ProtoEvent::decode(&bad_bool),
        Err(ProtocolError::InvalidBoolean(2))
    ));
    let mut cancel = vec![EventType::ClipboardTransferCancel.id()];
    cancel.extend_from_slice(&1u64.to_be_bytes());
    cancel.extend_from_slice(&1u64.to_be_bytes());
    cancel.push(9);
    assert!(matches!(
        ProtoEvent::decode(&cancel),
        Err(ProtocolError::InvalidCancelReason(9))
    ));
    let mut manifest = vec![EventType::ClipboardManifest.id()];
    manifest.extend_from_slice(&1u64.to_be_bytes());
    manifest.extend_from_slice(&1u32.to_be_bytes());
    manifest.extend_from_slice(&1u64.to_be_bytes());
    manifest.push(1);
    manifest.extend_from_slice(&1u16.to_be_bytes());
    manifest.push(0xff);
    assert!(matches!(
        ProtoEvent::decode(&manifest),
        Err(ProtocolError::InvalidPath(_))
    ));
    let mut progress = vec![EventType::ClipboardTransferProgress.id()];
    progress.extend_from_slice(&1u64.to_be_bytes());
    progress.extend_from_slice(&1u64.to_be_bytes());
    progress.extend_from_slice(&2u64.to_be_bytes());
    progress.extend_from_slice(&1u64.to_be_bytes());
    assert!(matches!(
        ProtoEvent::decode(&progress),
        Err(ProtocolError::InvalidProgress { .. })
    ));
    let mut chunk = vec![EventType::ClipboardFileChunk.id()];
    chunk.extend_from_slice(&1u64.to_be_bytes());
    chunk.extend_from_slice(&1u64.to_be_bytes());
    chunk.extend_from_slice(&1u64.to_be_bytes());
    chunk.extend_from_slice(&0u64.to_be_bytes());
    chunk.extend(std::iter::repeat_n(0, MAX_CLIPBOARD_FILE_CHUNK_SIZE + 1));
    assert!(matches!(
        ProtoEvent::decode(&chunk),
        Err(ProtocolError::TooLarge { .. })
    ));
    let mut validator = ClipboardFileChunkValidator::new(7, 1, 9, 20, 3).unwrap();
    assert!(validator.validate_chunk(7, 1, 8, 20, 1).is_err());
    assert!(validator.validate_chunk(7, 2, 9, 20, 1).is_err());
    assert!(validator.validate_chunk(8, 1, 9, 20, 1).is_err());
    assert!(validator.validate_chunk(7, 1, 9, 21, 1).is_err());
    assert!(validator.validate_chunk(7, 1, 9, 20, 4).is_err());
    assert!(validator.validate_chunk(7, 1, 9, 20, 3).is_ok());
    assert!(validator.validate_chunk(7, 1, 9, 20, 1).is_err());
    assert!(validator.validate_complete(7, 1, 9, 123_456).is_err());
    let mut terminal = ClipboardFileChunkValidator::new(7, 1, 9, 20, 3).unwrap();
    assert!(terminal.validate_chunk(7, 1, 9, 20, 2).is_ok());
    assert!(terminal.validate_complete(7, 1, 9, 22).is_ok());
    assert!(terminal.validate_complete(7, 1, 9, 22).is_err());
    assert!(ClipboardFileChunkValidator::new(7, 1, 0, 20, 3).is_err());
    assert!(ClipboardFileChunkValidator::new(7, 1, 9, 20, 0).is_err());
    assert!(
        ClipboardFileChunkValidator::new(7, 1, 9, 20, MAX_CLIPBOARD_FILE_CHUNK_SIZE as u64 + 1)
            .is_err()
    );
    assert!(
        ProtoEvent::ClipboardFileChunk {
            transfer_id: 1,
            file_id: 1,
            request_id: 1,
            offset: 0,
            data: vec![0; MAX_CLIPBOARD_FILE_CHUNK_SIZE]
        }
        .encode()
        .is_ok()
    );
    assert!(
        ProtoEvent::ClipboardFileChunk {
            transfer_id: 1,
            file_id: 1,
            request_id: 1,
            offset: 0,
            data: vec![0; MAX_CLIPBOARD_FILE_CHUNK_SIZE + 1]
        }
        .encode()
        .is_err()
    );
    let mut complete = vec![EventType::ClipboardFileComplete.id()];
    complete.extend_from_slice(&1u64.to_be_bytes());
    complete.extend_from_slice(&1u64.to_be_bytes());
    complete.extend_from_slice(&1u64.to_be_bytes());
    complete.extend_from_slice(&1u64.to_be_bytes());
    complete.extend(std::iter::repeat_n(0, 31));
    assert!(matches!(
        ProtoEvent::decode(&complete),
        Err(ProtocolError::Truncated)
    ));
    complete.push(0);
    assert!(ProtoEvent::decode(&complete).is_ok());
    complete.push(0);
    assert!(matches!(
        ProtoEvent::decode(&complete),
        Err(ProtocolError::TrailingBytes(1))
    ));
}
#[test]
fn file_request_wire_validation_is_strict() {
    let event = ProtoEvent::ClipboardFileRequest {
        transfer_id: 7,
        file_id: 1,
        request_id: 9,
        offset: 20,
        length: 3,
    };
    let encoded = event.encode().unwrap();
    assert_eq!(
        ProtoEvent::decode(&encoded).unwrap().encode().unwrap(),
        encoded
    );
    assert!(
        ProtoEvent::ClipboardFileRequest {
            transfer_id: 7,
            file_id: 1,
            request_id: 0,
            offset: 20,
            length: 3
        }
        .encode()
        .is_err()
    );
    assert!(
        ProtoEvent::ClipboardFileRequest {
            transfer_id: 7,
            file_id: 1,
            request_id: 9,
            offset: 20,
            length: 0
        }
        .encode()
        .is_err()
    );
    assert!(
        ProtoEvent::ClipboardFileRequest {
            transfer_id: 7,
            file_id: 1,
            request_id: 9,
            offset: 20,
            length: MAX_CLIPBOARD_FILE_CHUNK_SIZE as u64 + 1
        }
        .encode()
        .is_err()
    );
    assert!(
        ProtoEvent::ClipboardFileRequest {
            transfer_id: 7,
            file_id: 1,
            request_id: 9,
            offset: u64::MAX,
            length: 1
        }
        .encode()
        .is_err()
    );
    for (slot, value) in [
        (9, 0),
        (17, 0),
        (33, 0),
        (33, MAX_CLIPBOARD_FILE_CHUNK_SIZE as u64 + 1),
        (25, u64::MAX),
    ] {
        let mut malformed = encoded.clone();
        malformed[slot..slot + 8].copy_from_slice(&value.to_be_bytes());
        assert!(ProtoEvent::decode(&malformed).is_err());
    }
    for n in 0..encoded.len() {
        assert!(matches!(
            ProtoEvent::decode(&encoded[..n]),
            Err(ProtocolError::Truncated)
        ));
    }
    let mut trailing = encoded.clone();
    trailing.push(0);
    assert!(matches!(
        ProtoEvent::decode(&trailing),
        Err(ProtocolError::TrailingBytes(1))
    ));
}
#[test]
fn history_sync_and_clear_messages_round_trip_with_bounds() {
    let events = [
        ProtoEvent::HistorySyncRequest {
            request_id: 4,
            offset: 50,
        },
        ProtoEvent::HistoryRecordStart {
            request_id: 4,
            record_id: 2,
            total_len: 3,
            chunks: 1,
        },
        ProtoEvent::HistoryRecordChunk {
            request_id: 4,
            record_id: 2,
            index: 0,
            data: vec![1, 2, 3],
        },
        ProtoEvent::HistorySyncPageEnd {
            request_id: 4,
            next_offset: Some(60),
        },
        ProtoEvent::HistoryClearBoundaryRequest {
            operation_id: [7; 16],
        },
        ProtoEvent::HistoryClearBoundary {
            operation_id: [7; 16],
            boundary: vec![("device-a".into(), 9), ("device-b".into(), 4)],
        },
        ProtoEvent::HistoryClearApply {
            operation_id: [7; 16],
            boundary: vec![("device-a".into(), 9)],
        },
        ProtoEvent::HistoryClearAck {
            operation_id: [7; 16],
            affected: 3,
            error: Some("disk unavailable".into()),
        },
    ];
    for event in events {
        assert_round_trip(event);
    }
    assert!(
        ProtoEvent::HistoryRecordStart {
            request_id: 1,
            record_id: 1,
            total_len: (MAX_HISTORY_RECORD_SIZE + 1) as u32,
            chunks: 1,
        }
        .encode()
        .is_err()
    );
    assert!(
        ProtoEvent::HistoryRecordChunk {
            request_id: 1,
            record_id: 1,
            index: 0,
            data: vec![0; MAX_HISTORY_CHUNK_SIZE + 1],
        }
        .encode()
        .is_err()
    );
    let chunk = ProtoEvent::HistoryRecordChunk {
        request_id: 1,
        record_id: 1,
        index: 0,
        data: vec![0; MAX_HISTORY_CHUNK_SIZE],
    }
    .encode()
    .unwrap();
    assert!(chunk.len() <= SAFE_DATAGRAM_SIZE);
    assert!(
        ProtoEvent::HistoryRecordStart {
            request_id: 1,
            record_id: 1,
            total_len: (MAX_HISTORY_CHUNK_SIZE + 1) as u32,
            chunks: 1,
        }
        .encode()
        .is_err()
    );
}

#[test]
fn manual_file_events_round_trip_without_changing_payload_bytes() {
    let events = [
        ProtoEvent::ManualFileOffer {
            transfer_id: 1,
            file_name: "résumé-final.txt".into(),
            size: u64::MAX,
        },
        ProtoEvent::ManualFileDecision {
            transfer_id: 2,
            decision: ManualDecision::Pending,
        },
        ProtoEvent::ManualFileDecision {
            transfer_id: 2,
            decision: ManualDecision::Accepted,
        },
        ProtoEvent::ManualFileDecision {
            transfer_id: 2,
            decision: ManualDecision::Declined,
        },
        ProtoEvent::ManualFileRequest {
            transfer_id: 3,
            offset: u64::MAX - MAX_MANUAL_FILE_CHUNK_SIZE as u64,
            length: MAX_MANUAL_FILE_CHUNK_SIZE as u32,
        },
        ProtoEvent::ManualFileChunk {
            transfer_id: 4,
            offset: 17,
            data: vec![0, 1, 2, 0, 254, 255],
        },
        ProtoEvent::ManualFileComplete {
            transfer_id: 5,
            sha256: [0xa5; 32],
        },
        ProtoEvent::ManualFileResult {
            transfer_id: 6,
            success: false,
            error: Some("integrity check failed".into()),
        },
        ProtoEvent::ManualFileCancel { transfer_id: 7 },
    ];

    for event in events {
        let encoded = event.encode().unwrap();
        assert!(encoded.len() <= SAFE_DATAGRAM_SIZE);
        assert_eq!(
            ProtoEvent::decode(&encoded).unwrap().encode().unwrap(),
            encoded
        );
    }
}

#[test]
fn manual_file_chunk_uses_the_complete_safe_datagram_payload() {
    let encoded = ProtoEvent::ManualFileChunk {
        transfer_id: 1,
        offset: 0,
        data: vec![0x5a; MAX_MANUAL_FILE_CHUNK_SIZE],
    }
    .encode()
    .unwrap();

    assert_eq!(encoded.len(), SAFE_DATAGRAM_SIZE);
    match ProtoEvent::decode(&encoded).unwrap() {
        ProtoEvent::ManualFileChunk { data, .. } => {
            assert_eq!(data, vec![0x5a; MAX_MANUAL_FILE_CHUNK_SIZE]);
        }
        event => panic!("unexpected event: {}", event.to_text("")),
    }
}

#[test]
fn manual_file_names_accept_only_portable_normal_basenames() {
    for valid in [
        "report.txt",
        "résumé.pdf",
        "archive.tar.gz",
        "file_name-1",
        "COM0.txt",
        "LPT0.txt",
    ] {
        validate_manual_file_name(valid).unwrap();
    }

    for invalid in [
        "",
        ".",
        "..",
        "/absolute",
        "nested/file",
        r"nested\file",
        "trailing.",
        "trailing ",
        "contains\0nul",
        "contains\ncontrol",
        "bad<name",
        "bad>name",
        "bad:name",
        "bad\"name",
        "bad/name",
        r"bad\name",
        "bad|name",
        "bad?name",
        "bad*name",
        "CON",
        "con.txt",
        "PRN.log",
        "aux.data",
        "NUL.bin",
        "COM1.txt",
        "COM9.log",
        "LPT1.txt",
        "LPT9.log",
        "COM¹.txt",
        "LPT².txt",
        "com³.log",
    ] {
        assert!(
            validate_manual_file_name(invalid).is_err(),
            "{invalid:?} should be rejected"
        );
    }
    assert!(validate_manual_file_name(&"x".repeat(MAX_MANUAL_FILE_NAME_SIZE + 1)).is_err());
}

#[test]
fn manual_file_codecs_reject_zero_ids_and_out_of_bounds_payloads() {
    assert!(
        ProtoEvent::ManualFileCancel { transfer_id: 0 }
            .encode()
            .is_err()
    );
    assert!(
        ProtoEvent::ManualFileRequest {
            transfer_id: 1,
            offset: 0,
            length: 0,
        }
        .encode()
        .is_err()
    );
    assert!(
        ProtoEvent::ManualFileRequest {
            transfer_id: 1,
            offset: 0,
            length: MAX_MANUAL_FILE_CHUNK_SIZE as u32 + 1,
        }
        .encode()
        .is_err()
    );
    assert!(
        ProtoEvent::ManualFileChunk {
            transfer_id: 1,
            offset: 0,
            data: Vec::new(),
        }
        .encode()
        .is_err()
    );
    assert!(
        ProtoEvent::ManualFileChunk {
            transfer_id: 1,
            offset: 0,
            data: vec![0; MAX_MANUAL_FILE_CHUNK_SIZE + 1],
        }
        .encode()
        .is_err()
    );
    assert!(
        ProtoEvent::ManualFileResult {
            transfer_id: 1,
            success: false,
            error: Some("x".repeat(MAX_MANUAL_FILE_ERROR_SIZE + 1)),
        }
        .encode()
        .is_err()
    );
}

#[test]
fn manual_file_decoders_reject_invalid_values_and_trailing_bytes() {
    let variants = [
        ProtoEvent::ManualFileOffer {
            transfer_id: 1,
            file_name: "file.txt".into(),
            size: 0,
        },
        ProtoEvent::ManualFileDecision {
            transfer_id: 1,
            decision: ManualDecision::Accepted,
        },
        ProtoEvent::ManualFileRequest {
            transfer_id: 1,
            offset: 0,
            length: 1,
        },
        ProtoEvent::ManualFileComplete {
            transfer_id: 1,
            sha256: [0; 32],
        },
        ProtoEvent::ManualFileResult {
            transfer_id: 1,
            success: true,
            error: None,
        },
        ProtoEvent::ManualFileCancel { transfer_id: 1 },
    ];
    for event in variants {
        let mut encoded = event.encode().unwrap();
        encoded.push(0);
        assert!(matches!(
            ProtoEvent::decode(&encoded),
            Err(ProtocolError::TrailingBytes(1))
        ));
    }

    assert!(
        ProtoEvent::decode(&[
            EventType::ManualFileDecision.id(),
            0,
            0,
            0,
            0,
            0,
            0,
            0,
            1,
            3
        ])
        .is_err()
    );
    assert!(
        ProtoEvent::decode(&[EventType::ManualFileCancel.id(), 0, 0, 0, 0, 0, 0, 0, 0])
            .is_err()
    );
}

#[test]
fn manual_file_events_have_distinct_display_output() {
    let events = [
        ProtoEvent::ManualFileOffer {
            transfer_id: 1,
            file_name: "file.txt".into(),
            size: 2,
        },
        ProtoEvent::ManualFileDecision {
            transfer_id: 2,
            decision: ManualDecision::Accepted,
        },
        ProtoEvent::ManualFileRequest {
            transfer_id: 3,
            offset: 4,
            length: 5,
        },
        ProtoEvent::ManualFileChunk {
            transfer_id: 4,
            offset: 5,
            data: vec![1, 2],
        },
        ProtoEvent::ManualFileComplete {
            transfer_id: 5,
            sha256: [0; 32],
        },
        ProtoEvent::ManualFileResult {
            transfer_id: 6,
            success: false,
            error: Some("failed".into()),
        },
        ProtoEvent::ManualFileCancel { transfer_id: 7 },
    ];

    for (event, name) in events.into_iter().zip([
        "ManualFileOffer",
        "ManualFileDecision",
        "ManualFileRequest",
        "ManualFileChunk",
        "ManualFileComplete",
        "ManualFileResult",
        "ManualFileCancel",
    ]) {
        assert!(event.to_text("").starts_with(name));
    }
}

#[test]
fn existing_event_type_ids_remain_stable_and_manual_ids_are_appended() {
    assert_eq!(EventType::PointerMotion.id(), 0);
    assert_eq!(EventType::Hello.id(), 11);
    assert_eq!(EventType::ClipboardStart.id(), 12);
    assert_eq!(EventType::ClipboardChunk.id(), 13);
    assert_eq!(EventType::ClipboardImageStart.id(), 14);
    assert_eq!(EventType::HistorySyncRequest.id(), 22);
    assert_eq!(EventType::ProfileChanged.id(), 33);
    assert_eq!(EventType::ManualFileOffer.id(), 34);
    assert_eq!(EventType::ManualFileDecision.id(), 35);
    assert_eq!(EventType::ManualFileRequest.id(), 36);
    assert_eq!(EventType::ManualFileChunk.id(), 37);
    assert_eq!(EventType::ManualFileComplete.id(), 38);
    assert_eq!(EventType::ManualFileResult.id(), 39);
    assert_eq!(EventType::ManualFileCancel.id(), 40);
}

/// Every message comes back from its bytes as it was.
#[test]
fn messages_come_back_unchanged() {
    let events = vec![
        ProtoEvent::Enter(Position::Bottom),
        ProtoEvent::Leave(3),
        ProtoEvent::Input(InputEvent::Keyboard(KeyboardEvent::Key {
            time: 1,
            key: 30,
            state: 1,
        })),
        ProtoEvent::Input(InputEvent::Pointer(PointerEvent::AxisDiscrete120 {
            axis: 1,
            value: -120,
        })),
        ProtoEvent::ProfileStart {
            request_id: 4,
            width: 1,
            height: 1,
            total_len: 4,
            chunks: 1,
            display_name: "Desk".into(),
        },
        sample_manifest(),
    ];
    for event in events {
        let encoded = event.clone().encode().unwrap();
        assert_eq!(ProtoEvent::decode(&encoded).unwrap(), event);
    }
}

/// The exact bytes of a message.
#[test]
fn numbers_travel_big_endian() {
    assert_eq!(ProtoEvent::Leave(0x0102_0304).encode().unwrap(), vec![9, 1, 2, 3, 4]);
    assert_eq!(ProtoEvent::Ping.encode().unwrap(), vec![6]);
    assert_eq!(
        ProtoEvent::ClipboardTransferCancel {
            transfer_id: 1,
            file_id: None,
            reason: ClipboardCancelReason::User,
        }
        .encode()
        .unwrap()
        .len(),
        18
    );
}

/// On the wire the number 0 stands for no file.
#[test]
fn number_zero_stands_for_no_file() {
    let encoded = ProtoEvent::ClipboardTransferCancel {
        transfer_id: 1,
        file_id: Some(0),
        reason: ClipboardCancelReason::Protocol,
    }
    .encode()
    .unwrap();
    assert!(matches!(
        ProtoEvent::decode(&encoded),
        Ok(ProtoEvent::ClipboardTransferCancel { file_id: None, .. })
    ));
}

/// Each kind of message has a number of its own, and gets its kind back from it.
#[test]
fn event_ids_come_back() {
    for id in 0..=40u8 {
        assert_eq!(EventType::from_id(id).unwrap().id(), id);
    }
    assert_eq!(EventType::from_id(41), None);
}

/// What is said of an error.
#[test]
fn errors_are_told_apart_in_words() {
    let truncated = ProtoEvent::decode(&[EventType::Ack.id()]).unwrap_err().to_text();
    let unknown = ProtoEvent::decode(&[200]).unwrap_err().to_text();
    assert!(!truncated.is_empty());
    assert!(!unknown.is_empty());
    assert_ne!(truncated, unknown);
    assert!(matches!(
        ProtoEvent::decode(&[EventType::Enter.id(), 9]),
        Err(ProtocolError::InvalidPosition(9))
    ));
    assert!(matches!(
        ProtoEvent::ClipboardStart { transfer_id: 1, total_len: 5, chunks: 2 }.encode(),
        Err(ProtocolError::InvalidChunkCount { expected: 1, actual: 2 })
    ));
}

#[test]
fn cut_and_extended_datagrams_are_told_apart() {
    let manifest = ProtoEvent::ClipboardManifest {
        transfer_id: 4,
        entries: vec![
            ClipboardManifestEntry {
                file_id: 1,
                path: "folder".into(),
                kind: ClipboardEntryKind::Directory,
                size: 0,
            },
            ClipboardManifestEntry {
                file_id: 2,
                path: "folder/file".into(),
                kind: ClipboardEntryKind::File,
                size: 9,
            },
        ],
    };
    let result = ProtoEvent::ManualFileResult {
        transfer_id: 3,
        success: false,
        error: Some("disk full".into()),
    };
    for event in [manifest, result, ProtoEvent::Hello { commit: *b"deadbeef" }] {
        let datagram = event.encode().unwrap();
        for n in 0..datagram.len() {
            assert!(matches!(
                ProtoEvent::decode(&datagram[..n]),
                Err(ProtocolError::Truncated)
            ));
        }
        for k in [1, 2, 200] {
            let mut longer = datagram.clone();
            longer.extend(std::iter::repeat(7).take(k));
            assert!(matches!(
                ProtoEvent::decode(&longer),
                Err(ProtocolError::TrailingBytes(more)) if more == k
            ));
        }
    }
}
