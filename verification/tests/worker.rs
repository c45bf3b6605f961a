//! The worker of the history on concrete commands.
use syntra::history::store::{ClearBoundary, HistoryStore};
use syntra::history::worker::{
    can_average, decoded_payload, summarize, thumbnail, timestamp, Command, HistorySummaryContent,
    HistoryWorker, Pixels, Reply,
};
use syntra::history::{
    FileMetadata, HistoryContent, HistoryError, HistoryEventId, HistoryRecord, MergeOutcome,
};

fn worker() -> HistoryWorker {
    HistoryWorker::start(HistoryStore::new(), "this-device".into(), Some("Desk".into()))
}

const NOW: Option<u128> = Some(1_800_000_000_000);

#[test]
fn recording_counts_up_and_changes_the_revision() {
    let mut worker = worker();
    assert_eq!(worker.local_device_id(), "this-device");
    let first = worker.record(HistoryContent::Text("a".into()), NOW, None).unwrap();
    assert_eq!(first.origin_sequence, 1);
    assert_eq!(worker.revision(), 1);
    let event = worker
        .record_event(HistoryContent::Text("b".into()), NOW, None)
        .unwrap();
    assert_eq!(event.event_id.origin_sequence, 2);
    assert_eq!(event.origin_label.as_deref(), Some("Desk"));
    let seen = worker
        .record_observed("peer".into(), None, HistoryContent::Text("c".into()), NOW, None)
        .unwrap();
    assert_eq!(seen.origin_device_id, "peer");
    assert_eq!(seen.origin_sequence, 1);
    assert_eq!(worker.revision(), 3);
    assert_eq!(worker.import(event, None).unwrap(), MergeOutcome::AlreadyPresent);
    assert_eq!(worker.revision(), 3);
}

#[test]
fn pins_change_once() {
    let mut worker = worker();
    let id = worker.record(HistoryContent::Text("a".into()), NOW, None).unwrap();
    assert!(worker.set_pinned(&id, true).unwrap());
    assert!(!worker.set_pinned(&id, true).unwrap());
    assert_eq!(worker.revision(), 2);
    let unknown = HistoryEventId { origin_device_id: "x".into(), origin_sequence: 4 };
    assert!(!worker.set_pinned(&unknown, true).unwrap());
    assert_eq!(worker.store().list().unwrap()[0].pinned, true);
}

#[test]
fn a_repeated_clear_changes_nothing() {
    let mut worker = worker();
    worker.record(HistoryContent::Text("a".into()), NOW, None).unwrap();
    let boundary = worker.snapshot_boundary();
    assert_eq!(worker.apply_clear("op", &boundary).unwrap(), 1);
    assert_eq!(worker.revision(), 2);
    assert_eq!(worker.apply_clear("op", &boundary).unwrap(), 1);
    assert_eq!(worker.revision(), 2);
    assert_eq!(worker.apply_clear("other", &ClearBoundary::new()).unwrap(), 0);
    assert_eq!(worker.revision(), 2);
}

#[test]
fn commands_are_answered_in_kind() {
    let mut worker = worker();
    let reply = worker.handle_command(Command::Record {
        device_id: None,
        label: None,
        content: HistoryContent::Text("needle".into()),
        clock: NOW,
        files_json: None,
    });
    assert!(matches!(reply, Reply::Recorded(Ok(_))));
    let reply = worker.handle_command(Command::Page { query: "NEEDLE".into(), offset: 0, limit: 500 });
    match reply {
        Reply::Page(Ok(page)) => {
            assert_eq!(page.records.len(), 1);
            assert_eq!(page.next_offset, None);
        }
        _ => panic!("a page was asked for"),
    }
    assert!(matches!(
        worker.handle_command(Command::Export { offset: 0, limit: 1 }),
        Reply::Exported(Ok((events, None))) if events.len() == 1
    ));
    assert!(matches!(
        worker.handle_command(Command::SnapshotBoundary),
        Reply::Boundary(b) if b.len() == 1
    ));
    let id = HistoryEventId { origin_device_id: "this-device".into(), origin_sequence: 1 };
    assert!(matches!(
        worker.handle_command(Command::Image { event_id: id.clone() }),
        Reply::Image(Ok(None))
    ));
    assert!(matches!(
        worker.handle_command(Command::Pin { event_id: id, pinned: true }),
        Reply::Pinned(Ok(true))
    ));
    let before_epoch = worker.handle_command(Command::RecordEvent {
        content: HistoryContent::Text("x".into()),
        clock: None,
        files_json: None,
    });
    assert!(matches!(before_epoch, Reply::RecordedEvent(Err(HistoryError::InvalidClock))));
    assert_eq!(
        HistoryError::InvalidClock.to_text(),
        "system clock is before the Unix epoch"
    );
}

fn record(content: HistoryContent) -> HistoryRecord {
    HistoryRecord {
        event_id: HistoryEventId { origin_device_id: "a".into(), origin_sequence: 1 },
        created_at_ms: 5,
        origin_label: None,
        pinned: false,
        content,
    }
}

#[test]
fn summaries_are_bounded() {
    let long = "\u{e9}".repeat(300);
    match summarize(record(HistoryContent::Text(long))).content {
        HistorySummaryContent::Text { preview, truncated } => {
            assert_eq!(preview.len(), 512);
            assert!(truncated);
        }
        _ => panic!("a text was summarized"),
    }
    let odd = format!("a{}", "\u{e9}".repeat(300));
    match summarize(record(HistoryContent::Text(odd))).content {
        HistorySummaryContent::Text { preview, .. } => assert_eq!(preview.len(), 511),
        _ => panic!("a text was summarized"),
    }
    let files = (0..10)
        .map(|n| FileMetadata { name: format!("{n}"), size_bytes: u64::MAX / 4, media_type: None })
        .collect::<Vec<_>>();
    match summarize(record(HistoryContent::Files(files))).content {
        HistorySummaryContent::Files { count, total_size_bytes, names, names_truncated } => {
            assert_eq!(count, 10);
            assert_eq!(total_size_bytes, u64::MAX);
            assert_eq!(names.len(), 8);
            assert!(names_truncated);
        }
        _ => panic!("files were summarized"),
    }
}

/// Raw pixels are scaled to the edge of a thumbnail, and come out as four bytes
/// for each pixel.
#[test]
fn raw_pixels_are_scaled() {
    let pixels = [10, 20, 30, 255].repeat(512 * 256);
    let image = thumbnail(pixels, Some("image/x-rgba8".into()), Some(512), Some(256)).unwrap();
    assert_eq!((image.width, image.height), (Some(256), Some(128)));
    assert_eq!(image.bytes.len(), 256 * 128 * 4);
    assert_eq!(&image.bytes[..4], &[10, 20, 30, 255]);
    assert_eq!(image.media_type.as_deref(), Some("image/x-rgba8"));
}

/// A picture without pixels still gives a thumbnail that can be shown.
#[test]
fn empty_pictures_give_a_thumbnail() {
    let image = thumbnail(vec![], Some("image/x-rgba8".into()), Some(0), Some(0)).unwrap();
    let (width, height) = (image.width.unwrap(), image.height.unwrap());
    assert!(width > 0 && height > 0 && width <= 256 && height <= 256);
    assert_eq!(image.bytes.len() as u32, width * height * 4);
}

#[test]
fn raw_pixels_need_their_dimensions_and_bytes() {
    let error = thumbnail(vec![0; 4], Some("image/x-rgba8".into()), Some(1), None).unwrap_err();
    assert_eq!(error, HistoryError::InvalidPayload("RGBA image is missing dimensions".into()));
    let error = thumbnail(vec![0; 3], Some("image/x-rgba8".into()), Some(1), Some(1)).unwrap_err();
    assert_eq!(error, HistoryError::InvalidPayload("invalid RGBA image byte length".into()));
    let error = thumbnail(
        vec![0; 64],
        Some("image/x-rgba8".into()),
        Some(u32::MAX),
        Some(u32::MAX),
    )
    .unwrap_err();
    assert_eq!(error, HistoryError::InvalidPayload("invalid RGBA image byte length".into()));
}

/// A bitmap of two pixels beside each other, then something that is no image.
#[test]
fn encoded_images_are_decoded() {
    let mut bitmap: Vec<u8> = b"BM".to_vec();
    bitmap.extend_from_slice(&62u32.to_le_bytes());
    bitmap.extend_from_slice(&[0; 4]);
    bitmap.extend_from_slice(&54u32.to_le_bytes());
    bitmap.extend_from_slice(&40u32.to_le_bytes());
    bitmap.extend_from_slice(&2i32.to_le_bytes());
    bitmap.extend_from_slice(&1i32.to_le_bytes());
    bitmap.extend_from_slice(&1u16.to_le_bytes());
    bitmap.extend_from_slice(&24u16.to_le_bytes());
    bitmap.extend_from_slice(&[0; 24]);
    bitmap.extend_from_slice(&[3, 2, 1, 3, 2, 1, 0, 0]);
    let image = thumbnail(bitmap, Some("image/bmp".into()), None, None).unwrap();
    assert_eq!((image.width, image.height), (Some(256), Some(128)));
    assert_eq!(&image.bytes[..4], &[1, 2, 3, 255]);
    let error = thumbnail(vec![1, 2, 3], None, None, None).unwrap_err();
    assert!(error
        .to_text()
        .starts_with("invalid clipboard history payload: cannot decode history image: "));
}

#[test]
fn scaled_pixels_become_an_answer() {
    let image = decoded_payload(Ok(Pixels { width: 1, height: 2, rgba: vec![7; 8] })).unwrap();
    assert_eq!(image.bytes, vec![7; 8]);
    assert_eq!((image.width, image.height), (Some(1), Some(2)));
    assert_eq!(
        decoded_payload(Err("no".into())).unwrap_err(),
        HistoryError::InvalidPayload("cannot decode history image: no".into())
    );
}

#[test]
fn clocks_are_checked() {
    assert_eq!(timestamp(Some(7)).unwrap(), 7);
    assert_eq!(timestamp(None).unwrap_err(), HistoryError::InvalidClock);
    assert_eq!(
        timestamp(Some(1 << 63)).unwrap_err(),
        HistoryError::InvalidPayload("timestamp exceeds SQLite INTEGER".into())
    );
    assert_eq!(timestamp(Some((1 << 63) - 1)).unwrap(), i64::MAX);
}

/// A picture with two bytes for a channel whose blocks are too large for narrow
/// sums is averaged in wider ones, to the same colours.
#[test]
fn large_blocks_are_averaged_in_wider_sums() {
    assert!(can_average(8000, 6000, 2, 1, 256));
    assert!(can_average(100_000, 300, 1, 1, 256));
    assert!(!can_average(100_000, 300, 2, 1, 256));
    assert!(!can_average(100_000, 300, 8, 4, 256));
    assert!(can_average(100_000, 300, 16, 4, 256));
    assert!(can_average(0, 0, 2, 1, 256));
    let encode = |width: u32, height: u32, level: u16| {
        let picture = image::ImageBuffer::from_pixel(width, height, image::Luma([level]));
        let mut bytes = std::io::Cursor::new(Vec::new());
        image::DynamicImage::ImageLuma16(picture)
            .write_to(&mut bytes, image::ImageFormat::Png)
            .unwrap();
        bytes.into_inner()
    };
    let image = thumbnail(encode(512, 256, u16::MAX), None, None, None).unwrap();
    assert_eq!((image.width, image.height), (Some(256), Some(128)));
    assert_eq!(&image.bytes[..4], &[255, 255, 255, 255]);
    let level = 0x80 * 257;
    assert!(!can_average(66_000, 255, 2, 1, 256));
    let image = thumbnail(encode(66_000, 255, level), None, None, None).unwrap();
    assert_eq!((image.width, image.height), (Some(256), Some(1)));
    assert_eq!(image.bytes, [0x80, 0x80, 0x80, 255].repeat(256));
}
