//! The plugin protocol on concrete frames and manifests.
use syntra::plugin_api::frames::{FrameReader, Step, MAX_FRAME};
use syntra::plugin_api::manifest::{AdapterManifest, Probe};
use syntra::plugin_api::{
    bounded_payload, build_fingerprint, fingerprint_from_checkout, ApiError, Capabilities,
    Message, RangeResponse, PROTOCOL_VERSION,
};

fn range(data: &str) -> RangeResponse {
    RangeResponse {
        transfer_id: "t".into(),
        request_id: 1,
        offset: 0,
        data_base64: data.into(),
        eof: true,
        error: None,
    }
}

#[test]
fn ranges_are_decoded_within_bounds() {
    assert_eq!(range("aGVsbG8=").decode_data(5).unwrap(), b"hello");
    assert_eq!(range("").decode_data(0).unwrap(), Vec::<u8>::new());
    assert_eq!(range("aGVsbG8=").decode_data(4).unwrap_err(), ApiError::PayloadTooLong);
    assert_eq!(
        range("aGVsbG8").decode_data(5).unwrap_err().to_text(),
        "invalid manifest: invalid range payload"
    );
    let long = "A".repeat(64);
    assert_eq!(range(&long).decode_data(1).unwrap_err(), ApiError::PayloadTooLong);
    assert!(range(&long).decode_data(usize::MAX).is_ok());
    assert_eq!(bounded_payload(None, 1).unwrap_err(), ApiError::InvalidManifest("invalid range payload".into()));
    assert_eq!(bounded_payload(Some(vec![1]), 1).unwrap(), vec![1]);
}

fn read_all(mut bytes: &[u8], size: usize) -> Vec<Result<String, ApiError>> {
    let mut reader = FrameReader::new();
    let mut frames = vec![];
    loop {
        let piece = &bytes[..bytes.len().min(size)];
        let (read, step) = reader.feed(piece);
        bytes = &bytes[read..];
        match step {
            Step::More => {}
            Step::End => return frames,
            Step::Frame(frame) => frames.push(frame),
        }
    }
}

/// Frames are the same in whatever pieces they come.
#[test]
fn frames_do_not_depend_on_pieces() {
    let stream = b"{\"a\":1}\r\nsecond\n\n\xff\nrest";
    let expected = vec![
        Ok("{\"a\":1}".to_string()),
        Ok("second".to_string()),
        Ok(String::new()),
        Ok(String::new()),
        Err(ApiError::TruncatedFrame),
    ];
    for size in [1, 2, 3, 7, 1000] {
        assert_eq!(read_all(stream, size), expected);
    }
}

/// A frame that is too long is refused, and the next one is read.
#[test]
fn long_frames_are_skipped() {
    let mut stream = vec![b'x'; MAX_FRAME];
    stream.push(b'\n');
    stream.extend_from_slice(b"next\n");
    let frames = read_all(&stream, 64 * 1024);
    assert_eq!(frames, vec![Err(ApiError::FrameTooLong), Ok("next".to_string())]);
    let mut fits = vec![b'x'; MAX_FRAME - 1];
    fits.push(b'\n');
    assert_eq!(read_all(&fits, 1 << 20)[0].as_ref().unwrap().len(), MAX_FRAME - 1);
    let endless = vec![b'x'; MAX_FRAME + 2];
    assert_eq!(read_all(&endless, 1 << 20), vec![Err(ApiError::FrameTooLong)]);
    let mut reader = FrameReader::new();
    reader.feed(b"half");
    reader.reset();
    assert_eq!(reader.feed(b"").1, Step::End);
}

fn hello(protocol_version: u32) -> Message {
    Message::Hello {
        protocol_version,
        adapter_id: "a".into(),
        name: "A".into(),
        capabilities: capabilities(),
        metadata: None,
    }
}

fn capabilities() -> Capabilities {
    Capabilities {
        clipboard_read: true,
        paste: false,
        cancel: false,
        requires_live_mount: false,
        mime_types: vec!["text/plain".into()],
    }
}

#[test]
fn greetings_of_other_versions_are_refused() {
    assert_eq!(Message::decode_line(Ok(hello(1))).unwrap(), hello(1));
    assert_eq!(
        Message::decode_line(Ok(hello(2))).unwrap_err().to_text(),
        "unsupported protocol version 2"
    );
    assert_eq!(
        Message::decode_line(Err("eof".into())).unwrap_err().to_text(),
        "invalid JSON line: eof"
    );
    assert_eq!(Message::encode_line(Ok("{}".into())).unwrap(), "{}\n");
    assert!(Message::encode_line(Err("x".into())).is_err());
    let early = syntra::lan_mouse_adapter_api::Message::Hello {
        protocol_version: 3,
        adapter_id: "a".into(),
        name: "A".into(),
        capabilities: capabilities(),
    };
    assert!(syntra::lan_mouse_adapter_api::Message::decode_line(Ok(early)).is_err());
}

fn manifest() -> AdapterManifest {
    AdapterManifest {
        manifest_version: PROTOCOL_VERSION,
        protocol_version: PROTOCOL_VERSION,
        id: "org.example.plugin-1".into(),
        name: "Plugin".into(),
        executable: "plugin".into(),
        args: vec![],
        capabilities: capabilities(),
    }
}

#[test]
fn manifests_are_checked_before_programs() {
    let found = Probe::Found { is_file: true, mode: Some(0o700) };
    assert_eq!(manifest().resolve_executable("/p/plugin".into(), found.clone()).unwrap(), "/p/plugin");
    let text = |m: AdapterManifest, p: Probe| {
        m.resolve_executable("/p".into(), p).unwrap_err().to_text()
    };
    let mut other = manifest();
    other.protocol_version = 2;
    assert_eq!(
        text(other, Probe::Unavailable("x".into())),
        "invalid manifest: unsupported manifest or protocol version"
    );
    let mut spaced = manifest();
    spaced.id = "a b".into();
    assert!(spaced.validate().is_err());
    let mut twice = manifest();
    twice.capabilities.mime_types = vec!["a".into(), "a".into()];
    assert_eq!(
        text(twice, found.clone()),
        "invalid manifest: capabilities must advertise unique MIME types and an operation"
    );
    let mut blank = manifest();
    blank.capabilities.mime_types = vec![" ".into()];
    assert!(blank.validate().is_err());
    let mut idle = manifest();
    idle.capabilities.clipboard_read = false;
    assert!(idle.validate().is_err());
    assert_eq!(
        text(manifest(), Probe::Unavailable("gone".into())),
        "invalid manifest: executable unavailable: gone"
    );
    assert_eq!(
        text(manifest(), Probe::Found { is_file: false, mode: None }),
        "invalid manifest: executable is not a file"
    );
    assert_eq!(
        text(manifest(), Probe::Found { is_file: true, mode: Some(0o644) }),
        "invalid manifest: executable is not executable"
    );
    assert!(manifest()
        .resolve_executable("/p".into(), Probe::Found { is_file: true, mode: None })
        .is_ok());
}

#[test]
fn fingerprints_name_the_checkout() {
    assert_eq!(fingerprint_from_checkout(Some("1.0"), Some("abc"), Some("")), "1.0+abc");
    assert_eq!(
        fingerprint_from_checkout(Some("1.0"), Some("abc"), Some(" M x")),
        "1.0+abc.dirty"
    );
    assert_eq!(fingerprint_from_checkout(None, None, Some("x")), "unknown");
    assert_eq!(build_fingerprint(Some(String::new()), "c".into()), "c");
    assert_eq!(build_fingerprint(Some("g".into()), "c".into()), "g");
}
