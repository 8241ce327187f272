use renderer::channel::{
    decode_header, encode_header, read_body, read_control_frame, read_frame, write_body,
    write_frame, ChannelError, Cursor, Frame, FrameKind, HEADER_BYTES, KIND_BODY, KIND_CONTROL,
    MAX_BODY_CHUNK_BYTES, MAX_CONTROL_BYTES, PROTOCOL_VERSION,
};

fn header(kind: u8, flags: u16, request: u64, length: u32) -> Vec<u8> {
    let mut bytes = Vec::with_capacity(HEADER_BYTES);
    bytes.push(PROTOCOL_VERSION);
    bytes.push(kind);
    bytes.extend_from_slice(&flags.to_be_bytes());
    bytes.extend_from_slice(&request.to_be_bytes());
    bytes.extend_from_slice(&length.to_be_bytes());
    bytes
}

#[test]
fn body_frames_round_trip_at_the_cap() {
    let payload = vec![7u8; MAX_BODY_CHUNK_BYTES];
    let mut bytes = Vec::new();
    write_body(&mut bytes, 42, &payload).expect("write");
    let mut reader = Cursor::new(bytes);
    let mut buffer = Vec::new();
    let request = read_body(&mut reader, &mut buffer)
        .expect("read")
        .expect("one frame");
    assert_eq!(request, 42);
    assert_eq!(buffer, payload);
    assert!(read_body(&mut reader, &mut buffer)
        .expect("clean close")
        .is_none());
}

#[test]
fn oversized_payloads_fail_before_write() {
    let mut out = Vec::new();
    let error = write_body(&mut out, 1, &vec![0u8; MAX_BODY_CHUNK_BYTES + 1])
        .expect_err("oversized body");
    assert_eq!(error, ChannelError::Oversized);
    assert!(out.is_empty());

    let message = serde_json::to_vec(&serde_json::Value::String("x".repeat(MAX_CONTROL_BYTES)))
        .expect("serialize");
    let error = write_frame(&mut out, FrameKind::Control, 0, &message).expect_err("oversized control");
    assert_eq!(error, ChannelError::Oversized);
    assert!(out.is_empty());
}

#[test]
fn oversized_lengths_fail_before_allocation() {
    for (kind, length) in [
        (KIND_CONTROL, u32::try_from(MAX_CONTROL_BYTES + 1).expect("fits")),
        (KIND_BODY, u32::try_from(MAX_BODY_CHUNK_BYTES + 1).expect("fits")),
    ] {
        let mut reader = Cursor::new(header(kind, 0, 0, length));
        let mut buffer = Vec::new();
        let error = read_frame(&mut reader, &mut buffer).expect_err("oversized length");
        assert_eq!(error, ChannelError::FrameTooLarge);
        assert!(buffer.is_empty());
    }
}

#[test]
fn malformed_headers_fail_closed() {
    let mut buffer = Vec::new();

    let mut bad_version = header(KIND_CONTROL, 0, 0, 0);
    bad_version[0] = PROTOCOL_VERSION + 1;
    assert!(read_frame(&mut Cursor::new(bad_version), &mut buffer).is_err());

    assert!(read_frame(&mut Cursor::new(header(9, 0, 0, 0)), &mut buffer).is_err());
    assert!(read_frame(&mut Cursor::new(header(KIND_CONTROL, 1, 0, 0)), &mut buffer).is_err());

    assert!(read_control_frame(&mut Cursor::new(header(KIND_BODY, 0, 1, 0)), &mut buffer).is_err());
    assert!(read_body(&mut Cursor::new(header(KIND_CONTROL, 0, 0, 0)), &mut buffer).is_err());
}

#[test]
fn truncated_and_invalid_control_frames_fail_closed() {
    let mut buffer = Vec::new();

    let mut partial = header(KIND_CONTROL, 0, 0, 4);
    partial.push(b'{');
    assert!(read_frame(&mut Cursor::new(partial), &mut buffer).is_err());

    let mut invalid_json = header(KIND_CONTROL, 0, 0, 1);
    invalid_json.push(b'{');
    let mut reader = Cursor::new(invalid_json);
    assert_eq!(read_control_frame(&mut reader, &mut buffer), Ok(true));
    assert!(serde_json::from_slice::<serde_json::Value>(&buffer).is_err());
}

#[test]
fn header_errors_name_the_failed_check() {
    let mut buffer = Vec::new();
    let mut bad_version = header(KIND_CONTROL, 0, 0, 0);
    bad_version[0] = PROTOCOL_VERSION + 1;
    assert_eq!(
        read_frame(&mut Cursor::new(bad_version), &mut buffer),
        Err(ChannelError::UnsupportedVersion)
    );
    assert_eq!(
        read_frame(&mut Cursor::new(header(9, 0, 0, 0)), &mut buffer),
        Err(ChannelError::UnknownKind)
    );
    assert_eq!(
        read_frame(&mut Cursor::new(header(KIND_CONTROL, 1, 0, 0)), &mut buffer),
        Err(ChannelError::NonzeroFlags)
    );
    assert_eq!(
        read_frame(&mut Cursor::new(vec![PROTOCOL_VERSION, KIND_BODY]), &mut buffer),
        Err(ChannelError::Truncated)
    );
    assert_eq!(
        read_control_frame(&mut Cursor::new(header(KIND_BODY, 0, 1, 0)), &mut buffer),
        Err(ChannelError::ExpectedControl)
    );
    assert_eq!(
        read_body(&mut Cursor::new(header(KIND_CONTROL, 0, 0, 0)), &mut buffer),
        Err(ChannelError::ExpectedBody)
    );
    assert_eq!(ChannelError::Oversized.message(), "renderer IPC payload exceeds limit");
    assert_eq!(ChannelError::FrameTooLarge.message(), "renderer IPC frame exceeds limit");
}

#[test]
fn header_layout_is_big_endian() {
    let bytes = encode_header(FrameKind::Body, 0x0102_0304_0506_0708, 0x0000_0A0B);
    assert_eq!(
        bytes,
        vec![1, 1, 0, 0, 1, 2, 3, 4, 5, 6, 7, 8, 0, 0, 0x0A, 0x0B]
    );
    assert_eq!(
        decode_header(&bytes),
        Ok((Frame { kind: FrameKind::Body, request: 0x0102_0304_0506_0708 }, 0x0A0B))
    );
    let too_long = encode_header(FrameKind::Body, 1, 0x0A0B_0C0D);
    assert_eq!(decode_header(&too_long), Err(ChannelError::FrameTooLarge));
}

#[test]
fn frames_read_back_in_order() {
    let mut bytes = Vec::new();
    write_frame(&mut bytes, FrameKind::Control, 0, b"{}").expect("control");
    write_body(&mut bytes, 5, b"abc").expect("body");
    let mut reader = Cursor::new(bytes);
    let mut buffer = Vec::new();
    assert_eq!(read_control_frame(&mut reader, &mut buffer), Ok(true));
    assert_eq!(buffer, b"{}".to_vec());
    assert_eq!(read_body(&mut reader, &mut buffer), Ok(Some(5)));
    assert_eq!(buffer, b"abc".to_vec());
    assert_eq!(reader.remaining_len(), 0);
    assert_eq!(read_control_frame(&mut reader, &mut buffer), Ok(false));
}

#[test]
fn frame_kinds_map_to_wire_bytes() {
    assert_eq!(FrameKind::Control.wire(), KIND_CONTROL);
    assert_eq!(FrameKind::Body.wire(), KIND_BODY);
    assert_eq!(FrameKind::from_wire(KIND_BODY), Some(FrameKind::Body));
    assert_eq!(FrameKind::from_wire(2), None);
    assert_eq!(FrameKind::Control.max_payload(), MAX_CONTROL_BYTES);
    assert_eq!(FrameKind::Body.max_payload(), MAX_BODY_CHUNK_BYTES);
}

#[test]
fn control_frames_belong_to_no_request() {
    let mut reader = Cursor::new(vec![1u8, 0, 0, 0, 0, 0, 0, 0, 0, 0, 0, 7, 0, 0, 0, 0]);
    let mut buffer = Vec::new();
    let frame = read_frame(&mut reader, &mut buffer).expect("read").expect("one frame");
    assert_eq!(frame, Frame { kind: FrameKind::Control, request: 0 });
    let mut bytes = Vec::new();
    write_frame(&mut bytes, FrameKind::Body, 7, b"x").expect("body");
    let frame = read_frame(&mut Cursor::new(bytes), &mut buffer).expect("read").expect("one frame");
    assert_eq!(frame, Frame { kind: FrameKind::Body, request: 7 });
}
