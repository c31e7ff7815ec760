use tcp_codec::checksum::Ipv4Addr;
use tcp_codec::tcp::{Flags, TcpError, TcpSegment};

#[test]
fn test_set_get() {
    let a = vec![0u8; 100];
    let mut p = TcpSegment::from_bytes_unchecked(a);

    assert_eq!(p.source_port(), 0);
    p.set_source_port(123);
    assert_eq!(p.source_port(), 123);

    assert_eq!(p.destination_port(), 0);
    p.set_destination_port(322);
    assert_eq!(p.destination_port(), 322);

    assert_eq!(p.sequence_number(), 0);
    p.set_sequence_number(1_234_567);
    assert_eq!(p.sequence_number(), 1_234_567);

    assert_eq!(p.ack_number(), 0);
    p.set_ack_number(345_234);
    assert_eq!(p.ack_number(), 345_234);

    assert_eq!(p.header_len_rsvd_ns(), (0, 0, false));
    assert_eq!(p.header_len(), 0);
    // Header_len must be a multiple of 4 here to be valid.
    let header_len = 60;
    p.set_header_len_rsvd_ns(header_len, true);
    assert_eq!(p.header_len_rsvd_ns(), (header_len, 0, true));
    assert_eq!(p.header_len(), header_len);

    assert_eq!(p.flags_after_ns().bits(), 0);
    p.set_flags_after_ns(Flags::syn().union(Flags::urg()));
    assert_eq!(p.flags_after_ns(), Flags::syn().union(Flags::urg()));

    assert_eq!(p.window_size(), 0);
    p.set_window_size(60000);
    assert_eq!(p.window_size(), 60000);

    assert_eq!(p.checksum(), 0);
    p.set_checksum(4321);
    assert_eq!(p.checksum(), 4321);

    assert_eq!(p.urgent_pointer(), 0);
    p.set_urgent_pointer(5554);
    assert_eq!(p.urgent_pointer(), 5554);
}

#[test]
fn test_constructors() {
    let a = vec![1u8; 1460];
    let b = vec![2u8; 1000];
    let c = vec![3u8; 2000];

    let src_addr = Ipv4Addr::new(10, 1, 2, 3);
    let dst_addr = Ipv4Addr::new(192, 168, 44, 77);
    let src_port = 1234;
    let dst_port = 5678;
    let seq_number = 11_111_222;
    let ack_number = 34_566_543;
    let flags_after_ns = Flags::syn().union(Flags::rst());
    let window_size = 19999;
    let mss_left = 1460;
    let mss_option = Some(mss_left);

    // Fixed header plus the 4-byte MSS option.
    let header_len = 24u8;

    let mut segment = TcpSegment::write_segment(
        a,
        src_port,
        dst_port,
        seq_number,
        ack_number,
        flags_after_ns,
        window_size,
        mss_option,
        mss_left,
        Some((&b, b.len())),
        Some((src_addr, dst_addr)),
    )
    .unwrap();

    assert_eq!(segment.source_port(), src_port);
    assert_eq!(segment.destination_port(), dst_port);
    assert_eq!(segment.sequence_number(), seq_number);
    assert_eq!(segment.ack_number(), ack_number);
    assert_eq!(segment.header_len_rsvd_ns(), (header_len, 0, false));
    assert_eq!(segment.flags_after_ns(), flags_after_ns);
    assert_eq!(segment.window_size(), window_size);

    let checksum = segment.checksum();
    segment.set_checksum(0);
    let computed_checksum = segment.compute_checksum(src_addr, dst_addr);
    assert_eq!(checksum, computed_checksum);

    segment.set_checksum(checksum);
    assert_eq!(segment.compute_checksum(src_addr, dst_addr), 0);

    assert_eq!(segment.urgent_pointer(), 0);

    {
        let options = segment.options_unchecked(header_len.into());
        assert_eq!(options.len(), 4);
        assert_eq!(options[0], 2);
        assert_eq!(options[1], 4);
        assert_eq!(u16::from(options[2]) * 256 + u16::from(options[3]), mss_left);
    }

    // Payload was smaller than mss_left after options.
    assert_eq!(usize::from(segment.len()), usize::from(header_len) + b.len());

    {
        let bytes = segment.into_bytes();
        let segment = TcpSegment::from_bytes(bytes, Some((src_addr, dst_addr))).unwrap();
        assert_eq!(
            segment.parse_mss_option_unchecked(header_len.into()),
            Ok(Some(mss_left))
        );
    }

    // Let's quickly see what happens when the payload buf is larger than the
    // destination buffer.
    let a = vec![1u8; 1460];
    let segment = TcpSegment::write_segment(
        a,
        src_port,
        dst_port,
        seq_number,
        ack_number,
        flags_after_ns,
        window_size,
        mss_option,
        mss_left,
        Some((&c, c.len())),
        Some((src_addr, dst_addr)),
    )
    .unwrap();
    assert_eq!(segment.len(), mss_left);

    // Now let's test the error values for from_bytes().
    let look_for_error = |buf: Vec<u8>, err: TcpError| {
        assert_eq!(
            TcpSegment::from_bytes(buf, Some((src_addr, dst_addr))).unwrap_err(),
            err
        );
    };

    // Header length too short.
    let mut p = TcpSegment::from_bytes_unchecked(segment.into_bytes());
    p.set_header_len_rsvd_ns(19, false);
    let bytes = p.into_bytes();
    look_for_error(bytes.clone(), TcpError::HeaderLen);

    // Header length too large.
    let mut p = TcpSegment::from_bytes_unchecked(bytes);
    p.set_header_len_rsvd_ns(64, false);
    let bytes = p.into_bytes();
    look_for_error(bytes.clone(), TcpError::HeaderLen);

    // The previously set checksum should be valid again once the header
    // length is restored.
    let mut p = TcpSegment::from_bytes_unchecked(bytes);
    p.set_header_len_rsvd_ns(header_len, false);
    assert_eq!(p.compute_checksum(src_addr, dst_addr), 0);

    // Let's make it invalid.
    let checksum = p.checksum();
    p.set_checksum(checksum.wrapping_add(1));
    look_for_error(p.into_bytes(), TcpError::Checksum);

    // Now we use a very small buffer.
    let small_buf = vec![0u8; 1];
    look_for_error(small_buf.clone(), TcpError::SliceTooShort);

    assert_eq!(
        TcpSegment::write_segment(
            small_buf.clone(),
            src_port,
            dst_port,
            seq_number,
            ack_number,
            flags_after_ns,
            window_size,
            mss_option,
            mss_left,
            Some((&b, b.len())),
            Some((src_addr, dst_addr)),
        )
        .unwrap_err(),
        TcpError::SliceTooShort
    );

    // Make sure we get the proper error for an insufficient value of
    // mss_remaining.
    assert_eq!(
        TcpSegment::write_segment(
            small_buf,
            src_port,
            dst_port,
            seq_number,
            ack_number,
            flags_after_ns,
            window_size,
            mss_option,
            0,
            Some((&b, b.len())),
            Some((src_addr, dst_addr)),
        )
        .unwrap_err(),
        TcpError::MssRemaining
    );
}

fn write_valid_segment(payload: &Vec<u8>, mss_option: Option<u16>) -> TcpSegment {
    let buf = vec![0u8; 200];
    let src_addr = Ipv4Addr::new(10, 0, 0, 1);
    let dst_addr = Ipv4Addr::new(10, 0, 0, 2);
    TcpSegment::write_segment(
        buf,
        1111,
        2222,
        7,
        9,
        Flags::ack(),
        512,
        mss_option,
        4000,
        Some((payload, payload.len())),
        Some((src_addr, dst_addr)),
    )
    .unwrap()
}

#[test]
fn test_round_trip_accessors() {
    let payload: Vec<u8> = (0u8..50).collect();
    let src_addr = Ipv4Addr::new(10, 0, 0, 1);
    let dst_addr = Ipv4Addr::new(10, 0, 0, 2);
    let segment = write_valid_segment(&payload, Some(1400));
    let bytes = segment.into_bytes();
    let parsed = TcpSegment::from_bytes(bytes, Some((src_addr, dst_addr))).unwrap();
    assert_eq!(parsed.source_port(), 1111);
    assert_eq!(parsed.destination_port(), 2222);
    assert_eq!(parsed.sequence_number(), 7);
    assert_eq!(parsed.ack_number(), 9);
    assert_eq!(parsed.header_len_rsvd_ns(), (24, 0, false));
    assert_eq!(parsed.flags_after_ns(), Flags::ack());
    assert_eq!(parsed.window_size(), 512);
    assert_eq!(parsed.urgent_pointer(), 0);
    assert_eq!(parsed.len(), 24 + 50);
    assert_eq!(parsed.payload_len(), 50);
    assert_eq!(parsed.payload(), payload.as_slice());
    assert_eq!(parsed.parse_mss_option_unchecked(24), Ok(Some(1400)));
}

#[test]
fn test_checksum_idempotent_and_sensitive() {
    let payload = vec![5u8; 30];
    let src_addr = Ipv4Addr::new(172, 16, 5, 5);
    let dst_addr = Ipv4Addr::new(172, 16, 5, 6);
    let buf = vec![0u8; 100];
    let mut segment = TcpSegment::write_segment(
        buf,
        80,
        8080,
        1,
        2,
        Flags::psh(),
        100,
        None,
        2000,
        Some((&payload, payload.len())),
        Some((src_addr, dst_addr)),
    )
    .unwrap();
    // Zeroing the checksum field and recomputing over identical bytes always
    // reproduces the same value.
    let written = segment.checksum();
    segment.set_checksum(0);
    let first = segment.compute_checksum(src_addr, dst_addr);
    let second = segment.compute_checksum(src_addr, dst_addr);
    assert_eq!(first, second);
    assert_eq!(first, written);
    // Flipping one payload byte changes the computed checksum for this
    // mutation, deterministically.
    let mut bytes = segment.into_bytes();
    bytes[25] ^= 1;
    let mutated = TcpSegment::from_bytes_unchecked(bytes);
    let third = mutated.compute_checksum(src_addr, dst_addr);
    assert_ne!(first, third);
}

#[test]
fn test_checksum_known_value() {
    // A 20-byte header with small field values, between 10.0.0.1 and
    // 10.0.0.2: the one's-complement checksum comes out at a value computed
    // independently by hand.
    let src_addr = Ipv4Addr::new(10, 0, 0, 1);
    let dst_addr = Ipv4Addr::new(10, 0, 0, 2);
    let segment = TcpSegment::write_segment(
        vec![0u8; 20],
        1,
        2,
        3,
        4,
        Flags::ack(),
        5,
        None,
        100,
        None,
        Some((src_addr, dst_addr)),
    )
    .unwrap();
    assert_eq!(segment.checksum(), 0x9bc3);
}

#[test]
fn test_header_len_boundaries() {
    // from_bytes without checksum verification, over a 100-byte buffer.
    let set_hl = |hl: u8| {
        let mut p = TcpSegment::from_bytes_unchecked(vec![0u8; 100]);
        p.set_header_len_rsvd_ns(hl, false);
        p.into_bytes()
    };
    assert_eq!(
        TcpSegment::from_bytes(set_hl(0), None).unwrap_err(),
        TcpError::HeaderLen
    );
    assert_eq!(
        TcpSegment::from_bytes(set_hl(19), None).unwrap_err(),
        TcpError::HeaderLen
    );
    assert!(TcpSegment::from_bytes(set_hl(20), None).is_ok());
    assert!(TcpSegment::from_bytes(set_hl(60), None).is_ok());
    assert_eq!(
        TcpSegment::from_bytes(set_hl(64), None).unwrap_err(),
        TcpError::HeaderLen
    );
    // A declared header length longer than the segment fails too.
    let mut p = TcpSegment::from_bytes_unchecked(vec![0u8; 24]);
    p.set_header_len_rsvd_ns(28, false);
    assert_eq!(
        TcpSegment::from_bytes(p.into_bytes(), None).unwrap_err(),
        TcpError::HeaderLen
    );
}

#[test]
fn test_mss_boundaries() {
    let payload = vec![9u8; 10];
    // A written MSS of 99 is found but rejected as under the sanity floor.
    let segment = write_valid_segment(&payload, Some(99));
    assert_eq!(
        segment.parse_mss_option_unchecked(24),
        Err(TcpError::MssOption)
    );
    // 100 succeeds and is returned unchanged.
    let segment = write_valid_segment(&payload, Some(100));
    assert_eq!(segment.parse_mss_option_unchecked(24), Ok(Some(100)));
    // Absence of an MSS option yields no value, not an error.
    let segment = write_valid_segment(&payload, None);
    assert_eq!(segment.parse_mss_option_unchecked(20), Ok(None));
}

#[test]
fn test_mss_option_scan() {
    // Hand-built options region: NOP, NOP, MSS(0x05b4 = 1460).
    let mut bytes = vec![0u8; 28];
    let mut p = TcpSegment::from_bytes_unchecked(bytes.clone());
    p.set_header_len_rsvd_ns(28, false);
    bytes = p.into_bytes();
    bytes[20] = 1;
    bytes[21] = 1;
    bytes[22] = 2;
    bytes[23] = 4;
    bytes[24] = 0x05;
    bytes[25] = 0xb4;
    let p = TcpSegment::from_bytes_unchecked(bytes.clone());
    assert_eq!(p.parse_mss_option_unchecked(28), Ok(Some(1460)));

    // An end-of-list kind stops the scan before the MSS option.
    bytes[20] = 0;
    let p = TcpSegment::from_bytes_unchecked(bytes.clone());
    assert_eq!(p.parse_mss_option_unchecked(28), Ok(None));

    // An unknown kind skips by its declared length.
    bytes[20] = 7;
    bytes[21] = 2;
    let p = TcpSegment::from_bytes_unchecked(bytes.clone());
    assert_eq!(p.parse_mss_option_unchecked(28), Ok(Some(1460)));

    // An unknown kind whose declared length is zero stops the scan.
    bytes[21] = 0;
    let p = TcpSegment::from_bytes_unchecked(bytes);
    assert_eq!(p.parse_mss_option_unchecked(28), Ok(None));
}

#[test]
fn test_payload_truncation() {
    // Payload buffer of 2000 bytes, declared max-readable 2000, an MSS
    // budget of 1460, and a 1460-byte destination buffer: the segment comes
    // out at exactly 1460 bytes.
    let buf = vec![0u8; 1460];
    let payload = vec![3u8; 2000];
    let src_addr = Ipv4Addr::new(10, 1, 2, 3);
    let dst_addr = Ipv4Addr::new(192, 168, 44, 77);
    let segment = TcpSegment::write_segment(
        buf,
        1234,
        5678,
        1,
        1,
        Flags::ack(),
        1000,
        Some(1460),
        1460,
        Some((&payload, 2000)),
        Some((src_addr, dst_addr)),
    )
    .unwrap();
    assert_eq!(segment.len(), 1460);
}

#[test]
fn test_insufficient_buffer() {
    let payload = vec![1u8; 10];
    // A 1-byte buffer cannot hold even the fixed header.
    let r = TcpSegment::write_incomplete_segment(
        vec![0u8; 1],
        0,
        0,
        Flags::empty(),
        0,
        None,
        1460,
        Some((&payload, payload.len())),
    );
    assert_eq!(r.unwrap_err(), TcpError::SliceTooShort);
    // With an MSS option asked for but a budget of zero, the budget check
    // fails first, even given a sufficiently large buffer.
    let r = TcpSegment::write_incomplete_segment(
        vec![0u8; 100],
        0,
        0,
        Flags::empty(),
        0,
        Some(1460),
        0,
        Some((&payload, payload.len())),
    );
    assert_eq!(r.unwrap_err(), TcpError::MssRemaining);
}

#[test]
fn test_empty_payload_error() {
    let payload = vec![1u8; 10];
    // A payload is requested, but the buffer has room for the header alone.
    let r = TcpSegment::write_incomplete_segment(
        vec![0u8; 20],
        0,
        0,
        Flags::empty(),
        0,
        None,
        1460,
        Some((&payload, payload.len())),
    );
    assert_eq!(r.unwrap_err(), TcpError::EmptyPayload);
    // A payload is requested, but its declared readable length is zero.
    let r = TcpSegment::write_incomplete_segment(
        vec![0u8; 100],
        0,
        0,
        Flags::empty(),
        0,
        None,
        1460,
        Some((&payload, 0)),
    );
    assert_eq!(r.unwrap_err(), TcpError::EmptyPayload);
}

#[test]
fn test_checksum_mismatch() {
    // Given a wire-valid segment, flipping one payload byte without
    // recomputing the checksum fails verification, while parsing without
    // verification still succeeds.
    let payload = vec![7u8; 40];
    let src_addr = Ipv4Addr::new(10, 0, 0, 1);
    let dst_addr = Ipv4Addr::new(10, 0, 0, 2);
    let segment = write_valid_segment(&payload, Some(1400));
    let mut bytes = segment.into_bytes();
    bytes[30] ^= 1;
    assert_eq!(
        TcpSegment::from_bytes(bytes.clone(), Some((src_addr, dst_addr))).unwrap_err(),
        TcpError::Checksum
    );
    assert!(TcpSegment::from_bytes(bytes, None).is_ok());
}

#[test]
fn test_incomplete_then_finalize() {
    // The staged write leaves ports and checksum to finalize.
    let payload = vec![8u8; 16];
    let src_addr = Ipv4Addr::new(192, 168, 1, 1);
    let dst_addr = Ipv4Addr::new(192, 168, 1, 2);
    let incomplete = TcpSegment::write_incomplete_segment(
        vec![0u8; 120],
        42,
        43,
        Flags::syn(),
        300,
        Some(536),
        600,
        Some((&payload, payload.len())),
    )
    .unwrap();
    let segment = incomplete.finalize(20, 21, Some((src_addr, dst_addr)));
    assert_eq!(segment.source_port(), 20);
    assert_eq!(segment.destination_port(), 21);
    assert_eq!(segment.sequence_number(), 42);
    assert_eq!(segment.ack_number(), 43);
    assert_eq!(segment.len(), 24 + 16);
    assert_eq!(segment.compute_checksum(src_addr, dst_addr), 0);
}

#[test]
fn test_payload_mut() {
    let mut p = TcpSegment::from_bytes_unchecked(vec![0u8; 30]);
    p.set_header_len_rsvd_ns(20, false);
    {
        let payload = p.payload_mut();
        assert_eq!(payload.len(), 10);
        payload[0] = 9;
    }
    assert_eq!(p.payload()[0], 9);
    assert_eq!(p.payload_len(), 10);
}
