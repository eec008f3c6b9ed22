use guestbook::barcode::BarcodeAssembler;
use guestbook::events::DeviceEvent;
use guestbook::magtek::MagtekAssembler;

#[test]
fn card_frame_across_three_chunks() {
    let mut worker = MagtekAssembler::new();
    assert!(worker.handle_chunk(b"%A").is_none());
    assert!(worker.handle_chunk(b"B^NAME^").is_none());
    match worker.handle_chunk(b"9999999   ?") {
        Some(DeviceEvent::CardParsed(card)) => {
            assert_eq!(card.onecard, "9999999");
            assert_eq!(card.name, "NAME");
        },
        _ => panic!("expected exactly one parsed card"),
    }
    assert_eq!(worker.scan_buffer.len(), 0);
}

#[test]
fn new_swipe_discards_unterminated_buffer() {
    let mut worker = MagtekAssembler::new();
    assert!(worker.handle_chunk(b"%A123").is_none());
    match worker.handle_chunk(b"%B456^X^7777777   ?") {
        Some(DeviceEvent::CardParsed(card)) => {
            assert_eq!(card.onecard, "7777777");
            assert_eq!(card.name, "X");
        },
        _ => panic!("expected the second swipe to decode"),
    }
}

#[test]
fn idle_chunk_without_sentinel_is_discarded() {
    let mut worker = MagtekAssembler::new();
    assert!(worker.handle_chunk(b"leader noise").is_none());
    assert_eq!(worker.scan_buffer.len(), 0);
}

#[test]
fn noise_prefix_before_sentinel_is_stripped() {
    let mut worker = MagtekAssembler::new();
    match worker.handle_chunk(b"N'%B1234567   ^DOE/JOHN^9?") {
        Some(DeviceEvent::CardParsed(card)) => {
            assert_eq!(card.onecard, "1234567");
            assert_eq!(card.name, "DOE/JOHN");
        },
        _ => panic!("expected a parsed card"),
    }
}

#[test]
fn null_filler_bytes_are_dropped() {
    let mut worker = MagtekAssembler::new();
    let chunk: Vec<u8> = b"%B12\x0034\x00567   ^N^\x00?".to_vec();
    match worker.handle_chunk(&chunk) {
        Some(DeviceEvent::CardParsed(card)) => {
            assert_eq!(card.onecard, "1234567");
            assert_eq!(card.name, "N");
        },
        _ => panic!("expected a parsed card"),
    }
}

#[test]
fn unparseable_frame_is_reported_raw() {
    let mut worker = MagtekAssembler::new();
    match worker.handle_chunk(b"%AB?") {
        Some(DeviceEvent::UnparsedFrame(raw)) => assert_eq!(raw, "%AB?"),
        _ => panic!("expected the raw frame back"),
    }
    assert_eq!(worker.scan_buffer.len(), 0);
}

#[test]
fn leader_text_before_sentinel_is_discarded() {
    let mut worker = MagtekAssembler::new();
    assert!(worker.handle_chunk(b"junk%B77").is_none());
    match worker.handle_chunk(b"77777   ^Z^?") {
        Some(DeviceEvent::CardParsed(card)) => {
            assert_eq!(card.onecard, "7777777");
            assert_eq!(card.name, "Z");
        },
        _ => panic!("expected the frame to start at the sentinel"),
    }
    // back to idle: a sentinel-free chunk is discarded again
    assert!(worker.handle_chunk(b"trailing").is_none());
    assert_eq!(worker.scan_buffer.len(), 0);
}

#[test]
fn five_consecutive_errors_emit_one_fatal_event() {
    let mut worker = MagtekAssembler::new();
    for _ in 0..4 {
        assert!(worker.handle_read_error("read failed".to_string()).is_none());
        assert!(!worker.stopped);
    }
    match worker.handle_read_error("read failed".to_string()) {
        Some(DeviceEvent::DeviceFatalError(msg)) => assert_eq!(msg, "read failed"),
        _ => panic!("expected the fatal event at the fifth error"),
    }
    assert!(worker.stopped);
    // termination is idempotent: nothing further comes out
    assert!(worker.handle_read_error("read failed".to_string()).is_none());
    assert!(worker.stopped);
}

#[test]
fn successful_read_resets_error_budget() {
    let mut worker = MagtekAssembler::new();
    for _ in 0..4 {
        assert!(worker.handle_read_error("glitch".to_string()).is_none());
    }
    assert!(worker.handle_chunk(b"").is_none());
    assert_eq!(worker.consecutive_errors, 0);
    for _ in 0..4 {
        assert!(worker.handle_read_error("glitch".to_string()).is_none());
    }
    assert!(!worker.stopped);
}

#[test]
fn barcode_emits_at_seven_digits_without_terminator() {
    let mut worker = BarcodeAssembler::new(0);
    assert!(worker.handle_chunk(b"123", 10).is_none());
    match worker.handle_chunk(b"4567", 20) {
        Some(DeviceEvent::BarcodeParsed(digits)) => assert_eq!(digits, "1234567"),
        _ => panic!("expected the code the instant the seventh digit arrived"),
    }
    assert_eq!(worker.scan_buffer.len(), 0);
}

#[test]
fn barcode_emits_at_nine_digits() {
    let mut worker = BarcodeAssembler::new(0);
    match worker.handle_chunk(b"123456789", 5) {
        Some(DeviceEvent::BarcodeParsed(digits)) => assert_eq!(digits, "123456789"),
        _ => panic!("expected the long badge code"),
    }
}

#[test]
fn barcode_silence_gap_separates_scans() {
    let mut worker = BarcodeAssembler::new(0);
    assert!(worker.handle_chunk(b"123", 100).is_none());
    // 200 ms of silence: the stale digits must not be concatenated
    assert!(worker.handle_chunk(b"4567", 300).is_none());
    match worker.handle_chunk(b"890", 310) {
        Some(DeviceEvent::BarcodeParsed(digits)) => assert_eq!(digits, "4567890"),
        _ => panic!("expected a code built only from the fresh scan"),
    }
}

#[test]
fn barcode_terminator_flushes_short_code() {
    let mut worker = BarcodeAssembler::new(0);
    match worker.handle_chunk(b"12345\n", 10) {
        Some(DeviceEvent::BarcodeParsed(digits)) => assert_eq!(digits, "12345"),
        _ => panic!("expected the terminator to flush the digits"),
    }
    assert_eq!(worker.scan_buffer.len(), 0);
}

#[test]
fn barcode_terminator_alone_just_clears() {
    let mut worker = BarcodeAssembler::new(0);
    assert!(worker.handle_chunk(b"\n", 10).is_none());
    assert_eq!(worker.scan_buffer.len(), 0);
}

#[test]
fn barcode_eight_digits_wait() {
    let mut worker = BarcodeAssembler::new(0);
    assert!(worker.handle_chunk(b"12345678", 10).is_none());
    assert_eq!(worker.scan_buffer.len(), 8);
}

#[test]
fn barcode_read_error_is_fatal_at_once() {
    let mut worker = BarcodeAssembler::new(0);
    match worker.handle_read_error("gone".to_string()) {
        Some(DeviceEvent::DeviceFatalError(msg)) => assert_eq!(msg, "gone"),
        _ => panic!("expected the fatal event on the first error"),
    }
    assert!(worker.stopped);
    assert!(worker.handle_read_error("gone".to_string()).is_none());
}
