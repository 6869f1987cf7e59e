use usbdbg::console::{log_poll_step, prepare_command, LogStep};
use usbdbg::descriptor::{
    billboard_fields, bos_full_request, bos_header_request, bos_total_length,
    find_billboard_capabilities, string_descriptor_request, utf16_units,
};
use usbdbg::echo::{frame_valid_len, EchoState};
use usbdbg::errors::{log_error_is_fatal, shell_error_is_fatal, SessionEnd, TransportError};
use usbdbg::hex::{byte_to_hex, parse_hex_u16};
use usbdbg::protocol::{
    init_log_request, poll_log_request, read_register_request, write_register_request,
    ControlClass, Direction, Recipient,
};
use usbdbg::shell::{parse_command, tokenize, Command};
use usbdbg::supervisor::{
    session_outcome_event, supervisor_step, SupervisorAction, SupervisorEvent, SupervisorState,
};
use usbdbg::DeviceAddress;

// --- Echo-suppression decoder ---

#[test]
fn frame_valid_len_finds_first_nul() {
    assert_eq!(frame_valid_len(b"boot ok\n"), 8);
    assert_eq!(frame_valid_len(b"ok\n\0\0\0\0\0"), 3);
    assert_eq!(frame_valid_len(b"\0\0\0\0\0\0\0\0"), 0);
    assert_eq!(frame_valid_len(b""), 0);
    assert_eq!(frame_valid_len(b"ab\0cd"), 2);
}

#[test]
fn passthrough_prints_frame_up_to_nul() {
    let mut st = EchoState::new();
    let out = st.feed_frame(b"ab\0cd\0ef");
    assert_eq!(out, b"ab".to_vec());
    assert!(!st.suppressing);
}

#[test]
fn log_stream_across_two_polls_prints_once() {
    // Device streams "boot ok\n" split over two frames; the second is
    // NUL-padded to the fixed frame size.
    let mut st = EchoState::new();
    let mut printed = Vec::new();
    printed.extend_from_slice(&st.feed_frame(b"boot "));
    printed.extend_from_slice(&st.feed_frame(b"ok\n\0\0\0\0\0"));
    assert_eq!(printed, b"boot ok\n".to_vec());
}

#[test]
fn echo_of_sent_command_is_hidden() {
    // Operator types "status" while idle: the console suppresses, sends
    // "status\r", and the firmware echoes "status\r\n" into the log.
    let mut st = EchoState::new();
    let (payload, _req) = prepare_command(&mut st, b"status");
    assert_eq!(payload, b"status\r".to_vec());
    assert!(st.suppressing);
    let out = st.feed_frame(b"status\r\n");
    assert_eq!(out, Vec::<u8>::new());
    assert!(!st.suppressing);
    let out = st.feed_frame(b"ready\n\0\0");
    assert_eq!(out, b"ready\n".to_vec());
}

#[test]
fn terminator_split_across_frames_is_detected() {
    let mut st = EchoState::new();
    st.begin_command();
    let out = st.feed_frame(b"cmd\r");
    assert_eq!(out, Vec::<u8>::new());
    assert!(st.suppressing);
    let out = st.feed_frame(b"\nrest");
    assert_eq!(out, b"rest".to_vec());
    assert!(!st.suppressing);
}

#[test]
fn suppression_without_terminator_drops_everything() {
    let mut st = EchoState::new();
    st.begin_command();
    let out = st.feed_frame(b"echoed text with no pair");
    assert_eq!(out, Vec::<u8>::new());
    assert!(st.suppressing);
}

#[test]
fn lone_lf_does_not_end_suppression() {
    let mut st = EchoState::new();
    st.begin_command();
    let out = st.feed_frame(b"a\nb\r\nc");
    assert_eq!(out, b"c".to_vec());
    assert!(!st.suppressing);
}

// --- Console decisions ---

#[test]
fn poll_frame_is_printed() {
    let mut st = EchoState::new();
    let r = log_poll_step(&mut st, Ok(b"hi\0\0\0\0\0\0".to_vec()));
    match r {
        LogStep::Print(out) => assert_eq!(out, b"hi".to_vec()),
        _ => panic!("expected Print"),
    }
}

#[test]
fn poll_timeout_waits() {
    let mut st = EchoState::new();
    let r = log_poll_step(&mut st, Err(TransportError::Timeout));
    assert!(matches!(r, LogStep::Wait));
}

#[test]
fn poll_failure_ends_session() {
    let mut st = EchoState::new();
    let r = log_poll_step(&mut st, Err(TransportError::Other));
    assert!(matches!(r, LogStep::EndSession(TransportError::Other)));
}

#[test]
fn command_line_is_trimmed_and_terminated() {
    let mut st = EchoState::new();
    let (payload, req) = prepare_command(&mut st, b"reset now  \t\r\n");
    assert_eq!(payload, b"reset now\r".to_vec());
    assert_eq!(req.request, 0x22);
    assert_eq!(req.length, payload.len() as u16);
    assert_eq!(req.direction, Direction::Out);
    assert_eq!(req.recipient, Recipient::Interface);
}

#[test]
fn empty_line_sends_bare_terminator() {
    let mut st = EchoState::new();
    let (payload, req) = prepare_command(&mut st, b"   ");
    assert_eq!(payload, b"\r".to_vec());
    assert_eq!(req.length, 1);
    assert!(st.suppressing);
}

// --- Protocol encoding ---

#[test]
fn init_log_request_fields() {
    let r = init_log_request();
    assert_eq!(r.direction, Direction::Out);
    assert_eq!(r.class, ControlClass::Vendor);
    assert_eq!(r.recipient, Recipient::Interface);
    assert_eq!(r.request, 0x22);
    assert_eq!(r.value, 0);
    assert_eq!(r.index, 0);
    assert_eq!(r.length, 0);
}

#[test]
fn poll_log_request_fields() {
    let r = poll_log_request();
    assert_eq!(r.direction, Direction::In);
    assert_eq!(r.class, ControlClass::Vendor);
    assert_eq!(r.recipient, Recipient::Device);
    assert_eq!(r.request, 0x10);
    assert_eq!(r.length, 8);
}

#[test]
fn read_register_request_fields() {
    let r = read_register_request(0x34, 0x1000);
    assert_eq!(r.direction, Direction::In);
    assert_eq!(r.request, 0x12);
    assert_eq!(r.value, 0x34);
    assert_eq!(r.index, 0x1000);
    assert_eq!(r.length, 8);
}

#[test]
fn write_register_packs_value() {
    let r = write_register_request(0x10, 0x00, 0xff);
    assert_eq!(r.direction, Direction::In);
    assert_eq!(r.request, 0x11);
    assert_eq!(r.value, 0x10ff);
    assert_eq!(r.index, 0x00);
    assert_eq!(r.length, 0);
}

#[test]
fn write_register_ignores_upper_addr_bits() {
    let low = write_register_request(0x0010, 0x2, 0xab);
    let high = write_register_request(0xcd10, 0x2, 0xab);
    assert_eq!(low.value, high.value);
    assert_eq!(low.value, 0x10ab);
}

// --- Hex parsing and printing ---

#[test]
fn hex_prefixes_and_cases_parse_alike() {
    assert_eq!(parse_hex_u16(b"0x2A"), Some(42));
    assert_eq!(parse_hex_u16(b"0X2a"), Some(42));
    assert_eq!(parse_hex_u16(b"2a"), Some(42));
}

#[test]
fn bad_hex_tokens_fail() {
    assert_eq!(parse_hex_u16(b""), None);
    assert_eq!(parse_hex_u16(b"zz"), None);
    assert_eq!(parse_hex_u16(b"0x"), None);
    assert_eq!(parse_hex_u16(b"12g4"), None);
    assert_eq!(parse_hex_u16(b"10000"), None);
}

#[test]
fn hex_bounds_parse() {
    assert_eq!(parse_hex_u16(b"0"), Some(0));
    assert_eq!(parse_hex_u16(b"ffff"), Some(0xffff));
    assert_eq!(parse_hex_u16(b"0xFFFF"), Some(0xffff));
    assert_eq!(parse_hex_u16(b"00000001"), Some(1));
}

#[test]
fn bytes_print_as_two_digits() {
    assert_eq!(byte_to_hex(0x00), (b'0', b'0'));
    assert_eq!(byte_to_hex(0xab), (b'A', b'B'));
    assert_eq!(byte_to_hex(0x5f), (b'5', b'F'));
}

// --- Register shell grammar ---

#[test]
fn tokenize_splits_on_whitespace() {
    let toks = tokenize(b"  r \t 1  2 ");
    assert_eq!(toks, vec![b"r".to_vec(), b"1".to_vec(), b"2".to_vec()]);
    assert_eq!(tokenize(b""), Vec::<Vec<u8>>::new());
    assert_eq!(tokenize(b"   "), Vec::<Vec<u8>>::new());
}

#[test]
fn write_command_parses_and_packs() {
    // `w 10 0 FF` becomes a write of value 0xFF to register 0x10, and the
    // wire request packs wValue = 0x10FF with wIndex = 0 and length 0.
    let cmd = parse_command(b"w 10 0 FF");
    assert_eq!(cmd, Command::Write { addr: 0x10, offset: 0x00, value: 0xff });
    match cmd {
        Command::Write { addr, offset, value } => {
            let req = write_register_request(addr, offset, value);
            assert_eq!(req.value, 0x10ff);
            assert_eq!(req.index, 0x0000);
            assert_eq!(req.length, 0);
        },
        _ => panic!("expected Write"),
    }
}

#[test]
fn read_command_parses() {
    assert_eq!(parse_command(b"r 0x1A 2"), Command::Read { addr: 0x1a, offset: 2 });
    assert_eq!(parse_command(b" r 1 2 "), Command::Read { addr: 1, offset: 2 });
}

#[test]
fn exit_words_parse() {
    assert_eq!(parse_command(b"exit"), Command::Exit);
    assert_eq!(parse_command(b"quit"), Command::Exit);
    assert_eq!(parse_command(b"q"), Command::Exit);
}

#[test]
fn write_value_truncates_to_eight_bits() {
    assert_eq!(
        parse_command(b"w 10 0 1FF"),
        Command::Write { addr: 0x10, offset: 0, value: 0xff },
    );
}

#[test]
fn malformed_commands_are_invalid() {
    assert_eq!(parse_command(b""), Command::Invalid);
    assert_eq!(parse_command(b"x"), Command::Invalid);
    assert_eq!(parse_command(b"EXIT"), Command::Invalid);
    assert_eq!(parse_command(b"r 1"), Command::Invalid);
    assert_eq!(parse_command(b"r 1 2 3"), Command::Invalid);
    assert_eq!(parse_command(b"w 10 0"), Command::Invalid);
    assert_eq!(parse_command(b"r 1 zz"), Command::Invalid);
    assert_eq!(parse_command(b"w 10000 0 1"), Command::Invalid);
}

// --- Error classification ---

#[test]
fn log_console_fatality() {
    assert!(!log_error_is_fatal(&TransportError::Timeout));
    assert!(log_error_is_fatal(&TransportError::Disconnected));
    assert!(log_error_is_fatal(&TransportError::Other));
}

#[test]
fn register_shell_fatality() {
    assert!(!shell_error_is_fatal(&TransportError::Timeout));
    assert!(shell_error_is_fatal(&TransportError::Disconnected));
    assert!(!shell_error_is_fatal(&TransportError::Other));
}

// --- Reconnect supervisor ---

#[test]
fn discovery_outcomes_drive_the_loop() {
    let (st, act) =
        supervisor_step(SupervisorState::Disconnected, SupervisorEvent::DiscoveryFailed);
    assert_eq!(st, SupervisorState::Disconnected);
    assert_eq!(act, SupervisorAction::Backoff);
    let (st, act) = supervisor_step(st, SupervisorEvent::DiscoverySucceeded);
    assert_eq!(st, SupervisorState::Active);
    assert_eq!(act, SupervisorAction::RunSession);
}

#[test]
fn repeated_failures_then_success_reach_active() {
    let mut st = SupervisorState::Disconnected;
    for _ in 0..100 {
        let (next, act) = supervisor_step(st, SupervisorEvent::DiscoveryFailed);
        assert_eq!(next, SupervisorState::Disconnected);
        assert_eq!(act, SupervisorAction::Backoff);
        st = next;
    }
    let (next, act) = supervisor_step(st, SupervisorEvent::DiscoverySucceeded);
    assert_eq!(next, SupervisorState::Active);
    assert_eq!(act, SupervisorAction::RunSession);
}

#[test]
fn clean_exit_ends_the_program() {
    let ev = session_outcome_event(&SessionEnd::Clean);
    assert_eq!(ev, SupervisorEvent::SessionEndedClean);
    let (_, act) = supervisor_step(SupervisorState::Active, ev);
    assert_eq!(act, SupervisorAction::ExitProgram);
}

#[test]
fn unplug_mid_poll_triggers_reconnect() {
    // Device disappears while the log console is polling: the poll comes
    // back Disconnected, the session ends fatally, the supervisor
    // reconnects and retries discovery until the device reappears.
    let mut echo = EchoState::new();
    let step = log_poll_step(&mut echo, Err(TransportError::Disconnected));
    let end = match step {
        LogStep::EndSession(e) => SessionEnd::Fatal(e),
        _ => panic!("expected EndSession"),
    };
    let ev = session_outcome_event(&end);
    assert_eq!(ev, SupervisorEvent::SessionEndedFatal);
    let (st, act) = supervisor_step(SupervisorState::Active, ev);
    assert_eq!(st, SupervisorState::Disconnected);
    assert_eq!(act, SupervisorAction::Reconnect);
    let (st, act) = supervisor_step(st, SupervisorEvent::DiscoveryFailed);
    assert_eq!(act, SupervisorAction::Backoff);
    let (st, _) = supervisor_step(st, SupervisorEvent::DiscoverySucceeded);
    assert_eq!(st, SupervisorState::Active);
}

// --- Descriptor tooling ---

#[test]
fn default_target_address() {
    let a = DeviceAddress::default_target();
    assert_eq!(a.vendor_id, 0x343c);
    assert_eq!(a.product_id, 0x5361);
}

#[test]
fn bos_requests_are_standard_gets() {
    let h = bos_header_request();
    assert_eq!(h.class, ControlClass::Standard);
    assert_eq!(h.request, 0x06);
    assert_eq!(h.value, 0x0f00);
    assert_eq!(h.length, 5);
    let f = bos_full_request(0x2c);
    assert_eq!(f.value, 0x0f00);
    assert_eq!(f.length, 0x2c);
}

#[test]
fn string_request_names_index_and_language() {
    let r = string_descriptor_request(4);
    assert_eq!(r.class, ControlClass::Standard);
    assert_eq!(r.request, 0x06);
    assert_eq!(r.value, 0x0304);
    assert_eq!(r.index, 0x0409);
    assert_eq!(r.length, 255);
}

#[test]
fn bos_total_length_reads_little_endian() {
    assert_eq!(bos_total_length(&[0x05, 0x0f, 0x21, 0x01, 0x02]), Some(0x0121));
    assert_eq!(bos_total_length(&[0x05, 0x0f, 0x21, 0x01]), None);
    assert_eq!(bos_total_length(&[]), None);
}

#[test]
fn billboard_capability_is_found() {
    // Header (5 bytes), a non-billboard capability (7 bytes), a billboard
    // capability (8 bytes) whose fields follow the three-byte capability
    // header.
    let mut blob = vec![0x05, 0x0f, 0x14, 0x00, 0x02];
    blob.extend_from_slice(&[0x07, 0x10, 0x05, 0, 0, 0, 0]);
    blob.extend_from_slice(&[0x08, 0x10, 0x0d, 0x03, 0x02, 0x01, 0, 0]);
    assert_eq!(blob.len(), 20);
    let found = find_billboard_capabilities(&blob);
    assert_eq!(found, vec![12]);
    let cap = &blob[12..20];
    let (url_index, num_alt_modes, preferred) = billboard_fields(cap);
    assert_eq!(url_index, 0x03);
    assert_eq!(num_alt_modes, 0x02);
    assert_eq!(preferred, 0x01);
}

#[test]
fn zero_length_capability_stops_the_walk() {
    let blob = vec![0x05, 0x0f, 0x0c, 0x00, 0x02, 0x00, 0x10, 0x05, 0x04, 0x10, 0x0d, 0x00];
    // The capability at offset 5 declares bLength 0: the walk must stop
    // there and never reach the billboard behind it.
    assert_eq!(find_billboard_capabilities(&blob), Vec::<usize>::new());
}

#[test]
fn truncated_capability_header_ends_the_walk() {
    let blob = vec![0x05, 0x0f, 0x09, 0x00, 0x02, 0x02, 0x10];
    assert_eq!(find_billboard_capabilities(&blob), Vec::<usize>::new());
}

#[test]
fn utf16_units_decode_to_text() {
    let desc = [0x0a, 0x03, b'h', 0x00, b'i', 0x00, b'!', 0x00];
    let units = utf16_units(&desc);
    assert_eq!(units, vec![0x68, 0x69, 0x21]);
    assert_eq!(String::from_utf16(&units).unwrap(), "hi!");
    assert_eq!(utf16_units(&[0x02]), Vec::<u16>::new());
    assert_eq!(utf16_units(&[]), Vec::<u16>::new());
}
