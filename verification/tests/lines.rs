use luatools::serial::log::{
    boot_log_lines, line_text, printable_lines, ConsoleLog, ConsoleStep, LineSplitter, LogLine,
    LogReport, LogSession, LogStatus, LogStep, SerialEvent,
};

fn feed_all(s: &mut LineSplitter, chunks: &[&[u8]]) -> Vec<Vec<u8>> {
    let mut out = Vec::new();
    for c in chunks {
        out.extend(s.feed(c));
    }
    out
}

#[test]
fn splitter_emits_complete_lines() {
    let mut s = LineSplitter::new();
    let lines = s.feed(b"abc\ndef\r\nxy");
    assert_eq!(lines, vec![b"abc".to_vec(), b"def\r".to_vec()]);
    assert_eq!(s.pending_len(), 2);
    assert_eq!(s.finish(), Some(b"xy".to_vec()));
    assert_eq!(s.finish(), None);
}

#[test]
fn splitter_result_does_not_depend_on_chunking() {
    let data: &[u8] = b"luat: boot\r\nap0: up\n\nMAC 01\npartial";
    let mut whole = LineSplitter::new();
    let a = whole.feed(data);
    let mut bytewise = LineSplitter::new();
    let chunks: Vec<&[u8]> = data.chunks(1).collect();
    let b = feed_all(&mut bytewise, &chunks);
    let mut pieces = LineSplitter::new();
    let c = feed_all(&mut pieces, &[&data[..5], &data[5..13], &data[13..]]);
    assert_eq!(a, b);
    assert_eq!(a, c);
    assert_eq!(whole.finish(), Some(b"partial".to_vec()));
    assert_eq!(bytewise.finish(), Some(b"partial".to_vec()));
}

#[test]
fn splitter_keeps_empty_lines() {
    let mut s = LineSplitter::new();
    assert_eq!(s.feed(b"\n\n"), vec![Vec::<u8>::new(), Vec::new()]);
    assert_eq!(s.finish(), None);
}

#[test]
fn line_text_trims_carriage_returns() {
    assert_eq!(line_text(b"hello\r\r"), "hello");
    assert_eq!(line_text(b"a\rb"), "a\rb");
    assert_eq!(line_text(b""), "");
}

#[test]
fn line_text_replaces_invalid_utf8() {
    assert_eq!(line_text(&[0x66, 0xff, 0x6f]), "f\u{FFFD}o");
    assert_eq!(line_text("héllo\r".as_bytes()), "héllo");
}

#[test]
fn printable_lines_drop_empty_texts() {
    let lines = vec![b"one\r".to_vec(), b"\r".to_vec(), Vec::new(), b"two".to_vec()];
    assert_eq!(printable_lines(&lines), vec!["one".to_string(), "two".to_string()]);
}

#[test]
fn boot_log_lines_split_trim_and_filter() {
    let log = b"\r\nluat: start\r\n\r\n  \nap0: ok\r\r\nend";
    assert_eq!(
        boot_log_lines(log),
        vec!["luat: start".to_string(), "  ".to_string(), "ap0: ok".to_string(), "end".to_string()]
    );
    assert_eq!(boot_log_lines(b""), Vec::<String>::new());
    assert_eq!(boot_log_lines(b"\n\n\r\n"), Vec::<String>::new());
}

#[test]
fn log_line_from_bytes() {
    let l = LogLine::from_bytes(b"RTOS up\r", 1234);
    assert_eq!(l.text, "RTOS up");
    assert_eq!(l.timestamp_ms, 1234);
}

#[test]
fn log_status_messages() {
    let c = LogStatus::connected_to("COM3", 2_000_000);
    assert!(c.connected);
    assert_eq!(c.message, "Connected to COM3 @ 2000000");
    let e = LogStatus::serial_error("device unplugged");
    assert!(!e.connected);
    assert_eq!(e.message, "Serial error: device unplugged");
    let d = LogStatus::disconnected();
    assert!(!d.connected);
    assert_eq!(d.message, "Disconnected");
}

#[test]
fn log_session_emits_lines_and_flushes_on_stop() {
    let mut s = LogSession::new();
    match s.step(SerialEvent::Received(b"abc\r\nde".to_vec()), 5) {
        LogStep::Emit(t) => assert_eq!(t, vec!["abc".to_string()]),
        _ => panic!("expected lines"),
    }
    assert!(matches!(s.step(SerialEvent::Received(Vec::new()), 6), LogStep::Pause));
    assert!(matches!(s.step(SerialEvent::TimedOut, 7), LogStep::ReadAgain));
    match s.step(SerialEvent::Stop, 9) {
        LogStep::End(reports) => {
            assert_eq!(reports.len(), 2);
            match &reports[0] {
                LogReport::Line(last) => {
                    assert_eq!(last.text, "de");
                    assert_eq!(last.timestamp_ms, 9);
                }
                _ => panic!("expected the partial line first"),
            }
            match &reports[1] {
                LogReport::Status(st) => {
                    assert_eq!(st.message, "Disconnected");
                    assert!(!st.connected);
                }
                _ => panic!("expected the closing status last"),
            }
        }
        _ => panic!("expected end"),
    }
}

#[test]
fn log_session_ends_on_error() {
    let mut s = LogSession::new();
    match s.step(SerialEvent::Failed("broken pipe".to_string()), 1) {
        LogStep::End(reports) => {
            assert_eq!(reports.len(), 2);
            assert!(matches!(&reports[0], LogReport::Status(st)
                if st.message == "Serial error: broken pipe" && !st.connected));
            assert!(matches!(&reports[1], LogReport::Status(st) if st.message == "Disconnected"));
        }
        _ => panic!("expected end"),
    }
}

#[test]
fn log_session_error_then_partial_line_then_disconnect() {
    let mut s = LogSession::new();
    assert!(matches!(s.step(SerialEvent::Received(b"half".to_vec()), 1), LogStep::Emit(t) if t.is_empty()));
    match s.step(SerialEvent::Failed("io".to_string()), 2) {
        LogStep::End(reports) => {
            assert_eq!(reports.len(), 3);
            assert!(matches!(&reports[0], LogReport::Status(st) if st.message == "Serial error: io"));
            assert!(matches!(&reports[1], LogReport::Line(l) if l.text == "half" && l.timestamp_ms == 2));
            assert!(matches!(&reports[2], LogReport::Status(st) if st.message == "Disconnected"));
        }
        _ => panic!("expected end"),
    }
}

#[test]
fn console_log_prints_non_empty_lines_and_fails_on_error() {
    let mut c = ConsoleLog::new();
    match c.step(SerialEvent::Received(b"\r\nboot ok\r\npart".to_vec())) {
        ConsoleStep::Print(lines) => assert_eq!(lines, vec!["boot ok".to_string()]),
        _ => panic!("expected lines"),
    }
    assert!(matches!(c.step(SerialEvent::Received(Vec::new())), ConsoleStep::ReadAgain));
    assert!(matches!(c.step(SerialEvent::TimedOut), ConsoleStep::ReadAgain));
    match c.step(SerialEvent::Received(b"ial\n".to_vec())) {
        ConsoleStep::Print(lines) => assert_eq!(lines, vec!["partial".to_string()]),
        _ => panic!("expected lines"),
    }
    match c.step(SerialEvent::Failed("unplugged".to_string())) {
        ConsoleStep::Fail(m) => assert_eq!(m, "Serial error: unplugged"),
        _ => panic!("expected failure"),
    }
    assert!(matches!(c.step(SerialEvent::Stop), ConsoleStep::Stop));
}
