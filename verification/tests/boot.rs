use luatools::boot::{
    app_boot_keywords, boot_detected, flash_boot_keywords, line_contains, matched_keywords,
    test_boot_keywords, test_verdict, BootCapture, CaptureStep, OpenRetry, OpenStep, TestResult,
};
use luatools::serial::log::SerialEvent;

fn strings(v: &[&str]) -> Vec<String> {
    v.iter().map(|s| s.to_string()).collect()
}

#[test]
fn keyword_lists() {
    assert_eq!(
        app_boot_keywords(),
        strings(&["luat:", "ap0:", "ap1:", "MAC ", "EasyFlash", "LuatOS", "RTOS"])
    );
    assert_eq!(flash_boot_keywords(), strings(&["luat:", "ap0:", "ap1:", "LuatOS", "EasyFlash", "MAC "]));
    assert_eq!(
        test_boot_keywords(),
        strings(&["luat:", "ap0:", "ap1:", "LuatOS", "EasyFlash", "MAC ", "RTOS"])
    );
}

#[test]
fn line_contains_is_substring_search() {
    assert!(line_contains("[I] luat: boot", "luat:"));
    assert!(line_contains("abc", ""));
    assert!(!line_contains("MAC", "MAC "));
    assert!(!line_contains("", "x"));
}

#[test]
fn matched_keywords_in_keyword_order() {
    let lines = strings(&["EasyFlash V4", "boot", "luat: ok"]);
    let found = matched_keywords(&lines, &flash_boot_keywords());
    assert_eq!(found, strings(&["luat:", "EasyFlash"]));
    assert!(boot_detected(&lines, &flash_boot_keywords()));
}

#[test]
fn no_keyword_no_boot() {
    let lines = strings(&["garbage", "more garbage"]);
    assert!(matched_keywords(&lines, &test_boot_keywords()).is_empty());
    assert!(!boot_detected(&lines, &test_boot_keywords()));
    assert!(!boot_detected(&Vec::new(), &test_boot_keywords()));
}

#[test]
fn test_result_pass_and_fail() {
    let pass = TestResult::from_lines(strings(&["x", "FreeRTOS started"]));
    assert!(pass.passed);
    assert_eq!(pass.message, "PASS — 2 log lines, boot strings detected");
    assert_eq!(pass.lines.len(), 2);
    let fail = TestResult::from_lines(strings(&["nothing"]));
    assert!(!fail.passed);
    assert_eq!(fail.message, "FAIL — 1 log lines, no boot strings found");
    let empty = TestResult::from_lines(Vec::new());
    assert!(!empty.passed);
    assert_eq!(empty.message, "FAIL — 0 log lines, no boot strings found");
}

#[test]
fn verdict_of_the_closed_loop_test() {
    assert_eq!(test_verdict(&strings(&["luat:"])), Ok(()));
    assert_eq!(
        test_verdict(&Vec::new()),
        Err("Test FAILED: no boot keywords detected".to_string())
    );
}

#[test]
fn boot_capture_shows_lines_and_collects_log() {
    let mut c = BootCapture::new();
    match c.step(SerialEvent::Received(b"\r\nluat: hi\r\n\r\nap".to_vec())) {
        CaptureStep::Show { first_data, lines } => {
            assert!(first_data);
            assert_eq!(lines, strings(&["luat: hi"]));
        }
        _ => panic!("expected lines"),
    }
    assert!(matches!(c.step(SerialEvent::Received(Vec::new())), CaptureStep::ReadAgain));
    assert!(matches!(c.step(SerialEvent::TimedOut), CaptureStep::ReadAgain));
    match c.step(SerialEvent::Received(b"0: up\nMAC".to_vec())) {
        CaptureStep::Show { first_data, lines } => {
            assert!(!first_data);
            assert_eq!(lines, strings(&["ap0: up"]));
        }
        _ => panic!("expected lines"),
    }
    assert_eq!(c.received_len(), 25);
    assert!(matches!(c.step(SerialEvent::Stop), CaptureStep::Stop(None)));
    assert_eq!(c.received_len(), 25);
    let (last, lines) = c.finish();
    assert_eq!(last, Some("MAC".to_string()));
    assert_eq!(lines, strings(&["luat: hi", "ap0: up", "MAC"]));
}

#[test]
fn boot_capture_read_error_warns() {
    let mut c = BootCapture::new();
    match c.step(SerialEvent::Failed("gone".to_string())) {
        CaptureStep::Stop(Some(w)) => assert_eq!(w, "Serial read error: gone"),
        _ => panic!("expected stop"),
    }
    let (last, lines) = c.finish();
    assert_eq!(last, None);
    assert!(lines.is_empty());
}

#[test]
fn boot_capture_keeps_bytes_read_before_an_error() {
    let mut c = BootCapture::new();
    c.step(SerialEvent::Received(b"luat: up\r\nRTOS".to_vec()));
    assert!(matches!(c.step(SerialEvent::Failed("x".to_string())), CaptureStep::Stop(Some(_))));
    let (last, lines) = c.finish();
    assert_eq!(last, Some("RTOS".to_string()));
    assert_eq!(lines, strings(&["luat: up", "RTOS"]));
}

#[test]
fn boot_capture_with_nothing_pending_has_no_last_line() {
    let mut c = BootCapture::new();
    c.step(SerialEvent::Received(b"luat: x\n".to_vec()));
    c.step(SerialEvent::Stop);
    let (last, lines) = c.finish();
    assert_eq!(last, None);
    assert_eq!(lines, strings(&["luat: x"]));
}

#[test]
fn boot_capture_stopped_before_any_read_has_no_lines() {
    let mut c = BootCapture::new();
    assert!(matches!(c.step(SerialEvent::Stop), CaptureStep::Stop(None)));
    let (last, lines) = c.finish();
    assert_eq!(last, None);
    assert!(lines.is_empty());
}

#[test]
fn open_retry_gives_up_after_twenty_failures() {
    let mut r = OpenRetry::new();
    for i in 0..19 {
        match r.on_failure("COM6", "busy") {
            OpenStep::Retry { warn } => assert_eq!(warn, i == 0),
            OpenStep::GiveUp(_) => panic!("gave up too early"),
        }
    }
    match r.on_failure("COM6", "busy") {
        OpenStep::GiveUp(m) => assert_eq!(m, "Cannot open COM6: busy"),
        OpenStep::Retry { .. } => panic!("should give up"),
    }
}
