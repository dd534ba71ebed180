use std::cell::RefCell;
use std::path::Path;

use luatools::flash::bk::{BkConfig, BkFlasher};
use luatools::flash::ec618::{Ec618Config, Ec618Flasher};
use luatools::flash::job::{FlashJob, JobAction, JobEvent};
use luatools::flash::soc::{
    flash_tool, flash_tool_args, port_number, tool_output_line, SocDownload, SocInfo, SocRom,
    SocUser,
};
use luatools::flash::{Chip, FlashError, FlashOp, FlashProgress, Flasher};
use luatools::luadb::{pack_directory, LuadbError};

fn info(rom: &str, force_br: Option<&str>, log_br: Option<Option<&str>>) -> SocInfo {
    SocInfo {
        rom: SocRom { file: rom.to_string() },
        download: SocDownload { force_br: force_br.map(|s| s.to_string()), bl_addr: None },
        user: log_br.map(|b| SocUser { log_br: b.map(|s| s.to_string()) }),
    }
}

#[test]
fn configs_default() {
    let b = BkConfig::default();
    assert_eq!(b.port, "");
    assert_eq!(b.baud_rate, 921_600);
    assert_eq!(b.timeout_ms, 3_000);
    let e = Ec618Config::default();
    assert_eq!(e.port, "");
    assert_eq!(e.baud_rate, 921_600);
    assert_eq!(e.timeout_ms, 3_000);
}

#[test]
fn bk_flasher_operations_are_not_implemented() {
    let mut f = BkFlasher::new(BkConfig { port: "COM3".to_string(), ..BkConfig::default() });
    let err = f.connect().unwrap_err();
    assert!(err == FlashError::NotImplemented(Chip::Bk, FlashOp::Connect));
    assert_eq!(err.message(), "BK flasher: connect() not yet implemented");
    assert_eq!(f.erase().unwrap_err().message(), "BK flasher: erase() not yet implemented");
    assert_eq!(f.verify(&[1, 2]).unwrap_err().message(), "BK flasher: verify() not yet implemented");
    assert_eq!(f.reset().unwrap_err().message(), "BK flasher: reset() not yet implemented");
}

#[test]
fn write_reports_start_then_fails() {
    let seen: RefCell<Vec<(String, u64, u64)>> = RefCell::new(Vec::new());
    let cb = |p: FlashProgress| seen.borrow_mut().push((p.stage, p.written, p.total));
    let mut b = BkFlasher::new(BkConfig::default());
    let err = b.write(&[0xAA, 0xBB, 0xCC], &cb).unwrap_err();
    assert!(err == FlashError::NotImplemented(Chip::Bk, FlashOp::Write));
    assert_eq!(err.message(), "BK flasher: write() not yet implemented");
    assert_eq!(seen.borrow().clone(), vec![("Writing".to_string(), 0, 3)]);
    seen.borrow_mut().clear();
    let mut f = Ec618Flasher::new(Ec618Config::default());
    let err = f.write(&[], &cb).unwrap_err();
    assert_eq!(err.message(), "EC618 flasher: write() not yet implemented");
    assert_eq!(seen.borrow().clone(), vec![("Writing".to_string(), 0, 0)]);
}

#[test]
fn ec618_flasher_operations_are_not_implemented() {
    let mut f = Ec618Flasher::new(Ec618Config::default());
    assert_eq!(f.connect().unwrap_err().message(), "EC618 flasher: connect() not yet implemented");
    assert_eq!(f.erase().unwrap_err().message(), "EC618 flasher: erase() not yet implemented");
    assert_eq!(f.verify(&[]).unwrap_err().message(), "EC618 flasher: verify() not yet implemented");
    assert_eq!(f.reset().unwrap_err().message(), "EC618 flasher: reset() not yet implemented");
}

#[test]
fn progress_report_at_start() {
    let p = FlashProgress::writing_started(4096);
    assert_eq!(p.stage, "Writing");
    assert_eq!(p.written, 0);
    assert_eq!(p.total, 4096);
}

#[test]
fn luadb_packing_is_not_implemented() {
    let r = pack_directory(Path::new("scripts"), Path::new("out.bin"));
    assert!(r == Err(LuadbError::NotImplemented));
    assert_eq!(LuadbError::NotImplemented.message(), "luadb packer is not yet implemented");
}

#[test]
fn soc_info_baud_rates() {
    let i = info("rom.bin", Some("921600"), Some(Some("115200")));
    assert_eq!(i.log_baud(), 115_200);
    assert_eq!(i.flash_baud_label(), "921600");
    assert_eq!(i.log_baud_label(), "115200");
    let d = info("rom.bin", None, None);
    assert_eq!(d.log_baud(), 2_000_000);
    assert_eq!(d.flash_baud_label(), "default");
    assert_eq!(d.log_baud_label(), "2000000");
    let bad = info("rom.bin", None, Some(Some("fast")));
    assert_eq!(bad.log_baud(), 2_000_000);
    assert_eq!(bad.log_baud_label(), "fast");
    let none = info("rom.bin", None, Some(None));
    assert_eq!(none.log_baud(), 2_000_000);
}

#[test]
fn port_numbers_and_tool_arguments() {
    assert_eq!(port_number("COM6"), "6");
    assert_eq!(port_number("/dev/ttyUSB12"), "12");
    assert_eq!(port_number("ttyé1a2"), "12");
    assert_eq!(
        flash_tool_args("COM6").unwrap(),
        vec!["download", "-p", "6", "-b", "2000000", "-s", "0", "-i"]
    );
    assert_eq!(flash_tool_args("ttyACM").unwrap_err(), "Invalid port name: ttyACM");
    assert_eq!(flash_tool(), "air602_flash.exe");
}

#[test]
fn tool_output_lines_are_trimmed() {
    assert_eq!(tool_output_line("  Erasing...\r"), Some("Erasing...".to_string()));
    assert_eq!(tool_output_line(" \t\u{3000} "), None);
    assert_eq!(tool_output_line(""), None);
}

fn lines(v: &[&str]) -> Vec<String> {
    v.iter().map(|s| s.to_string()).collect()
}

#[test]
fn flash_job_runs_to_keywords() {
    let (mut job, first) = FlashJob::new("COM6".to_string(), None);
    assert!(matches!(first, JobAction::Extract));
    match job.step(JobEvent::Extracted(info("app.bin", None, Some(Some("921600"))))) {
        JobAction::CheckRom(f) => assert_eq!(f, "app.bin"),
        _ => panic!("expected rom check"),
    }
    match job.step(JobEvent::RomFound(true)) {
        JobAction::CheckTool(t) => assert_eq!(t, "air602_flash.exe"),
        _ => panic!("expected tool check"),
    }
    match job.step(JobEvent::ToolFound(true)) {
        JobAction::RunTool(a) => assert_eq!(a[2], "6"),
        _ => panic!("expected run"),
    }
    match job.step(JobEvent::Flashed) {
        JobAction::CaptureLog { baud, seconds } => {
            assert_eq!(baud, 921_600);
            assert_eq!(seconds, 20);
        }
        _ => panic!("expected capture"),
    }
    match job.step(JobEvent::Captured(lines(&["MAC aa", "RTOS", "luat: x"]))) {
        JobAction::Finish(Ok(found)) => assert_eq!(found, lines(&["luat:", "MAC "])),
        _ => panic!("expected finish"),
    }
}

#[test]
fn flash_job_without_keywords_still_succeeds() {
    let (mut job, _) = FlashJob::new("COM1".to_string(), None);
    job.step(JobEvent::Extracted(info("r", None, None)));
    job.step(JobEvent::RomFound(true));
    job.step(JobEvent::ToolFound(true));
    match job.step(JobEvent::Flashed) {
        JobAction::CaptureLog { baud, .. } => assert_eq!(baud, 2_000_000),
        _ => panic!("expected capture"),
    }
    match job.step(JobEvent::Captured(lines(&["RTOS only"]))) {
        JobAction::Finish(Ok(found)) => assert!(found.is_empty()),
        _ => panic!("expected finish"),
    }
}

#[test]
fn test_job_fails_without_keywords() {
    let (mut job, _) = FlashJob::new("COM1".to_string(), Some(5));
    job.step(JobEvent::Extracted(info("r", None, None)));
    job.step(JobEvent::RomFound(true));
    job.step(JobEvent::ToolFound(true));
    match job.step(JobEvent::Flashed) {
        JobAction::CaptureLog { seconds, .. } => assert_eq!(seconds, 5),
        _ => panic!("expected capture"),
    }
    match job.step(JobEvent::Captured(lines(&["nothing here"]))) {
        JobAction::Finish(Err(m)) => assert_eq!(m, "Test FAILED: no boot keywords detected"),
        _ => panic!("expected failure"),
    }
}

#[test]
fn test_job_passes_with_rtos() {
    let (mut job, _) = FlashJob::new("COM1".to_string(), Some(5));
    job.step(JobEvent::Extracted(info("r", None, None)));
    job.step(JobEvent::RomFound(true));
    job.step(JobEvent::ToolFound(true));
    job.step(JobEvent::Flashed);
    match job.step(JobEvent::Captured(lines(&["FreeRTOS"]))) {
        JobAction::Finish(Ok(found)) => assert_eq!(found, lines(&["RTOS"])),
        _ => panic!("expected success"),
    }
}

#[test]
fn job_errors() {
    let (mut job, _) = FlashJob::new("COM1".to_string(), None);
    job.step(JobEvent::Extracted(info("app.bin", None, None)));
    match job.step(JobEvent::RomFound(false)) {
        JobAction::Finish(Err(m)) => assert_eq!(m, "ROM 'app.bin' not found in SOC"),
        _ => panic!("expected failure"),
    }
    let (mut job, _) = FlashJob::new("COM1".to_string(), None);
    job.step(JobEvent::Extracted(info("app.bin", None, None)));
    job.step(JobEvent::RomFound(true));
    match job.step(JobEvent::ToolFound(false)) {
        JobAction::Finish(Err(m)) => assert_eq!(m, "air602_flash.exe not found in SOC archive"),
        _ => panic!("expected failure"),
    }
    let (mut job, _) = FlashJob::new("ttyUSB".to_string(), None);
    job.step(JobEvent::Extracted(info("app.bin", None, None)));
    job.step(JobEvent::RomFound(true));
    match job.step(JobEvent::ToolFound(true)) {
        JobAction::Finish(Err(m)) => assert_eq!(m, "Invalid port name: ttyUSB"),
        _ => panic!("expected failure"),
    }
    let (mut job, _) = FlashJob::new("COM1".to_string(), None);
    match job.step(JobEvent::Failed("Cannot open SOC file: missing".to_string())) {
        JobAction::Finish(Err(m)) => assert_eq!(m, "Cannot open SOC file: missing"),
        _ => panic!("expected failure"),
    }
}
