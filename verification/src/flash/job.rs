//! The decisions of a flashing job: extract the firmware package, check what
//! it holds, run its download tool, capture the boot log, and judge it.
//!
//! The caller performs each action and reports what came of it; the job
//! answers with the next action, until it finishes.

use vstd::prelude::*;

use crate::boot::{flash_boot_keywords, flash_keywords, matched, matched_keywords, test_boot_keywords, test_keywords};
use crate::cli::{number_or, DEFAULT_LOG_BAUD, DEFAULT_CAPTURE_SECS};
use crate::text::{push_str, string_views};
use super::soc::{digits_of, flash_tool, flash_tool_args, flash_tool_name, tool_args, SocInfo};

verus! {

/// Where a job stands.
#[derive(PartialEq, Eq, Structural, Clone, Copy)]
pub enum Stage {
    Extracting,
    CheckingRom,
    CheckingTool,
    Flashing,
    Capturing,
    Done,
}

/// What came of the last action.
pub enum JobEvent {
    /// The package was extracted; its `info.json` says this.
    Extracted(SocInfo),
    /// Whether the package holds the ROM file.
    RomFound(bool),
    /// Whether the package holds the download tool.
    ToolFound(bool),
    /// The download tool has exited.
    Flashed,
    /// These boot-log lines were captured.
    Captured(Vec<String>),
    /// The action failed with this message.
    Failed(String),
}

/// What the caller is to do next.
pub enum JobAction {
    /// Extract the package and read its `info.json`.
    Extract,
    /// Check that the package holds this ROM file.
    CheckRom(String),
    /// Check that the package holds this download tool.
    CheckTool(String),
    /// Run the download tool with these arguments, followed by the ROM path.
    RunTool(Vec<String>),
    /// Capture the boot log at `baud` for `seconds` seconds.
    CaptureLog { baud: u32, seconds: u64 },
    /// The job is over: the boot keywords found, or why it failed.
    Finish(Result<Vec<String>, String>),
}

/// A flash of a firmware package through a serial port, optionally followed
/// by a closed-loop test of the boot log.
pub struct FlashJob {
    port: String,
    test_timeout: Option<u64>,
    stage: Stage,
    rom: String,
    log_baud: u32,
}

/// `event` is what the action of `stage` can report.
pub open spec fn fits(stage: Stage, event: JobEvent) -> bool {
    match event {
        JobEvent::Failed(_) => stage != Stage::Done,
        JobEvent::Extracted(_) => stage == Stage::Extracting,
        JobEvent::RomFound(_) => stage == Stage::CheckingRom,
        JobEvent::ToolFound(_) => stage == Stage::CheckingTool,
        JobEvent::Flashed => stage == Stage::Flashing,
        JobEvent::Captured(_) => stage == Stage::Capturing,
    }
}

/// `a` finishes the job with the error `msg`.
pub open spec fn fails_with(a: JobAction, msg: Seq<char>) -> bool {
    a matches JobAction::Finish(Err(m)) && m@ == msg
}

impl FlashJob {
    pub closed spec fn stage(&self) -> Stage {
        self.stage
    }

    /// The port flashed through.
    pub closed spec fn port(&self) -> Seq<char> {
        self.port@
    }

    /// The capture window of the test, or none for a plain flash.
    pub closed spec fn test_timeout(&self) -> Option<u64> {
        self.test_timeout
    }

    /// The ROM file named by the package.
    pub closed spec fn rom(&self) -> Seq<char> {
        self.rom@
    }

    /// The boot-log baud rate named by the package.
    pub closed spec fn log_baud(&self) -> u32 {
        self.log_baud
    }

    /// A job flashing through `port`; with `test_timeout`, the boot log is
    /// then captured for that many seconds and must show a boot keyword
    /// (without, it is captured for 20 seconds and only reported). The first
    /// action is to extract the package.
    pub fn new(port: String, test_timeout: Option<u64>) -> (r: (FlashJob, JobAction))
        ensures
            r.0.stage() == Stage::Extracting,
            r.0.port() == port@,
            r.0.test_timeout() == test_timeout,
            r.1 is Extract,
    {
        (
            FlashJob {
                port,
                test_timeout,
                stage: Stage::Extracting,
                rom: String::new(),
                log_baud: DEFAULT_LOG_BAUD,
            },
            JobAction::Extract,
        )
    }

    /// Takes in what came of the last action and decides the next one.
    /// - A failure finishes the job with its message.
    /// - Extracted: check the ROM file the package names; its log baud rate
    ///   is kept for the capture.
    /// - ROM missing: `"ROM '<file>' not found in SOC"`; present: check the
    ///   download tool.
    /// - Tool missing: `"air602_flash.exe not found in SOC archive"`;
    ///   present: run it for the port (see `flash_tool_args`), unless the
    ///   port name holds no digit.
    /// - Flashed: capture the boot log.
    /// - Captured: finish with the boot keywords found; a test fails with
    ///   `"Test FAILED: no boot keywords detected"` when there are none.
    pub fn step(&mut self, event: JobEvent) -> (r: JobAction)
        requires
            fits(old(self).stage(), event),
        ensures
            final(self).port() == old(self).port(),
            final(self).test_timeout() == old(self).test_timeout(),
            r is Finish <==> final(self).stage() == Stage::Done,
            match event {
                JobEvent::Failed(m) => fails_with(r, m@),
                JobEvent::Extracted(info) => {
                    &&& r matches JobAction::CheckRom(f) && f@ == info.rom.file@
                    &&& final(self).stage() == Stage::CheckingRom
                    &&& final(self).rom() == info.rom.file@
                    &&& final(self).log_baud() == number_or(
                        info.log_br(),
                        u32::MAX as int,
                        DEFAULT_LOG_BAUD as int,
                    )
                },
                JobEvent::RomFound(found) => if found {
                    &&& r matches JobAction::CheckTool(t) && t@ == flash_tool_name()
                    &&& final(self).stage() == Stage::CheckingTool
                    &&& final(self).log_baud() == old(self).log_baud()
                } else {
                    fails_with(r, "ROM '"@ + old(self).rom() + "' not found in SOC"@)
                },
                JobEvent::ToolFound(found) => if !found {
                    fails_with(r, "air602_flash.exe not found in SOC archive"@)
                } else if digits_of(old(self).port()).len() == 0 {
                    fails_with(r, "Invalid port name: "@ + old(self).port())
                } else {
                    &&& r matches JobAction::RunTool(args) && string_views(args@) == tool_args(
                        digits_of(old(self).port()),
                    )
                    &&& final(self).stage() == Stage::Flashing
                    &&& final(self).log_baud() == old(self).log_baud()
                },
                JobEvent::Flashed => {
                    &&& r matches JobAction::CaptureLog { baud, seconds } && baud == old(
                        self,
                    ).log_baud() && seconds == match old(self).test_timeout() {
                        Some(t) => t,
                        None => DEFAULT_CAPTURE_SECS,
                    }
                    &&& final(self).stage() == Stage::Capturing
                },
                JobEvent::Captured(lines) => match old(self).test_timeout() {
                    None => r matches JobAction::Finish(Ok(found)) && string_views(found@)
                        == matched(string_views(lines@), flash_keywords()),
                    Some(_) => if matched(string_views(lines@), test_keywords()).len() == 0 {
                        fails_with(r, "Test FAILED: no boot keywords detected"@)
                    } else {
                        r matches JobAction::Finish(Ok(found)) && string_views(found@) == matched(
                            string_views(lines@),
                            test_keywords(),
                        )
                    },
                },
            },
    {
        match event {
            JobEvent::Failed(m) => {
                self.stage = Stage::Done;
                JobAction::Finish(Err(m))
            },
            JobEvent::Extracted(info) => {
                self.log_baud = info.log_baud();
                self.rom = info.rom.file.clone();
                self.stage = Stage::CheckingRom;
                JobAction::CheckRom(info.rom.file)
            },
            JobEvent::RomFound(found) => {
                if found {
                    self.stage = Stage::CheckingTool;
                    JobAction::CheckTool(flash_tool())
                } else {
                    self.stage = Stage::Done;
                    let mut m = String::new();
                    push_str(&mut m, "ROM '");
                    push_str(&mut m, self.rom.as_str());
                    push_str(&mut m, "' not found in SOC");
                    JobAction::Finish(Err(m))
                }
            },
            JobEvent::ToolFound(found) => {
                if !found {
                    self.stage = Stage::Done;
                    JobAction::Finish(Err("air602_flash.exe not found in SOC archive".to_owned()))
                } else {
                    match flash_tool_args(self.port.as_str()) {
                        Ok(args) => {
                            self.stage = Stage::Flashing;
                            JobAction::RunTool(args)
                        },
                        Err(m) => {
                            self.stage = Stage::Done;
                            JobAction::Finish(Err(m))
                        },
                    }
                }
            },
            JobEvent::Flashed => {
                self.stage = Stage::Capturing;
                let seconds = match self.test_timeout {
                    Some(t) => t,
                    None => DEFAULT_CAPTURE_SECS,
                };
                JobAction::CaptureLog { baud: self.log_baud, seconds }
            },
            JobEvent::Captured(lines) => {
                self.stage = Stage::Done;
                match self.test_timeout {
                    None => {
                        let kws = flash_boot_keywords();
                        JobAction::Finish(Ok(matched_keywords(&lines, &kws)))
                    },
                    Some(_) => {
                        let kws = test_boot_keywords();
                        let found = matched_keywords(&lines, &kws);
                        if found.len() == 0 {
                            JobAction::Finish(
                                Err("Test FAILED: no boot keywords detected".to_owned()),
                            )
                        } else {
                            JobAction::Finish(Ok(found))
                        }
                    },
                }
            },
        }
    }
}

} // verus!
