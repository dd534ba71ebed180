//! The Beken (BK) chip ISP flasher.
//!
//! Beken chips (e.g. BK7231N / BK7231T used in some LuatOS modules) use their
//! own UART-based ISP protocol, which this flasher does not speak yet: every
//! operation reports that it is not implemented.

use vstd::prelude::*;

use super::{Chip, FlashError, FlashOp, FlashProgress, Flasher};

verus! {

/// Configuration for the Beken ISP flasher.
#[derive(Clone, Debug)]
pub struct BkConfig {
    /// Serial port path, e.g. `/dev/ttyUSB0` or `COM3`.
    pub port: String,
    /// Baud rate used during the download phase (typically 921600).
    pub baud_rate: u32,
    /// Timeout in milliseconds for individual serial operations.
    pub timeout_ms: u64,
}

impl Default for BkConfig {
    /// No port, 921600 baud, 3000 ms timeout.
    fn default() -> (r: Self)
        ensures
            r.port@ == Seq::<char>::empty(),
            r.baud_rate == 921_600,
            r.timeout_ms == 3_000,
    {
        BkConfig { port: String::new(), baud_rate: 921_600, timeout_ms: 3_000 }
    }
}

/// ISP flasher for Beken (BK) chips.
pub struct BkFlasher {
    config: BkConfig,
}

impl BkFlasher {
    /// The configuration the flasher was made with.
    pub closed spec fn config(&self) -> BkConfig {
        self.config
    }

    pub fn new(config: BkConfig) -> (r: Self)
        ensures
            r.config() == config,
    {
        BkFlasher { config }
    }
}

impl Flasher for BkFlasher {
    fn connect(&mut self) -> (r: Result<(), FlashError>)
        ensures
            final(self).config() == old(self).config(),
            r == Err::<(), FlashError>(FlashError::NotImplemented(Chip::Bk, FlashOp::Connect)),
    {
        Err(FlashError::NotImplemented(Chip::Bk, FlashOp::Connect))
    }

    fn erase(&mut self) -> (r: Result<(), FlashError>)
        ensures
            final(self).config() == old(self).config(),
            r == Err::<(), FlashError>(FlashError::NotImplemented(Chip::Bk, FlashOp::Erase)),
    {
        Err(FlashError::NotImplemented(Chip::Bk, FlashOp::Erase))
    }

    /// Reports that writing `data` has started (nothing written of
    /// `data.len()` bytes), then fails.
    fn write<F: Fn(FlashProgress)>(&mut self, data: &[u8], on_progress: &F) -> (r: Result<
        (),
        FlashError,
    >)
        ensures
            final(self).config() == old(self).config(),
            exists|p: FlashProgress|
                p.stage@ == "Writing"@ && p.written == 0 && p.total == data@.len()
                    && #[trigger] call_ensures(*on_progress, (p,), ()),
            r == Err::<(), FlashError>(FlashError::NotImplemented(Chip::Bk, FlashOp::Write)),
    {
        on_progress(FlashProgress::writing_started(data.len() as u64));
        Err(FlashError::NotImplemented(Chip::Bk, FlashOp::Write))
    }

    fn verify(&mut self, data: &[u8]) -> (r: Result<(), FlashError>)
        ensures
            final(self).config() == old(self).config(),
            r == Err::<(), FlashError>(FlashError::NotImplemented(Chip::Bk, FlashOp::Verify)),
    {
        Err(FlashError::NotImplemented(Chip::Bk, FlashOp::Verify))
    }

    fn reset(&mut self) -> (r: Result<(), FlashError>)
        ensures
            final(self).config() == old(self).config(),
            r == Err::<(), FlashError>(FlashError::NotImplemented(Chip::Bk, FlashOp::Reset)),
    {
        Err(FlashError::NotImplemented(Chip::Bk, FlashOp::Reset))
    }
}

} // verus!
