//! The EC618 / EC718 (Air780E / Air780EP) ISP flasher.
//!
//! The EC618 / EC718 series (made by Eigencomm) use a UART-based FDL
//! (Firmware Download) protocol, which this flasher does not speak yet: every
//! operation reports that it is not implemented.

use vstd::prelude::*;

use super::{Chip, FlashError, FlashOp, FlashProgress, Flasher};

verus! {

/// Configuration for the EC618 / EC718 flasher.
#[derive(Clone, Debug)]
pub struct Ec618Config {
    /// Serial port path, e.g. `/dev/ttyUSB0` or `COM3`.
    pub port: String,
    /// Baud rate used during the download phase (typically 921600).
    pub baud_rate: u32,
    /// Timeout in milliseconds for individual serial operations.
    pub timeout_ms: u64,
}

impl Default for Ec618Config {
    /// No port, 921600 baud, 3000 ms timeout.
    fn default() -> (r: Self)
        ensures
            r.port@ == Seq::<char>::empty(),
            r.baud_rate == 921_600,
            r.timeout_ms == 3_000,
    {
        Ec618Config { port: String::new(), baud_rate: 921_600, timeout_ms: 3_000 }
    }
}

/// ISP flasher for EC618 / EC718 chips (Air780E / Air780EP family).
pub struct Ec618Flasher {
    config: Ec618Config,
}

impl Ec618Flasher {
    /// The configuration the flasher was made with.
    pub closed spec fn config(&self) -> Ec618Config {
        self.config
    }

    pub fn new(config: Ec618Config) -> (r: Self)
        ensures
            r.config() == config,
    {
        Ec618Flasher { config }
    }
}

impl Flasher for Ec618Flasher {
    fn connect(&mut self) -> (r: Result<(), FlashError>)
        ensures
            final(self).config() == old(self).config(),
            r == Err::<(), FlashError>(FlashError::NotImplemented(Chip::Ec618, FlashOp::Connect)),
    {
        Err(FlashError::NotImplemented(Chip::Ec618, FlashOp::Connect))
    }

    fn erase(&mut self) -> (r: Result<(), FlashError>)
        ensures
            final(self).config() == old(self).config(),
            r == Err::<(), FlashError>(FlashError::NotImplemented(Chip::Ec618, FlashOp::Erase)),
    {
        Err(FlashError::NotImplemented(Chip::Ec618, FlashOp::Erase))
    }

    /// Reports that writing `data` has started (nothing written of
    /// `data.len()` bytes), then fails.
    fn write<F: Fn(FlashProgress)>(&mut self, data: &[u8], on_progress: &F) -> (r: Result<
        (),
        FlashError,
    >)
        ensures
            final(self).config() == old(self).config(),
            exists|p: FlashProgress|
                p.stage@ == "Writing"@ && p.written == 0 && p.total == data@.len()
                    && #[trigger] call_ensures(*on_progress, (p,), ()),
            r == Err::<(), FlashError>(FlashError::NotImplemented(Chip::Ec618, FlashOp::Write)),
    {
        on_progress(FlashProgress::writing_started(data.len() as u64));
        Err(FlashError::NotImplemented(Chip::Ec618, FlashOp::Write))
    }

    fn verify(&mut self, data: &[u8]) -> (r: Result<(), FlashError>)
        ensures
            final(self).config() == old(self).config(),
            r == Err::<(), FlashError>(FlashError::NotImplemented(Chip::Ec618, FlashOp::Verify)),
    {
        Err(FlashError::NotImplemented(Chip::Ec618, FlashOp::Verify))
    }

    fn reset(&mut self) -> (r: Result<(), FlashError>)
        ensures
            final(self).config() == old(self).config(),
            r == Err::<(), FlashError>(FlashError::NotImplemented(Chip::Ec618, FlashOp::Reset)),
    {
        Err(FlashError::NotImplemented(Chip::Ec618, FlashOp::Reset))
    }
}

} // verus!
