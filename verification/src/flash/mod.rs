//! Flashing backends and the firmware-package workflow.

pub mod bk;
pub mod ec618;
pub mod job;
pub mod soc;

use vstd::prelude::*;

use crate::text::push_str;

verus! {

/// Progress of a flash operation, as reported to the frontend.
pub struct FlashProgress {
    pub stage: String,
    pub written: u64,
    pub total: u64,
}

impl FlashProgress {
    /// The report made when writing `total` bytes begins: stage `"Writing"`,
    /// nothing written yet.
    pub fn writing_started(total: u64) -> (r: FlashProgress)
        ensures
            r.stage@ == "Writing"@,
            r.written == 0,
            r.total == total,
    {
        FlashProgress { stage: "Writing".to_owned(), written: 0, total }
    }
}

/// The chip families the tool knows.
#[derive(PartialEq, Eq, Structural, Clone, Copy)]
pub enum Chip {
    /// Beken (BK7231N / BK7231T, BK7258).
    Bk,
    /// Eigencomm EC618 / EC718 (Air780E / Air780EP).
    Ec618,
}

/// The operations of a flasher.
#[derive(PartialEq, Eq, Structural, Clone, Copy)]
pub enum FlashOp {
    Connect,
    Erase,
    Write,
    Verify,
    Reset,
}

/// Why a flash operation failed.
#[derive(PartialEq, Eq, Structural, Clone, Copy)]
pub enum FlashError {
    /// The flasher for this chip does not implement this operation yet.
    NotImplemented(Chip, FlashOp),
}

pub open spec fn chip_name(c: Chip) -> Seq<char> {
    match c {
        Chip::Bk => "BK"@,
        Chip::Ec618 => "EC618"@,
    }
}

pub open spec fn op_name(op: FlashOp) -> Seq<char> {
    match op {
        FlashOp::Connect => "connect()"@,
        FlashOp::Erase => "erase()"@,
        FlashOp::Write => "write()"@,
        FlashOp::Verify => "verify()"@,
        FlashOp::Reset => "reset()"@,
    }
}

/// The text of a flash error, e.g. `"BK flasher: connect() not yet implemented"`.
pub open spec fn error_text(e: FlashError) -> Seq<char> {
    match e {
        FlashError::NotImplemented(c, op) => chip_name(c) + " flasher: "@ + op_name(op)
            + " not yet implemented"@,
    }
}

impl FlashError {
    /// The text of the error (see `error_text`).
    pub fn message(&self) -> (r: String)
        ensures
            r@ == error_text(*self),
    {
        let mut m = String::new();
        match self {
            FlashError::NotImplemented(c, op) => {
                match c {
                    Chip::Bk => push_str(&mut m, "BK"),
                    Chip::Ec618 => push_str(&mut m, "EC618"),
                }
                push_str(&mut m, " flasher: ");
                match op {
                    FlashOp::Connect => push_str(&mut m, "connect()"),
                    FlashOp::Erase => push_str(&mut m, "erase()"),
                    FlashOp::Write => push_str(&mut m, "write()"),
                    FlashOp::Verify => push_str(&mut m, "verify()"),
                    FlashOp::Reset => push_str(&mut m, "reset()"),
                }
                push_str(&mut m, " not yet implemented");
            },
        }
        m
    }
}

/// An in-system programmer for one chip family. `write` reports its
/// progress through `on_progress`; every report counts bytes of `data`, with
/// no more written than the total.
pub trait Flasher {
    fn connect(&mut self) -> Result<(), FlashError>;

    fn erase(&mut self) -> Result<(), FlashError>;

    fn write<F: Fn(FlashProgress)>(&mut self, data: &[u8], on_progress: &F) -> Result<
        (),
        FlashError,
    >
        requires
            forall|p: FlashProgress|
                p.written <= p.total && p.total == data@.len() ==> call_requires(
                    *on_progress,
                    (p,),
                ),
    ;

    fn verify(&mut self, data: &[u8]) -> Result<(), FlashError>;

    fn reset(&mut self) -> Result<(), FlashError>;
}

} // verus!
