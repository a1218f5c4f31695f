//! Framing of newline-terminated messages read byte by byte from the UART.
use vstd::prelude::*;

use crate::text::push_char;

verus! {

/// Largest frame, newline included, that a reader accepts.
pub const MAX_FRAME_BYTES: usize = 512;

/// What the reader should do after one byte.
#[derive(Debug, Clone, Copy, PartialEq, Eq, Structural)]
pub enum LineStep {
    /// Keep reading.
    Pending,
    /// A full line arrived; the count is every byte read for it, newline included.
    Complete(usize),
    /// The frame grew past `MAX_FRAME_BYTES`; drain to the next newline and report it.
    TooLong,
}

/// Accumulates one line: carriage returns are dropped and every other byte
/// is kept as the character with that code point.
pub struct LineAccumulator {
    pub line: String,
    pub total: usize,
}

pub open spec fn byte_char(b: u8) -> char {
    (b as u32) as char
}

impl LineAccumulator {
    pub fn new() -> (r: Self)
        ensures
            r.line@ == Seq::<char>::empty(),
            r.total == 0,
    {
        LineAccumulator { line: String::new(), total: 0 }
    }

    /// Takes one byte read from the port.
    pub fn push_byte(&mut self, b: u8) -> (r: LineStep)
        requires
            old(self).total <= MAX_FRAME_BYTES,
        ensures
            final(self).total == old(self).total + 1,
            old(self).total + 1 > MAX_FRAME_BYTES ==> r == LineStep::TooLong && final(self).line
                == old(self).line,
            old(self).total + 1 <= MAX_FRAME_BYTES && b == 10 ==> r == LineStep::Complete(
                (old(self).total + 1) as usize,
            ) && final(self).line == old(self).line,
            old(self).total + 1 <= MAX_FRAME_BYTES && b == 13 ==> r == LineStep::Pending
                && final(self).line == old(self).line,
            old(self).total + 1 <= MAX_FRAME_BYTES && b != 10 && b != 13 ==> r == LineStep::Pending
                && final(self).line@ == old(self).line@.push(byte_char(b)),
    {
        self.total = self.total + 1;
        if self.total > MAX_FRAME_BYTES {
            return LineStep::TooLong;
        }
        if b == 10u8 {
            return LineStep::Complete(self.total);
        }
        if b != 13u8 {
            push_char(&mut self.line, b as char);
        }
        LineStep::Pending
    }
}

} // verus!
