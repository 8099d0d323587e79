//! Node parameters: frequency selection, phase offset in the parent's cycle,
//! and visual tags that the core only passes through.

use crate::freq::spec_frequency;
use crate::freq::frequency_name;
use crate::freq::frequency_scaled;
use crate::freq::DEFAULT_FREQUENCY;
use crate::freq::MAX_FREQ_SCALED;
use vstd::prelude::*;

verus! {

/// A phase of `PHASE_SCALE` stands for one full cycle; stored phases stay
/// strictly below it, so a phase is a fraction in `[0, 1)`.
pub const PHASE_SCALE: u32 = 1048576;

/// A node's color, as four raw 32-bit channel encodings. The core never
/// interprets them; they ride along through copy and paste.
#[derive(Clone, Copy, Debug, PartialEq, Eq, Structural)]
pub struct ColorBits {
    pub r: u32,
    pub g: u32,
    pub b: u32,
    pub a: u32,
}

/// A node's 2D position, as two raw 32-bit coordinate encodings, passed
/// through uninterpreted like the color.
#[derive(Clone, Copy, Debug, PartialEq, Eq, Structural)]
pub struct PosBits {
    pub x: u32,
    pub y: u32,
}

/// The synthesis parameters of one node: an index into the fixed frequency
/// table, a phase offset inside the parent's cycle, and a color tag.
#[derive(Clone, Copy, Debug, PartialEq, Eq, Structural)]
pub struct Cycle {
    /// Index into the frequency table.
    pub frequency: u32,
    /// Offset in the parent's cycle, in units of `1 / PHASE_SCALE` cycles.
    pub phase: u32,
    /// Visual tag, passed through.
    pub color: ColorBits,
}

impl Cycle {
    /// The frequency index selects a table entry and the phase is a fraction
    /// in `[0, 1)`.
    pub open spec fn wf(&self) -> bool {
        &&& self.frequency < 133
        &&& self.phase < 1048576
    }

    /// The node's frequency in Hz, scaled by 2^20.
    pub fn frequency(&self) -> (r: u64)
        requires
            self.wf(),
        ensures
            r == spec_frequency(self.frequency as int),
            0 < r <= MAX_FREQ_SCALED,
    {
        frequency_scaled(self.frequency)
    }

    /// The display label of the node's frequency.
    pub fn frequency_name(&self) -> (r: &'static str)
        requires
            self.wf(),
        ensures
            self.frequency == 0 ==> r@ == "4m16s"@,
            self.frequency == 16 ==> r@ == "1s"@,
            self.frequency == 82 ==> r@ == "A4"@,
            self.frequency == 132 ==> r@ == "B8"@,
    {
        frequency_name(self.frequency)
    }

    /// The node's phase offset inside its parent's cycle.
    pub fn phase_in_parent(&self) -> (r: u32)
        ensures
            r == self.phase,
    {
        self.phase
    }

    /// Moves the frequency selection `lines` steps, clamped to the table.
    pub fn change_frequency(&mut self, lines: i32)
        ensures
            final(self).frequency as int == ({
                let t = old(self).frequency + lines;
                if t < 0 {
                    0
                } else if t > 132 {
                    132
                } else {
                    t
                }
            }),
            final(self).phase == old(self).phase,
            final(self).color == old(self).color,
    {
        let t: i64 = self.frequency as i64 + lines as i64;
        self.frequency = if t < 0 {
            0
        } else if t > 132 {
            132
        } else {
            t as u32
        };
    }
}

impl Default for Cycle {
    /// A fresh node: the one-second beat, zero phase, white color (each
    /// channel carrying the encoding of a full intensity value).
    fn default() -> (r: Self)
        ensures
            r.frequency == DEFAULT_FREQUENCY,
            r.phase == 0,
            r.wf(),
    {
        Cycle {
            frequency: DEFAULT_FREQUENCY,
            phase: 0,
            color: ColorBits { r: 0x3F800000, g: 0x3F800000, b: 0x3F800000, a: 0x3F800000 },
        }
    }
}

} // verus!
