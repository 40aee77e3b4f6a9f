//! Completing floating-point instructions. The arithmetic itself happens
//! outside the library; what it hands back (a result octa or a stored
//! short float, and the rA bits it raised) goes through the same register
//! claim, memory write and exception routing as every other instruction.
use vstd::prelude::*;
use crate::special::R_A;
use crate::state::{MState, set_reg, sreg, with_mem, put_tetra, octa_at};
use crate::exceptions::raise_step;
use crate::machine::MMix;

verus! {

/// The rounding mode a floating-point instruction uses: its `Y` field when
/// that is 1 through 4 (`ROUND_OFF`, `ROUND_UP`, `ROUND_DOWN`,
/// `ROUND_NEAR`), else rA's current mode, with rA's field read as
/// 0 = near, 1 = off, 2 = up, 3 = down. The result counts as rA does.
pub open spec fn rounding_mode(s: MState, y: u8) -> u64 {
    if y == 1 {
        1
    } else if y == 2 {
        2
    } else if y == 3 {
        3
    } else if y == 4 {
        0
    } else {
        (sreg(s, R_A) / 0x1_0000) % 4
    }
}

impl MMix {
    /// The rounding mode an instruction with rounding field `y` uses, as rA
    /// counts modes (0 near, 1 off, 2 up, 3 down), or `None` for a field
    /// above 4, which names no mode.
    pub fn rounding_mode(&self, y: u8) -> (r: Option<u64>)
        requires
            self.wf(),
        ensures
            r == (if y <= 4 { Some(rounding_mode(self@, y)) } else { None::<u64> }),
            r matches Some(m) ==> m < 4,
    {
        if y > 4 {
            None
        } else if y == 1 {
            Some(1)
        } else if y == 2 {
            Some(2)
        } else if y == 3 {
            Some(3)
        } else if y == 4 {
            Some(0)
        } else {
            Some((self.get_special(crate::special::SpecialReg::RA) / 0x1_0000) % 4)
        }
    }

    /// Finish a floating-point instruction whose result `value` and raised
    /// rA bits `flags` were computed outside: `$X` takes `value` (claimed
    /// as a local first), then `flags` are routed through rA as any
    /// arithmetic instruction's are, with `yv` and `zv` as its operands.
    pub fn finish_float(&mut self, op: u8, x: u8, y: u8, z: u8, value: u64, flags: u64, yv: u64, zv: u64) -> (r: bool)
        requires
            old(self).wf(),
        ensures
            final(self).wf(),
            (final(self)@, r) == raise_step(set_reg(old(self)@, x, value), flags, op, x, y, z, yv, zv),
    {
        self.set_register(x, value);
        self.raise_exceptions(flags, op, x, y, z, yv, zv)
    }

    /// Finish a short-float store computed outside: the tetra `bits` goes
    /// to `addr`'s tetra block, then `flags` are routed through rA, a trip
    /// reporting the address and the octa holding the stored tetra.
    pub fn finish_float_store(&mut self, op: u8, x: u8, y: u8, z: u8, addr: u64, bits: u32, flags: u64) -> (r: bool)
        requires
            old(self).wf(),
        ensures
            final(self).wf(),
            ({
                let m = put_tetra(old(self)@.mem, addr, bits as u64);
                (final(self)@, r) == raise_step(with_mem(old(self)@, m), flags, op, x, y, z, addr, octa_at(m, addr))
            }),
    {
        self.write_tetra(addr, bits);
        let merged = self.read_octa(addr);
        self.raise_exceptions(flags, op, x, y, z, addr, merged)
    }
}

} // verus!
