//! Loads and stores (opcodes `#80`-`#BD`, except the floating-point
//! `LDSF`/`STSF` and the `PUSHGO` pair), with `GO`.
use vstd::prelude::*;
use crate::word::{wrap, sign_extend, fits_width};
use crate::special::{R_P, RA_V};
use crate::state::{
    MState, gpr, sreg, set_reg, set_sreg, with_mem, with_pc, advance, byte_at, wyde_at, tetra_at,
    octa_at, put_byte, put_wyde, put_tetra, put_octa,
};
use crate::exceptions::raise_step;
use crate::integer::z_operand;
use crate::machine::MMix;

verus! {

/// The loads, `CSWAP`, the preload hints and `GO`.
pub open spec fn is_load_op(op: u8) -> bool {
    (0x80 <= op <= 0x8F) || (0x92 <= op <= 0x9F)
}

/// The stores and the synchronization hints.
pub open spec fn is_store_op(op: u8) -> bool {
    (0xA0 <= op <= 0xAF) || (0xB2 <= op <= 0xBD)
}

/// `$Y + $Z` (or `$Y + Z`) modulo 2^64.
pub open spec fn effective_address(s: MState, op: u8, y: u8, z: u8) -> u64 {
    wrap(gpr(s, y) + z_operand(s, op, z))
}

/// The value a load places in `$X`.
pub open spec fn loaded_value(m: Map<u64, u8>, op: u8, a: u64) -> u64 {
    if op <= 0x81 {
        sign_extend(byte_at(m, a) as int, 0x80)
    } else if op <= 0x83 {
        byte_at(m, a) as u64
    } else if op <= 0x85 {
        sign_extend(wyde_at(m, a) as int, 0x8000)
    } else if op <= 0x87 {
        wyde_at(m, a)
    } else if op <= 0x89 {
        sign_extend(tetra_at(m, a) as int, 0x8000_0000)
    } else if op <= 0x8B {
        tetra_at(m, a)
    } else if op <= 0x8F {
        octa_at(m, a)
    } else if op <= 0x93 {
        (tetra_at(m, a) * 0x1_0000_0000) as u64
    } else {
        octa_at(m, a)
    }
}

/// One load-family instruction, after its destination has been claimed.
///
/// Loads read the aligned block containing `$Y + $Z` and sign- or
/// zero-extend it into `$X`; `LDHT` places a tetra in the high half.
/// `CSWAP` stores `$X` and sets `$X = 1` when the octa equals rP, and
/// otherwise loads the octa into rP and sets `$X = 0`. `LDVTS` gives 0,
/// the preloads do nothing, and `GO` sets `$X` to the next address and
/// jumps.
pub open spec fn load_step(s: MState, op: u8, x: u8, y: u8, z: u8) -> (MState, bool) {
    let a = effective_address(s, op, y, z);
    if op == 0x94 || op == 0x95 {
        let mv = octa_at(s.mem, a);
        if mv == sreg(s, R_P) {
            (advance(set_reg(with_mem(s, put_octa(s.mem, a, gpr(s, x))), x, 1)), true)
        } else {
            (advance(set_reg(set_sreg(s, R_P, mv), x, 0)), true)
        }
    } else if op == 0x98 || op == 0x99 {
        (advance(set_reg(s, x, 0)), true)
    } else if 0x9A <= op <= 0x9D {
        (advance(s), true)
    } else if op == 0x9E || op == 0x9F {
        (with_pc(set_reg(s, x, wrap(s.pc + 4)), a), true)
    } else {
        (advance(set_reg(s, x, loaded_value(s.mem, op, a))), true)
    }
}

/// One store-family instruction. `STB`, `STW` and `STT` raise V when `$X`
/// does not fit the field as a signed number, reporting the address and
/// the aligned octa after the store; the unsigned forms never raise.
/// `STHT` stores `$X`'s high tetra, `STCO` the constant `X`.
pub open spec fn store_step(s: MState, op: u8, x: u8, y: u8, z: u8) -> (MState, bool) {
    let a = effective_address(s, op, y, z);
    let v = gpr(s, x);
    let m = s.mem;
    if op == 0xA0 || op == 0xA1 {
        let m1 = put_byte(m, a, (v % 0x100) as u8);
        let f = if fits_width(v, 0x80) { 0 } else { RA_V };
        raise_step(with_mem(s, m1), f, op, x, y, z, a, octa_at(m1, a))
    } else if op == 0xA2 || op == 0xA3 {
        (advance(with_mem(s, put_byte(m, a, (v % 0x100) as u8))), true)
    } else if op == 0xA4 || op == 0xA5 {
        let m1 = put_wyde(m, a, v % 0x1_0000);
        let f = if fits_width(v, 0x8000) { 0 } else { RA_V };
        raise_step(with_mem(s, m1), f, op, x, y, z, a, octa_at(m1, a))
    } else if op == 0xA6 || op == 0xA7 {
        (advance(with_mem(s, put_wyde(m, a, v % 0x1_0000))), true)
    } else if op == 0xA8 || op == 0xA9 {
        let m1 = put_tetra(m, a, v % 0x1_0000_0000);
        let f = if fits_width(v, 0x8000_0000) { 0 } else { RA_V };
        raise_step(with_mem(s, m1), f, op, x, y, z, a, octa_at(m1, a))
    } else if op == 0xAA || op == 0xAB {
        (advance(with_mem(s, put_tetra(m, a, v % 0x1_0000_0000))), true)
    } else if 0xAC <= op <= 0xAF || op == 0xB6 || op == 0xB7 {
        (advance(with_mem(s, put_octa(m, a, v))), true)
    } else if op == 0xB2 || op == 0xB3 {
        (advance(with_mem(s, put_tetra(m, a, v / 0x1_0000_0000))), true)
    } else if op == 0xB4 || op == 0xB5 {
        (advance(with_mem(s, put_octa(m, a, x as u64))), true)
    } else {
        (advance(s), true)
    }
}

/// Whether `v` read as signed fits a field of range `2 * half`.
fn fits(v: u64, half: u64) -> (r: bool)
    requires
        half == 0x80 || half == 0x8000 || half == 0x8000_0000,
    ensures
        r == fits_width(v, half as int),
{
    v < half || v >= 0u64.wrapping_sub(half)
}

impl MMix {
    /// `$Y + $Z` (or `$Y + Z`) modulo 2^64.
    fn effective_address(&self, op: u8, y: u8, z: u8) -> (r: u64)
        requires
            self.wf(),
        ensures
            r == effective_address(self@, op, y, z),
    {
        let b = self.get_register(y);
        let o = self.z_operand(op, z);
        b.wrapping_add(o)
    }

    /// Execute one load-family instruction (see `load_step`).
    pub(crate) fn execute_load(&mut self, op: u8, x: u8, y: u8, z: u8) -> (r: bool)
        requires
            old(self).wf(),
            is_load_op(op),
        ensures
            final(self).wf(),
            (final(self)@, r) == load_step(old(self)@, op, x, y, z),
    {
        let a = self.effective_address(op, y, z);
        if op == 0x94 || op == 0x95 {
            let mv = self.read_octa(a);
            if mv == self.sreg_at(R_P) {
                let xv = self.get_register(x);
                self.write_octa(a, xv);
                self.set_register(x, 1);
            } else {
                self.set_sreg_at(R_P, mv);
                self.set_register(x, 0);
            }
            self.advance_pc();
            return true;
        }
        if op == 0x98 || op == 0x99 {
            self.set_register(x, 0);
            self.advance_pc();
            return true;
        }
        if 0x9A <= op && op <= 0x9D {
            self.advance_pc();
            return true;
        }
        if op == 0x9E || op == 0x9F {
            let next = self.get_pc().wrapping_add(4);
            self.set_register(x, next);
            self.set_pc(a);
            return true;
        }
        let v: u64 = if op <= 0x81 {
            let b = self.read_byte(a);
            if b < 0x80 {
                b as u64
            } else {
                b as u64 + 0xFFFF_FFFF_FFFF_FF00
            }
        } else if op <= 0x83 {
            self.read_byte(a) as u64
        } else if op <= 0x85 {
            let w = self.read_wyde(a);
            if w < 0x8000 {
                w as u64
            } else {
                w as u64 + 0xFFFF_FFFF_FFFF_0000
            }
        } else if op <= 0x87 {
            self.read_wyde(a) as u64
        } else if op <= 0x89 {
            let t = self.read_tetra(a);
            if t < 0x8000_0000 {
                t as u64
            } else {
                t as u64 + 0xFFFF_FFFF_0000_0000
            }
        } else if op <= 0x8B {
            self.read_tetra(a) as u64
        } else if op <= 0x8F {
            self.read_octa(a)
        } else if op <= 0x93 {
            (self.read_tetra(a) as u64) * 0x1_0000_0000
        } else {
            self.read_octa(a)
        };
        self.set_register(x, v);
        self.advance_pc();
        true
    }

    /// Execute one store-family instruction (see `store_step`).
    pub(crate) fn execute_store(&mut self, op: u8, x: u8, y: u8, z: u8) -> (r: bool)
        requires
            old(self).wf(),
            is_store_op(op),
        ensures
            final(self).wf(),
            (final(self)@, r) == store_step(old(self)@, op, x, y, z),
    {
        let a = self.effective_address(op, y, z);
        let v = self.get_register(x);
        if op == 0xA0 || op == 0xA1 {
            self.write_byte(a, (v % 0x100) as u8);
            let merged = self.read_octa(a);
            let f = if fits(v, 0x80) { 0 } else { RA_V };
            self.raise_exceptions(f, op, x, y, z, a, merged)
        } else if op == 0xA2 || op == 0xA3 {
            self.write_byte(a, (v % 0x100) as u8);
            self.advance_pc();
            true
        } else if op == 0xA4 || op == 0xA5 {
            self.write_wyde(a, (v % 0x1_0000) as u16);
            let merged = self.read_octa(a);
            let f = if fits(v, 0x8000) { 0 } else { RA_V };
            self.raise_exceptions(f, op, x, y, z, a, merged)
        } else if op == 0xA6 || op == 0xA7 {
            self.write_wyde(a, (v % 0x1_0000) as u16);
            self.advance_pc();
            true
        } else if op == 0xA8 || op == 0xA9 {
            self.write_tetra(a, (v % 0x1_0000_0000) as u32);
            let merged = self.read_octa(a);
            let f = if fits(v, 0x8000_0000) { 0 } else { RA_V };
            self.raise_exceptions(f, op, x, y, z, a, merged)
        } else if op == 0xAA || op == 0xAB {
            self.write_tetra(a, (v % 0x1_0000_0000) as u32);
            self.advance_pc();
            true
        } else if (0xAC <= op && op <= 0xAF) || op == 0xB6 || op == 0xB7 {
            self.write_octa(a, v);
            self.advance_pc();
            true
        } else if op == 0xB2 || op == 0xB3 {
            self.write_tetra(a, (v / 0x1_0000_0000) as u32);
            self.advance_pc();
            true
        } else if op == 0xB4 || op == 0xB5 {
            self.write_octa(a, x as u64);
            self.advance_pc();
            true
        } else {
            self.advance_pc();
            true
        }
    }
}

} // verus!
