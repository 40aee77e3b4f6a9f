//! The integer instructions: multiply and divide, add and subtract,
//! compare, negate, shifts, bitwise and bit-fiddling operations
//! (opcodes `#18`-`#3F` and `#C0`-`#DF`).
use vstd::prelude::*;
use crate::word::{
    wrap, signed, fits_signed, modulus, compare_signed, compare_unsigned, shift_left,
    shift_left_overflows, shift_right_signed, shift_right_unsigned, lanes_diff, ones, matrix_bits,
    div_quotient, div_remainder, div_overflows, divu_quotient, divu_remainder, add_signed,
    sub_signed, mul_signed, mul_unsigned, div_signed, div_unsigned, cmp_signed, cmp_unsigned,
    scaled_add, shift_left_checked, shift_right_arith, shift_right_logical, lane_difference,
    sideways_add, matrix_multiply,
};
use crate::special::{R_D, R_H, R_M, R_R, RA_D, RA_V};
use crate::state::{MState, gpr, sreg, set_reg, set_sreg, advance};
use crate::exceptions::raise_step;
use crate::machine::MMix;

verus! {

/// The opcodes this module executes.
pub open spec fn is_integer_op(op: u8) -> bool {
    (0x18 <= op <= 0x3F) || (0xC0 <= op <= 0xDF)
}

/// The `Z` operand: the literal `Z` for the odd (immediate) opcodes, `$Z`
/// for the even ones.
pub open spec fn z_operand(s: MState, op: u8, z: u8) -> u64 {
    if op % 2 == 1 {
        z as u64
    } else {
        gpr(s, z)
    }
}

/// The `Y` operand: the literal `Y` for `NEG` and `NEGU`, `$Y` otherwise.
pub open spec fn y_operand(s: MState, op: u8, y: u8) -> u64 {
    if 0x34 <= op <= 0x37 {
        y as u64
    } else {
        gpr(s, y)
    }
}

/// The multiplier `2ADDU`, `4ADDU`, `8ADDU`, `16ADDU` apply to `$Y`.
pub open spec fn scale_of(op: u8) -> u64 {
    if op <= 0x29 {
        2
    } else if op <= 0x2B {
        4
    } else if op <= 0x2D {
        8
    } else {
        16
    }
}

/// The bitwise operations `#C0`-`#CF`: OR, ORN, NOR, XOR, AND, ANDN,
/// NAND, NXOR.
pub open spec fn bitwise_value(op: u8, y: u64, z: u64) -> u64 {
    let k = (op - 0xC0) / 2;
    if k == 0 {
        y | z
    } else if k == 1 {
        y | !z
    } else if k == 2 {
        !(y | z)
    } else if k == 3 {
        y ^ z
    } else if k == 4 {
        y & z
    } else if k == 5 {
        y & !z
    } else if k == 6 {
        !(y & z)
    } else {
        !(y ^ z)
    }
}

/// The result of an integer instruction that writes `$X` only, from its
/// operands (and rM, for `MUX`).
pub open spec fn plain_value(op: u8, y: u64, z: u64, rm: u64) -> u64 {
    if op == 0x22 || op == 0x23 {
        wrap(y + z)
    } else if op == 0x26 || op == 0x27 {
        wrap(y - z)
    } else if 0x28 <= op <= 0x2F {
        wrap(scale_of(op) * y + z)
    } else if op == 0x30 || op == 0x31 {
        compare_signed(y, z)
    } else if op == 0x32 || op == 0x33 {
        compare_unsigned(y, z)
    } else if op == 0x36 || op == 0x37 {
        wrap(y - z)
    } else if op == 0x3A || op == 0x3B {
        shift_left(y, z)
    } else if op == 0x3C || op == 0x3D {
        shift_right_signed(y, z)
    } else if op == 0x3E || op == 0x3F {
        shift_right_unsigned(y, z)
    } else if 0xC0 <= op <= 0xCF {
        bitwise_value(op, y, z)
    } else if op == 0xD0 || op == 0xD1 {
        lanes_diff(y, z, op == 0xD1, 8, 8) as u64
    } else if op == 0xD2 || op == 0xD3 {
        lanes_diff(y, z, op == 0xD3, 16, 4) as u64
    } else if op == 0xD4 || op == 0xD5 {
        lanes_diff(y, z, op == 0xD5, 32, 2) as u64
    } else if op == 0xD6 || op == 0xD7 {
        if y > z {
            (y - z) as u64
        } else {
            0
        }
    } else if op == 0xD8 || op == 0xD9 {
        (y & rm) | (z & !rm)
    } else if op == 0xDA || op == 0xDB {
        ones((y & !z) as int, 64) as u64
    } else if op == 0xDC || op == 0xDD {
        matrix_bits(y, z, false, 64) as u64
    } else {
        matrix_bits(y, z, true, 64) as u64
    }
}

/// Whether an opcode is one of the plain-valued integer instructions.
pub open spec fn is_plain_op(op: u8) -> bool {
    (0x22 <= op <= 0x23) || (0x26 <= op <= 0x33) || (0x36 <= op <= 0x37) || (0x3A <= op <= 0x3F)
        || (0xC0 <= op <= 0xDF)
}

/// One integer instruction, after its destination has been claimed.
///
/// `MUL`, `DIV`, `ADD`, `SUB`, `NEG` and `SL` write `$X` and then raise V
/// on signed overflow (`DIV` raises D on a zero divisor instead); `MULU`
/// leaves the high octa of the product in rH; `DIV` and `DIVU` leave the
/// remainder in rR, and `DIVU` divides the 128-bit `rD:$Y`.
pub open spec fn integer_step(s: MState, op: u8, x: u8, y: u8, z: u8) -> (MState, bool) {
    let yv = y_operand(s, op, y);
    let zv = z_operand(s, op, z);
    if op == 0x18 || op == 0x19 {
        let f = if fits_signed(signed(yv) * signed(zv)) { 0 } else { RA_V };
        raise_step(set_reg(s, x, wrap(signed(yv) * signed(zv))), f, op, x, y, z, yv, zv)
    } else if op == 0x1A || op == 0x1B {
        let p = yv as int * zv as int;
        let s1 = set_sreg(s, R_H, (p / modulus()) as u64);
        (advance(set_reg(s1, x, (p % modulus()) as u64)), true)
    } else if op == 0x1C || op == 0x1D {
        let s1 = set_sreg(set_reg(s, x, div_quotient(yv, zv)), R_R, div_remainder(yv, zv));
        let f = if zv == 0 {
            RA_D
        } else if div_overflows(yv, zv) {
            RA_V
        } else {
            0
        };
        raise_step(s1, f, op, x, y, z, yv, zv)
    } else if op == 0x1E || op == 0x1F {
        let rd = sreg(s, R_D);
        let s1 = set_sreg(set_reg(s, x, divu_quotient(rd, yv, zv)), R_R, divu_remainder(rd, yv, zv));
        (advance(s1), true)
    } else if op == 0x20 || op == 0x21 {
        let f = if fits_signed(signed(yv) + signed(zv)) { 0 } else { RA_V };
        raise_step(set_reg(s, x, wrap(yv + zv)), f, op, x, y, z, yv, zv)
    } else if op == 0x24 || op == 0x25 || op == 0x34 || op == 0x35 {
        let f = if fits_signed(signed(yv) - signed(zv)) { 0 } else { RA_V };
        raise_step(set_reg(s, x, wrap(yv - zv)), f, op, x, y, z, yv, zv)
    } else if op == 0x38 || op == 0x39 {
        let f = if shift_left_overflows(yv, zv) { RA_V } else { 0 };
        raise_step(set_reg(s, x, shift_left(yv, zv)), f, op, x, y, z, yv, zv)
    } else {
        (advance(set_reg(s, x, plain_value(op, yv, zv, sreg(s, R_M)))), true)
    }
}

/// The bitwise operations `#C0`-`#CF`.
fn bitwise(op: u8, y: u64, z: u64) -> (r: u64)
    requires
        0xC0 <= op <= 0xCF,
    ensures
        r == bitwise_value(op, y, z),
{
    let k = (op - 0xC0) / 2;
    if k == 0 {
        y | z
    } else if k == 1 {
        y | !z
    } else if k == 2 {
        !(y | z)
    } else if k == 3 {
        y ^ z
    } else if k == 4 {
        y & z
    } else if k == 5 {
        y & !z
    } else if k == 6 {
        !(y & z)
    } else {
        !(y ^ z)
    }
}

/// The plain-valued integer instructions (see `plain_value`).
fn plain_result(op: u8, y: u64, z: u64, rm: u64) -> (r: u64)
    requires
        is_plain_op(op),
        op % 2 == 1 ==> z < 256,
    ensures
        r == plain_value(op, y, z, rm),
{
    if op == 0x22 || op == 0x23 {
        y.wrapping_add(z)
    } else if op == 0x26 || op == 0x27 {
        y.wrapping_sub(z)
    } else if 0x28 <= op && op <= 0x2F {
        let k: u64 = if op <= 0x29 {
            2
        } else if op <= 0x2B {
            4
        } else if op <= 0x2D {
            8
        } else {
            16
        };
        scaled_add(k, y, z)
    } else if op == 0x30 || op == 0x31 {
        cmp_signed(y, z)
    } else if op == 0x32 || op == 0x33 {
        cmp_unsigned(y, z)
    } else if op == 0x36 || op == 0x37 {
        y.wrapping_sub(z)
    } else if op == 0x3A || op == 0x3B {
        shift_left_checked(y, z).0
    } else if op == 0x3C || op == 0x3D {
        shift_right_arith(y, z)
    } else if op == 0x3E || op == 0x3F {
        shift_right_logical(y, z)
    } else if 0xC0 <= op && op <= 0xCF {
        bitwise(op, y, z)
    } else if op == 0xD0 || op == 0xD1 {
        lane_difference(y, z, op == 0xD1, 8)
    } else if op == 0xD2 || op == 0xD3 {
        lane_difference(y, z, op == 0xD3, 16)
    } else if op == 0xD4 || op == 0xD5 {
        lane_difference(y, z, op == 0xD5, 32)
    } else if op == 0xD6 || op == 0xD7 {
        if y > z {
            y - z
        } else {
            0
        }
    } else if op == 0xD8 || op == 0xD9 {
        (y & rm) | (z & !rm)
    } else if op == 0xDA || op == 0xDB {
        sideways_add(y, z)
    } else if op == 0xDC || op == 0xDD {
        matrix_multiply(y, z, false)
    } else {
        matrix_multiply(y, z, true)
    }
}

impl MMix {
    /// The `Z` operand of an instruction (see `z_operand`).
    pub(crate) fn z_operand(&self, op: u8, z: u8) -> (r: u64)
        requires
            self.wf(),
        ensures
            r == z_operand(self@, op, z),
    {
        if op % 2 == 1 {
            z as u64
        } else {
            self.get_register(z)
        }
    }

    /// Execute one integer instruction whose destination is already
    /// claimed (see `integer_step`). Returns whether execution continues.
    pub(crate) fn execute_integer(&mut self, op: u8, x: u8, y: u8, z: u8) -> (r: bool)
        requires
            old(self).wf(),
            is_integer_op(op),
        ensures
            final(self).wf(),
            (final(self)@, r) == integer_step(old(self)@, op, x, y, z),
    {
        let yv = if 0x34 <= op && op <= 0x37 {
            y as u64
        } else {
            self.get_register(y)
        };
        let zv = self.z_operand(op, z);
        if op == 0x18 || op == 0x19 {
            let (v, overflow) = mul_signed(yv, zv);
            self.set_register(x, v);
            let f = if overflow { RA_V } else { 0 };
            self.raise_exceptions(f, op, x, y, z, yv, zv)
        } else if op == 0x1A || op == 0x1B {
            let (lo, hi) = mul_unsigned(yv, zv);
            self.set_sreg_at(R_H, hi);
            self.set_register(x, lo);
            self.advance_pc();
            true
        } else if op == 0x1C || op == 0x1D {
            let (q, rem, overflow) = div_signed(yv, zv);
            self.set_register(x, q);
            self.set_sreg_at(R_R, rem);
            let f = if zv == 0 {
                RA_D
            } else if overflow {
                RA_V
            } else {
                0
            };
            self.raise_exceptions(f, op, x, y, z, yv, zv)
        } else if op == 0x1E || op == 0x1F {
            let rd = self.sreg_at(R_D);
            let (q, rem) = div_unsigned(rd, yv, zv);
            self.set_register(x, q);
            self.set_sreg_at(R_R, rem);
            self.advance_pc();
            true
        } else if op == 0x20 || op == 0x21 {
            let (v, overflow) = add_signed(yv, zv);
            self.set_register(x, v);
            let f = if overflow { RA_V } else { 0 };
            self.raise_exceptions(f, op, x, y, z, yv, zv)
        } else if op == 0x24 || op == 0x25 || op == 0x34 || op == 0x35 {
            let (v, overflow) = sub_signed(yv, zv);
            self.set_register(x, v);
            let f = if overflow { RA_V } else { 0 };
            self.raise_exceptions(f, op, x, y, z, yv, zv)
        } else if op == 0x38 || op == 0x39 {
            let (v, overflow) = shift_left_checked(yv, zv);
            self.set_register(x, v);
            let f = if overflow { RA_V } else { 0 };
            self.raise_exceptions(f, op, x, y, z, yv, zv)
        } else {
            let rm = self.sreg_at(R_M);
            let v = plain_result(op, yv, zv, rm);
            self.set_register(x, v);
            self.advance_pc();
            true
        }
    }
}

} // verus!
