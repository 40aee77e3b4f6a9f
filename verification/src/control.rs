//! Branches, conditional and zero-or-set, the wyde-immediate family, and
//! the relative jumps and addresses (`JMP`, `GETA`).
use vstd::prelude::*;
use crate::word::{wrap, is_negative};
use crate::state::{MState, gpr, set_reg, with_pc, advance};
use crate::integer::z_operand;
use crate::machine::MMix;

verus! {

/// Whether condition `c` (the opcode's bits 1-3) holds of `v`: negative,
/// zero, positive, odd, nonnegative, nonzero, nonpositive, even.
pub open spec fn condition_holds(c: u8, v: u64) -> bool {
    if c == 0 {
        is_negative(v)
    } else if c == 1 {
        v == 0
    } else if c == 2 {
        v != 0 && !is_negative(v)
    } else if c == 3 {
        v % 2 == 1
    } else if c == 4 {
        !is_negative(v)
    } else if c == 5 {
        v != 0
    } else if c == 6 {
        v == 0 || is_negative(v)
    } else {
        v % 2 == 0
    }
}

/// The 16-bit field `YZ`.
pub open spec fn yz_of(y: u8, z: u8) -> int {
    y as int * 0x100 + z as int
}

/// The 24-bit field `XYZ`.
pub open spec fn xyz_of(x: u8, y: u8, z: u8) -> int {
    x as int * 0x1_0000 + y as int * 0x100 + z as int
}

/// The target of a relative address with field `YZ`: `PC + 4*YZ` for the
/// forward opcode, `PC + 4*(YZ - 2^16)` for the backward one.
pub open spec fn relative_target(pc: u64, y: u8, z: u8, backward: bool) -> u64 {
    if backward {
        wrap(pc + 4 * yz_of(y, z) - 0x4_0000)
    } else {
        wrap(pc + 4 * yz_of(y, z))
    }
}

/// The opcodes this module executes.
pub open spec fn is_control_op(op: u8) -> bool {
    (0x40 <= op <= 0x7F) || (0xE0 <= op <= 0xF1) || op == 0xF4 || op == 0xF5
}

/// The value `SETH`..`ANDNL` combine with `$X`: `YZ` shifted into the
/// opcode's wyde (high, medium high, medium low, low).
pub open spec fn wyde_immediate(op: u8, y: u8, z: u8) -> u64 {
    let k = op % 4;
    if k == 0 {
        (yz_of(y, z) * 0x1_0000_0000_0000) as u64
    } else if k == 1 {
        (yz_of(y, z) * 0x1_0000_0000) as u64
    } else if k == 2 {
        (yz_of(y, z) * 0x1_0000) as u64
    } else {
        yz_of(y, z) as u64
    }
}

/// One control-family instruction, after its destination was claimed.
///
/// Branches (`#40`-`#5F`) test `$X` and move to the relative target or
/// fall through. `CS..` (`#60`-`#6F`) test `$Y` and set `$X` to the `Z`
/// operand only when the condition holds; `ZS..` (`#70`-`#7F`) set it to
/// the operand or to zero. `SET..` replace `$X` with the wyde immediate,
/// `INC..` add it, `OR..` or it, `ANDN..` clear its bits. `JMP` moves by
/// `4*XYZ`, `JMPB` by `4*(XYZ - 2^24)`; `GETA` puts a relative address in
/// `$X`.
pub open spec fn control_step(s: MState, op: u8, x: u8, y: u8, z: u8) -> (MState, bool) {
    if op < 0x60 {
        let c = ((op / 2) % 8) as u8;
        if condition_holds(c, gpr(s, x)) {
            (with_pc(s, relative_target(s.pc, y, z, op % 2 == 1)), true)
        } else {
            (advance(s), true)
        }
    } else if op < 0x70 {
        let c = ((op / 2) % 8) as u8;
        if condition_holds(c, gpr(s, y)) {
            (advance(set_reg(s, x, z_operand(s, op, z))), true)
        } else {
            (advance(s), true)
        }
    } else if op < 0x80 {
        let c = ((op / 2) % 8) as u8;
        let v = if condition_holds(c, gpr(s, y)) { z_operand(s, op, z) } else { 0 };
        (advance(set_reg(s, x, v)), true)
    } else if op < 0xF0 {
        let imm = wyde_immediate(op, y, z);
        let cur = gpr(s, x);
        let kind = (op - 0xE0) / 4;
        let v = if kind == 0 {
            imm
        } else if kind == 1 {
            wrap(cur + imm)
        } else if kind == 2 {
            cur | imm
        } else {
            cur & !imm
        };
        (advance(set_reg(s, x, v)), true)
    } else if op == 0xF0 {
        (with_pc(s, wrap(s.pc + 4 * xyz_of(x, y, z))), true)
    } else if op == 0xF1 {
        (with_pc(s, wrap(s.pc + 4 * xyz_of(x, y, z) - 0x400_0000)), true)
    } else {
        (advance(set_reg(s, x, relative_target(s.pc, y, z, op == 0xF5))), true)
    }
}

/// Whether condition `c` holds of `v` (see `condition_holds`).
fn test_condition(c: u8, v: u64) -> (r: bool)
    requires
        c < 8,
    ensures
        r == condition_holds(c, v),
{
    let neg = v >= 0x8000_0000_0000_0000;
    if c == 0 {
        neg
    } else if c == 1 {
        v == 0
    } else if c == 2 {
        v != 0 && !neg
    } else if c == 3 {
        v % 2 == 1
    } else if c == 4 {
        !neg
    } else if c == 5 {
        v != 0
    } else if c == 6 {
        v == 0 || neg
    } else {
        v % 2 == 0
    }
}

/// The relative target for `PC`, `YZ` and direction.
pub(crate) fn relative_address(pc: u64, y: u8, z: u8, backward: bool) -> (r: u64)
    ensures
        r == relative_target(pc, y, z, backward),
{
    let yz = (y as u64) * 0x100 + (z as u64);
    if backward {
        proof {
            crate::word::lemma_wrap_multiple(pc + 4 * yz_of(y, z) - 0x4_0000, 1);
        }
        pc.wrapping_sub((0x1_0000 - yz) * 4)
    } else {
        pc.wrapping_add(yz * 4)
    }
}

impl MMix {
    /// Execute one control-family instruction (see `control_step`).
    pub(crate) fn execute_control(&mut self, op: u8, x: u8, y: u8, z: u8) -> (r: bool)
        requires
            old(self).wf(),
            is_control_op(op),
        ensures
            final(self).wf(),
            (final(self)@, r) == control_step(old(self)@, op, x, y, z),
    {
        let pc = self.get_pc();
        if op < 0x60 {
            let c = (op / 2) % 8;
            let v = self.get_register(x);
            if test_condition(c, v) {
                let t = relative_address(pc, y, z, op % 2 == 1);
                self.set_pc(t);
            } else {
                self.advance_pc();
            }
            true
        } else if op < 0x70 {
            let c = (op / 2) % 8;
            let v = self.get_register(y);
            if test_condition(c, v) {
                let zv = self.z_operand(op, z);
                self.set_register(x, zv);
            }
            self.advance_pc();
            true
        } else if op < 0x80 {
            let c = (op / 2) % 8;
            let v = self.get_register(y);
            let r = if test_condition(c, v) {
                self.z_operand(op, z)
            } else {
                0
            };
            self.set_register(x, r);
            self.advance_pc();
            true
        } else if op < 0xF0 {
            let yz = (y as u64) * 0x100 + (z as u64);
            let k = op % 4;
            let imm: u64 = if k == 0 {
                yz * 0x1_0000_0000_0000
            } else if k == 1 {
                yz * 0x1_0000_0000
            } else if k == 2 {
                yz * 0x1_0000
            } else {
                yz
            };
            let cur = self.get_register(x);
            let kind = (op - 0xE0) / 4;
            let v = if kind == 0 {
                imm
            } else if kind == 1 {
                cur.wrapping_add(imm)
            } else if kind == 2 {
                cur | imm
            } else {
                cur & !imm
            };
            self.set_register(x, v);
            self.advance_pc();
            true
        } else if op == 0xF0 {
            let xyz = (x as u64) * 0x1_0000 + (y as u64) * 0x100 + (z as u64);
            self.set_pc(pc.wrapping_add(xyz * 4));
            true
        } else if op == 0xF1 {
            let xyz = (x as u64) * 0x1_0000 + (y as u64) * 0x100 + (z as u64);
            proof {
                crate::word::lemma_wrap_multiple(pc + 4 * xyz_of(x, y, z) - 0x400_0000, 1);
            }
            self.set_pc(pc.wrapping_sub((0x100_0000 - xyz) * 4));
            true
        } else {
            let t = relative_address(pc, y, z, op == 0xF5);
            self.set_register(x, t);
            self.advance_pc();
            true
        }
    }
}

} // verus!
