//! The system instructions: `TRAP`, `PUT`/`PUTI`, `GET`, `TRIP`, `SYNC`
//! and `SWYM`.
use vstd::prelude::*;
use crate::word::wrap;
use crate::special::{SpecialReg, reg_of_number, R_A, R_BB, R_G, R_L, RA_MAX};
use crate::event::{Diagnostic, Event, TrapCode, trap_of_byte};
use crate::state::{MState, gpr, sreg, set_reg, set_sreg, advance, report, diagnose, zero_span};
use crate::exceptions::trip_step;
use crate::stack::cap256;
use crate::machine::MMix;

verus! {

/// `TRAP X,Y,Z` (`#00`).
///
/// With `X != 0` (the register form) rBB takes `$Y * 2^32 | $Z`, a
/// diagnostic is reported and the machine halts past the instruction.
/// `TRAP 0,Halt,Z` sets the exit code to `$255`, reports the halt and
/// halts past the instruction. Any other known system call is reported
/// for the runner to perform and execution continues; an unknown one is
/// reported as unhandled and execution continues.
pub open spec fn trap_step(s: MState, x: u8, y: u8, z: u8) -> (MState, bool) {
    if x != 0 {
        let v = (gpr(s, y) << 32u64) | gpr(s, z);
        let s1 = diagnose(s, Diagnostic::RegisterTrap { x: x, y: y, z: z, value: v, pc: s.pc });
        (advance(set_sreg(s1, R_BB, v)), false)
    } else {
        match trap_of_byte(y) {
            None => (advance(diagnose(s, Diagnostic::UnhandledTrap { code: y, pc: s.pc })), true),
            Some(TrapCode::Halt) => {
                let code = gpr(s, 255);
                let s1 = report(MState { exit_code: code, ..s }, Event::Halted { arg: z, exit_code: code });
                (advance(diagnose(s1, Diagnostic::Halt { exit_code: code, pc: s.pc })), false)
            },
            Some(c) => (
                advance(report(s, Event::HostCall { code: c, arg: z, arg255: gpr(s, 255) })),
                true,
            ),
        }
    }
}

/// Whether `PUT` may never write register `x` (rN, rO, rS).
pub open spec fn put_read_only(x: u8) -> bool {
    9 <= x <= 11
}

/// Whether `PUT` to register `x` needs privilege (rC, rI, rT, rTT, rK,
/// rQ, rU, rV).
pub open spec fn put_privileged(x: u8) -> bool {
    x == 8 || (12 <= x <= 18)
}

/// `PUT X,$Z` (`#F6`) and `PUTI X,Z` (`#F7`) with the value `v`.
///
/// A number above 31, a read-only register, a privileged register, an rA
/// above `RA_MAX`, and an rG outside `32..=255` or below rL are refused:
/// a diagnostic, no change, the machine halts on the instruction. `PUT rL`
/// can only lower rL, zeroing the locals it drops. `PUT rG` zeroes every
/// register it moves between local and global. Any other register takes
/// the value.
pub open spec fn put_step(s: MState, x: u8, v: u64) -> (MState, bool) {
    if x >= 32 {
        (diagnose(s, Diagnostic::PutNoSuchRegister { x: x, pc: s.pc }), false)
    } else if put_read_only(x) {
        (diagnose(s, Diagnostic::PutReadOnly { reg: reg_of_number(x as nat).unwrap(), pc: s.pc }), false)
    } else if put_privileged(x) {
        (diagnose(s, Diagnostic::PutPrivileged { reg: reg_of_number(x as nat).unwrap(), pc: s.pc }), false)
    } else if x == R_A as u8 {
        if v > RA_MAX {
            (diagnose(s, Diagnostic::PutRaTooLarge { value: v, pc: s.pc }), false)
        } else {
            (advance(set_sreg(s, R_A, v)), true)
        }
    } else if x == R_L as u8 {
        let rl = sreg(s, R_L);
        if v < rl {
            let hi = if cap256(rl) < cap256(sreg(s, R_G)) { cap256(rl) } else { cap256(sreg(s, R_G)) };
            let s1 = MState { regs: zero_span(s.regs, v as int, hi), ..s };
            (advance(set_sreg(s1, R_L, v)), true)
        } else {
            (advance(s), true)
        }
    } else if x == R_G as u8 {
        let rl = sreg(s, R_L);
        if v < 32 || v > 255 || v < rl {
            (diagnose(s, Diagnostic::PutRgOutOfRange { value: v, rl: rl, pc: s.pc }), false)
        } else {
            let og = sreg(s, R_G);
            let lo = if og < v { og as int } else { v as int };
            let hi = if og < v { v as int } else { cap256(og) };
            let s1 = MState { regs: zero_span(s.regs, lo, hi), ..s };
            (advance(set_sreg(s1, R_G, v)), true)
        }
    } else {
        (advance(set_sreg(s, x as usize, v)), true)
    }
}

/// `GET $X,Z` (`#FE`), after `$X` was claimed: `$X` takes special register
/// `Z`; a `Z` above 31 names none and only the PC moves.
pub open spec fn get_step(s: MState, x: u8, z: u8) -> (MState, bool) {
    if z < 32 {
        (advance(set_reg(s, x, sreg(s, z as usize))), true)
    } else {
        (advance(s), true)
    }
}

/// `TRIP X,Y,Z` (`#FF`): a trip to the handler at `#00`.
pub open spec fn trip_instruction_step(s: MState, x: u8, y: u8, z: u8) -> (MState, bool) {
    trip_step(s, 0, 0, 0xFF, x, y, z, gpr(s, y), gpr(s, z))
}

impl MMix {
    /// `TRAP X,Y,Z` (see `trap_step`).
    pub(crate) fn execute_trap(&mut self, x: u8, y: u8, z: u8) -> (r: bool)
        requires
            old(self).wf(),
        ensures
            final(self).wf(),
            (final(self)@, r) == trap_step(old(self)@, x, y, z),
    {
        let pc = self.get_pc();
        if x != 0 {
            let v = (self.get_register(y) << 32u64) | self.get_register(z);
            self.diagnose(Diagnostic::RegisterTrap { x, y, z, value: v, pc });
            self.set_sreg_at(R_BB, v);
            self.advance_pc();
            return false;
        }
        match TrapCode::from_u8(y) {
            None => {
                self.diagnose(Diagnostic::UnhandledTrap { code: y, pc });
                self.advance_pc();
                true
            },
            Some(TrapCode::Halt) => {
                let code = self.get_register(255);
                self.set_exit_code(code);
                self.report(Event::Halted { arg: z, exit_code: code });
                self.diagnose(Diagnostic::Halt { exit_code: code, pc });
                self.advance_pc();
                false
            },
            Some(c) => {
                let a = self.get_register(255);
                self.report(Event::HostCall { code: c, arg: z, arg255: a });
                self.advance_pc();
                true
            },
        }
    }

    /// `PUT`/`PUTI` with value `v` (see `put_step`).
    pub(crate) fn execute_put(&mut self, x: u8, v: u64) -> (r: bool)
        requires
            old(self).wf(),
        ensures
            final(self).wf(),
            (final(self)@, r) == put_step(old(self)@, x, v),
    {
        let pc = self.get_pc();
        if x >= 32 {
            self.diagnose(Diagnostic::PutNoSuchRegister { x, pc });
            return false;
        }
        if 9 <= x && x <= 11 {
            let reg = SpecialReg::from_u8(x).unwrap();
            self.diagnose(Diagnostic::PutReadOnly { reg, pc });
            return false;
        }
        if x == 8 || (12 <= x && x <= 18) {
            let reg = SpecialReg::from_u8(x).unwrap();
            self.diagnose(Diagnostic::PutPrivileged { reg, pc });
            return false;
        }
        if x == R_A as u8 {
            if v > RA_MAX {
                self.diagnose(Diagnostic::PutRaTooLarge { value: v, pc });
                return false;
            }
            self.set_sreg_at(R_A, v);
        } else if x == R_L as u8 {
            let rl = self.sreg_at(R_L);
            if v < rl {
                let rg = self.sreg_at(R_G);
                let l: usize = if rl > 256 {
                    256
                } else {
                    rl as usize
                };
                let g: usize = if rg > 256 {
                    256
                } else {
                    rg as usize
                };
                let hi = if l < g {
                    l
                } else {
                    g
                };
                if v < hi as u64 {
                    self.zero_registers(v as usize, hi);
                } else {
                    proof {
                        assert(self@.regs =~= zero_span(self@.regs, v as int, hi as int));
                    }
                }
                self.set_sreg_at(R_L, v);
            }
        } else if x == R_G as u8 {
            let rl = self.sreg_at(R_L);
            if v < 32 || v > 255 || v < rl {
                self.diagnose(Diagnostic::PutRgOutOfRange { value: v, rl, pc });
                return false;
            }
            let og = self.sreg_at(R_G);
            let lo: usize = if og < v {
                og as usize
            } else {
                v as usize
            };
            let hi: usize = if og < v {
                v as usize
            } else if og > 256 {
                256
            } else {
                og as usize
            };
            self.zero_registers(lo, hi);
            self.set_sreg_at(R_G, v);
        } else {
            self.set_sreg_at(x as usize, v);
        }
        self.advance_pc();
        true
    }

    /// `GET $X,Z` (see `get_step`).
    pub(crate) fn execute_get(&mut self, x: u8, z: u8) -> (r: bool)
        requires
            old(self).wf(),
        ensures
            final(self).wf(),
            (final(self)@, r) == get_step(old(self)@, x, z),
    {
        if z < 32 {
            let v = self.sreg_at(z as usize);
            self.set_register(x, v);
        }
        self.advance_pc();
        true
    }

    /// `TRIP X,Y,Z` (see `trip_instruction_step`).
    pub(crate) fn execute_trip(&mut self, x: u8, y: u8, z: u8) -> (r: bool)
        requires
            old(self).wf(),
        ensures
            final(self).wf(),
            (final(self)@, r) == trip_instruction_step(old(self)@, x, y, z),
    {
        let yv = self.get_register(y);
        let zv = self.get_register(z);
        self.trip(0, 0, 0xFF, x, y, z, yv, zv)
    }
}

} // verus!
