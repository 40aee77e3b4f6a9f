//! Arithmetic exceptions: routing raised rA bits through rA's enables, and
//! the transfer of control to a `TRIP` or exception handler.
use vstd::prelude::*;
use crate::word::wrap;
use crate::special::{R_A, R_B, R_J, R_W, R_X, R_Y, R_Z};
use crate::event::{Diagnostic, Event};
use crate::state::{MState, gpr, sreg, set_reg, set_sreg, with_pc, advance, diagnose};
use crate::machine::MMix;

verus! {

/// The leftmost bit of `v` among rA's eight event bits `D V W I O U Z X`
/// (0x80 down to 0x01), or 0 if none is set.
pub open spec fn leftmost_event(v: u64) -> u64 {
    if v & 0x80 != 0 {
        0x80
    } else if v & 0x40 != 0 {
        0x40
    } else if v & 0x20 != 0 {
        0x20
    } else if v & 0x10 != 0 {
        0x10
    } else if v & 0x08 != 0 {
        0x08
    } else if v & 0x04 != 0 {
        0x04
    } else if v & 0x02 != 0 {
        0x02
    } else if v & 0x01 != 0 {
        0x01
    } else {
        0
    }
}

/// The handler address for a tripped event bit: `D V W I O U Z X` go to
/// `#10 #20 #30 #40 #50 #60 #70 #80`.
pub open spec fn handler_vector(bit: u64) -> u64 {
    if bit == 0x80 {
        0x10
    } else if bit == 0x40 {
        0x20
    } else if bit == 0x20 {
        0x30
    } else if bit == 0x10 {
        0x40
    } else if bit == 0x08 {
        0x50
    } else if bit == 0x04 {
        0x60
    } else if bit == 0x02 {
        0x70
    } else {
        0x80
    }
}

/// The name a report gives what tripped: the letter of an rA event bit,
/// or `TRIP` for the instruction itself.
pub open spec fn cause_name(cause: u64) -> Seq<char> {
    if cause == 0x80 { seq!['D'] }
    else if cause == 0x40 { seq!['V'] }
    else if cause == 0x20 { seq!['W'] }
    else if cause == 0x10 { seq!['I'] }
    else if cause == 0x08 { seq!['O'] }
    else if cause == 0x04 { seq!['U'] }
    else if cause == 0x02 { seq!['Z'] }
    else if cause == 0x01 { seq!['X'] }
    else { seq!['T', 'R', 'I', 'P'] }
}

/// The name of what tripped (see `cause_name`).
pub fn trip_cause_name(cause: u64) -> (r: &'static str)
    ensures
        r@ == cause_name(cause),
{
    if cause == 0x80 { proof { reveal_strlit("D"); } "D" }
    else if cause == 0x40 { proof { reveal_strlit("V"); } "V" }
    else if cause == 0x20 { proof { reveal_strlit("W"); } "W" }
    else if cause == 0x10 { proof { reveal_strlit("I"); } "I" }
    else if cause == 0x08 { proof { reveal_strlit("O"); } "O" }
    else if cause == 0x04 { proof { reveal_strlit("U"); } "U" }
    else if cause == 0x02 { proof { reveal_strlit("Z"); } "Z" }
    else if cause == 0x01 { proof { reveal_strlit("X"); } "X" }
    else { proof { reveal_strlit("TRIP"); } "TRIP" }
}

/// The `rX` a trip records: the sign bit over the instruction `OP X Y Z`.
pub open spec fn trip_rx(op: u8, x: u8, y: u8, z: u8) -> u64 {
    (0x8000_0000_0000_0000 + op as int * 0x100_0000 + x as int * 0x1_0000 + y as int * 0x100
        + z as int) as u64
}

/// Whether every byte of the tetra at `v` came from the program image.
pub open spec fn vector_loaded(s: MState, v: u64) -> bool {
    &&& s.loaded.contains(v)
    &&& s.loaded.contains((v + 1) as u64)
    &&& s.loaded.contains((v + 2) as u64)
    &&& s.loaded.contains((v + 3) as u64)
}

/// A trip to `vector`: rB takes `$255`, `$255` takes rJ, rW the address
/// after this instruction, rX the instruction itself, rY and rZ the
/// operands. Control then moves to `vector`; if the program image did not
/// supply the vector, the machine instead halts there, with exit code 1
/// and a diagnostic naming `cause`, and leaves the PC on the instruction.
pub open spec fn trip_step(
    s: MState,
    vector: u64,
    cause: u64,
    op: u8,
    x: u8,
    y: u8,
    z: u8,
    yv: u64,
    zv: u64,
) -> (MState, bool) {
    let s1 = set_sreg(s, R_B, gpr(s, 255));
    let s2 = set_reg(s1, 255, sreg(s1, R_J));
    let s3 = set_sreg(s2, R_W, wrap(s.pc + 4));
    let s4 = set_sreg(s3, R_X, trip_rx(op, x, y, z));
    let s5 = set_sreg(set_sreg(s4, R_Y, yv), R_Z, zv);
    if vector_loaded(s5, vector) {
        (with_pc(s5, vector), true)
    } else {
        (
            diagnose(
                MState { exit_code: 1, ..s5 },
                Diagnostic::UnloadedVector { cause: cause, vector: vector, pc: s.pc },
            ),
            false,
        )
    }
}

/// Route the raised rA bits `flags` through rA's enable byte. A raised bit
/// whose enable is clear sets its event bit in rA. The leftmost raised bit
/// whose enable is set trips to its handler; any other raised and enabled
/// bit is dropped. With nothing tripping the PC advances.
pub open spec fn raise_step(
    s: MState,
    flags: u64,
    op: u8,
    x: u8,
    y: u8,
    z: u8,
    yv: u64,
    zv: u64,
) -> (MState, bool) {
    if flags == 0 {
        (advance(s), true)
    } else {
        let ra = sreg(s, R_A);
        let enable = (ra / 0x100) % 0x100;
        let events = flags & 0xFF & !enable;
        let tripped = leftmost_event(flags & enable);
        let s1 = if events != 0 {
            set_sreg(s, R_A, ra | events)
        } else {
            s
        };
        if tripped != 0 {
            trip_step(s1, handler_vector(tripped), tripped, op, x, y, z, yv, zv)
        } else {
            (advance(s1), true)
        }
    }
}

impl MMix {
    /// Whether the program image supplied all four bytes at `v`.
    fn vector_loaded(&self, v: u64) -> (r: bool)
        requires
            v <= 0x80,
        ensures
            r == vector_loaded(self@, v),
    {
        self.is_loaded(v) && self.is_loaded(v + 1) && self.is_loaded(v + 2) && self.is_loaded(v + 3)
    }

    /// Transfer control to a `TRIP` or exception handler (see `trip_step`).
    pub(crate) fn trip(
        &mut self,
        vector: u64,
        cause: u64,
        op: u8,
        x: u8,
        y: u8,
        z: u8,
        yv: u64,
        zv: u64,
    ) -> (r: bool)
        requires
            old(self).wf(),
            vector <= 0x80,
        ensures
            final(self).wf(),
            (final(self)@, r) == trip_step(old(self)@, vector, cause, op, x, y, z, yv, zv),
    {
        let pc = self.get_pc();
        let next_pc = pc.wrapping_add(4);
        let r255 = self.get_register(255);
        self.set_sreg_at(R_B, r255);
        let rj = self.sreg_at(R_J);
        self.set_register(255, rj);
        self.set_sreg_at(R_W, next_pc);
        let rx: u64 = 0x8000_0000_0000_0000 + (op as u64) * 0x100_0000 + (x as u64) * 0x1_0000
            + (y as u64) * 0x100 + z as u64;
        self.set_sreg_at(R_X, rx);
        self.set_sreg_at(R_Y, yv);
        self.set_sreg_at(R_Z, zv);
        if !self.vector_loaded(vector) {
            self.set_exit_code(1);
            self.diagnose(Diagnostic::UnloadedVector { cause, vector, pc });
            return false;
        }
        self.set_pc(vector);
        true
    }

    /// Route raised rA bits (see `raise_step`). `yv` and `zv` are the
    /// raising instruction's operands, captured before its destination was
    /// written. This call owns the program counter.
    pub(crate) fn raise_exceptions(
        &mut self,
        flags: u64,
        op: u8,
        x: u8,
        y: u8,
        z: u8,
        yv: u64,
        zv: u64,
    ) -> (r: bool)
        requires
            old(self).wf(),
        ensures
            final(self).wf(),
            (final(self)@, r) == raise_step(old(self)@, flags, op, x, y, z, yv, zv),
    {
        if flags == 0 {
            self.advance_pc();
            return true;
        }
        let ra = self.sreg_at(R_A);
        let enable = (ra / 0x100) % 0x100;
        let events = flags & 0xFF & !enable;
        let both = flags & enable;
        let tripped: u64 = if both & 0x80 != 0 {
            0x80
        } else if both & 0x40 != 0 {
            0x40
        } else if both & 0x20 != 0 {
            0x20
        } else if both & 0x10 != 0 {
            0x10
        } else if both & 0x08 != 0 {
            0x08
        } else if both & 0x04 != 0 {
            0x04
        } else if both & 0x02 != 0 {
            0x02
        } else if both & 0x01 != 0 {
            0x01
        } else {
            0
        };
        if events != 0 {
            self.set_sreg_at(R_A, ra | events);
        }
        if tripped != 0 {
            let vector: u64 = if tripped == 0x80 {
                0x10
            } else if tripped == 0x40 {
                0x20
            } else if tripped == 0x20 {
                0x30
            } else if tripped == 0x10 {
                0x40
            } else if tripped == 0x08 {
                0x50
            } else if tripped == 0x04 {
                0x60
            } else if tripped == 0x02 {
                0x70
            } else {
                0x80
            };
            self.trip(vector, tripped, op, x, y, z, yv, zv)
        } else {
            self.advance_pc();
            true
        }
    }
}

} // verus!
