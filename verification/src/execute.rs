//! Fetching, decoding and executing instructions, and running programs.
use vstd::prelude::*;
use crate::word::{wrap, is_negative};
use crate::special::{R_W, R_X};
use crate::event::Diagnostic;
use crate::state::{MState, gpr, sreg, claim, with_pc, advance, diagnose};
use crate::integer::{is_integer_op, integer_step};
use crate::loadstore::{is_load_op, is_store_op, load_step, store_step};
use crate::control::{is_control_op, control_step};
use crate::stack::{push_step, pop_step, save_step, unsave_step};
use crate::system::{trap_step, put_step, get_step, trip_instruction_step};
use crate::machine::{MMix, instruction_at};

verus! {

/// The floating-point instructions, which this machine does not execute:
/// `#01`-`#17`, `LDSF`/`LDSFI` and `STSF`/`STSFI`.
pub open spec fn is_float_op(op: u8) -> bool {
    (0x01 <= op <= 0x17) || op == 0x90 || op == 0x91 || op == 0xB0 || op == 0xB1
}

/// Whether the opcode's `X` names a general register it writes, which
/// must become local before the instruction runs: the arithmetic,
/// compare, conditional and zero-set, load, `GO`, `PUSHGO`, bitwise,
/// wyde-immediate, `PUSHJ`, `GETA`, `SAVE` and `GET` instructions.
/// Branches, stores, `PUT`, `POP`, `UNSAVE` and the opcodes without a
/// register in `X` are not.
pub open spec fn writes_x(op: u8) -> bool {
    (0x01 <= op <= 0x3F) || (0x60 <= op <= 0x99) || (0x9E <= op <= 0x9F) || (0xBE <= op <= 0xEF)
        || (0xF2 <= op <= 0xF5) || op == 0xFA || op == 0xFE
}

/// Execute the instruction `OP X Y Z` as if fetched at the PC. `nested`
/// marks the instruction `RESUME` inserts from rX.
///
/// A floating-point opcode is refused with a diagnostic and no change.
/// Otherwise the destination `$X` is claimed first (except for `SAVE`,
/// which checks its own `X`), then the opcode's family executes it.
/// `RESUME 0` continues at rW when rX is negative; with ropcode 0 it runs
/// the instruction in rX's low tetra as if it stood at rW - 4.
pub open spec fn dispatch_step(s: MState, op: u8, x: u8, y: u8, z: u8, nested: bool) -> (MState, bool)
    decreases (if nested { 0int } else { 1int }),
{
    if is_float_op(op) {
        (diagnose(s, Diagnostic::FloatUnavailable { op: op, pc: s.pc }), false)
    } else {
        let c = if writes_x(op) && op != 0xFA { claim(s, x) } else { s };
        if op == 0x00 {
            trap_step(c, x, y, z)
        } else if is_integer_op(op) {
            integer_step(c, op, x, y, z)
        } else if is_load_op(op) {
            load_step(c, op, x, y, z)
        } else if is_store_op(op) {
            store_step(c, op, x, y, z)
        } else if op == 0xBE || op == 0xBF || op == 0xF2 || op == 0xF3 {
            push_step(c, op, x, y, z)
        } else if is_control_op(op) {
            control_step(c, op, x, y, z)
        } else if op == 0xF6 {
            put_step(c, x, gpr(c, z))
        } else if op == 0xF7 {
            put_step(c, x, z as u64)
        } else if op == 0xF8 {
            pop_step(c, x, y, z)
        } else if op == 0xF9 {
            if z != 0 {
                (diagnose(c, Diagnostic::ResumePrivileged { z: z, pc: c.pc }), false)
            } else if nested {
                (diagnose(c, Diagnostic::ResumeNested { pc: c.pc }), false)
            } else {
                let rx = sreg(c, R_X);
                if is_negative(rx) {
                    (with_pc(c, sreg(c, R_W)), true)
                } else if rx / 0x100_0000_0000_0000 != 0 {
                    (
                        diagnose(
                            c,
                            Diagnostic::ResumeRopcode { ropcode: rx / 0x100_0000_0000_0000, pc: c.pc },
                        ),
                        false,
                    )
                } else {
                    let w = rx % 0x1_0000_0000;
                    dispatch_step(
                        with_pc(c, wrap(sreg(c, R_W) - 4)),
                        (w / 0x100_0000) as u8,
                        ((w / 0x1_0000) % 0x100) as u8,
                        ((w / 0x100) % 0x100) as u8,
                        (w % 0x100) as u8,
                        true,
                    )
                }
            }
        } else if op == 0xFA {
            save_step(c, x)
        } else if op == 0xFB {
            unsave_step(c, z)
        } else if op == 0xFC || op == 0xFD {
            (advance(c), true)
        } else if op == 0xFE {
            get_step(c, x, z)
        } else {
            trip_instruction_step(c, x, y, z)
        }
    }
}

/// One instruction: fetch the tetra at the PC and execute it. The result
/// says whether execution continues.
pub open spec fn step(s: MState) -> (MState, bool) {
    let (op, x, y, z) = instruction_at(s);
    dispatch_step(s, op, x, y, z, false)
}

/// Run at most `budget` instructions from `s`: the state reached, how many
/// instructions continued, and whether one halted.
pub open spec fn run_spec(s: MState, budget: nat) -> (MState, nat, bool)
    decreases budget,
{
    if budget == 0 {
        (s, 0, false)
    } else {
        let (s1, go_on) = step(s);
        if !go_on {
            (s1, 0, true)
        } else {
            let (s2, c, halted) = run_spec(s1, (budget - 1) as nat);
            (s2, c + 1, halted)
        }
    }
}

/// Why a run stopped.
#[derive(Debug, Clone, Copy, PartialEq, Eq, Hash, Structural)]
#[non_exhaustive]
pub enum Stop {
    /// An instruction halted the machine.
    Halted,
    /// The instruction budget ran out first; running again continues.
    BudgetExhausted,
    /// A breakpoint address was reached. A bare machine has no
    /// breakpoints, so `run_bounded` never gives this; a debugger that owns
    /// a breakpoint set does.
    Breakpoint(u64),
}

/// The state after a bounded run: `run_spec`'s, with a diagnostic naming
/// the PC and count where it stopped.
pub open spec fn run_bounded_spec(s: MState, budget: nat) -> (MState, usize, Stop) {
    let (s2, c, halted) = run_spec(s, budget);
    if halted {
        (diagnose(s2, Diagnostic::Stopped { count: c as usize, pc: s2.pc }), c as usize, Stop::Halted)
    } else {
        (diagnose(s2, Diagnostic::Paused { count: c as usize, pc: s2.pc }), c as usize, Stop::BudgetExhausted)
    }
}

pub(crate) proof fn lemma_run_count(s: MState, budget: nat)
    ensures
        run_spec(s, budget).1 <= budget,
    decreases budget,
{
    if budget > 0 {
        let (s1, go_on) = step(s);
        if go_on {
            lemma_run_count(s1, (budget - 1) as nat);
        }
    }
}

impl MMix {
    /// Whether the opcode's `X` names a general-register destination that
    /// becomes local before the instruction runs (see `writes_x`).
    pub fn writes_general_register_x(op_byte: u8) -> (r: bool)
        ensures
            r == writes_x(op_byte),
    {
        (0x01 <= op_byte && op_byte <= 0x3F) || (0x60 <= op_byte && op_byte <= 0x99) || (0x9E
            <= op_byte && op_byte <= 0x9F) || (0xBE <= op_byte && op_byte <= 0xEF) || (0xF2
            <= op_byte && op_byte <= 0xF5) || op_byte == 0xFA || op_byte == 0xFE
    }

    /// Execute `OP X Y Z` as if fetched at the PC (see `dispatch_step`).
    #[verifier::rlimit(40)]
    pub(crate) fn dispatch(&mut self, op: u8, x: u8, y: u8, z: u8, nested: bool) -> (r: bool)
        requires
            old(self).wf(),
        ensures
            final(self).wf(),
            (final(self)@, r) == dispatch_step(old(self)@, op, x, y, z, nested),
        decreases (if nested { 0int } else { 1int }),
    {
        if (0x01 <= op && op <= 0x17) || op == 0x90 || op == 0x91 || op == 0xB0 || op == 0xB1 {
            let pc = self.get_pc();
            self.diagnose(Diagnostic::FloatUnavailable { op, pc });
            return false;
        }
        if Self::writes_general_register_x(op) && op != 0xFA {
            self.claim_local(x);
        }
        if op == 0x00 {
            self.execute_trap(x, y, z)
        } else if (0x18 <= op && op <= 0x3F) || (0xC0 <= op && op <= 0xDF) {
            self.execute_integer(op, x, y, z)
        } else if (0x80 <= op && op <= 0x8F) || (0x92 <= op && op <= 0x9F) {
            self.execute_load(op, x, y, z)
        } else if (0xA0 <= op && op <= 0xAF) || (0xB2 <= op && op <= 0xBD) {
            self.execute_store(op, x, y, z)
        } else if op == 0xBE || op == 0xBF || op == 0xF2 || op == 0xF3 {
            self.execute_push(op, x, y, z)
        } else if (0x40 <= op && op <= 0x7F) || (0xE0 <= op && op <= 0xF1) || op == 0xF4 || op
            == 0xF5 {
            self.execute_control(op, x, y, z)
        } else if op == 0xF6 {
            let v = self.get_register(z);
            self.execute_put(x, v)
        } else if op == 0xF7 {
            self.execute_put(x, z as u64)
        } else if op == 0xF8 {
            self.execute_pop(x, y, z)
        } else if op == 0xF9 {
            let pc = self.get_pc();
            if z != 0 {
                self.diagnose(Diagnostic::ResumePrivileged { z, pc });
                return false;
            }
            if nested {
                self.diagnose(Diagnostic::ResumeNested { pc });
                return false;
            }
            let rx = self.sreg_at(R_X);
            if rx >= 0x8000_0000_0000_0000 {
                let rw = self.sreg_at(R_W);
                self.set_pc(rw);
                return true;
            }
            let ropcode = rx / 0x100_0000_0000_0000;
            if ropcode != 0 {
                self.diagnose(Diagnostic::ResumeRopcode { ropcode, pc });
                return false;
            }
            let word = rx % 0x1_0000_0000;
            let rw = self.sreg_at(R_W);
            self.set_pc(rw.wrapping_sub(4));
            self.dispatch(
                (word / 0x100_0000) as u8,
                ((word / 0x1_0000) % 0x100) as u8,
                ((word / 0x100) % 0x100) as u8,
                (word % 0x100) as u8,
                true,
            )
        } else if op == 0xFA {
            self.execute_save(x)
        } else if op == 0xFB {
            self.execute_unsave(z)
        } else if op == 0xFC || op == 0xFD {
            self.advance_pc();
            true
        } else if op == 0xFE {
            self.execute_get(x, z)
        } else {
            self.execute_trip(x, y, z)
        }
    }

    /// Execute the instruction at the program counter. Returns `true` if
    /// execution should continue, `false` if the machine halted.
    pub fn execute_instruction(&mut self) -> (r: bool)
        requires
            old(self).wf(),
        ensures
            final(self).wf(),
            (final(self)@, r) == step(old(self)@),
    {
        let (op, x, y, z) = self.fetch_instruction();
        self.dispatch(op, x, y, z, false)
    }

    /// Execute instructions from the PC until the machine halts or
    /// `budget` instructions have run. Returns how many instructions ran
    /// without halting, and why the run stopped; a diagnostic records
    /// where.
    pub fn run_bounded(&mut self, budget: usize) -> (r: (usize, Stop))
        requires
            old(self).wf(),
        ensures
            final(self).wf(),
            (final(self)@, r.0, r.1) == run_bounded_spec(old(self)@, budget as nat),
    {
        let ghost s0 = self@;
        let mut count: usize = 0;
        let mut halted = false;
        loop
            invariant
                self.wf(),
                count <= budget,
                ({
                    let (fs, fc, fh) = run_spec(s0, budget as nat);
                    let (rs, rc, rh) = run_spec(self@, (budget - count) as nat);
                    halted ==> (fs == self@ && fc == count && fh)
                }),
                ({
                    let (fs, fc, fh) = run_spec(s0, budget as nat);
                    let (rs, rc, rh) = run_spec(self@, (budget - count) as nat);
                    !halted ==> (fs == rs && fc == rc + count && fh == rh)
                }),
            ensures
                self.wf(),
                count <= budget,
                halted || count == budget,
                ({
                    let (fs, fc, fh) = run_spec(s0, budget as nat);
                    let (rs, rc, rh) = run_spec(self@, (budget - count) as nat);
                    halted ==> (fs == self@ && fc == count && fh)
                }),
                ({
                    let (fs, fc, fh) = run_spec(s0, budget as nat);
                    let (rs, rc, rh) = run_spec(self@, (budget - count) as nat);
                    !halted ==> (fs == rs && fc == rc + count && fh == rh)
                }),
            decreases budget - count, (if halted { 0int } else { 1int }),
        {
            if halted {
                break;
            }
            if count >= budget {
                break;
            }
            let ghost before = self@;
            let go_on = self.execute_instruction();
            if !go_on {
                halted = true;
            } else {
                count = count + 1;
            }
        }
        let pc = self.get_pc();
        if halted {
            self.diagnose(Diagnostic::Stopped { count, pc });
            (count, Stop::Halted)
        } else {
            self.diagnose(Diagnostic::Paused { count, pc });
            (count, Stop::BudgetExhausted)
        }
    }

    /// Execute instructions from the PC until the machine halts (or
    /// `usize::MAX` instructions have run). Returns how many ran.
    pub fn run(&mut self) -> (r: usize)
        requires
            old(self).wf(),
        ensures
            final(self).wf(),
            ({
                let (fs, fc, fstop) = run_bounded_spec(old(self)@, usize::MAX as nat);
                final(self)@ == fs && r == fc
            }),
    {
        self.run_bounded(usize::MAX).0
    }
}

} // verus!
