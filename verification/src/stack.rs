//! The register stack: `PUSHJ`/`PUSHGO` frames, `POP`, `SAVE`/`UNSAVE`
//! contexts, and the walk that counts open calls.
//!
//! The stack lives in memory at rO (= rS; frames are stored eagerly). A
//! frame is the caller's registers below the hole followed by an octa
//! holding the hole's number. A context is the locals, an octa holding
//! their count, the globals `$rG..$255`, twelve special registers and a
//! packed octa `rG * 2^56 + rA`.
use vstd::prelude::*;
use crate::word::wrap;
use crate::special::{
    R_A, R_B, R_D, R_E, R_G, R_H, R_J, R_L, R_M, R_O, R_P, R_R, R_S, R_W, R_X, R_Y, R_Z, RA_MAX,
    STACK_SEGMENT_START, STACK_SEGMENT_END, save_slot, save_slot_index,
};
use crate::event::Diagnostic;
use crate::state::{
    MState, gpr, sreg, set_reg, set_sreg, with_mem, with_pc, advance, diagnose, zero_span, octa_at,
    put_octa,
};
use crate::control::{relative_target, relative_address, yz_of};
use crate::integer::z_operand;
use crate::machine::MMix;

verus! {

/// `v` capped at the size of the register file.
pub open spec fn cap256(v: u64) -> int {
    if v > 256 {
        256
    } else {
        v as int
    }
}

/// Memory after storing `vals[start..start+n]` as octas at `base`,
/// `base + 8`, ... (addresses wrap).
pub open spec fn spill(m: Map<u64, u8>, base: u64, vals: Seq<u64>, start: int, n: nat) -> Map<u64, u8>
    decreases n,
{
    if n == 0 {
        m
    } else {
        let k = (n - 1) as nat;
        put_octa(spill(m, base, vals, start, k), wrap(base + 8 * k), vals[start + k])
    }
}

/// `regs` with `$0..$k-1` replaced by `$from..$from+k-1`.
pub open spec fn slide(regs: Seq<u64>, from: int, k: int) -> Seq<u64> {
    Seq::new(regs.len(), |i: int| if i < k { regs[from + i] } else { regs[i] })
}

/// The number of the hole a push with destination `x` records: `x` for a
/// local, the number of locals for a global.
pub open spec fn push_hole(s: MState, x: u8) -> int {
    if (x as u64) < sreg(s, R_G) {
        x as int
    } else {
        cap256(sreg(s, R_L))
    }
}

/// How many of the caller's registers above the hole become the callee's
/// `$0, $1, ...`.
pub open spec fn push_kept(s: MState, x: u8) -> int {
    let l = cap256(sreg(s, R_L));
    if (x as u64) < sreg(s, R_G) && l > x + 1 {
        l - x - 1
    } else {
        0
    }
}

/// Open a frame for a call with hole `$x` (already claimed): store `$0`
/// through `$(h-1)` and the hole number `h` at rO, advance rO and rS past
/// them, slide the registers above the hole down to `$0`, zero the
/// vacated locals, set rL to the number kept and rJ to the address after
/// the instruction.
pub open spec fn push_frame(s: MState, x: u8) -> MState {
    let ro = sreg(s, R_O);
    let l = cap256(sreg(s, R_L));
    let h = push_hole(s, x);
    let k = push_kept(s, x);
    let m1 = spill(s.mem, ro, s.regs, 0, h as nat);
    let m2 = put_octa(m1, wrap(ro + 8 * h), h as u64);
    let new_ro = wrap(ro + 8 * (h + 1));
    MState {
        regs: zero_span(slide(s.regs, x + 1, k), k, l),
        sregs: s.sregs.update(R_O as int, new_ro).update(R_S as int, new_ro).update(
            R_L as int,
            k as u64,
        ).update(R_J as int, wrap(s.pc + 4)),
        mem: m2,
        ..s
    }
}

/// `PUSHJ`/`PUSHJB` (`#F2`/`#F3`) and `PUSHGO`/`PUSHGOI` (`#BE`/`#BF`):
/// push a frame and jump, to the relative target or to `$Y + $Z`.
pub open spec fn push_step(s: MState, op: u8, x: u8, y: u8, z: u8) -> (MState, bool) {
    let target = if op == 0xBE || op == 0xBF {
        wrap(gpr(s, y) + z_operand(s, op, z))
    } else {
        relative_target(s.pc, y, z, op == 0xF3)
    };
    (with_pc(push_frame(s, x), target), true)
}

/// The registers after `POP` returns: below the hole the caller's values
/// from the frame; the hole gets the last output and the slots above it
/// the other outputs in order; the rest of the locals read zero. Only
/// registers below rG are written.
pub open spec fn popped_regs(s: MState, hole: int, n: int, base: u64) -> Seq<u64> {
    let l = cap256(sreg(s, R_L));
    let lim = cap256(sreg(s, R_G));
    Seq::new(
        256,
        |i: int|
            if i >= lim {
                s.regs[i]
            } else if i < hole {
                octa_at(s.mem, wrap(base + 8 * i))
            } else if i == hole && n > 0 {
                if n - 1 < l {
                    s.regs[n - 1]
                } else {
                    0u64
                }
            } else if hole < i && i < hole + n {
                if i - hole - 1 < l {
                    s.regs[i - hole - 1]
                } else {
                    0u64
                }
            } else {
                0u64
            },
    )
}

/// `POP X,YZ` (`#F8`).
///
/// With rO at or below the stack base there is no frame: only the PC moves,
/// to rJ + 4*YZ. A misaligned rO, or one past the stack segment, halts with
/// a diagnostic and no change. Otherwise the hole number is the low byte of
/// the octa below rO; `X` outputs come back (with `X` above rL clamped to
/// rL + 1, the extra output reading zero), rL becomes
/// min(hole + outputs, rG), rO and rS retract past the frame, and the PC
/// moves to rJ + 4*YZ. rJ itself is untouched.
pub open spec fn pop_step(s: MState, x: u8, y: u8, z: u8) -> (MState, bool) {
    let ro = sreg(s, R_O);
    let target = wrap(sreg(s, R_J) + 4 * yz_of(y, z));
    if ro <= STACK_SEGMENT_START {
        (with_pc(s, target), true)
    } else if ro % 8 != 0 || ro >= STACK_SEGMENT_END {
        (diagnose(s, Diagnostic::PopBadRo { ro: ro, pc: s.pc }), false)
    } else {
        let hole = octa_at(s.mem, (ro - 8) as u64) % 256;
        let l = cap256(sreg(s, R_L));
        let n = if x as int > l {
            l + 1
        } else {
            x as int
        };
        let base = (ro - 8 * (hole + 1)) as u64;
        let rg = sreg(s, R_G);
        let new_rl = if hole + n < rg {
            (hole + n) as u64
        } else {
            rg
        };
        let s1 = MState {
            regs: popped_regs(s, hole as int, n, base),
            sregs: s.sregs.update(R_L as int, new_rl).update(R_O as int, base).update(
                R_S as int,
                base,
            ),
            ..s
        };
        (with_pc(s1, target), true)
    }
}

/// The twelve special registers `SAVE` stores, in order.
pub open spec fn saved_specials(sregs: Seq<u64>) -> Seq<u64> {
    Seq::new(12, |k: int| sregs[save_slot(k as nat) as int])
}

/// The octa `SAVE` packs rG and rA into.
pub open spec fn packed_octa(rg: u64, ra: u64) -> u64 {
    (rg * 0x100_0000_0000_0000 + ra % 0x100_0000_0000_0000) as u64
}

/// `SAVE $X,0` (`#FA`).
///
/// `$X` must be global (`X >= rG`); otherwise the machine halts with a
/// diagnostic and no change. `SAVE` stores, from rO upward, the locals
/// `$0..$(L-1)` (L = min(rL, rG)), the octa L, the globals `$rG..$255`,
/// the twelve special registers of `saved_specials` and the packed octa;
/// `$X` gets the packed octa's address, rO = rS the address after it, the
/// locals are zeroed and rL becomes 0.
pub open spec fn save_step(s: MState, x: u8) -> (MState, bool) {
    let rg = sreg(s, R_G);
    if (x as u64) < rg {
        (diagnose(s, Diagnostic::SaveLocalDestination { x: x, rg: rg, pc: s.pc }), false)
    } else {
        let rl = sreg(s, R_L);
        let l = if rl < rg { rl as int } else { rg as int };
        let ro = sreg(s, R_O);
        let m1 = spill(s.mem, ro, s.regs, 0, l as nat);
        let m2 = put_octa(m1, wrap(ro + 8 * l), l as u64);
        let gbase = wrap(ro + 8 * (l + 1));
        let m3 = spill(m2, gbase, s.regs, rg as int, (256 - rg) as nat);
        let sbase = wrap(gbase + 8 * (256 - rg));
        let m4 = spill(m3, sbase, saved_specials(s.sregs), 0, 12);
        let p = wrap(sbase + 96);
        let m5 = put_octa(m4, p, packed_octa(rg, sreg(s, R_A)));
        let s1 = MState {
            regs: zero_span(s.regs, 0, l),
            sregs: s.sregs.update(R_O as int, wrap(p + 8)).update(R_S as int, wrap(p + 8)).update(
                R_L as int,
                0,
            ),
            mem: m5,
            ..s
        };
        (advance(set_reg(s1, x, p)), true)
    }
}

/// Where a context whose packed octa is at `p` keeps things, if its
/// packed rG is in `32..=255`, its packed rA at most `RA_MAX` and its
/// saved local count at most the packed rG.
pub enum ContextCheck {
    BadRg(u64),
    BadRa(u64),
    BadLocals(u64, u64),
    Valid { rg: u64, ra: u64, locals: u64, locals_base: u64, globals_base: u64, specials_base: u64 },
}

/// Read and check the context whose packed octa is at `p`.
pub open spec fn context_at(m: Map<u64, u8>, p: u64) -> ContextCheck {
    let packed = octa_at(m, p);
    let rg = packed / 0x100_0000_0000_0000;
    let ra = packed % 0x100_0000_0000_0000;
    if rg < 32 {
        ContextCheck::BadRg(rg)
    } else if ra > RA_MAX {
        ContextCheck::BadRa(ra)
    } else {
        let sbase = wrap(p - 96);
        let gbase = wrap(sbase - 8 * (256 - rg));
        let marker = wrap(gbase - 8);
        let locals = octa_at(m, marker);
        if locals > rg {
            ContextCheck::BadLocals(locals, rg)
        } else {
            ContextCheck::Valid {
                rg: rg,
                ra: ra,
                locals: locals,
                locals_base: wrap(marker - 8 * locals),
                globals_base: gbase,
                specials_base: sbase,
            }
        }
    }
}

/// The save slot register `i` occupies, if any.
pub open spec fn slot_of_register(i: int) -> int {
    if i == R_B as int { 0 }
    else if i == R_D as int { 1 }
    else if i == R_E as int { 2 }
    else if i == R_H as int { 3 }
    else if i == R_J as int { 4 }
    else if i == R_M as int { 5 }
    else if i == R_R as int { 6 }
    else if i == R_P as int { 7 }
    else if i == R_W as int { 8 }
    else if i == R_X as int { 9 }
    else if i == R_Y as int { 10 }
    else if i == R_Z as int { 11 }
    else { -1 }
}

/// The special registers after restoring a valid context.
pub open spec fn restored_sregs(s: MState, rg: u64, ra: u64, locals: u64, lbase: u64, sbase: u64) -> Seq<u64> {
    Seq::new(
        32,
        |i: int|
            if i == R_G as int {
                rg
            } else if i == R_A as int {
                ra
            } else if i == R_L as int {
                locals
            } else if i == R_O as int || i == R_S as int {
                lbase
            } else if slot_of_register(i) >= 0 {
                octa_at(s.mem, wrap(sbase + 8 * slot_of_register(i)))
            } else {
                s.sregs[i]
            },
    )
}

/// The general registers after restoring a valid context: the locals, zero
/// up to rG, then the globals.
pub open spec fn restored_regs(s: MState, rg: u64, locals: u64, lbase: u64, gbase: u64) -> Seq<u64> {
    Seq::new(
        256,
        |i: int|
            if i < locals {
                octa_at(s.mem, wrap(lbase + 8 * i))
            } else if i < rg {
                0u64
            } else {
                octa_at(s.mem, wrap(gbase + 8 * (i - rg)))
            },
    )
}

/// `UNSAVE 0,$Z` (`#FB`): restore the context whose packed octa `$Z`
/// addresses. A packed rG outside `32..=255`, a packed rA above `RA_MAX`
/// or a saved local count above the packed rG halts with a diagnostic and
/// no change. Otherwise every register `SAVE` stored comes back, rL takes
/// the saved count and rO = rS the context's first address.
pub open spec fn unsave_step(s: MState, z: u8) -> (MState, bool) {
    match context_at(s.mem, gpr(s, z)) {
        ContextCheck::BadRg(rg) => (diagnose(s, Diagnostic::UnsaveBadRg { rg: rg, pc: s.pc }), false),
        ContextCheck::BadRa(ra) => (diagnose(s, Diagnostic::UnsaveBadRa { ra: ra, pc: s.pc }), false),
        ContextCheck::BadLocals(locals, rg) => (
            diagnose(s, Diagnostic::UnsaveBadLocalCount { locals: locals, rg: rg, pc: s.pc }),
            false,
        ),
        ContextCheck::Valid { rg, ra, locals, locals_base, globals_base, specials_base } => (
            advance(
                MState {
                    regs: restored_regs(s, rg, locals, locals_base, globals_base),
                    sregs: restored_sregs(s, rg, ra, locals, locals_base, specials_base),
                    ..s
                },
            ),
            true,
        ),
    }
}

/// The number of frames on the stack below `ro`: walk down from rO, taking
/// a frame's hole octa to step over it (and count it) and a context's
/// packed octa to step over it (uncounted), until the walk leaves the
/// stack segment, goes misaligned or meets an invalid context.
#[verifier::opaque]
pub open spec fn frames_below(m: Map<u64, u8>, ro: u64) -> nat
    decreases ro,
{
    if ro <= STACK_SEGMENT_START || ro % 8 != 0 || ro >= STACK_SEGMENT_END {
        0
    } else {
        let top = octa_at(m, (ro - 8) as u64);
        if top / 0x100_0000_0000_0000 != 0 {
            match context_at(m, (ro - 8) as u64) {
                ContextCheck::Valid { locals_base, .. } => if locals_base < ro {
                    frames_below(m, locals_base)
                } else {
                    0
                },
                _ => 0,
            }
        } else {
            1 + frames_below(m, (ro - 8 * (top % 256 + 1)) as u64)
        }
    }
}

impl MMix {
    /// Store `$start..$start+n-1` as octas from `base` upward.
    fn spill_registers(&mut self, base: u64, start: usize, n: usize)
        requires
            old(self).wf(),
            start + n <= 256,
        ensures
            final(self).wf(),
            final(self)@ == with_mem(old(self)@, spill(old(self)@.mem, base, old(self)@.regs, start as int, n as nat)),
    {
        let mut i: usize = 0;
        while i < n
            invariant
                self.wf(),
                start + n <= 256,
                i <= n,
                self@ == with_mem(old(self)@, spill(old(self)@.mem, base, old(self)@.regs, start as int, i as nat)),
            decreases n - i,
        {
            let v = self.get_register((start + i) as u8);
            let a = base.wrapping_add(8 * i as u64);
            let ghost before = self@;
            self.write_octa(a, v);
            proof {
                assert(self@ =~= with_mem(old(self)@, spill(old(self)@.mem, base, old(self)@.regs, start as int, (i + 1) as nat)));
            }
            i = i + 1;
        }
    }

    /// Open a call frame for the hole `$x` (see `push_frame`).
    #[verifier::rlimit(40)]
    fn push_frame(&mut self, x: u8)
        requires
            old(self).wf(),
        ensures
            final(self).wf(),
            final(self)@ == push_frame(old(self)@, x),
    {
        let ghost s = self@;
        let rg = self.sreg_at(R_G);
        let rl = self.sreg_at(R_L);
        let ro = self.sreg_at(R_O);
        let l: usize = if rl > 256 {
            256
        } else {
            rl as usize
        };
        let h: usize = if (x as u64) < rg {
            x as usize
        } else {
            l
        };
        self.spill_registers(ro, 0, h);
        self.write_octa(ro.wrapping_add(8 * h as u64), h as u64);
        let k: usize = if (x as u64) < rg && l > x as usize + 1 {
            l - x as usize - 1
        } else {
            0
        };
        let ghost regs0 = self@.regs;
        let mut i: usize = 0;
        while i < k
            invariant
                self.wf(),
                i <= k,
                k > 0 ==> x as int + 1 + k <= 256,
                regs0 == s.regs,
                self@.regs == slide(regs0, x + 1, i as int),
                self@.sregs == s.sregs,
                self@.pc == s.pc,
                self@.mem == put_octa(spill(s.mem, ro, s.regs, 0, h as nat), wrap(ro + 8 * h), h as u64),
                self@.loaded == s.loaded,
                self@.exit_code == s.exit_code,
                self@.events == s.events,
            decreases k - i,
        {
            let v = self.get_register((x as usize + 1 + i) as u8);
            self.put_register_raw(i, v);
            proof {
                assert(self@.regs =~= slide(regs0, x + 1, i + 1));
            }
            i = i + 1;
        }
        self.zero_registers(k, l);
        let new_ro = ro.wrapping_add(8 * (h as u64 + 1));
        self.set_sreg_at(R_O, new_ro);
        self.set_sreg_at(R_S, new_ro);
        self.set_sreg_at(R_L, k as u64);
        let next = self.get_pc().wrapping_add(4);
        self.set_sreg_at(R_J, next);
        proof {
            assert(self@.regs =~= push_frame(s, x).regs);
            assert(self@.sregs =~= push_frame(s, x).sregs);
            assert(self@ =~= push_frame(s, x));
        }
    }

    /// `PUSHJ`, `PUSHJB`, `PUSHGO`, `PUSHGOI` (see `push_step`).
    pub(crate) fn execute_push(&mut self, op: u8, x: u8, y: u8, z: u8) -> (r: bool)
        requires
            old(self).wf(),
            op == 0xBE || op == 0xBF || op == 0xF2 || op == 0xF3,
        ensures
            final(self).wf(),
            (final(self)@, r) == push_step(old(self)@, op, x, y, z),
    {
        let pc = self.get_pc();
        let target = if op == 0xBE || op == 0xBF {
            let b = self.get_register(y);
            let o = self.z_operand(op, z);
            b.wrapping_add(o)
        } else {
            relative_address(pc, y, z, op == 0xF3)
        };
        self.push_frame(x);
        self.set_pc(target);
        true
    }

    /// `POP X,YZ` (see `pop_step`).
    pub(crate) fn execute_pop(&mut self, x: u8, y: u8, z: u8) -> (r: bool)
        requires
            old(self).wf(),
        ensures
            final(self).wf(),
            (final(self)@, r) == pop_step(old(self)@, x, y, z),
    {
        let ghost s = self@;
        let ro = self.sreg_at(R_O);
        let rj = self.sreg_at(R_J);
        let yz = (y as u64) * 0x100 + (z as u64);
        let target = rj.wrapping_add(yz * 4);
        if ro <= STACK_SEGMENT_START {
            self.set_pc(target);
            return true;
        }
        if ro % 8 != 0 || ro >= STACK_SEGMENT_END {
            let pc = self.get_pc();
            self.diagnose(Diagnostic::PopBadRo { ro, pc });
            return false;
        }
        let hole: usize = (self.read_octa(ro - 8) % 256) as usize;
        let rl = self.sreg_at(R_L);
        let l: usize = if rl > 256 {
            256
        } else {
            rl as usize
        };
        let n: usize = if x as usize > l {
            l + 1
        } else {
            x as usize
        };
        let mut outputs: Vec<u64> = Vec::new();
        let mut j: usize = 0;
        while j < n
            invariant
                self.wf(),
                self@ == s,
                j <= n,
                l <= 256,
                l == cap256(sreg(s, R_L)),
                n <= 257,
                outputs@.len() == j,
                forall|t: int| 0 <= t < j ==> outputs@[t] == (if t < l { s.regs[t] } else { 0u64 }),
            decreases n - j,
        {
            let v = if j < l {
                self.get_register(j as u8)
            } else {
                0
            };
            outputs.push(v);
            j = j + 1;
        }
        let base = ro - 8 * (hole as u64 + 1);
        let rg = self.sreg_at(R_G);
        let lim: usize = if rg > 256 {
            256
        } else {
            rg as usize
        };
        let target_regs = Ghost(popped_regs(s, hole as int, n as int, base));
        let mut i: usize = 0;
        while i < lim
            invariant
                self.wf(),
                i <= lim <= 256,
                lim == cap256(sreg(s, R_G)),
                l == cap256(sreg(s, R_L)),
                hole < 256,
                n as int == (if x as int > l { l + 1 } else { x as int }),
                base == (ro - 8 * (hole + 1)) as u64,
                ro == sreg(s, R_O),
                ro > STACK_SEGMENT_START,
                target_regs@ == popped_regs(s, hole as int, n as int, base),
                outputs@.len() == n,
                forall|t: int| 0 <= t < n ==> outputs@[t] == (if t < l { s.regs[t] } else { 0u64 }),
                self@.mem == s.mem,
                self@.sregs == s.sregs,
                self@.pc == s.pc,
                self@.loaded == s.loaded,
                self@.exit_code == s.exit_code,
                self@.events == s.events,
                forall|t: int| 0 <= t < i ==> self@.regs[t] == target_regs@[t],
                forall|t: int| i <= t < 256 ==> self@.regs[t] == s.regs[t],
            decreases lim - i,
        {
            let v = if i < hole {
                self.read_octa(base.wrapping_add(8 * i as u64))
            } else if i == hole && n > 0 {
                outputs[n - 1]
            } else if hole < i && i < hole + n {
                outputs[i - hole - 1]
            } else {
                0
            };
            self.put_register_raw(i, v);
            i = i + 1;
        }
        let new_rl: u64 = if ((hole + n) as u64) < rg {
            (hole + n) as u64
        } else {
            rg
        };
        self.set_sreg_at(R_L, new_rl);
        self.set_sreg_at(R_O, base);
        self.set_sreg_at(R_S, base);
        self.set_pc(target);
        proof {
            assert(self@.regs =~= popped_regs(s, hole as int, n as int, base));
            assert(self@ =~= pop_step(s, x, y, z).0);
        }
        true
    }
}


/// Each frame the walk counts lies below its own 8 bytes of stack.
proof fn lemma_frames_bound(m: Map<u64, u8>, ro: u64)
    ensures
        frames_below(m, ro) * 8 <= ro,
    decreases ro,
{
    reveal(frames_below);
    if ro <= STACK_SEGMENT_START || ro % 8 != 0 || ro >= STACK_SEGMENT_END {
    } else {
        let top = octa_at(m, (ro - 8) as u64);
        if top / 0x100_0000_0000_0000 != 0 {
            match context_at(m, (ro - 8) as u64) {
                ContextCheck::Valid { locals_base, .. } => if locals_base < ro {
                    lemma_frames_bound(m, locals_base);
                },
                _ => {},
            }
        } else {
            lemma_frames_bound(m, (ro - 8 * (top % 256 + 1)) as u64);
        }
    }
}

/// One step of the walk `frames_below` takes.
pub(crate) proof fn lemma_frames_step(m: Map<u64, u8>, ro: u64)
    ensures
        ro <= STACK_SEGMENT_START || ro % 8 != 0 || ro >= STACK_SEGMENT_END ==> frames_below(m, ro) == 0,
        !(ro <= STACK_SEGMENT_START || ro % 8 != 0 || ro >= STACK_SEGMENT_END) ==> {
            let top = octa_at(m, (ro - 8) as u64);
            if top / 0x100_0000_0000_0000 != 0 {
                match context_at(m, (ro - 8) as u64) {
                    ContextCheck::Valid { locals_base, .. } => frames_below(m, ro) == (if locals_base < ro {
                        frames_below(m, locals_base)
                    } else {
                        0
                    }),
                    _ => frames_below(m, ro) == 0,
                }
            } else {
                frames_below(m, ro) == 1 + frames_below(m, (ro - 8 * (top % 256 + 1)) as u64)
            }
        },
{
    reveal(frames_below);
}

/// Each register that `SAVE` stores sits in the slot that names it.
proof fn lemma_save_slots()
    ensures
        forall|k: nat| k < 12 ==> #[trigger] slot_of_register(save_slot(k) as int) == k,
        forall|i: int| 0 <= i < 32 && slot_of_register(i) >= 0 ==> save_slot(#[trigger] slot_of_register(i) as nat) == i,
        forall|i: int| 0 <= i < 32 && slot_of_register(i) >= 0 ==> slot_of_register(i) < 12,
        forall|k: nat| k < 12 ==> #[trigger] save_slot(k) < 32,
{
}

impl MMix {
    /// `SAVE $X,0` (see `save_step`).
    #[verifier::rlimit(60)]
    pub(crate) fn execute_save(&mut self, x: u8) -> (r: bool)
        requires
            old(self).wf(),
        ensures
            final(self).wf(),
            (final(self)@, r) == save_step(old(self)@, x),
    {
        let ghost s = self@;
        let rg = self.sreg_at(R_G);
        if (x as u64) < rg {
            let pc = self.get_pc();
            self.diagnose(Diagnostic::SaveLocalDestination { x, rg, pc });
            return false;
        }
        let rl = self.sreg_at(R_L);
        let l: usize = if rl < rg {
            rl as usize
        } else {
            rg as usize
        };
        let ro = self.sreg_at(R_O);
        self.spill_registers(ro, 0, l);
        self.write_octa(ro.wrapping_add(8 * l as u64), l as u64);
        let gbase = ro.wrapping_add(8 * (l as u64 + 1));
        self.spill_registers(gbase, rg as usize, 256 - rg as usize);
        let sbase = gbase.wrapping_add(8 * (256 - rg));
        let ghost m3 = self@.mem;
        let mut k: u64 = 0;
        while k < 12
            invariant
                self.wf(),
                k <= 12,
                self@ == with_mem(s, spill(m3, sbase, saved_specials(s.sregs), 0, k as nat)),
            decreases 12 - k,
        {
            let v = self.sreg_at(save_slot_index(k));
            self.write_octa(sbase.wrapping_add(8 * k), v);
            proof {
                assert(self@ =~= with_mem(s, spill(m3, sbase, saved_specials(s.sregs), 0, (k + 1) as nat)));
            }
            k = k + 1;
        }
        let p = sbase.wrapping_add(96);
        let ra = self.sreg_at(R_A);
        let packed = rg * 0x100_0000_0000_0000 + ra % 0x100_0000_0000_0000;
        self.write_octa(p, packed);
        self.zero_registers(0, l);
        let after = p.wrapping_add(8);
        self.set_sreg_at(R_O, after);
        self.set_sreg_at(R_S, after);
        self.set_sreg_at(R_L, 0);
        proof {
            let l_int: int = l as int;
            let m1 = spill(s.mem, ro, s.regs, 0, l as nat);
            let m2 = put_octa(m1, wrap(ro + 8 * l_int), l as u64);
            let m3b = spill(m2, gbase, s.regs, rg as int, (256 - rg) as nat);
            assert(m3 == m3b);
            let m4 = spill(m3b, sbase, saved_specials(s.sregs), 0, 12);
            let m5 = put_octa(m4, p, packed_octa(rg, sreg(s, R_A)));
            let s1 = MState {
                regs: zero_span(s.regs, 0, l_int),
                sregs: s.sregs.update(R_O as int, wrap(p + 8)).update(R_S as int, wrap(p + 8)).update(
                    R_L as int,
                    0,
                ),
                mem: m5,
                ..s
            };
            assert(self@ =~= s1);
        }
        self.set_register(x, p);
        self.advance_pc();
        true
    }

    /// Read and check the context whose packed octa is at `p`.
    fn check_context(&self, p: u64) -> (r: ContextCheck)
        ensures
            r == context_at(self@.mem, p),
    {
        let packed = self.read_octa(p);
        let rg = packed / 0x100_0000_0000_0000;
        let ra = packed % 0x100_0000_0000_0000;
        if rg < 32 {
            return ContextCheck::BadRg(rg);
        }
        if ra > RA_MAX {
            return ContextCheck::BadRa(ra);
        }
        let sbase = p.wrapping_sub(96);
        let gbase = sbase.wrapping_sub(8 * (256 - rg));
        let marker = gbase.wrapping_sub(8);
        let locals = self.read_octa(marker);
        if locals > rg {
            return ContextCheck::BadLocals(locals, rg);
        }
        ContextCheck::Valid {
            rg,
            ra,
            locals,
            locals_base: marker.wrapping_sub(8 * locals),
            globals_base: gbase,
            specials_base: sbase,
        }
    }

    /// `UNSAVE 0,$Z` (see `unsave_step`).
    pub(crate) fn execute_unsave(&mut self, z: u8) -> (r: bool)
        requires
            old(self).wf(),
        ensures
            final(self).wf(),
            (final(self)@, r) == unsave_step(old(self)@, z),
    {
        let ghost s = self@;
        let p = self.get_register(z);
        let pc = self.get_pc();
        match self.check_context(p) {
            ContextCheck::BadRg(rg) => {
                self.diagnose(Diagnostic::UnsaveBadRg { rg, pc });
                false
            },
            ContextCheck::BadRa(ra) => {
                self.diagnose(Diagnostic::UnsaveBadRa { ra, pc });
                false
            },
            ContextCheck::BadLocals(locals, rg) => {
                self.diagnose(Diagnostic::UnsaveBadLocalCount { locals, rg, pc });
                false
            },
            ContextCheck::Valid { rg, ra, locals, locals_base, globals_base, specials_base } => {
                let ghost want_regs = restored_regs(s, rg, locals, locals_base, globals_base);
                let mut i: usize = 0;
                while i < 256
                    invariant
                        self.wf(),
                        i <= 256,
                        locals <= rg <= 255,
                        want_regs == restored_regs(s, rg, locals, locals_base, globals_base),
                        self@.mem == s.mem,
                        self@.sregs == s.sregs,
                        self@.pc == s.pc,
                        self@.loaded == s.loaded,
                        self@.exit_code == s.exit_code,
                        self@.events == s.events,
                        forall|t: int| 0 <= t < i ==> self@.regs[t] == want_regs[t],
                    decreases 256 - i,
                {
                    let v = if (i as u64) < locals {
                        self.read_octa(locals_base.wrapping_add(8 * i as u64))
                    } else if (i as u64) < rg {
                        0
                    } else {
                        self.read_octa(globals_base.wrapping_add(8 * (i as u64 - rg)))
                    };
                    self.put_register_raw(i, v);
                    i = i + 1;
                }
                proof {
                    lemma_save_slots();
                }
                let mut k: u64 = 0;
                while k < 12
                    invariant
                        self.wf(),
                        k <= 12,
                        self@.mem == s.mem,
                        self@.regs =~= want_regs,
                        self@.pc == s.pc,
                        self@.loaded == s.loaded,
                        self@.exit_code == s.exit_code,
                        self@.events == s.events,
                        forall|t: int|
                            0 <= t < 32 ==> #[trigger] self@.sregs[t] == (if 0 <= slot_of_register(t) < k {
                                octa_at(s.mem, wrap(specials_base + 8 * slot_of_register(t)))
                            } else {
                                s.sregs[t]
                            }),
                    decreases 12 - k,
                {
                    let idx = save_slot_index(k);
                    let v = self.read_octa(specials_base.wrapping_add(8 * k));
                    self.set_sreg_at(idx, v);
                    k = k + 1;
                }
                self.set_sreg_at(R_G, rg);
                self.set_sreg_at(R_A, ra);
                self.set_sreg_at(R_L, locals);
                self.set_sreg_at(R_O, locals_base);
                self.set_sreg_at(R_S, locals_base);
                proof {
                    assert(self@.sregs =~= restored_sregs(s, rg, ra, locals, locals_base, specials_base));
                }
                self.advance_pc();
                true
            },
        }
    }

    /// The number of call frames on the register stack (see
    /// `frames_below`). A `SAVE` context is not a frame.
    pub fn call_depth(&self) -> (r: u64)
        requires
            self.wf(),
        ensures
            r == frames_below(self@.mem, sreg(self@, R_O)),
    {
        let ro0 = self.sreg_at(R_O);
        let mut ro = ro0;
        let mut count: u64 = 0;
        proof {
            lemma_frames_bound(self@.mem, ro0);
        }
        loop
            invariant
                self.wf(),
                count + frames_below(self@.mem, ro) == frames_below(self@.mem, ro0),
                frames_below(self@.mem, ro0) * 8 <= ro0,
                ro0 == sreg(self@, R_O),
            decreases ro,
        {
            proof {
                lemma_frames_step(self@.mem, ro);
            }
            if ro <= STACK_SEGMENT_START || ro % 8 != 0 || ro >= STACK_SEGMENT_END {
                return count;
            }
            let top = self.read_octa(ro - 8);
            if top / 0x100_0000_0000_0000 != 0 {
                match self.check_context(ro - 8) {
                    ContextCheck::Valid { locals_base, .. } => {
                        if locals_base < ro {
                            ro = locals_base;
                        } else {
                            return count;
                        }
                    },
                    _ => {
                        return count;
                    },
                }
            } else {
                ro = ro - 8 * (top % 256 + 1);
                count = count + 1;
            }
        }
    }
}
} // verus!
