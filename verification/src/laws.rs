//! Laws of the machine: what a read gives back of a write, what a call
//! and its return, or a `SAVE` and its `UNSAVE`, restore, how raised
//! exceptions reach rA, and what a refused instruction leaves behind.
use vstd::prelude::*;
use crate::word::{
    wrap, lemma_wrap_small, lemma_wrap_multiple, modulus, signed, fits_signed, floor_div, div_quotient,
    div_remainder, div_overflows,
};
use crate::special::{R_G, R_J, R_L, R_O, R_S, STACK_SEGMENT_START, STACK_SEGMENT_END};
use crate::state::{
    MState, well_formed, sreg, claim, byte_at, put_byte, wyde_at, tetra_at, octa_at, put_wyde,
    put_tetra, put_octa, aligned, gpr, set_reg, set_sreg,
};
use crate::control::yz_of;
use crate::stack::{
    spill, push_frame, pop_step, push_hole, popped_regs, cap256, save_step, unsave_step, saved_specials,
    packed_octa, context_at, ContextCheck, frames_below, lemma_frames_step,
};
use crate::special::{R_A, RA_MAX, save_slot};
use crate::exceptions::{raise_step, leftmost_event, handler_vector};
use crate::system::put_step;
use crate::execute::{run_spec, step};
use crate::event::Diagnostic;
use crate::state::diagnose;
use crate::event::TrapCode;
use crate::hostcall::{call_result, time_reading, CallOutcome};

verus! {

// ---------------------------------------------------------------- memory

/// A byte reads back as written, and writing it leaves every other byte
/// alone.
pub proof fn law_byte_write_read(m: Map<u64, u8>, a: u64, b: u8, c: u64)
    ensures
        byte_at(put_byte(m, a, b), a) == b,
        c != a ==> byte_at(put_byte(m, a, b), c) == byte_at(m, c),
{
}

/// A wyde reads back as written (from any address in its block), and
/// writing it leaves every other wyde-aligned block alone.
pub proof fn law_wyde_write_read(m: Map<u64, u8>, a: u64, v: u64, c: u64)
    requires
        v < 0x1_0000,
    ensures
        aligned(c, 2) == aligned(a, 2) ==> wyde_at(put_wyde(m, a, v), c) == v,
        aligned(c, 2) != aligned(a, 2) ==> wyde_at(put_wyde(m, a, v), c) == wyde_at(m, c),
{
    reveal(wyde_at);
    reveal(put_wyde);
}

/// A tetra reads back as written, and writing it leaves every other
/// tetra-aligned block alone.
pub proof fn law_tetra_write_read(m: Map<u64, u8>, a: u64, v: u64, c: u64)
    requires
        v < 0x1_0000_0000,
    ensures
        aligned(c, 4) == aligned(a, 4) ==> tetra_at(put_tetra(m, a, v), c) == v,
        aligned(c, 4) != aligned(a, 4) ==> tetra_at(put_tetra(m, a, v), c) == tetra_at(m, c),
{
    reveal(tetra_at);
    reveal(put_tetra);
    let b = aligned(a, 4);
    let d = aligned(c, 4);
    let m1 = put_wyde(m, b, v / 0x1_0000);
    let m2 = put_wyde(m1, (b + 2) as u64, v % 0x1_0000);
    law_wyde_write_read(m, b, v / 0x1_0000, d);
    law_wyde_write_read(m, b, v / 0x1_0000, (d + 2) as u64);
    law_wyde_write_read(m1, (b + 2) as u64, v % 0x1_0000, d);
    law_wyde_write_read(m1, (b + 2) as u64, v % 0x1_0000, (d + 2) as u64);
}

/// An octa reads back as written, and writing it leaves every other
/// octa-aligned block alone.
pub proof fn law_octa_write_read(m: Map<u64, u8>, a: u64, v: u64, c: u64)
    ensures
        aligned(c, 8) == aligned(a, 8) ==> octa_at(put_octa(m, a, v), c) == v,
        aligned(c, 8) != aligned(a, 8) ==> octa_at(put_octa(m, a, v), c) == octa_at(m, c),
{
    reveal(octa_at);
    reveal(put_octa);
    let b = aligned(a, 8);
    let d = aligned(c, 8);
    let m1 = put_tetra(m, b, v / 0x1_0000_0000);
    law_tetra_write_read(m, b, v / 0x1_0000_0000, d);
    law_tetra_write_read(m, b, v / 0x1_0000_0000, (d + 4) as u64);
    law_tetra_write_read(m1, (b + 4) as u64, v % 0x1_0000_0000, d);
    law_tetra_write_read(m1, (b + 4) as u64, v % 0x1_0000_0000, (d + 4) as u64);
}


/// Reading an octa a spill wrote gives the spilled value.
proof fn lemma_spill_read(m: Map<u64, u8>, base: u64, vals: Seq<u64>, start: int, n: nat, i: int)
    requires
        base % 8 == 0,
        base + 8 * n <= 0x1_0000_0000_0000_0000,
        0 <= i < n,
    ensures
        octa_at(spill(m, base, vals, start, n), (base + 8 * i) as u64) == vals[start + i],
    decreases n,
{
    let k = (n - 1) as nat;
    lemma_wrap_small(base + 8 * k);
    let a = (base + 8 * i) as u64;
    assert(aligned(a, 8) == a);
    assert(aligned((base + 8 * k) as u64, 8) == base + 8 * k);
    law_octa_write_read(spill(m, base, vals, start, k), (base + 8 * k) as u64, vals[start + k], a);
    if i < k {
        lemma_spill_read(m, base, vals, start, k, i);
    }
}

/// A spill leaves every octa outside its range alone.
proof fn lemma_spill_other(m: Map<u64, u8>, base: u64, vals: Seq<u64>, start: int, n: nat, c: u64)
    requires
        base % 8 == 0,
        base + 8 * n <= 0x1_0000_0000_0000_0000,
        aligned(c, 8) < base || aligned(c, 8) >= base + 8 * n,
    ensures
        octa_at(spill(m, base, vals, start, n), c) == octa_at(m, c),
    decreases n,
{
    if n > 0 {
        let k = (n - 1) as nat;
        lemma_wrap_small(base + 8 * k);
        assert(aligned((base + 8 * k) as u64, 8) == base + 8 * k);
        law_octa_write_read(spill(m, base, vals, start, k), (base + 8 * k) as u64, vals[start + k], c);
        lemma_spill_other(m, base, vals, start, k, c);
    }
}

/// The call/return protocol. A call with hole `$x` below rG, from a stack
/// with room for its frame, followed by any callee that leaves rO, rG and
/// the frame's memory as the call found them and returns `n` of its
/// locals with `POP n,YZ`: the caller's registers below the hole come
/// back, the hole holds the last output and the registers above it the
/// others in order, rO and rS return to where the call found them, rL is
/// `x + n` (at most rG), and execution resumes at rJ + 4*YZ.
pub proof fn law_call_return(s: MState, x: u8, t: MState, n: u8, y: u8, z: u8)
    requires
        well_formed(s),
        well_formed(t),
        (x as u64) < sreg(s, R_G),
        sreg(s, R_O) % 8 == 0,
        STACK_SEGMENT_START <= sreg(s, R_O),
        sreg(s, R_O) + 8 * (x + 1) < STACK_SEGMENT_END,
        sreg(t, R_O) == sreg(push_frame(claim(s, x), x), R_O),
        sreg(t, R_G) == sreg(s, R_G),
        forall|k: int|
            0 <= k <= x ==> #[trigger] octa_at(t.mem, (sreg(s, R_O) + 8 * k) as u64) == octa_at(
                push_frame(claim(s, x), x).mem,
                (sreg(s, R_O) + 8 * k) as u64,
            ),
        n as u64 <= sreg(t, R_L),
    ensures
        ({
            let c = claim(s, x);
            let (u, ok) = pop_step(t, n, y, z);
            &&& ok
            &&& forall|i: int| 0 <= i < x ==> #[trigger] u.regs[i] == c.regs[i]
            &&& n > 0 ==> u.regs[x as int] == t.regs[n - 1]
            &&& forall|j: int|
                0 <= j < n - 1 && x + 1 + j < cap256(sreg(s, R_G)) ==> #[trigger] u.regs[x + 1 + j]
                    == t.regs[j]
            &&& sreg(u, R_O) == sreg(s, R_O)
            &&& sreg(u, R_S) == sreg(s, R_O)
            &&& sreg(u, R_L) == (if x + n < sreg(s, R_G) { (x + n) as u64 } else { sreg(s, R_G) })
            &&& u.pc == wrap(sreg(t, R_J) + 4 * yz_of(y, z))
            &&& u.mem == t.mem
        }),
{
    let c = claim(s, x);
    let p = push_frame(c, x);
    let ro = sreg(s, R_O);
    assert(sreg(c, R_O) == ro);
    assert(sreg(c, R_G) == sreg(s, R_G));
    assert(push_hole(c, x) == x as int);
    let m1 = spill(c.mem, ro, c.regs, 0, x as nat);
    lemma_wrap_small(ro + 8 * x);
    lemma_wrap_small(ro + 8 * (x + 1));
    assert(p.mem == put_octa(m1, (ro + 8 * x) as u64, x as u64));
    assert(sreg(p, R_O) == (ro + 8 * (x + 1)) as u64);
    let top = (ro + 8 * x) as u64;
    assert(aligned(top, 8) == top);
    law_octa_write_read(m1, top, x as u64, top);
    assert(octa_at(t.mem, top) == octa_at(p.mem, (ro + 8 * x) as u64));
    assert(octa_at(t.mem, (sreg(t, R_O) - 8) as u64) == x as u64);
    assert forall|i: int| 0 <= i < x implies octa_at(t.mem, wrap(ro + 8 * i)) == c.regs[i] by {
        lemma_wrap_small(ro + 8 * i);
        assert(octa_at(t.mem, (ro + 8 * i) as u64) == octa_at(p.mem, (ro + 8 * i) as u64));
        let a = (ro + 8 * i) as u64;
        assert(aligned(a, 8) == a);
        law_octa_write_read(m1, top, x as u64, a);
        lemma_spill_read(c.mem, ro, c.regs, 0, x as nat, i);
    }
    let (u, ok) = pop_step(t, n, y, z);
    assert(octa_at(t.mem, (sreg(t, R_O) - 8) as u64) % 256 == x as int);
    let base = (sreg(t, R_O) - 8 * (x + 1)) as u64;
    assert(base == ro);
    assert forall|j: int|
        0 <= j < n - 1 && x + 1 + j < cap256(sreg(s, R_G)) implies #[trigger] u.regs[x + 1 + j]
        == t.regs[j] by {
        assert(u.regs == popped_regs(t, x as int, n as int, base));
        assert(x + 1 + j < cap256(sreg(t, R_G)));
    }
}

// ---------------------------------------------------------------- registers

/// A general register reads back as written. Writing `$r` touches no
/// other register except that a local `$r` at or above rL first claims the
/// registers from rL through `$r`, which then read zero.
pub proof fn law_register_write_read(s: MState, r: u8, v: u64, i: int)
    requires
        well_formed(s),
        0 <= i < 256,
        i != r,
    ensures
        gpr(set_reg(s, r, v), r) == v,
        (i < sreg(s, R_L) || i >= sreg(s, R_G) || i > r) ==> set_reg(s, r, v).regs[i] == s.regs[i],
        (sreg(s, R_L) <= i < r && (r as u64) < sreg(s, R_G)) ==> set_reg(s, r, v).regs[i] == 0,
        set_reg(s, r, v).mem == s.mem,
{
}

/// A special register reads back as written, and writing it touches no
/// other register.
pub proof fn law_special_write_read(s: MState, k: usize, v: u64, j: int)
    requires
        well_formed(s),
        k < 32,
        0 <= j < 32,
        j != k,
    ensures
        sreg(set_sreg(s, k, v), k) == v,
        set_sreg(s, k, v).sregs[j] == s.sregs[j],
        set_sreg(s, k, v).regs == s.regs,
{
}

// ---------------------------------------------------------------- contexts

/// How many locals `SAVE` stores: rL, but no more than rG.
pub open spec fn saved_locals(s: MState) -> int {
    if sreg(s, R_L) < sreg(s, R_G) {
        sreg(s, R_L) as int
    } else {
        sreg(s, R_G) as int
    }
}

/// The number of octas in the context `SAVE` writes.
pub open spec fn context_len(s: MState) -> int {
    saved_locals(s) + 270 - sreg(s, R_G)
}

/// The `k`-th octa of the context `SAVE` writes from rO: the locals, their
/// count, the globals, the twelve specials and the packed rG/rA.
pub open spec fn context_octa(s: MState, k: int) -> u64 {
    let rg = sreg(s, R_G) as int;
    let l = saved_locals(s);
    if k < l {
        s.regs[k]
    } else if k == l {
        l as u64
    } else if k <= l + 256 - rg {
        s.regs[rg + k - l - 1]
    } else if k < l + 269 - rg {
        saved_specials(s.sregs)[k - (l + 257 - rg)]
    } else {
        packed_octa(sreg(s, R_G), sreg(s, R_A))
    }
}

/// `SAVE` lays its context out octa by octa from rO as `context_octa` says.
proof fn lemma_context_layout(s: MState, x: u8, k: int)
    requires
        well_formed(s),
        sreg(s, R_G) <= x,
        sreg(s, R_G) <= 256,
        sreg(s, R_O) % 8 == 0,
        sreg(s, R_O) + 8 * context_len(s) <= 0x1_0000_0000_0000_0000,
        0 <= k < context_len(s),
    ensures
        octa_at(save_step(s, x).0.mem, (sreg(s, R_O) + 8 * k) as u64) == context_octa(s, k),
{
    let rg = sreg(s, R_G);
    let l = saved_locals(s);
    let ro = sreg(s, R_O);
    let m1 = spill(s.mem, ro, s.regs, 0, l as nat);
    let marker = ro + 8 * l;
    lemma_wrap_small(marker);
    let m2 = put_octa(m1, marker as u64, l as u64);
    let gbase = ro + 8 * (l + 1);
    lemma_wrap_small(gbase);
    let m3 = spill(m2, gbase as u64, s.regs, rg as int, (256 - rg) as nat);
    let sbase = gbase + 8 * (256 - rg);
    lemma_wrap_small(sbase);
    let m4 = spill(m3, sbase as u64, saved_specials(s.sregs), 0, 12);
    let p = sbase + 96;
    lemma_wrap_small(p);
    let packed = packed_octa(rg, sreg(s, R_A));
    let m5 = put_octa(m4, p as u64, packed);
    assert(save_step(s, x).0.mem == m5);
    let a = ro + 8 * k;
    lemma_wrap_small(a);
    let au = a as u64;
    assert(aligned(au, 8) == au);
    assert(aligned(p as u64, 8) == p);
    assert(aligned(marker as u64, 8) == marker);
    law_octa_write_read(m4, p as u64, packed, au);
    if k < l + 269 - rg {
        if k <= l + 256 - rg {
            lemma_spill_other(m3, sbase as u64, saved_specials(s.sregs), 0, 12, au);
            if k <= l {
                lemma_spill_other(m2, gbase as u64, s.regs, rg as int, (256 - rg) as nat, au);
                law_octa_write_read(m1, marker as u64, l as u64, au);
                if k < l {
                    lemma_spill_read(s.mem, ro, s.regs, 0, l as nat, k);
                }
            } else {
                lemma_spill_read(m2, gbase as u64, s.regs, rg as int, (256 - rg) as nat, k - l - 1);
            }
        } else {
            lemma_spill_read(m3, sbase as u64, saved_specials(s.sregs), 0, 12, k - (l + 257 - rg));
        }
    }
}

/// The context `SAVE` writes, wherever its octas are found again, reads
/// back as valid, with its locals at the old rO.
proof fn lemma_saved_context(s: MState, x: u8, m: Map<u64, u8>)
    requires
        well_formed(s),
        sreg(s, R_G) <= x,
        32 <= sreg(s, R_G) < 256,
        sreg(s, R_A) <= RA_MAX,
        sreg(s, R_O) % 8 == 0,
        sreg(s, R_O) + 8 * context_len(s) <= 0x1_0000_0000_0000_0000,
        forall|k: int|
            0 <= k < context_len(s) ==> #[trigger] octa_at(m, (sreg(s, R_O) + 8 * k) as u64)
                == octa_at(save_step(s, x).0.mem, (sreg(s, R_O) + 8 * k) as u64),
    ensures
        ({
            let rg = sreg(s, R_G);
            let l = saved_locals(s);
            let ro = sreg(s, R_O);
            let p = ro + 8 * (context_len(s) - 1);
            context_at(m, p as u64) == ContextCheck::Valid {
                rg: rg,
                ra: sreg(s, R_A),
                locals: l as u64,
                locals_base: ro,
                globals_base: (p - 96 - 8 * (256 - rg)) as u64,
                specials_base: (p - 96) as u64,
            }
        }),
{
    let rg = sreg(s, R_G);
    let ra = sreg(s, R_A);
    let l = saved_locals(s);
    let ro = sreg(s, R_O);
    let n = context_len(s);
    let p = ro + 8 * (n - 1);
    lemma_wrap_small(p);
    lemma_context_layout(s, x, n - 1);
    assert(octa_at(m, (ro + 8 * (n - 1)) as u64) == packed_octa(rg, ra));
    assert(ra % 0x100_0000_0000_0000 == ra);
    vstd::arithmetic::div_mod::lemma_fundamental_div_mod_converse(
        packed_octa(rg, ra) as int,
        0x100_0000_0000_0000,
        rg as int,
        ra as int,
    );
    let sbase = p - 96;
    let gbase = sbase - 8 * (256 - rg);
    let marker = gbase - 8;
    assert(marker == ro + 8 * l);
    lemma_context_layout(s, x, l);
    assert(octa_at(m, (ro + 8 * l) as u64) == l);
    lemma_wrap_small(sbase);
    lemma_wrap_small(gbase);
    lemma_wrap_small(marker);
    lemma_wrap_small(marker - 8 * l);
}

/// `SAVE` and `UNSAVE` undo each other. After `SAVE $X,0` (X global, rG in
/// `32..=255`, rA at most `RA_MAX`, rO aligned and the context fitting below
/// 2^64), let anything happen that leaves the context's octas in memory and
/// its address in `$Z`; then `UNSAVE 0,$Z` succeeds and brings back the
/// saved locals (the rest up to rG reading zero), the globals, the twelve
/// saved special registers, rG, rA and rL = the saved local count, with
/// rO = rS back where `SAVE` found them.
pub proof fn law_save_unsave(s: MState, x: u8, t: MState, z: u8)
    requires
        well_formed(s),
        well_formed(t),
        sreg(s, R_G) <= x,
        32 <= sreg(s, R_G) < 256,
        sreg(s, R_A) <= RA_MAX,
        sreg(s, R_O) % 8 == 0,
        sreg(s, R_O) + 8 * context_len(s) <= 0x1_0000_0000_0000_0000,
        gpr(t, z) == gpr(save_step(s, x).0, x),
        forall|k: int|
            0 <= k < context_len(s) ==> #[trigger] octa_at(t.mem, (sreg(s, R_O) + 8 * k) as u64)
                == octa_at(save_step(s, x).0.mem, (sreg(s, R_O) + 8 * k) as u64),
    ensures
        save_step(s, x).1,
        ({
            let (u, ok) = unsave_step(t, z);
            let l = saved_locals(s);
            &&& ok
            &&& forall|i: int| 0 <= i < l ==> #[trigger] u.regs[i] == s.regs[i]
            &&& forall|i: int| l <= i < sreg(s, R_G) ==> #[trigger] u.regs[i] == 0
            &&& forall|i: int| sreg(s, R_G) <= i < 256 ==> #[trigger] u.regs[i] == s.regs[i]
            &&& forall|k: nat|
                k < 12 ==> #[trigger] u.sregs[save_slot(k) as int] == s.sregs[save_slot(k) as int]
            &&& sreg(u, R_G) == sreg(s, R_G)
            &&& sreg(u, R_A) == sreg(s, R_A)
            &&& sreg(u, R_L) == l
            &&& sreg(u, R_O) == sreg(s, R_O)
            &&& sreg(u, R_S) == sreg(s, R_O)
            &&& u.mem == t.mem
        }),
{
    let rg = sreg(s, R_G);
    let l = saved_locals(s);
    let ro = sreg(s, R_O);
    let n = context_len(s);
    let p = ro + 8 * (n - 1);
    lemma_wrap_small(p);
    lemma_wrap_small(ro + 8 * (l + 1));
    lemma_wrap_small(ro + 8 * (l + 1) + 8 * (256 - rg));
    assert(gpr(save_step(s, x).0, x) == p);
    assert(gpr(t, z) == p);
    let sbase = p - 96;
    let gbase = sbase - 8 * (256 - rg);
    lemma_saved_context(s, x, t.mem);
    let (u, ok) = unsave_step(t, z);
    assert forall|i: int| 0 <= i < l implies #[trigger] u.regs[i] == s.regs[i] by {
        lemma_wrap_small(ro + 8 * i);
        lemma_context_layout(s, x, i);
    }
    assert forall|i: int| sreg(s, R_G) <= i < 256 implies #[trigger] u.regs[i] == s.regs[i] by {
        let k = l + 1 + (i - rg);
        lemma_wrap_small(gbase + 8 * (i - rg));
        assert(gbase + 8 * (i - rg) == ro + 8 * k);
        lemma_context_layout(s, x, k);
    }
    assert forall|k: nat| k < 12 implies #[trigger] u.sregs[save_slot(k) as int]
        == s.sregs[save_slot(k) as int] by {
        let j = l + 257 - rg + k;
        lemma_wrap_small(sbase + 8 * k);
        assert(sbase + 8 * k == ro + 8 * j);
        lemma_context_layout(s, x, j);
    }
}

// ---------------------------------------------------------------- exceptions

/// Exception routing. Whatever bits an instruction raises, rA afterwards
/// is rA before with the raised bits whose enable is clear added to its
/// event byte: no event bit is ever cleared, and no enabled bit is ever
/// recorded. With no enabled bit raised, execution goes on at the next
/// instruction with the general registers untouched; with one, control
/// goes to the handler of the leftmost such bit, unless the program image
/// lacks it and the machine halts.
pub proof fn law_raise_routing(s: MState, flags: u64, op: u8, x: u8, y: u8, z: u8, yv: u64, zv: u64)
    requires
        well_formed(s),
    ensures
        ({
            let (u, ok) = raise_step(s, flags, op, x, y, z, yv, zv);
            let ra = sreg(s, R_A);
            let enable = (ra / 0x100) % 0x100;
            &&& sreg(u, R_A) == ra | (flags & 0xFF & !enable)
            &&& (flags & enable) == 0 ==> ok && u.pc == wrap(s.pc + 4) && u.regs == s.regs
            &&& (flags & enable) != 0 && ok ==> u.pc == handler_vector(leftmost_event(flags & enable))
        }),
{
    let ra = sreg(s, R_A);
    let enable = (ra / 0x100) % 0x100;
    assert(ra | (0u64 & 0xFF & !enable) == ra) by (bit_vector);
    assert(ra | 0u64 == ra) by (bit_vector);
    assert(enable < 0x100);
    let v = flags & enable;
    assert(enable < 0x100 ==> ((flags & enable) != 0 <==> (v & 0x80 != 0 || v & 0x40 != 0 || v & 0x20
        != 0 || v & 0x10 != 0 || v & 0x08 != 0 || v & 0x04 != 0 || v & 0x02 != 0 || v & 0x01 != 0)))
        by (bit_vector)
        requires
            v == flags & enable,
    ;
    assert(flags == 0 ==> (flags & enable) == 0) by (bit_vector);
}

// ---------------------------------------------------------------- refusals

/// A refused `PUT`, `POP`, `SAVE` or `UNSAVE` changes nothing but the
/// record: the state after it is the state before with one diagnostic
/// added, the program counter still on the refused instruction.
pub proof fn law_refusal_changes_nothing(s: MState, x: u8, v: u64, y: u8, z: u8)
    ensures
        !put_step(s, x, v).1 ==> exists|d: Diagnostic| put_step(s, x, v).0 == #[trigger] diagnose(s, d),
        !pop_step(s, x, y, z).1 ==> exists|d: Diagnostic| pop_step(s, x, y, z).0 == #[trigger] diagnose(s, d),
        !save_step(s, x).1 ==> exists|d: Diagnostic| save_step(s, x).0 == #[trigger] diagnose(s, d),
        !unsave_step(s, z).1 ==> exists|d: Diagnostic| unsave_step(s, z).0 == #[trigger] diagnose(s, d),
{
}

// ---------------------------------------------------------------- runs

/// A run that used its whole budget without halting can be resumed: running
/// `a` instructions and then `b` more reaches the same state, with the same
/// count and the same outcome, as running `a + b` at once.
pub proof fn law_run_resumes(s: MState, a: nat, b: nat)
    requires
        !run_spec(s, a).2,
    ensures
        run_spec(s, a).1 == a,
        ({
            let (s1, c1, h1) = run_spec(s, a);
            let (s2, c2, h2) = run_spec(s1, b);
            run_spec(s, a + b) == (s2, a + c2, h2)
        }),
    decreases a,
{
    if a > 0 {
        let (s1, go_on) = step(s);
        law_run_resumes(s1, (a - 1) as nat, b);
        assert((a + b - 1) as nat == (a - 1) as nat + b);
    }
}

// ---------------------------------------------------------------- call depth

/// The walk that counts frames reads only the octas below where it starts.
proof fn lemma_frames_agree(m1: Map<u64, u8>, m2: Map<u64, u8>, ro: u64)
    requires
        forall|a: u64| a % 8 == 0 && a + 8 <= ro ==> #[trigger] octa_at(m1, a) == octa_at(m2, a),
    ensures
        frames_below(m1, ro) == frames_below(m2, ro),
    decreases ro,
{
    lemma_frames_step(m1, ro);
    lemma_frames_step(m2, ro);
    if !(ro <= STACK_SEGMENT_START || ro % 8 != 0 || ro >= STACK_SEGMENT_END) {
        let p = (ro - 8) as u64;
        assert(octa_at(m1, p) == octa_at(m2, p));
        let top = octa_at(m1, p);
        if top / 0x100_0000_0000_0000 != 0 {
            let rg = top / 0x100_0000_0000_0000;
            let sbase = p - 96;
            let gbase = sbase - 8 * (256 - rg);
            let marker = gbase - 8;
            lemma_wrap_small(sbase);
            lemma_wrap_small(gbase);
            lemma_wrap_small(marker);
            assert(octa_at(m1, marker as u64) == octa_at(m2, marker as u64));
            assert(context_at(m1, p) == context_at(m2, p));
            match context_at(m1, p) {
                ContextCheck::Valid { locals_base, .. } => if locals_base < ro {
                    lemma_frames_agree(m1, m2, locals_base);
                },
                _ => {},
            }
        } else {
            lemma_frames_agree(m1, m2, (ro - 8 * (top % 256 + 1)) as u64);
        }
    }
}

/// A call opens one more frame: with rO aligned, the new frame inside the
/// stack segment and a hole below 256, the number of frames below rO after `push_frame` is
/// one more than before.
pub proof fn law_push_deepens(s: MState, x: u8)
    requires
        well_formed(s),
        sreg(s, R_O) % 8 == 0,
        STACK_SEGMENT_START <= sreg(s, R_O),
        sreg(s, R_O) + 8 * (push_hole(s, x) + 1) < STACK_SEGMENT_END,
        push_hole(s, x) < 256,
    ensures
        frames_below(push_frame(s, x).mem, sreg(push_frame(s, x), R_O)) == frames_below(s.mem, sreg(s, R_O)) + 1,
{
    let ro = sreg(s, R_O);
    let h = push_hole(s, x);
    assert(0 <= h <= 256);
    let m1 = spill(s.mem, ro, s.regs, 0, h as nat);
    lemma_wrap_small(ro + 8 * h);
    lemma_wrap_small(ro + 8 * (h + 1));
    let top = (ro + 8 * h) as u64;
    let p = push_frame(s, x);
    assert(p.mem == put_octa(m1, top, h as u64));
    let new_ro = sreg(p, R_O);
    assert(new_ro == ro + 8 * (h + 1));
    assert(aligned(top, 8) == top);
    law_octa_write_read(m1, top, h as u64, top);
    assert((new_ro - 8) as u64 == top);
    assert(octa_at(p.mem, top) == h);
    lemma_frames_step(p.mem, new_ro);
    assert((new_ro - 8 * (h % 256 + 1)) as u64 == ro);
    assert forall|a: u64| a % 8 == 0 && a + 8 <= ro implies #[trigger] octa_at(p.mem, a) == octa_at(s.mem, a) by {
        assert(aligned(a, 8) == a);
        law_octa_write_read(m1, top, h as u64, a);
        lemma_spill_other(s.mem, ro, s.regs, 0, h as nat, a);
    }
    lemma_frames_agree(p.mem, s.mem, ro);
}

/// A return closes the top frame: when the octa below an aligned rO inside
/// the stack segment is a frame's hole number (not a context's packed
/// octa), `POP` leaves one frame fewer below rO.
pub proof fn law_pop_shallows(s: MState, x: u8, y: u8, z: u8)
    requires
        well_formed(s),
        sreg(s, R_O) % 8 == 0,
        STACK_SEGMENT_START < sreg(s, R_O) < STACK_SEGMENT_END,
        octa_at(s.mem, (sreg(s, R_O) - 8) as u64) / 0x100_0000_0000_0000 == 0,
    ensures
        pop_step(s, x, y, z).1,
        frames_below(pop_step(s, x, y, z).0.mem, sreg(pop_step(s, x, y, z).0, R_O)) + 1
            == frames_below(s.mem, sreg(s, R_O)),
{
    lemma_frames_step(s.mem, sreg(s, R_O));
}

/// `SAVE` opens no frame: with the context inside the stack segment, the
/// frames below rO after `SAVE` are the frames below rO before it.
pub proof fn law_save_keeps_depth(s: MState, x: u8)
    requires
        well_formed(s),
        sreg(s, R_G) <= x,
        32 <= sreg(s, R_G) < 256,
        sreg(s, R_A) <= RA_MAX,
        sreg(s, R_O) % 8 == 0,
        STACK_SEGMENT_START <= sreg(s, R_O),
        sreg(s, R_O) + 8 * context_len(s) < STACK_SEGMENT_END,
    ensures
        frames_below(save_step(s, x).0.mem, sreg(save_step(s, x).0, R_O)) == frames_below(s.mem, sreg(s, R_O)),
{
    let rg = sreg(s, R_G);
    let l = saved_locals(s);
    let ro = sreg(s, R_O);
    let n = context_len(s);
    let u = save_step(s, x).0;
    let p = ro + 8 * (n - 1);
    lemma_wrap_small(p);
    lemma_wrap_small(p + 8);
    lemma_wrap_small(ro + 8 * l);
    lemma_wrap_small(ro + 8 * (l + 1));
    lemma_wrap_small(ro + 8 * (l + 1) + 8 * (256 - rg));
    assert(sreg(u, R_O) == p + 8);
    lemma_saved_context(s, x, u.mem);
    lemma_context_layout(s, x, n - 1);
    assert(octa_at(u.mem, p as u64) == packed_octa(rg, sreg(s, R_A)));
    assert(packed_octa(rg, sreg(s, R_A)) / 0x100_0000_0000_0000 == rg);
    lemma_frames_step(u.mem, (p + 8) as u64);
    let m1 = spill(s.mem, ro, s.regs, 0, l as nat);
    let marker = (ro + 8 * l) as u64;
    let m2 = put_octa(m1, marker, l as u64);
    let gbase = (ro + 8 * (l + 1)) as u64;
    let m3 = spill(m2, gbase, s.regs, rg as int, (256 - rg) as nat);
    let sbase = (ro + 8 * (l + 1) + 8 * (256 - rg)) as u64;
    let m4 = spill(m3, sbase, saved_specials(s.sregs), 0, 12);
    assert(u.mem == put_octa(m4, p as u64, packed_octa(rg, sreg(s, R_A))));
    assert(aligned(p as u64, 8) == p);
    assert(aligned(marker, 8) == marker);
    assert forall|a: u64| a % 8 == 0 && a + 8 <= ro implies #[trigger] octa_at(u.mem, a) == octa_at(s.mem, a) by {
        assert(aligned(a, 8) == a);
        law_octa_write_read(m4, p as u64, packed_octa(rg, sreg(s, R_A)), a);
        lemma_spill_other(m3, sbase, saved_specials(s.sregs), 0, 12, a);
        lemma_spill_other(m2, gbase, s.regs, rg as int, (256 - rg) as nat, a);
        law_octa_write_read(m1, marker, l as u64, a);
        lemma_spill_other(s.mem, ro, s.regs, 0, l as nat, a);
    }
    lemma_frames_agree(u.mem, s.mem, ro);
}

// ---------------------------------------------------------------- division

/// A value in the signed range reads back from its octabyte.
proof fn lemma_signed_wrap(v: int)
    requires
        fits_signed(v),
    ensures
        signed(wrap(v)) == v,
{
    if v >= 0 {
        lemma_wrap_small(v);
    } else {
        lemma_wrap_multiple(v + modulus(), -1);
        lemma_wrap_small(v + modulus());
    }
}

/// `DIV` divides with the floor: for a nonzero divisor and a quotient in
/// range, dividend = divisor * quotient + remainder, and the remainder is
/// zero or has the divisor's sign and a smaller magnitude.
pub proof fn law_div_floor(y: u64, z: u64)
    requires
        z != 0,
        !div_overflows(y, z),
    ensures
        ({
            let q = signed(div_quotient(y, z));
            let r = signed(div_remainder(y, z));
            &&& signed(y) == signed(z) * q + r
            &&& signed(z) > 0 ==> 0 <= r < signed(z)
            &&& signed(z) < 0 ==> signed(z) < r <= 0
        }),
{
    let a = signed(y);
    let b = signed(z);
    let q = floor_div(a, b);
    assert(b != 0);
    lemma_signed_wrap(q);
    if b > 0 {
        vstd::arithmetic::div_mod::lemma_fundamental_div_mod(a, b);
        assert(0 <= a % b < b);
        assert(a - b * q == a % b);
    } else {
        vstd::arithmetic::div_mod::lemma_fundamental_div_mod(-a, -b);
        assert(0 <= (-a) % (-b) < -b);
        assert(-a == (-b) * q + (-a) % (-b));
        assert(a - b * q == -((-a) % (-b))) by (nonlinear_arith)
            requires
                -a == (-b) * q + (-a) % (-b),
        ;
    }
    assert(-0x8000_0000_0000_0000 <= b < 0x8000_0000_0000_0000);
    lemma_signed_wrap(a - b * q);
}

// ---------------------------------------------------------------- system calls

/// What a finished system call leaves in `$255`, for the state
/// `MMix::finish_host_call` produces from `s`. `TRAP 0,Time,u` gives the
/// clock in the unit `u` names: seconds for 0, milliseconds for 1,
/// microseconds for 2 (so each finer unit is the coarser one times 1000,
/// up to what the division drops), and -1 for any other unit. A string put
/// gives the count it wrote, `Fputc` and `Fwrite` give 0, a failure gives
/// -1, and a call that reports nothing leaves the machine as it was.
pub proof fn law_system_call_results(s: MState, code: TrapCode, arg: u8, outcome: CallOutcome)
    requires
        well_formed(s),
    ensures
        ({
            let t = match call_result(code, arg, outcome) {
                Some(v) => set_reg(s, 255, v),
                None => s,
            };
            &&& outcome matches CallOutcome::Clock(m) ==> {
                &&& arg == 0 ==> gpr(t, 255) == m / 1_000_000
                &&& arg == 1 ==> gpr(t, 255) == m / 1000
                &&& arg == 2 ==> gpr(t, 255) == m
                &&& arg > 2 ==> gpr(t, 255) == 0xFFFF_FFFF_FFFF_FFFFu64
                &&& arg == 1 ==> gpr(t, 255) * 1000 <= m < gpr(t, 255) * 1000 + 1000
                &&& arg == 0 ==> gpr(t, 255) * 1_000_000 <= m < gpr(t, 255) * 1_000_000 + 1_000_000
            }
            &&& outcome matches CallOutcome::Done(n) ==> gpr(t, 255) == (if code == TrapCode::Fputc
                || code == TrapCode::Fwrite {
                0
            } else {
                n
            })
            &&& outcome == CallOutcome::Failed ==> gpr(t, 255) == 0xFFFF_FFFF_FFFF_FFFFu64
            &&& outcome == CallOutcome::Silent ==> t == s
            &&& forall|i: int| 0 <= i < 255 && (i < sreg(s, R_L) || i >= sreg(s, R_G)) ==> #[trigger] t.regs[i] == s.regs[i]
            &&& t.sregs[R_L as int] == s.sregs[R_L as int] || (255 < sreg(s, R_G) && sreg(s, R_L) <= 255)
            &&& t.mem == s.mem
            &&& t.pc == s.pc
        }),
{
    match outcome {
        CallOutcome::Clock(m) => {
            assert(time_reading(m, arg) == call_result(code, arg, outcome)->0);
        },
        _ => {},
    }
}
} // verus!
