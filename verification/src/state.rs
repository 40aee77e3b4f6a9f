//! The mathematical model of a machine: what `MMix@` is, and the basic
//! state changes every instruction is built from.
use vstd::prelude::*;
use crate::word::wrap;
use crate::special::{R_G, R_L, R_N, R_O, R_S, STACK_SEGMENT_START};
use crate::event::{Diagnostic, Event};

verus! {

/// A machine's whole state as the instructions see it.
///
/// `regs` are the 256 general registers and `sregs` the 32 special ones.
/// `mem` holds every nonzero byte of the 2^64-byte memory; an address it
/// lacks reads zero. `loaded` is the set of addresses the program image
/// supplied. `events` is everything reported so far.
#[verifier::ext_equal]
pub struct MState {
    pub regs: Seq<u64>,
    pub sregs: Seq<u64>,
    pub mem: Map<u64, u8>,
    pub loaded: Set<u64>,
    pub pc: u64,
    pub exit_code: u64,
    pub events: Seq<Event>,
}

/// The shape every reachable state has.
pub open spec fn well_formed(s: MState) -> bool {
    &&& s.regs.len() == 256
    &&& s.sregs.len() == 32
    &&& sparse(s.mem)
    &&& s.mem.dom().finite()
}

/// No stored byte is zero: zero is what an absent address reads.
pub open spec fn sparse(m: Map<u64, u8>) -> bool {
    forall|a: u64| m.contains_key(a) ==> m[a] != 0
}

// ---------------------------------------------------------------- memory

/// The byte at `a`.
pub open spec fn byte_at(m: Map<u64, u8>, a: u64) -> u8 {
    if m.contains_key(a) {
        m[a]
    } else {
        0
    }
}

/// Memory after writing `b` at `a`: a zero byte is dropped, not stored.
pub open spec fn put_byte(m: Map<u64, u8>, a: u64, b: u8) -> Map<u64, u8> {
    if b == 0 {
        m.remove(a)
    } else {
        m.insert(a, b)
    }
}

/// The first address of the `size`-byte block containing `a`.
pub open spec fn aligned(a: u64, size: u64) -> u64 {
    (a - a % size) as u64
}

/// The big-endian wyde at the wyde-aligned block containing `a`.
#[verifier::opaque]
pub open spec fn wyde_at(m: Map<u64, u8>, a: u64) -> u64 {
    let b = aligned(a, 2);
    (byte_at(m, b) as int * 0x100 + byte_at(m, (b + 1) as u64) as int) as u64
}

/// The big-endian tetra at the tetra-aligned block containing `a`.
#[verifier::opaque]
pub open spec fn tetra_at(m: Map<u64, u8>, a: u64) -> u64 {
    let b = aligned(a, 4);
    (wyde_at(m, b) as int * 0x1_0000 + wyde_at(m, (b + 2) as u64) as int) as u64
}

/// The big-endian octa at the octa-aligned block containing `a`.
#[verifier::opaque]
pub open spec fn octa_at(m: Map<u64, u8>, a: u64) -> u64 {
    let b = aligned(a, 8);
    (tetra_at(m, b) as int * 0x1_0000_0000 + tetra_at(m, (b + 4) as u64) as int) as u64
}

/// Memory after storing the wyde `v` (below 2^16) at `a`'s block.
#[verifier::opaque]
pub open spec fn put_wyde(m: Map<u64, u8>, a: u64, v: u64) -> Map<u64, u8> {
    let b = aligned(a, 2);
    put_byte(put_byte(m, b, (v / 0x100) as u8), (b + 1) as u64, (v % 0x100) as u8)
}

/// Memory after storing the tetra `v` (below 2^32) at `a`'s block.
#[verifier::opaque]
pub open spec fn put_tetra(m: Map<u64, u8>, a: u64, v: u64) -> Map<u64, u8> {
    let b = aligned(a, 4);
    put_wyde(put_wyde(m, b, v / 0x1_0000), (b + 2) as u64, v % 0x1_0000)
}

/// Memory after storing the octa `v` at `a`'s block.
#[verifier::opaque]
pub open spec fn put_octa(m: Map<u64, u8>, a: u64, v: u64) -> Map<u64, u8> {
    let b = aligned(a, 8);
    put_tetra(put_tetra(m, b, v / 0x1_0000_0000), (b + 4) as u64, v % 0x1_0000_0000)
}

// ---------------------------------------------------------------- registers

/// The general register `r`.
pub open spec fn gpr(s: MState, r: u8) -> u64 {
    s.regs[r as int]
}

/// The special register numbered `i`.
pub open spec fn sreg(s: MState, i: usize) -> u64 {
    s.sregs[i as int]
}

/// `regs` with every register in `lo..hi` zeroed.
pub open spec fn zero_span(regs: Seq<u64>, lo: int, hi: int) -> Seq<u64> {
    Seq::new(regs.len(), |i: int| if lo <= i && i < hi { 0u64 } else { regs[i] })
}

/// Make `r` a local register: when `rL <= r < rG`, rL rises to `r + 1` and
/// the registers from the old rL through `r` are zeroed. Otherwise nothing
/// changes.
pub open spec fn claim(s: MState, r: u8) -> MState {
    let rg = sreg(s, R_G);
    let rl = sreg(s, R_L);
    if r as u64 >= rg || (r as u64) < rl {
        s
    } else {
        MState {
            regs: zero_span(s.regs, rl as int, r as int + 1),
            sregs: s.sregs.update(R_L as int, (r + 1) as u64),
            ..s
        }
    }
}

/// Write `v` to `$r`, claiming it as a local first.
pub open spec fn set_reg(s: MState, r: u8, v: u64) -> MState {
    let c = claim(s, r);
    MState { regs: c.regs.update(r as int, v), ..c }
}

/// Write `v` to the special register numbered `i`, with no other effect.
pub open spec fn set_sreg(s: MState, i: usize, v: u64) -> MState {
    MState { sregs: s.sregs.update(i as int, v), ..s }
}

/// Replace the memory.
pub open spec fn with_mem(s: MState, m: Map<u64, u8>) -> MState {
    MState { mem: m, ..s }
}

/// Move the program counter.
pub open spec fn with_pc(s: MState, pc: u64) -> MState {
    MState { pc: pc, ..s }
}

/// Step past the current instruction.
pub open spec fn advance(s: MState) -> MState {
    with_pc(s, wrap(s.pc + 4))
}

/// Record an event.
pub open spec fn report(s: MState, e: Event) -> MState {
    MState { events: s.events.push(e), ..s }
}

/// Record a diagnostic.
pub open spec fn diagnose(s: MState, d: Diagnostic) -> MState {
    report(s, Event::Diagnostic(d))
}

/// A fresh machine: everything zero except rN = 2009, rG = 32 and
/// rO = rS = the stack base.
pub open spec fn initial_state() -> MState {
    MState {
        regs: Seq::new(256, |i: int| 0u64),
        sregs: Seq::new(
            32,
            |i: int|
                if i == R_N as int {
                    2009u64
                } else if i == R_G as int {
                    32u64
                } else if i == R_O as int || i == R_S as int {
                    STACK_SEGMENT_START
                } else {
                    0u64
                },
        ),
        mem: Map::empty(),
        loaded: Set::empty(),
        pc: 0,
        exit_code: 0,
        events: Seq::empty(),
    }
}

} // verus!
