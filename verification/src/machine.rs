//! The machine itself: its fields, its model (`MMix@`), and the primitive
//! reads and writes every instruction is built from.
use vstd::prelude::*;
use std::collections::{HashMap, HashSet};
use crate::special::{SpecialReg, reg_number, R_G, R_L, R_N, R_O, R_S, STACK_SEGMENT_START};
use crate::event::{Diagnostic, Event};
use crate::state::{
    MState, well_formed, initial_state, gpr, sreg, zero_span, claim, set_reg, set_sreg,
    with_mem, with_pc, advance, report, diagnose, byte_at, put_byte, wyde_at, tetra_at,
    octa_at, put_wyde, put_tetra, put_octa,
};

verus! {

broadcast use vstd::std_specs::hash::group_hash_axioms;

/// An MMIX computer: 256 general registers, 32 special registers, 2^64
/// bytes of sparse memory, a program counter and an exit code.
///
/// Instructions are tetrabytes `OP X Y Z`. Everything the machine has to
/// report (diagnostics, the halt, system calls for the runner to perform)
/// is appended to its event log.
pub struct MMix {
    general_regs: Vec<u64>,
    special_regs: Vec<u64>,
    /// Every nonzero byte of memory, by address.
    memory: HashMap<u64, u8>,
    /// Addresses the program image supplied.
    loaded: HashSet<u64>,
    pc: u64,
    exit_code: u64,
    events: Vec<Event>,
    /// The strings `debug` directives collected, `K`-indexed.
    debug_strings: Vec<Vec<u8>>,
}

impl Default for MMix {
    /// A fresh machine, as `MMix::new` makes it.
    fn default() -> (m: Self)
        ensures
            m.wf(),
            m@ == initial_state(),
            m.debug_table() == Seq::<Vec<u8>>::empty(),
    {
        MMix::new()
    }
}

impl View for MMix {
    type V = MState;

    closed spec fn view(&self) -> MState {
        MState {
            regs: self.general_regs@,
            sregs: self.special_regs@,
            mem: self.memory@,
            loaded: self.loaded@,
            pc: self.pc,
            exit_code: self.exit_code,
            events: self.events@,
        }
    }
}

impl MMix {
    /// The machine has its invariant shape.
    pub open spec fn wf(&self) -> bool {
        well_formed(self@)
    }

    /// The debug-string table installed by `set_debug_strings`.
    pub closed spec fn debug_table(&self) -> Seq<Vec<u8>> {
        self.debug_strings@
    }

    /// A new machine: registers, memory and the program counter zero, rN =
    /// 2009, rG = 32, rO = rS = the stack base, no events.
    pub fn new() -> (m: Self)
        ensures
            m.wf(),
            m@ == initial_state(),
            m.debug_table() == Seq::<Vec<u8>>::empty(),
    {
        let mut general_regs: Vec<u64> = Vec::new();
        let mut i: usize = 0;
        while i < 256
            invariant
                i <= 256,
                general_regs@ == Seq::new(i as nat, |k: int| 0u64),
            decreases 256 - i,
        {
            general_regs.push(0);
            i = i + 1;
        }
        let mut special_regs: Vec<u64> = Vec::new();
        let mut j: usize = 0;
        while j < 32
            invariant
                j <= 32,
                special_regs@ == Seq::new(j as nat, |k: int| initial_state().sregs[k]),
            decreases 32 - j,
        {
            let v: u64 = if j == R_N {
                2009
            } else if j == R_G {
                32
            } else if j == R_O || j == R_S {
                STACK_SEGMENT_START
            } else {
                0
            };
            special_regs.push(v);
            j = j + 1;
        }
        let m = MMix {
            general_regs,
            special_regs,
            memory: HashMap::new(),
            loaded: HashSet::new(),
            pc: 0,
            exit_code: 0,
            events: Vec::new(),
            debug_strings: Vec::new(),
        };
        proof {
            assert(m@.regs =~= initial_state().regs);
            assert(m@.sregs =~= initial_state().sregs);
            assert(m@ =~= initial_state());
        }
        m
    }

    /// Return the machine to its freshly constructed state: every register,
    /// all of memory, the program counter, the exit code, the event log and
    /// the debug-string table.
    pub fn reset(&mut self)
        ensures
            final(self).wf(),
            final(self)@ == initial_state(),
            final(self).debug_table() == Seq::<Vec<u8>>::empty(),
    {
        *self = MMix::new();
    }

    /// Install the string table that `TRAP 0,Debug,K` reads, `K`-indexed.
    pub fn set_debug_strings(&mut self, strings: Vec<Vec<u8>>)
        ensures
            final(self)@ == old(self)@,
            final(self).debug_table() == strings@,
    {
        self.debug_strings = strings;
    }

    /// The debug string numbered `k`, if the table has one.
    pub fn debug_string(&self, k: usize) -> (r: Option<&Vec<u8>>)
        ensures
            r == (if k < self.debug_table().len() {
                Some(&self.debug_table()[k as int])
            } else {
                None::<&Vec<u8>>
            }),
    {
        if k < self.debug_strings.len() {
            Some(&self.debug_strings[k])
        } else {
            None
        }
    }

    // ------------------------------------------------------------ registers

    /// The value of the general register `$reg`.
    pub fn get_register(&self, reg: u8) -> (r: u64)
        requires
            self.wf(),
        ensures
            r == gpr(self@, reg),
    {
        self.general_regs[reg as usize]
    }

    /// Raise rL to cover `reg` when it names a marginal register (rL <=
    /// reg < rG), zeroing every register from the old rL through `reg`. A
    /// no-op for a register already local or global. rL and rG are compared
    /// at full width, since either can hold any value.
    pub fn claim_local(&mut self, reg: u8)
        requires
            old(self).wf(),
        ensures
            final(self).wf(),
            final(self)@ == claim(old(self)@, reg),
    {
        let rg = self.special_regs[R_G];
        if (reg as u64) >= rg {
            return;
        }
        let rl = self.special_regs[R_L];
        if (reg as u64) < rl {
            return;
        }
        let ghost old_regs = self.general_regs@;
        let mut i: usize = rl as usize;
        while i <= reg as usize
            invariant
                rl <= i <= reg as usize + 1,
                self.general_regs@ == zero_span(old_regs, rl as int, i as int),
                old_regs.len() == 256,
                self.special_regs@ == old(self).special_regs@,
                self.memory@ == old(self).memory@,
                self.loaded@ == old(self).loaded@,
                self.pc == old(self).pc,
                self.exit_code == old(self).exit_code,
                self.events@ == old(self).events@,
                self.special_regs@.len() == 32,
            decreases reg as usize + 1 - i,
        {
            self.general_regs.set(i, 0);
            proof {
                assert(self.general_regs@ =~= zero_span(old_regs, rl as int, i + 1));
            }
            i = i + 1;
        }
        self.special_regs.set(R_L, reg as u64 + 1);
        proof {
            assert(self@ =~= claim(old(self)@, reg));
        }
    }

    /// Set the general register `$reg` to `value`. Writing a marginal
    /// register first claims it as a local, so no register between the old
    /// and the new rL keeps a stale value.
    pub fn set_register(&mut self, reg: u8, value: u64)
        requires
            old(self).wf(),
        ensures
            final(self).wf(),
            final(self)@ == set_reg(old(self)@, reg, value),
    {
        self.claim_local(reg);
        self.general_regs.set(reg as usize, value);
        proof {
            assert(self@ =~= set_reg(old(self)@, reg, value));
        }
    }

    /// The value of a special register.
    pub fn get_special(&self, reg: SpecialReg) -> (r: u64)
        requires
            self.wf(),
        ensures
            r == self@.sregs[reg_number(reg) as int],
    {
        self.special_regs[reg.number() as usize]
    }

    /// Set a special register, with no other effect and no checks: `PUT` is
    /// the instruction that validates.
    pub fn set_special(&mut self, reg: SpecialReg, value: u64)
        requires
            old(self).wf(),
        ensures
            final(self).wf(),
            final(self)@ == set_sreg(old(self)@, reg_number(reg) as usize, value),
    {
        let n = reg.number() as usize;
        self.special_regs.set(n, value);
        proof {
            assert(self@ =~= set_sreg(old(self)@, n, value));
        }
    }

    /// The special register numbered `i`.
    pub(crate) fn sreg_at(&self, i: usize) -> (r: u64)
        requires
            self.wf(),
            i < 32,
        ensures
            r == sreg(self@, i),
    {
        self.special_regs[i]
    }

    /// Set the special register numbered `i`.
    pub(crate) fn set_sreg_at(&mut self, i: usize, value: u64)
        requires
            old(self).wf(),
            i < 32,
        ensures
            final(self).wf(),
            final(self)@ == set_sreg(old(self)@, i, value),
    {
        self.special_regs.set(i, value);
        proof {
            assert(self@ =~= set_sreg(old(self)@, i, value));
        }
    }

    /// Zero the general registers in `lo..hi`.
    pub(crate) fn zero_registers(&mut self, lo: usize, hi: usize)
        requires
            old(self).wf(),
            lo <= hi <= 256,
        ensures
            final(self).wf(),
            final(self)@ == (MState { regs: zero_span(old(self)@.regs, lo as int, hi as int), ..old(self)@ }),
    {
        let ghost old_regs = self.general_regs@;
        let mut i = lo;
        while i < hi
            invariant
                lo <= i <= hi <= 256,
                self.general_regs@ == zero_span(old_regs, lo as int, i as int),
                old_regs.len() == 256,
                self.special_regs@ == old(self).special_regs@,
                self.memory@ == old(self).memory@,
                self.loaded@ == old(self).loaded@,
                self.pc == old(self).pc,
                self.exit_code == old(self).exit_code,
                self.events@ == old(self).events@,
            decreases hi - i,
        {
            self.general_regs.set(i, 0);
            proof {
                assert(self.general_regs@ =~= zero_span(old_regs, lo as int, i + 1));
            }
            i = i + 1;
        }
        proof {
            assert(self@ =~= MState { regs: zero_span(old(self)@.regs, lo as int, hi as int), ..old(self)@ });
        }
    }

    /// Overwrite `$i` with no claim: the register stack's own restores.
    pub(crate) fn put_register_raw(&mut self, i: usize, value: u64)
        requires
            old(self).wf(),
            i < 256,
        ensures
            final(self).wf(),
            final(self)@ == (MState { regs: old(self)@.regs.update(i as int, value), ..old(self)@ }),
    {
        self.general_regs.set(i, value);
        proof {
            assert(self@ =~= MState { regs: old(self)@.regs.update(i as int, value), ..old(self)@ });
        }
    }

    // ------------------------------------------------------------ control

    /// The program counter.
    pub fn get_pc(&self) -> (r: u64)
        ensures
            r == self@.pc,
    {
        self.pc
    }

    /// Set the program counter.
    pub fn set_pc(&mut self, pc: u64)
        requires
            old(self).wf(),
        ensures
            final(self).wf(),
            final(self)@ == with_pc(old(self)@, pc),
    {
        self.pc = pc;
        proof {
            assert(self@ =~= with_pc(old(self)@, pc));
        }
    }

    /// Advance the program counter by one tetrabyte, wrapping at 2^64.
    pub fn advance_pc(&mut self)
        requires
            old(self).wf(),
        ensures
            final(self).wf(),
            final(self)@ == advance(old(self)@),
    {
        self.pc = self.pc.wrapping_add(4);
        proof {
            assert(self@ =~= advance(old(self)@));
        }
    }

    /// The exit code `TRAP 0,Halt` (or a failed trip) set.
    pub fn get_exit_code(&self) -> (r: u64)
        ensures
            r == self@.exit_code,
    {
        self.exit_code
    }

    /// Set the exit code.
    pub(crate) fn set_exit_code(&mut self, code: u64)
        requires
            old(self).wf(),
        ensures
            final(self).wf(),
            final(self)@ == (MState { exit_code: code, ..old(self)@ }),
    {
        self.exit_code = code;
        proof {
            assert(self@ =~= MState { exit_code: code, ..old(self)@ });
        }
    }

    // ------------------------------------------------------------ events

    /// Append an event to the log.
    pub(crate) fn report(&mut self, e: Event)
        requires
            old(self).wf(),
        ensures
            final(self).wf(),
            final(self)@ == report(old(self)@, e),
    {
        self.events.push(e);
        proof {
            assert(self@ =~= report(old(self)@, e));
        }
    }

    /// Append a diagnostic to the log.
    pub(crate) fn diagnose(&mut self, d: Diagnostic)
        requires
            old(self).wf(),
        ensures
            final(self).wf(),
            final(self)@ == diagnose(old(self)@, d),
    {
        self.report(Event::Diagnostic(d));
    }

    /// Everything the machine has reported, oldest first.
    pub fn events(&self) -> (r: &Vec<Event>)
        ensures
            r@ == self@.events,
    {
        &self.events
    }

    /// Hand over the event log and start a new, empty one.
    pub fn take_events(&mut self) -> (r: Vec<Event>)
        requires
            old(self).wf(),
        ensures
            final(self).wf(),
            r@ == old(self)@.events,
            final(self)@ == (MState { events: Seq::empty(), ..old(self)@ }),
    {
        let mut r: Vec<Event> = Vec::new();
        std::mem::swap(&mut r, &mut self.events);
        proof {
            assert(self@ =~= MState { events: Seq::empty(), ..old(self)@ });
        }
        r
    }

    /// The diagnostics in the event log, oldest first.
    pub fn diagnostics(&self) -> (r: Vec<Diagnostic>)
        ensures
            r@ == diagnostics_of(self@.events),
    {
        let mut r: Vec<Diagnostic> = Vec::new();
        let mut i: usize = 0;
        while i < self.events.len()
            invariant
                i <= self.events@.len(),
                r@ == diagnostics_of(self.events@.take(i as int)),
            decreases self.events@.len() - i,
        {
            proof {
                assert(self.events@.take(i + 1).drop_last() =~= self.events@.take(i as int));
            }
            match self.events[i] {
                Event::Diagnostic(d) => r.push(d),
                _ => {},
            }
            i = i + 1;
        }
        proof {
            assert(self.events@.take(self.events@.len() as int) =~= self.events@);
        }
        r
    }

    // ------------------------------------------------------------ memory

    /// The byte at `addr`; memory never written reads zero.
    pub fn read_byte(&self, addr: u64) -> (r: u8)
        ensures
            r == byte_at(self@.mem, addr),
    {
        match self.memory.get(&addr) {
            Some(b) => *b,
            None => 0,
        }
    }

    /// Write `value` at `addr`. A zero byte is removed rather than stored,
    /// so memory holds only what reads nonzero.
    pub fn write_byte(&mut self, addr: u64, value: u8)
        requires
            old(self).wf(),
        ensures
            final(self).wf(),
            final(self)@ == with_mem(old(self)@, put_byte(old(self)@.mem, addr, value)),
    {
        if value == 0 {
            self.memory.remove(&addr);
        } else {
            self.memory.insert(addr, value);
        }
        proof {
            assert(self@ =~= with_mem(old(self)@, put_byte(old(self)@.mem, addr, value)));
        }
    }

    /// Write `value` at `addr` and record the address as part of the
    /// program image, as a loader does.
    pub fn write_loaded_byte(&mut self, addr: u64, value: u8)
        requires
            old(self).wf(),
        ensures
            final(self).wf(),
            final(self)@ == (MState {
                mem: put_byte(old(self)@.mem, addr, value),
                loaded: old(self)@.loaded.insert(addr),
                ..old(self)@
            }),
    {
        self.write_byte(addr, value);
        self.loaded.insert(addr);
        proof {
            assert(self@ =~= MState {
                mem: put_byte(old(self)@.mem, addr, value),
                loaded: old(self)@.loaded.insert(addr),
                ..old(self)@
            });
        }
    }

    /// Whether the program image supplied the byte at `addr`.
    pub fn is_loaded(&self, addr: u64) -> (r: bool)
        ensures
            r == self@.loaded.contains(addr),
    {
        self.loaded.contains(&addr)
    }

    /// How many bytes of memory hold a nonzero value.
    pub fn memory_used(&self) -> (r: usize)
        ensures
            r == self@.mem.dom().len(),
    {
        self.memory.len()
    }

    /// The big-endian wyde at the wyde-aligned block containing `addr`.
    pub fn read_wyde(&self, addr: u64) -> (r: u16)
        ensures
            r as u64 == wyde_at(self@.mem, addr),
    {
        reveal(wyde_at);
        let b = addr - addr % 2;
        let hi = self.read_byte(b);
        let lo = self.read_byte(b + 1);
        (hi as u16) * 0x100 + (lo as u16)
    }

    /// The big-endian tetra at the tetra-aligned block containing `addr`.
    pub fn read_tetra(&self, addr: u64) -> (r: u32)
        ensures
            r as u64 == tetra_at(self@.mem, addr),
    {
        reveal(tetra_at);
        let b = addr - addr % 4;
        let hi = self.read_wyde(b);
        let lo = self.read_wyde(b + 2);
        (hi as u32) * 0x1_0000 + (lo as u32)
    }

    /// The big-endian octa at the octa-aligned block containing `addr`.
    pub fn read_octa(&self, addr: u64) -> (r: u64)
        ensures
            r == octa_at(self@.mem, addr),
    {
        reveal(octa_at);
        let b = addr - addr % 8;
        let hi = self.read_tetra(b);
        let lo = self.read_tetra(b + 4);
        (hi as u64) * 0x1_0000_0000 + (lo as u64)
    }

    /// Store the wyde `value` big-endian at `addr`'s wyde-aligned block.
    pub fn write_wyde(&mut self, addr: u64, value: u16)
        requires
            old(self).wf(),
        ensures
            final(self).wf(),
            final(self)@ == with_mem(old(self)@, put_wyde(old(self)@.mem, addr, value as u64)),
    {
        reveal(put_wyde);
        let b = addr - addr % 2;
        self.write_byte(b, (value / 0x100) as u8);
        self.write_byte(b + 1, (value % 0x100) as u8);
        proof {
            assert(self@ =~= with_mem(old(self)@, put_wyde(old(self)@.mem, addr, value as u64)));
        }
    }

    /// Store the tetra `value` big-endian at `addr`'s tetra-aligned block.
    pub fn write_tetra(&mut self, addr: u64, value: u32)
        requires
            old(self).wf(),
        ensures
            final(self).wf(),
            final(self)@ == with_mem(old(self)@, put_tetra(old(self)@.mem, addr, value as u64)),
    {
        reveal(put_tetra);
        let b = addr - addr % 4;
        self.write_wyde(b, (value / 0x1_0000) as u16);
        self.write_wyde(b + 2, (value % 0x1_0000) as u16);
        proof {
            assert(self@ =~= with_mem(old(self)@, put_tetra(old(self)@.mem, addr, value as u64)));
        }
    }

    /// Store the octa `value` big-endian at `addr`'s octa-aligned block.
    pub fn write_octa(&mut self, addr: u64, value: u64)
        requires
            old(self).wf(),
        ensures
            final(self).wf(),
            final(self)@ == with_mem(old(self)@, put_octa(old(self)@.mem, addr, value)),
    {
        reveal(put_octa);
        let b = addr - addr % 8;
        self.write_tetra(b, (value / 0x1_0000_0000) as u32);
        self.write_tetra(b + 4, (value % 0x1_0000_0000) as u32);
        proof {
            assert(self@ =~= with_mem(old(self)@, put_octa(old(self)@.mem, addr, value)));
        }
    }

    /// The instruction at the program counter, split into `OP X Y Z`.
    pub fn fetch_instruction(&self) -> (r: (u8, u8, u8, u8))
        ensures
            r == instruction_at(self@),
    {
        let w = self.read_tetra(self.pc);
        let op = (w / 0x100_0000) as u8;
        let x = ((w / 0x1_0000) % 0x100) as u8;
        let y = ((w / 0x100) % 0x100) as u8;
        let z = (w % 0x100) as u8;
        (op, x, y, z)
    }
}

/// The diagnostics among `events`, in order.
pub open spec fn diagnostics_of(events: Seq<Event>) -> Seq<Diagnostic>
    decreases events.len(),
{
    if events.len() == 0 {
        Seq::empty()
    } else {
        let rest = diagnostics_of(events.drop_last());
        match events.last() {
            Event::Diagnostic(d) => rest.push(d),
            _ => rest,
        }
    }
}

/// The fields `OP X Y Z` of the tetra at the program counter.
pub open spec fn instruction_at(s: MState) -> (u8, u8, u8, u8) {
    let w = tetra_at(s.mem, s.pc);
    (
        (w / 0x100_0000) as u8,
        ((w / 0x1_0000) % 0x100) as u8,
        ((w / 0x100) % 0x100) as u8,
        (w % 0x100) as u8,
    )
}

} // verus!
