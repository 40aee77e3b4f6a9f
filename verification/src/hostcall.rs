//! What the system calls a runner performs read from the machine and
//! hand back: zero-terminated byte and wyde strings, byte blocks, the
//! clock in the unit a program asks for, and the "no such handle" result.
use vstd::prelude::*;
use crate::word::wrap;
use crate::state::{byte_at, wyde_at};
use crate::machine::MMix;
use crate::event::TrapCode;
use crate::state::set_reg;

verus! {

/// The bytes from `a` up to (not including) the first zero byte, at most
/// `max` of them (addresses wrap).
pub open spec fn cstring(m: Map<u64, u8>, a: u64, max: nat) -> Seq<u8>
    decreases max,
{
    if max == 0 || byte_at(m, a) == 0 {
        Seq::empty()
    } else {
        seq![byte_at(m, a)] + cstring(m, wrap(a + 1), (max - 1) as nat)
    }
}

/// The wydes from `a`'s wyde block on up to the first zero wyde, at most
/// `max` of them (addresses wrap).
pub open spec fn wstring(m: Map<u64, u8>, a: u64, max: nat) -> Seq<u16>
    decreases max,
{
    if max == 0 || wyde_at(m, a) == 0 {
        Seq::empty()
    } else {
        seq![wyde_at(m, a) as u16] + wstring(m, wrap(a + 2), (max - 1) as nat)
    }
}

/// The `n` bytes from `a` on (addresses wrap).
pub open spec fn block(m: Map<u64, u8>, a: u64, n: nat) -> Seq<u8> {
    Seq::new(n, |i: int| byte_at(m, wrap(a + i)))
}

/// The clock reading `TRAP 0,Time,unit` returns: seconds for unit 0,
/// milliseconds for unit 1, microseconds for unit 2, and -1 for any other.
pub open spec fn time_reading(micros: u64, unit: u8) -> u64 {
    if unit == 0 {
        micros / 1_000_000
    } else if unit == 1 {
        micros / 1000
    } else if unit == 2 {
        micros
    } else {
        u64::MAX
    }
}

/// The clock in the unit `TRAP 0,Time,unit` asks for.
pub fn time_reading_of(micros: u64, unit: u8) -> (r: u64)
    ensures
        r == time_reading(micros, unit),
{
    if unit == 0 {
        micros / 1_000_000
    } else if unit == 1 {
        micros / 1000
    } else if unit == 2 {
        micros
    } else {
        u64::MAX
    }
}

/// The octa a failed system call leaves in `$255`: -1.
pub const CALL_FAILED: u64 = 0xFFFF_FFFF_FFFF_FFFF;

/// How a runner's attempt at a system call went.
#[derive(Clone, Copy, Debug, PartialEq, Eq, Structural)]
pub enum CallOutcome {
    /// The call moved this many units: bytes, or wydes for `Fputws`.
    Done(u64),
    /// The clock read this many microseconds.
    Clock(u64),
    /// The call could not be carried out (no such handle, a failed write).
    Failed,
    /// The call reports nothing back to the program.
    Silent,
}

/// What `$255` holds after system call `code` with argument `arg` went as
/// `outcome`, or `None` if `$255` keeps its value: a put of a string gives
/// the count written, `Fputc` and `Fwrite` give 0, `Time` the clock in the
/// requested unit, and a failure -1.
pub open spec fn call_result(code: TrapCode, arg: u8, outcome: CallOutcome) -> Option<u64> {
    match outcome {
        CallOutcome::Failed => Some(CALL_FAILED),
        CallOutcome::Silent => None,
        CallOutcome::Clock(micros) => Some(time_reading(micros, arg)),
        CallOutcome::Done(n) => match code {
            TrapCode::Fputc | TrapCode::Fwrite => Some(0),
            _ => Some(n),
        },
    }
}

impl MMix {
    /// Hand a system call's outcome back to the program (see `call_result`).
    pub fn finish_host_call(&mut self, code: TrapCode, arg: u8, outcome: CallOutcome)
        requires
            old(self).wf(),
        ensures
            final(self).wf(),
            final(self)@ == match call_result(code, arg, outcome) {
                Some(v) => set_reg(old(self)@, 255, v),
                None => old(self)@,
            },
    {
        match outcome {
            CallOutcome::Failed => self.set_register(255, CALL_FAILED),
            CallOutcome::Silent => {},
            CallOutcome::Clock(micros) => self.set_register(255, time_reading_of(micros, arg)),
            CallOutcome::Done(n) => match code {
                TrapCode::Fputc | TrapCode::Fwrite => self.set_register(255, 0),
                _ => self.set_register(255, n),
            },
        }
    }

    /// The zero-terminated string at `addr`, without its terminator, at
    /// most `max` bytes long.
    pub fn read_cstring(&self, addr: u64, max: usize) -> (r: Vec<u8>)
        ensures
            r@ == cstring(self@.mem, addr, max as nat),
    {
        let ghost m = self@.mem;
        let mut out: Vec<u8> = Vec::new();
        let mut a = addr;
        let mut left = max;
        loop
            invariant
                m == self@.mem,
                out@ + cstring(m, a, left as nat) == cstring(m, addr, max as nat),
            ensures
                out@ == cstring(m, addr, max as nat),
            decreases left,
        {
            if left == 0 {
                proof {
                    assert(out@ + cstring(m, a, 0) =~= out@);
                }
                break;
            }
            let b = self.read_byte(a);
            if b == 0 {
                proof {
                    assert(out@ + cstring(m, a, left as nat) =~= out@);
                }
                break;
            }
            proof {
                assert(out@.push(b) + cstring(m, wrap(a + 1), (left - 1) as nat) =~= out@ + cstring(
                    m,
                    a,
                    left as nat,
                ));
            }
            out.push(b);
            a = a.wrapping_add(1);
            left = left - 1;
        }
        out
    }

    /// The wydes from `addr`'s wyde block up to the first zero wyde, at
    /// most `max` of them.
    pub fn read_wstring(&self, addr: u64, max: usize) -> (r: Vec<u16>)
        ensures
            r@ == wstring(self@.mem, addr, max as nat),
    {
        let ghost m = self@.mem;
        let mut out: Vec<u16> = Vec::new();
        let mut a = addr;
        let mut left = max;
        loop
            invariant
                m == self@.mem,
                out@ + wstring(m, a, left as nat) == wstring(m, addr, max as nat),
            ensures
                out@ == wstring(m, addr, max as nat),
            decreases left,
        {
            if left == 0 {
                proof {
                    assert(out@ + wstring(m, a, 0) =~= out@);
                }
                break;
            }
            let w = self.read_wyde(a);
            if w == 0 {
                proof {
                    assert(out@ + wstring(m, a, left as nat) =~= out@);
                }
                break;
            }
            proof {
                assert(out@.push(w) + wstring(m, wrap(a + 2), (left - 1) as nat) =~= out@ + wstring(
                    m,
                    a,
                    left as nat,
                ));
            }
            out.push(w);
            a = a.wrapping_add(2);
            left = left - 1;
        }
        out
    }

    /// The `len` bytes from `addr` on.
    pub fn read_block(&self, addr: u64, len: usize) -> (r: Vec<u8>)
        ensures
            r@ == block(self@.mem, addr, len as nat),
    {
        let mut out: Vec<u8> = Vec::new();
        let mut i: usize = 0;
        while i < len
            invariant
                i <= len,
                out@ == block(self@.mem, addr, i as nat),
            decreases len - i,
        {
            let b = self.read_byte(addr.wrapping_add(i as u64));
            proof {
                assert(addr.wrapping_add(i as u64) == wrap(addr + i));
            }
            out.push(b);
            proof {
                assert(out@ =~= block(self@.mem, addr, (i + 1) as nat));
            }
            i = i + 1;
        }
        out
    }
}

} // verus!
