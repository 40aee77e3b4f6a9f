//! What the machine reports to whoever runs it: diagnostics, the halt, and
//! the TRAP system calls that reach beyond the machine.
use vstd::prelude::*;
use crate::special::SpecialReg;

verus! {

/// The TRAP system calls MMIX programs make with `TRAP 0,Y,Z`.
#[derive(Clone, Copy, Debug, PartialEq, Eq, Structural)]
pub enum TrapCode {
    Halt,
    Fopen,
    Fclose,
    Fread,
    Fgets,
    Fgetws,
    Fwrite,
    Fputs,
    Fputws,
    Fseek,
    Ftell,
    Fputc,
    Time,
    Debug,
}

/// The code each trap byte names, if any.
pub open spec fn trap_of_byte(y: u8) -> Option<TrapCode> {
    if y == 0 { Some(TrapCode::Halt) }
    else if y == 1 { Some(TrapCode::Fopen) }
    else if y == 2 { Some(TrapCode::Fclose) }
    else if y == 3 { Some(TrapCode::Fread) }
    else if y == 4 { Some(TrapCode::Fgets) }
    else if y == 5 { Some(TrapCode::Fgetws) }
    else if y == 6 { Some(TrapCode::Fwrite) }
    else if y == 7 { Some(TrapCode::Fputs) }
    else if y == 8 { Some(TrapCode::Fputws) }
    else if y == 9 { Some(TrapCode::Fseek) }
    else if y == 10 { Some(TrapCode::Ftell) }
    else if y == 0x80 { Some(TrapCode::Fputc) }
    else if y == 0x81 { Some(TrapCode::Time) }
    else if y == 0x82 { Some(TrapCode::Debug) }
    else { None }
}

impl TrapCode {
    /// The trap a `TRAP 0,Y,Z` instruction's `Y` names, if any.
    pub fn from_u8(y: u8) -> (r: Option<TrapCode>)
        ensures
            r == trap_of_byte(y),
    {
        match y {
            0 => Some(TrapCode::Halt),
            1 => Some(TrapCode::Fopen),
            2 => Some(TrapCode::Fclose),
            3 => Some(TrapCode::Fread),
            4 => Some(TrapCode::Fgets),
            5 => Some(TrapCode::Fgetws),
            6 => Some(TrapCode::Fwrite),
            7 => Some(TrapCode::Fputs),
            8 => Some(TrapCode::Fputws),
            9 => Some(TrapCode::Fseek),
            10 => Some(TrapCode::Ftell),
            0x80 => Some(TrapCode::Fputc),
            0x81 => Some(TrapCode::Time),
            0x82 => Some(TrapCode::Debug),
            _ => None,
        }
    }
}

/// Why the machine refused or stopped, with the values that explain it.
/// Every variant that comes from an instruction carries its PC.
#[derive(Clone, Copy, Debug, PartialEq, Eq, Structural)]
pub enum Diagnostic {
    /// `TRAP 0,Y,Z` with a `Y` that names no system call.
    UnhandledTrap { code: u8, pc: u64 },
    /// `TRAP X,Y,Z` with `X != 0`: rBB took `value`, and the machine halts.
    RegisterTrap { x: u8, y: u8, z: u8, value: u64, pc: u64 },
    /// `HALT`: the program's own exit.
    Halt { exit_code: u64, pc: u64 },
    /// `PUT` to a number above 31.
    PutNoSuchRegister { x: u8, pc: u64 },
    /// `PUT` to a register only the operating system may set.
    PutPrivileged { reg: SpecialReg, pc: u64 },
    /// `PUT` to rN, rO or rS, which nothing may set.
    PutReadOnly { reg: SpecialReg, pc: u64 },
    /// `PUT rA` with bits beyond `RA_MAX`.
    PutRaTooLarge { value: u64, pc: u64 },
    /// `PUT rG` outside `32..=255` or below rL.
    PutRgOutOfRange { value: u64, rl: u64, pc: u64 },
    /// `SAVE $X` with `$X` below rG.
    SaveLocalDestination { x: u8, rg: u64, pc: u64 },
    /// `UNSAVE` found a packed rG outside `32..=255`.
    UnsaveBadRg { rg: u64, pc: u64 },
    /// `UNSAVE` found a packed rA above `RA_MAX`.
    UnsaveBadRa { ra: u64, pc: u64 },
    /// `UNSAVE` found a saved local count above the packed rG.
    UnsaveBadLocalCount { locals: u64, rg: u64, pc: u64 },
    /// `POP` with an rO that is misaligned or above the stack segment.
    PopBadRo { ro: u64, pc: u64 },
    /// `RESUME 1`, the privileged form.
    ResumePrivileged { z: u8, pc: u64 },
    /// `RESUME` with an rX ropcode other than 0.
    ResumeRopcode { ropcode: u64, pc: u64 },
    /// `RESUME` whose rX instruction is itself a `RESUME`.
    ResumeNested { pc: u64 },
    /// A trip to a handler vector nothing loaded. `cause` is the tripped rA
    /// event bit, or 0 for `TRIP`.
    UnloadedVector { cause: u64, vector: u64, pc: u64 },
    /// A floating-point instruction reached the integer machine.
    FloatUnavailable { op: u8, pc: u64 },
    /// A run stopped at a halt after `count` instructions.
    Stopped { count: usize, pc: u64 },
    /// A bounded run used its whole budget.
    Paused { count: usize, pc: u64 },
}

/// One report from the machine, in the order it happened.
#[derive(Clone, Copy, Debug, PartialEq, Eq, Structural)]
pub enum Event {
    /// A diagnostic for the operator.
    Diagnostic(Diagnostic),
    /// `TRAP 0,Halt,Z` ran: output should be flushed, and the exit code is
    /// `$255`.
    Halted { arg: u8, exit_code: u64 },
    /// A system call the runner performs: it reads the arguments from the
    /// machine (`$255`, memory) and writes the result to `$255`.
    HostCall { code: TrapCode, arg: u8, arg255: u64 },
}

} // verus!
