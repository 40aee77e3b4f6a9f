//! The 32 special registers, their numbering, and the fields of `rA`.
use vstd::prelude::*;

verus! {

/// A special register, numbered as MMIX numbers them for `GET` and `PUT`.
#[derive(Clone, Copy, Debug, PartialEq, Eq, Structural)]
pub enum SpecialReg {
    RB,
    RD,
    RE,
    RH,
    RJ,
    RM,
    RR,
    RBB,
    RC,
    RN,
    RO,
    RS,
    RI,
    RT,
    RTT,
    RK,
    RQ,
    RU,
    RV,
    RG,
    RL,
    RA,
    RF,
    RP,
    RW,
    RX,
    RY,
    RZ,
    RWW,
    RXX,
    RYY,
    RZZ,
}

pub const R_B: usize = 0;
pub const R_D: usize = 1;
pub const R_E: usize = 2;
pub const R_H: usize = 3;
pub const R_J: usize = 4;
pub const R_M: usize = 5;
pub const R_R: usize = 6;
pub const R_BB: usize = 7;
pub const R_C: usize = 8;
pub const R_N: usize = 9;
pub const R_O: usize = 10;
pub const R_S: usize = 11;
pub const R_I: usize = 12;
pub const R_T: usize = 13;
pub const R_TT: usize = 14;
pub const R_K: usize = 15;
pub const R_Q: usize = 16;
pub const R_U: usize = 17;
pub const R_V: usize = 18;
pub const R_G: usize = 19;
pub const R_L: usize = 20;
pub const R_A: usize = 21;
pub const R_F: usize = 22;
pub const R_P: usize = 23;
pub const R_W: usize = 24;
pub const R_X: usize = 25;
pub const R_Y: usize = 26;
pub const R_Z: usize = 27;
pub const R_WW: usize = 28;
pub const R_XX: usize = 29;
pub const R_YY: usize = 30;
pub const R_ZZ: usize = 31;

/// rA event bit: integer divide check.
pub const RA_D: u64 = 0x80;
/// rA event bit: integer overflow.
pub const RA_V: u64 = 0x40;
/// rA event bit: float-to-fix overflow.
pub const RA_W: u64 = 0x20;
/// rA event bit: invalid floating operation.
pub const RA_I: u64 = 0x10;
/// rA event bit: floating overflow.
pub const RA_O: u64 = 0x08;
/// rA event bit: floating underflow.
pub const RA_U: u64 = 0x04;
/// rA event bit: floating division by zero.
pub const RA_Z: u64 = 0x02;
/// rA event bit: floating inexact.
pub const RA_X: u64 = 0x01;
/// Where rA's two-bit rounding mode sits.
pub const RA_ROUND_SHIFT: u64 = 16;
/// The largest value rA can hold: rounding mode, enables and events.
pub const RA_MAX: u64 = 0x3FFFF;

/// The base of the register stack: segment 6, by MMIX convention.
pub const STACK_SEGMENT_START: u64 = 0x6000_0000_0000_0000;
/// The first address past the register-stack segment.
pub const STACK_SEGMENT_END: u64 = 0x8000_0000_0000_0000;

/// How many special registers `SAVE` stores besides the packed rG/rA octa.
pub const SAVE_SPECIAL_COUNT: u64 = 12;

/// The register number of each special register.
pub open spec fn reg_number(r: SpecialReg) -> nat {
    match r {
        SpecialReg::RB => 0,
        SpecialReg::RD => 1,
        SpecialReg::RE => 2,
        SpecialReg::RH => 3,
        SpecialReg::RJ => 4,
        SpecialReg::RM => 5,
        SpecialReg::RR => 6,
        SpecialReg::RBB => 7,
        SpecialReg::RC => 8,
        SpecialReg::RN => 9,
        SpecialReg::RO => 10,
        SpecialReg::RS => 11,
        SpecialReg::RI => 12,
        SpecialReg::RT => 13,
        SpecialReg::RTT => 14,
        SpecialReg::RK => 15,
        SpecialReg::RQ => 16,
        SpecialReg::RU => 17,
        SpecialReg::RV => 18,
        SpecialReg::RG => 19,
        SpecialReg::RL => 20,
        SpecialReg::RA => 21,
        SpecialReg::RF => 22,
        SpecialReg::RP => 23,
        SpecialReg::RW => 24,
        SpecialReg::RX => 25,
        SpecialReg::RY => 26,
        SpecialReg::RZ => 27,
        SpecialReg::RWW => 28,
        SpecialReg::RXX => 29,
        SpecialReg::RYY => 30,
        SpecialReg::RZZ => 31,
    }
}

/// The register each number names, if any.
pub open spec fn reg_of_number(n: nat) -> Option<SpecialReg> {
    if n == 0 { Some(SpecialReg::RB) }
    else if n == 1 { Some(SpecialReg::RD) }
    else if n == 2 { Some(SpecialReg::RE) }
    else if n == 3 { Some(SpecialReg::RH) }
    else if n == 4 { Some(SpecialReg::RJ) }
    else if n == 5 { Some(SpecialReg::RM) }
    else if n == 6 { Some(SpecialReg::RR) }
    else if n == 7 { Some(SpecialReg::RBB) }
    else if n == 8 { Some(SpecialReg::RC) }
    else if n == 9 { Some(SpecialReg::RN) }
    else if n == 10 { Some(SpecialReg::RO) }
    else if n == 11 { Some(SpecialReg::RS) }
    else if n == 12 { Some(SpecialReg::RI) }
    else if n == 13 { Some(SpecialReg::RT) }
    else if n == 14 { Some(SpecialReg::RTT) }
    else if n == 15 { Some(SpecialReg::RK) }
    else if n == 16 { Some(SpecialReg::RQ) }
    else if n == 17 { Some(SpecialReg::RU) }
    else if n == 18 { Some(SpecialReg::RV) }
    else if n == 19 { Some(SpecialReg::RG) }
    else if n == 20 { Some(SpecialReg::RL) }
    else if n == 21 { Some(SpecialReg::RA) }
    else if n == 22 { Some(SpecialReg::RF) }
    else if n == 23 { Some(SpecialReg::RP) }
    else if n == 24 { Some(SpecialReg::RW) }
    else if n == 25 { Some(SpecialReg::RX) }
    else if n == 26 { Some(SpecialReg::RY) }
    else if n == 27 { Some(SpecialReg::RZ) }
    else if n == 28 { Some(SpecialReg::RWW) }
    else if n == 29 { Some(SpecialReg::RXX) }
    else if n == 30 { Some(SpecialReg::RYY) }
    else if n == 31 { Some(SpecialReg::RZZ) }
    else { None }
}

/// The name MMIX documentation gives each register.
pub open spec fn reg_name(r: SpecialReg) -> Seq<char> {
    match r {
        SpecialReg::RB => seq!['r', 'B'],
        SpecialReg::RD => seq!['r', 'D'],
        SpecialReg::RE => seq!['r', 'E'],
        SpecialReg::RH => seq!['r', 'H'],
        SpecialReg::RJ => seq!['r', 'J'],
        SpecialReg::RM => seq!['r', 'M'],
        SpecialReg::RR => seq!['r', 'R'],
        SpecialReg::RBB => seq!['r', 'B', 'B'],
        SpecialReg::RC => seq!['r', 'C'],
        SpecialReg::RN => seq!['r', 'N'],
        SpecialReg::RO => seq!['r', 'O'],
        SpecialReg::RS => seq!['r', 'S'],
        SpecialReg::RI => seq!['r', 'I'],
        SpecialReg::RT => seq!['r', 'T'],
        SpecialReg::RTT => seq!['r', 'T', 'T'],
        SpecialReg::RK => seq!['r', 'K'],
        SpecialReg::RQ => seq!['r', 'Q'],
        SpecialReg::RU => seq!['r', 'U'],
        SpecialReg::RV => seq!['r', 'V'],
        SpecialReg::RG => seq!['r', 'G'],
        SpecialReg::RL => seq!['r', 'L'],
        SpecialReg::RA => seq!['r', 'A'],
        SpecialReg::RF => seq!['r', 'F'],
        SpecialReg::RP => seq!['r', 'P'],
        SpecialReg::RW => seq!['r', 'W'],
        SpecialReg::RX => seq!['r', 'X'],
        SpecialReg::RY => seq!['r', 'Y'],
        SpecialReg::RZ => seq!['r', 'Z'],
        SpecialReg::RWW => seq!['r', 'W', 'W'],
        SpecialReg::RXX => seq!['r', 'X', 'X'],
        SpecialReg::RYY => seq!['r', 'Y', 'Y'],
        SpecialReg::RZZ => seq!['r', 'Z', 'Z'],
    }
}

/// The special register `SAVE` stores `i`-th, for `i < 12`: rB, rD, rE,
/// rH, rJ, rM, rR, rP, rW, rX, rY, rZ.
pub open spec fn save_slot(i: nat) -> nat {
    if i == 0 { R_B as nat }
    else if i == 1 { R_D as nat }
    else if i == 2 { R_E as nat }
    else if i == 3 { R_H as nat }
    else if i == 4 { R_J as nat }
    else if i == 5 { R_M as nat }
    else if i == 6 { R_R as nat }
    else if i == 7 { R_P as nat }
    else if i == 8 { R_W as nat }
    else if i == 9 { R_X as nat }
    else if i == 10 { R_Y as nat }
    else { R_Z as nat }
}

impl SpecialReg {
    /// This register's number.
    pub fn number(self) -> (r: u8)
        ensures
            r as nat == reg_number(self),
    {
        match self {
            SpecialReg::RB => 0,
            SpecialReg::RD => 1,
            SpecialReg::RE => 2,
            SpecialReg::RH => 3,
            SpecialReg::RJ => 4,
            SpecialReg::RM => 5,
            SpecialReg::RR => 6,
            SpecialReg::RBB => 7,
            SpecialReg::RC => 8,
            SpecialReg::RN => 9,
            SpecialReg::RO => 10,
            SpecialReg::RS => 11,
            SpecialReg::RI => 12,
            SpecialReg::RT => 13,
            SpecialReg::RTT => 14,
            SpecialReg::RK => 15,
            SpecialReg::RQ => 16,
            SpecialReg::RU => 17,
            SpecialReg::RV => 18,
            SpecialReg::RG => 19,
            SpecialReg::RL => 20,
            SpecialReg::RA => 21,
            SpecialReg::RF => 22,
            SpecialReg::RP => 23,
            SpecialReg::RW => 24,
            SpecialReg::RX => 25,
            SpecialReg::RY => 26,
            SpecialReg::RZ => 27,
            SpecialReg::RWW => 28,
            SpecialReg::RXX => 29,
            SpecialReg::RYY => 30,
            SpecialReg::RZZ => 31,
        }
    }

    /// The register numbered `n`, or `None` above 31.
    pub fn from_u8(n: u8) -> (r: Option<SpecialReg>)
        ensures
            r == reg_of_number(n as nat),
            r.is_some() <==> n < 32,
            r.is_some() ==> reg_number(r.unwrap()) == n,
    {
        match n {
            0 => Some(SpecialReg::RB),
            1 => Some(SpecialReg::RD),
            2 => Some(SpecialReg::RE),
            3 => Some(SpecialReg::RH),
            4 => Some(SpecialReg::RJ),
            5 => Some(SpecialReg::RM),
            6 => Some(SpecialReg::RR),
            7 => Some(SpecialReg::RBB),
            8 => Some(SpecialReg::RC),
            9 => Some(SpecialReg::RN),
            10 => Some(SpecialReg::RO),
            11 => Some(SpecialReg::RS),
            12 => Some(SpecialReg::RI),
            13 => Some(SpecialReg::RT),
            14 => Some(SpecialReg::RTT),
            15 => Some(SpecialReg::RK),
            16 => Some(SpecialReg::RQ),
            17 => Some(SpecialReg::RU),
            18 => Some(SpecialReg::RV),
            19 => Some(SpecialReg::RG),
            20 => Some(SpecialReg::RL),
            21 => Some(SpecialReg::RA),
            22 => Some(SpecialReg::RF),
            23 => Some(SpecialReg::RP),
            24 => Some(SpecialReg::RW),
            25 => Some(SpecialReg::RX),
            26 => Some(SpecialReg::RY),
            27 => Some(SpecialReg::RZ),
            28 => Some(SpecialReg::RWW),
            29 => Some(SpecialReg::RXX),
            30 => Some(SpecialReg::RYY),
            31 => Some(SpecialReg::RZZ),
            _ => None,
        }
    }

    /// The register's documented name, such as `rA` or `rBB`.
    pub fn name(self) -> (r: &'static str)
        ensures
            r@ == reg_name(self),
    {
        match self {
            SpecialReg::RB => {
                proof { reveal_strlit("rB"); }
                "rB"
            },
            SpecialReg::RD => {
                proof { reveal_strlit("rD"); }
                "rD"
            },
            SpecialReg::RE => {
                proof { reveal_strlit("rE"); }
                "rE"
            },
            SpecialReg::RH => {
                proof { reveal_strlit("rH"); }
                "rH"
            },
            SpecialReg::RJ => {
                proof { reveal_strlit("rJ"); }
                "rJ"
            },
            SpecialReg::RM => {
                proof { reveal_strlit("rM"); }
                "rM"
            },
            SpecialReg::RR => {
                proof { reveal_strlit("rR"); }
                "rR"
            },
            SpecialReg::RBB => {
                proof { reveal_strlit("rBB"); }
                "rBB"
            },
            SpecialReg::RC => {
                proof { reveal_strlit("rC"); }
                "rC"
            },
            SpecialReg::RN => {
                proof { reveal_strlit("rN"); }
                "rN"
            },
            SpecialReg::RO => {
                proof { reveal_strlit("rO"); }
                "rO"
            },
            SpecialReg::RS => {
                proof { reveal_strlit("rS"); }
                "rS"
            },
            SpecialReg::RI => {
                proof { reveal_strlit("rI"); }
                "rI"
            },
            SpecialReg::RT => {
                proof { reveal_strlit("rT"); }
                "rT"
            },
            SpecialReg::RTT => {
                proof { reveal_strlit("rTT"); }
                "rTT"
            },
            SpecialReg::RK => {
                proof { reveal_strlit("rK"); }
                "rK"
            },
            SpecialReg::RQ => {
                proof { reveal_strlit("rQ"); }
                "rQ"
            },
            SpecialReg::RU => {
                proof { reveal_strlit("rU"); }
                "rU"
            },
            SpecialReg::RV => {
                proof { reveal_strlit("rV"); }
                "rV"
            },
            SpecialReg::RG => {
                proof { reveal_strlit("rG"); }
                "rG"
            },
            SpecialReg::RL => {
                proof { reveal_strlit("rL"); }
                "rL"
            },
            SpecialReg::RA => {
                proof { reveal_strlit("rA"); }
                "rA"
            },
            SpecialReg::RF => {
                proof { reveal_strlit("rF"); }
                "rF"
            },
            SpecialReg::RP => {
                proof { reveal_strlit("rP"); }
                "rP"
            },
            SpecialReg::RW => {
                proof { reveal_strlit("rW"); }
                "rW"
            },
            SpecialReg::RX => {
                proof { reveal_strlit("rX"); }
                "rX"
            },
            SpecialReg::RY => {
                proof { reveal_strlit("rY"); }
                "rY"
            },
            SpecialReg::RZ => {
                proof { reveal_strlit("rZ"); }
                "rZ"
            },
            SpecialReg::RWW => {
                proof { reveal_strlit("rWW"); }
                "rWW"
            },
            SpecialReg::RXX => {
                proof { reveal_strlit("rXX"); }
                "rXX"
            },
            SpecialReg::RYY => {
                proof { reveal_strlit("rYY"); }
                "rYY"
            },
            SpecialReg::RZZ => {
                proof { reveal_strlit("rZZ"); }
                "rZZ"
            },
        }
    }
}

/// The special register `SAVE` stores `i`-th (see `save_slot`).
pub fn save_special(i: u64) -> (r: SpecialReg)
    requires
        i < SAVE_SPECIAL_COUNT,
    ensures
        reg_number(r) == save_slot(i as nat),
{
    if i == 0 { SpecialReg::RB }
    else if i == 1 { SpecialReg::RD }
    else if i == 2 { SpecialReg::RE }
    else if i == 3 { SpecialReg::RH }
    else if i == 4 { SpecialReg::RJ }
    else if i == 5 { SpecialReg::RM }
    else if i == 6 { SpecialReg::RR }
    else if i == 7 { SpecialReg::RP }
    else if i == 8 { SpecialReg::RW }
    else if i == 9 { SpecialReg::RX }
    else if i == 10 { SpecialReg::RY }
    else { SpecialReg::RZ }
}

/// The register index `SAVE` stores `i`-th.
pub fn save_slot_index(i: u64) -> (r: usize)
    requires
        i < SAVE_SPECIAL_COUNT,
    ensures
        r as nat == save_slot(i as nat),
        r < 32,
{
    if i == 0 { R_B }
    else if i == 1 { R_D }
    else if i == 2 { R_E }
    else if i == 3 { R_H }
    else if i == 4 { R_J }
    else if i == 5 { R_M }
    else if i == 6 { R_R }
    else if i == 7 { R_P }
    else if i == 8 { R_W }
    else if i == 9 { R_X }
    else if i == 10 { R_Y }
    else { R_Z }
}

} // verus!
