//! What a state dump shows: the nonzero registers, the PC and how much
//! memory is in use, with values read signed or unsigned.
use vstd::prelude::*;
use crate::word::signed;
use crate::state::MState;
use crate::machine::MMix;
use crate::special::{SpecialReg, reg_of_number, reg_name};

verus! {

/// How a dump reads register values.
#[derive(Copy, Clone, Debug, PartialEq, Eq, Structural)]
#[non_exhaustive]
pub enum ValueFormat {
    Signed,
    Unsigned,
}

/// The decimal digit for `d < 10`.
pub open spec fn digit(d: nat) -> char {
    if d == 0 { '0' }
    else if d == 1 { '1' }
    else if d == 2 { '2' }
    else if d == 3 { '3' }
    else if d == 4 { '4' }
    else if d == 5 { '5' }
    else if d == 6 { '6' }
    else if d == 7 { '7' }
    else if d == 8 { '8' }
    else { '9' }
}

/// `n` in decimal, without leading zeros.
pub open spec fn decimal(n: nat) -> Seq<char>
    decreases n,
{
    if n < 10 {
        seq![digit(n)]
    } else {
        decimal(n / 10).push(digit(n % 10))
    }
}

/// `v` in decimal, with a leading `-` when negative.
pub open spec fn signed_decimal(v: int) -> Seq<char> {
    if v < 0 {
        seq!['-'] + decimal((-v) as nat)
    } else {
        decimal(v as nat)
    }
}

/// The text a dump shows for `value`.
pub open spec fn value_text(value: u64, format: ValueFormat) -> Seq<char> {
    match format {
        ValueFormat::Signed => signed_decimal(signed(value)),
        ValueFormat::Unsigned => decimal(value as nat),
    }
}

/// `u64::to_string`: the decimal form of `v`.
#[verifier::external_body]
fn unsigned_text(v: u64) -> (r: String)
    ensures
        r@ == decimal(v as nat),
{
    v.to_string()
}

/// `i64::to_string` on the octa read as signed: the decimal form, with a
/// leading `-` for a negative value.
#[verifier::external_body]
fn signed_text(v: u64) -> (r: String)
    ensures
        r@ == signed_decimal(signed(v)),
{
    (v as i64).to_string()
}

/// The text a dump shows for `value` in `format`.
pub fn display_value(value: u64, format: ValueFormat) -> (r: String)
    ensures
        r@ == value_text(value, format),
{
    match format {
        ValueFormat::Signed => signed_text(value),
        ValueFormat::Unsigned => unsigned_text(value),
    }
}

/// The `(index, value)` pairs of the nonzero entries among the first `n`.
pub open spec fn nonzero_entries(vals: Seq<u64>, n: nat) -> Seq<(u8, u64)>
    decreases n,
{
    if n == 0 {
        Seq::empty()
    } else {
        let k = (n - 1) as nat;
        let rest = nonzero_entries(vals, k);
        if vals[k as int] != 0 {
            rest.push((k as u8, vals[k as int]))
        } else {
            rest
        }
    }
}

/// A dump of a machine's state: its PC, its nonzero general and special
/// registers by number, how many bytes of memory are nonzero, and how
/// values are to be read.
pub struct MMixDisplay {
    pub pc: u64,
    pub general: Vec<(u8, u64)>,
    pub special: Vec<(u8, u64)>,
    pub memory_used: usize,
    pub format: ValueFormat,
}

/// What `display_with` captures of `s`.
pub open spec fn dump_of(s: MState, d: MMixDisplay, format: ValueFormat) -> bool {
    &&& d.pc == s.pc
    &&& d.general@ == nonzero_entries(s.regs, 256)
    &&& d.special@ == nonzero_entries(s.sregs, 32)
    &&& d.memory_used == s.mem.dom().len()
    &&& d.format == format
}

impl MMix {
    /// A dump of the machine's state, to be shown with values read per
    /// `format`.
    pub fn display_with(&self, format: ValueFormat) -> (r: MMixDisplay)
        requires
            self.wf(),
        ensures
            dump_of(self@, r, format),
    {
        let mut general: Vec<(u8, u64)> = Vec::new();
        let mut i: usize = 0;
        while i < 256
            invariant
                self.wf(),
                i <= 256,
                general@ == nonzero_entries(self@.regs, i as nat),
            decreases 256 - i,
        {
            let v = self.get_register(i as u8);
            if v != 0 {
                general.push((i as u8, v));
            }
            i = i + 1;
        }
        let mut special: Vec<(u8, u64)> = Vec::new();
        let mut j: usize = 0;
        while j < 32
            invariant
                self.wf(),
                j <= 32,
                special@ == nonzero_entries(self@.sregs, j as nat),
            decreases 32 - j,
        {
            let v = self.sreg_at(j);
            if v != 0 {
                special.push((j as u8, v));
            }
            j = j + 1;
        }
        MMixDisplay { pc: self.get_pc(), general, special, memory_used: self.memory_used(), format }
    }
}


// ---------------------------------------------------------------- text

/// The lowercase hexadecimal digit for `d < 16`.
pub open spec fn hex_digit(d: nat) -> char {
    if d < 10 { digit(d) }
    else if d == 10 { 'a' }
    else if d == 11 { 'b' }
    else if d == 12 { 'c' }
    else if d == 13 { 'd' }
    else if d == 14 { 'e' }
    else { 'f' }
}

/// The low `n` hexadecimal digits of `v`, most significant first.
pub open spec fn hex_digits(v: nat, n: nat) -> Seq<char>
    decreases n,
{
    if n == 0 {
        Seq::empty()
    } else {
        hex_digits(v / 16, (n - 1) as nat).push(hex_digit(v % 16))
    }
}

/// `v` as `0x` and sixteen hexadecimal digits.
pub open spec fn hex_octa(v: u64) -> Seq<char> {
    seq!['0', 'x'] + hex_digits(v as nat, 16)
}

/// `s` followed by spaces up to `w` characters.
pub open spec fn pad_right(s: Seq<char>, w: nat) -> Seq<char> {
    if s.len() >= w {
        s
    } else {
        s + Seq::new((w - s.len()) as nat, |i: int| ' ')
    }
}

/// The name a dump gives special register number `i`.
pub open spec fn special_label(i: u8) -> Seq<char> {
    match reg_of_number(i as nat) {
        Some(r) => reg_name(r),
        None => seq!['r', '?', '?'],
    }
}

/// A dump's line for general register `e.0` holding `e.1`.
pub open spec fn general_line(e: (u8, u64), f: ValueFormat) -> Seq<char> {
    seq![' ', ' ', '$'] + pad_right(decimal(e.0 as nat), 3) + seq![' ', '=', ' '] + hex_octa(e.1)
        + seq![' ', '('] + value_text(e.1, f) + seq![')', '\n']
}

/// A dump's line for special register number `e.0` holding `e.1`.
pub open spec fn special_line(e: (u8, u64), f: ValueFormat) -> Seq<char> {
    seq![' ', ' '] + pad_right(special_label(e.0), 4) + seq![' ', '=', ' '] + hex_octa(e.1) + seq![
        ' ',
        '(',
    ] + value_text(e.1, f) + seq![')', '\n']
}

/// The lines for `es`, one per entry (`special` picks the special form).
pub open spec fn entry_lines(es: Seq<(u8, u64)>, f: ValueFormat, special: bool) -> Seq<char>
    decreases es.len(),
{
    if es.len() == 0 {
        Seq::empty()
    } else {
        entry_lines(es.drop_last(), f, special) + if special {
            special_line(es.last(), f)
        } else {
            general_line(es.last(), f)
        }
    }
}

/// A dump's register section: its lines, or a note that all are zero.
pub open spec fn section(es: Seq<(u8, u64)>, f: ValueFormat, special: bool) -> Seq<char> {
    if es.len() == 0 {
        "  (all zero)\n"@
    } else {
        entry_lines(es, f, special)
    }
}

/// The text of a dump: a header with the PC, the nonzero general and
/// special registers with their values in hexadecimal and in the dump's
/// format, and the bytes of memory in use.
pub open spec fn dump_text(d: MMixDisplay) -> Seq<char> {
    "MMIX Computer State:\n"@ + "  PC = "@ + hex_octa(d.pc) + "\n\n"@ + "General Registers:\n"@ + section(
        d.general@,
        d.format,
        false,
    ) + "\n"@ + "Special Registers:\n"@ + section(d.special@, d.format, true) + "\n"@ + "Memory: "@
        + decimal(d.memory_used as nat) + " bytes used\n"@
}

/// The one-character text of hexadecimal digit `d`.
fn hex_digit_text(d: u64) -> (r: &'static str)
    requires
        d < 16,
    ensures
        r@ == seq![hex_digit(d as nat)],
{
    if d == 0 { proof { reveal_strlit("0"); } "0" }
    else if d == 1 { proof { reveal_strlit("1"); } "1" }
    else if d == 2 { proof { reveal_strlit("2"); } "2" }
    else if d == 3 { proof { reveal_strlit("3"); } "3" }
    else if d == 4 { proof { reveal_strlit("4"); } "4" }
    else if d == 5 { proof { reveal_strlit("5"); } "5" }
    else if d == 6 { proof { reveal_strlit("6"); } "6" }
    else if d == 7 { proof { reveal_strlit("7"); } "7" }
    else if d == 8 { proof { reveal_strlit("8"); } "8" }
    else if d == 9 { proof { reveal_strlit("9"); } "9" }
    else if d == 10 { proof { reveal_strlit("a"); } "a" }
    else if d == 11 { proof { reveal_strlit("b"); } "b" }
    else if d == 12 { proof { reveal_strlit("c"); } "c" }
    else if d == 13 { proof { reveal_strlit("d"); } "d" }
    else if d == 14 { proof { reveal_strlit("e"); } "e" }
    else { proof { reveal_strlit("f"); } "f" }
}

/// Append the low `n` hexadecimal digits of `v`.
fn append_hex_digits(out: &mut String, v: u64, n: u64)
    ensures
        final(out)@ == old(out)@ + hex_digits(v as nat, n as nat),
    decreases n,
{
    if n > 0 {
        append_hex_digits(out, v / 16, n - 1);
        out.append(hex_digit_text(v % 16));
        proof {
            assert(old(out)@ + hex_digits(v as nat, n as nat) =~= old(out)@ + hex_digits(
                (v / 16) as nat,
                (n - 1) as nat,
            ) + seq![hex_digit((v % 16) as nat)]);
        }
    } else {
        proof {
            assert(old(out)@ + hex_digits(v as nat, 0) =~= old(out)@);
        }
    }
}

/// Append `v` as `0x` and sixteen hexadecimal digits.
fn append_hex_octa(out: &mut String, v: u64)
    ensures
        final(out)@ == old(out)@ + hex_octa(v),
{
    proof { reveal_strlit("0x"); }
    out.append("0x");
    append_hex_digits(out, v, 16);
    proof {
        assert(old(out)@ + hex_octa(v) =~= old(out)@ + "0x"@ + hex_digits(v as nat, 16));
    }
}

/// Append `s`, then spaces up to `w` characters.
fn append_padded(out: &mut String, s: &str, w: usize)
    ensures
        final(out)@ == old(out)@ + pad_right(s@, w as nat),
{
    out.append(s);
    let n = s.unicode_len();
    let mut k = n;
    proof { reveal_strlit(" "); }
    while k < w
        invariant
            n == s@.len(),
            n <= k,
            k <= w || k == n,
            out@ == old(out)@ + s@ + Seq::new((k - n) as nat, |i: int| ' '),
        decreases w - k,
    {
        out.append(" ");
        proof {
            reveal_strlit(" ");
            assert(old(out)@ + s@ + Seq::new((k + 1 - n) as nat, |i: int| ' ') =~= old(out)@ + s@
                + Seq::new((k - n) as nat, |i: int| ' ') + " "@);
        }
        k = k + 1;
    }
    proof {
        if n >= w {
            assert(out@ =~= old(out)@ + s@);
        } else {
            assert(k == w);
        }
    }
}

impl MMixDisplay {
    /// Append the line for one register entry.
    fn append_line(&self, out: &mut String, e: (u8, u64), special: bool)
        ensures
            final(out)@ == old(out)@ + if special {
                special_line(e, self.format)
            } else {
                general_line(e, self.format)
            },
    {
        proof {
            reveal_strlit("  ");
            reveal_strlit("  $");
            reveal_strlit(" = ");
            reveal_strlit(" (");
            reveal_strlit(")\n");
        }
        if special {
            out.append("  ");
            let label = match SpecialReg::from_u8(e.0) {
                Some(r) => r.name(),
                None => {
                    proof { reveal_strlit("r??"); }
                    "r??"
                },
            };
            append_padded(out, label, 4);
        } else {
            out.append("  $");
            let index = display_value(e.0 as u64, ValueFormat::Unsigned);
            append_padded(out, index.as_str(), 3);
        }
        out.append(" = ");
        append_hex_octa(out, e.1);
        out.append(" (");
        let value = display_value(e.1, self.format);
        out.append(value.as_str());
        out.append(")\n");
        proof {
            if special {
                assert(out@ =~= old(out)@ + special_line(e, self.format));
            } else {
                assert(out@ =~= old(out)@ + general_line(e, self.format));
            }
        }
    }

    /// Append a register section.
    fn append_section(&self, out: &mut String, special: bool)
        ensures
            final(out)@ == old(out)@ + section(
                if special { self.special@ } else { self.general@ },
                self.format,
                special,
            ),
    {
        let es = if special { &self.special } else { &self.general };
        if es.len() == 0 {
            out.append("  (all zero)\n");
            return;
        }
        let mut i: usize = 0;
        while i < es.len()
            invariant
                es@ == (if special { self.special@ } else { self.general@ }),
                i <= es@.len(),
                out@ == old(out)@ + entry_lines(es@.take(i as int), self.format, special),
            decreases es@.len() - i,
        {
            let e = es[i];
            self.append_line(out, e, special);
            proof {
                let t = es@.take(i as int + 1);
                assert(t.drop_last() =~= es@.take(i as int));
                assert(t.last() == e);
                assert(out@ =~= old(out)@ + entry_lines(t, self.format, special));
            }
            i = i + 1;
        }
        proof {
            assert(es@.take(es@.len() as int) =~= es@);
        }
    }

    /// The dump as text (see `dump_text`).
    pub fn to_text(&self) -> (r: String)
        ensures
            r@ == dump_text(*self),
    {
        let mut out = String::new();
        out.append("MMIX Computer State:\n");
        out.append("  PC = ");
        append_hex_octa(&mut out, self.pc);
        out.append("\n\n");
        out.append("General Registers:\n");
        self.append_section(&mut out, false);
        out.append("\n");
        out.append("Special Registers:\n");
        self.append_section(&mut out, true);
        out.append("\n");
        out.append("Memory: ");
        let used = display_value(self.memory_used as u64, ValueFormat::Unsigned);
        out.append(used.as_str());
        out.append(" bytes used\n");
        proof {
            assert(out@ =~= dump_text(*self));
        }
        out
    }
}

} // verus!
