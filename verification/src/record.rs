//! The event record is write-only: what an instruction does never depends
//! on what was reported before it, so a run can be paused, reported on and
//! resumed.
use vstd::prelude::*;
use crate::event::Event;
use crate::state::{MState, claim, set_reg, set_sreg, with_mem, with_pc, advance, report};
use crate::exceptions::{trip_step, raise_step};
use crate::integer::integer_step;
use crate::loadstore::{load_step, store_step};
use crate::control::control_step;
use crate::stack::{push_step, pop_step, save_step, unsave_step};
use crate::system::{trap_step, put_step, get_step, trip_instruction_step};
use crate::execute::{dispatch_step, step, run_spec, run_bounded_spec, Stop};
use crate::event::Diagnostic;

verus! {

/// `s` with `log` reported before everything `s` has reported.
pub open spec fn after_log(log: Seq<Event>, s: MState) -> MState {
    MState { events: log + s.events, ..s }
}

/// Whether an outcome is the other one with `log` reported first.
pub open spec fn lifted(log: Seq<Event>, a: (MState, bool), b: (MState, bool)) -> bool {
    a.0 == after_log(log, b.0) && a.1 == b.1
}

broadcast proof fn lemma_claim_log(log: Seq<Event>, s: MState, r: u8)
    ensures
        #[trigger] claim(after_log(log, s), r) == after_log(log, claim(s, r)),
{
    assert(claim(after_log(log, s), r) =~= after_log(log, claim(s, r)));
}

broadcast proof fn lemma_set_reg_log(log: Seq<Event>, s: MState, r: u8, v: u64)
    ensures
        #[trigger] set_reg(after_log(log, s), r, v) == after_log(log, set_reg(s, r, v)),
{
    lemma_claim_log(log, s, r);
    assert(set_reg(after_log(log, s), r, v) =~= after_log(log, set_reg(s, r, v)));
}

broadcast proof fn lemma_set_sreg_log(log: Seq<Event>, s: MState, i: usize, v: u64)
    ensures
        #[trigger] set_sreg(after_log(log, s), i, v) == after_log(log, set_sreg(s, i, v)),
{
    assert(set_sreg(after_log(log, s), i, v) =~= after_log(log, set_sreg(s, i, v)));
}

broadcast proof fn lemma_with_mem_log(log: Seq<Event>, s: MState, m: Map<u64, u8>)
    ensures
        #[trigger] with_mem(after_log(log, s), m) == after_log(log, with_mem(s, m)),
{
    assert(with_mem(after_log(log, s), m) =~= after_log(log, with_mem(s, m)));
}

broadcast proof fn lemma_with_pc_log(log: Seq<Event>, s: MState, pc: u64)
    ensures
        #[trigger] with_pc(after_log(log, s), pc) == after_log(log, with_pc(s, pc)),
{
    assert(with_pc(after_log(log, s), pc) =~= after_log(log, with_pc(s, pc)));
}

broadcast proof fn lemma_advance_log(log: Seq<Event>, s: MState)
    ensures
        #[trigger] advance(after_log(log, s)) == after_log(log, advance(s)),
{
    assert(advance(after_log(log, s)) =~= after_log(log, advance(s)));
}

broadcast proof fn lemma_report_log(log: Seq<Event>, s: MState, e: Event)
    ensures
        #[trigger] report(after_log(log, s), e) == after_log(log, report(s, e)),
{
    assert((log + s.events).push(e) =~= log + s.events.push(e));
    assert(report(after_log(log, s), e) =~= after_log(log, report(s, e)));
}

broadcast group group_log_primitives {
    lemma_claim_log,
    lemma_set_reg_log,
    lemma_set_sreg_log,
    lemma_with_mem_log,
    lemma_with_pc_log,
    lemma_advance_log,
    lemma_report_log,
}

broadcast proof fn lemma_trip_log(log: Seq<Event>, s: MState, vector: u64, cause: u64, op: u8, x: u8, y: u8, z: u8, yv: u64, zv: u64)
    ensures
        lifted(log, #[trigger] trip_step(after_log(log, s), vector, cause, op, x, y, z, yv, zv), trip_step(s, vector, cause, op, x, y, z, yv, zv)),
{
    broadcast use group_log_primitives;
}

broadcast proof fn lemma_raise_log(log: Seq<Event>, s: MState, flags: u64, op: u8, x: u8, y: u8, z: u8, yv: u64, zv: u64)
    ensures
        lifted(log, #[trigger] raise_step(after_log(log, s), flags, op, x, y, z, yv, zv), raise_step(s, flags, op, x, y, z, yv, zv)),
{
    broadcast use group_log_primitives;
    broadcast use lemma_trip_log;
}

broadcast proof fn lemma_trap_log(log: Seq<Event>, s: MState, x: u8, y: u8, z: u8)
    ensures
        lifted(log, #[trigger] trap_step(after_log(log, s), x, y, z), trap_step(s, x, y, z)),
{
    broadcast use group_log_primitives;
}

broadcast proof fn lemma_integer_log(log: Seq<Event>, s: MState, op: u8, x: u8, y: u8, z: u8)
    ensures
        lifted(log, #[trigger] integer_step(after_log(log, s), op, x, y, z), integer_step(s, op, x, y, z)),
{
    broadcast use group_log_primitives;
    broadcast use lemma_raise_log;
}

broadcast proof fn lemma_load_log(log: Seq<Event>, s: MState, op: u8, x: u8, y: u8, z: u8)
    ensures
        lifted(log, #[trigger] load_step(after_log(log, s), op, x, y, z), load_step(s, op, x, y, z)),
{
    broadcast use group_log_primitives;
}

broadcast proof fn lemma_store_log(log: Seq<Event>, s: MState, op: u8, x: u8, y: u8, z: u8)
    ensures
        lifted(log, #[trigger] store_step(after_log(log, s), op, x, y, z), store_step(s, op, x, y, z)),
{
    broadcast use group_log_primitives;
    broadcast use lemma_raise_log;
}

broadcast proof fn lemma_push_log(log: Seq<Event>, s: MState, op: u8, x: u8, y: u8, z: u8)
    ensures
        lifted(log, #[trigger] push_step(after_log(log, s), op, x, y, z), push_step(s, op, x, y, z)),
{
    broadcast use group_log_primitives;
}

broadcast proof fn lemma_control_log(log: Seq<Event>, s: MState, op: u8, x: u8, y: u8, z: u8)
    ensures
        lifted(log, #[trigger] control_step(after_log(log, s), op, x, y, z), control_step(s, op, x, y, z)),
{
    broadcast use group_log_primitives;
}

broadcast proof fn lemma_put_log(log: Seq<Event>, s: MState, x: u8, v: u64)
    ensures
        lifted(log, #[trigger] put_step(after_log(log, s), x, v), put_step(s, x, v)),
{
    broadcast use group_log_primitives;
}

broadcast proof fn lemma_pop_log(log: Seq<Event>, s: MState, x: u8, y: u8, z: u8)
    ensures
        lifted(log, #[trigger] pop_step(after_log(log, s), x, y, z), pop_step(s, x, y, z)),
{
    broadcast use group_log_primitives;
}

broadcast proof fn lemma_save_log(log: Seq<Event>, s: MState, x: u8)
    ensures
        lifted(log, #[trigger] save_step(after_log(log, s), x), save_step(s, x)),
{
    broadcast use group_log_primitives;
}

broadcast proof fn lemma_unsave_log(log: Seq<Event>, s: MState, z: u8)
    ensures
        lifted(log, #[trigger] unsave_step(after_log(log, s), z), unsave_step(s, z)),
{
    broadcast use group_log_primitives;
}

broadcast proof fn lemma_get_log(log: Seq<Event>, s: MState, x: u8, z: u8)
    ensures
        lifted(log, #[trigger] get_step(after_log(log, s), x, z), get_step(s, x, z)),
{
    broadcast use group_log_primitives;
}

broadcast proof fn lemma_trip_instruction_log(log: Seq<Event>, s: MState, x: u8, y: u8, z: u8)
    ensures
        lifted(log, #[trigger] trip_instruction_step(after_log(log, s), x, y, z), trip_instruction_step(s, x, y, z)),
{
    broadcast use group_log_primitives;
    broadcast use lemma_trip_log;
}


broadcast group group_log_families {
    lemma_trip_log,
    lemma_raise_log,
    lemma_trap_log,
    lemma_integer_log,
    lemma_load_log,
    lemma_store_log,
    lemma_push_log,
    lemma_control_log,
    lemma_put_log,
    lemma_pop_log,
    lemma_save_log,
    lemma_unsave_log,
    lemma_get_log,
    lemma_trip_instruction_log,
}

proof fn lemma_dispatch_log(log: Seq<Event>, s: MState, op: u8, x: u8, y: u8, z: u8, nested: bool)
    ensures
        lifted(log, dispatch_step(after_log(log, s), op, x, y, z, nested), dispatch_step(s, op, x, y, z, nested)),
    decreases (if nested { 0int } else { 1int }),
{
    broadcast use group_log_primitives, group_log_families;
    if !nested {
        let c = if crate::execute::writes_x(op) && op != 0xFA {
            claim(s, x)
        } else {
            s
        };
        let rx = crate::state::sreg(c, crate::special::R_X);
        let w = rx % 0x1_0000_0000;
        lemma_dispatch_log(
            log,
            with_pc(c, crate::word::wrap(crate::state::sreg(c, crate::special::R_W) - 4)),
            (w / 0x100_0000) as u8,
            ((w / 0x1_0000) % 0x100) as u8,
            ((w / 0x100) % 0x100) as u8,
            (w % 0x100) as u8,
            true,
        );
    }
}

/// One instruction from `s` with `log` reported first.
proof fn lemma_step_log(log: Seq<Event>, s: MState)
    ensures
        lifted(log, step(after_log(log, s)), step(s)),
{
    let (op, x, y, z) = crate::machine::instruction_at(s);
    lemma_dispatch_log(log, s, op, x, y, z, false);
}

proof fn lemma_run_log(log: Seq<Event>, s: MState, n: nat)
    ensures
        ({
            let (a, ca, ha) = run_spec(after_log(log, s), n);
            let (b, cb, hb) = run_spec(s, n);
            a == after_log(log, b) && ca == cb && ha == hb
        }),
    decreases n,
{
    if n > 0 {
        lemma_step_log(log, s);
        let (s1, go_on) = step(s);
        lemma_run_log(log, s1, (n - 1) as nat);
    }
}

/// `s` with nothing reported.
pub open spec fn unrecorded(s: MState) -> MState {
    MState { events: Seq::empty(), ..s }
}

/// What an instruction does never depends on what was reported before it:
/// running from a state whose record is longer by `log` at the front
/// reaches the same state, with the same record after `log`, the same
/// count and the same outcome.
pub proof fn law_run_ignores_record(log: Seq<Event>, s: MState, n: nat)
    ensures
        ({
            let (a, ca, ha) = run_spec(after_log(log, s), n);
            let (b, cb, hb) = run_spec(s, n);
            &&& a == after_log(log, b)
            &&& ca == cb
            &&& ha == hb
        }),
{
    lemma_run_log(log, s, n);
}

/// A bounded run that used up its budget can be resumed with another
/// bounded run: the machine ends as one bounded run over both budgets
/// leaves it, with the same count and the same reason for stopping. Up to
/// each run's closing report, the two records agree except that the split
/// one also reports the pause between the runs.
pub proof fn law_bounded_runs_resume(s: MState, a: nat, b: nat)
    requires
        run_bounded_spec(s, a).2 == Stop::BudgetExhausted,
        a + b <= usize::MAX,
    ensures
        ({
            let (s1, c1, st1) = run_bounded_spec(s, a);
            let (s2, c2, st2) = run_bounded_spec(s1, b);
            let (s3, c3, st3) = run_bounded_spec(s, a + b);
            let p = run_spec(s, a).0;
            let pause = Event::Diagnostic(Diagnostic::Paused { count: a as usize, pc: p.pc });
            &&& c1 == a
            &&& c3 == c1 + c2
            &&& st3 == st2
            &&& MState { events: s3.events, ..s2 } == s3
            &&& s3.events.take(p.events.len() as int) == p.events
            &&& s2.events.drop_last() == p.events.push(pause) + s3.events.drop_last().skip(
                p.events.len() as int,
            )
        }),
{
    crate::laws::law_run_resumes(s, a, b);
    let (p, ca, ha) = run_spec(s, a);
    assert(!ha);
    let s1 = run_bounded_spec(s, a).0;
    let log = s1.events;
    let q = unrecorded(p);
    assert(after_log(log, q) =~= s1);
    assert(after_log(p.events, q) =~= p);
    lemma_run_log(log, q, b);
    lemma_run_log(p.events, q, b);
    let (r, cr, hr) = run_spec(q, b);
    crate::execute::lemma_run_count(q, b);
    let s2 = run_bounded_spec(s1, b).0;
    let s3 = run_bounded_spec(s, a + b).0;
    let rr = r.events;
    assert(s3.events.drop_last() =~= p.events + rr);
    assert(s3.events.take(p.events.len() as int) =~= p.events);
    assert(s3.events.drop_last().skip(p.events.len() as int) =~= rr);
    assert(s2.events.drop_last() =~= log + rr);
    assert(MState { events: s3.events, ..s2 } =~= s3);
}
} // verus!
