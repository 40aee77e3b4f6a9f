use checksmix::{
    display_value, time_reading_of, trip_cause_name, CallOutcome, Diagnostic, Event, MMix, SpecialReg, Stop,
    TrapCode, ValueFormat, CALL_FAILED, RA_V, STACK_SEGMENT_START,
};

/// Write `value`'s four bytes as part of the program image.
fn load(mmix: &mut MMix, addr: u64, value: u32) {
    for i in 0..4u64 {
        let shift = 24 - 8 * i;
        mmix.write_loaded_byte(addr + i, (value >> shift) as u8);
    }
}

/// Load `words` from `addr` on and point the PC at the first.
fn program(mmix: &mut MMix, addr: u64, words: &[u32]) {
    for (i, w) in words.iter().enumerate() {
        load(mmix, addr + 4 * i as u64, *w);
    }
    mmix.set_pc(addr);
}

fn last_diagnostic(mmix: &MMix) -> Diagnostic {
    *mmix.diagnostics().last().expect("a diagnostic was reported")
}

// ---------------------------------------------------------------- memory

#[test]
fn octa_reads_back_from_any_address_in_its_block() {
    let mut mmix = MMix::new();
    mmix.write_octa(0x1008, 0x1111_2222_3333_4444);
    mmix.write_octa(0x1003, 0x0123_4567_89AB_CDEF);
    assert_eq!(mmix.read_octa(0x1000), 0x0123_4567_89AB_CDEF);
    assert_eq!(mmix.read_octa(0x1007), 0x0123_4567_89AB_CDEF);
    assert_eq!(mmix.read_tetra(0x1004), 0x89AB_CDEF);
    assert_eq!(mmix.read_wyde(0x1000), 0x0123);
    assert_eq!(mmix.read_byte(0x1001), 0x23);
    assert_eq!(mmix.read_octa(0x1008), 0x1111_2222_3333_4444, "the next block is untouched");
}

#[test]
fn zero_bytes_take_no_memory() {
    let mut mmix = MMix::new();
    mmix.write_octa(0x2000, 0x00FF_0000_0000_00FF);
    assert_eq!(mmix.memory_used(), 2);
    mmix.write_octa(0x2000, 0);
    assert_eq!(mmix.memory_used(), 0);
    assert_eq!(mmix.read_octa(0x2000), 0);
}

// ---------------------------------------------------------------- registers

#[test]
fn writing_a_marginal_local_claims_and_zeroes_the_registers_below_it() {
    let mut mmix = MMix::new();
    mmix.set_register(2, 5);
    assert_eq!(mmix.get_special(SpecialReg::RL), 3);
    mmix.set_register(6, 9);
    assert_eq!(mmix.get_special(SpecialReg::RL), 7);
    assert_eq!(mmix.get_register(6), 9);
    assert_eq!(mmix.get_register(2), 5, "a register below the old rL keeps its value");
    for r in 3..6 {
        assert_eq!(mmix.get_register(r), 0);
    }
    mmix.set_register(40, 11);
    assert_eq!(mmix.get_special(SpecialReg::RL), 7, "a global write claims nothing");
    assert_eq!(mmix.get_register(40), 11);
}

#[test]
fn a_special_register_reads_back_and_leaves_the_others() {
    let mut mmix = MMix::new();
    mmix.set_special(SpecialReg::RM, 0xDEAD);
    assert_eq!(mmix.get_special(SpecialReg::RM), 0xDEAD);
    assert_eq!(mmix.get_special(SpecialReg::RN), 2009);
    assert_eq!(mmix.get_special(SpecialReg::RG), 32);
}

// ---------------------------------------------------------------- calls

#[test]
fn a_call_and_its_return_restore_the_caller_and_deliver_the_outputs() {
    let mut mmix = MMix::new();
    mmix.set_register(0, 10);
    mmix.set_register(1, 11);
    let ro = mmix.get_special(SpecialReg::RO);
    program(
        &mut mmix,
        0x100,
        &[
            0xF202_0002, // PUSHJ $2,@+8
            0x0000_0000, // (return point)
            0xE300_004D, // SETL $0,77
            0xE301_0058, // SETL $1,88
            0xF802_0000, // POP 2,0
        ],
    );
    assert!(mmix.execute_instruction());
    assert_eq!(mmix.call_depth(), 1);
    assert_eq!(mmix.get_pc(), 0x108);
    for _ in 0..3 {
        assert!(mmix.execute_instruction());
    }
    assert_eq!(mmix.get_pc(), 0x104);
    assert_eq!(mmix.get_register(0), 10);
    assert_eq!(mmix.get_register(1), 11);
    assert_eq!(mmix.get_register(2), 88, "the hole takes the last output");
    assert_eq!(mmix.get_register(3), 77, "the other output lands above the hole");
    assert_eq!(mmix.get_special(SpecialReg::RL), 4);
    assert_eq!(mmix.get_special(SpecialReg::RO), ro);
    assert_eq!(mmix.get_special(SpecialReg::RS), ro);
    assert_eq!(mmix.call_depth(), 0);
}

#[test]
fn save_opens_no_frame_and_unsave_restores_after_a_clobber() {
    let mut mmix = MMix::new();
    mmix.set_register(0, 1);
    mmix.set_register(1, 2);
    mmix.set_register(2, 3);
    mmix.set_register(100, 0x5151);
    mmix.set_special(SpecialReg::RR, 0x7777);
    program(
        &mut mmix,
        0x100,
        &[
            0xF200_0002, // PUSHJ $0,@+8
            0x0000_0000,
            0xE300_0009, // SETL $0,9
            0xFAFF_0000, // SAVE $255,0
            0xE300_0001, // SETL $0,1
            0xE364_0000, // SETL $100,0
            0xFB00_00FF, // UNSAVE 0,$255
        ],
    );
    assert!(mmix.execute_instruction());
    assert!(mmix.execute_instruction());
    assert_eq!(mmix.call_depth(), 1);
    let ro = mmix.get_special(SpecialReg::RO);
    assert!(mmix.execute_instruction());
    assert_eq!(mmix.call_depth(), 1, "a SAVE context is not a frame");
    assert_eq!(mmix.get_special(SpecialReg::RL), 0);
    mmix.set_special(SpecialReg::RR, 0);
    assert!(mmix.execute_instruction());
    assert!(mmix.execute_instruction());
    assert!(mmix.execute_instruction());
    assert_eq!(mmix.get_register(0), 9);
    assert_eq!(mmix.get_register(1), 3, "the callee's $1 is the caller's $2");
    assert_eq!(mmix.get_register(100), 0x5151);
    assert_eq!(mmix.get_special(SpecialReg::RR), 0x7777);
    assert_eq!(mmix.get_special(SpecialReg::RL), 2, "rL is the saved local count");
    assert_eq!(mmix.get_special(SpecialReg::RO), ro);
    assert_eq!(mmix.call_depth(), 1);
}

#[test]
fn the_stack_starts_at_its_segment_base() {
    let mmix = MMix::new();
    assert_eq!(mmix.get_special(SpecialReg::RO), STACK_SEGMENT_START);
    assert_eq!(mmix.get_special(SpecialReg::RS), STACK_SEGMENT_START);
    assert_eq!(mmix.call_depth(), 0);
}

// ---------------------------------------------------------------- exceptions

#[test]
fn a_disabled_overflow_sets_its_event_bit_and_continues() {
    let mut mmix = MMix::new();
    mmix.set_register(1, i64::MAX as u64);
    mmix.set_register(2, 1);
    mmix.set_special(SpecialReg::RA, 0x01);
    program(&mut mmix, 0x100, &[0x2003_0102]); // ADD $3,$1,$2
    assert!(mmix.execute_instruction());
    assert_eq!(mmix.get_special(SpecialReg::RA), 0x01 | RA_V, "the old event bit stays");
    assert_eq!(mmix.get_register(3), 0x8000_0000_0000_0000);
    assert_eq!(mmix.get_pc(), 0x104);
}

#[test]
fn an_enabled_overflow_trips_to_its_handler_without_recording() {
    let mut mmix = MMix::new();
    mmix.set_register(1, i64::MAX as u64);
    mmix.set_register(2, 1);
    mmix.set_special(SpecialReg::RA, RA_V << 8);
    load(&mut mmix, 0x20, 0xFD00_0000); // SWYM at the V handler
    program(&mut mmix, 0x100, &[0x2003_0102]);
    assert!(mmix.execute_instruction());
    assert_eq!(mmix.get_pc(), 0x20);
    assert_eq!(mmix.get_special(SpecialReg::RA), RA_V << 8);
    assert_eq!(mmix.get_special(SpecialReg::RW), 0x104);
    assert_eq!(mmix.get_special(SpecialReg::RX), 0x8000_0000_2003_0102);
}

#[test]
fn an_enabled_overflow_with_no_handler_halts() {
    let mut mmix = MMix::new();
    mmix.set_register(1, i64::MAX as u64);
    mmix.set_register(2, 1);
    mmix.set_special(SpecialReg::RA, RA_V << 8);
    program(&mut mmix, 0x100, &[0x2003_0102]);
    assert!(!mmix.execute_instruction());
    assert_eq!(mmix.get_exit_code(), 1);
    assert_eq!(mmix.get_pc(), 0x100);
    assert!(matches!(
        last_diagnostic(&mmix),
        Diagnostic::UnloadedVector { vector: 0x20, pc: 0x100, .. }
    ));
}

// ---------------------------------------------------------------- refusals

#[test]
fn a_refused_put_changes_nothing_but_the_record() {
    let mut mmix = MMix::new();
    mmix.set_register(1, 77);
    program(&mut mmix, 0x100, &[0xF609_0001]); // PUT rN,$1
    let before = mmix.display_with(ValueFormat::Unsigned).to_text();
    assert!(!mmix.execute_instruction());
    assert_eq!(mmix.display_with(ValueFormat::Unsigned).to_text(), before);
    assert_eq!(mmix.get_pc(), 0x100);
    assert_eq!(mmix.diagnostics().len(), 1);
    assert!(matches!(
        last_diagnostic(&mmix),
        Diagnostic::PutReadOnly { reg: SpecialReg::RN, pc: 0x100 }
    ));
}

#[test]
fn put_to_a_number_above_31_is_refused() {
    let mut mmix = MMix::new();
    program(&mut mmix, 0x100, &[0xF728_0001]); // PUTI 40,1
    assert!(!mmix.execute_instruction());
    assert!(matches!(
        last_diagnostic(&mmix),
        Diagnostic::PutNoSuchRegister { x: 40, pc: 0x100 }
    ));
}

#[test]
fn put_ra_above_its_bits_is_refused() {
    let mut mmix = MMix::new();
    mmix.set_register(1, 0x4_0000);
    program(&mut mmix, 0x100, &[0xF615_0001]); // PUT rA,$1
    assert!(!mmix.execute_instruction());
    assert_eq!(mmix.get_special(SpecialReg::RA), 0);
    assert!(matches!(
        last_diagnostic(&mmix),
        Diagnostic::PutRaTooLarge { value: 0x4_0000, pc: 0x100 }
    ));
}

#[test]
fn a_floating_point_instruction_is_refused() {
    let mut mmix = MMix::new();
    program(&mut mmix, 0x100, &[0x0403_0102]); // FADD $3,$1,$2
    assert!(!mmix.execute_instruction());
    assert_eq!(mmix.get_pc(), 0x100);
    assert!(matches!(
        last_diagnostic(&mmix),
        Diagnostic::FloatUnavailable { op: 0x04, pc: 0x100 }
    ));
}

#[test]
fn resume_with_a_nonzero_z_is_refused() {
    let mut mmix = MMix::new();
    program(&mut mmix, 0x100, &[0xF900_0001]); // RESUME 1
    assert!(!mmix.execute_instruction());
    assert!(matches!(
        last_diagnostic(&mmix),
        Diagnostic::ResumePrivileged { z: 1, pc: 0x100 }
    ));
}

#[test]
fn resume_with_a_nonzero_ropcode_is_refused() {
    let mut mmix = MMix::new();
    mmix.set_special(SpecialReg::RX, 0x0200_0000_E300_0001);
    program(&mut mmix, 0x100, &[0xF900_0000]); // RESUME 0
    assert!(!mmix.execute_instruction());
    assert!(matches!(
        last_diagnostic(&mmix),
        Diagnostic::ResumeRopcode { ropcode: 2, pc: 0x100 }
    ));
}

#[test]
fn resume_inserting_a_resume_is_refused() {
    let mut mmix = MMix::new();
    mmix.set_special(SpecialReg::RX, 0xF900_0000);
    mmix.set_special(SpecialReg::RW, 0x200);
    program(&mut mmix, 0x100, &[0xF900_0000]);
    assert!(!mmix.execute_instruction());
    assert!(matches!(last_diagnostic(&mmix), Diagnostic::ResumeNested { .. }));
}

#[test]
fn resume_runs_the_inserted_instruction_as_if_at_rw_minus_4() {
    let mut mmix = MMix::new();
    mmix.set_special(SpecialReg::RX, 0xE305_002A); // SETL $5,42
    mmix.set_special(SpecialReg::RW, 0x200);
    program(&mut mmix, 0x100, &[0xF900_0000]);
    assert!(mmix.execute_instruction());
    assert_eq!(mmix.get_register(5), 42);
    assert_eq!(mmix.get_pc(), 0x200);
}

// ---------------------------------------------------------------- traps

#[test]
fn trap_halt_sets_the_exit_code_from_255() {
    let mut mmix = MMix::new();
    mmix.set_register(255, 3);
    program(&mut mmix, 0x100, &[0x0000_0000]); // TRAP 0,Halt,0
    assert!(!mmix.execute_instruction());
    assert_eq!(mmix.get_exit_code(), 3);
    assert_eq!(mmix.get_pc(), 0x104);
    assert!(mmix.events().iter().any(|e| matches!(e, Event::Halted { arg: 0, exit_code: 3 })));
    assert!(matches!(
        last_diagnostic(&mmix),
        Diagnostic::Halt { exit_code: 3, pc: 0x100 }
    ));
}

#[test]
fn a_known_system_call_is_handed_to_the_runner() {
    let mut mmix = MMix::new();
    mmix.set_register(255, 0x4000);
    program(&mut mmix, 0x100, &[0x0000_0701]); // TRAP 0,Fputs,StdOut
    assert!(mmix.execute_instruction());
    assert_eq!(mmix.get_pc(), 0x104);
    let events = mmix.take_events();
    assert_eq!(events.len(), 1);
    assert!(matches!(
        events[0],
        Event::HostCall { code: TrapCode::Fputs, arg: 1, arg255: 0x4000 }
    ));
    assert!(mmix.events().is_empty());
}

#[test]
fn an_unknown_system_call_is_reported_and_skipped() {
    let mut mmix = MMix::new();
    program(&mut mmix, 0x100, &[0x0000_5000]); // TRAP 0,#50,0
    assert!(mmix.execute_instruction());
    assert_eq!(mmix.get_pc(), 0x104);
    assert!(matches!(
        last_diagnostic(&mmix),
        Diagnostic::UnhandledTrap { code: 0x50, pc: 0x100 }
    ));
}

#[test]
fn a_register_trap_records_its_operands_in_rbb_and_halts() {
    let mut mmix = MMix::new();
    mmix.set_register(2, 0x1234);
    mmix.set_register(3, 0x5678);
    program(&mut mmix, 0x100, &[0x0001_0203]); // TRAP 1,$2,$3
    assert!(!mmix.execute_instruction());
    assert_eq!(mmix.get_special(SpecialReg::RBB), 0x0000_1234_0000_5678);
    assert!(matches!(
        last_diagnostic(&mmix),
        Diagnostic::RegisterTrap { x: 1, y: 2, z: 3, value: 0x0000_1234_0000_5678, pc: 0x100 }
    ));
}

// ---------------------------------------------------------------- runs

fn counting_program(mmix: &mut MMix) {
    program(
        mmix,
        0x100,
        &[
            0xE701_0001, // INCL $1,1
            0xE701_0001,
            0xE701_0001,
            0xE701_0001,
            0xE701_0001,
            0x0000_0000, // TRAP 0,Halt,0
        ],
    );
}

#[test]
fn a_paused_run_resumes_where_it_stopped() {
    let mut split = MMix::new();
    counting_program(&mut split);
    assert_eq!(split.run_bounded(2), (2, Stop::BudgetExhausted));
    assert!(matches!(
        last_diagnostic(&split),
        Diagnostic::Paused { count: 2, pc: 0x108 }
    ));
    assert_eq!(split.run_bounded(3), (3, Stop::BudgetExhausted));

    let mut whole = MMix::new();
    counting_program(&mut whole);
    assert_eq!(whole.run_bounded(5), (5, Stop::BudgetExhausted));

    assert_eq!(split.get_pc(), whole.get_pc());
    assert_eq!(split.get_register(1), 5);
    assert_eq!(whole.get_register(1), 5);
    assert_eq!(
        split.display_with(ValueFormat::Signed).to_text(),
        whole.display_with(ValueFormat::Signed).to_text()
    );
}

#[test]
fn a_run_stops_at_the_halt() {
    let mut mmix = MMix::new();
    counting_program(&mut mmix);
    assert_eq!(mmix.run(), 5);
    assert_eq!(mmix.get_pc(), 0x118);
    assert!(matches!(
        last_diagnostic(&mmix),
        Diagnostic::Stopped { count: 5, pc: 0x118 }
    ));
    assert_eq!(mmix.run_bounded(0), (0, Stop::BudgetExhausted));
}

// ---------------------------------------------------------------- division

fn divide(y: i64, z: i64) -> (i64, i64) {
    let mut mmix = MMix::new();
    mmix.set_register(1, y as u64);
    mmix.set_register(2, z as u64);
    program(&mut mmix, 0x100, &[0x1C03_0102]); // DIV $3,$1,$2
    assert!(mmix.execute_instruction());
    (mmix.get_register(3) as i64, mmix.get_special(SpecialReg::RR) as i64)
}

#[test]
fn div_rounds_toward_negative_infinity() {
    assert_eq!(divide(-7, 2), (-4, 1));
    assert_eq!(divide(7, -2), (-4, -1));
    assert_eq!(divide(-7, -2), (3, -1));
    assert_eq!(divide(7, 2), (3, 1));
    assert_eq!(divide(7, 0), (0, 7));
}

// ---------------------------------------------------------------- dumps

#[test]
fn display_value_reads_signed_or_unsigned() {
    assert_eq!(display_value(42, ValueFormat::Unsigned), "42");
    assert_eq!(display_value(0, ValueFormat::Signed), "0");
    assert_eq!(display_value(u64::MAX, ValueFormat::Signed), "-1");
    assert_eq!(display_value(u64::MAX, ValueFormat::Unsigned), "18446744073709551615");
    assert_eq!(
        display_value(0x8000_0000_0000_0000, ValueFormat::Signed),
        "-9223372036854775808"
    );
}

#[test]
fn a_dump_shows_the_nonzero_registers_and_the_memory_in_use() {
    let mut mmix = MMix::new();
    mmix.set_pc(0x100);
    mmix.set_register(3, u64::MAX);
    mmix.write_octa(0x1000, 0x0101);
    let text = mmix.display_with(ValueFormat::Signed).to_text();
    let expected = "MMIX Computer State:\n\
                    \x20 PC = 0x0000000000000100\n\
                    \n\
                    General Registers:\n\
                    \x20 $3   = 0xffffffffffffffff (-1)\n\
                    \n\
                    Special Registers:\n\
                    \x20 rN   = 0x00000000000007d9 (2009)\n\
                    \x20 rO   = 0x6000000000000000 (6917529027641081856)\n\
                    \x20 rS   = 0x6000000000000000 (6917529027641081856)\n\
                    \x20 rG   = 0x0000000000000020 (32)\n\
                    \x20 rL   = 0x0000000000000004 (4)\n\
                    \n\
                    Memory: 2 bytes used\n";
    assert_eq!(text, expected);
    let unsigned = mmix.display_with(ValueFormat::Unsigned).to_text();
    assert!(unsigned.contains("$3   = 0xffffffffffffffff (18446744073709551615)"));
}

#[test]
fn a_blank_machine_dumps_all_zero_general_registers() {
    let mmix = MMix::new();
    let text = mmix.display_with(ValueFormat::Signed).to_text();
    assert!(text.contains("General Registers:\n  (all zero)\n"));
    assert!(text.ends_with("Memory: 0 bytes used\n"));
}

/// The dump labels each slot with the name of the register that slot
/// holds, so a value never appears under a neighbour's name.
#[test]
fn display_labels_each_special_register_with_its_own_name() {
    let mut mmix = MMix::new();
    let expected = [
        (SpecialReg::RN, "rN", 0x1111_u64),
        (SpecialReg::RO, "rO", 0x2222),
        (SpecialReg::RG, "rG", 0x3333),
        (SpecialReg::RL, "rL", 0x4444),
    ];
    for (reg, _, value) in expected {
        mmix.set_special(reg, value);
    }

    let dump = mmix.display_with(ValueFormat::Signed).to_text();
    for (_, name, value) in expected {
        let line = format!("{:<4} = {:#018x}", name, value);
        assert!(
            dump.contains(&line),
            "expected `{line}` in the dump, got:\n{dump}"
        );
    }
}

// ---------------------------------------------------------------- system calls

#[test]
fn test_trap_read_cstring() {
    let mut mmix = MMix::new();
    let test_string = b"Test String\0";
    let addr = 1000u64;
    for (i, &byte) in test_string.iter().enumerate() {
        mmix.write_byte(addr + i as u64, byte);
    }
    assert_eq!(mmix.read_cstring(addr, 256), b"Test String".to_vec());
    assert_eq!(mmix.read_cstring(addr, 4), b"Test".to_vec(), "at most max bytes");
    assert!(mmix.read_cstring(addr + 11, 256).is_empty());
}

#[test]
fn a_wide_string_stops_at_the_zero_wyde() {
    let mut mmix = MMix::new();
    for (i, &byte) in [b'H', b'i', 0x00, 0x21, 0x00, 0x00].iter().enumerate() {
        mmix.write_byte(3000 + i as u64, byte);
    }
    assert_eq!(mmix.read_wstring(3000, 16), vec![0x4869, 0x0021]);
    assert_eq!(mmix.read_wstring(3001, 16), vec![0x4869, 0x0021], "read from the wyde's block");
}

#[test]
fn a_block_is_read_byte_by_byte_across_the_top_of_memory() {
    let mut mmix = MMix::new();
    mmix.write_byte(u64::MAX, 7);
    mmix.write_byte(0, 8);
    assert_eq!(mmix.read_block(u64::MAX, 3), vec![7, 8, 0]);
}

#[test]
fn the_clock_is_read_in_the_unit_asked_for() {
    assert_eq!(time_reading_of(5_123_456, 0), 5);
    assert_eq!(time_reading_of(5_123_456, 1), 5_123);
    assert_eq!(time_reading_of(5_123_456, 2), 5_123_456);
    assert_eq!(time_reading_of(5_123_456, 3), u64::MAX);
}

#[test]
fn a_finished_system_call_leaves_its_result_in_255() {
    let mut mmix = MMix::new();
    mmix.set_register(255, 1000);
    mmix.finish_host_call(TrapCode::Fputs, 1, CallOutcome::Done(12));
    assert_eq!(mmix.get_register(255), 12);
    mmix.finish_host_call(TrapCode::Fputc, 1, CallOutcome::Done(1));
    assert_eq!(mmix.get_register(255), 0);
    mmix.finish_host_call(TrapCode::Time, 0, CallOutcome::Clock(7_000_000));
    assert_eq!(mmix.get_register(255), 7);
    mmix.finish_host_call(TrapCode::Fclose, 99, CallOutcome::Failed);
    assert_eq!(mmix.get_register(255), CALL_FAILED);
    assert_eq!(CALL_FAILED, (-1i64) as u64);
    mmix.set_register(255, 42);
    mmix.finish_host_call(TrapCode::Debug, 0, CallOutcome::Silent);
    assert_eq!(mmix.get_register(255), 42);
}

#[test]
fn a_default_machine_is_a_fresh_one() {
    let m = MMix::default();
    assert_eq!(m.get_special(SpecialReg::RN), 2009);
    assert_eq!(m.get_special(SpecialReg::RG), 32);
    assert_eq!(m.get_pc(), 0);
    assert_eq!(m.memory_used(), 0);
    assert!(m.events().is_empty());
}

#[test]
fn reset_returns_a_dirtied_machine_to_its_fresh_state() {
    let mut mmix = MMix::new();
    mmix.set_register(7, 7);
    mmix.set_special(SpecialReg::RA, 1);
    mmix.write_octa(0x100, 5);
    mmix.set_pc(0x400);
    mmix.set_debug_strings(vec![b"x".to_vec()]);
    program(&mut mmix, 0x400, &[0xF900_0001]);
    assert!(!mmix.execute_instruction());
    mmix.reset();
    let fresh = MMix::new();
    assert_eq!(
        mmix.display_with(ValueFormat::Unsigned).to_text(),
        fresh.display_with(ValueFormat::Unsigned).to_text()
    );
    assert!(mmix.events().is_empty());
    assert!(mmix.debug_string(0).is_none());
    assert!(!mmix.is_loaded(0x400));
}

#[test]
fn what_tripped_is_named_by_its_event_letter() {
    assert_eq!(trip_cause_name(0x80), "D");
    assert_eq!(trip_cause_name(RA_V), "V");
    assert_eq!(trip_cause_name(0x01), "X");
    assert_eq!(trip_cause_name(0), "TRIP");
}

// ---------------------------------------------------------------- floating point

#[test]
fn a_rounding_field_picks_a_mode_or_falls_back_to_ra() {
    let mut mmix = MMix::new();
    mmix.set_special(SpecialReg::RA, 2 << 16);
    assert_eq!(mmix.rounding_mode(0), Some(2), "rA's own mode");
    assert_eq!(mmix.rounding_mode(1), Some(1));
    assert_eq!(mmix.rounding_mode(2), Some(2));
    assert_eq!(mmix.rounding_mode(3), Some(3));
    assert_eq!(mmix.rounding_mode(4), Some(0), "ROUND_NEAR is rA's mode 0");
    assert_eq!(mmix.rounding_mode(5), None);
}

#[test]
fn a_finished_float_writes_its_destination_and_records_its_bits() {
    let mut mmix = MMix::new();
    mmix.set_pc(0x100);
    let go_on = mmix.finish_float(0x04, 3, 1, 2, 1.5f64.to_bits(), 0x01, 7, 8);
    assert!(go_on);
    assert_eq!(mmix.get_register(3), 1.5f64.to_bits());
    assert_eq!(mmix.get_special(SpecialReg::RL), 4, "the destination was claimed");
    assert_eq!(mmix.get_special(SpecialReg::RA), 0x01);
    assert_eq!(mmix.get_pc(), 0x104);
}

#[test]
fn a_finished_float_trips_on_an_enabled_bit() {
    let mut mmix = MMix::new();
    mmix.set_special(SpecialReg::RA, 0x08 << 8);
    load(&mut mmix, 0x50, 0xFD00_0000);
    mmix.set_pc(0x100);
    assert!(mmix.finish_float(0x10, 1, 2, 3, f64::INFINITY.to_bits(), 0x08 | 0x01, 5, 6));
    assert_eq!(mmix.get_pc(), 0x50, "O trips");
    assert_eq!(mmix.get_special(SpecialReg::RA) & 0xFF, 0x01, "X was not enabled: it is recorded");
    assert_eq!(mmix.get_special(SpecialReg::RY), 5);
    assert_eq!(mmix.get_special(SpecialReg::RZ), 6);
}

#[test]
fn a_finished_short_float_store_reports_address_and_merged_octa() {
    let mut mmix = MMix::new();
    mmix.set_special(SpecialReg::RA, 0x08 << 8);
    load(&mut mmix, 0x50, 0xFD00_0000);
    mmix.write_octa(0x2000, 0x1111_1111_2222_2222);
    mmix.set_pc(0x100);
    assert!(mmix.finish_float_store(0xB0, 1, 2, 3, 0x2004, 0x7F80_0000, 0x08));
    assert_eq!(mmix.read_tetra(0x2004), 0x7F80_0000);
    assert_eq!(mmix.get_pc(), 0x50);
    assert_eq!(mmix.get_special(SpecialReg::RY), 0x2004);
    assert_eq!(mmix.get_special(SpecialReg::RZ), 0x1111_1111_7F80_0000);
}
