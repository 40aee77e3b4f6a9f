# checksmix

An MMIX machine whose instructions are verified with Verus. Every
instruction's effect is stated as a function on the machine's mathematical
state (`MState`: 256 general registers, 32 special registers, a sparse
byte memory, the PC, the exit code and an event log), and the executable
machine is proved to follow it.

## Layout

- `src/word.rs`: octabyte arithmetic (signed/unsigned multiply and divide,
  shifts, byte/wyde/tetra differences, `SADD`, `MOR`/`MXOR`).
- `src/special.rs`, `src/event.rs`: special registers, rA's bits, system
  call codes, diagnostics and events.
- `src/state.rs`: the model, memory reads and writes, local-register claims.
- `src/machine.rs`: `MMix`, its view and its accessors.
- `src/integer.rs`, `src/loadstore.rs`, `src/control.rs`, `src/stack.rs`,
  `src/system.rs`, `src/exceptions.rs`: the instruction families, each a
  spec function and the code proved against it.
- `src/execute.rs`: decoding, one step, bounded runs.
- `src/display.rs`: state dumps and their text.
- `src/hostcall.rs`: what system calls read from memory and hand back.
- `src/fpu.rs`: rounding-mode selection, and the register write, store and
  exception routing that finish a floating-point instruction.
- `src/laws.rs`: properties across instructions (read-after-write, call and
  return, `SAVE`/`UNSAVE`, exception routing, refusals, resumed runs, call
  depth, floored division).
- `src/record.rs`: the event record never steers execution, so a paused
  bounded run resumes exactly.
- `app/lib.rs`: the host (output streams, clock, diagnostics) and the runner
  that performs the system calls the machine reports.
- `app/float.rs`: the floating-point arithmetic, which the runner performs
  and hands back to the library; the bare library refuses those opcodes
  with a diagnostic.
