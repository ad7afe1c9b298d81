# x87 register stack, verified

A model of the x87 floating-point unit's state — eight 80-bit registers, the
stack pointer, the emptiness mask, the status, control and tag words and the
last-instruction pointers — and of the instructions that move values in and
out of it, with every operation's effect stated as a transition of that
model and proved.

Registers may hold a value in either of two forms: the 80-bit format, or a
double tagged by the exponent word `0x7FFE`, which generated code reads and
writes inline. A value whose own exponent word is `0x7FFE` (such as
2^16383) is marked, in a full register, as a literal 80-bit value, so that
the library's readers never take it for a tagged double; code outside the
library that reads the exponent word alone cannot see that mark. The
library proves that the forms agree: a value written to a full register
reads back exactly, it is tagged exactly when the register is full and a
double holds it, and no register marked empty ever holds the word
`0x7FFE`. Each write notes, for a report, whether the double format held
the value.

## Layout

- `src/f80.rs` — the 80-bit format as two words; exact widening from doubles,
  singles and integers; the inverse that finds the double (if any) that
  widens to a given value.
- `src/state.rs` — `FpuState`, its model `FpuModel`, and the stack
  operations: reads with stack faults, writes, push, pop, the status and
  control words, reset.
- `src/tags.rs` — the tag word, loaded and stored.
- `src/le.rs`, `src/env.rs` — memory images: 80-bit values, the 16- and
  32-bit environments, the 108-byte save area.
- `src/ops.rs` — loads, moves, `fxtract`, `ftst`, `fxam`, the inline arm's
  operand and result tests.
- `src/arith.rs`, `src/results.rs` — condition codes and EFLAGS from
  compares, where arithmetic results go, narrowing to 16 bits, packed
  decimal, and the integer parts of `fprem` and `fscale`.
- `src/computed.rs` — what the unit does with the values the float library
  computes: the end of `fprem`, the logarithms, `fpatan`, `fptan`, `fsin`,
  `fcos` and `fsincos`, and which way `fscale` computes its result.
- `src/laws.rs` — properties across operations: read-back of writes, push
  then read, status and tag word round trips, environment and save-area
  round trips, the packed-decimal digits, the `fscale` steps.
- `app/lib.rs` — the instructions as the emulator runs them: memory that
  can fault, the CPU outside the unit, and the extended-precision float
  library and host doubles that do the arithmetic.
