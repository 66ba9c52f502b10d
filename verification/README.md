# lemrvm_core

A verified RV32I hart: instruction decoding, execution, traps and CSR access, with
contracts proved by Verus.

- `src/bits.rs`: bit-field extraction and sign extension.
- `src/instruction.rs`: instruction formats, the decoder and its opcode table as a
  specification (`decode_spec`), and facts about decoded fields.
- `src/privilege.rs`: privilege modes and their two-bit encoding.
- `src/bus.rs`: the `Bus` trait through which a hart reaches memory, with spec functions
  naming what its reads return and what its writes leave.
- `src/hart.rs`: the hart state, its abstract view (`HartState`), the semantics of every
  instruction (`exec_spec`, `run_word`, `step_spec`), the bus access each instruction makes
  (`mem_access_spec`), the executable `step`/`step_word`/`execute`, and laws such as
  trap-then-`mret` restoring the privilege mode.
