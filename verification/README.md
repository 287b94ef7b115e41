# byteflow

A small bytecode virtual machine with a work-stealing scheduler of light
processes (flows) that exchange messages, written and verified with Verus.

Flows address each other by capabilities only. The scheduler stamps every
message with its true sender, delivers it or makes the sender wait for room,
matches replies to requests, and tells monitors, linked flows, askers and
supervisors when a flow ends.

## Layout

- `src/bytecode`: instructions, values, modules, their assembler and their
  verifier.
- `src/vm`: the interpreter. `semantics.rs` says what each instruction does;
  `machine.rs` is proved to do it.
- `src/scheduler`: mailboxes, tables, timers, supervision, and the decisions of
  a worker. `model.rs` describes the whole state and every transition; the code
  in `worker.rs`, `quantum.rs`, `finalize.rs` and `runtime.rs` is proved to take
  exactly these transitions; `soundness.rs` shows that every step leaves a sound
  state: its tables are in order (`order.rs`) and speak of live flows only
  (`living.rs`), every live flow is in exactly one place (`places.rs`,
  `moves.rs`), and who waits for a reply waits for a live flow (`replies.rs`);
  `laws.rs` and `endings.rs` state what follows.
- `src/samples.rs`: sample modules with their exact listings.
- `src/jit`: the data that compiled traces and the interpreter share.
- `src/log.rs`, `src/output.rs`, `src/cli.rs`, `src/natives.rs`: diagnostics,
  printing, the command line's choices and the standard natives.
- `tests`: tests of the library, with a driver that runs all flows on one
  thread.
- `app`: the host program. It has the threads, the clock, the output, floating
  point and the compiler's module.

## What is trusted

The run queues of `crossbeam_deque` (`src/scheduler/queues.rs`), the number of
processors (`src/scheduler/runtime.rs`), and two string functions of the
standard library (`src/log.rs`) are called through functions whose contracts
are not proved. Each says what it claims.
