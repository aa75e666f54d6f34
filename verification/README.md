# flux

Verified core of the FLUX constraint tooling.

- `src/word.rs`: binary64 words, the request/reply protocol through which a
  host computes the numeric primitives, little-endian byte layout.
- `src/stack.rs`: the operand stack and local slots both interpreters share.
- `src/bytecode.rs`: FLUX-C opcodes and the 13-byte instruction encoding,
  with the decode/encode round trip.
- `src/wasm_vm.rs`: the interpreter of decoded instructions, its step
  semantics, and its laws, per step and over whole runs driven by a host
  function (termination within the cycle budget, counters, halting, budget
  splitting, runs depending only on code and inputs).
- `src/service_vm.rs`: the compact byte-stream interpreter of the
  verification service, with the same kind of laws (a run ends, its counts
  are bounded by the code's check and assert bytes, its stack by the code's
  length).
- `src/store.rs`: violation rows of the constraint history store and their
  RFC 3339 timestamps (through chrono).
- `app/`: the binary64 host, the loops that drive the interpreters, and the
  SQLite store (rusqlite, serde).
