# iris_devices

Devices and debugger pieces of an SGI Indy (MIPS R4400) emulator, written in
Verus. The library's functions carry contracts that Verus proves; the calls
into the `toml` crate and into std's Unicode tables are trusted wrappers whose
contracts say what those calls are relied on for.

## Layout

- `src/` — the verified library.
  - `traits` — bus, DMA and device interfaces.
  - `prom`, `timer` — the boot PROM and the interval timer.
  - `bt445`, `cmap`, `xmap9` — the video chips' register files, with
    read-after-write laws for their palettes and mode table.
  - `exp` — the debugger's expression language: lexer, parser, constant
    folding (proved to keep the value and to be idempotent) and evaluation.
  - `hptimer` — bookkeeping of the high-precision timer manager: the slot
    arena with generation-tagged ids, the expiry queue, and the worker's
    decisions.
  - `jit` — JIT decisions: block tiers and promotion, block tracing, the
    dispatch loop's probes and count register, the profile image format,
    and CPU rollback snapshots.
  - `snapshot` — the hex encodings of saved machine state and the TOML text
    of its register files (parsed and rendered by the `toml` crate).
  - `monitor`, `locks` — how a monitor command line is read, the text of
    the `locks` report, and when lock states are asked for.
  - `platform` — host FPU register arithmetic and timer calibration.
  - `text`, `mips` — character helpers and the CPU register model the
    others use.
- `app/` — the host side: locks and threads, the monitor's TCP server, reading
  and writing files, host registers, and status printing, calling the library
  for every decision.
- `tests/` — tests of the library on concrete values.
