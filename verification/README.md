# vidodo

Show control for live audiovisual performances, written in Verus: the
library's behaviour is stated in `requires` / `ensures` contracts and proved.

## Layout

- `src/` — the verified library.
  - `text`, `strmap`: decimal rendering, string helpers, and a sorted
    string-keyed map whose view is a `Map`.
  - `ir`: the intermediate representation shared by the other modules.
  - `dmx`, `artnet`, `fixture_topology`, `cue_translator`, `lighting_backend`:
    DMX universes, Art-Net packets, fixture layouts, cue translation and the
    fixture-bus backend.
  - `osc`, `audio`, `scsynth_monitor`, `audio_backend`: the OSC wire format,
    scsynth node and buffer bookkeeping, command translation, acknowledgement
    and liveness tracking, status replies and the scsynth backend.
  - `capability`, `policy`: the capability table, routing, tool mappings,
    operation tickets and authorization.
  - `adapters`, `hub`: adapter and resource-hub registries, health summaries,
    the resolver cache.
  - `ipc`, `causation`, `resilience`: channels, scheduler routing, causal
    chains and runtime hang and panic tracking.
  - `patch`, `compiler`: live patch checking, application and rollback, and
    the compiler's structure, performance, visual and timeline stages and
    their assembly into a compiled revision.
  - `runtimes`, `evaluation`: runtime acknowledgements and run evaluation.
  - `cli`: argument lookup.
- `tests/` — tests of the library, run against the compiled crate.
- `app/` — ordinary Rust around the library: floating-point values and
  clocks, child processes, threads, SQLite persistence, the HTTP service,
  JSON and the analysis cache.

Times, gains and other floating-point quantities cross into the library as
the bit patterns of their values, or as integers that order them; the
arithmetic on them happens in `app/`.
