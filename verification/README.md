# before_colony

The integer logic of the Before Colony client, bot SDK, suit rig and counting allocator, written
in Verus with contracts proved over mathematical models.

Layout:

- `src/` — the verified library.
  - `hotpath`: hot-region allocation accounting.
  - `hex`, `endpoint`: certificate hashes and the dev server's advertised endpoint.
  - `history`, `schedule`: the commands sent, and when and how they are sent.
  - `track`, `entities`, `beams`, `ledger`, `world`: the client's model of the sector, built from
    snapshots (remote entities' samples, beams in flight, events taken in).
  - `session`, `shots`: the handshake, and the own shots drawn before the server confirms them.
  - `salvage`, `miner`: the hold, and the miner agent's decisions.
  - `rig`, `wear`: the suit skeleton and battle damage.
  - `paint`, `tags`, `grid`, `livery`, `names`, `hud`: shader parameters, mesh indices, liveries,
    the names people type, and the HUD's special line.
- `tests/` — tests run against the compiled library.
- `app/` — what cannot be verified: the global allocator, the bots' WebTransport client, the
  browser's launch configuration, the floating-point clock, interpolation and HUD timers, the
  miner's settings, and the procedural suit meshes.
