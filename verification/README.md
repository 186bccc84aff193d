# dystrail_game

The rules of Dystrail, a parody survival trail game, written as a Verus
library: each rule states its behaviour in `requires`/`ensures` and Verus
proves the code against it.

- `src/` — the verified rules: encounter selection and rotation, day
  accounting and stop caps, daily stat ticks, activities and crew care,
  hunting, camp rest and foraging, the driving clock, evidence, disease and affliction picks, crossings, the hearing
  reveal, the Oregon Trail Deluxe tables, seeded random streams, and the
  events a finished day reports. Public `lemma_*` proof functions state the
  laws that relate several rules.
- `tests/` — executable tests of the library.
- `app/` — plain Rust around the library: JSON encounter loading, storage and
  engine traits, error types, and a few float rules (bribe pricing, the Dalles
  outcome roll, disease speed multipliers). Most float rules of the game
  (crossing resolution, daily effects, the endgame controller, the hearing
  resolution) are not part of this crate.

Random draws go through `rand`'s `SmallRng` and stream seeds through
HMAC-SHA256 (`hmac`, `sha2`); those calls are the trusted edge of the proofs
and are documented where they are declared (`src/rng.rs`, `src/text.rs`,
`src/journey/seeds.rs`).
