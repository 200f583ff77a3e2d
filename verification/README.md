# oxurack

Modular MIDI generation with a Eurorack mental model: modules with typed
ports, patched by cables, ticked in dependency order, talking MIDI to the
outside world through a real-time thread. One module, a Turing Machine,
turns a looping shift register into quantised notes.

## Layout

- `src/` is the library, written in Verus. Its functions carry contracts
  that Verus proves, except the trusted items listed below, whose
  contracts are believed; the laws that hold across calls (MIDI round
  trips, quantiser uniqueness, topological tick order, cycle reports,
  locked-loop repetition, the clock's freedom from drift, ...) are public
  proof functions named `law_*`.
  - `midi`: the structured and the 4-byte wire form of MIDI messages.
  - `port`, `module`, `names`, `error`, `text`: port and module metadata,
    name ordering, errors and their messages.
  - `graph`, `patch`, `tick`, `propagation`, `cable_index`: patch
    validation, cycle detection, tick and propagation order, the cable
    index.
  - `scale`, `quantizer`, `shift_register`, `length`, `clock_divider`,
    `turing`, `turing_midi`: the Turing Machine and what it sends.
  - `rt`, `ports`, `event`: the real-time side's byte classification,
    clocks, port selection and health, and the events it hands over.
- `app/` is ordinary Rust around the library: the Bevy plugin and systems,
  signal values and merging (floating point), patch files (serde and RON),
  MIDI I/O, timing, and the Turing Machine's random write knob.
- `tests/` runs the library on concrete values.

## Trusted items

These calls into std and outside crates are not verified; Verus believes
their contracts, which say no more than the called code's source or
documentation shows.

- `module.rs`: `random_state_with_seeds`, `ahasher_from_state`,
  `ahasher_write_u64`, `ahasher_write_str`, `ahasher_finish` (ahash's
  `RandomState::with_seeds`, `build_hasher` and `AHasher`; nothing is
  stated of their results, as ahash does not specify its hash values), and
  the declared types `ExRandomState`, `ExAHasher`. So `derive_seed` and
  `ModuleId::from_instance_name`, which hash under fixed keys and give the
  same value in every run of a build, state nothing of that value.
- `shift_register.rs`: `random_u16` (rand's `random` on a `SmallRng`,
  nothing stated) and the declared type `ExSmallRng`; so
  `ShiftRegister::new_random` states nothing of its bits.
- `cable_index.rs`: the struct `EntityList` around smallvec's `SmallVec`,
  its contents `listed`, and `list_new`, `list_push`, `list_remove_all`,
  `list_as_slice`.
- `ports.rs`: `to_lower` (`str::to_lowercase`, with its result named
  `lowercase`).
- `error.rs`: `debug_list_text` (`Debug` of `Vec<String>`, its result named
  `debug_list`), `io_error_text` (`Display` of `std::io::Error`, nothing
  stated) and the declared type `ExIoError`.
- `quantizer.rs`: the specifications of `RangeInclusive::start`, `end` and
  `clone`.
