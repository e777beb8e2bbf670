# sliver

Sliver puts widgets and scripts on the Touch Bar of an Apple Silicon MacBook. One
process, the broker, owns the hardware and lends it to the supervisor of whoever is
logged in; the supervisor runs that user's script in a worker of its own.

The rules by which these processes deal with each other are a library that Verus checks.
What it takes to run them (sockets, shared memory, the screen, Lua) is ordinary Rust
around it.

## Layout

- `src/`: the library. Every function has a contract, and every contract is proved.
  - The strip: `config`, `editor`, `daemon`, `local_time`.
  - The hardware and its input: `hardware`, `held_input`, `fake_touch_bar`.
  - Lending the hardware: `authorization`, `broker_wire`, `broker_ipc`, `broker_client`,
    `broker_server`, `broker_connection`, `broker_loop`, `broker_laws`, `batch_laws`,
    `failures`, `supervisor`, `service_files`.
  - Selecting a source: `cli`, `apply_ipc`.
  - Frames between processes: `frame_slots`, `shared_frames`, `shared_laws`,
    `frame_records`.
  - Raw observations: `events`, `record_layout`, `record_codec`, `observer`,
    `capture_storage`, `timing`, `broker_source`, `marker`.
  - Measured attempts: `fixture_model`, `fixture`, `fixture_laws`, `coordinator`.
  - Handing storage to processes that start: `bootstrap`, `provisioning`,
    `provisioning_laws`, `startup`, `path_walk`.
  - Bytes, numbers and texts: `bytes`, `decimal`, `text`.
- `tests/`: what the library does on given values.
- `app/`: the programs around the library.

## How it is stated

A type with state has a view, and each of its operations says which view follows from
which. What a library function cannot know it is told: a reading of the clock is there or
is not, and comes with its error where that is reported; the answers of the session
manager are a struct, and a floating-point number of the device is its bits.

Words for shared memory come out of the library as an ordered list of single writes, so
that the laws on interrupted writers hold at every point between two of them.

Proof functions whose names start with `law_` state what holds of several operations
together: that what is written is read back, that every publication ends once, that a
failure is final.

Four calls are believed to do what they document. Two are of the standard library, one
that says whether bytes are text and one that trims a text (`src/text.rs`); the other two
say what time it is here and write a time in a format (`src/local_time.rs`).
