# cirrus

A data-acquisition run engine and device framework. The logic is a library whose
behaviour is stated in contracts and proved by Verus; a thin program around it does
the I/O.

- `src/` is the library.
  - `compose`, `bundler`, `documents`: the documents of a run and how they number,
    describe and bundle readings.
  - `engine`: the run engine as a state machine. The host asks it what to do next,
    performs the operation and hands back the reply. `engine/laws.rs` collects what
    holds of every run, `engine/call.rs` what holds of a run call from its beginning to
    its end.
  - `device`, `signal`, `soft`, `mock`, `detector`, `soft_detector`, `ca`, `pva`:
    devices, signals and their backends.
  - `envelope`, `tiled`, `checkpoint_store`, `sinks`, `client`: what is sent, stored
    and asked for, up to the bytes.
  - `lua_*`, `manager*`, `repl`: scripts, the queue server's setup, the prompt.
  - `derive`: the shape of the code that exposes a device's methods to scripts.
  - `codec`: JSON, msgpack, UTF-8 and addresses, behind wrappers around the crates
    that read and write them.
- `tests/` runs the library on concrete values.
- `app/` is the `cirrus` command: sockets, files, the runtime, the script interpreter.

Floating-point numbers are carried by their bit patterns; devices, callbacks and
plans are carried by handles that the host resolves. Times are passed in.
