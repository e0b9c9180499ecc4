# gled

The control logic of gled, a tool for spatial light animations, as a Verus
library: every function in `src/` carries a contract that Verus proves,
except four small trusted wrappers whose contracts are believed: around
`String::push` and `str::to_lowercase` (in `src/text.rs`), `uuid::Uuid::parse_str` (in `src/ids.rs`) and
`rosc::decoder::decode_udp` (in `src/osc/wire.rs`).

- `src/osc/`: the OSC remote-control API (datagram decoding, address grammar,
  argument decoding, state-feedback subscriptions and the feedback messages).
- `src/midi/`: MIDI controller handling (APC40 layouts, learn mode, the
  runtime that maps messages to actions, output values, port monitoring).
- `src/output_merge.rs`, `src/output_routings.rs`, `src/positions.rs`: what goes
  out to Art-Net and DMX devices.
- `src/artnet_input.rs`: where received Art-Net data goes.
- `src/input.rs`, `src/external_control.rs`, `src/adsr.rs`: keyboard, gamepad
  and Art-Net input, DMX scene control, the envelope state machine.
- `src/audio.rs`: audio device labels and capture-device selection.
- `src/pipeline/`, `src/project.rs`: scene instances, groups and their colours.
- `src/niri.rs`: pausing painting while the niri compositor hides the window.
- `src/pair_table.rs`, `src/ring_buffer.rs`, `src/text.rs`: the small data
  structures and text routines the rest is built on.
- `app/main.rs`: a headless OSC bridge around the library (sockets, clock,
  argument handling); not verified.
- `tests/`: tests of the library on concrete values.

Keyed tables are `KeyTable` (`src/pair_table.rs`), a list of pairs with no
key twice, in place of std `HashMap`: its contracts speak of every key for
any key type with an exact equality (the tuple, enum and struct keys used
here), and it keeps insertion order where the results depend on order.

Floating-point values cross the library as their bit patterns; what needs
float arithmetic, the GPU or the GUI stays outside it.
