# digimorse

Digital Morse: Morse keying is timed, source-encoded, protected with a CRC and a low-density
parity-check code, and played back as tones. This crate is the verified core of it, written in
Verus: the library's functions carry contracts that Verus proves. The calls into outside crates
(`labrador-ldpc`, `sparse-bin-mat`, `bitvec`, `dashmap`) stand behind small trusted wrappers
whose contracts state what those crates do.

Layout:

- `src/` — the library, verified.
  - `channel_codec` — Gray code, CRC-14, message packing, the LDPC encoder and decoder (through
    `labrador-ldpc`), and the matrix text formats (through `sparse-bin-mat`).
  - `keyer_io` — keying events and the byte protocol of the Arduino keyer.
  - `audio` — the tone generator's channel table and audio device choices.
  - `playback` — scheduling decoded frames onto tone channels.
  - `buffer_pool`, `patterns`, `matchers`, `util` — supporting structures and text.
  - `application`, `gui`, `config_file`, `conversion`, `source_codec` — wiring rules, GUI message
    handling, settings, text-to-keying conversion and source encodings.
- `tests/` — the tests, run against the compiled library.
- `app/` — the program around the library: command line, files, serial port, audio streams and
  threads. It is ordinary Rust and is not verified.
