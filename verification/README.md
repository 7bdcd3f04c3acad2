# zenoh_examples

Verified pieces of a set of zenoh examples (host programs on zenoh, and an
ESP32 firmware on zenoh-pico).

- `src/` is the library, checked by Verus:
  - `decimal`: decimal notation of counters, with injectivity.
  - `c_text`: the NUL-terminated framing of strings handed to zenoh-pico and
    the decoding of received payloads, with the round-trip law.
  - `hello`: the hello key, configuration and numbered messages.
  - `ping`: the decisions of the ping task.
  - `pico`: zenoh-pico configuration keys and result codes.
  - `config`: the examples' JSON5 session configuration.
- `app/` holds the programs: `pub`, `sub` and `queryable` on a host, and the
  firmware (built only for the `espidf` target) with its zenoh-pico owners.
- `tests/` runs the library on concrete values.
