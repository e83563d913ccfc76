# iid

Index Integer Date (IID) messages: an index (`i32`), an integer (`i32`) and a
date (`u64`, milliseconds), sent over UDP as little-endian datagrams of 4
(integer), 8 (index, integer), 12 (integer, date) or 16 (index, integer,
date) bytes. A text shortcut syntax (`i:5`, `ii:1,5`, `iid:1,5,250`, or the
same numbers separated by white space) writes them by hand.

Layout:

- `src/` — the verified library (Verus):
  - `codec.rs` little-endian encoding through `byteorder`, with round-trip proofs;
  - `utility.rs` `IIDUtility`: datagram encoders, decoders, shorthands, dates
    relayed from the clock, random integers, dotted-IPv4 recognition;
  - `text.rs`, `shortcut.rs` the shortcut syntax over characters;
  - `listener.rs`, `sender.rs` the state and decisions of the receiving and
    sending sides;
  - `clock.rs`, `random.rs`, `ipv4.rs` the system clock, `rand` and `regex`.
- `app/main.rs` — the UDP program: sockets, name lookup, NTP, printing.
- `tests/` — tests of the library.
