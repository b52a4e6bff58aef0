# Ferris on Air

An IEEE 802.11 stack for radios that serve several virtual interfaces at once, with a station and
an AWDL (Apple Wireless Direct Link) interface on top. The logic is written in Verus: what each
function does is stated in its contract and proved.

- `src/` is the library. It consists of state machines that never block: they say what to transmit
  and what to wait for, and take what happened as an argument.
- `tests/` runs the library, with the radio played by the tests.
- `app/` drives the library: it performs the transmissions, waits for frames and deadlines, and
  connects the interfaces to `embassy_net`. The radio itself is behind a trait.

Frames are parsed and serialized by the `ieee80211`, `llc-rs`, `ethernet`, `awdl-frame-parser` and
`smoltcp` crates. The library states what it relies on in the contracts of the functions that call
them, which are marked `external_body`.
