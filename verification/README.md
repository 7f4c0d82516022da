# couchlink

The decision and wire-format core of a couch-co-op streaming host: a host PC
captures a game, encodes it to H.264 and streams it to remote players' browsers,
who send their controller state back to virtual pads the emulator reads.

`src/` is verified with Verus:

- `proto/` — the wire formats: CLPD pad frames, CLVD video fragments with their
  XOR parity repair, STUN binding requests and responses, little/big-endian
  helpers and the text helpers the parsers share.
- `pad/` — controller report parsers (DualSense, DualShock 4, Xbox, Switch,
  Steam), controller recognition, simulated reports, the DualSense output report,
  the VHID companion framing, UHID events and the virtual pad's backend choice.
- `host/` — the frame loop's skip / keyframe / relay-pacing decisions, the link
  governor and its encoder ladder, the per-peer video path and
  fan-out decisions, capture-link bookkeeping, BGRA scaling, BGRA→I420 and
  Annex-B framing, motion detection, cursor blending, emulator keymap and config
  edits, the invite URL, the WireGuard endpoint rewrite and the signaling
  supervisor's state machine.

`app/` is the unverified program around it: settings and environment, file and
socket I/O, the OpenH264 encoder, serde message types, float timing figures.
`tests/` exercise the library from outside.
