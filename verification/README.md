# kassigner

The decision logic of KasSigner, an air-gapped offline signing device for
Kaspa, as a Verus library: every function states its behaviour in
`requires` / `ensures` and Verus proves it.

## Layout

- `src/input.rs` — the single-button menu model, the application states and
  the review/signing state machine.
- `src/hmac.rs`, `src/entropy.rs` — HMAC-SHA512 over the `sha2` digests, the
  HMAC-DRBG generator, the start-up health test of the hardware seed.
- `src/sdfile.rs`, `src/kasfile.rs` — 8.3 file names and auto-numbering,
  directory listings, hex keys, the multisig descriptor format, and the
  AES-256-GCM file container.
- `src/qrframe.rs`, `src/qrpayload.rs`, `src/qrscan.rs` — multi-frame QR
  assembly and framing, payload recognition, the camera decode pipeline
  around `rqrr`.
- `src/stealth.rs` — stealth-address scanning with `k256`.
- `src/signing.rs` — planning a signing step, seed-slot selection, hex dumps.
- `src/screens.rs` and the `*_touch.rs` modules — the touch screens: each
  handler maps the interface state and a touch to the next state and the
  work left to the caller (card access, drawing, cryptography of other
  components). `src/hold.rs` is the hold-to-confirm gesture.
- `app/` — board glue: the hardware entropy source, the shared generator,
  the gesture polling loop.
- `tests/` — concrete scenarios for every module.
