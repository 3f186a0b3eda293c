# esp-hal-mbedtls

Reusable glue between `esp-hal` and `mbedtls-rs`, with its decisions and computations
verified by Verus.

The crate intentionally separates TLS mechanics from application policy. It provides
the ESP hardware RNG adapter, MbedTLS time hooks and singleton initialization,
certificate/key validation, server configuration construction, and Embassy networking
and picoserve adapters. It does **not** own certificate or CA persistence, NVS
namespaces or keys, SNTP synchronization policy, application HTTP routes, or
reconnect/backoff policy.

## Layout

- `src/` is the verified library. Where MbedTLS or the network has to act, it returns
  a state that names the operation that is due and the values it takes; the caller
  performs it and resumes the state with the outcome.
- `app/` performs those operations on the device: the hardware RNG, the MbedTLS calls
  and hooks, DNS, TCP and TLS sessions, and the picoserve socket.
- `tests/` runs the library on concrete values.

## Trust

Two functions outside the library are taken at their word, each behind a wrapper whose
documentation says what is claimed: `embassy_time::Instant::as_millis` (in `timer`) and
`core::str::from_utf8` (in `client`).

## TLS profile

TLS 1.2/1.3, ECDHE/ECDSA P-256, SHA-256/SHA-512, AES/GCM/CBC and ChaCha20-Poly1305,
with 16 KiB inbound and 2 KiB outbound record buffers.

## License

MIT.
