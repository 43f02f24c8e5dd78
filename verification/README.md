# razer_control

The reasoning of a Razer laptop control daemon and GUI for Windows, verified
with Verus, and the Windows code around it.

- `src/` — the verified library:
  - `text`: whitespace, trimming, splitting into fields and lines.
  - `numbers`: integer parsing as `str::parse` does it.
  - `float_text`: text read as `str::parse::<f32>` reads it (signs, `inf`,
    `nan`, exponents), valued in thousandths; power values are kept in
    milliwatts, not floats.
  - `gpu`: the `nvidia-smi` CSV reading, the passive-counter gate that keeps
    the discrete GPU asleep, and the daemon's GPU status cache.
  - `temps`: temperatures out of thermal-zone and storage driver replies, and
    the choice of the drive that reports one.
  - `poll`: the GUI's poll cycle, from the daemon's replies to the snapshot.
  - `gui`: tray menu actions and the GPU source label.
- `app/` — plain Rust: sensor, registry and driver I/O, the `nvidia-smi`
  process, floating-point counter values, global state and the poll thread.
- `tests/` — the tests, run against the compiled library.
