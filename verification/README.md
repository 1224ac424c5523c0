# concat

The verified core of the editor's small text helpers, written in Verus.

- `src/filters.rs` - the FFmpeg filters a package's chain may name, a
  binary search over them, and the proof that the list is sorted.
- `src/colour.rs` - colours read from "#rrggbb"-style text and spelled
  back, with the proofs that spelling and reading undo each other.
- `src/phrase.rs` - "just now", "3 days ago": how long ago a moment was.
- `src/timecode.rs` - a frame count as hh:mm:ss:ff.
- `src/wave.rs` - the waveform's drawing type and its column count.
- `src/text.rs` - white space as `str::trim` sees it, decimal and
  hexadecimal spelling.
- `app/` - the Slint-facing functions and the readouts that are worked out
  in floating point, calling the library for the rest.
