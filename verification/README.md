# BT.2111 pattern generator

A verified library that draws the Rec. ITU-R BT.2111 HDR colour-bar pattern
(PQ or HLG levels) as 10-bit 4:2:0 frames at integer multiples of 1920x1080
and encodes them as a Y4M stream.

- `src/color.rs` – code values and the exact BT.2020 R'G'B' to Y'CbCr conversion.
- `src/levels.rs` – the signal levels for each transfer function.
- `src/layout.rs` – the pattern geometry in 2K units.
- `src/frame.rs` – planar frames, rectangle fills, pixel reads, frame records.
- `src/pattern.rs` – the pattern as a function of position, and the lemmas that
  tie a frame to it.
- `src/generator.rs` – option checking and frame generation.
- `src/y4m.rs` – the Y4M stream.
- `src/cli.rs` – the command-line grammar.
- `src/laws.rs` – properties that span several functions.
- `app/` – the command-line program (file output) and the floating-point
  PQ/HLG transfer curves.
