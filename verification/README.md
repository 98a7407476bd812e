# bsize

Byte sizes as typed values: `ByteSize<T>` wraps a `u8`, `u16`, `u32`, `u64` or `usize` byte
count, with unit constructors (`kb`, `kib`, ... `eib`), addition and subtraction, parsing from
text such as `"1.5 KiB"` or `"521 TB"`, and the exact text of a count (`"1536 B"`).

The library in `src/` is verified with Verus:

* `src/parse.rs` states what a size text stands for (`spec_parse_size`): surrounding spaces and
  a final `B` are dropped, a decimal or binary unit prefix sets the multiplier, and the number,
  integer part and decimal fraction, is multiplied by it and rounded once to the nearest byte,
  halves up. The parser, including its shortcut for long fractions, is proved to compute exactly
  that, and to report the error that the text calls for.
* `src/digits.rs` holds the arithmetic of decimal digit strings and of the rounding.
* `src/impls.rs`, `src/ops.rs` and `src/traits.rs` give constructors, accessors, arithmetic and
  unit constants, each with its contract.
  The terabyte-and-larger unit constants of `usize` are exact where `usize` has 64 bits; where
  it has 32 bits they are truncated, so use a `u64` backing type there.
* `src/display.rs` holds the display options and the decisions of human-readable formatting
  (unit labels, fixed scales, padding).
* `src/laws.rs` proves properties of the whole: parsing the text of a count gives it back;
  spaces around a size, letter case, and a trailing fraction zero do not matter; fraction
  digits beyond those that can decide the rounding do not matter.

`app/` holds what is left to plain Rust: the floating-point human-readable formatter, the
floating-point unit accessors, and serde support.
