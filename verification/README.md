# rawspeed (verified parts)

Building blocks of a raw image decoder, with their behaviour stated in
Verus contracts and proved:

- `endianness`: byte order, byte swapping of 16/32/64-bit values, the host's
  byte order.
- `bitstream`, `bitstreamflow`: bit orders and the bit cache that takes bits
  in at the low end and hands them out at the high end.
- `bitvacuumer`: collects bits most significant first and writes them out as
  32-bit chunks in the chunk's byte order.
- `array2d`: a mutable two-dimensional view of a slice (rows, pitch, element
  access).
- `rawdemuxer`, `rawparser`: the demuxer interface and the choice of demuxer.
- `loop_xform`: the `enable_loop_xforms!` macro's logic on token trees —
  reading `#[loop_unroll(method(..), factor(..))]` / `#[loop_peel(..)]`, the
  loop it stands on, and unrolling or peeling it.

`src/` is the verified library. `app/` holds what stays outside Verus: the
conversion between `proc_macro2` token streams and the library's tokens, a
vacuumer that writes to a `std::io::Write`, and `Display` for errors.
`tests/` runs the library on concrete inputs.
