# multi_codec

Multicodec identifiers, verified with Verus.

- `src/types.rs`: `CodecCode` (a numeric code) and `CodecName` (a codec name),
  their conversions and their display forms.
- `src/order.rs`: codes are ordered as the numbers they hold, names as their
  UTF-8 bytes.
- `src/text.rs`: digits of numbers in a base, and the proof that they read back
  as the number.
- `src/error.rs`: the library's `Error`, its kind, context line and message.
- `src/varint.rs`: the unsigned-varint bytes of a code, with proofs that an
  encoding is one to ten bytes long, marks its own end, is minimal, reads back
  as the code, and determines it.
- `app/`: the same types with `Display`, `LowerHex`, `UpperHex` and
  `std::error::Error`, drawing all text from the library.
