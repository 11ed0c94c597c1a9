# gzip_decoder

A decoder of the gzip member header (RFC 1952), verified with Verus.

- `src/format.rs` states the header format as functions on bytes: the fixed header, the
  optional fields FEXTRA, FNAME, FCOMMENT and FHCRC, the error each malformed header gives,
  and the laws proved of them (the payload after a header never changes how it is read; a
  header CRC-16 computed over the preceding header bytes is accepted).
- `src/parser.rs` holds `Decoder`, which reads the header step by step; each step is proved
  to compute what `format.rs` states.
- `src/input.rs` is the in-memory byte reader the decoder reads from.
- `src/helper.rs` gives CRC-32 and the header CRC-16, computed by the `crc` crate.
- `src/deflate/lz77.rs` holds the LZ77 limits and the 3-byte match hash.
- `src/gzip/` holds a second, stream-level set of header types and errors.
- `app/` is the program, and the error types with their messages (`thiserror`).
