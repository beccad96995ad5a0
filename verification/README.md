# ylong_http

HTTP protocol components, verified with Verus: HTTP/1.1 request encoding and
response decoding, HTTP/2 framing, HPACK header compression with its Huffman
code, and message bodies (plain, empty, chunked, `multipart/form-data`).

Layout of `src/`:

- `h1/` — `RequestEncoder` (request head into buffers of any size) and
  `ResponseDecoder` (status line and header lines, in segments).
- `h2/` — frames (`frame.rs`), `FrameEncoder`, `FrameDecoder`, error codes,
  header block parts; `hpack/` holds integers, string and field
  representations, the static and dynamic tables, `HpackEncoder` and
  `HpackDecoder`.
- `huffman.rs` — the HPACK Huffman code.
- `body/` — `TextBody` and `TextBodyDecoder`, `EmptyBody`, `ChunkBody` and
  `ChunkBodyDecoder`, trailer parsing, media types and multipart messages.
- `headers.rs`, `pseudo.rs`, `request.rs`, `response.rs`, `bytes.rs`,
  `error.rs` — field lines, pseudo headers, message parts and helpers.

Each public function states its result in its `ensures`. Properties that
relate several functions are proof functions:

- `huffman_readback::lemma_huffman_readback` — decoding the Huffman code of
  a string gives the string.
- `h2::hpack::readback::lemma_block_readback` — a header block written by the
  HPACK encoder is read back by a decoder with the same table, which then
  holds the encoder's table; `lemma_update_block_readback` does the same
  for a block that starts with a dynamic table size update;
  `lemma_sent_fields_are_fields` says that the fields read are the fields
  written, and `lemma_parts_fields_read_back`
  that those fields rebuild the header block.
- `h2::readback::lemma_control_frame_readback`,
  `h2::readback::lemma_data_frame_readback`,
  `h2::readback::lemma_headers_frame_readback`,
  `h2::readback::lemma_long_headers_readback` — frames written by the frame
  encoder are read back by the frame decoder: DATA longer than a frame in
  consecutive pieces, header blocks longer than a frame through
  CONTINUATION frames.
- `h2::readback::lemma_decode_in_pieces` — the frame decoder gives the
  same frames, state or error whatever pieces its input comes in;
  `h2::readback::lemma_data_items_shape` — the DATA frames written for a
  maximum frame size: how many, of what lengths, carrying what.
- `bytes::lemma_written_in_pieces` — encoders that write as much as fits
  produce the same octets whatever the sizes of the output buffers.
- `h2::hpack::readback::lemma_table_fits` — the HPACK table stays within
  its size limit; `lemma_index_matches` — an index found names an entry
  that holds the field (or its name).
- `body::mime::mimetype::lemma_parsed_mime_ascii`,
  `lemma_extension_type_ascii` — media types are ASCII, so their text is
  their octets.
- `h2::hpack::fragments::lemma_fragment_readback` — a header block cut into
  fragments anywhere is read field by field as the fragments come.
- `body::chunk_readback::lemma_chunk_readback`,
  `body::chunk_readback::lemma_chunk_trailer_readback` — chunked bodies
  written by `ChunkBody` are read back by `ChunkBodyDecoder`.
- `h2::hpack::integer::lemma_int_roundtrip`,
  `h2::error::lemma_error_code_roundtrip`, `h2::frame::lemma_flag_set_get`,
  `headers::lemma_insert_then_get`, `headers::lemma_append_then_get`,
  `headers::lemma_names_stay_unique`, `body::text::lemma_text_split`,
  `body::mime::simple::lemma_total_bytes_is_message_len`.

Tests are under `tests/`.
