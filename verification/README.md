# hls_m3u8

A parser and generator for HLS m3u8 playlists (RFC 8216), written in Verus.

Every tag, the media segment, and the media and master playlists have a
mathematical model (a view over `Seq`, `Option` and integers), a spec function
for the text they are written as, and a spec function for what a line of text
reads as. The executable `write`, `to_string`, `try_from` and `parse` functions
are proved to compute exactly these, and the builders are proved to accept
exactly the inputs that the validation rules allow.

Layout:

- `src/text.rs`, `src/attribute.rs`, `src/line.rs`: characters, decimal numbers,
  attribute lists and the classification of lines.
- `src/types/`: the value types of attributes (byte ranges, durations, keys,
  resolutions, decimal numbers, ...).
- `src/tags/`: one type per tag, with its text, its reading and its version.
- `src/media_segment.rs`, `src/media_playlist.rs`, `src/master_playlist.rs`: the
  segments and playlists, their builders, validation, writing and reading.
- `src/master_text.rs`: the text of a master playlist item by item, and the proof that
  reading it gives the playlist back.
- `src/slots.rs`: the numbered slots in which a media playlist builder keeps its
  segments, held in a `stable_vec::StableVec`.
- `app/`: reading playlists from an `std::io::Read`, and `Display` for printing.
