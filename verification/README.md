# csv_import

Imports a music library from a TuneMyMusic CSV export: the file is parsed and previewed, and each
track is then searched, downloaded and added to its playlist.

The decisions are in a library that is verified with Verus; the work that they call for (network,
disk, clock, page) is done around it.

- `src/text.rs`, `src/csv.rs`: lines, fields, rows, playlist names; what holds of them is in
  `src/text_laws.rs` and `src/csv_laws.rs`
- `src/score.rs`, `src/search.rs`: match scores, and the searches at the download backends
- `src/playlist.rs`, `src/scan.rs`, `src/lookup.rs`: playlists, scans and songs of the music server
- `src/track.rs`, `src/track_laws.rs`: the import of one track
- `src/batch.rs`: the import of a batch
- `src/page.rs`: what the import page shows
- `app/`: the server functions, the background tasks and the page

Taken on trust are `String::push`, `str::to_lowercase` and `uuid::Uuid::new_v4`.
