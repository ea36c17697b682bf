# deezy

The core of Deezy, a desktop Deezer downloader, as a library verified with
Verus, with the desktop plumbing around it.

- `src/` — the verified library. Each function states its result in its
  contract; the laws that span functions are public proof functions.
  - `text` — characters, decimal numbers, parsing, trimming, UTF-8 lengths.
  - `urls` — Deezer links and the hosts the HTTP client may reach.
  - `session` — signing in from the account data; refreshes and retries.
  - `catalog` — search results, album, artist and playlist listings.
  - `quality` — quality codes, extensions and fallbacks.
  - `resolve` — choosing the URL a track is downloaded from.
  - `response` — reading a response body under a size cap.
  - `download` — the stripe decoder of the download stream, size limits,
    temporary and numbered file names.
  - `registry` — the downloads in flight, one per track.
  - `paths` — file-name cleaning and the folder layouts.
  - `track` — the fields of a track record.
  - `tags` — FLAC tags: the tag editor's edits, the tags a download
    receives, and what the editor shows of a file of either format.
  - `mp3` — ID3 tags: the frames the editor and downloads write, what the
    editor reads from them, and what a fresh read gives back after an edit.
  - `media` — cover art ids, URLs, image types and data URLs.
  - `history` — the download history's limits and CSV export.
  - `settings` — settings, validation, search history, the ARL's storage.
  - `grants` — which files and folders the user has approved.
- Collections: the downloads in flight (`registry`) and the approved files
  and folders (`grants`) are keyed by text (track ids, paths). Verus
  specifies `HashMap` and `HashSet` well only for integer keys; with a
  `String` key nothing about the contents can be proved. So both are kept as
  a `Vec` with the invariant that no key occurs twice, and their contracts
  are stated over a sequence or a set of keys.
- `app/` — the commands the user interface calls: HTTP, files, the
  credential store, and events.
- `tests/` — tests of the library on concrete values.

Not part of this crate:

- the theme commands: the theme store they rest on is not part of this
  project;
- the system tray commands, which are window plumbing of the desktop shell;
- the playlist-title command: the client method it calls is not part of this
  project;
- the Blowfish track cipher: it is not part of this project, so `app/`
  declares the `TrackCipher` trait that the download loop uses and leaves its
  implementation to the shell that embeds the crate.
