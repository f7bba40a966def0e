# squid_downloader

The verified core of a command-line music downloader: the rules that turn
service answers into tracks and download plans, match CSV rows to catalogue
tracks, pace and retry requests, size the pool of concurrent downloads, and
keep the resumable record of a CSV import. The functions of `src/` carry
contracts that Verus proves, with one exception: the calls into `std` and the
outside crates (tokio, regex, sanitize-filename, base64, form_urlencoded,
chrono) are made by small wrappers marked `#[verifier::external_body]`, whose
contracts restate what those crates document or their source shows and are
trusted, not proved. The same holds of `SlotSemaphore` in `src/adaptive.rs`,
which holds the tokio semaphore and counts, in a name that only its wrappers
speak of, the permits given to it.

Layout:

- `src/text.rs` — text operations with specifications (trimming, splitting,
  searching, decimal numbers), and the case mappings of `std`.
- `src/types.rs` — qualities, services, tracks, albums, playlists, manifests.
- `src/error.rs` — the error type, its headings, messages and retry class.
- `src/retry.rs` — back-off schedule, retry decisions, match pacing, requeue.
- `src/adaptive.rs` — the adaptive concurrency controller over a tokio
  semaphore.
- `src/progress.rs` — the resumable import record.
- `src/download.rs` — file naming and placement, extensions, fetch plans.
- `src/tidal.rs` — API hosts, endpoints, records, manifest decoding and MPD
  parsing.
- `src/matching.rs` — CSV rows, the searches of a match and their order,
  candidate lists, and the facts a match score is computed from.
- `src/commands.rs` — option parsing, title cleaning, and reading answers.
- `app/` — the program around the library: command line, HTTP, files,
  progress bars, tags, and the floating-point match score.
