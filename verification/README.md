# jellyfin_pulga

A toolkit for a Jellyfin media server: it finds junk files in media folders,
checks media files with `ffprobe`, tags problem items in Jellyfin for review,
deploys its web UI to the media host with Docker, and serves chat, private
messages and content reports.

The library under `src/` holds the logic, verified with Verus:

- `text` — characters, lines, trimming, replacing, numbers, joining;
- `shell` — quoting for the POSIX shell, with the proof that the shell reads
  back exactly the quoted (non-empty) text;
- `order` — the order of texts and of paths, and a verified insertion sort;
- `config` — the configuration model;
- `executor` — commands for the media host and the reading of their output;
- `junk` — recognising junk files;
- `media` — judging media files by what `ffprobe` reports;
- `api` — the Jellyfin data model and requests;
- `chat` — chat, messages and reports;
- `review` — tagging for review and the exported lists;
- `deploy` — the deployment conversation as a state machine, with proofs
  that every failure ends it and that it always ends.

The program under `app/` does the input and output: the command line, files,
processes, HTTP (to Jellyfin and for the web UI) and the SQLite store.
