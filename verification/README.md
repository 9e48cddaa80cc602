# music_downloader

A music downloader: it fetches songs and playlists with yt-dlp, converts them
with ffmpeg to the codec the user picked, and keeps its settings and followed
playlists in a JSON file.

`src/` is the library, verified with Verus:

- `codec` – the codecs, their names, and reading a stored name back.
- `tools` – the argument lists given to ffmpeg and yt-dlp, the file names
  derived from a title, and the reading of yt-dlp's download report.
- `sanitize` – the file-name sanitizing rules, stated exactly, and the proof
  that a sanitized name is a plain name of at most 255 characters.
- `clock` – reading the current UTC time without panicking.
- `text` – character-level helpers (trimming, splitting, decimal numbers).
- `ids` – playlist identifiers: uuid generation, their text form and parsing.
- `config` – the stored configuration and the operations on its playlists.
- `media` – the breadth-first scan of the song directory and the newest-first
  ordering of the songs found.
- `ui` – the song list and playlist panel, and how download events change them.
- `flow` – the decisions of a song download job (skip, download, retry,
  convert).

`app/` is the program around it: configuration file I/O, the yt-dlp and ffmpeg
calls, the directory listing, and the event plumbing.
