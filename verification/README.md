# bilibili_transcript

The logic of a desktop tool that downloads Bilibili videos and audio with
yt-dlp and ffmpeg, written in Verus and proved against its contracts.

- `src/` — the verified library:
  - `text.rs`: a character-level model of the string operations used on tool
    output (`find`, `split`, `lines`, `trim`, `split_whitespace`, `join`);
  - `resolver.rs`: the search for yt-dlp and ffmpeg (environment variable,
    `where`/`which`, usual install locations, installation, second look) as a
    state machine, with its laws (it ends, it keeps its order, it reports a
    path only once the system confirmed it);
  - `progress.rs`, `locate.rs`: reading yt-dlp's output — progress lines and the
    path of the file it wrote;
  - `ytdlp.rs`: the command lines given to yt-dlp and ffmpeg and what is made
    of their results;
  - `pattern.rs`: removing yt-dlp's `.f<digits>` format suffix (regex crate);
  - `cookie.rs`, `formats.rs` (serde_json), `tasks.rs` (shellexpand), and
    `paths.rs` (what `std::path` computes, and whether a file is on disk).
- `app/` — the program around it: processes, files, the window (Tauri).
- `tests/` — tests of the library on concrete values.
