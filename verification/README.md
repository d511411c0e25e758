# tuneterm

The verified core of a music player for the terminal. What the player decides or
computes on whole numbers and on text is in `src/`, with contracts that Verus proves.
What talks to the network, to child processes, to the terminal and to the disk is in
`app/`, and so is what is computed in floating point and not verified: the analysis of
sound behind the spectrum, and the progress as a fraction.

- `src/queue.rs`, `src/queue_laws.rs`: the playback queue, its shuffle, repeat and
  radio modes, snapshots, and the laws that hold of them.
- `src/provider/`: what a provider's responses become: charts, searches, playlists,
  podcasts, lyrics, the library.
- `src/ui/animation.rs`, `src/ui/spectrum.rs`: which frame of animated artwork and
  which levels of the spectrum are shown, and the state machines that start, pause,
  move and replace the decoders behind them.
- `src/ui/input.rs`, `src/ui/palette.rs`: what keys mean.
- `src/ui/layout.rs`, `src/ui/scene.rs`, `src/ui/render.rs`, `src/ui/render_laws.rs`
  and the other modules of `src/ui/`: the screen, as a list of drawing steps, with
  the places that can be clicked.
- `src/text.rs`, `src/json.rs`, `src/web_url.rs`, `src/lyrics.rs`, `src/seqs.rs`:
  what the rest is built on.

Calls into other crates stand behind small trusted functions: shuffling
(`rand`, `rand_chacha`), JSON (`serde_json`), addresses (`url`), grapheme clusters
(`unicode-segmentation`), cell widths and the division of an area (`ratatui`).
Each says in its documentation what is taken on trust.

`tests/` runs the library against those crates. `app/` draws with `ratatui`, reads
keys with `crossterm`, asks YouTube Music with `ytmapi-rs`, runs decoders on
`tokio`, and analyses sound with `rustfft`.
