# mp3-player

A demuxer for fragmented MP4 (DASH) audio streams, written in Verus, and the small
player and proxy servers around it.

The library (`src/`) reads a stream's initialization segment, its segment index and its
fragments from byte buffers, and says in its contracts exactly what it reads:

- `parsing/` — the box parser: a cursor over bytes (`utils/box_stream.rs`), one module per
  box type under `spec/`, the MPEG-4 descriptors, and the containers that hold boxes.
  Each parser states where it stops and what it reads as spec functions of the bytes.
- `demux/` — what a player needs: the metadata of a stream (codec, default sample
  duration, the byte and time range of every segment), its header, its first track, and
  the samples of each fragment. Laws state that segments and samples follow each other
  without gap or overlap.
- `progress.rs` — playback as a state machine: it says which bytes to fetch next, takes
  them, and hands out samples one by one; seeking uses std's binary search and checks that
  what it finds covers the time sought.
- `player.rs` — the web player's decisions: what each event leads to, the cursor over
  decoded samples, and which segment to fetch next.
- `bili_api.rs` — the video site's API answers, read with `sonic_rs`, and the description
  of an audio stream they give.

`app/` holds what cannot be verified: HTTP requests, the web audio output, the JSON wire
format and the two servers.
