# trayplay

A music player for a Jellyfin server that lives in the system tray. What it decides is in
`src/`, a library written in Verus: every function there carries a contract, and Verus proves
that the code keeps it. What touches the network, the disk, the audio device and the screen is
in `app/`, ordinary Rust around that library.

## How the two halves meet

The library does no input or output. A command, a tick or an answer goes in; a list of things
to do comes out, and where it ends in a request, the answer to that request is what goes in
next. The application performs the list in order. The same shape is used for the player, for
playback reporting, for the track cache, for the audio thread and for the popup.

Contracts speak of views: what a value says, as sequences and numbers. `player/model.rs` is the
player as a function from what it is and what happens to what it becomes and what it asks for.
Functions named `law_...` state what holds across several calls.

## The library

| Module | What it decides |
|---|---|
| `player` | what every command, tick and answer does to the queue and to playback |
| `player::queue`, `player::persist` | the queue, and the part of it that survives a restart |
| `player::cache` | which download serves whom, what a reader may do, what is dropped when full |
| `player::rodio_sink`, `player::decoder` | the audio thread's bookkeeping, and decoding by packet |
| `player::shuffle`, `order`, `random` | random order, sorting by keys, identifiers |
| `jellyfin` | what is asked of the server, what its answers mean, who is signed in |
| `fonts` | which files are fonts, and what each is called |
| `fuzzy` | one typing mistake in an artist's name |
| `report` | what the server is told of what is heard |
| `mpris`, `tray` | media controls and the tray icon |
| `ui` | the popup: pages, filter, keys, slider, messages |
| `config`, `cli`, `theme`, `time`, `text` | settings, command line, style sheet, and the basics |

## Defaults

`config.toml` is edited by hand and every key is optional: `server`, `username`, `width` (380),
`height` (520), `hide_on_focus_loss` (false), `hide_delay_ms` (0), `random_batch` (100),
`cache_max_mb` (500), `prefetch_next` (true), `library_cache_ttl_secs` (300),
`report_playback` (true), `x11_window_type` ("utility"), `anchor` ("top-right") and `margin`
(8). What the settings page stores wins over it.

## Keys

Space plays and pauses, `n` and `p` step, the arrows seek by a tenth of the track, `r` cycles
repeat, `l`, `q` and `s` open the library, the queue and the settings, `a` the album, `A`
focuses the first artist, and Ctrl+Q quits. On list pages up and down move between rows over
all sections, right activates, left goes back, and Shift+Enter runs the first entry of the
row's menu.
