# ribb

A booru image browser. This crate is its library, verified with Verus: the
normalized booru data model, each site's request builders and response
normalizers, the image cache, the search-session state machine (tabs,
searches, focus view, autocomplete, keyboard shortcuts, per-post actions,
settings), the video player's playback clock, and the display helpers
(counts, dates, colors, tag states). Every state change of a session is a
verified function from the state and a message to the next state and the
effects the front end must carry out.

Layout:

- `src/` — the verified library (`app` is the session state machine,
  `booru` the sites, `cache` the image cache and decoding, `video` the
  playback clock, `view` and `style` what the views show, `download` the
  download file names, `text` the string routines they share).
- `tests/` — tests of the library on concrete values.
- `app/` — the iced front end: windows, HTTP, disk, clipboard, audio and
  video decoding, and drawing, around the library.
