# robrix web-view core

The verified core of Robrix's embedded-browser proof of concept, written in
Verus. `src/` holds the logic with its contracts and laws; `app/` is the
ordinary Rust around it (the browser engine, Makepad widgets, the HTTP
download, the local file server, Win32 calls), which performs the I/O the
core decides on.

- `http_range`: `Range` header parsing (`parse_range`) and `u64` parsing.
- `file_server`: request head, served range, response header, body transfer,
  and the next step of a connection.
- `download`: file name of a URL, cache hits, progress percentages.
- `signals`: state shared with the engine's callbacks (frames, size, clicks,
  download status, overlay rectangle).
- `browser`: the off-screen browser manager's poll decisions.
- `overlay`: the native-window overlay backend as a step machine: creation,
  placement, and hiding the window once the widget stops drawing.
- `navigator`: the space navigator's cache, expansion, selection and tree,
  with checks that a click or new children keep the tree finite.
- `pages`: messages for the page, video and `file://` URLs, playback page.
- `text`: white space, trimming, searching, decimal rendering.
