# cms_video_recorder

A floating toolbar that records a game window (video plus the audio that is
playing) to MP4, manages the recordings, and compresses a clip with ffmpeg
until it fits under the 5000 KiB upload limit of a report form.

The decisions are a Verus-verified library under `src/`:

- `toolbar` – the toolbar's state machine: every reaction to the user or a
  worker returns the side effects to carry out, with laws on panels,
  recording start/stop, the duration cap and settings commits.
- `capture` – capture geometry (client area, halving, even sizes), the
  bottom-up repacking of frames, and the per-frame decisions of a session.
- `audio` – loopback formats, integer PCM conversion to 16-bit stereo,
  silence padding, and the delivery into the shared buffer (nothing before
  the stream is armed, capped to its newest bytes).
- `videos` – clip names, sizes, listing order, and the compression plan.
- `window_picker`, `icon`, `settings`, `config`, `hotkey`, `i18n`,
  `recorder`, `trim`, `text` – window filtering and ordering, icon pixels,
  hotkey capture and encoding, configuration, message catalogs (through
  Fluent), file naming, ffmpeg banner parsing and text helpers.

`app/` is the Windows program around it: iced UI, Win32, Windows.Graphics
Capture and Media Foundation, WASAPI, files and ffmpeg processes. It expects
`i18n/*.ftl` and `icon.ico` next to the executable. A catalog is refused at
start-up unless it is tame (see `i18n::tame`): at most 256 `{` and `(`
together, which bounds how deep the Fluent parser recurses; no `\u`/`\U`
escape without its full hex digits, on which the parser would slice through
a character; and no placeable that opens with another placeable or selects
on a literal, for which Fluent's formatter cannot write the error text it
emits once a message resolves more than a hundred placeables.
