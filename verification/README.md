# encore

The verified core of Encore, a screen-recording replay buffer for macOS:
segment timing for the hardware encoder, the replay lifecycle, packaging
segments into published evidence bundles, the library of saved bundles,
the editor's trimmed and GIF exports, global hotkey registration, and the
placement of the post-save preview.

- `src/` is the library, written in Verus; every function carries a
  contract that Verus proves. Filesystem, process and media-tool access
  reach it through traits (`PackageFileSystem`, `LibraryDisk`,
  `FfmpegRunner`, …) that the application implements. The library calls
  them through small handles (`LoggedFiles`, `LoggedDisk`, `LoggedFfmpeg`,
  `LoggedExport`, …) that keep a ghost history of every call, with what it
  was handed and what it answered, so that contracts can say which paths
  and bytes were handed to the outside world, in what order, and what
  each answer led to: for instance that a bundle only becomes visible by
  one rename of its finished workspace onto a name a check found free, and
  that nothing else a publication does alters an entry whose name does not
  start with `.`.
- `tests/` exercises the library on concrete inputs, with in-memory fakes
  behind those traits.
- `app/` is the application side: the real filesystem and processes, the
  ffmpeg/ffprobe sidecars, the encoder worker's thread, the replay
  service's lock, keyframe timing (floating point) and the JSON encoding of
  bundle metadata.
