# media_cruncher

Recompresses the images, audio and video under a directory, or inside an
archive, with `ffmpeg`, and repacks archives in place with `7z`.

- `src/` is the verified library: archive naming and the `7z` protocol
  (`archive`), encoder settings (`config`), `ffmpeg` argument lists and the
  WebP header fix (`compressors`), media classification, result settlement,
  size totals and thread count (`media`), and text primitives (`text`).
- `app/` is the command-line program: argument parsing, running the tools,
  file system work, progress bars and the parallel worker pool.
- `tests/` runs the library on concrete values.
