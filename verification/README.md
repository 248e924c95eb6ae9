# goop_converter

The conversion core of a desktop media converter, written in Verus: the
rules that decide how a file is converted, what a finished output must
show, and when a sample preview may be produced, each with a contract that
Verus proves.

## Layout

- `src/` — the verified library.
  - `video_options`, `video_tracks`, `track_options`, `tracks`: explicit
    video settings, stream policies and audio-track selection; the ffmpeg
    arguments they resolve to and the checks a finished output must pass.
  - `subtitle`: subtitle support per target, burn-in and soft-subtitle
    arguments, audio stream mapping, filter escaping, subtitle encodings.
  - `metadata`, `metadata_transfer`: JPEG segment scanning, ICC profile
    reassembly, the metadata plan of each policy, and reading and
    embedding EXIF/ICC bytes in JPEG and PNG files.
  - `preview`, `preview_session`: admission of sample previews and the
    bookkeeping of preview sessions, requests and published outputs.
  - `probe`, `display_matrix`, `media`: probe facts of a source.
  - `target_size`: the target-size quality search over encoded sizes.
  - `naming`, `paths`, `raw`, `webp`, `progress`, `text`, `formats`,
    `error`, `plan`: smaller rules and shared helpers.
- `tests/` — tests of the library on concrete values.
- `app/` — ordinary Rust around the library: JSON decoding of probe
  output, reading and writing files, floating-point geometry and progress figures, and
  the preview service's locking and cancellation flags.
