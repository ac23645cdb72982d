# RustyMixer (verified core)

The decisions and bookkeeping of a two-deck DJ mixer, written in Verus and
proved against their contracts, with the audio, database and device work
around them in ordinary Rust.

- `src/` — the verified library:
  - `audio` validated sample rates and channel counts, engine and output configuration;
  - `transport` the deck state machine (load, play, pause, stop, seek, eject) and seek crossfades;
  - `cache` the chunk cache that feeds the audio callback, with least-recently-read eviction;
  - `control` control ids, the control registry and the standard control set;
  - `channel` channel ids, orientation and crossfader curve selection;
  - `key_detection` musical keys in Camelot, Open Key and standard notation;
  - `analysis` analyzer configuration (FFT sizes, decimation, waveform resolution) and the
    checks of a track before analysis;
  - `decode` the choice of the track a decoder plays and the format it reports;
  - `library` the music library's model, SQL text, schema migration and playlist reordering;
  - `scanner` which files are audio files, what a scan does with each file, the order of a
    scan's steps and progress reports, and its counts over a whole scan;
  - `effects` the kinds of effect parameters;
  - `import` M3U/PLS entries, entry paths and import counts;
  - `text`, `display` trimming, prefixes and `mm:ss` clock text.
- `tests/` — tests of the library.
- `app/` — the floating-point signal processing (gain, crossfader gains, effects,
  beat/key/waveform analysis), decoding with symphonia, the SQLite library with
  rusqlite, metadata with lofty, threads and channels with crossbeam, and audio
  output with cpal and ringbuf.
