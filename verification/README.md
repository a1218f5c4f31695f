# lifelinetty

A serial-to-LCD daemon for small Linux boards: a host sends JSON frames
over a UART, and the daemon shows them on an HD44780 character display
behind a PCF8574 I2C backpack. The same link carries command frames, so
the host can run allow-listed commands on the board and read their output
(the `--serialsh` shell).

## Layout

- `src/` is the library, written in Verus and verified. Every public
  function carries a contract over a mathematical model (`Seq`, `Map`,
  spec functions), and the laws the library keeps are proof functions:
  - `config::roundtrip::lemma_saved_config_loads_back`: a saved
    configuration loads back unchanged;
  - `state::lemma_repeat_is_ignored`, `lemma_rotation_step`,
    `lemma_rotation_cycle`: the page queue ignores repeats and rotates;
  - `display::icon_bank::lemma_held_glyphs_are_reused` and
    `lemma_rebuild_writes_nothing`: glyphs already in the display's slots
    are never written again, and a second build of the same bank writes
    nothing;
  - `payload::exchange::lemma_frame_decodes_to_message`: a command message
    that is encoded into a frame decodes back to the same message, given
    that `serde_json` reads the frame's text back as the document it
    was written from (a premise of the lemma, not proved here);
  - `payload::frame::lemma_matching_checksum_is_transparent` and
    `lemma_wrong_checksum_is_refused`: what a payload checksum does;
  - `wizard::flow::lemma_defaults_complete`: with nobody to answer, the
    first-run wizard runs to the end and saves the defaults;
    `lemma_refused_answer_changes_nothing`: a refused answer asks again;
  - `state::lemma_current_twice`, `lemma_current_then_next`,
    `lemma_expired_page_resets`: looking at the front page changes nothing,
    and an expired last page empties the queue and forgets the last text;
  - `config::roundtrip::lemma_display_driver_name`: a display driver
    reads back from its name; `lemma_defaults_load_back`: the defaults
    written on the first start load back as the defaults;
  - `cli::lemma_run_is_the_default`: flags parse the same with or
    without `run` in front;
  - `payload::exchange::lemma_tampered_checksum_is_refused`: a command
    frame whose `crc32` was changed is refused with a checksum mismatch;
  - `payload::decode::lemma_reload_request_needs_no_lines`: the reload
    request `{"schema_version":1,"config_reload":true}` is read without
    lines;
  - `wizard::rehearsal::lemma_rehearsal_keeps_results`: the link-speed
    rehearsal only adds results, and ends on the rate it settles on;
  - `compression::lemma_compress_roundtrip`: decompressing what
    `compress` produced gives the payload back (or the size error for LZ4
    and zstd output over 1 MiB);
  - `render::lemma_backoff_bounded`, `payload::lemma_frame_bar_shape`.
- `tests/` runs the library on concrete values.
- `app/` is the binary: command line, files, terminal, serial port,
  I2C bus, signals and threads. The decisions are calls into the library;
  the render loop and the link-speed rehearsal run as state machines in
  `src/` that tell `app/` what to do next.

Calls into `serde_json`, `crc32fast`, `lz4_flex`, `zstd` and the clock are
trusted wrappers whose doc comments say what their contracts claim.
