# qingya

The core of a local video and image compressor that drives ffmpeg, written in
Verus and verified.

- `src/` is the verified library:
  - `text`: substring search, `str::trim` and `str::lines` over characters;
  - `decimal`: decimal text of integers;
  - `records`: the task list (delete, clear, add, reload filter) and how a
    finished job is settled (an output not smaller than its source is
    replaced by the source);
  - `naming`: output names `stem.ext`, `stem (1).ext`, ... that collide with
    no task and no file;
  - `encode`: ffmpeg arguments for the CPU and hardware encoders, and the
    detection of hardware encoders from `ffmpeg -encoders`;
  - `plan`: the plan of one job (output name, arguments, format, encoder)
    and its ffmpeg command line;
  - `progress`: the fields of an `ffmpeg -progress` report, and the split
    of its `HH:MM:SS` times;
  - `clock`: the recording time (0 for a clock set before 1970);
  - `laws`: properties that span those functions.
- `app/` is the Tauri shell: commands, files, the ffmpeg process, JSON
  persistence and the floating-point progress percentage.
- `tests/` runs the library on concrete values.
