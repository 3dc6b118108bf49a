# media_renamer

The verified core of a batch renamer for photos and videos (rename by EXIF or
file date, optional backup, optional HEIC to JPEG conversion, time offsets,
one-level undo), written in Verus.

- `src/` is the library. Every decision is proved against its contract:
  - `path`: paths as sequences of components, with file name, parent, stem
    and extension computed over them;
  - `scan`: which scanned files are supported media, and the scan limit;
  - `conflict`: choosing a free target name (`stem_N.ext`);
  - `backup`: planning the `backup_<timestamp>` copies;
  - `offset`: the timestamp a time offset leads to;
  - `rename` and `undo`: the rename run and the undo run as state machines
    that ask for one file-system step at a time and are told its outcome;
  - `replay`: a model of the file system (path to content) on which the
    rename run's log is shown to replay, and the undo run to restore the
    file system from before the run;
  - `dates`: dates and times as plain fields, and their text forms (the
    date format and the backup timestamp);
  - `models`, `text`: records and string helpers.
  The `law_*` proof functions state properties of the library as a whole.
- `app/` performs the file-system work the library asks for (directory
  walks, copies, renames, file times, the JSON undo log).
- `tests/` exercises the library on concrete values.
