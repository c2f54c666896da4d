# image_messie

Sorts photographs into `destination/YYYY/MM_MonthName/CAMERA_MODEL/` folders
by their EXIF metadata; files without a date or camera model go to
`destination/UNKNOWN/`, and a file whose name is taken in its folder gets a
`_YYYYMMDDHHMMSS` suffix.

- `src/` is the library, verified with Verus: which files are images
  (`scanner`), how EXIF fields become text and dates (`metadata`), how dates
  and times are written as digits (`calendar`), which folder and file name
  an image gets (`organizer`), file name splitting (`paths`), string
  operations (`text`), the run's totals (`models`) and the statistics
  panel's contents and closing keys (`panel`). EXIF parsing
  (kamadak-exif), date parsing and formatting and the local clock (chrono),
  Unicode case mapping, UTF-8 decoding, and `Path::join` and
  `Path::file_name` (which follow the platform's path rules) are called
  through small trusted wrappers whose contracts are stated in their doc
  comments.
- `app/` is the `messie` command: argument parsing (clap), walking the source
  tree (walkdir), reading and copying files, coloured output (owo-colors) and
  the final statistics panel (ratatui, crossterm).
- `tests/` exercises the library with the real outside crates.
