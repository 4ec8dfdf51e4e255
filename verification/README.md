# Etcherus

A cross-platform USB flashing tool. The library under `src/` holds its logic,
verified with Verus; the program under `app/` is the iced GUI that runs it.

- `src/text.rs` — whitespace, trimming, lines, words, substring search and
  decimal parsing over the character view of strings.
- `src/pattern.rs` — regular expressions, matched by the `regex` crate.
- `src/size_format.rs` — byte counts rendered by the `bytesize` crate.
- `src/drive_model.rs`, `src/image_model.rs` — drives and images.
- `src/usb_service.rs` — reading `lsblk`, `df` and `diskutil` output into
  drive records, and the list of offered drives with its laws (every drive
  has a size and is removable; no system volume; a volume is never listed at
  a mount point already taken).
- `src/flash_service.rs` — the steps of a flash run.
- `src/app_state.rs` — the application state machine and its laws: a flash
  starts only on a valid selection, and a valid selection is one whose drive
  is large enough to contain its image.
- `app/` — window, views, file dialog and the system tools themselves.
