# spark

A quick-capture scratch pad: a small always-on-top window where a thought is
typed and, on Ctrl+Enter, appended with a time stamp to `~/.gemini/Spark.md`.
Escape, or a minute without input, closes it without saving.

The editing and saving rules live in the verified library (`src/`):

- `editor`: list continuation on Enter (`SmartList::handle_enter`): bullets
  and numbered items continue on the next line with the same indent, and an
  empty item ends the list.
- `session`: the per-frame decisions of the window (close, save, edit,
  countdown) and the editor state.
- `storage`: what is worth saving and the text appended to the journal.
- `clock`: local times and their labels (formatted by chrono).
- `theme`: the palette and the choice of font file.
- `win32`: wide strings, the virtual-desktop GUID, and the single-instance
  and focus decisions.
- `text`: character-level helpers (white space, trimming, decimal numbers).

`app/` holds the program around it: the egui/eframe window, file I/O, the
clock, the icon (drawn with floating point) and the Windows API calls.
