# jinagam

A Windows tray application for multi-monitor setups that flashes a coloured
glow on the boundary the mouse pointer crosses when it moves from one monitor
to another. Colour, width, fade duration, span (a segment around the crossing
or the whole shared edge) and performance mode are chosen from the tray menu
and kept in `%APPDATA%\jinagam-rs\settings.txt`.

## Layout

- `src/` is the library, written in Verus: every decision the application
  makes is a function there with a contract that Verus proves. Where the band
  goes on a crossing, what each poll of the cursor and each tray command does,
  how the settings file is read and written (and that reading back what was
  written restores the settings), the tray menu's contents, and the UTF-16
  strings handed to Windows.
- `app/` is the Windows program around it: the message loop, the windows, the
  tray icon, monitor enumeration, drawing, and the settings file on disk.
- `tests/` runs the library on concrete inputs.
