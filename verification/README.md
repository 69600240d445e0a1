# autoclicker

A Wayland autoclicker for KDE Plasma. It clicks through a virtual mouse
created with `/dev/uinput`, and is toggled by a global hotkey read from the
input devices, from its window, its tray icon, or the command line
(`autoclicker toggle`, `autoclicker start`, `autoclicker stop`).
`autoclicker click [left|right|middle]` clicks once without the window.

- `src/` is the library, verified with Verus: the clicker's state and the
  click loop (`clicker`), key names (`keymap`), hotkey recognition
  (`hotkey`), the command channel's protocol (`ipc`), the saved settings
  (`config`), the command line (`cli`), the window's decisions
  (`session`), and text handling (`text`).
- `app/` is the program around it: the virtual device and its worker
  thread, the device listeners, the Unix socket, the files, the GTK window
  and the tray icon.
- `tests/` exercise the library on concrete values.
