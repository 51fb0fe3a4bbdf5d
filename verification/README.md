# windui

The platform layer of a small UI toolkit: windows, input, hot keys, the clipboard, the
notification area, drag and drop, input methods and drawing on X11, Windows and macOS.

What a key, a click, a window message, a selection request or a timer tick means is computed in
`src/` from plain values, and proved there. A host performs the system calls around it.

- `config`, `event`, `geometry`, `signal`: what windows and events are made of.
- `hotkey`, `registry`, `tray`, `dialog`, `screenshot`, `picture_path`, `surface`, `text`: what the
  platforms share. `surface`, `dialog` and `text` hold the boundary to tiny-skia, to rfd and to the
  parts of the standard library that have no specification.
- `linux`: the X11 session as a state machine, with its windows, timers, painting, keyboard, drag
  and drop, clipboard and input method.
- `win32`: the window procedure as a state machine, with touch, frame pacing, painting, the
  Direct2D resources, drag and drop and the notification area.
- `macos`: the view as a state machine, hot keys and the status item.
- `app/`: the X11 host, file dialogs and pictures of windows.
- `tests/`: the library seen from outside.
