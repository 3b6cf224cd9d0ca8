# smol-dfr

A dynamic function row daemon for the Touch Bar of Apple laptops running
Linux: it draws a row of widgets (keys, clock, battery, load, temperature,
memory graph, volume, niri workspaces, window title) on the Touch Bar's DRM
display, turns touches into key presses on a virtual keyboard, follows the
Fn key between a primary and a media layer, and dims the bar when unused.

## Layout

- `src/` is the verified library (Verus). It holds the daemon's logic with
  contracts proved against spec functions:
  - `rotate`: turning the rendered landscape frame into the display's
    portrait XRGB8888 buffer (unpremultiplied, padded);
  - `config`: colour parsing, merging the system and user configuration,
    resolving fonts and the two key layers;
  - `session_detect`: reading `loginctl` output to find the session user,
    and recognising niri's socket;
  - `workspace`: the niri workspace and window state and its event handling;
  - `reconnect`: the inotify watch bookkeeping that notices niri and
    PulseAudio coming back;
  - `memory_graph`, `sensors`, `battery`, `volume`: what the widgets read
    and show;
  - `widgets`, `layers`, `main_loop`, `backlight`: touch and key handling,
    the layer selection, the main loop's timing and the brightness rules;
  - `rate_limit`, `clock`, `text`: shared helpers.
- `app/` is the program around it: DRM, libinput, uinput, PulseAudio, the
  niri socket, inotify, sysfs and the iced renderer, calling the library
  for every decision.
- `tests/` runs the library on concrete inputs.
