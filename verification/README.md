# cua_driver

The decision logic of a background desktop-automation driver for Linux, written
in Rust and proved with Verus.

The driver works in the user's own session without getting in the way: it
launches programs onto a hidden workspace, takes pictures of windows that are
not on screen, records what it did, and moves the real pointer only where
nothing else will do.

## Layout

- `src/` is the verified library. Each module states in its contracts what it
  decides; the `law_` functions state what holds of several decisions together.
  - `recording`, `recording_laws`: the recording session, its turns and files
  - `video`, `video_laws`: the video that is made of a recording's screenshots
  - `hyprland`, `hyprland_laws`: windows, monitors and captures
  - `dispatch`: commands to the compositor
  - `guard`: keeping launched windows hidden and the focus where it was
  - `real_input`, `gesture`, `evdev`, `uinput_device`: kernel-level input
  - `headless_x`: a private X session
  - `cache`: the accessibility element cache
  - `json`, `path`, `text`: what the others are written in
- `app/` runs the processes, threads and files around the library.
- `tests/` runs the library on concrete values.

The library never does input or output. Where it needs `serde_json` or a
function of the standard library that Verus does not know, a small wrapper makes
the call, and its contract says what is relied on.
