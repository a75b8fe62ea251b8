# winbeautify

The rules behind a desktop companion for Windows, written and proved in Verus: what the
taskbar is painted with, how a screenshot is selected, copied and pinned, how the settings
window lays out, draws and edits its pages, and what the module inside the shell does with
the taskbars it finds.

The library computes; it makes no system call. Lengths, opacities and zoom factors are whole
numbers: pixels, ticks of 1/96000 of a pixel, millionths. What the system is asked to do comes
out as values (`AccentCall`, `PumpAction`, `WindowAction`, `Op`, `PaintStep` and so on), and what it said
goes in as values.

- `src/number.rs`, `src/geometry.rs`, `src/color.rs`, `src/text.rs`: numbers, rectangles,
  colours and text.
- `src/config.rs`: the configuration, as far as the rules read it.
- `src/snip/`: the captured screen, selecting an area of it, and pinned images.
- `src/settings/`: the description of the settings, reading and writing them in a tree, and
  the window: layout, controls, drawing, messages.
- `src/taskbar/`: which look each taskbar gets, and how it is reached from outside the shell.
- `src/tap/`: the module inside the shell: commands, the registry of taskbars, the watcher of
  the element tree, the log.
- `tests/`: the library at work on given values.
- `app/`: ordinary Rust around the library: windows, threads, drawing surfaces, COM objects,
  the configuration file.

The contracts trust two functions of the standard library, both in `src/text.rs`:
`String::push` and `char::from_u32`.
