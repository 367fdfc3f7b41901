# rav

The deciding parts of rav, a terminal audio visualiser, written in Verus: what
each view draws in each cell, what a key means, how a theme's colours are read
and stretched over the screen, what goes to a terminal that draws pixels, and
how a frame's quality is measured. Each public function states in its contract
what it returns, and Verus proves it.

## Layout

- `src/` - the verified library.
  - `ui/` - keys and actions, what each key does to the settings and the
    help rows that read them back (`settings`), the frame ceiling (`pacing`),
    the analyser's bars and caps (`analyzer`), the oscilloscope trace
    (`scope`), the status note (`status`), the help panel (`help`), and the
    cell grid they all draw into (`grid`).
  - `surface/` - choosing a surface, the kitty graphics protocol (`kitty`),
    staging pixel frames (`pixels`), writing an overlay as escapes (`overlay`),
    text on pixels (`text`), and the window's pixel packing (`window`).
  - `visual/` - colour names and hex colours, theme ramps, and palettes.
  - `testing/` - measuring a rendered grid: what shows, where, in which
    colours, and which segments of a row repeat.
  - `units.rs`, `strings.rs` - steps along a ramp, cell counts, and text.
- `tests/` - tests of the library on concrete values.
- `app/` - the rest: the event loop (`run`), the terminal and its keys, theme
  files on disk, pixels and fonts, and every measurement made in floating
  point. It calls the library for everything it decides.
