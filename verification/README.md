# coolcooler

Shows images, animations and live widgets on the LCD of AIO coolers: the
ID-Cooling FX360 over its own USB HID protocol, NZXT Kraken and MSI MPG
coolers through the `liquidctl` command-line tool.

## Layout

- `src/` — the library, verified with Verus. Every public function states
  what it returns or changes; the properties that relate several functions
  are public proof functions (`lemma_*`).
  - `protocol` — the CRT/DRA packets of the FX360 and how a frame splits
    into them.
  - `liquidctl`, `driver` — the device registry, the drivers and the choice
    of a device among the USB devices present.
  - `frame` — RGB/RGBA frames, crop, resize, rotation and JPEG/PNG encoding
    (the pixel work is done by `image`, `imageproc` and `fast_image_resize`).
  - `display_loop`, `display` — the decisions of the loops that feed a
    device and of the worker that runs them.
  - `widgets`, `widget_state`, `layers`, `render`, `composition` — the
    widget catalog, each widget's settings, the canvas's layers and the
    pixels of the line and circle widgets.
  - `names`, `presets`, `save`, `recovery` — preset names and folders, the
    preset list, the steps of a save and the recovery of interrupted saves.
  - `source`, `sensors`, `color`, `tray`, `text`, `types` — the canvas
    background, sensor selection, colour parsing and shared helpers.
- `tests/` — tests of the library.
- `app/` — the command-line tool and everything that touches the outside
  world: USB (hidapi), processes, files, the clock, system sensors, and the
  floating-point geometry and text rendering of the editor canvas.
