# screenshot

A region screenshot tool for Linux desktops: press PrintScreen, drag a
selection over a frozen image of the screen, optionally draw on it, then copy
it to the clipboard (Enter, Ctrl+C, Ctrl+X) or save it as a PNG under
`~/Pictures/Screenshots` (Ctrl+S). Escape cancels.

There are two front ends. On Plasma Wayland a small D-Bus service captures the
workspace through KWin's ScreenShot2 interface when a KGlobalAccel shortcut
fires and pipes the frame into the overlay. On X11 a daemon listens to the
keyboards under `/dev/input` and grabs the screen itself.

## Layout

* `src/` is the library, written in Verus: every function has a proved contract.
  * `qimage`: converting the QImage rows KWin writes into packed RGBA.
  * `capture`: validating a `CaptureWorkspace` reply and decoding its pixels.
  * `pixels`: the RGBA frame, pixel access, cropping, disc painting for
    annotation strokes, the selection pixel box, PNG encoding, X11 pixel packing.
  * `overlay`: tool modes, the annotation history and undo, drag modes,
    cursors and key commands of the overlay.
  * `shortcuts`: the backup and the KGlobalAccel calls of the shortcut installer.
  * `trigger`: launch gates, trigger keys, capture retries and the registry
    of keyboard listeners.
  * `environment`: picking the session variables out of
    `systemctl --user show-environment`.
  * `text`: decimal formatting for diagnostics.
* `app/` is the program around it: D-Bus, evdev, X11, egui, files, processes.
  One binary serves every program; it picks one by the name it runs under
  (`screenshot`, `screenshot-daemon`, `screenshot-shortcut-setup`,
  `screenshot-x11`, `screenshot-x11-daemon`, `screenshot-key-test`) or by
  `--program NAME` as its first argument.
* `tests/` exercises the library on concrete inputs.

The overlay looks for its toolbar icons as SVG files in `assets/icons` beside
the binary and paints simple glyphs when they are absent.
