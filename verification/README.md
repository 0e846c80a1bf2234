# pin

A Windows tray utility that keeps chosen windows on top of all others. Left-click
the tray icon, click a window, and it becomes topmost with a small pin badge on
its title bar; click the badge to unpin. The tray menu offers `Unpin all`,
`Start at login` and `Quit`.

## Layout

- `src/` — the verified library (Verus):
  - `pinned.rs` — the set of pinned windows, modelled as a map from window to
    entry. Pinning, unpinning and draining state the resulting set and
    result exactly; for a window manager that keeps a record of its requests
    (`WindowApi::records_requests`), they also state exactly which requests
    they make, and in what order.
  - `win.rs` — window handles, rectangles, the rule that decides which clicked
    windows may be pinned, and the `WindowApi` trait for window-manager calls.
  - `autostart.rs` — the `pin.ini` format (parse and write), the `Run`
    command line (quote and parse), path comparison and the reconcile step.
  - `text.rs` — character-level helpers: ASCII case folding, Unicode white
    space, searching and trimming.
  - `resources.rs` — embedded icons (48-pixel PNG images), PNG decoding and
    resizing through the `image` crate, RGBA to premultiplied BGRA.
  - `overlay.rs`, `cursor.rs` — badge placement, cursor hotspot and cursor
    mask geometry.
  - `control.rs` — what the program does for each tray, menu, picker and
    badge event.
- `tests/` — tests of the library.
- `app/` — the Windows program: message loop, tray, picker, badge windows,
  registry and file access. It builds only for Windows targets.
