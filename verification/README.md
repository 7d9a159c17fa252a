# syncerting-tray

A Syncthing tray for KDE Plasma. It shows Syncthing's sync state as a
StatusNotifierItem, controls the `syncthing.service` systemd user unit, and
hands anything deeper to Syncthing's own web UI.

## Layout

- `src/` is the library, verified with Verus. It holds every rule the tray
  follows, each with a contract:
  - `model`: the displayed state, its overall health and headline, and the
    menu commands;
  - `client`: completion figures, the snapshot assembled from the REST API's
    answers, event-stream handling and request targets;
  - `config`: where `config.xml` is looked for, what is read from it, how a
    listen address becomes a URL, the environment overrides, and when the
    GUI certificate check is waived (only towards loopback);
  - `tray`: the menu, tooltip and icon name;
  - `icons`: the icon SVGs built from a template and the monochrome theme
    layout, and `placeholder`: why no template placeholder survives;
  - `worker`: the background worker's decisions (when to refresh, what a
    command does, how each outcome changes the state);
  - `autostart`, `unit`, `dialog`, `instance`: the autostart entry, the user
    unit, the error-dialog helpers and the single-instance answer;
  - `text`, `order`: string helpers and the stable sort they rely on.

  The `law_*` proof functions state what holds across calls and states.
- `tests/` runs the library on concrete values.
- `app/` is the program around the library: D-Bus, HTTP, the file system,
  the tray registration and the rasterising of the colour icons.
