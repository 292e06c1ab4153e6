# marswm

The logic of the mars window manager, its status bar (`marsbar`) and its control client
(`mars-relay`), written in Verus with its behaviour stated in contracts and proved.

## Layout

- `src/` – the verified library:
  - `geometry`, `numbers`, `atoms`, `error`, `config` – rectangles and monitors, number
    formatting, the X11 atoms the library knows, errors and the configuration;
  - `client`, `layouts`, `workspace`, `monitor`, `wmstate`, `wm`, `rules`, `bindings`, `events` –
    clients with their borders and size hints, the tiling layouts, workspaces, monitors, the
    state of the window manager and the decisions it takes on events, window rules and bindings;
  - `actions` – what each binding action does to the state of the window manager;
  - `widget`, `tray`, `barstyle`, `bar`, `status` – the widgets and the layout of the status bar
    and what it reads from the window manager;
  - `relay` – the arguments of the control client;
  - `seqs` – facts about sequences of client identifiers.
- `tests/` – tests of the library on concrete values.
- `app/` – the program around the library: command line, configuration files (YAML) and the
  connection to the X server (event loops of the window manager and the bar, the control client).
  Floating point (the main ratio of the layouts) stays there.
