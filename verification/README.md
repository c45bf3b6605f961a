# Syntra

Syntra shares mouse, keyboard, clipboard and files between devices. This crate
holds what it decides: the wire protocol, the clipboard history, the plugin
protocol, and what the dashboard shows and does. Each function states what it
returns, and Verus proves it.

- `src/proto`, `src/lan_mouse_proto.rs`: the messages between devices, as bytes.
- `src/history`: the clipboard history, its pins and clear operations, and the
  worker that serves it.
- `src/plugin_api`, `src/lan_mouse_adapter_api.rs`: frames, messages and
  manifests of plugins.
- `src/ui`: the state of the dashboard, its settings and its screens.
- `src/platform`: the background service, installation, releases and the tray.
- `src/lan_mouse_gtk.rs`: the rows and the console of the GTK window.
- `app/`: the database, files, sockets, processes and the network around it.

Properties that relate several functions are stated as proof functions whose
names begin with `law_`, beside the functions that they are about.
