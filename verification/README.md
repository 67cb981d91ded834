# tauri_core

The decision logic of an application framework that hosts web frontends, written in Verus:
every function in `src/` carries a contract, and the laws that span several functions are
public proof functions.

- `acl`, `acl_scope`, `command_scope`: which frontend command may run for a window, webview and
  origin, why one may not, the scopes capabilities attach, and the access scope a command gets.
- `event`, `listener`, `scoped_listener`: event names and targets, who receives an emit, and the
  actions deferred while listeners run.
- `ipc`, `ipc_protocol`: response bodies, channels and their fetch queue, the invoke request read
  from the custom protocol, and how an answer travels back.
- `scope`, `asset`, `csp`, `protocol`: the file system scope, the asset protocol's range answers,
  the content security policy nonces, and the origins of the custom protocols.
- `path`, `resources`, `image`, `menu`, `menu_manager`, `plugin`, `tray`, `app`, `z85`: path
  helpers, the resource table, images, default menus, plugin names and smaller types;
  `random`: the operating system's random bytes.

`app/` holds what cannot be verified: the locks that share the state machines between threads,
the file system reads, the serde forms of the types, and the state store keyed by type.
