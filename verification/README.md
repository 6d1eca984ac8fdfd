# tool-tunnel

`tool-tunnel` exposes remote stdio MCP servers through peer-to-peer iroh
connections while the MCP client still sees a plain stdio server.

- `tool-tunnel client <profile>` dials the exporters a client profile imports,
  checks that each ticket names the pinned endpoint ID, lists their tools under
  `<alias>__<tool>` names and forwards each call to the remote it came from.
- `tool-tunnel export <profile>` runs one child MCP server and serves it over
  iroh to the endpoints on the profile's allowlist, after a fixed handshake.
- `tool-tunnel identity init|show <role> <profile>` manages identity keys under
  `<config dir>/identities/{clients,exports}/<profile>`.

## Layout

- `src/` is the verified library (Verus):
  - `text`: character-level string comparison, name order, `trim`.
  - `names`: `NameMap`, a name-keyed map kept in ascending name order.
  - `paths`: path joining, configuration and identity locations.
  - `keys`: endpoint IDs, secret keys and tickets parsed with iroh; pin and
    allowlist checks.
  - `config`, `validation`: the configuration model, identity path
    resolution, alias checks and full validation against what the filesystem
    reports about identity files.
  - `protocol`: ALPN and handshake bytes, tool prefixing, splitting and routing,
    the catalog of published tools, and the admission steps of an incoming
    connection (allowlist, then handshake).
  - `messages`: the text of every error.
  - `laws`: properties across functions (prefix/split round trip, routing
    of published tools, distinct identity paths, what a valid configuration
    guarantees, map lookups after inserts).
- `app/` is the program: command line, file and network I/O, MCP sessions.
- `tests/` exercises the library on concrete values.
