# tailscale_nodes

A browser for the nodes of a Tailscale network. The verified library (`src/`)
holds everything the browser decides; the program around it (`app/`) draws
with Clay and Raylib, runs the `tailscale` commands with Tokio and parses
their JSON with Serde.

- `src/text.rs`: NUL stripping, substring search, lexicographic order over
  characters, and the few std string calls used (push, pop, lowercase,
  lenient UTF-8 decoding).
- `src/tailscale.rs`: the status records, their cleaning (`sanitize`), the
  peer table with unique keys, the host commands, and how a finished command
  is judged.
- `src/order.rs`: the peer list order (online first, most recently seen
  first, then host name; ties keep report order), proved sorted, complete
  and unique.
- `src/search.rs`: which nodes the list shows for a search text.
- `src/ui.rs`: per-row and per-frame decisions (icons, buttons, colours,
  clicks, screen, redraw rate).
- `src/state.rs`: the shared state and how keys, refreshes, exit-node
  changes and copies change it.
