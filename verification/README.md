# weavegate

A frontend gateway: requests are matched against proxy rules, spread over upstreams in turn, and
forwarded, with WebSocket and other protocol upgrades tunnelled through. Rules come from a
configuration file and, at startup, from a control plane.

- `src/` is the library, written in Verus. Every decision of the gateway is a function with a
  contract: how rules are compiled, sorted and matched, which URI and headers an upstream gets,
  what a response keeps, how options of the command line and of a configuration file are merged,
  what becomes of a routes document or of a failed fetch, and which certificates are trusted.
- `app/` is the program: arguments, files, sockets and logging.
- `tests/` runs the library, with the crates that it rests on.

What the library relies on without proof are the contracts of the functions marked
`external_body`, each of which makes a call into another crate and converts what goes in and out.
