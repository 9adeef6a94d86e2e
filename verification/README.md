# nix-hapi-provider-porkbun

A Porkbun DNS provider for nix-hapi.

- `src/` is the library: how the live records of a zone become a keyed tree, how
  planned changes become a runbook of Porkbun operations, and how a runbook is
  executed request by request.  It is written in Verus; every function states in
  its contract what it returns, and `laws.rs` and `reconcile_laws.rs` state what
  holds of the library as a whole.
- `app/` is the program around it: requests over the network, the decoding of
  replies, and the connection to the plan engine.
- `tests/` runs the library.

A record is identified by its type, its name and its content.  Changing the
content is therefore a deletion and a creation, unless the plan declares a
rename; a rename is a single edit of the live record.
