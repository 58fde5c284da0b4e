# bmsg_core

The verified core of bendy-message, a unified message centre that stores
messages and routes them to registered services.

- `src/` — the library, verified with Verus: the message model and target
  matching, the routing run (store, list, deliver), service rows and
  statuses, the leader-election state of the coordinating object,
  administrator and API-key rules, request routing and the texts sent to the
  storage services.
- `tests/` — tests of the library on concrete values.
- `app/` — the two servers around it (a Vercel function and a Cloudflare
  Worker): HTTP, databases, key-value stores and JSON forms of the types.
