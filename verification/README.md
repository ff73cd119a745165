# maestro

Verified admission rules for coding tasks run on a task Computer, for the
hosted `coding_task` tool, for the customer-cell Identity authority and for
the command-line entry point.

## Layout

- `src/` — the library, verified with Verus.
  - `computer.rs`: workspace requests and owner responses, and when a
    response answers the request it was admitted for.
  - `computer_evidence.rs`: the owner's record of settled executions, how it
    grows, and the check a completion must pass against it.
  - `acceptance.rs`: the acceptance contract, validator reports and the
    completion submission.
  - `hosted.rs`: the hosted `coding_task` projection, from an action and the
    owner's records to the transition the worker persists.
  - `authority.rs`: the signed request target and tenant scope, the pinned CA
    bundle, endpoint location and the addresses the authority may resolve to.
  - `deployment.rs`: the read-only inventory of the disconnected profile.
  - `cli.rs`: argument classification for the command-line entry point.
  - `text.rs`, `search.rs`: character classes, string scanning and first/last
    position search shared by the rules.
- `tests/` — tests of the library on concrete values.
- `app/` — what stays outside verification: JSON forms of the records, the
  hosted tool schema, argv decoding, DNS resolution and the HTTPS exchange
  with the authority.
