# gd_profiles

The verified core of a small web service that stores public profiles for
Geometry Dash accounts and authenticates accounts by in-game message.

- `src/` is the library, checked by Verus:
  - `utils.rs` reads the inbox listings that the Geometry Dash servers send
    and picks the server to talk to;
  - `auth.rs` hands out challenges, counts the looks for a completed
    challenge, reads `auth-` codes from messages and keeps them for a few
    seconds;
  - `profile.rs` decides whether a profile update is accepted;
  - `structs.rs` holds the data types and decides how every error is
    answered;
  - `gd.rs`, `cors.rs`, `catchers.rs` build request forms, headers and
    status bodies;
  - `text.rs` splits, trims and parses decimal integers, with specifications;
  - `external.rs` holds the trusted contracts of the calls into other crates.
- `app/` is the Rocket server around it: routes, database access, the inbox
  poller and startup.
- `tests/` runs the library on concrete inputs.
