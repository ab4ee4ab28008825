# backend

The verified core of a mail backend's two settings features: the user's
navigation-rail shortcut and the optional "external folder", a virtual mail
folder whose items come from a read-only external SQL database.

- `src/` is checked by Verus:
  - `custom_nav_link.rs`: defaults, merging and validation of shortcut updates,
    and how a failed update is answered.
  - `external_sql.rs`: the private configuration, account verification
    (bcrypt), the mapping of result rows to items, the domain-to-system lookup
    and the disabled client.
  - `external_folder.rs`: per-user settings, the status page, the decisions of
    the connect and update requests, HTML escaping and the synthesis of folder
    listings, opened items and inlined images.
  - `messages.rs`, `error.rs`, `text.rs`: message shapes, HTTP errors and
    character-level string helpers.
- `app/` holds what Verus does not check: JSON (serde) copies of the types,
  configuration loading, the MySQL pool, the SQLite store, outbound image
  requests and the axum handlers, all calling into `src/` for their decisions.
- `tests/` exercises the library on concrete values.
