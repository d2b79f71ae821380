# harbor_cache

The decision logic of a caching proxy for Harbor container registries,
written in Verus and proved against its contracts.

## Layout

- `src/` — the verified library.
  - `registry_api.rs`: repository names, tags and references; the paths of
    the OCI distribution API and what each request asks for; the headers of
    each answer; the laws that upload and manifest locations name their
    object again.
  - `registry.rs`: the registry service's checks (session ids, stored
    references), where a blob is served from (cache first, else the chosen
    upstream), and how cache and upstream outcomes are answered.
  - `tee.rs`: the step function that copies a blob read from an upstream to
    the client and to the cache at once, with the law that a side that stays
    receives every chunk in order.
  - `router.rs`: glob route patterns, their bounded matching, and priority
    order.
  - `upstream_manager.rs`: the table of loaded upstreams, upstream selection,
    health tracking, and the laws of selection.
  - `upstream_api.rs`: validation of upstream definitions and URLs
    (including address checks), and the management API's upstream answers.
  - `config.rs`, `config_schema.rs`, `startup.rs`: the configuration model,
    the upstream list operations with their invariants, the configuration
    schema, and the settings derived at start-up.
  - `db.rs`: stored records, query validation and the SQL plans for
    listings and upstream updates.
  - `cache_policy.rs`: eviction policies, space accounting and expiry.
  - `storage.rs`: digests, blob and upload locations, digest verification.
  - `auth.rs`, `proxy.rs`, `management.rs`, `errors.rs`, `api_types.rs`,
    `numfmt.rs`, `text.rs`: authentication decisions, the upstream client's
    decisions, management answers, errors and their HTTP answers, API types,
    number formatting and text helpers.
- `tests/` — tests of the library on concrete values.
- `app/` — the program around the library: command line, configuration
  file, token signing, name resolution, blob files on disk, and the loop
  that serves a blob by running the library's tee steps.

Calls into `sha2`, `hex`, `url`, `chrono`, `toml` and a few `std` string
functions stand behind small trusted wrappers whose contracts are stated
next to them.
