# secreton_api

The request-handling core of the Secreton secret manager's API layer,
written in Verus: the rules that decide who may do what, how secrets,
keys and audit records are stored and read back, how the vault is
initialized, sealed and unsealed, and how requests are admitted, each
stated as a contract and proved. Flows that alternate storage or service
calls with decisions (login, authenticate, cached reads, unsealing) are
split into step functions: the decisions are here, the calls are made by
the caller.

- `src/` is the verified library, one module per area (secrets, keys,
  auth, audit, admin, seal, totp, access, pki, database, lifecycle,
  monitoring, runtime, ...). `src/laws.rs` states the properties that span
  several operations.
- `tests/` exercises the library on concrete values.
- `app/` holds what cannot be verified: serialisable copies of the data
  types, process-wide state and clocks, probes of the host and the
  floating-point parts of monitoring.
