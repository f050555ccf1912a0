# ncheap

A command-line tool for the Namecheap registrar API, built for terminal use
and AI-agent operability: structured `--json` output, meaningful exit codes,
and non-interactive operation by default.

The library (`src/`) is written in Verus: every function carries a
`requires`/`ensures` contract that the verifier proves. The command line
around it (`app/`) is ordinary Rust: argument parsing, the HTTP transport,
XML and JSON (de)serialization, files, and the floating-point price checks.

## Layout

- `src/text.rs` — string operations the rest is specified over (ASCII case,
  decimals, trimming, search and replace, padded columns).
- `src/config.rs` — credential resolution: a profile from the config file,
  overridden field by field by `NCHEAP_*` variables; the config file's
  permission check.
- `src/domain.rs` — IDN normalization and the Public Suffix List split.
- `src/api.rs`, `src/api/xml.rs` — the client (read-only allowlist,
  production-mutation gate, one retry for reads, key redaction) and the
  response envelope, dates and booleans.
- `src/output.rs` — the `--json` envelope.
- `src/commands/` — each command's checks, decisions, result shaping and
  human-readable output: domains, dns, account, privacy, transfer, raw,
  audit, doctor, pagination, and the pre-flight guards.
- `tests/` — tests of the library.
- `app/` — the `ncheap` binary.

## Laws proved

Among the properties stated and proved in `src/`: the error kind decides
the exit code; redaction leaves neither the raw nor the percent-encoded key
in a message; every request goes to the profile's own endpoint, and its
result is the transport's actual reply, classified; a read is retried once,
exactly when its first reply was HTTP 429 or a 5xx; a refused mutation
sends nothing, a permitted one is sent exactly once, and one whose intent
is missing from the journal never goes out; the production-mutation gate
refuses a mutation before any preparatory read; parameters accepted by `raw` never override
credentials; removing an added DNS record restores the zone; a whole
listing gathers exactly its pages in order and never asks for more than 100
pages; canonicalizing a command name is idempotent unless the
result still begins with "namecheap." (as for "NAMECHEAP.x"); two profiles share a
pricing cache file only when they have the same name and sandbox flag;
ISO date normalization is idempotent; the environment overrides the config
file but cannot arm production mutations; production purchases are refused
until a spend cap is set; audit findings come ranked and the summary counts
every one of them.
