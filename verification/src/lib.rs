//! A Namecheap registrar API client library: credential resolution, the
//! read-only allowlist and production-mutation gate, request assembly and
//! response interpretation, and each command's checks, decisions and output,
//! each with a proved contract.
pub mod api;
pub mod commands;
pub mod config;
pub mod domain;
pub mod output;
pub mod text;
