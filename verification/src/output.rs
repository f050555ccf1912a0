//! The `--json` envelope: every command answers with the same shape, so a
//! caller tells success from failure by `ok` alone and reads the error's
//! kind, API code and message from one place.
use vstd::prelude::*;

use crate::api::{error_message, kind_of, Error};
use crate::config::Profile;
use crate::text::owned;

verus! {

/// The envelope schema version.
pub const SCHEMA: u32 = 3;

/// Who answered: the profile, whether it is the sandbox, and how many API
/// calls the command made.
pub struct Meta {
    pub profile: String,
    pub sandbox: bool,
    pub api_calls: u32,
}

/// A failure as the envelope reports it.
pub struct Failure {
    pub kind: &'static str,
    /// The API's error number; only API errors carry one.
    pub code: Option<String>,
    pub message: String,
}

/// One command's answer: `data` on success, `error` on failure, never
/// both; `meta` is absent when the failure came before a profile resolved.
pub struct Envelope<D> {
    pub schema: u32,
    pub ok: bool,
    pub command: String,
    pub data: Option<D>,
    pub error: Option<Failure>,
    pub meta: Option<Meta>,
}

/// Whether `m` describes `p` after `api_calls` calls.
pub open spec fn describes(m: Meta, p: Profile, api_calls: u32) -> bool {
    &&& m.profile@ == p.name@
    &&& m.sandbox == p.sandbox
    &&& m.api_calls == api_calls
}

/// Whether `f` reports `e`.
pub open spec fn reports(f: Failure, e: Error) -> bool {
    &&& f.kind@ == kind_of(e)
    &&& f.message@ == error_message(e)
    &&& match e {
        Error::Api { code, .. } => f.code matches Some(c) && c@ == code@,
        _ => f.code is None,
    }
}

fn meta_of(profile: &Profile, api_calls: u32) -> (m: Meta)
    ensures
        describes(m, *profile, api_calls),
{
    Meta { profile: profile.name.clone(), sandbox: profile.sandbox, api_calls }
}

/// The success envelope of `command` with its result.
pub fn success_envelope<D>(command: &str, data: D, profile: &Profile, api_calls: u32) -> (r: Envelope<
    D,
>)
    ensures
        r.schema == SCHEMA,
        r.ok,
        r.command@ == command@,
        r.data == Some(data),
        r.error is None,
        r.meta matches Some(m) && describes(m, *profile, api_calls),
{
    Envelope {
        schema: SCHEMA,
        ok: true,
        command: owned(command),
        data: Some(data),
        error: None,
        meta: Some(meta_of(profile, api_calls)),
    }
}

/// The failure envelope of `command`: no data, the error's kind, code and
/// message, and the profile's meta when one had resolved.
pub fn failure_envelope<D>(command: &str, err: &Error, profile: Option<&Profile>, api_calls: u32) -> (r:
    Envelope<D>)
    ensures
        r.schema == SCHEMA,
        !r.ok,
        r.command@ == command@,
        r.data is None,
        r.error matches Some(f) && reports(f, *err),
        match profile {
            Some(p) => r.meta matches Some(m) && describes(m, *p, api_calls),
            None => r.meta is None,
        },
{
    let code = match err.code() {
        Some(c) => Some(owned(c)),
        None => None,
    };
    let failure = Failure { kind: err.kind(), code, message: err.message() };
    Envelope {
        schema: SCHEMA,
        ok: false,
        command: owned(command),
        data: None,
        error: Some(failure),
        meta: match profile {
            Some(p) => Some(meta_of(p, api_calls)),
            None => None,
        },
    }
}

} // verus!
