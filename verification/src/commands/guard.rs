//! The guards a command passes before anything is sent: the profile the
//! operator expected, and the confirmation of a mutation.
use vstd::prelude::*;

use crate::api::Error;
use crate::config::Profile;
use crate::text::{ascii_lowercase, concat3, debug_quoted, lower, owned, quoted, str_eq, trim, trim_str};

verus! {

pub open spec fn unexpected_profile_message(expected: Seq<char>, resolved: Seq<char>) -> Seq<char> {
    "resolved profile "@ + quoted(resolved) + " is not the expected "@ + quoted(expected)
        + "; refusing before any API call"@
}

/// `--expect-profile`: when given, the resolved profile must carry that
/// name (guards against a leaked `NCHEAP_PROFILE` switching accounts).
pub fn expect_profile(expected: Option<&str>, resolved: &Profile) -> (r: Result<(), Error>)
    ensures
        match expected {
            None => r is Ok,
            Some(e) => if e@ == resolved.name@ {
                r is Ok
            } else {
                r matches Err(Error::Policy(m)) && m@ == unexpected_profile_message(
                    e@,
                    resolved.name@,
                )
            },
        },
{
    match expected {
        None => Ok(()),
        Some(e) => {
            if str_eq(e, resolved.name.as_str()) {
                Ok(())
            } else {
                let mut m = concat3(
                    "resolved profile ",
                    debug_quoted(resolved.name.as_str()).as_str(),
                    " is not the expected ",
                );
                m.push_str(debug_quoted(e).as_str());
                m.push_str("; refusing before any API call");
                Err(Error::Policy(m))
            }
        },
    }
}

/// What a mutation needs before it may run.
pub enum Confirmation {
    /// Confirmed (`--yes`): go ahead.
    Proceed,
    /// Ask the operator at the terminal.
    Ask,
}

pub open spec fn unconfirmed_message() -> Seq<char> {
    "this command changes registrar state; pass --yes to confirm (required for non-interactive use)"@
}

pub open spec fn declined_message() -> Seq<char> {
    "not confirmed; nothing was changed"@
}

/// A mutation runs with `--yes`; without it, an interactive session is
/// asked and a non-interactive one is refused.
pub fn confirm_mutation(yes: bool, interactive: bool) -> (r: Result<Confirmation, Error>)
    ensures
        yes ==> r matches Ok(Confirmation::Proceed),
        !yes && interactive ==> r matches Ok(Confirmation::Ask),
        !yes && !interactive ==> (r matches Err(Error::Usage(m)) && m@ == unconfirmed_message()),
{
    if yes {
        Ok(Confirmation::Proceed)
    } else if interactive {
        Ok(Confirmation::Ask)
    } else {
        Err(
            Error::Usage(
                owned(
                    "this command changes registrar state; pass --yes to confirm (required for non-interactive use)",
                ),
            ),
        )
    }
}

/// The operator's answer confirms: `y` or `yes`, in any case, with
/// surrounding whitespace ignored.
pub open spec fn confirms(answer: Seq<char>) -> bool {
    lower(trim(answer)) == "y"@ || lower(trim(answer)) == "yes"@
}

/// Read the operator's answer: confirmed, or refused as not confirmed.
pub fn accept_answer(answer: &str) -> (r: Result<(), Error>)
    ensures
        confirms(answer@) ==> r is Ok,
        !confirms(answer@) ==> (r matches Err(Error::Usage(m)) && m@ == declined_message()),
{
    let a = ascii_lowercase(trim_str(answer).as_str());
    if str_eq(a.as_str(), "y") || str_eq(a.as_str(), "yes") {
        Ok(())
    } else {
        Err(Error::Usage(owned("not confirmed; nothing was changed")))
    }
}

} // verus!
