//! Direct calls of allowlisted read-only methods with user parameters.
use vstd::prelude::*;

use crate::api::{
    canonical, canonical_command, is_read_only, pair_view, params_view, read_only_command,
    read_only_command_names, read_only_commands, request_form, Client, Error, Transport,
};
use super::domains::{nothing_sent, read_made};
use crate::config::Profile;
use crate::text::{
    ascii_lowercase, chars_of, concat3, debug_quoted, join, join_strings, lower, quoted, str_eq,
    string_of,
};

verus! {

/// Authentication and routing parameters the client sets itself.
pub open spec fn reserved(key: Seq<char>) -> bool {
    let k = lower(key);
    k == "apiuser"@ || k == "apikey"@ || k == "username"@ || k == "command"@ || k == "clientip"@
}

/// Index of the first `=` in `s`.
pub open spec fn first_eq(s: Seq<char>) -> Option<int> {
    if exists|i: int| 0 <= i < s.len() && s[i] == '=' {
        Some(choose|i: int| 0 <= i < s.len() && s[i] == '=' && forall|j: int| 0 <= j < i ==> s[j] != '=')
    } else {
        None
    }
}

pub open spec fn not_pair_message(p: Seq<char>) -> Seq<char> {
    "--param "@ + quoted(p) + " is not KEY=VALUE"@
}

pub open spec fn reserved_message(k: Seq<char>) -> Seq<char> {
    "--param "@ + k + " is reserved: authentication parameters are set from the profile"@
}

/// How one `--param` argument parses: split at its first `=`, refused
/// without one or when the key is reserved.
pub open spec fn param_outcome(p: Seq<char>, r: Result<(String, String), Error>) -> bool {
    match first_eq(p) {
        None => r matches Err(Error::Usage(m)) && m@ == not_pair_message(p),
        Some(i) => if reserved(p.take(i)) {
            r matches Err(Error::Usage(m)) && m@ == reserved_message(p.take(i))
        } else {
            r matches Ok((k, v)) && k@ == p.take(i) && v@ == p.skip(i + 1)
        },
    }
}

/// Whether one `--param` argument is accepted.
pub open spec fn param_ok(p: Seq<char>) -> bool {
    first_eq(p) matches Some(i) && !reserved(p.take(i))
}

fn is_reserved(k: &str) -> (r: bool)
    ensures
        r == reserved(k@),
{
    let l = ascii_lowercase(k);
    str_eq(l.as_str(), "apiuser") || str_eq(l.as_str(), "apikey") || str_eq(l.as_str(), "username")
        || str_eq(l.as_str(), "command") || str_eq(l.as_str(), "clientip")
}

/// Parse one `--param KEY=VALUE` argument.
pub fn parse_param(p: &str) -> (r: Result<(String, String), Error>)
    ensures
        param_outcome(p@, r),
{
    let v = chars_of(p);
    let mut i: usize = 0;
    while i < v.len() && v[i] != '='
        invariant
            v@ == p@,
            i <= v@.len(),
            forall|j: int| 0 <= j < i ==> v@[j] != '=',
        decreases v@.len() - i,
    {
        i = i + 1;
    }
    if i == v.len() {
        assert(first_eq(p@) is None);
        return Err(Error::Usage(concat3("--param ", debug_quoted(p).as_str(), " is not KEY=VALUE")));
    }
    proof {
        let k = choose|k: int| 0 <= k < p@.len() && p@[k] == '=' && forall|j: int| 0 <= j < k ==> p@[j] != '=';
        assert(0 <= i < p@.len() && p@[i as int] == '=');
        if k < i {
        } else if k > i {
        }
        assert(first_eq(p@) == Some(i as int));
    }
    let key = string_of(&v.as_slice()[0..i]);
    assert(key@ =~= p@.take(i as int));
    if is_reserved(key.as_str()) {
        return Err(
            Error::Usage(
                concat3(
                    "--param ",
                    key.as_str(),
                    " is reserved: authentication parameters are set from the profile",
                ),
            ),
        );
    }
    let value = string_of(&v.as_slice()[i + 1..v.len()]);
    assert(value@ =~= p@.skip(i + 1));
    Ok((key, value))
}

/// Parse repeated `--param KEY=VALUE` arguments; the first bad one decides
/// the error.
pub fn parse_params(raw: &[String]) -> (r: Result<Vec<(String, String)>, Error>)
    ensures
        match r {
            Ok(pairs) => pairs@.len() == raw@.len() && forall|i: int|
                0 <= i < raw@.len() ==> param_outcome(raw@[i]@, Ok(#[trigger] pairs@[i])),
            Err(e) => exists|i: int|
                #![trigger raw@[i]]
                0 <= i < raw@.len() && param_outcome(raw@[i]@, Err(e)) && forall|j: int|
                    0 <= j < i ==> param_ok(#[trigger] raw@[j]@),
        },
{
    let mut out: Vec<(String, String)> = Vec::new();
    let mut i: usize = 0;
    while i < raw.len()
        invariant
            i <= raw@.len(),
            out@.len() == i,
            forall|j: int| 0 <= j < i ==> param_outcome(raw@[j]@, Ok(#[trigger] out@[j])),
        decreases raw@.len() - i,
    {
        let res = parse_param(raw[i].as_str());
        match res {
            Ok(pair) => {
                out.push(pair);
            },
            Err(e) => {
                assert forall|j: int| 0 <= j < i implies param_ok(#[trigger] raw@[j]@) by {
                    assert(param_outcome(raw@[j]@, Ok(out@[j])));
                }
                assert(param_outcome(raw@[i as int]@, Err(e)));
                return Err(e);
            },
        }
        i = i + 1;
    }
    Ok(out)
}

/// Authentication parameters cannot be supplied through `--param`: for
/// any arguments `parse_params` accepts, the form sent for them carries the
/// profile's credentials and command in the five leading entries, and no
/// entry after those has a reserved name.
pub proof fn accepted_params_keep_profile_credentials(
    profile: Profile,
    command: Seq<char>,
    raw: Seq<String>,
    pairs: Seq<(String, String)>,
)
    requires
        pairs.len() == raw.len(),
        forall|i: int| 0 <= i < raw.len() ==> param_outcome(raw[i]@, Ok(#[trigger] pairs[i])),
    ensures
        ({
            let form = request_form(profile, command, pairs.map_values(|p: (String, String)| pair_view(p)));
            &&& form.len() == 5 + pairs.len()
            &&& form[0] == ("ApiUser"@, profile.api_user@)
            &&& form[1] == ("ApiKey"@, profile.api_key@)
            &&& form[2] == ("UserName"@, profile.username@)
            &&& form[3] == ("Command"@, "namecheap."@ + command)
            &&& form[4] == ("ClientIp"@, profile.client_ip@)
            &&& forall|i: int| 5 <= i < form.len() ==> !reserved(#[trigger] form[i].0)
        }),
{
    let form = request_form(profile, command, pairs.map_values(|p: (String, String)| pair_view(p)));
    assert forall|i: int| 5 <= i < form.len() implies !reserved(#[trigger] form[i].0) by {
        assert(form[i] == pair_view(pairs[i - 5]));
        assert(param_outcome(raw[i - 5]@, Ok(pairs[i - 5])));
    }
}

/// The refusal of a method off the allowlist: the method, and the whole
/// allowlist, comma-separated.
pub open spec fn not_allowlisted_message(command: Seq<char>) -> Seq<char> {
    quoted(command) + " is not on the read-only allowlist; allowed: "@ + join(
        read_only_commands(),
        ", "@,
    )
}

/// Call an allowlisted read-only method and return the raw body. Methods
/// off the allowlist are a usage error here, before any request.
pub fn call<T: Transport>(client: &mut Client<T>, command: &str, params: &[(String, String)]) -> (r:
    Result<String, Error>)
    requires
        old(client).call_count() < u32::MAX,
    ensures
        final(client).profile_state() == old(client).profile_state(),
        !is_read_only(canonical(command@)) ==> (r matches Err(Error::Usage(m)) && m@
            == not_allowlisted_message(command@)) && nothing_sent(*old(client), *final(client)),
        is_read_only(canonical(command@)) ==> read_made(
            *old(client),
            *final(client),
            request_form(
                old(client).profile_state(),
                canonical(command@),
                params@.map_values(|p: (String, String)| pair_view(p)),
            ),
            r,
        ),
{
    let canonical = canonical_command(command);
    if !read_only_command(canonical.as_str()) {
        let names = read_only_command_names();
        let m = concat3(
            debug_quoted(command).as_str(),
            " is not on the read-only allowlist; allowed: ",
            join_strings(&names, ", ").as_str(),
        );
        return Err(Error::Usage(m));
    }
    let mut refs: Vec<(&str, &str)> = Vec::new();
    let mut i: usize = 0;
    while i < params.len()
        invariant
            i <= params@.len(),
            params_view(refs@) == params@.take(i as int).map_values(
                |p: (String, String)| pair_view(p),
            ),
        decreases params@.len() - i,
    {
        let ghost before = refs@;
        refs.push((params[i].0.as_str(), params[i].1.as_str()));
        proof {
            assert(params@.take(i + 1) =~= params@.take(i as int).push(params@[i as int]));
            assert(params_view(refs@) =~= params_view(before).push(pair_view(params@[i as int])));
            assert(params@.take(i + 1).map_values(|p: (String, String)| pair_view(p))
                =~= params@.take(i as int).map_values(|p: (String, String)| pair_view(p)).push(
                pair_view(params@[i as int]),
            ));
        }
        i = i + 1;
    }
    proof {
        assert(params@.take(params@.len() as int) =~= params@);
        crate::api::lemma_read_only_is_canonical(canonical@);
    }
    client.call(canonical.as_str(), refs.as_slice())
}

} // verus!
