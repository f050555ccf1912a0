//! Domain arguments: IDN input normalized to punycode, then split into
//! (SLD, TLD) by the Public Suffix List. Subdomains are refused with a
//! suggestion rather than silently trimmed.
use vstd::prelude::*;

use vstd::utf8::{encode_utf8, is_ascii_chars, is_ascii_chars_encode_utf8};

use crate::api::Error;
use crate::config::opt_view;
use crate::text::{
    concat2, concat3, debug_quoted, prefix_to, quoted, suffix_from, trim, trim_end_char,
    trim_end_matches_char, trim_str,
};

verus! {

/// What `idna::domain_to_ascii` returns for a domain: its ASCII (punycode)
/// form, or nothing when the name is invalid.
pub uninterp spec fn idna_to_ascii(domain: Seq<char>) -> Option<Seq<char>>;

/// What `psl::domain` returns for a name: the registrable domain and its
/// public suffix, as bytes, or nothing.
pub uninterp spec fn psl_registrable(name: Seq<u8>) -> Option<(Seq<u8>, Seq<u8>)>;

/// `idna::domain_to_ascii` (UTS #46 ToASCII without the STD3 deny list).
/// Claimed: the result is the named function of the input, and on success
/// it is ASCII, as the crate documents ("the ASCII representation").
#[verifier::external_body]
fn domain_to_ascii(domain: &str) -> (r: Option<String>)
    ensures
        opt_view(r) == idna_to_ascii(domain@),
        r matches Some(a) ==> is_ascii_chars(a@),
{
    idna::domain_to_ascii(domain).ok()
}

/// How a registrable domain sits inside the name it was found in, as
/// `psl_types::List::domain` builds it: a tail of the name, ending in a
/// non-empty suffix that leaves room for a label and a dot before it.
pub open spec fn registrable_shape(name: Seq<u8>, reg: Seq<u8>, suffix: Seq<u8>) -> bool {
    &&& reg.len() <= name.len()
    &&& name.skip(name.len() - reg.len()) == reg
    &&& suffix.len() >= 1
    &&& suffix.len() + 1 <= reg.len()
    &&& reg.skip(reg.len() - suffix.len()) == suffix
}

/// `psl::domain` with the registrable domain's and its suffix's bytes.
/// Claimed: the result is the named function of the input, shaped as the
/// psl-types source builds it (`List::suffix` and `List::domain`).
#[verifier::external_body]
fn registrable_domain(name: &[u8]) -> (r: Option<(Vec<u8>, Vec<u8>)>)
    ensures
        match r {
            Some((d, s)) => psl_registrable(name@) == Some((d@, s@)) && registrable_shape(
                name@,
                d@,
                s@,
            ),
            None => psl_registrable(name@) is None,
        },
{
    match psl::domain(name) {
        Some(d) => Some((d.as_bytes().to_vec(), d.suffix().as_bytes().to_vec())),
        None => None,
    }
}

/// Bytes read back as characters, one each (for ASCII).
pub open spec fn bytes_chars(b: Seq<u8>) -> Seq<char> {
    b.map_values(|x: u8| x as char)
}

/// The name handed to IDNA: surrounding whitespace and trailing dots removed.
pub open spec fn trimmed_domain(input: Seq<char>) -> Seq<char> {
    trim_end_char(trim(input), '.')
}

/// The split of an ASCII name given what the suffix list found in it.
pub open spec fn registrable_outcome(
    input: Seq<char>,
    ascii: Seq<char>,
    lookup: Option<(Seq<u8>, Seq<u8>)>,
    r: Result<(String, String), Error>,
) -> bool {
    match lookup {
        None => r matches Err(Error::Usage(m)) && m@ == "cannot determine a registrable domain in "@
            + quoted(input),
        Some((reg, suffix)) => if bytes_chars(reg) != ascii {
            r matches Err(Error::Usage(m)) && m@ == quoted(input)
                + " is not a registrable domain (did you mean "@ + bytes_chars(reg) + "?)"@
        } else {
            r matches Ok((sld, tld)) && sld@ == ascii.take(ascii.len() - suffix.len() - 1) && tld@
                == ascii.skip(ascii.len() - suffix.len())
        },
    }
}

/// The complete outcome of `split_sld_tld`.
pub open spec fn split_outcome(input: Seq<char>, r: Result<(String, String), Error>) -> bool {
    match idna_to_ascii(trimmed_domain(input)) {
        None => r matches Err(Error::Usage(m)) && m@ == "invalid domain name "@ + quoted(input),
        Some(ascii) => registrable_outcome(input, ascii, psl_registrable(encode_utf8(ascii)), r),
    }
}

fn chars_of_bytes(b: &Vec<u8>) -> (r: String)
    ensures
        r@ == bytes_chars(b@),
{
    let mut r = String::new();
    let mut i: usize = 0;
    while i < b.len()
        invariant
            i <= b@.len(),
            r@ == bytes_chars(b@).take(i as int),
        decreases b@.len() - i,
    {
        r.push(b[i] as char);
        i = i + 1;
        assert(r@ =~= bytes_chars(b@).take(i as int));
    }
    assert(bytes_chars(b@).take(b@.len() as int) =~= bytes_chars(b@));
    r
}

/// Split an ASCII name into (SLD, TLD) given the suffix list's answer for
/// it: refused when nothing registrable was found or when the name is
/// longer than its registrable domain (a subdomain).
pub fn split_registrable(input: &str, ascii: &str, lookup: Option<(Vec<u8>, Vec<u8>)>) -> (r:
    Result<(String, String), Error>)
    requires
        is_ascii_chars(ascii@),
        lookup matches Some((d, s)) ==> registrable_shape(encode_utf8(ascii@), d@, s@),
    ensures
        registrable_outcome(
            input@,
            ascii@,
            match lookup {
                Some((d, s)) => Some((d@, s@)),
                None => None,
            },
            r,
        ),
{
    match lookup {
        None => Err(
            Error::Usage(
                concat2("cannot determine a registrable domain in ", debug_quoted(input).as_str()),
            ),
        ),
        Some((reg, suffix)) => {
            let reg_text = chars_of_bytes(&reg);
            proof {
                is_ascii_chars_encode_utf8(ascii@);
            }
            let n = ascii.unicode_len();
            let ghost name = encode_utf8(ascii@);
            if reg.len() != n {
                assert(bytes_chars(reg@).len() != ascii@.len());
                let mut m = concat3(
                    debug_quoted(input).as_str(),
                    " is not a registrable domain (did you mean ",
                    reg_text.as_str(),
                );
                m.push_str("?)");
                return Err(Error::Usage(m));
            }
            proof {
                assert(name.skip(0) =~= name);
                assert forall|i: int| 0 <= i < ascii@.len() implies bytes_chars(reg@)[i]
                    == ascii@[i] by {
                    assert(reg@[i] == name[i]);
                    assert(name[i] == ascii@[i] as u8);
                    assert(ascii@[i] <= '\u{7f}');
                }
                assert(bytes_chars(reg@) =~= ascii@);
            }
            let sld = prefix_to(ascii, n - suffix.len() - 1);
            let tld = suffix_from(ascii, n - suffix.len());
            Ok((sld, tld))
        },
    }
}

/// Split a registrable domain into the (SLD, TLD) pair the dns.* methods
/// require. IDN input is normalized to punycode first; multi-label
/// suffixes like co.uk land in the TLD whole; subdomains are refused.
pub fn split_sld_tld(input: &str) -> (r: Result<(String, String), Error>)
    ensures
        split_outcome(input@, r),
{
    let trimmed = trim_end_matches_char(trim_str(input).as_str(), '.');
    let ascii = match domain_to_ascii(trimmed.as_str()) {
        Some(a) => a,
        None => {
            return Err(Error::Usage(concat2("invalid domain name ", debug_quoted(input).as_str())));
        },
    };
    let lookup = registrable_domain(ascii.as_str().as_bytes());
    split_registrable(input, ascii.as_str(), lookup)
}

/// The normalized form of a domain argument, when it has one.
pub open spec fn normal_form(input: Seq<char>) -> Option<Seq<char>> {
    match idna_to_ascii(trimmed_domain(input)) {
        None => None,
        Some(a) => match psl_registrable(encode_utf8(a)) {
            None => None,
            Some((reg, suffix)) => if bytes_chars(reg) != a {
                None
            } else {
                Some(a.take(a.len() - suffix.len() - 1) + "."@ + a.skip(a.len() - suffix.len()))
            },
        },
    }
}

/// The normalized form of a domain argument: `sld.tld`.
pub open spec fn normalized(input: Seq<char>, r: Result<String, Error>) -> bool {
    exists|split: Result<(String, String), Error>|
        #![trigger split_outcome(input, split)]
        split_outcome(input, split) && match split {
            Ok((sld, tld)) => r matches Ok(n) && n@ == sld@ + "."@ + tld@,
            Err(e) => r == Err::<String, Error>(e),
        }
}

/// Normalize a domain argument for DomainName/DomainList parameters: the
/// same IDN and suffix-list validation as `split_sld_tld`, joined back up.
pub fn normalize(input: &str) -> (r: Result<String, Error>)
    ensures
        normalized(input@, r),
        r matches Ok(n) ==> normal_form(input@) == Some(n@),
        r is Err ==> normal_form(input@) is None,
{
    let split = split_sld_tld(input);
    let ghost s = split;
    match split {
        Ok((sld, tld)) => {
            let r = concat3(sld.as_str(), ".", tld.as_str());
            assert(split_outcome(input@, s));
            Ok(r)
        },
        Err(e) => Err(e),
    }
}

} // verus!
