//! Inbound transfers: the checks before a transfer is ordered, and the
//! shaping of the parsed create and status responses.
use vstd::prelude::*;

use super::domains::{form_view, purchase_target, purchase_target_outcome, read_made};
use crate::api::{canonical, lemma_unprefixed_plain, params_view, request_form, Client, Error, Transport};
use crate::config::Profile;
use crate::text::{
    concat3, lemma_safe_lines_push, owned, push_safe_line, safe_lines, trim, trim_str,
};

verus! {

pub open spec fn epp_code_message() -> Seq<char> {
    "an EPP/auth code from the current registrar is required (--epp-code)"@
}

/// The checks before a transfer: the purchase gate, normalization and
/// split of the domain, then a non-blank EPP/auth code.
pub open spec fn transfer_target_outcome(
    p: Profile,
    domain: Seq<char>,
    epp_code: Seq<char>,
    r: Result<(String, String), Error>,
) -> bool {
    exists|t: Result<(String, String), Error>|
        #![trigger purchase_target_outcome(p, domain, t)]
        purchase_target_outcome(p, domain, t) && match t {
            Err(e) => r == Err::<(String, String), Error>(e),
            Ok((d, tld)) => if trim(epp_code).len() == 0 {
                r matches Err(Error::Usage(m)) && m@ == epp_code_message()
            } else {
                r == Ok::<(String, String), Error>((d, tld))
            },
        }
}

/// Check a transfer request before anything is priced or sent: gives the
/// normalized domain and its TLD.
pub fn prepare_create<T: Transport>(client: &Client<T>, domain: &str, epp_code: &str) -> (r:
    Result<(String, String), Error>)
    ensures
        transfer_target_outcome(client.profile_state(), domain@, epp_code@, r),
{
    let target = purchase_target(client, domain);
    let ghost t = target;
    assert(purchase_target_outcome(client.profile_state(), domain@, t));
    match target {
        Err(e) => Err(e),
        Ok((d, tld)) => {
            let trimmed = trim_str(epp_code);
            if trimmed.as_str().unicode_len() == 0 {
                Err(Error::Usage(owned("an EPP/auth code from the current registrar is required (--epp-code)")))
            } else {
                Ok((d, tld))
            }
        },
    }
}

/// The parsed `domains.transfer.create` outcome.
pub struct CreateResponse {
    /// The API spells this attribute "Domainname"; empty when absent.
    pub domain: String,
    pub transfer: bool,
    pub transfer_id: String,
    pub order_id: String,
    pub transaction_id: String,
    pub charged_amount: String,
    pub status_id: String,
}

pub struct CreateResult {
    pub domain: String,
    pub accepted: bool,
    pub transfer_id: String,
    pub status_id: String,
    pub listed_price: String,
    pub charged_amount: String,
    pub charged_exceeded_max_price: bool,
    pub order_id: String,
    pub transaction_id: String,
}

/// The transfer result: the domain the API echoed (the requested one when
/// it echoed none), with the listed price the guard approved and whether
/// the actual charge exceeded the caller's maximum.
pub fn create_result(
    domain: String,
    resp: CreateResponse,
    listed_price: String,
    charged_exceeded_max_price: bool,
) -> (r: CreateResult)
    ensures
        r.domain@ == if resp.domain@.len() == 0 {
            domain@
        } else {
            resp.domain@
        },
        r.accepted == resp.transfer,
        r.transfer_id == resp.transfer_id,
        r.status_id == resp.status_id,
        r.listed_price == listed_price,
        r.charged_amount == resp.charged_amount,
        r.charged_exceeded_max_price == charged_exceeded_max_price,
        r.order_id == resp.order_id,
        r.transaction_id == resp.transaction_id,
{
    let echoed = resp.domain.as_str().unicode_len() > 0;
    CreateResult {
        domain: if echoed {
            resp.domain
        } else {
            domain
        },
        accepted: resp.transfer,
        transfer_id: resp.transfer_id,
        status_id: resp.status_id,
        listed_price,
        charged_amount: resp.charged_amount,
        charged_exceeded_max_price,
        order_id: resp.order_id,
        transaction_id: resp.transaction_id,
    }
}

/// The parsed `domains.transfer.getStatus` outcome.
pub struct StatusResponse {
    pub transfer_id: String,
    pub status: String,
    pub status_id: String,
}

pub struct StatusResult {
    pub transfer_id: String,
    pub status: String,
    pub status_id: String,
}

/// The `domains.transfer.create` form: the domain, one year (a transfer
/// adds one year), and the EPP/auth code.
pub fn create_params(domain: &str, epp_code: &str) -> (r: Vec<(String, String)>)
    ensures
        form_view(r@) == seq![("DomainName"@, domain@), ("Years"@, "1"@), ("EPPCode"@, epp_code@)],
{
    let mut out: Vec<(String, String)> = Vec::new();
    out.push((owned("DomainName"), owned(domain)));
    out.push((owned("Years"), owned("1")));
    out.push((owned("EPPCode"), owned(epp_code)));
    assert(form_view(out@) =~= seq![
        ("DomainName"@, domain@),
        ("Years"@, "1"@),
        ("EPPCode"@, epp_code@),
    ]);
    out
}

/// Read the status of a transfer by its TransferID with the read-only
/// `domains.transfer.getStatus`. Gives the response body.
pub fn status_request<T: Transport>(client: &mut Client<T>, transfer_id: &str) -> (r: Result<
    String,
    Error,
>)
    requires
        old(client).call_count() < u32::MAX,
    ensures
        final(client).profile_state() == old(client).profile_state(),
        read_made(
            *old(client),
            *final(client),
            request_form(
                old(client).profile_state(),
                "domains.transfer.getStatus"@,
                seq![("TransferID"@, transfer_id@)],
            ),
            r,
        ),
{
    proof {
        reveal_strlit("domains.transfer.getStatus");
        reveal_strlit("domains.transfer.getstatus");
        lemma_unprefixed_plain("domains.transfer.getStatus"@);
        assert(canonical("domains.transfer.getStatus"@) =~= "domains.transfer.getstatus"@);
    }
    let params = [("TransferID", transfer_id)];
    assert(params_view(params@) =~= seq![("TransferID"@, transfer_id@)]);
    client.call("domains.transfer.getStatus", &params)
}

/// The transfer status, field for field.
pub fn status(resp: StatusResponse) -> (r: StatusResult)
    ensures
        r.transfer_id == resp.transfer_id,
        r.status == resp.status,
        r.status_id == resp.status_id,
{
    StatusResult { transfer_id: resp.transfer_id, status: resp.status, status_id: resp.status_id }
}

pub open spec fn create_line(r: CreateResult) -> Seq<char> {
    r.domain@ + ": transfer "@ + (if r.accepted {
        "accepted"@
    } else {
        "NOT accepted"@
    }) + " (id "@ + r.transfer_id@ + ", status_id "@ + r.status_id@ + ") \u{2014} listed "@
        + r.listed_price@ + ", charged "@ + r.charged_amount@ + " (order "@ + r.order_id@
        + ", transaction "@ + r.transaction_id@ + ")"@
}

/// The transfer result as a person reads it.
pub fn render_create(r: &CreateResult) -> (text: String)
    ensures
        text@ == safe_lines(seq![create_line(*r)]),
{
    let mut line = concat3(r.domain.as_str(), ": transfer ", if r.accepted {
        "accepted"
    } else {
        "NOT accepted"
    });
    line.push_str(" (id ");
    line.push_str(r.transfer_id.as_str());
    line.push_str(", status_id ");
    line.push_str(r.status_id.as_str());
    line.push_str(") \u{2014} listed ");
    line.push_str(r.listed_price.as_str());
    line.push_str(", charged ");
    line.push_str(r.charged_amount.as_str());
    line.push_str(" (order ");
    line.push_str(r.order_id.as_str());
    line.push_str(", transaction ");
    line.push_str(r.transaction_id.as_str());
    line.push_str(")");
    assert(line@ =~= create_line(*r));
    let mut text = String::new();
    push_safe_line(&mut text, line.as_str());
    proof {
        lemma_safe_lines_push(seq![], create_line(*r));
        assert(seq![create_line(*r)] =~= Seq::<Seq<char>>::empty().push(create_line(*r)));
    }
    text
}

pub open spec fn status_line(r: StatusResult) -> Seq<char> {
    "transfer "@ + r.transfer_id@ + ": "@ + r.status@ + " (status_id "@ + r.status_id@ + ")"@
}

/// The transfer status as a person reads it.
pub fn render_status(r: &StatusResult) -> (text: String)
    ensures
        text@ == safe_lines(seq![status_line(*r)]),
{
    let mut line = concat3("transfer ", r.transfer_id.as_str(), ": ");
    line.push_str(r.status.as_str());
    line.push_str(" (status_id ");
    line.push_str(r.status_id.as_str());
    line.push_str(")");
    assert(line@ =~= status_line(*r));
    let mut text = String::new();
    push_safe_line(&mut text, line.as_str());
    proof {
        lemma_safe_lines_push(seq![], status_line(*r));
        assert(seq![status_line(*r)] =~= Seq::<Seq<char>>::empty().push(status_line(*r)));
    }
    text
}

} // verus!
