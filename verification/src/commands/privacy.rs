//! Domain privacy subscriptions: the paginated listing and the mapping
//! from a domain to its subscription ID (the enable/disable API speaks in
//! IDs, callers in domains).
use vstd::prelude::*;

use super::paging::{overflow_message, stalled_message, Pager};
use super::domains::read_made;
use crate::api::{canonical, lemma_unprefixed_plain, request_form, Client, Error, Transport};
use crate::text::{
    add_line, concat2, concat3, decimal, eq_ignore_ascii_case, eq_ignore_case, lines_text, pad_right,
    pad_right_string, plain_lines, views,
};

verus! {

pub struct PrivacySubscription {
    pub id: String,
    pub domain_name: String,
    pub created: String,
    pub expires: String,
    pub status: String,
}

/// One parsed page of `whoisguard.getList`.
pub struct GetListResponse {
    pub subscriptions: Vec<PrivacySubscription>,
    pub total_items: usize,
}

/// The request for one page of the subscription listing: the pager's
/// next page, 100 subscriptions a page.
pub open spec fn list_page_form(page: nat) -> Seq<(Seq<char>, Seq<char>)> {
    seq![("Page"@, decimal(page)), ("PageSize"@, "100"@)]
}

/// Read the pager's next page of the subscription listing with
/// `whoisguard.getList`. Gives the response body.
pub fn list_page<T: Transport>(client: &mut Client<T>, pager: &Pager<PrivacySubscription>) -> (r:
    Result<String, Error>)
    requires
        old(client).call_count() < u32::MAX,
    ensures
        final(client).profile_state() == old(client).profile_state(),
        read_made(
            *old(client),
            *final(client),
            request_form(
                old(client).profile_state(),
                "whoisguard.getList"@,
                list_page_form(pager.page_view()),
            ),
            r,
        ),
{
    let page = pager.page_param();
    proof {
        reveal_strlit("whoisguard.getList");
        reveal_strlit("whoisguard.getlist");
        lemma_unprefixed_plain("whoisguard.getList"@);
        assert(canonical("whoisguard.getList"@) =~= "whoisguard.getlist"@);
    }
    let params = [("Page", page.as_str()), ("PageSize", "100")];
    assert(crate::api::params_view(params@) =~= list_page_form(pager.page_view()));
    client.call("whoisguard.getList", &params)
}

/// Take in one page of the subscription listing (see `Pager::absorb`).
pub fn list(pager: &mut Pager<PrivacySubscription>, resp: GetListResponse) -> (r: Result<bool, Error>)
    requires
        old(pager).wf(),
    ensures
        final(pager).items_view() == old(pager).items_view() + resp.subscriptions@,
        final(pager).wf(),
        ({
            let count = old(pager).items_view().len() + resp.subscriptions@.len();
            if count >= resp.total_items {
                r == Ok::<bool, Error>(true)
            } else if resp.subscriptions@.len() == 0 {
                r matches Err(Error::Parse(m)) && m@ == stalled_message(
                    resp.total_items as nat,
                    old(pager).page_view(),
                )
            } else if old(pager).page_view() >= 100 {
                r matches Err(Error::Parse(m)) && m@ == overflow_message()
            } else {
                r == Ok::<bool, Error>(false) && final(pager).page_view() == old(pager).page_view()
                    + 1
            }
        }),
{
    pager.absorb(resp.subscriptions, resp.total_items)
}

pub open spec fn no_subscription_message(domain: Seq<char>) -> Seq<char> {
    "no domain privacy subscription is associated with "@ + domain
}

/// The subscription ID of a (normalized) domain: the first subscription
/// whose domain matches in any case.
pub fn resolve_id(subs: &Vec<PrivacySubscription>, domain: &str) -> (r: Result<String, Error>)
    ensures
        match r {
            Ok(id) => exists|i: int|
                0 <= i < subs@.len() && eq_ignore_case(#[trigger] subs@[i].domain_name@, domain@)
                    && id@ == subs@[i].id@ && forall|j: int|
                    0 <= j < i ==> !eq_ignore_case(#[trigger] subs@[j].domain_name@, domain@),
            Err(e) => (forall|j: int|
                0 <= j < subs@.len() ==> !eq_ignore_case(#[trigger] subs@[j].domain_name@, domain@))
                && (e matches Error::Usage(m) && m@ == no_subscription_message(domain@)),
        },
{
    let mut i: usize = 0;
    while i < subs.len()
        invariant
            i <= subs@.len(),
            forall|j: int| 0 <= j < i ==> !eq_ignore_case(#[trigger] subs@[j].domain_name@, domain@),
        decreases subs@.len() - i,
    {
        if eq_ignore_ascii_case(subs[i].domain_name.as_str(), domain) {
            return Ok(subs[i].id.clone());
        }
        i = i + 1;
    }
    Err(Error::Usage(concat2("no domain privacy subscription is associated with ", domain)))
}

/// One page of the search for a domain's subscription, which stops paging
/// once the domain is found: `Ok(Some(id))` when this page has it,
/// `Ok(None)` to fetch the next page, and the not-found error once the
/// listing is complete without it.
pub fn resolve_step(
    pager: &mut Pager<PrivacySubscription>,
    resp: GetListResponse,
    domain: &str,
) -> (r: Result<Option<String>, Error>)
    requires
        old(pager).wf(),
    ensures
        final(pager).wf(),
        (exists|i: int|
            0 <= i < resp.subscriptions@.len() && eq_ignore_case(
                #[trigger] resp.subscriptions@[i].domain_name@,
                domain@,
            )) ==> (r matches Ok(Some(id)) && exists|i: int|
            0 <= i < resp.subscriptions@.len() && eq_ignore_case(
                #[trigger] resp.subscriptions@[i].domain_name@,
                domain@,
            ) && id@ == resp.subscriptions@[i].id@ && forall|j: int|
                0 <= j < i ==> !eq_ignore_case(
                    #[trigger] resp.subscriptions@[j].domain_name@,
                    domain@,
                )),
        (forall|i: int|
            0 <= i < resp.subscriptions@.len() ==> !eq_ignore_case(
                #[trigger] resp.subscriptions@[i].domain_name@,
                domain@,
            )) ==> {
            let count = old(pager).items_view().len() + resp.subscriptions@.len();
            &&& final(pager).items_view() == old(pager).items_view() + resp.subscriptions@
            &&& if count >= resp.total_items {
                r matches Err(Error::Usage(m)) && m@ == no_subscription_message(domain@)
            } else if resp.subscriptions@.len() == 0 {
                r matches Err(Error::Parse(m)) && m@ == stalled_message(
                    resp.total_items as nat,
                    old(pager).page_view(),
                )
            } else if old(pager).page_view() >= 100 {
                r matches Err(Error::Parse(m)) && m@ == overflow_message()
            } else {
                r matches Ok(None) && final(pager).page_view() == old(pager).page_view() + 1
            }
        },
{
    match resolve_id(&resp.subscriptions, domain) {
        Ok(id) => {
            return Ok(Some(id));
        },
        Err(e) => {
            match list(pager, resp) {
                Ok(true) => Err(e),
                Ok(false) => Ok(None),
                Err(p) => Err(p),
            }
        },
    }
}

/// The parsed `whoisguard.enable` outcome.
pub struct EnableResponse {
    pub domain_name: String,
    pub is_success: bool,
}

/// The parsed `whoisguard.disable` outcome.
pub struct DisableResponse {
    pub domain_name: String,
    pub is_success: bool,
}

pub struct ToggleResult {
    pub domain: String,
    pub privacy_id: String,
    pub enabled: bool,
    pub is_success: bool,
}

/// The result of enabling privacy.
pub fn enable(resp: EnableResponse, privacy_id: String) -> (r: ToggleResult)
    ensures
        r.domain == resp.domain_name,
        r.privacy_id == privacy_id,
        r.enabled,
        r.is_success == resp.is_success,
{
    ToggleResult { domain: resp.domain_name, privacy_id, enabled: true, is_success: resp.is_success }
}

/// The result of disabling privacy.
pub fn disable(resp: DisableResponse, privacy_id: String) -> (r: ToggleResult)
    ensures
        r.domain == resp.domain_name,
        r.privacy_id == privacy_id,
        !r.enabled,
        r.is_success == resp.is_success,
{
    ToggleResult {
        domain: resp.domain_name,
        privacy_id,
        enabled: false,
        is_success: resp.is_success,
    }
}

// ---------------------------------------------------------------------------
// Human-readable output
// ---------------------------------------------------------------------------

pub open spec fn toggle_line(r: ToggleResult) -> Seq<char> {
    r.domain@ + ": privacy "@ + (if r.enabled {
        "enabled"@
    } else {
        "disabled"@
    }) + " ("@ + (if r.is_success {
        "success"@
    } else {
        "NOT successful"@
    }) + ")"@
}

/// A privacy change as a person reads it.
pub fn render_toggle(r: &ToggleResult) -> (text: String)
    ensures
        text@ == plain_lines(seq![toggle_line(*r)]),
{
    let mut line = concat3(r.domain.as_str(), ": privacy ", if r.enabled {
        "enabled"
    } else {
        "disabled"
    });
    line.push_str(" (");
    line.push_str(if r.is_success { "success" } else { "NOT successful" });
    line.push_str(")");
    let mut lines: Vec<String> = Vec::new();
    add_line(&mut lines, line);
    assert(views(lines@) =~= seq![toggle_line(*r)]);
    lines_text(&lines)
}

pub open spec fn subscription_row(id: Seq<char>, domain: Seq<char>, created: Seq<char>, expires: Seq<char>, status: Seq<char>) -> Seq<char> {
    pad_right(id, 12) + " "@ + pad_right(domain, 40) + " "@ + pad_right(created, 12) + " "@
        + pad_right(expires, 12) + " "@ + status
}

pub open spec fn subscription_table(subs: Seq<PrivacySubscription>) -> Seq<Seq<char>> {
    seq![subscription_row("ID"@, "DOMAIN"@, "CREATED"@, "EXPIRES"@, "STATUS"@)] + subs.map_values(
        |s: PrivacySubscription|
            subscription_row(
                s.id@,
                if s.domain_name@.len() == 0 {
                    "-"@
                } else {
                    s.domain_name@
                },
                s.created@,
                s.expires@,
                s.status@,
            ),
    )
}

fn subscription_row_text(id: &str, domain: &str, created: &str, expires: &str, status: &str) -> (r: String)
    ensures
        r@ == subscription_row(id@, domain@, created@, expires@, status@),
{
    let mut r = pad_right_string(id, 12);
    r.push_str(" ");
    r.push_str(pad_right_string(domain, 40).as_str());
    r.push_str(" ");
    r.push_str(pad_right_string(created, 12).as_str());
    r.push_str(" ");
    r.push_str(pad_right_string(expires, 12).as_str());
    r.push_str(" ");
    r.push_str(status);
    assert(r@ =~= subscription_row(id@, domain@, created@, expires@, status@));
    r
}

/// The privacy subscriptions as a table (`-` for an unattached one).
pub fn render_table(subs: &[PrivacySubscription]) -> (text: String)
    ensures
        text@ == plain_lines(subscription_table(subs@)),
{
    let mut lines: Vec<String> = Vec::new();
    add_line(&mut lines, subscription_row_text("ID", "DOMAIN", "CREATED", "EXPIRES", "STATUS"));
    let ghost head = views(lines@);
    let mut i: usize = 0;
    while i < subs.len()
        invariant
            i <= subs@.len(),
            head.len() == 1,
            views(lines@) == head + subscription_table(subs@).skip(1).take(i as int),
            subscription_table(subs@).take(1) == head,
        decreases subs@.len() - i,
    {
        let s = &subs[i];
        let l = subscription_row_text(
            s.id.as_str(),
            if s.domain_name.as_str().unicode_len() == 0 {
                "-"
            } else {
                s.domain_name.as_str()
            },
            s.created.as_str(),
            s.expires.as_str(),
            s.status.as_str(),
        );
        add_line(&mut lines, l);
        proof {
            let body = subscription_table(subs@).skip(1);
            assert(body[i as int] == l@);
            assert(body.take(i + 1) =~= body.take(i as int).push(l@));
        }
        i = i + 1;
    }
    assert(views(lines@) =~= subscription_table(subs@));
    lines_text(&lines)
}

} // verus!
