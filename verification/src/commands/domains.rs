//! Domain listing, availability, lock, info and contacts: the request
//! checks and the shaping of parsed responses into results.
use vstd::prelude::*;

use super::paging::{overflow_message, stalled_message, Pager};
use crate::api::{
    canonical, gate_refusal, lemma_read_only_is_canonical, lemma_unprefixed_plain,
    exchanged, mutations_permitted, request_form, Client, Error, Transport,
};
use crate::config::{endpoint_of, Profile};
use crate::domain::{normal_form, normalize, normalized, split_outcome, split_sld_tld};
use crate::text::{
    add_line, bool_str, lines_text, views, concat2, concat3, decimal, decimal_string, join, lemma_plain_lines_push, owned,
    pad_right, pad_right_string, plain_lines, push_line, shown_bool, str_eq,
};

verus! {

pub struct Domain {
    pub id: String,
    pub name: String,
    pub user: String,
    pub created: String,
    pub expires: String,
    pub is_expired: bool,
    /// getList's IsLocked: a registry/dispute hold, not the registrar
    /// transfer lock.
    pub registry_hold: bool,
    pub auto_renew: bool,
    pub privacy: String,
    pub is_premium: bool,
    pub is_our_dns: bool,
}

/// One parsed page of `domains.getList`.
pub struct GetListResponse {
    pub domains: Vec<Domain>,
    pub total_items: usize,
}

/// The request for one page of the domain listing: the pager's next
/// page, 100 domains a page, sorted by name.
pub open spec fn list_page_form(page: nat) -> Seq<(Seq<char>, Seq<char>)> {
    seq![("Page"@, decimal(page)), ("PageSize"@, "100"@), ("SortBy"@, "NAME"@)]
}

/// Read the pager's next page of the domain listing with
/// `domains.getList`. Gives the response body.
pub fn list_page<T: Transport>(client: &mut Client<T>, pager: &Pager<Domain>) -> (r: Result<
    String,
    Error,
>)
    requires
        old(client).call_count() < u32::MAX,
    ensures
        final(client).profile_state() == old(client).profile_state(),
        read_made(
            *old(client),
            *final(client),
            request_form(
                old(client).profile_state(),
                "domains.getList"@,
                list_page_form(pager.page_view()),
            ),
            r,
        ),
{
    let page = pager.page_param();
    proof {
        reveal_strlit("domains.getList");
        reveal_strlit("domains.getlist");
        lemma_unprefixed_plain("domains.getList"@);
        assert(canonical("domains.getList"@) =~= "domains.getlist"@);
    }
    let params = [("Page", page.as_str()), ("PageSize", "100"), ("SortBy", "NAME")];
    assert(crate::api::params_view(params@) =~= list_page_form(pager.page_view()));
    client.call("domains.getList", &params)
}

/// Take in one page of the domain listing (see `Pager::absorb`).
pub fn list(pager: &mut Pager<Domain>, resp: GetListResponse) -> (r: Result<bool, Error>)
    requires
        old(pager).wf(),
    ensures
        final(pager).items_view() == old(pager).items_view() + resp.domains@,
        final(pager).wf(),
        ({
            let count = old(pager).items_view().len() + resp.domains@.len();
            if count >= resp.total_items {
                r == Ok::<bool, Error>(true)
            } else if resp.domains@.len() == 0 {
                r matches Err(Error::Parse(m)) && m@ == stalled_message(
                    resp.total_items as nat,
                    old(pager).page_view(),
                )
            } else if old(pager).page_view() >= 100 {
                r matches Err(Error::Parse(m)) && m@ == overflow_message()
            } else {
                r == Ok::<bool, Error>(false) && final(pager).page_view() == old(pager).page_view()
                    + 1
            }
        }),
{
    pager.absorb(resp.domains, resp.total_items)
}

pub struct CheckResult {
    pub domain: String,
    pub available: bool,
    pub is_premium: bool,
    pub premium_registration_price: String,
    pub premium_renewal_price: String,
    pub premium_restore_price: String,
    pub premium_transfer_price: String,
    pub icann_fee: String,
    pub eap_fee: String,
    pub error_no: String,
    pub description: String,
}

pub struct CheckResponse {
    pub results: Vec<CheckResult>,
}

/// Most domains one availability check may carry.
pub const MAX_CHECK_DOMAINS: usize = 50;

pub open spec fn too_many_message(n: nat) -> Seq<char> {
    "domains check accepts at most 50 domains per call (got "@ + decimal(n) + ")"@
}

/// The `DomainList` of an availability check: at most 50 domains, each
/// normalized, comma-joined; the first domain that fails normalization
/// decides the error.
pub open spec fn domain_list_outcome(domains: Seq<String>, r: Result<String, Error>) -> bool {
    if domains.len() > 50 {
        r matches Err(Error::Usage(m)) && m@ == too_many_message(domains.len())
    } else {
        match r {
            Ok(list) => {
                &&& forall|i: int| 0 <= i < domains.len() ==> #[trigger] normal_form(domains[i]@) is Some
                &&& list@ == join(
                    Seq::new(domains.len(), |i: int| normal_form(domains[i]@)->0),
                    ","@,
                )
            },
            Err(e) => exists|i: int|
                #![trigger normalized(domains[i]@, Err(e))]
                0 <= i < domains.len() && (forall|j: int| 0 <= j < i ==> #[trigger] normal_form(domains[j]@) is Some)
                    && normal_form(domains[i]@) is None && normalized(domains[i]@, Err(e)),
        }
    }
}

/// Validate and normalize the domains of one availability check,
/// returning the `DomainList` parameter.
pub fn check_domain_list(domains: &[String]) -> (r: Result<String, Error>)
    ensures
        domain_list_outcome(domains@, r),
{
    if domains.len() > MAX_CHECK_DOMAINS {
        let mut m = concat2(
            "domains check accepts at most 50 domains per call (got ",
            decimal_string(domains.len() as u128).as_str(),
        );
        m.push_str(")");
        return Err(Error::Usage(m));
    }
    let ghost names = Seq::new(domains@.len(), |i: int| normal_form(domains@[i]@)->0);
    let mut list = String::new();
    let mut i: usize = 0;
    while i < domains.len()
        invariant
            i <= domains@.len(),
            domains@.len() <= 50,
            names == Seq::new(domains@.len(), |i: int| normal_form(domains@[i]@)->0),
            forall|j: int| 0 <= j < i ==> #[trigger] normal_form(domains@[j]@) is Some,
            list@ == join(names.take(i as int), ","@),
        decreases domains@.len() - i,
    {
        let res = normalize(domains[i].as_str());
        let ghost res0 = res;
        match res {
            Ok(n) => {
                if i > 0 {
                    list.push_str(",");
                }
                list.push_str(n.as_str());
                proof {
                    let t = names.take(i + 1);
                    assert(t.drop_last() =~= names.take(i as int));
                    assert(t.last() == n@);
                    if i == 0 {
                        assert(t =~= seq![n@]);
                    }
                }
            },
            Err(e) => {
                assert(normalized(domains@[i as int]@, Err(e)));
                assert(0 <= i < domains@.len() && (forall|j: int|
                    0 <= j < i ==> #[trigger] normal_form(domains@[j]@) is Some)
                    && normal_form(domains@[i as int]@) is None && normalized(
                    domains@[i as int]@,
                    Err(e),
                ));
                return Err(e);
            },
        }
        i = i + 1;
    }
    assert(names.take(domains@.len() as int) =~= names);
    Ok(list)
}

/// The request made for one read: the client counted it and exchanged
/// `form` with the transport, retrying once after HTTP 429 or a 5xx.
pub open spec fn read_made<T: Transport>(
    before: Client<T>,
    after: Client<T>,
    form: Seq<(Seq<char>, Seq<char>)>,
    r: Result<String, Error>,
) -> bool {
    &&& after.call_count() == before.call_count() + 1
    &&& exchanged(
        before.transport_state(),
        before.exchanges(),
        after.exchanges(),
        endpoint_of(before.profile_state()),
        form,
        true,
        before.profile_state().api_key@,
        r,
    )
}

/// Nothing was sent and nothing was counted.
pub open spec fn nothing_sent<T: Transport>(before: Client<T>, after: Client<T>) -> bool {
    after.call_count() == before.call_count() && after.exchanges() == before.exchanges()
}

/// The normalized names of a list of domains (meaningful when each has one).
pub open spec fn normal_forms(domains: Seq<String>) -> Seq<Seq<char>> {
    Seq::new(domains.len(), |i: int| normal_form(domains[i]@)->0)
}

/// Availability of up to 50 domains in one `domains.check` call, the
/// normalized names comma-joined into `DomainList`. Gives the response
/// body; an invalid list is refused before anything is sent.
pub fn check<T: Transport>(client: &mut Client<T>, domains: &[String]) -> (r: Result<String, Error>)
    requires
        old(client).call_count() < u32::MAX,
    ensures
        final(client).profile_state() == old(client).profile_state(),
        ({
            let valid = domains@.len() <= 50 && forall|i: int|
                0 <= i < domains@.len() ==> #[trigger] normal_form(domains@[i]@) is Some;
            &&& !valid ==> domain_list_outcome(domains@, r) && nothing_sent(*old(client), *final(client))
            &&& valid ==> read_made(
                *old(client),
                *final(client),
                request_form(
                    old(client).profile_state(),
                    "domains.check"@,
                    seq![("DomainList"@, join(normal_forms(domains@), ","@))],
                ),
                r,
            )
        }),
{
    let list = match check_domain_list(domains) {
        Ok(l) => l,
        Err(e) => {
            return Err(e);
        },
    };
    proof {
        reveal_strlit("domains.check");
        lemma_read_only_is_canonical("domains.check"@);
        lemma_unprefixed_plain("domains.check"@);
        assert(normal_forms(domains@) =~= Seq::new(
            domains@.len(),
            |i: int| normal_form(domains@[i]@)->0,
        ));
    }
    let params = [("DomainList", list.as_str())];
    assert(crate::api::params_view(params@) =~= seq![("DomainList"@, list@)]) by {
        reveal_strlit("DomainList");
    }
    client.call("domains.check", &params)
}

/// The registrar (transfer) lock of a domain, read with
/// `domains.getRegistrarLock` on its normalized name. Gives the response
/// body; a name that does not normalize is refused before anything is sent.
pub fn lock_status<T: Transport>(client: &mut Client<T>, domain: &str) -> (r: Result<String, Error>)
    requires
        old(client).call_count() < u32::MAX,
    ensures
        final(client).profile_state() == old(client).profile_state(),
        match normal_form(domain@) {
            None => r is Err && normalized(domain@, r) && nothing_sent(*old(client), *final(client)),
            Some(n) => read_made(
                *old(client),
                *final(client),
                request_form(
                    old(client).profile_state(),
                    "domains.getRegistrarLock"@,
                    seq![("DomainName"@, n)],
                ),
                r,
            ),
        },
{
    let name = match normalize(domain) {
        Ok(n) => n,
        Err(e) => {
            return Err(e);
        },
    };
    proof {
        reveal_strlit("domains.getRegistrarLock");
        reveal_strlit("domains.getregistrarlock");
        lemma_unprefixed_plain("domains.getRegistrarLock"@);
        assert(canonical("domains.getRegistrarLock"@) =~= "domains.getregistrarlock"@);
    }
    let params = [("DomainName", name.as_str())];
    assert(crate::api::params_view(params@) =~= seq![("DomainName"@, name@)]) by {
        reveal_strlit("DomainName");
    }
    client.call("domains.getRegistrarLock", &params)
}

/// What a mutation on one domain checks before it reads anything (the
/// lock's pre-image, the source contacts), in this order: the
/// production-mutation gate, then that the name normalizes. Gives the
/// normalized name; nothing is sent.
pub fn prepare_domain_mutation<T: Transport>(client: &Client<T>, domain: &str) -> (r: Result<
    String,
    Error,
>)
    ensures
        !mutations_permitted(client.profile_state()) ==> (r matches Err(Error::Policy(m)) && m@
            == gate_refusal()),
        mutations_permitted(client.profile_state()) ==> normalized(domain@, r),
{
    match client.require_mutations_permitted() {
        Err(e) => Err(e),
        Ok(()) => normalize(domain),
    }
}

pub struct LockStatus {
    pub domain: String,
    pub locked: bool,
}

pub struct LockResponse {
    pub result: LockStatus,
}

/// The parsed `domains.setRegistrarLock` outcome.
pub struct SetLockResponse {
    pub domain: String,
    pub is_success: bool,
}

pub struct SetLockResult {
    pub domain: String,
    pub locked: bool,
    pub is_success: bool,
    /// Pre-image: the lock state that was replaced.
    pub previously_locked: bool,
}

/// The outcome of a lock change: the domain as the API echoes it (or as
/// requested, when the echo is empty), the requested state, and the
/// pre-image.
pub fn set_lock_result(domain: String, lock: bool, resp: SetLockResponse, previously_locked: bool) -> (r:
    SetLockResult)
    ensures
        r.domain == (if resp.domain@.len() == 0 {
            domain
        } else {
            resp.domain
        }),
        r.locked == lock,
        r.is_success == resp.is_success,
        r.previously_locked == previously_locked,
{
    SetLockResult {
        domain: if resp.domain.as_str().unicode_len() == 0 {
            domain
        } else {
            resp.domain
        },
        locked: lock,
        is_success: resp.is_success,
        previously_locked,
    }
}

pub struct Whoisguard {
    pub enabled: String,
    pub id: String,
    pub expires: String,
}

pub struct DnsDetails {
    pub provider_type: String,
    pub nameservers: Vec<String>,
}

/// The parsed `domains.getInfo` result.
pub struct GetInfoResponse {
    pub status: String,
    pub id: String,
    pub domain_name: String,
    pub owner_name: String,
    pub is_owner: bool,
    pub is_premium: bool,
    pub created: String,
    pub expires: String,
    pub whoisguard: Option<Whoisguard>,
    pub dns_details: Option<DnsDetails>,
    pub modification_rights_all: Option<bool>,
}

pub struct PrivacyInfo {
    pub enabled: String,
    pub id: String,
    pub expires: String,
}

pub struct DomainInfo {
    pub domain: String,
    pub id: String,
    pub status: String,
    pub owner: String,
    pub is_owner: bool,
    pub is_premium: bool,
    pub created: String,
    pub expires: String,
    pub privacy: Option<PrivacyInfo>,
    pub dns_provider: Option<String>,
    pub nameservers: Vec<String>,
    pub modification_rights_all: Option<bool>,
}

/// Registration, privacy and DNS details of one domain.
pub fn info(resp: GetInfoResponse) -> (r: DomainInfo)
    ensures
        r.domain == resp.domain_name,
        r.id == resp.id,
        r.status == resp.status,
        r.owner == resp.owner_name,
        r.is_owner == resp.is_owner,
        r.is_premium == resp.is_premium,
        r.created == resp.created,
        r.expires == resp.expires,
        match resp.whoisguard {
            Some(w) => r.privacy matches Some(p) && p.enabled == w.enabled && p.id == w.id
                && p.expires == w.expires,
            None => r.privacy is None,
        },
        match resp.dns_details {
            Some(d) => r.dns_provider == Some(d.provider_type) && r.nameservers@ == d.nameservers@,
            None => r.dns_provider is None && r.nameservers@.len() == 0,
        },
        r.modification_rights_all == resp.modification_rights_all,
{
    let privacy = match resp.whoisguard {
        Some(w) => Some(PrivacyInfo { enabled: w.enabled, id: w.id, expires: w.expires }),
        None => None,
    };
    let (dns_provider, nameservers) = match resp.dns_details {
        Some(d) => (Some(d.provider_type), d.nameservers),
        None => (None, Vec::new()),
    };
    DomainInfo {
        domain: resp.domain_name,
        id: resp.id,
        status: resp.status,
        owner: resp.owner_name,
        is_owner: resp.is_owner,
        is_premium: resp.is_premium,
        created: resp.created,
        expires: resp.expires,
        privacy,
        dns_provider,
        nameservers,
        modification_rights_all: resp.modification_rights_all,
    }
}

pub struct Contact {
    pub read_only: bool,
    pub organization_name: String,
    pub job_title: String,
    pub first_name: String,
    pub last_name: String,
    pub address1: String,
    pub address2: String,
    pub city: String,
    pub state_province: String,
    pub postal_code: String,
    pub country: String,
    pub phone: String,
    pub phone_ext: String,
    pub fax: String,
    pub email_address: String,
}

/// The parsed `domains.getContacts` result.
pub struct GetContactsResponse {
    pub domain: String,
    pub registrant: Contact,
    pub tech: Contact,
    pub admin: Contact,
    pub aux_billing: Contact,
}

pub struct Contacts {
    pub domain: String,
    pub registrant: Contact,
    pub tech: Contact,
    pub admin: Contact,
    pub aux_billing: Contact,
}

/// The four contact sets of a domain.
pub fn contacts(resp: GetContactsResponse) -> (r: Contacts)
    ensures
        r.domain == resp.domain,
        r.registrant == resp.registrant,
        r.tech == resp.tech,
        r.admin == resp.admin,
        r.aux_billing == resp.aux_billing,
{
    Contacts {
        domain: resp.domain,
        registrant: resp.registrant,
        tech: resp.tech,
        admin: resp.admin,
        aux_billing: resp.aux_billing,
    }
}

/// Two contact sets with the same fields.
pub open spec fn same_contact(a: Contact, b: Contact) -> bool {
    &&& a.read_only == b.read_only
    &&& a.organization_name@ == b.organization_name@
    &&& a.job_title@ == b.job_title@
    &&& a.first_name@ == b.first_name@
    &&& a.last_name@ == b.last_name@
    &&& a.address1@ == b.address1@
    &&& a.address2@ == b.address2@
    &&& a.city@ == b.city@
    &&& a.state_province@ == b.state_province@
    &&& a.postal_code@ == b.postal_code@
    &&& a.country@ == b.country@
    &&& a.phone@ == b.phone@
    &&& a.phone_ext@ == b.phone_ext@
    &&& a.fax@ == b.fax@
    &&& a.email_address@ == b.email_address@
}

pub fn contact_eq(a: &Contact, b: &Contact) -> (r: bool)
    ensures
        r == same_contact(*a, *b),
{
    a.read_only == b.read_only && str_eq(a.organization_name.as_str(), b.organization_name.as_str())
        && str_eq(a.job_title.as_str(), b.job_title.as_str()) && str_eq(
        a.first_name.as_str(),
        b.first_name.as_str(),
    ) && str_eq(a.last_name.as_str(), b.last_name.as_str()) && str_eq(
        a.address1.as_str(),
        b.address1.as_str(),
    ) && str_eq(a.address2.as_str(), b.address2.as_str()) && str_eq(
        a.city.as_str(),
        b.city.as_str(),
    ) && str_eq(a.state_province.as_str(), b.state_province.as_str()) && str_eq(
        a.postal_code.as_str(),
        b.postal_code.as_str(),
    ) && str_eq(a.country.as_str(), b.country.as_str()) && str_eq(
        a.phone.as_str(),
        b.phone.as_str(),
    ) && str_eq(a.phone_ext.as_str(), b.phone_ext.as_str()) && str_eq(a.fax.as_str(), b.fax.as_str())
        && str_eq(a.email_address.as_str(), b.email_address.as_str())
}

pub open spec fn all_contact_sets_identical(c: Contacts) -> bool {
    same_contact(c.registrant, c.tech) && same_contact(c.tech, c.admin) && same_contact(
        c.admin,
        c.aux_billing,
    )
}

/// A contact set by value, field for field.
pub struct ContactView {
    pub read_only: bool,
    pub organization_name: Seq<char>,
    pub job_title: Seq<char>,
    pub first_name: Seq<char>,
    pub last_name: Seq<char>,
    pub address1: Seq<char>,
    pub address2: Seq<char>,
    pub city: Seq<char>,
    pub state_province: Seq<char>,
    pub postal_code: Seq<char>,
    pub country: Seq<char>,
    pub phone: Seq<char>,
    pub phone_ext: Seq<char>,
    pub fax: Seq<char>,
    pub email_address: Seq<char>,
}

pub open spec fn contact_view(c: Contact) -> ContactView {
    ContactView {
        read_only: c.read_only,
        organization_name: c.organization_name@,
        job_title: c.job_title@,
        first_name: c.first_name@,
        last_name: c.last_name@,
        address1: c.address1@,
        address2: c.address2@,
        city: c.city@,
        state_province: c.state_province@,
        postal_code: c.postal_code@,
        country: c.country@,
        phone: c.phone@,
        phone_ext: c.phone_ext@,
        fax: c.fax@,
        email_address: c.email_address@,
    }
}

/// The contact sets count as identical exactly when every one of the four
/// roles (registrant, tech, admin and aux-billing) carries the same value
/// in every field as the registrant: a difference in any field of any
/// role makes them differ.
pub proof fn identical_means_all_four_roles_agree(c: Contacts)
    ensures
        all_contact_sets_identical(c) <==> {
            &&& contact_view(c.tech) == contact_view(c.registrant)
            &&& contact_view(c.admin) == contact_view(c.registrant)
            &&& contact_view(c.aux_billing) == contact_view(c.registrant)
        },
{
}

/// Whether all four contact sets carry the same fields (an audit signal).
pub fn contacts_identical(c: &Contacts) -> (r: bool)
    ensures
        r == all_contact_sets_identical(*c),
        r <==> {
            &&& contact_view(c.tech) == contact_view(c.registrant)
            &&& contact_view(c.admin) == contact_view(c.registrant)
            &&& contact_view(c.aux_billing) == contact_view(c.registrant)
        },
{
    proof {
        identical_means_all_four_roles_agree(*c);
    }
    contact_eq(&c.registrant, &c.tech) && contact_eq(&c.tech, &c.admin) && contact_eq(
        &c.admin,
        &c.aux_billing,
    )
}

/// The audit signals of one contact set: where it is and whether it is
/// locked. Names, addresses, phones and mail stay out.
pub struct ContactSummary {
    pub country: String,
    pub state_province: String,
    pub read_only: bool,
}

/// Contact details are PII: the default view of a domain's contacts
/// carries only the audit signals; `--full` opts into the actual fields.
pub struct ContactsRedacted {
    pub domain: String,
    pub all_contact_sets_identical: bool,
    pub registrant: ContactSummary,
    pub tech: ContactSummary,
    pub admin: ContactSummary,
    pub aux_billing: ContactSummary,
}

/// Whether `s` keeps exactly the audit signals of `c`.
pub open spec fn summarizes(s: ContactSummary, c: Contact) -> bool {
    &&& s.country@ == c.country@
    &&& s.state_province@ == c.state_province@
    &&& s.read_only == c.read_only
}

fn contact_summary(c: &Contact) -> (r: ContactSummary)
    ensures
        summarizes(r, *c),
{
    ContactSummary {
        country: c.country.clone(),
        state_province: c.state_province.clone(),
        read_only: c.read_only,
    }
}

/// The redacted view of a domain's contacts: the domain, whether all four
/// sets are identical, and each set's country, state and lock.
pub fn contacts_redacted_view(c: &Contacts) -> (r: ContactsRedacted)
    ensures
        r.domain@ == c.domain@,
        r.all_contact_sets_identical == all_contact_sets_identical(*c),
        summarizes(r.registrant, c.registrant),
        summarizes(r.tech, c.tech),
        summarizes(r.admin, c.admin),
        summarizes(r.aux_billing, c.aux_billing),
{
    ContactsRedacted {
        domain: c.domain.clone(),
        all_contact_sets_identical: contacts_identical(c),
        registrant: contact_summary(&c.registrant),
        tech: contact_summary(&c.tech),
        admin: contact_summary(&c.admin),
        aux_billing: contact_summary(&c.aux_billing),
    }
}

/// The form fields one contact contributes to `domains.create`: the
/// required fields always, the optional ones only when non-empty, each
/// prefixed with the role.
pub open spec fn contact_form(role: Seq<char>, c: Contact) -> Seq<(Seq<char>, Seq<char>)> {
    seq![
        (role + "FirstName"@, c.first_name@),
        (role + "LastName"@, c.last_name@),
        (role + "Address1"@, c.address1@),
        (role + "City"@, c.city@),
        (role + "StateProvince"@, c.state_province@),
        (role + "PostalCode"@, c.postal_code@),
        (role + "Country"@, c.country@),
        (role + "Phone"@, c.phone@),
        (role + "EmailAddress"@, c.email_address@),
    ] + optional_field(role, "OrganizationName"@, c.organization_name@) + optional_field(
        role,
        "JobTitle"@,
        c.job_title@,
    ) + optional_field(role, "Address2"@, c.address2@) + optional_field(
        role,
        "PhoneExt"@,
        c.phone_ext@,
    ) + optional_field(role, "Fax"@, c.fax@)
}

pub open spec fn optional_field(role: Seq<char>, key: Seq<char>, value: Seq<char>) -> Seq<
    (Seq<char>, Seq<char>),
> {
    if value.len() == 0 {
        seq![]
    } else {
        seq![(role + key, value)]
    }
}

pub open spec fn form_view(v: Seq<(String, String)>) -> Seq<(Seq<char>, Seq<char>)> {
    v.map_values(|p: (String, String)| (p.0@, p.1@))
}

fn push_field(out: &mut Vec<(String, String)>, role: &str, key: &str, value: &String)
    ensures
        form_view(final(out)@) == form_view(old(out)@).push((role@ + key@, value@)),
{
    let ghost before = out@;
    out.push((concat2(role, key), value.clone()));
    assert(form_view(out@) =~= form_view(before).push((role@ + key@, value@)));
}

fn push_optional(out: &mut Vec<(String, String)>, role: &str, key: &str, value: &String)
    ensures
        form_view(final(out)@) == form_view(old(out)@) + optional_field(role@, key@, value@),
{
    if value.as_str().unicode_len() > 0 {
        push_field(out, role, key, value);
    } else {
        assert(form_view(out@) =~= form_view(out@) + optional_field(role@, key@, value@));
    }
}

/// Append one contact's registration fields.
pub fn contact_params(role: &str, c: &Contact, out: &mut Vec<(String, String)>)
    ensures
        form_view(final(out)@) == form_view(old(out)@) + contact_form(role@, *c),
{
    let ghost before = form_view(out@);
    push_field(out, role, "FirstName", &c.first_name);
    push_field(out, role, "LastName", &c.last_name);
    push_field(out, role, "Address1", &c.address1);
    push_field(out, role, "City", &c.city);
    push_field(out, role, "StateProvince", &c.state_province);
    push_field(out, role, "PostalCode", &c.postal_code);
    push_field(out, role, "Country", &c.country);
    push_field(out, role, "Phone", &c.phone);
    push_field(out, role, "EmailAddress", &c.email_address);
    push_optional(out, role, "OrganizationName", &c.organization_name);
    push_optional(out, role, "JobTitle", &c.job_title);
    push_optional(out, role, "Address2", &c.address2);
    push_optional(out, role, "PhoneExt", &c.phone_ext);
    push_optional(out, role, "Fax", &c.fax);
    assert(form_view(out@) =~= before + contact_form(role@, *c));
}

/// The full `domains.create` form: domain, years, free privacy (off),
/// then the four contact sets copied from an owned domain.
pub open spec fn registration_form(domain: Seq<char>, years: u8, source: Contacts) -> Seq<
    (Seq<char>, Seq<char>),
> {
    seq![
        ("DomainName"@, domain),
        ("Years"@, decimal(years as nat)),
        ("AddFreeWhoisguard"@, "yes"@),
        ("WGEnabled"@, "no"@),
    ] + contact_form("Registrant"@, source.registrant) + contact_form("Tech"@, source.tech)
        + contact_form("Admin"@, source.admin) + contact_form("AuxBilling"@, source.aux_billing)
}

pub fn registration_params(domain: &str, years: u8, source: &Contacts) -> (r: Vec<(String, String)>)
    ensures
        form_view(r@) == registration_form(domain@, years, *source),
{
    let mut out: Vec<(String, String)> = Vec::new();
    out.push((owned("DomainName"), owned(domain)));
    out.push((owned("Years"), decimal_string(years as u128)));
    out.push((owned("AddFreeWhoisguard"), owned("yes")));
    out.push((owned("WGEnabled"), owned("no")));
    let ghost head = form_view(out@);
    assert(head =~= seq![
        ("DomainName"@, domain@),
        ("Years"@, decimal(years as nat)),
        ("AddFreeWhoisguard"@, "yes"@),
        ("WGEnabled"@, "no"@),
    ]);
    contact_params("Registrant", &source.registrant, &mut out);
    contact_params("Tech", &source.tech, &mut out);
    contact_params("Admin", &source.admin, &mut out);
    contact_params("AuxBilling", &source.aux_billing, &mut out);
    out
}

pub open spec fn registration_refusal(domain: Seq<char>, status: Option<CheckResult>, eap_fee_positive: bool, e: Error) -> bool {
    match status {
        None => e matches Error::Parse(m) && m@ == "empty availability response"@,
        Some(s) => if !s.available {
            e matches Error::Usage(m) && m@ == domain + " is not available for registration"@
        } else if s.is_premium {
            e matches Error::Usage(m) && m@ == domain
                + " is a premium domain; ncheap does not register premium domains"@
        } else {
            eap_fee_positive && (e matches Error::Usage(m) && m@ == domain
                + " carries an Early Access Phase fee ("@ + s.eap_fee@
                + "); ncheap does not register EAP domains"@)
        },
    }
}

/// The availability guard of a registration: the first check result must
/// show the domain available, not premium, and without an Early Access
/// Phase fee (`eap_fee_positive`: the fee parses as a positive amount).
pub fn registration_guard(domain: &str, status: Option<&CheckResult>, eap_fee_positive: bool) -> (r:
    Result<(), Error>)
    ensures
        match r {
            Ok(()) => status matches Some(s) && s.available && !s.is_premium && !eap_fee_positive,
            Err(e) => registration_refusal(
                domain@,
                match status {
                    Some(s) => Some(*s),
                    None => None,
                },
                eap_fee_positive,
                e,
            ),
        },
{
    match status {
        None => Err(Error::Parse(owned("empty availability response"))),
        Some(s) => {
            if !s.available {
                Err(Error::Usage(concat2(domain, " is not available for registration")))
            } else if s.is_premium {
                Err(
                    Error::Usage(
                        concat2(
                            domain,
                            " is a premium domain; ncheap does not register premium domains",
                        ),
                    ),
                )
            } else if eap_fee_positive {
                let mut m = concat3(domain, " carries an Early Access Phase fee (", s.eap_fee.as_str());
                m.push_str("); ncheap does not register EAP domains");
                Err(Error::Usage(m))
            } else {
                Ok(())
            }
        },
    }
}

// ---------------------------------------------------------------------------
// Human-readable output
// ---------------------------------------------------------------------------

pub open spec fn yes_no(b: bool) -> Seq<char> {
    if b {
        "yes"@
    } else {
        "no"@
    }
}

fn yes_no_str(b: bool) -> (r: &'static str)
    ensures
        r@ == yes_no(b),
{
    if b {
        "yes"
    } else {
        "no"
    }
}

pub open spec fn on_off(b: bool) -> Seq<char> {
    if b {
        "on"@
    } else {
        "off"@
    }
}

fn on_off_str(b: bool) -> (r: &'static str)
    ensures
        r@ == on_off(b),
{
    if b {
        "on"
    } else {
        "off"
    }
}

/// One row of the domain table, in left-aligned columns.
pub open spec fn domain_row(
    name: Seq<char>,
    expires: Seq<char>,
    hold: Seq<char>,
    renew: Seq<char>,
    privacy: Seq<char>,
    our_dns: Seq<char>,
) -> Seq<char> {
    pad_right(name, 40) + " "@ + pad_right(expires, 12) + " "@ + pad_right(hold, 6) + " "@
        + pad_right(renew, 6) + " "@ + pad_right(privacy, 12) + " "@ + pad_right(our_dns, 7)
}

pub open spec fn domain_table(ds: Seq<Domain>) -> Seq<Seq<char>> {
    seq![domain_row("NAME"@, "EXPIRES"@, "HOLD"@, "RENEW"@, "PRIVACY"@, "OURDNS"@)] + ds.map_values(
        |d: Domain|
            domain_row(
                d.name@,
                d.expires@,
                yes_no(d.registry_hold),
                yes_no(d.auto_renew),
                d.privacy@,
                yes_no(d.is_our_dns),
            ),
    )
}

fn domain_row_text(
    name: &str,
    expires: &str,
    hold: &str,
    renew: &str,
    privacy: &str,
    our_dns: &str,
) -> (r: String)
    ensures
        r@ == domain_row(name@, expires@, hold@, renew@, privacy@, our_dns@),
{
    let mut r = pad_right_string(name, 40);
    r.push_str(" ");
    r.push_str(pad_right_string(expires, 12).as_str());
    r.push_str(" ");
    r.push_str(pad_right_string(hold, 6).as_str());
    r.push_str(" ");
    r.push_str(pad_right_string(renew, 6).as_str());
    r.push_str(" ");
    r.push_str(pad_right_string(privacy, 12).as_str());
    r.push_str(" ");
    r.push_str(pad_right_string(our_dns, 7).as_str());
    assert(r@ =~= domain_row(name@, expires@, hold@, renew@, privacy@, our_dns@));
    r
}

/// The domain listing as a table.
pub fn render_table(domains: &[Domain]) -> (text: String)
    ensures
        text@ == plain_lines(domain_table(domains@)),
{
    let ghost all = domain_table(domains@);
    let mut text = String::new();
    let head = domain_row_text("NAME", "EXPIRES", "HOLD", "RENEW", "PRIVACY", "OURDNS");
    push_line(&mut text, head.as_str());
    proof {
        lemma_plain_lines_push(seq![], head@);
        assert(all.take(1) =~= Seq::<Seq<char>>::empty().push(head@));
    }
    let mut i: usize = 0;
    while i < domains.len()
        invariant
            i <= domains@.len(),
            all == domain_table(domains@),
            text@ == plain_lines(all.take(i + 1)),
        decreases domains@.len() - i,
    {
        let d = &domains[i];
        let row = domain_row_text(
            d.name.as_str(),
            d.expires.as_str(),
            yes_no_str(d.registry_hold),
            yes_no_str(d.auto_renew),
            d.privacy.as_str(),
            yes_no_str(d.is_our_dns),
        );
        push_line(&mut text, row.as_str());
        proof {
            assert(all[i + 1] == row@);
            lemma_plain_lines_push(all.take(i + 1), row@);
            assert(all.take(i + 2) =~= all.take(i + 1).push(row@));
        }
        i = i + 1;
    }
    assert(all.take(domains@.len() + 1int) =~= all);
    text
}

pub open spec fn check_row(domain: Seq<char>, available: Seq<char>, premium: Seq<char>, price: Seq<char>) -> Seq<char> {
    pad_right(domain, 40) + " "@ + pad_right(available, 10) + " "@ + pad_right(premium, 8) + " "@
        + price
}

pub open spec fn check_table(rs: Seq<CheckResult>) -> Seq<Seq<char>> {
    seq![check_row("DOMAIN"@, "AVAILABLE"@, "PREMIUM"@, "PRICE"@)] + rs.map_values(
        |r: CheckResult|
            check_row(
                r.domain@,
                yes_no(r.available),
                yes_no(r.is_premium),
                if r.is_premium {
                    r.premium_registration_price@
                } else {
                    "-"@
                },
            ),
    )
}

fn check_row_text(domain: &str, available: &str, premium: &str, price: &str) -> (r: String)
    ensures
        r@ == check_row(domain@, available@, premium@, price@),
{
    let mut r = pad_right_string(domain, 40);
    r.push_str(" ");
    r.push_str(pad_right_string(available, 10).as_str());
    r.push_str(" ");
    r.push_str(pad_right_string(premium, 8).as_str());
    r.push_str(" ");
    r.push_str(price);
    assert(r@ =~= check_row(domain@, available@, premium@, price@));
    r
}

/// Availability results as a table: the premium price where one applies.
pub fn render_check(results: &[CheckResult]) -> (text: String)
    ensures
        text@ == plain_lines(check_table(results@)),
{
    let ghost all = check_table(results@);
    let mut text = String::new();
    let head = check_row_text("DOMAIN", "AVAILABLE", "PREMIUM", "PRICE");
    push_line(&mut text, head.as_str());
    proof {
        lemma_plain_lines_push(seq![], head@);
        assert(all.take(1) =~= Seq::<Seq<char>>::empty().push(head@));
    }
    let mut i: usize = 0;
    while i < results.len()
        invariant
            i <= results@.len(),
            all == check_table(results@),
            text@ == plain_lines(all.take(i + 1)),
        decreases results@.len() - i,
    {
        let r = &results[i];
        let row = check_row_text(
            r.domain.as_str(),
            yes_no_str(r.available),
            yes_no_str(r.is_premium),
            if r.is_premium {
                r.premium_registration_price.as_str()
            } else {
                "-"
            },
        );
        push_line(&mut text, row.as_str());
        proof {
            assert(all[i + 1] == row@);
            lemma_plain_lines_push(all.take(i + 1), row@);
            assert(all.take(i + 2) =~= all.take(i + 1).push(row@));
        }
        i = i + 1;
    }
    assert(all.take(results@.len() + 1int) =~= all);
    text
}

/// One line, printed verbatim.
fn single_line(line: String) -> (text: String)
    ensures
        text@ == plain_lines(seq![line@]),
{
    let mut text = String::new();
    push_line(&mut text, line.as_str());
    proof {
        lemma_plain_lines_push(seq![], line@);
        assert(seq![line@] =~= Seq::<Seq<char>>::empty().push(line@));
    }
    text
}

pub open spec fn lock_line(s: LockStatus) -> Seq<char> {
    s.domain@ + ": registrar lock "@ + on_off(s.locked)
}

/// The registrar lock state.
pub fn render_lock(status: &LockStatus) -> (text: String)
    ensures
        text@ == plain_lines(seq![lock_line(*status)]),
{
    let line = concat3(status.domain.as_str(), ": registrar lock ", on_off_str(status.locked));
    single_line(line)
}

pub open spec fn set_lock_line(r: SetLockResult) -> Seq<char> {
    r.domain@ + ": registrar lock "@ + on_off(r.locked) + " ("@ + (if r.is_success {
        "success"@
    } else {
        "NOT successful"@
    }) + "; was "@ + on_off(r.previously_locked) + ")"@
}

/// A lock change, with the state it replaced.
pub fn render_set_lock(r: &SetLockResult) -> (text: String)
    ensures
        text@ == plain_lines(seq![set_lock_line(*r)]),
{
    let mut line = concat3(r.domain.as_str(), ": registrar lock ", on_off_str(r.locked));
    line.push_str(" (");
    line.push_str(if r.is_success { "success" } else { "NOT successful" });
    line.push_str("; was ");
    line.push_str(on_off_str(r.previously_locked));
    line.push_str(")");
    assert(line@ =~= set_lock_line(*r));
    single_line(line)
}

pub open spec fn info_lines(i: DomainInfo) -> Seq<Seq<char>> {
    seq![
        "domain: "@ + i.domain@,
        "status: "@ + i.status@,
        "owner: "@ + i.owner@ + " (is_owner: "@ + shown_bool(i.is_owner) + ")"@,
        "created: "@ + i.created@,
        "expires: "@ + i.expires@,
        "premium: "@ + yes_no(i.is_premium),
        match i.privacy {
            Some(p) => "privacy: "@ + p.enabled@ + " (expires "@ + p.expires@ + ")"@,
            None => "privacy: not reported"@,
        },
    ] + match i.dns_provider {
        Some(p) => seq!["dns_provider: "@ + p@],
        None => seq![],
    } + i.nameservers@.map_values(|n: String| "nameserver: "@ + n@) + match i.modification_rights_all {
        Some(all) => seq!["modification_rights_all: "@ + shown_bool(all)],
        None => seq![],
    }
}

/// Registration, privacy and DNS details, one per line.
pub fn render_info(info: &DomainInfo) -> (text: String)
    ensures
        text@ == plain_lines(info_lines(*info)),
{
    let mut text = String::new();
    let ghost mut done: Seq<Seq<char>> = seq![];
    let mut lines: Vec<String> = Vec::new();
    lines.push(concat2("domain: ", info.domain.as_str()));
    lines.push(concat2("status: ", info.status.as_str()));
    let mut owner = concat3("owner: ", info.owner.as_str(), " (is_owner: ");
    owner.push_str(bool_str(info.is_owner));
    owner.push_str(")");
    lines.push(owner);
    lines.push(concat2("created: ", info.created.as_str()));
    lines.push(concat2("expires: ", info.expires.as_str()));
    lines.push(concat2("premium: ", if info.is_premium { "yes" } else { "no" }));
    match &info.privacy {
        Some(p) => {
            let mut l = concat3("privacy: ", p.enabled.as_str(), " (expires ");
            l.push_str(p.expires.as_str());
            l.push_str(")");
            lines.push(l);
        },
        None => lines.push(owned("privacy: not reported")),
    }
    match &info.dns_provider {
        Some(p) => lines.push(concat2("dns_provider: ", p.as_str())),
        None => {},
    }
    let ghost fixed = lines@.map_values(|l: String| l@);
    let ghost ns = info.nameservers@.map_values(|n: String| "nameserver: "@ + n@);
    let mut k: usize = 0;
    while k < info.nameservers.len()
        invariant
            k <= info.nameservers@.len(),
            ns == info.nameservers@.map_values(|n: String| "nameserver: "@ + n@),
            lines@.map_values(|l: String| l@) == fixed + ns.take(k as int),
        decreases info.nameservers@.len() - k,
    {
        let ghost before = lines@;
        let l = concat2("nameserver: ", info.nameservers[k].as_str());
        lines.push(l);
        proof {
            assert(ns.take(k + 1) =~= ns.take(k as int).push(l@));
            assert(lines@.map_values(|l: String| l@) =~= before.map_values(|l: String| l@).push(l@));
        }
        k = k + 1;
    }
    assert(ns.take(info.nameservers@.len() as int) =~= ns);
    match info.modification_rights_all {
        Some(all) => {
            let ghost before = lines@;
            let l = concat2("modification_rights_all: ", bool_str(all));
            lines.push(l);
            assert(lines@.map_values(|l: String| l@) =~= before.map_values(|l: String| l@).push(l@));
        },
        None => {},
    }
    let ghost views = lines@.map_values(|l: String| l@);
    assert(views =~= info_lines(*info));
    let mut i: usize = 0;
    while i < lines.len()
        invariant
            i <= lines@.len(),
            views == lines@.map_values(|l: String| l@),
            text@ == plain_lines(views.take(i as int)),
        decreases lines@.len() - i,
    {
        push_line(&mut text, lines[i].as_str());
        proof {
            lemma_plain_lines_push(views.take(i as int), views[i as int]);
            assert(views.take(i + 1) =~= views.take(i as int).push(views[i as int]));
        }
        i = i + 1;
    }
    assert(views.take(lines@.len() as int) =~= views);
    text
}

/// The opening of every purchase (register, renew, transfer): the
/// production-mutation gate, then the domain normalized and split, giving
/// the normalized name and its TLD.
pub open spec fn purchase_target_outcome(
    p: Profile,
    input: Seq<char>,
    r: Result<(String, String), Error>,
) -> bool {
    if !mutations_permitted(p) {
        r matches Err(Error::Policy(m)) && m@ == gate_refusal()
    } else {
        match normal_form(input) {
            None => r matches Err(e) && normalized(input, Err(e)),
            Some(n) => exists|split: Result<(String, String), Error>|
                #![trigger split_outcome(n, split)]
                split_outcome(n, split) && match split {
                    Ok((_sld, tld)) => r matches Ok((d, t)) && d@ == n && t@ == tld@,
                    Err(e) => r == Err::<(String, String), Error>(e),
                },
        }
    }
}

/// Gate, normalize and split a domain that is about to be bought.
pub fn purchase_target<T: Transport>(client: &Client<T>, domain: &str) -> (r: Result<
    (String, String),
    Error,
>)
    ensures
        purchase_target_outcome(client.profile_state(), domain@, r),
{
    match client.require_mutations_permitted() {
        Err(e) => {
            return Err(e);
        },
        Ok(()) => {},
    }
    let normal = normalize(domain);
    let ghost nr = normal;
    let n = match normal {
        Ok(n) => n,
        Err(e) => {
            assert(normalized(domain@, nr));
            return Err(e);
        },
    };
    assert(mutations_permitted(client.profile_state()));
    assert(normal_form(domain@) == Some(n@));
    let split = split_sld_tld(n.as_str());
    let ghost s = split;
    assert(split_outcome(n@, s));
    assert(split_outcome(normal_form(domain@)->0, s));
    match split {
        Ok((sld, tld)) => {
            let r: Result<(String, String), Error> = Ok((n, tld));
            assert(purchase_target_outcome(client.profile_state(), domain@, r));
            r
        },
        Err(e) => {
            let r: Result<(String, String), Error> = Err(e);
            assert(purchase_target_outcome(client.profile_state(), domain@, r));
            r
        },
    }
}

/// The parsed `domains.create` outcome.
pub struct CreateResponse {
    pub domain: String,
    pub registered: bool,
    pub charged_amount: String,
    pub domain_id: String,
    pub order_id: String,
    pub transaction_id: String,
}

pub struct RegisterResult {
    pub domain: String,
    pub registered: bool,
    pub years: u8,
    /// The live listed price the guard approved, pre-purchase.
    pub listed_price: String,
    /// What Namecheap reports it actually charged.
    pub charged_amount: String,
    /// The actual charge exceeded --max-price; a loud flag, not a refusal.
    pub charged_exceeded_max_price: bool,
    pub domain_id: String,
    pub order_id: String,
    pub transaction_id: String,
}

/// The parsed `domains.renew` outcome.
pub struct RenewResponse {
    pub domain_name: String,
    pub renew: bool,
    pub charged_amount: String,
    pub domain_id: String,
    pub order_id: String,
    pub transaction_id: String,
}

pub struct RenewResult {
    pub domain: String,
    pub renewed: bool,
    pub years: u8,
    pub listed_price: String,
    pub charged_amount: String,
    pub charged_exceeded_max_price: bool,
    pub domain_id: String,
    pub order_id: String,
    pub transaction_id: String,
}

/// One contact set in full.
pub open spec fn contact_lines(label: Seq<char>, c: Contact) -> Seq<Seq<char>> {
    seq!["["@ + label + "]"@, "  name: "@ + c.first_name@ + " "@ + c.last_name@] + (if c.organization_name@.len() > 0 {
        seq!["  organization: "@ + c.organization_name@]
    } else {
        seq![]
    }) + seq![
        "  address: "@ + c.address1@ + " "@ + c.address2@,
        "  locality: "@ + c.city@ + " "@ + c.state_province@ + " "@ + c.postal_code@ + " "@
            + c.country@,
        "  phone: "@ + c.phone@ + " email: "@ + c.email_address@,
        "  read_only: "@ + shown_bool(c.read_only),
    ]
}

/// One contact set as its audit signals only.
pub open spec fn contact_summary_line(label: Seq<char>, c: Contact) -> Seq<char> {
    label + ": country "@ + c.country@ + " read_only "@ + shown_bool(c.read_only)
}

/// The contacts of a domain: every field with `full`, otherwise only
/// whether the four sets agree and each set's country and read-only flag.
pub open spec fn contacts_lines(c: Contacts, full: bool) -> Seq<Seq<char>> {
    seq!["domain: "@ + c.domain@] + if full {
        contact_lines("registrant"@, c.registrant) + contact_lines("tech"@, c.tech) + contact_lines(
            "admin"@,
            c.admin,
        ) + contact_lines("aux_billing"@, c.aux_billing)
    } else {
        seq![
            "all_contact_sets_identical: "@ + shown_bool(all_contact_sets_identical(c)),
            contact_summary_line("registrant"@, c.registrant),
            contact_summary_line("tech"@, c.tech),
            contact_summary_line("admin"@, c.admin),
            contact_summary_line("aux_billing"@, c.aux_billing),
            "(contact details redacted; pass --full to show them)"@,
        ]
    }
}

fn add_contact_lines(lines: &mut Vec<String>, label: &str, c: &Contact)
    ensures
        views(final(lines)@) == views(old(lines)@) + contact_lines(label@, *c),
{
    let ghost start = views(lines@);
    add_line(lines, concat3("[", label, "]"));
    let mut name = concat3("  name: ", c.first_name.as_str(), " ");
    name.push_str(c.last_name.as_str());
    add_line(lines, name);
    if c.organization_name.as_str().unicode_len() > 0 {
        add_line(lines, concat2("  organization: ", c.organization_name.as_str()));
    }
    let mut address = concat3("  address: ", c.address1.as_str(), " ");
    address.push_str(c.address2.as_str());
    add_line(lines, address);
    let mut locality = concat3("  locality: ", c.city.as_str(), " ");
    locality.push_str(c.state_province.as_str());
    locality.push_str(" ");
    locality.push_str(c.postal_code.as_str());
    locality.push_str(" ");
    locality.push_str(c.country.as_str());
    add_line(lines, locality);
    let mut phone = concat3("  phone: ", c.phone.as_str(), " email: ");
    phone.push_str(c.email_address.as_str());
    add_line(lines, phone);
    add_line(lines, concat2("  read_only: ", bool_str(c.read_only)));
    assert(views(lines@) =~= start + contact_lines(label@, *c));
}

fn contact_summary_text(label: &str, c: &Contact) -> (r: String)
    ensures
        r@ == contact_summary_line(label@, *c),
{
    let mut r = concat3(label, ": country ", c.country.as_str());
    r.push_str(" read_only ");
    r.push_str(bool_str(c.read_only));
    r
}

/// The contacts of a domain as a person reads them.
pub fn render_contacts(c: &Contacts, full: bool) -> (text: String)
    ensures
        text@ == plain_lines(contacts_lines(*c, full)),
{
    let mut lines: Vec<String> = Vec::new();
    add_line(&mut lines, concat2("domain: ", c.domain.as_str()));
    if full {
        add_contact_lines(&mut lines, "registrant", &c.registrant);
        add_contact_lines(&mut lines, "tech", &c.tech);
        add_contact_lines(&mut lines, "admin", &c.admin);
        add_contact_lines(&mut lines, "aux_billing", &c.aux_billing);
    } else {
        add_line(
            &mut lines,
            concat2("all_contact_sets_identical: ", bool_str(contacts_identical(c))),
        );
        add_line(&mut lines, contact_summary_text("registrant", &c.registrant));
        add_line(&mut lines, contact_summary_text("tech", &c.tech));
        add_line(&mut lines, contact_summary_text("admin", &c.admin));
        add_line(&mut lines, contact_summary_text("aux_billing", &c.aux_billing));
        add_line(&mut lines, owned("(contact details redacted; pass --full to show them)"));
    }
    assert(views(lines@) =~= contacts_lines(*c, full));
    lines_text(&lines)
}

pub open spec fn purchase_line(
    domain: Seq<char>,
    outcome: Seq<char>,
    years: u8,
    listed: Seq<char>,
    charged: Seq<char>,
    order: Seq<char>,
    transaction: Seq<char>,
) -> Seq<char> {
    domain + ": "@ + outcome + " for "@ + decimal(years as nat) + " year(s) \u{2014} listed "@ + listed
        + ", charged "@ + charged + " (order "@ + order + ", transaction "@ + transaction + ")"@
}

fn purchase_text(
    domain: &str,
    outcome: &str,
    years: u8,
    listed: &str,
    charged: &str,
    order: &str,
    transaction: &str,
) -> (r: String)
    ensures
        r@ == purchase_line(domain@, outcome@, years, listed@, charged@, order@, transaction@),
{
    let mut r = concat3(domain, ": ", outcome);
    r.push_str(" for ");
    r.push_str(decimal_string(years as u128).as_str());
    r.push_str(" year(s) \u{2014} listed ");
    r.push_str(listed);
    r.push_str(", charged ");
    r.push_str(charged);
    r.push_str(" (order ");
    r.push_str(order);
    r.push_str(", transaction ");
    r.push_str(transaction);
    r.push_str(")");
    assert(r@ =~= purchase_line(domain@, outcome@, years, listed@, charged@, order@, transaction@));
    r
}

/// A registration as a person reads it.
pub fn render_register(r: &RegisterResult) -> (text: String)
    ensures
        text@ == plain_lines(
            seq![
                purchase_line(
                    r.domain@,
                    if r.registered {
                        "registered"@
                    } else {
                        "NOT registered"@
                    },
                    r.years,
                    r.listed_price@,
                    r.charged_amount@,
                    r.order_id@,
                    r.transaction_id@,
                ),
            ],
        ),
{
    let line = purchase_text(
        r.domain.as_str(),
        if r.registered { "registered" } else { "NOT registered" },
        r.years,
        r.listed_price.as_str(),
        r.charged_amount.as_str(),
        r.order_id.as_str(),
        r.transaction_id.as_str(),
    );
    single_line(line)
}

/// A renewal as a person reads it.
pub fn render_renew(r: &RenewResult) -> (text: String)
    ensures
        text@ == plain_lines(
            seq![
                purchase_line(
                    r.domain@,
                    if r.renewed {
                        "renewed"@
                    } else {
                        "NOT renewed"@
                    },
                    r.years,
                    r.listed_price@,
                    r.charged_amount@,
                    r.order_id@,
                    r.transaction_id@,
                ),
            ],
        ),
{
    let line = purchase_text(
        r.domain.as_str(),
        if r.renewed { "renewed" } else { "NOT renewed" },
        r.years,
        r.listed_price.as_str(),
        r.charged_amount.as_str(),
        r.order_id.as_str(),
        r.transaction_id.as_str(),
    );
    single_line(line)
}

} // verus!
