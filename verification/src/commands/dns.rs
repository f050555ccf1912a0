//! DNS: nameserver mode and host records, and host-record editing on top
//! of the full-replace `setHosts` (add one record, remove matching ones).
use vstd::prelude::*;

use super::domains::form_view;
use crate::domain::{split_outcome, split_sld_tld};
use crate::api::{gate_refusal, mutations_permitted, Client, Error, Transport};
use crate::text::{
    ascii_uppercase, concat2, concat3, debug_quoted, decimal, decimal_string,
    eq_ignore_ascii_case, eq_ignore_case, join, join_strings, lemma_safe_lines_push, lower, owned,
    pad_right, pad_right_string, push_safe_line, quoted, safe_lines, str_eq, upper, views,
};

verus! {

pub struct HostRecord {
    pub id: String,
    pub name: String,
    pub record_type: String,
    pub address: String,
    pub mx_pref: String,
    pub ttl: String,
}

/// A host record by value: (id, name, type, address, MX preference, TTL).
pub type HostView = (Seq<char>, Seq<char>, Seq<char>, Seq<char>, Seq<char>, Seq<char>);

pub open spec fn host_view(h: HostRecord) -> HostView {
    (h.id@, h.name@, h.record_type@, h.address@, h.mx_pref@, h.ttl@)
}

pub open spec fn zone_view(z: Seq<HostRecord>) -> Seq<HostView> {
    z.map_values(|h: HostRecord| host_view(h))
}

impl HostRecord {
    /// A copy of the record.
    pub fn duplicate(&self) -> (r: HostRecord)
        ensures
            r == *self,
    {
        HostRecord {
            id: self.id.clone(),
            name: self.name.clone(),
            record_type: self.record_type.clone(),
            address: self.address.clone(),
            mx_pref: self.mx_pref.clone(),
            ttl: self.ttl.clone(),
        }
    }
}

/// The parsed `domains.dns.getList` result.
pub struct GetListResponse {
    pub domain: String,
    pub is_using_our_dns: bool,
    pub nameservers: Vec<String>,
}

/// The parsed `domains.dns.getHosts` result. `email_type` must be sent
/// back on every rewrite: dropping it can reset the mail configuration.
pub struct GetHostsResponse {
    pub email_type: String,
    pub hosts: Vec<HostRecord>,
}

pub struct DnsInfo {
    pub domain: String,
    pub is_using_our_dns: bool,
    pub nameservers: Vec<String>,
    /// None when the domain uses external DNS: host records are only
    /// served for domains on Namecheap's nameservers.
    pub host_records: Option<Vec<HostRecord>>,
}

/// Whether `dns get` needs the second call for host records.
pub fn needs_host_records(list: &GetListResponse) -> (r: bool)
    ensures
        r == list.is_using_our_dns,
{
    list.is_using_our_dns
}

/// Nameserver mode plus host records where Namecheap is authoritative.
pub fn get(list: GetListResponse, hosts: Option<GetHostsResponse>) -> (r: DnsInfo)
    requires
        hosts is Some <==> list.is_using_our_dns,
    ensures
        r.domain == list.domain,
        r.is_using_our_dns == list.is_using_our_dns,
        r.nameservers == list.nameservers,
        match hosts {
            Some(h) => r.host_records == Some(h.hosts),
            None => r.host_records is None,
        },
{
    DnsInfo {
        domain: list.domain,
        is_using_our_dns: list.is_using_our_dns,
        nameservers: list.nameservers,
        host_records: match hosts {
            Some(h) => Some(h.hosts),
            None => None,
        },
    }
}

/// The parsed `domains.dns.setCustom` outcome.
pub struct SetCustomResponse {
    pub domain: String,
    pub updated: bool,
}

/// The parsed `domains.dns.setDefault` outcome.
pub struct SetDefaultResponse {
    pub domain: String,
    pub updated: bool,
}

pub struct SetResult {
    pub domain: String,
    pub updated: bool,
    pub nameservers: Vec<String>,
    /// The nameservers that were replaced (pre-image).
    pub previous_nameservers: Vec<String>,
}

/// The parsed `domains.dns.setHosts` outcome.
pub struct SetHostsResponse {
    pub domain: String,
    pub is_success: bool,
}

pub struct EditResult {
    pub domain: String,
    pub is_success: bool,
    pub action: String,
    pub records_before: usize,
    pub records_after: usize,
}

// ---------------------------------------------------------------------------
// Record types
// ---------------------------------------------------------------------------

/// The record types setHosts accepts.
pub open spec fn record_types() -> Seq<Seq<char>> {
    seq![
        "A"@,
        "AAAA"@,
        "ALIAS"@,
        "CAA"@,
        "CNAME"@,
        "MX"@,
        "MXE"@,
        "NS"@,
        "TXT"@,
        "URL"@,
        "URL301"@,
        "FRAME"@,
    ]
}

pub open spec fn unknown_type_message(record_type: Seq<char>) -> Seq<char> {
    "unknown record type "@ + quoted(record_type) + "; supported: "@ + join(record_types(), ", "@)
}

/// A record type in any case, upper-cased, when setHosts accepts it; a
/// usage error otherwise.
pub open spec fn type_outcome(record_type: Seq<char>, r: Result<String, Error>) -> bool {
    match r {
        Ok(t) => t@ == upper(record_type) && record_types().contains(t@),
        Err(e) => !record_types().contains(upper(record_type)) && (e matches Error::Usage(m) && m@
            == unknown_type_message(record_type)),
    }
}

/// A record type in any case, returned in upper case when setHosts
/// accepts it.
pub fn validate_type(record_type: &str) -> (r: Result<String, Error>)
    ensures
        type_outcome(record_type@, r),
{
    let up = ascii_uppercase(record_type);
    let names: [&str; 12] = [
        "A",
        "AAAA",
        "ALIAS",
        "CAA",
        "CNAME",
        "MX",
        "MXE",
        "NS",
        "TXT",
        "URL",
        "URL301",
        "FRAME",
    ];
    let ghost types = record_types();
    assert(names@.map_values(|s: &str| s@) =~= types);
    let mut i: usize = 0;
    while i < 12
        invariant
            i <= 12,
            names@.map_values(|s: &str| s@) == types,
            types == record_types(),
            up@ == upper(record_type@),
            forall|j: int| 0 <= j < i ==> types[j] != up@,
        decreases 12 - i,
    {
        if str_eq(up.as_str(), names[i]) {
            assert(types[i as int] == up@);
            return Ok(up);
        }
        i = i + 1;
    }
    assert(!types.contains(up@));
    let mut m = concat3("unknown record type ", debug_quoted(record_type).as_str(), "; supported: ");
    m.push_str("A, AAAA, ALIAS, CAA, CNAME, MX, MXE, NS, TXT, URL, URL301, FRAME");
    proof {
        reveal_strlit("A");
        reveal_strlit("AAAA");
        reveal_strlit("ALIAS");
        reveal_strlit("CAA");
        reveal_strlit("CNAME");
        reveal_strlit("MX");
        reveal_strlit("MXE");
        reveal_strlit("NS");
        reveal_strlit("TXT");
        reveal_strlit("URL");
        reveal_strlit("URL301");
        reveal_strlit("FRAME");
        reveal_strlit(", ");
        reveal_strlit("A, AAAA, ALIAS, CAA, CNAME, MX, MXE, NS, TXT, URL, URL301, FRAME");
        reveal_with_fuel(join, 13);
        assert("A, AAAA, ALIAS, CAA, CNAME, MX, MXE, NS, TXT, URL, URL301, FRAME"@ =~= join(
            types,
            ", "@,
        ));
    }
    Err(Error::Usage(m))
}

pub open spec fn mx_message() -> Seq<char> {
    "MX records require --mx-pref (the API mandates MXPref for MX)"@
}

/// A new record's type: known to setHosts (upper-cased), and an MX record
/// carries a preference.
pub open spec fn new_type_outcome(record_type: Seq<char>, mx_pref: Option<u32>, r: Result<
    String,
    Error,
>) -> bool {
    match r {
        Ok(t) => t@ == upper(record_type) && record_types().contains(t@) && (t@ == "MX"@
            ==> mx_pref is Some),
        Err(e) => if !record_types().contains(upper(record_type)) {
            e matches Error::Usage(m) && m@ == unknown_type_message(record_type)
        } else {
            upper(record_type) == "MX"@ && mx_pref is None && (e matches Error::Usage(m) && m@
                == mx_message())
        },
    }
}

/// What a nameserver change checks before it reads the current
/// nameservers, in this order: the production-mutation gate, then the
/// split of the domain into SLD and TLD. Nothing is sent.
pub fn prepare_zone_mutation<T: Transport>(client: &Client<T>, domain: &str) -> (r: Result<
    (String, String),
    Error,
>)
    ensures
        !mutations_permitted(client.profile_state()) ==> (r matches Err(Error::Policy(m)) && m@
            == gate_refusal()),
        mutations_permitted(client.profile_state()) ==> split_outcome(domain@, r),
{
    match client.require_mutations_permitted() {
        Err(e) => Err(e),
        Ok(()) => split_sld_tld(domain),
    }
}

/// What `dns add` checks before it reads the zone, in this order: the
/// production-mutation gate, then a known type and, for MX, a preference.
/// It takes the client by shared reference, so nothing is sent.
pub fn prepare_add<T: Transport>(client: &Client<T>, record_type: &str, mx_pref: Option<u32>) -> (r:
    Result<String, Error>)
    ensures
        !mutations_permitted(client.profile_state()) ==> (r matches Err(Error::Policy(m)) && m@
            == gate_refusal()),
        mutations_permitted(client.profile_state()) ==> new_type_outcome(record_type@, mx_pref, r),
{
    match client.require_mutations_permitted() {
        Err(e) => Err(e),
        Ok(()) => new_record_type(record_type, mx_pref),
    }
}

/// What `dns remove` checks before it reads the zone, in this order: the
/// production-mutation gate, then a known type. Nothing is sent.
pub fn prepare_remove<T: Transport>(client: &Client<T>, record_type: &str) -> (r: Result<
    String,
    Error,
>)
    ensures
        !mutations_permitted(client.profile_state()) ==> (r matches Err(Error::Policy(m)) && m@
            == gate_refusal()),
        mutations_permitted(client.profile_state()) ==> type_outcome(record_type@, r),
{
    match client.require_mutations_permitted() {
        Err(e) => Err(e),
        Ok(()) => validate_type(record_type),
    }
}

/// The checks on a new record that need no zone: a known type, and a
/// preference for MX. Returns the type in upper case.
pub fn new_record_type(record_type: &str, mx_pref: Option<u32>) -> (r: Result<String, Error>)
    ensures
        new_type_outcome(record_type@, mx_pref, r),
{
    let t = match validate_type(record_type) {
        Ok(t) => t,
        Err(e) => return Err(e),
    };
    if str_eq(t.as_str(), "MX") && mx_pref.is_none() {
        return Err(
            Error::Usage(owned("MX records require --mx-pref (the API mandates MXPref for MX)")),
        );
    }
    Ok(t)
}

// ---------------------------------------------------------------------------
// Zone edits
// ---------------------------------------------------------------------------

/// A record answers to (name, type[, address]): name and type compared
/// case-insensitively, the address exactly.
pub open spec fn record_matches(
    h: HostView,
    name: Seq<char>,
    record_type: Seq<char>,
    address: Option<Seq<char>>,
) -> bool {
    &&& eq_ignore_case(h.1, name)
    &&& eq_ignore_case(h.2, record_type)
    &&& match address {
        Some(a) => h.3 == a,
        None => true,
    }
}

fn matches_record(h: &HostRecord, name: &str, record_type: &str, address: Option<&str>) -> (r: bool)
    ensures
        r == record_matches(
            host_view(*h),
            name@,
            record_type@,
            match address {
                Some(a) => Some(a@),
                None => None,
            },
        ),
{
    eq_ignore_ascii_case(h.name.as_str(), name) && eq_ignore_ascii_case(
        h.record_type.as_str(),
        record_type,
    ) && match address {
        Some(a) => str_eq(h.address.as_str(), a),
        None => true,
    }
}

pub open spec fn opt_decimal(v: Option<u32>) -> Seq<char> {
    match v {
        Some(n) => decimal(n as nat),
        None => seq![],
    }
}

/// The record `dns add` creates.
pub open spec fn new_record(
    name: Seq<char>,
    record_type: Seq<char>,
    address: Seq<char>,
    ttl: Option<u32>,
    mx_pref: Option<u32>,
) -> HostView {
    (seq![], name, record_type, address, opt_decimal(mx_pref), opt_decimal(ttl))
}

pub open spec fn duplicate_message(record_type: Seq<char>, name: Seq<char>) -> Seq<char> {
    "an identical "@ + record_type + " record for "@ + quoted(name) + " already exists"@
}

fn opt_decimal_string(v: Option<u32>) -> (r: String)
    ensures
        r@ == opt_decimal(v),
{
    match v {
        Some(n) => decimal_string(n as u128),
        None => String::new(),
    }
}

/// Add one record to a zone (`record_type` as `new_record_type` returns
/// it). Refused when an identical record (same name and type in any case,
/// same address) already exists; otherwise the record is appended.
pub fn add_record(
    zone: Vec<HostRecord>,
    name: &str,
    record_type: &str,
    address: &str,
    ttl: Option<u32>,
    mx_pref: Option<u32>,
) -> (r: Result<Vec<HostRecord>, Error>)
    ensures
        match r {
            Ok(z) => (forall|i: int|
                0 <= i < zone@.len() ==> !record_matches(
                    #[trigger] host_view(zone@[i]),
                    name@,
                    record_type@,
                    Some(address@),
                )) && zone_view(z@) == zone_view(zone@).push(
                new_record(name@, record_type@, address@, ttl, mx_pref),
            ),
            Err(e) => (exists|i: int|
                0 <= i < zone@.len() && record_matches(
                    #[trigger] host_view(zone@[i]),
                    name@,
                    record_type@,
                    Some(address@),
                )) && (e matches Error::Usage(m) && m@ == duplicate_message(record_type@, name@)),
        },
        r is Err ==> exists|i: int|
            0 <= i < zone@.len() && lower((#[trigger] zone@[i]).name@) == lower(name@) && lower(
                zone@[i].record_type@,
            ) == lower(record_type@) && zone@[i].address@ == address@,
        r is Ok ==> forall|i: int|
            0 <= i < zone@.len() ==> !(lower((#[trigger] zone@[i]).name@) == lower(name@) && lower(
                zone@[i].record_type@,
            ) == lower(record_type@) && zone@[i].address@ == address@),
        r matches Ok(z) ==> {
            &&& z@.len() == zone@.len() + 1
            &&& forall|i: int| 0 <= i < zone@.len() ==> host_view(#[trigger] z@[i]) == host_view(zone@[i])
            &&& z@.last().id@.len() == 0
            &&& z@.last().name@ == name@
            &&& z@.last().record_type@ == record_type@
            &&& z@.last().address@ == address@
            &&& z@.last().ttl@ == match ttl {
                Some(n) => decimal(n as nat),
                None => Seq::<char>::empty(),
            }
            &&& z@.last().mx_pref@ == match mx_pref {
                Some(n) => decimal(n as nat),
                None => Seq::<char>::empty(),
            }
        },
{
    let mut i: usize = 0;
    while i < zone.len()
        invariant
            i <= zone@.len(),
            forall|j: int|
                0 <= j < i ==> !record_matches(
                    #[trigger] host_view(zone@[j]),
                    name@,
                    record_type@,
                    Some(address@),
                ),
        decreases zone@.len() - i,
    {
        if matches_record(&zone[i], name, record_type, Some(address)) {
            assert(lower(zone@[i as int].record_type@) == lower(record_type@));
            let mut m = concat3("an identical ", record_type, " record for ");
            m.push_str(debug_quoted(name).as_str());
            m.push_str(" already exists");
            return Err(Error::Usage(m));
        }
        i = i + 1;
    }
    assert forall|i: int| 0 <= i < zone@.len() implies !(lower((#[trigger] zone@[i]).name@) == lower(
        name@,
    ) && lower(zone@[i].record_type@) == lower(record_type@) && zone@[i].address@ == address@) by {
        assert(!record_matches(host_view(zone@[i]), name@, record_type@, Some(address@)));
    }
    let record = HostRecord {
        id: String::new(),
        name: owned(name),
        record_type: owned(record_type),
        address: owned(address),
        mx_pref: opt_decimal_string(mx_pref),
        ttl: opt_decimal_string(ttl),
    };
    let mut z = zone;
    let ghost before = z@;
    z.push(record);
    assert(zone_view(z@) =~= zone_view(before).push(host_view(record)));
    assert forall|i: int| 0 <= i < zone@.len() implies host_view(#[trigger] z@[i]) == host_view(zone@[i]) by {
        assert(z@[i] == zone@[i]);
    }
    Ok(z)
}

/// The records of a zone that match, and those that remain, each in
/// their original order.
pub open spec fn partition_zone(
    zone: Seq<HostView>,
    name: Seq<char>,
    record_type: Seq<char>,
    address: Option<Seq<char>>,
) -> (Seq<HostView>, Seq<HostView>)
    decreases zone.len(),
{
    if zone.len() == 0 {
        (seq![], seq![])
    } else {
        let (m, k) = partition_zone(zone.drop_last(), name, record_type, address);
        if record_matches(zone.last(), name, record_type, address) {
            (m.push(zone.last()), k)
        } else {
            (m, k.push(zone.last()))
        }
    }
}

pub open spec fn not_found_message(
    record_type: Seq<char>,
    name: Seq<char>,
    address: Option<Seq<char>>,
) -> Seq<char> {
    "no "@ + record_type + " record for "@ + quoted(name) + match address {
        Some(a) => " with address "@ + quoted(a),
        None => seq![],
    } + " found"@
}

pub open spec fn empty_zone_message() -> Seq<char> {
    "removal would leave the zone empty; refusing (clear the zone via the dashboard if intended)"@
}

/// The two halves of a removal: the matched records and the remaining zone.
pub struct Removal {
    pub matched: Vec<HostRecord>,
    pub remaining: Vec<HostRecord>,
}

/// Remove the records matching (name, type[, address]) from a zone.
/// Refused when nothing matches, or when nothing would remain.
pub fn remove_record(
    zone: Vec<HostRecord>,
    name: &str,
    record_type: &str,
    address: Option<&str>,
) -> (r: Result<Removal, Error>)
    ensures
        ({
            let addr = match address {
                Some(a) => Some(a@),
                None => None,
            };
            let (m, k) = partition_zone(zone_view(zone@), name@, record_type@, addr);
            if m.len() == 0 {
                r matches Err(Error::Usage(msg)) && msg@ == not_found_message(
                    record_type@,
                    name@,
                    addr,
                )
            } else if k.len() == 0 {
                r matches Err(Error::Usage(msg)) && msg@ == empty_zone_message()
            } else {
                r matches Ok(rm) && zone_view(rm.matched@) == m && zone_view(rm.remaining@) == k
            }
        }),
        r matches Ok(rm) ==> {
            &&& rm.matched@.len() + rm.remaining@.len() == zone@.len()
            &&& forall|i: int|
                0 <= i < rm.matched@.len() ==> lower((#[trigger] rm.matched@[i]).name@) == lower(name@)
                    && lower(rm.matched@[i].record_type@) == lower(record_type@)
            &&& forall|i: int|
                0 <= i < zone@.len() && lower((#[trigger] zone@[i]).record_type@) != lower(
                    record_type@,
                ) ==> zone_view(rm.remaining@).contains(host_view(zone@[i]))
        },
{
    let ghost addr = match address {
        Some(a) => Some(a@),
        None => None::<Seq<char>>,
    };
    let ghost zv = zone_view(zone@);
    let mut matched: Vec<HostRecord> = Vec::new();
    let mut remaining: Vec<HostRecord> = Vec::new();
    let mut i: usize = 0;
    while i < zone.len()
        invariant
            i <= zone@.len(),
            zv == zone_view(zone@),
            addr == match address {
                Some(a) => Some(a@),
                None => None::<Seq<char>>,
            },
            partition_zone(zv.take(i as int), name@, record_type@, addr) == (
                zone_view(matched@),
                zone_view(remaining@),
            ),
        decreases zone@.len() - i,
    {
        let h = zone[i].duplicate();
        let ghost bm = matched@;
        let ghost br = remaining@;
        proof {
            assert(zv.take(i + 1).drop_last() =~= zv.take(i as int));
            assert(zv.take(i + 1).last() == host_view(h));
        }
        if matches_record(&h, name, record_type, address) {
            matched.push(h);
            assert(zone_view(matched@) =~= zone_view(bm).push(host_view(h)));
        } else {
            remaining.push(h);
            assert(zone_view(remaining@) =~= zone_view(br).push(host_view(h)));
        }
        i = i + 1;
    }
    assert(zv.take(zone@.len() as int) =~= zv);
    if matched.len() == 0 {
        let mut m = concat3("no ", record_type, " record for ");
        m.push_str(debug_quoted(name).as_str());
        match address {
            Some(a) => {
                m.push_str(" with address ");
                m.push_str(debug_quoted(a).as_str());
            },
            None => {},
        }
        m.push_str(" found");
        return Err(Error::Usage(m));
    }
    if remaining.len() == 0 {
        return Err(
            Error::Usage(
                owned(
                    "removal would leave the zone empty; refusing (clear the zone via the dashboard if intended)",
                ),
            ),
        );
    }
    proof {
        removal_takes_only_the_named_records(zv, name@, record_type@, addr);
        let mv = zone_view(matched@);
        assert forall|i: int| 0 <= i < matched@.len() implies lower((#[trigger] matched@[i]).name@)
            == lower(name@) && lower(matched@[i].record_type@) == lower(record_type@) by {
            assert(mv[i] == host_view(matched@[i]));
            assert(named_by(mv[i], name@, record_type@, addr));
        }
        assert forall|i: int| 0 <= i < zone@.len() && lower((#[trigger] zone@[i]).record_type@)
            != lower(record_type@) implies zone_view(remaining@).contains(host_view(zone@[i])) by {
            assert(zv[i] == host_view(zone@[i]));
            assert(lower(zv[i].2) != lower(record_type@));
        }
    }
    Ok(Removal { matched, remaining })
}

/// Whether a record carries the requested name and type (each in any
/// ASCII case) and, when one is given, exactly the requested address.
pub open spec fn named_by(h: HostView, name: Seq<char>, record_type: Seq<char>, address: Option<
    Seq<char>,
>) -> bool {
    &&& lower(h.1) == lower(name)
    &&& lower(h.2) == lower(record_type)
    &&& address matches Some(a) ==> h.3 == a
}

/// What a removal takes and what it keeps: every record taken has the
/// requested name and type (ASCII case-insensitively) and, when one is
/// given, the requested address; every record kept lacks one of these;
/// each record of the zone is taken or kept, none lost or added; and a
/// record of another type than the requested one is always kept.
pub proof fn removal_takes_only_the_named_records(
    zone: Seq<HostView>,
    name: Seq<char>,
    record_type: Seq<char>,
    address: Option<Seq<char>>,
)
    ensures
        ({
            let (m, k) = partition_zone(zone, name, record_type, address);
            &&& m.len() + k.len() == zone.len()
            &&& forall|i: int| 0 <= i < m.len() ==> named_by(#[trigger] m[i], name, record_type, address)
            &&& forall|i: int|
                0 <= i < k.len() ==> !named_by(#[trigger] k[i], name, record_type, address)
            &&& forall|i: int|
                0 <= i < zone.len() && lower(#[trigger] zone[i].2) != lower(record_type) ==> k.contains(
                    zone[i],
                )
            &&& forall|i: int|
                0 <= i < zone.len() && named_by(#[trigger] zone[i], name, record_type, address)
                    ==> m.contains(zone[i])
        }),
    decreases zone.len(),
{
    if zone.len() > 0 {
        let d = zone.drop_last();
        removal_takes_only_the_named_records(d, name, record_type, address);
        let (m0, k0) = partition_zone(d, name, record_type, address);
        let (m, k) = partition_zone(zone, name, record_type, address);
        let x = zone.last();
        assert(record_matches(x, name, record_type, address) == named_by(x, name, record_type, address));
        assert forall|i: int| 0 <= i < zone.len() && lower(#[trigger] zone[i].2) != lower(record_type)
            implies k.contains(zone[i]) by {
            if i < d.len() {
                assert(zone[i] == d[i]);
                assert(lower(d[i].2) != lower(record_type));
                let j = choose|j: int| 0 <= j < k0.len() && k0[j] == d[i];
                if named_by(x, name, record_type, address) {
                    assert(k == k0);
                } else {
                    assert(k == k0.push(x));
                    assert(k[j] == k0[j]);
                }
            } else {
                assert(k == k0.push(x));
                assert(k[k0.len() as int] == x);
            }
        }
        assert forall|i: int| 0 <= i < zone.len() && named_by(#[trigger] zone[i], name, record_type, address)
            implies m.contains(zone[i]) by {
            if i < d.len() {
                assert(zone[i] == d[i]);
                assert(named_by(d[i], name, record_type, address));
                let j = choose|j: int| 0 <= j < m0.len() && m0[j] == d[i];
                if named_by(x, name, record_type, address) {
                    assert(m == m0.push(x));
                    assert(m[j] == m0[j]);
                } else {
                    assert(m == m0);
                }
            } else {
                assert(m == m0.push(x));
                assert(m[m0.len() as int] == x);
            }
        }
        if named_by(x, name, record_type, address) {
            assert forall|i: int| 0 <= i < m.len() implies named_by(#[trigger] m[i], name, record_type, address) by {
                if i < m0.len() {
                    assert(m[i] == m0[i]);
                }
            }
        } else {
            assert forall|i: int| 0 <= i < k.len() implies !named_by(#[trigger] k[i], name, record_type, address) by {
                if i < k0.len() {
                    assert(k[i] == k0[i]);
                }
            }
        }
    }
}

proof fn lemma_partition_without_match(
    zone: Seq<HostView>,
    name: Seq<char>,
    record_type: Seq<char>,
    address: Option<Seq<char>>,
)
    requires
        forall|i: int| 0 <= i < zone.len() ==> !record_matches(#[trigger] zone[i], name, record_type, address),
    ensures
        partition_zone(zone, name, record_type, address) == (Seq::<HostView>::empty(), zone),
    decreases zone.len(),
{
    if zone.len() > 0 {
        let d = zone.drop_last();
        assert forall|i: int| 0 <= i < d.len() implies !record_matches(#[trigger] d[i], name, record_type, address) by {
            assert(d[i] == zone[i]);
        }
        lemma_partition_without_match(d, name, record_type, address);
        assert(!record_matches(zone[zone.len() - 1], name, record_type, address));
        assert(d.push(zone.last()) =~= zone);
    }
}

/// Removing exactly what `dns add` added restores the zone: when no
/// record of the zone matched the new record (as `add_record` requires),
/// removing by its name, type and address matches only the new record and
/// leaves every other record, in order. A non-empty zone is therefore
/// never refused as "would leave the zone empty".
pub proof fn remove_undoes_add(
    zone: Seq<HostView>,
    name: Seq<char>,
    record_type: Seq<char>,
    address: Seq<char>,
    ttl: Option<u32>,
    mx_pref: Option<u32>,
)
    requires
        forall|i: int|
            0 <= i < zone.len() ==> !record_matches(#[trigger] zone[i], name, record_type, Some(address)),
    ensures
        partition_zone(
            zone.push(new_record(name, record_type, address, ttl, mx_pref)),
            name,
            record_type,
            Some(address),
        ) == (seq![new_record(name, record_type, address, ttl, mx_pref)], zone),
{
    let added = zone.push(new_record(name, record_type, address, ttl, mx_pref));
    lemma_partition_without_match(zone, name, record_type, Some(address));
    assert(added.drop_last() =~= zone);
    assert(record_matches(added.last(), name, record_type, Some(address)));
    assert(Seq::<HostView>::empty().push(added.last()) =~= seq![added.last()]);
}

/// The `setHosts` fields of one record, numbered `n`: TTL only when set,
/// MXPref only for MX records that carry one.
pub open spec fn record_form(h: HostView, n: nat) -> Seq<(Seq<char>, Seq<char>)> {
    seq![
        ("HostName"@ + decimal(n), h.1),
        ("RecordType"@ + decimal(n), h.2),
        ("Address"@ + decimal(n), h.3),
    ] + (if h.5.len() > 0 {
        seq![("TTL"@ + decimal(n), h.5)]
    } else {
        seq![]
    }) + (if eq_ignore_case(h.2, "MX"@) && h.4.len() > 0 {
        seq![("MXPref"@ + decimal(n), h.4)]
    } else {
        seq![]
    })
}

pub open spec fn hosts_form(records: Seq<HostView>) -> Seq<(Seq<char>, Seq<char>)>
    decreases records.len(),
{
    if records.len() == 0 {
        seq![]
    } else {
        hosts_form(records.drop_last()) + record_form(records.last(), records.len())
    }
}

/// The full `setHosts` form: the zone is rewritten whole, with the mail
/// setting carried over when present.
pub open spec fn zone_form(
    sld: Seq<char>,
    tld: Seq<char>,
    records: Seq<HostView>,
    email_type: Seq<char>,
) -> Seq<(Seq<char>, Seq<char>)> {
    seq![("SLD"@, sld), ("TLD"@, tld)] + (if email_type.len() > 0 {
        seq![("EmailType"@, email_type)]
    } else {
        seq![]
    }) + hosts_form(records)
}

fn push_pair(out: &mut Vec<(String, String)>, key: String, value: &String)
    ensures
        form_view(final(out)@) == form_view(old(out)@).push((key@, value@)),
{
    let ghost before = out@;
    let v = value.clone();
    out.push((key, v));
    assert(form_view(out@) =~= form_view(before).push((key@, value@)));
}

/// The `domains.dns.setCustom` form: the domain's SLD and TLD, and the
/// nameservers comma-joined.
pub fn set_custom_params(sld: &str, tld: &str, nameservers: &Vec<String>) -> (r: Vec<(String, String)>)
    ensures
        form_view(r@) == seq![
            ("SLD"@, sld@),
            ("TLD"@, tld@),
            ("NameServers"@, join(views(nameservers@), ","@)),
        ],
{
    let mut out: Vec<(String, String)> = Vec::new();
    out.push((owned("SLD"), owned(sld)));
    out.push((owned("TLD"), owned(tld)));
    out.push((owned("NameServers"), join_strings(nameservers, ",")));
    assert(form_view(out@) =~= seq![
        ("SLD"@, sld@),
        ("TLD"@, tld@),
        ("NameServers"@, join(views(nameservers@), ","@)),
    ]);
    out
}

/// The `domains.dns.setDefault` form: the domain's SLD and TLD.
pub fn set_default_params(sld: &str, tld: &str) -> (r: Vec<(String, String)>)
    ensures
        form_view(r@) == seq![("SLD"@, sld@), ("TLD"@, tld@)],
{
    let mut out: Vec<(String, String)> = Vec::new();
    out.push((owned("SLD"), owned(sld)));
    out.push((owned("TLD"), owned(tld)));
    assert(form_view(out@) =~= seq![("SLD"@, sld@), ("TLD"@, tld@)]);
    out
}

/// The outcome of switching to custom nameservers: the domain and flag as
/// reported, the nameservers set, and those they replaced.
pub fn set_result(resp: SetCustomResponse, nameservers: Vec<String>, previous_nameservers: Vec<
    String,
>) -> (r: SetResult)
    ensures
        r.domain == resp.domain,
        r.updated == resp.updated,
        r.nameservers == nameservers,
        r.previous_nameservers == previous_nameservers,
{
    SetResult { domain: resp.domain, updated: resp.updated, nameservers, previous_nameservers }
}

/// The outcome of switching back to Namecheap's default nameservers: no
/// custom nameservers remain.
pub fn set_default_result(resp: SetDefaultResponse, previous_nameservers: Vec<String>) -> (r:
    SetResult)
    ensures
        r.domain == resp.domain,
        r.updated == resp.updated,
        r.nameservers@.len() == 0,
        r.previous_nameservers == previous_nameservers,
{
    SetResult {
        domain: resp.domain,
        updated: resp.updated,
        nameservers: Vec::new(),
        previous_nameservers,
    }
}

/// The parameters of a `setHosts` rewrite.
pub fn zone_params(sld: &str, tld: &str, records: &Vec<HostRecord>, email_type: &str) -> (r: Vec<
    (String, String),
>)
    ensures
        form_view(r@) == zone_form(sld@, tld@, zone_view(records@), email_type@),
{
    let mut out: Vec<(String, String)> = Vec::new();
    out.push((owned("SLD"), owned(sld)));
    out.push((owned("TLD"), owned(tld)));
    if email_type.unicode_len() > 0 {
        out.push((owned("EmailType"), owned(email_type)));
    }
    let ghost head = form_view(out@);
    assert(head =~= seq![("SLD"@, sld@), ("TLD"@, tld@)] + (if email_type@.len() > 0 {
        seq![("EmailType"@, email_type@)]
    } else {
        seq![]
    }));
    let ghost zv = zone_view(records@);
    let mut i: usize = 0;
    assert(hosts_form(zv.take(0)) =~= Seq::<(Seq<char>, Seq<char>)>::empty()) by {
        assert(zv.take(0).len() == 0);
    }
    assert(form_view(out@) =~= head + hosts_form(zv.take(0)));
    while i < records.len()
        invariant
            i <= records@.len(),
            zv == zone_view(records@),
            form_view(out@) == head + hosts_form(zv.take(i as int)),
        decreases records@.len() - i,
    {
        let r = &records[i];
        let n = decimal_string((i + 1) as u128);
        let ghost before = form_view(out@);
        push_pair(&mut out, concat2("HostName", n.as_str()), &r.name);
        push_pair(&mut out, concat2("RecordType", n.as_str()), &r.record_type);
        push_pair(&mut out, concat2("Address", n.as_str()), &r.address);
        if r.ttl.as_str().unicode_len() > 0 {
            push_pair(&mut out, concat2("TTL", n.as_str()), &r.ttl);
        }
        if eq_ignore_ascii_case(r.record_type.as_str(), "MX") && r.mx_pref.as_str().unicode_len()
            > 0 {
            push_pair(&mut out, concat2("MXPref", n.as_str()), &r.mx_pref);
        }
        proof {
            let t = zv.take(i + 1);
            assert(t.drop_last() =~= zv.take(i as int));
            assert(t.last() == host_view(*r));
            assert(hosts_form(t) == hosts_form(zv.take(i as int)) + record_form(host_view(*r), (i + 1) as nat));
            assert(form_view(out@) =~= before + record_form(host_view(*r), (i + 1) as nat));
        }
        i = i + 1;
    }
    assert(zv.take(records@.len() as int) =~= zv);
    out
}

pub open spec fn add_action_text(record_type: Seq<char>, name: Seq<char>, address: Seq<char>) -> Seq<char> {
    "add "@ + record_type + " "@ + name + " -> "@ + address
}

/// The journal and result description of an addition.
pub fn add_action(record_type: &str, name: &str, address: &str) -> (r: String)
    ensures
        r@ == add_action_text(record_type@, name@, address@),
{
    let mut r = concat3("add ", record_type, " ");
    r.push_str(name);
    r.push_str(" -> ");
    r.push_str(address);
    r
}

pub open spec fn remove_action_text(count: nat, record_type: Seq<char>, name: Seq<char>) -> Seq<char> {
    "remove "@ + decimal(count) + " "@ + record_type + " record(s) for "@ + name
}

/// The journal and result description of a removal.
pub fn remove_action(count: usize, record_type: &str, name: &str) -> (r: String)
    ensures
        r@ == remove_action_text(count as nat, record_type@, name@),
{
    let mut r = concat2("remove ", decimal_string(count as u128).as_str());
    r.push_str(" ");
    r.push_str(record_type);
    r.push_str(" record(s) for ");
    r.push_str(name);
    r
}

// ---------------------------------------------------------------------------
// Human-readable output
// ---------------------------------------------------------------------------

pub open spec fn set_line(r: SetResult) -> Seq<char> {
    r.domain@ + ": nameservers "@ + (if r.updated {
        "updated"@
    } else {
        "NOT updated"@
    }) + " ("@ + join(views(r.nameservers@), ", "@) + ")"@
}

/// A nameserver change as a person reads it.
pub fn render_set(r: &SetResult) -> (text: String)
    ensures
        text@ == safe_lines(seq![set_line(*r)]),
{
    let mut line = concat3(r.domain.as_str(), ": nameservers ", if r.updated {
        "updated"
    } else {
        "NOT updated"
    });
    line.push_str(" (");
    line.push_str(join_strings(&r.nameservers, ", ").as_str());
    line.push_str(")");
    assert(line@ =~= set_line(*r));
    let mut text = String::new();
    push_safe_line(&mut text, line.as_str());
    proof {
        lemma_safe_lines_push(seq![], set_line(*r));
        assert(seq![set_line(*r)] =~= Seq::<Seq<char>>::empty().push(set_line(*r)));
    }
    text
}

/// One row of the host-record table: name, type, TTL and MX preference
/// in left-aligned columns, then the address.
pub open spec fn host_row(name: Seq<char>, t: Seq<char>, ttl: Seq<char>, mx: Seq<char>, address: Seq<char>) -> Seq<char> {
    pad_right(name, 30) + " "@ + pad_right(t, 8) + " "@ + pad_right(ttl, 8) + " "@ + pad_right(mx, 6)
        + " "@ + address
}

pub open spec fn host_lines(hosts: Seq<HostRecord>) -> Seq<Seq<char>> {
    hosts.map_values(|h: HostRecord| host_row(h.name@, h.record_type@, h.ttl@, h.mx_pref@, h.address@))
}

pub open spec fn dns_lines(info: DnsInfo) -> Seq<Seq<char>> {
    seq!["domain: "@ + info.domain@, "dns: "@ + if info.is_using_our_dns {
        "namecheap"@
    } else {
        "external"@
    }] + views(info.nameservers@).map_values(|n: Seq<char>| "nameserver: "@ + n) + match info.host_records {
        Some(hosts) => seq![host_row("NAME"@, "TYPE"@, "TTL"@, "MX"@, "ADDRESS"@)] + host_lines(hosts@),
        None => seq!["(host records not managed by Namecheap)"@],
    }
}

fn row_text(name: &str, t: &str, ttl: &str, mx: &str, address: &str) -> (r: String)
    ensures
        r@ == host_row(name@, t@, ttl@, mx@, address@),
{
    let mut r = pad_right_string(name, 30);
    r.push_str(" ");
    r.push_str(pad_right_string(t, 8).as_str());
    r.push_str(" ");
    r.push_str(pad_right_string(ttl, 8).as_str());
    r.push_str(" ");
    r.push_str(pad_right_string(mx, 6).as_str());
    r.push_str(" ");
    r.push_str(address);
    assert(r@ =~= host_row(name@, t@, ttl@, mx@, address@));
    r
}

/// Nameserver mode and host records as a person reads them.
pub fn render(info: &DnsInfo) -> (text: String)
    ensures
        text@ == safe_lines(dns_lines(*info)),
{
    let ghost all = dns_lines(*info);
    let mut text = String::new();
    let ghost mut done: Seq<Seq<char>> = seq![];
    let l0 = concat2("domain: ", info.domain.as_str());
    push_safe_line(&mut text, l0.as_str());
    proof {
        lemma_safe_lines_push(done, l0@);
        done = done.push(l0@);
    }
    let l1 = concat2("dns: ", if info.is_using_our_dns { "namecheap" } else { "external" });
    push_safe_line(&mut text, l1.as_str());
    proof {
        lemma_safe_lines_push(done, l1@);
        done = done.push(l1@);
    }
    let ghost head = done;
    let ghost ns = views(info.nameservers@).map_values(|n: Seq<char>| "nameserver: "@ + n);
    let mut i: usize = 0;
    while i < info.nameservers.len()
        invariant
            i <= info.nameservers@.len(),
            ns == views(info.nameservers@).map_values(|n: Seq<char>| "nameserver: "@ + n),
            done == head + ns.take(i as int),
            text@ == safe_lines(done),
        decreases info.nameservers@.len() - i,
    {
        let l = concat2("nameserver: ", info.nameservers[i].as_str());
        push_safe_line(&mut text, l.as_str());
        proof {
            lemma_safe_lines_push(done, l@);
            assert(ns.take(i + 1) =~= ns.take(i as int).push(l@));
            done = done.push(l@);
            assert(done =~= head + ns.take(i + 1));
        }
        i = i + 1;
    }
    assert(ns.take(info.nameservers@.len() as int) =~= ns);
    match &info.host_records {
        Some(hosts) => {
            let h = row_text("NAME", "TYPE", "TTL", "MX", "ADDRESS");
            push_safe_line(&mut text, h.as_str());
            proof {
                lemma_safe_lines_push(done, h@);
                done = done.push(h@);
            }
            let ghost top = done;
            let ghost rows = host_lines(hosts@);
            let mut k: usize = 0;
            while k < hosts.len()
                invariant
                    k <= hosts@.len(),
                    rows == host_lines(hosts@),
                    done == top + rows.take(k as int),
                    text@ == safe_lines(done),
                decreases hosts@.len() - k,
            {
                let rec = &hosts[k];
                let l = row_text(
                    rec.name.as_str(),
                    rec.record_type.as_str(),
                    rec.ttl.as_str(),
                    rec.mx_pref.as_str(),
                    rec.address.as_str(),
                );
                push_safe_line(&mut text, l.as_str());
                proof {
                    lemma_safe_lines_push(done, l@);
                    assert(rows.take(k + 1) =~= rows.take(k as int).push(l@));
                    done = done.push(l@);
                    assert(done =~= top + rows.take(k + 1));
                }
                k = k + 1;
            }
            assert(rows.take(hosts@.len() as int) =~= rows);
        },
        None => {
            let l = owned("(host records not managed by Namecheap)");
            push_safe_line(&mut text, l.as_str());
            proof {
                lemma_safe_lines_push(done, l@);
                done = done.push(l@);
            }
        },
    }
    assert(done =~= all);
    text
}

pub open spec fn edit_line(r: EditResult) -> Seq<char> {
    r.domain@ + ": "@ + r.action@ + " ("@ + (if r.is_success {
        "success"@
    } else {
        "NOT successful"@
    }) + "; records "@ + decimal(r.records_before as nat) + " -> "@ + decimal(
        r.records_after as nat,
    ) + ")"@
}

/// A host-record edit as a person reads it.
pub fn render_edit(r: &EditResult) -> (text: String)
    ensures
        text@ == safe_lines(seq![edit_line(*r)]),
{
    let mut line = concat3(r.domain.as_str(), ": ", r.action.as_str());
    line.push_str(" (");
    line.push_str(if r.is_success { "success" } else { "NOT successful" });
    line.push_str("; records ");
    line.push_str(decimal_string(r.records_before as u128).as_str());
    line.push_str(" -> ");
    line.push_str(decimal_string(r.records_after as u128).as_str());
    line.push_str(")");
    assert(line@ =~= edit_line(*r));
    let mut text = String::new();
    push_safe_line(&mut text, line.as_str());
    proof {
        lemma_safe_lines_push(seq![], edit_line(*r));
        assert(seq![edit_line(*r)] =~= Seq::<Seq<char>>::empty().push(edit_line(*r)));
    }
    text
}

} // verus!
