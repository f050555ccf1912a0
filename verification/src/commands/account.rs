//! Account balances and product pricing: the pricing request, the
//! flattening of the nested pricing tree into rows, the cache key, and the
//! row a purchase guard prices against.
use vstd::prelude::*;

use crate::api::Error;
use crate::config::Profile;
use crate::text::{
    add_line, ascii_lowercase, chars_of, concat2, concat3, decimal, decimal_string,
    eq_ignore_ascii_case, eq_ignore_case, is_ascii_alphanumeric, is_ascii_digit, is_ascii_lower,
    is_ascii_upper, lemma_decimal_digits, digits_value, lines_text, lower, owned,
    pad_right, pad_right_string, plain_lines, str_eq, string_of, views,
};
use super::domains::form_view;

verus! {

pub struct Balances {
    pub currency: String,
    pub available_balance: String,
    pub account_balance: String,
    pub earned_amount: String,
    pub withdrawable_amount: String,
    pub funds_required_for_auto_renew: String,
}

/// Balance amounts are private: the default view carries the currency,
/// the auto-renew requirement, and whether the available balance covers
/// it (`None` when an amount does not parse as a number).
pub struct BalancesRedacted {
    pub currency: String,
    pub funds_required_for_auto_renew: String,
    pub available_covers_auto_renew: Option<bool>,
}

/// The redacted view of the balances, given whether the available balance
/// covers the auto-renew requirement.
pub fn redacted_view(b: &Balances, covers: Option<bool>) -> (r: BalancesRedacted)
    ensures
        r.currency@ == b.currency@,
        r.funds_required_for_auto_renew@ == b.funds_required_for_auto_renew@,
        r.available_covers_auto_renew == covers,
{
    BalancesRedacted {
        currency: b.currency.clone(),
        funds_required_for_auto_renew: b.funds_required_for_auto_renew.clone(),
        available_covers_auto_renew: covers,
    }
}

pub struct GetBalancesResponse {
    pub result: Balances,
}

/// The account balance summary.
pub fn balances(resp: GetBalancesResponse) -> (r: Balances)
    ensures
        r == resp.result,
{
    resp.result
}

pub struct Price {
    pub duration: String,
    pub duration_type: String,
    pub price: String,
    pub regular_price: String,
    pub your_price: String,
    pub coupon_price: String,
    pub currency: String,
}

pub struct Product {
    pub name: String,
    pub prices: Vec<Price>,
}

pub struct ProductCategory {
    pub name: String,
    pub products: Vec<Product>,
}

pub struct ProductType {
    pub name: String,
    pub categories: Vec<ProductCategory>,
}

/// The parsed `users.getPricing` tree.
pub struct GetPricingResponse {
    pub types: Vec<ProductType>,
}

/// One flattened pricing entry.
pub struct PriceRow {
    pub product_type: String,
    pub category: String,
    pub product: String,
    pub duration: String,
    pub duration_type: String,
    pub price: String,
    pub regular_price: String,
    pub your_price: String,
    pub coupon_price: String,
    pub currency: String,
}

/// A pricing row by value.
pub struct RowView {
    pub product_type: Seq<char>,
    pub category: Seq<char>,
    pub product: Seq<char>,
    pub duration: Seq<char>,
    pub duration_type: Seq<char>,
    pub price: Seq<char>,
    pub regular_price: Seq<char>,
    pub your_price: Seq<char>,
    pub coupon_price: Seq<char>,
    pub currency: Seq<char>,
}

pub open spec fn row_view(r: PriceRow) -> RowView {
    RowView {
        product_type: r.product_type@,
        category: r.category@,
        product: r.product@,
        duration: r.duration@,
        duration_type: r.duration_type@,
        price: r.price@,
        regular_price: r.regular_price@,
        your_price: r.your_price@,
        coupon_price: r.coupon_price@,
        currency: r.currency@,
    }
}

pub open spec fn rows_view(rows: Seq<PriceRow>) -> Seq<RowView> {
    rows.map_values(|r: PriceRow| row_view(r))
}

/// The row for one price of one product in one category of one type.
pub open spec fn price_row(t: Seq<char>, c: Seq<char>, p: Seq<char>, price: Price) -> RowView {
    RowView {
        product_type: t,
        category: c,
        product: p,
        duration: price.duration@,
        duration_type: price.duration_type@,
        price: price.price@,
        regular_price: price.regular_price@,
        your_price: price.your_price@,
        coupon_price: price.coupon_price@,
        currency: price.currency@,
    }
}

pub open spec fn product_rows(t: Seq<char>, c: Seq<char>, p: Product) -> Seq<RowView> {
    p.prices@.map_values(|price: Price| price_row(t, c, p.name@, price))
}

pub open spec fn products_rows(t: Seq<char>, c: Seq<char>, ps: Seq<Product>) -> Seq<RowView>
    decreases ps.len(),
{
    if ps.len() == 0 {
        seq![]
    } else {
        products_rows(t, c, ps.drop_last()) + product_rows(t, c, ps.last())
    }
}

pub open spec fn categories_rows(t: Seq<char>, cs: Seq<ProductCategory>) -> Seq<RowView>
    decreases cs.len(),
{
    if cs.len() == 0 {
        seq![]
    } else {
        categories_rows(t, cs.drop_last()) + products_rows(t, cs.last().name@, cs.last().products@)
    }
}

/// The pricing tree flattened in document order: type, then category,
/// then product, then price.
pub open spec fn types_rows(ts: Seq<ProductType>) -> Seq<RowView>
    decreases ts.len(),
{
    if ts.len() == 0 {
        seq![]
    } else {
        types_rows(ts.drop_last()) + categories_rows(ts.last().name@, ts.last().categories@)
    }
}

/// One price of the pricing tree with where it sits: its product type,
/// category and product names, and the price element itself.
pub type PriceSource = (Seq<char>, Seq<char>, Seq<char>, Price);

pub open spec fn product_sources(t: Seq<char>, c: Seq<char>, p: Product) -> Seq<PriceSource> {
    p.prices@.map_values(|price: Price| (t, c, p.name@, price))
}

pub open spec fn products_sources(t: Seq<char>, c: Seq<char>, ps: Seq<Product>) -> Seq<PriceSource>
    decreases ps.len(),
{
    if ps.len() == 0 {
        seq![]
    } else {
        products_sources(t, c, ps.drop_last()) + product_sources(t, c, ps.last())
    }
}

pub open spec fn categories_sources(t: Seq<char>, cs: Seq<ProductCategory>) -> Seq<PriceSource>
    decreases cs.len(),
{
    if cs.len() == 0 {
        seq![]
    } else {
        categories_sources(t, cs.drop_last()) + products_sources(
            t,
            cs.last().name@,
            cs.last().products@,
        )
    }
}

/// Every price element of the tree, in document order, with its place.
pub open spec fn types_sources(ts: Seq<ProductType>) -> Seq<PriceSource>
    decreases ts.len(),
{
    if ts.len() == 0 {
        seq![]
    } else {
        types_sources(ts.drop_last()) + categories_sources(ts.last().name@, ts.last().categories@)
    }
}

/// Whether a row shows the price element it came from, attribute for
/// attribute: the names of its type, category and product, and the
/// element's Duration, DurationType, Price, RegularPrice, YourPrice,
/// CouponPrice and Currency.
pub open spec fn shows_price(r: RowView, s: PriceSource) -> bool {
    &&& r.product_type == s.0
    &&& r.category == s.1
    &&& r.product == s.2
    &&& r.duration == s.3.duration@
    &&& r.duration_type == s.3.duration_type@
    &&& r.price == s.3.price@
    &&& r.regular_price == s.3.regular_price@
    &&& r.your_price == s.3.your_price@
    &&& r.coupon_price == s.3.coupon_price@
    &&& r.currency == s.3.currency@
}

/// Rows that show their sources one for one, in order.
pub open spec fn show_prices(rows: Seq<RowView>, sources: Seq<PriceSource>) -> bool {
    &&& rows.len() == sources.len()
    &&& forall|i: int| 0 <= i < rows.len() ==> shows_price(#[trigger] rows[i], sources[i])
}

proof fn lemma_show_prices_append(
    a: Seq<RowView>,
    b: Seq<PriceSource>,
    c: Seq<RowView>,
    d: Seq<PriceSource>,
)
    requires
        show_prices(a, b),
        show_prices(c, d),
    ensures
        show_prices(a + c, b + d),
{
    assert forall|i: int| 0 <= i < (a + c).len() implies shows_price(#[trigger] (a + c)[i], (b + d)[i]) by {
        if i < a.len() {
            assert((a + c)[i] == a[i]);
            assert((b + d)[i] == b[i]);
        } else {
            assert((a + c)[i] == c[i - a.len()]);
            assert((b + d)[i] == d[i - a.len()]);
        }
    }
}

proof fn lemma_products_show(t: Seq<char>, c: Seq<char>, ps: Seq<Product>)
    ensures
        show_prices(products_rows(t, c, ps), products_sources(t, c, ps)),
    decreases ps.len(),
{
    if ps.len() > 0 {
        lemma_products_show(t, c, ps.drop_last());
        let p = ps.last();
        assert forall|i: int| 0 <= i < product_rows(t, c, p).len() implies shows_price(
            #[trigger] product_rows(t, c, p)[i],
            product_sources(t, c, p)[i],
        ) by {}
        lemma_show_prices_append(
            products_rows(t, c, ps.drop_last()),
            products_sources(t, c, ps.drop_last()),
            product_rows(t, c, p),
            product_sources(t, c, p),
        );
    }
}

proof fn lemma_categories_show(t: Seq<char>, cs: Seq<ProductCategory>)
    ensures
        show_prices(categories_rows(t, cs), categories_sources(t, cs)),
    decreases cs.len(),
{
    if cs.len() > 0 {
        lemma_categories_show(t, cs.drop_last());
        lemma_products_show(t, cs.last().name@, cs.last().products@);
        lemma_show_prices_append(
            categories_rows(t, cs.drop_last()),
            categories_sources(t, cs.drop_last()),
            products_rows(t, cs.last().name@, cs.last().products@),
            products_sources(t, cs.last().name@, cs.last().products@),
        );
    }
}

/// The pricing rows are the tree's price elements, one row per element in
/// document order, and each row carries the attributes of its own element:
/// its YourPrice is that element's YourPrice (never its regular or list
/// price), and likewise its Price, RegularPrice, CouponPrice, Currency and
/// term, under the names of the type, category and product it sits in.
pub proof fn pricing_rows_show_their_prices(ts: Seq<ProductType>)
    ensures
        types_rows(ts).len() == types_sources(ts).len(),
        forall|i: int|
            0 <= i < types_rows(ts).len() ==> shows_price(
                #[trigger] types_rows(ts)[i],
                types_sources(ts)[i],
            ),
    decreases ts.len(),
{
    if ts.len() > 0 {
        pricing_rows_show_their_prices(ts.drop_last());
        lemma_categories_show(ts.last().name@, ts.last().categories@);
        lemma_show_prices_append(
            types_rows(ts.drop_last()),
            types_sources(ts.drop_last()),
            categories_rows(ts.last().name@, ts.last().categories@),
            categories_sources(ts.last().name@, ts.last().categories@),
        );
    }
}

fn push_product_rows(out: &mut Vec<PriceRow>, t: &String, c: &String, p: &Product)
    ensures
        rows_view(final(out)@) == rows_view(old(out)@) + product_rows(t@, c@, *p),
{
    let ghost start = rows_view(out@);
    let mut i: usize = 0;
    while i < p.prices.len()
        invariant
            i <= p.prices@.len(),
            rows_view(out@) == start + product_rows(t@, c@, *p).take(i as int),
        decreases p.prices@.len() - i,
    {
        let price = &p.prices[i];
        let row = PriceRow {
            product_type: t.clone(),
            category: c.clone(),
            product: p.name.clone(),
            duration: price.duration.clone(),
            duration_type: price.duration_type.clone(),
            price: price.price.clone(),
            regular_price: price.regular_price.clone(),
            your_price: price.your_price.clone(),
            coupon_price: price.coupon_price.clone(),
            currency: price.currency.clone(),
        };
        let ghost before = out@;
        out.push(row);
        proof {
            assert(rows_view(out@) =~= rows_view(before).push(row_view(row)));
            assert(product_rows(t@, c@, *p).take(i + 1) =~= product_rows(t@, c@, *p).take(
                i as int,
            ).push(row_view(row)));
        }
        i = i + 1;
    }
    assert(product_rows(t@, c@, *p).take(p.prices@.len() as int) =~= product_rows(t@, c@, *p));
}

fn push_category_rows(out: &mut Vec<PriceRow>, t: &String, c: &ProductCategory)
    ensures
        rows_view(final(out)@) == rows_view(old(out)@) + products_rows(t@, c.name@, c.products@),
{
    let ghost start = rows_view(out@);
    let mut i: usize = 0;
    assert(c.products@.take(0) =~= Seq::<Product>::empty());
    assert(start + products_rows(t@, c.name@, c.products@.take(0)) =~= start);
    while i < c.products.len()
        invariant
            i <= c.products@.len(),
            rows_view(out@) == start + products_rows(t@, c.name@, c.products@.take(i as int)),
        decreases c.products@.len() - i,
    {
        push_product_rows(out, t, &c.name, &c.products[i]);
        proof {
            let s = c.products@.take(i + 1);
            assert(s.drop_last() =~= c.products@.take(i as int));
        }
        i = i + 1;
    }
    assert(c.products@.take(c.products@.len() as int) =~= c.products@);
}

fn push_type_rows(out: &mut Vec<PriceRow>, t: &ProductType)
    ensures
        rows_view(final(out)@) == rows_view(old(out)@) + categories_rows(t.name@, t.categories@),
{
    let ghost start = rows_view(out@);
    let mut i: usize = 0;
    assert(t.categories@.take(0) =~= Seq::<ProductCategory>::empty());
    assert(start + categories_rows(t.name@, t.categories@.take(0)) =~= start);
    while i < t.categories.len()
        invariant
            i <= t.categories@.len(),
            rows_view(out@) == start + categories_rows(t.name@, t.categories@.take(i as int)),
        decreases t.categories@.len() - i,
    {
        push_category_rows(out, &t.name, &t.categories[i]);
        proof {
            let s = t.categories@.take(i + 1);
            assert(s.drop_last() =~= t.categories@.take(i as int));
        }
        i = i + 1;
    }
    assert(t.categories@.take(t.categories@.len() as int) =~= t.categories@);
}

/// The pricing tree as agent-friendly rows, in document order.
pub fn pricing(resp: &GetPricingResponse) -> (r: Vec<PriceRow>)
    ensures
        rows_view(r@) == types_rows(resp.types@),
        r@.len() == types_sources(resp.types@).len(),
        forall|i: int|
            0 <= i < r@.len() ==> shows_price(
                row_view(#[trigger] r@[i]),
                types_sources(resp.types@)[i],
            ),
{
    proof {
        pricing_rows_show_their_prices(resp.types@);
    }
    let mut out: Vec<PriceRow> = Vec::new();
    let mut i: usize = 0;
    assert(resp.types@.take(0) =~= Seq::<ProductType>::empty());
    assert(rows_view(out@) =~= types_rows(resp.types@.take(0)));
    while i < resp.types.len()
        invariant
            i <= resp.types@.len(),
            rows_view(out@) == types_rows(resp.types@.take(i as int)),
        decreases resp.types@.len() - i,
    {
        push_type_rows(&mut out, &resp.types[i]);
        proof {
            let s = resp.types@.take(i + 1);
            assert(s.drop_last() =~= resp.types@.take(i as int));
        }
        i = i + 1;
    }
    assert(resp.types@.take(resp.types@.len() as int) =~= resp.types@);
    assert forall|i: int| 0 <= i < out@.len() implies shows_price(
        row_view(#[trigger] out@[i]),
        types_sources(resp.types@)[i],
    ) by {
        assert(rows_view(out@)[i] == row_view(out@[i]));
    }
    out
}

pub struct PricingQuery {
    pub product_type: String,
    pub category: Option<String>,
    pub action: Option<String>,
    pub product: Option<String>,
}

pub open spec fn opt_pair(key: Seq<char>, v: Option<String>) -> Seq<(Seq<char>, Seq<char>)> {
    match v {
        Some(s) => seq![(key, s@)],
        None => seq![],
    }
}

/// The `users.getPricing` parameters: the product type, then each filter
/// that is set.
pub open spec fn pricing_form(q: PricingQuery) -> Seq<(Seq<char>, Seq<char>)> {
    seq![("ProductType"@, q.product_type@)] + opt_pair("ProductCategory"@, q.category) + opt_pair(
        "ActionName"@,
        q.action,
    ) + opt_pair("ProductName"@, q.product)
}

fn push_opt(out: &mut Vec<(String, String)>, key: &str, v: &Option<String>)
    ensures
        form_view(final(out)@) == form_view(old(out)@) + opt_pair(key@, *v),
{
    let ghost before = out@;
    match v {
        Some(s) => {
            out.push((owned(key), s.clone()));
        },
        None => {},
    }
    assert(form_view(out@) =~= form_view(before) + opt_pair(key@, *v));
}

pub fn pricing_params(q: &PricingQuery) -> (r: Vec<(String, String)>)
    ensures
        form_view(r@) == pricing_form(*q),
{
    let mut out: Vec<(String, String)> = Vec::new();
    out.push((owned("ProductType"), q.product_type.clone()));
    assert(form_view(out@) =~= seq![("ProductType"@, q.product_type@)]);
    push_opt(&mut out, "ProductCategory", &q.category);
    push_opt(&mut out, "ActionName", &q.action);
    push_opt(&mut out, "ProductName", &q.product);
    out
}

pub open spec fn opt_text(v: Option<String>) -> Seq<char> {
    match v {
        Some(s) => s@,
        None => seq![],
    }
}

pub open spec fn bool_text(b: bool) -> Seq<char> {
    if b {
        "true"@
    } else {
        "false"@
    }
}

/// Characters kept in a cache key: ASCII letters and digits, and `-`.
pub open spec fn key_char(c: char) -> bool {
    is_ascii_alphanumeric(c) || c == '-'
}

pub open spec fn keep_key_chars(s: Seq<char>) -> Seq<char>
    decreases s.len(),
{
    if s.len() == 0 {
        seq![]
    } else {
        keep_key_chars(s.drop_last()) + if key_char(s.last()) {
            seq![s.last()]
        } else {
            seq![]
        }
    }
}

/// How long cached prices are served, in milliseconds: a day (the API
/// docs strongly recommend caching `getPricing`).
pub const PRICING_CACHE_TTL_MS: u64 = 86400000;

/// Whether a cache file of this age, in milliseconds, may still be served.
pub fn cache_fresh(age_ms: u64) -> (r: bool)
    ensures
        r == (age_ms <= PRICING_CACHE_TTL_MS),
{
    age_ms <= PRICING_CACHE_TTL_MS
}

/// A profile-name character kept as it is in a cache key: a lowercase
/// ASCII letter other than `x`, or a digit.
pub open spec fn plain_name_char(c: char) -> bool {
    (is_ascii_lower(c) || is_ascii_digit(c)) && c != 'x'
}

/// One profile-name character in a cache key: itself when plain, else `x`,
/// its code point in decimal, and `x` again.
pub open spec fn name_char_key(c: char) -> Seq<char> {
    if plain_name_char(c) {
        seq![c]
    } else {
        seq!['x'] + decimal((c as u32) as nat) + seq!['x']
    }
}

/// A profile name as it appears in a cache key: each character in turn,
/// written with `name_char_key`. Distinct names give distinct keys, and a
/// key holds only lowercase letters and digits.
pub open spec fn name_key(s: Seq<char>) -> Seq<char>
    decreases s.len(),
{
    if s.len() == 0 {
        seq![]
    } else {
        name_char_key(s[0]) + name_key(s.drop_first())
    }
}

/// The query's part of a cache key, before filtering.
pub open spec fn cache_rest(q: PricingQuery) -> Seq<char> {
    "-"@ + q.product_type@ + "-"@ + opt_text(q.category) + "-"@ + opt_text(q.action) + "-"@
        + opt_text(q.product)
}

/// The cache file for a pricing query: keyed by the exact profile name
/// and the sandbox flag, then by the query, lowercased, with everything
/// but letters, digits and `-` dropped.
pub open spec fn cache_name(q: PricingQuery, p: Profile) -> Seq<char> {
    "pricing-"@ + name_key(p.name@) + "-"@ + bool_text(p.sandbox) + keep_key_chars(
        lower(cache_rest(q)),
    ) + ".json"@
}

/// Filtering and lowercasing a string leaves only lowercase key characters.
proof fn lemma_keep_lower_chars(s: Seq<char>)
    ensures
        forall|i: int|
            0 <= i < keep_key_chars(lower(s)).len() ==> key_char(
                #[trigger] keep_key_chars(lower(s))[i],
            ) && !is_ascii_upper(keep_key_chars(lower(s))[i]),
    decreases s.len(),
{
    if s.len() > 0 {
        lemma_keep_lower_chars(s.drop_last());
        let ls = lower(s);
        assert(ls.drop_last() =~= lower(s.drop_last()));
        let c = ls.last();
        assert(c == crate::text::lower_char(s.last()));
        let prev = keep_key_chars(lower(s.drop_last()));
        let t: Seq<char> = if key_char(c) {
            seq![c]
        } else {
            seq![]
        };
        assert(keep_key_chars(ls) == prev + t);
        assert forall|i: int| 0 <= i < (prev + t).len() implies key_char(#[trigger] (prev + t)[i])
            && !is_ascii_upper((prev + t)[i]) by {
            if i < prev.len() {
                assert((prev + t)[i] == prev[i]);
            } else {
                assert((prev + t)[i] == c);
            }
        }
    }
}

proof fn lemma_decimal_value(n: nat)
    ensures
        digits_value(decimal(n)) == n,
    decreases n,
{
    let d = n % 10;
    assert(crate::text::digit_char(d) as u32 == d + 48) by {
        assert(d < 10);
    }
    if n >= 10 {
        lemma_decimal_value(n / 10);
        let s = decimal(n);
        assert(s == decimal(n / 10).push(crate::text::digit_char(d)));
        assert(s.drop_last() =~= decimal(n / 10));
        assert(s.last() == crate::text::digit_char(d));
        assert(s.len() > 0);
        assert(digits_value(s) == digits_value(s.drop_last()) * 10 + ((s.last() as u32) - 48) as nat);
        assert(digits_value(s) == (n / 10) * 10 + d);
        assert(n == (n / 10) * 10 + d);
    } else {
        assert(d == n);
        let s = decimal(n);
        assert(s == seq![crate::text::digit_char(n)]);
        assert(s.drop_last() =~= Seq::<char>::empty());
        assert(digits_value(Seq::<char>::empty()) == 0);
        assert(s.last() == crate::text::digit_char(d));
        assert(digits_value(s) == digits_value(s.drop_last()) * 10 + ((s.last() as u32) - 48) as nat);
    }
}

proof fn lemma_name_key_push(s: Seq<char>, c: char)
    ensures
        name_key(s.push(c)) == name_key(s) + name_char_key(c),
    decreases s.len(),
{
    if s.len() == 0 {
        assert(s.push(c).drop_first() =~= Seq::<char>::empty());
        assert(name_key(s.push(c)) =~= name_char_key(c) + name_key(Seq::<char>::empty()));
        assert(name_key(s) + name_char_key(c) =~= name_char_key(c));
    } else {
        assert(s.push(c).drop_first() =~= s.drop_first().push(c));
        lemma_name_key_push(s.drop_first(), c);
        assert(name_char_key(s[0]) + (name_key(s.drop_first()) + name_char_key(c))
            =~= name_char_key(s[0]) + name_key(s.drop_first()) + name_char_key(c));
    }
}

/// Every character of a name key is a lowercase letter or a digit.
proof fn lemma_name_key_chars(s: Seq<char>)
    ensures
        forall|i: int|
            0 <= i < name_key(s).len() ==> (is_ascii_lower(#[trigger] name_key(s)[i])
                || is_ascii_digit(name_key(s)[i])),
    decreases s.len(),
{
    if s.len() > 0 {
        lemma_name_key_chars(s.drop_first());
        let e = name_char_key(s[0]);
        let rest = name_key(s.drop_first());
        lemma_decimal_digits((s[0] as u32) as nat);
        assert forall|i: int| 0 <= i < (e + rest).len() implies (is_ascii_lower(
            #[trigger] (e + rest)[i],
        ) || is_ascii_digit((e + rest)[i])) by {
            if i < e.len() {
                assert((e + rest)[i] == e[i]);
                if !plain_name_char(s[0]) && 0 < i < e.len() - 1 {
                    let d = decimal((s[0] as u32) as nat);
                    assert(e[i] == d[i - 1]);
                }
            } else {
                assert((e + rest)[i] == rest[i - e.len()]);
            }
        }
    }
}

/// Distinct profile names have distinct keys.
proof fn lemma_name_key_injective(a: Seq<char>, b: Seq<char>)
    requires
        name_key(a) == name_key(b),
    ensures
        a == b,
    decreases a.len() + b.len(),
{
    if a.len() == 0 || b.len() == 0 {
        if a.len() > 0 {
            assert(name_key(a).len() >= name_char_key(a[0]).len());
        }
        if b.len() > 0 {
            assert(name_key(b).len() >= name_char_key(b[0]).len());
        }
        assert(a =~= b);
    } else {
        let ka = name_key(a);
        let ea = name_char_key(a[0]);
        let eb = name_char_key(b[0]);
        let ra = name_key(a.drop_first());
        let rb = name_key(b.drop_first());
        assert(ka == ea + ra);
        assert(ka == eb + rb);
        assert(ka[0] == ea[0]);
        assert(ka[0] == eb[0]);
        if plain_name_char(a[0]) != plain_name_char(b[0]) {
            assert(false);
        } else if plain_name_char(a[0]) {
            assert(a[0] == b[0]);
        } else {
            let da = decimal((a[0] as u32) as nat);
            let db = decimal((b[0] as u32) as nat);
            lemma_decimal_digits((a[0] as u32) as nat);
            lemma_decimal_digits((b[0] as u32) as nat);
            assert(ka[1 + da.len() as int] == 'x');
            assert(ka[1 + db.len() as int] == 'x');
            if da.len() < db.len() {
                assert(ka[1 + da.len() as int] == eb[1 + da.len() as int]);
                assert(eb[1 + da.len() as int] == db[da.len() as int]);
                assert(false);
            }
            if db.len() < da.len() {
                assert(ka[1 + db.len() as int] == ea[1 + db.len() as int]);
                assert(ea[1 + db.len() as int] == da[db.len() as int]);
                assert(false);
            }
            assert(da =~= ka.subrange(1, 1 + da.len() as int));
            assert(db =~= ka.subrange(1, 1 + db.len() as int));
            assert(da == db);
            lemma_decimal_value((a[0] as u32) as nat);
            lemma_decimal_value((b[0] as u32) as nat);
            assert((a[0] as u32) == (b[0] as u32));
            vstd::utf8::char_u32_cast(a[0], a[0] as u32);
            vstd::utf8::char_u32_cast(b[0], b[0] as u32);
            assert(a[0] == b[0]);
        }
        assert(ra =~= ka.skip(ea.len() as int));
        assert(rb =~= ka.skip(eb.len() as int));
        lemma_name_key_injective(a.drop_first(), b.drop_first());
        assert(a =~= seq![a[0]] + a.drop_first());
        assert(b =~= seq![b[0]] + b.drop_first());
    }
}

/// One profile's cached prices are never served to another: for the same
/// query, two profiles share a cache file exactly when they have the same
/// name and the same sandbox flag. Every cache file name is lowercase
/// letters, digits and `-`, followed by `.json`.
pub proof fn cache_names_separate_profiles(q: PricingQuery, p1: Profile, p2: Profile)
    ensures
        (cache_name(q, p1) == cache_name(q, p2)) <==> (p1.name@ == p2.name@ && p1.sandbox
            == p2.sandbox),
        cache_name(q, p1).len() >= 5,
        cache_name(q, p1).skip(cache_name(q, p1).len() - 5) == ".json"@,
        forall|i: int|
            0 <= i < cache_name(q, p1).len() - 5 ==> key_char(#[trigger] cache_name(q, p1)[i])
                && !is_ascii_upper(cache_name(q, p1)[i]),
{
    reveal_strlit("pricing-");
    reveal_strlit("-");
    reveal_strlit("true");
    reveal_strlit("false");
    reveal_strlit(".json");
    let x = "pricing-"@;
    let a1 = name_key(p1.name@);
    let a2 = name_key(p2.name@);
    let b1 = bool_text(p1.sandbox);
    let b2 = bool_text(p2.sandbox);
    let k = keep_key_chars(lower(cache_rest(q)));
    let s1 = a1 + "-"@ + b1;
    let s2 = a2 + "-"@ + b2;
    let f1 = cache_name(q, p1);
    let f2 = cache_name(q, p2);
    assert(f1 =~= x + s1 + (k + ".json"@));
    assert(f2 =~= x + s2 + (k + ".json"@));
    lemma_name_key_chars(p1.name@);
    lemma_name_key_chars(p2.name@);
    if f1 == f2 {
        assert(s1.len() == s2.len());
        assert(s1 =~= f1.subrange(8, 8 + s1.len() as int));
        assert(s2 =~= f2.subrange(8, 8 + s2.len() as int));
        assert(s1 == s2);
        if a1.len() < a2.len() {
            assert(s1[a1.len() as int] == '-');
            assert(s2[a1.len() as int] == a2[a1.len() as int]);
            assert(false);
        }
        if a2.len() < a1.len() {
            assert(s2[a2.len() as int] == '-');
            assert(s1[a2.len() as int] == a1[a2.len() as int]);
            assert(false);
        }
        assert(a1 =~= s1.take(a1.len() as int));
        assert(a2 =~= s2.take(a2.len() as int));
        lemma_name_key_injective(p1.name@, p2.name@);
        assert(b1 =~= s1.skip(a1.len() as int + 1));
        assert(b2 =~= s2.skip(a2.len() as int + 1));
    }
    lemma_keep_lower_chars(cache_rest(q));
    assert(f1.skip(f1.len() - 5) =~= ".json"@);
    assert forall|i: int| 0 <= i < f1.len() - 5 implies key_char(#[trigger] f1[i]) && !is_ascii_upper(
        f1[i],
    ) by {
        let pre = x + s1;
        if i < x.len() {
            assert(f1[i] == x[i]);
        } else if i < x.len() + a1.len() {
            assert(f1[i] == a1[i - x.len()]);
        } else if i < x.len() + a1.len() + 1 {
            assert(f1[i] == '-');
        } else if i < pre.len() {
            assert(f1[i] == b1[i - x.len() - a1.len() - 1]);
        } else {
            assert(f1[i] == k[i - pre.len()]);
        }
    }
}

/// A profile name's cache key.
fn name_key_string(name: &str) -> (r: String)
    ensures
        r@ == name_key(name@),
{
    let v = chars_of(name);
    let mut r = String::new();
    let mut i: usize = 0;
    while i < v.len()
        invariant
            i <= v@.len(),
            r@ == name_key(v@.take(i as int)),
        decreases v@.len() - i,
    {
        let c = v[i];
        proof {
            lemma_name_key_push(v@.take(i as int), c);
            assert(v@.take(i + 1) =~= v@.take(i as int).push(c));
        }
        if (('a' <= c && c <= 'z') || ('0' <= c && c <= '9')) && c != 'x' {
            r.push(c);
            assert(r@ =~= name_key(v@.take(i as int)) + name_char_key(c));
        } else {
            let ghost before = r@;
            r.push('x');
            r.push_str(decimal_string((c as u32) as u128).as_str());
            r.push('x');
            assert(r@ =~= before + name_char_key(c));
        }
        i = i + 1;
    }
    assert(v@.take(v@.len() as int) =~= v@);
    r
}

fn push_opt_text(s: &mut String, v: &Option<String>)
    ensures
        final(s)@ == old(s)@ + opt_text(*v),
{
    match v {
        Some(t) => s.push_str(t.as_str()),
        None => {},
    }
}

impl PricingQuery {
    /// The cache file name of this query for `profile`.
    #[verifier::rlimit(40)]
    pub fn cache_file_name(&self, profile: &Profile) -> (r: String)
        ensures
            r@ == cache_name(*self, *profile),
    {
        let mut head = concat2("pricing-", name_key_string(profile.name.as_str()).as_str());
        head.push_str("-");
        head.push_str(if profile.sandbox { "true" } else { "false" });
        let mut raw = owned("-");
        raw.push_str(self.product_type.as_str());
        raw.push_str("-");
        push_opt_text(&mut raw, &self.category);
        raw.push_str("-");
        push_opt_text(&mut raw, &self.action);
        raw.push_str("-");
        push_opt_text(&mut raw, &self.product);
        proof {
            reveal_strlit("true");
            reveal_strlit("false");
        }
        assert(raw@ =~= cache_rest(*self));
        let lowered = ascii_lowercase(raw.as_str());
        let v = chars_of(lowered.as_str());
        let mut kept: Vec<char> = Vec::new();
        let mut i: usize = 0;
        while i < v.len()
            invariant
                i <= v@.len(),
                kept@ == keep_key_chars(v@.take(i as int)),
            decreases v@.len() - i,
        {
            let c = v[i];
            if ('a' <= c && c <= 'z') || ('A' <= c && c <= 'Z') || ('0' <= c && c <= '9') || c
                == '-' {
                kept.push(c);
            }
            proof {
                assert(v@.take(i + 1).drop_last() =~= v@.take(i as int));
            }
            i = i + 1;
        }
        assert(v@.take(v@.len() as int) =~= v@);
        let mut r = head;
        r.push_str(string_of(kept.as_slice()).as_str());
        r.push_str(".json");
        r
    }
}

/// The row a purchase guard prices against: the first with this many
/// years, and with category and product matching the action and TLD in
/// any case.
pub open spec fn guard_row(r: RowView, tld: Seq<char>, action: Seq<char>, years: u8) -> bool {
    &&& r.duration == decimal(years as nat)
    &&& eq_ignore_case(r.duration_type, "YEAR"@)
    &&& eq_ignore_case(r.category, action)
    &&& eq_ignore_case(r.product, tld)
}

/// A purchase is priced only against a row of its own kind: a guard row
/// is a price for the requested action (register, renew, transfer) on the
/// requested TLD, in years, for the requested number of years, each name
/// compared in any ASCII case. A row of another action, TLD or term is
/// never a guard row.
pub proof fn guard_row_prices_the_requested_purchase(
    r: RowView,
    tld: Seq<char>,
    action: Seq<char>,
    years: u8,
)
    ensures
        guard_row(r, tld, action, years) <==> {
            &&& lower(r.category) == lower(action)
            &&& lower(r.product) == lower(tld)
            &&& lower(r.duration_type) == lower("YEAR"@)
            &&& r.duration == decimal(years as nat)
        },
{
}

pub open spec fn no_price_message(tld: Seq<char>, action: Seq<char>, years: u8) -> Seq<char> {
    "no "@ + action + " pricing found for ."@ + tld + " at "@ + decimal(years as nat)
        + " year(s); cannot price-guard the purchase"@
}

/// The index of the row a purchase is priced against.
pub fn live_price_row(rows: &Vec<PriceRow>, tld: &str, action: &str, years: u8) -> (r: Result<
    usize,
    Error,
>)
    ensures
        match r {
            Ok(i) => i < rows@.len() && guard_row(row_view(rows@[i as int]), tld@, action@, years)
                && forall|j: int|
                0 <= j < i ==> !guard_row(#[trigger] row_view(rows@[j]), tld@, action@, years),
            Err(e) => (forall|j: int|
                0 <= j < rows@.len() ==> !guard_row(#[trigger] row_view(rows@[j]), tld@, action@, years))
                && (e matches Error::Usage(m) && m@ == no_price_message(tld@, action@, years)),
        },
        r matches Ok(i) ==> {
            &&& lower(rows@[i as int].category@) == lower(action@)
            &&& lower(rows@[i as int].product@) == lower(tld@)
            &&& lower(rows@[i as int].duration_type@) == lower("YEAR"@)
            &&& rows@[i as int].duration@ == decimal(years as nat)
        },
{
    let want = decimal_string(years as u128);
    let mut i: usize = 0;
    proof {
        assert forall|j: int| 0 <= j < rows@.len() implies #[trigger] guard_row(
            row_view(rows@[j]),
            tld@,
            action@,
            years,
        ) ==> lower(rows@[j].category@) == lower(action@) && lower(rows@[j].product@) == lower(tld@)
            && lower(rows@[j].duration_type@) == lower("YEAR"@) && rows@[j].duration@ == decimal(
            years as nat,
        ) by {
            guard_row_prices_the_requested_purchase(row_view(rows@[j]), tld@, action@, years);
        }
    }
    while i < rows.len()
        invariant
            i <= rows@.len(),
            want@ == decimal(years as nat),
            forall|j: int| 0 <= j < i ==> !guard_row(#[trigger] row_view(rows@[j]), tld@, action@, years),
        decreases rows@.len() - i,
    {
        let row = &rows[i];
        if str_eq(row.duration.as_str(), want.as_str()) && eq_ignore_ascii_case(
            row.duration_type.as_str(),
            "YEAR",
        ) && eq_ignore_ascii_case(row.category.as_str(), action) && eq_ignore_ascii_case(
            row.product.as_str(),
            tld,
        ) {
            return Ok(i);
        }
        i = i + 1;
    }
    let mut m = concat3("no ", action, " pricing found for .");
    m.push_str(tld);
    m.push_str(" at ");
    m.push_str(want.as_str());
    m.push_str(" year(s); cannot price-guard the purchase");
    Err(Error::Usage(m))
}

// ---------------------------------------------------------------------------
// Human-readable output
// ---------------------------------------------------------------------------

/// The balance summary; amounts only with `full`. `covers` is whether the
/// available balance covers the auto-renew requirement, when both amounts
/// could be read.
pub open spec fn balance_lines(b: Balances, full: bool, covers: Option<bool>) -> Seq<Seq<char>> {
    seq![
        "currency: "@ + b.currency@,
        "funds_required_for_auto_renew: "@ + b.funds_required_for_auto_renew@,
        "available_covers_auto_renew: "@ + match covers {
            Some(true) => "yes"@,
            Some(false) => "no"@,
            None => "unknown"@,
        },
    ] + if full {
        seq![
            "available_balance: "@ + b.available_balance@,
            "account_balance: "@ + b.account_balance@,
            "earned_amount: "@ + b.earned_amount@,
            "withdrawable_amount: "@ + b.withdrawable_amount@,
        ]
    } else {
        seq!["(amounts redacted; pass --full to show them)"@]
    }
}

/// The balance summary as a person reads it.
pub fn render(b: &Balances, full: bool, covers: Option<bool>) -> (text: String)
    ensures
        text@ == plain_lines(balance_lines(*b, full, covers)),
{
    let mut lines: Vec<String> = Vec::new();
    add_line(&mut lines, concat2("currency: ", b.currency.as_str()));
    add_line(
        &mut lines,
        concat2("funds_required_for_auto_renew: ", b.funds_required_for_auto_renew.as_str()),
    );
    add_line(
        &mut lines,
        concat2(
            "available_covers_auto_renew: ",
            match covers {
                Some(true) => "yes",
                Some(false) => "no",
                None => "unknown",
            },
        ),
    );
    if full {
        add_line(&mut lines, concat2("available_balance: ", b.available_balance.as_str()));
        add_line(&mut lines, concat2("account_balance: ", b.account_balance.as_str()));
        add_line(&mut lines, concat2("earned_amount: ", b.earned_amount.as_str()));
        add_line(&mut lines, concat2("withdrawable_amount: ", b.withdrawable_amount.as_str()));
    } else {
        add_line(&mut lines, owned("(amounts redacted; pass --full to show them)"));
    }
    assert(views(lines@) =~= balance_lines(*b, full, covers));
    lines_text(&lines)
}

pub open spec fn pricing_row_line(
    t: Seq<char>,
    c: Seq<char>,
    p: Seq<char>,
    d: Seq<char>,
    price: Seq<char>,
    yours: Seq<char>,
    currency: Seq<char>,
) -> Seq<char> {
    pad_right(t, 14) + " "@ + pad_right(c, 12) + " "@ + pad_right(p, 12) + " "@ + pad_right(d, 5)
        + " "@ + pad_right(price, 10) + " "@ + pad_right(yours, 10) + " "@ + currency
}

pub open spec fn pricing_table(rows: Seq<PriceRow>) -> Seq<Seq<char>> {
    seq![pricing_row_line("TYPE"@, "CATEGORY"@, "PRODUCT"@, "DUR"@, "PRICE"@, "YOURS"@, "CURRENCY"@)]
        + rows.map_values(
        |r: PriceRow|
            pricing_row_line(
                r.product_type@,
                r.category@,
                r.product@,
                r.duration@,
                r.price@,
                r.your_price@,
                r.currency@,
            ),
    )
}

fn pricing_row_text(
    t: &str,
    c: &str,
    p: &str,
    d: &str,
    price: &str,
    yours: &str,
    currency: &str,
) -> (r: String)
    ensures
        r@ == pricing_row_line(t@, c@, p@, d@, price@, yours@, currency@),
{
    let mut r = pad_right_string(t, 14);
    r.push_str(" ");
    r.push_str(pad_right_string(c, 12).as_str());
    r.push_str(" ");
    r.push_str(pad_right_string(p, 12).as_str());
    r.push_str(" ");
    r.push_str(pad_right_string(d, 5).as_str());
    r.push_str(" ");
    r.push_str(pad_right_string(price, 10).as_str());
    r.push_str(" ");
    r.push_str(pad_right_string(yours, 10).as_str());
    r.push_str(" ");
    r.push_str(currency);
    assert(r@ =~= pricing_row_line(t@, c@, p@, d@, price@, yours@, currency@));
    r
}

/// Pricing rows as a table.
pub fn render_pricing(rows: &[PriceRow]) -> (text: String)
    ensures
        text@ == plain_lines(pricing_table(rows@)),
{
    let mut lines: Vec<String> = Vec::new();
    add_line(
        &mut lines,
        pricing_row_text("TYPE", "CATEGORY", "PRODUCT", "DUR", "PRICE", "YOURS", "CURRENCY"),
    );
    let ghost head = views(lines@);
    let mut i: usize = 0;
    while i < rows.len()
        invariant
            i <= rows@.len(),
            head.len() == 1,
            views(lines@) == head + pricing_table(rows@).skip(1).take(i as int),
            pricing_table(rows@).take(1) == head,
        decreases rows@.len() - i,
    {
        let r = &rows[i];
        let l = pricing_row_text(
            r.product_type.as_str(),
            r.category.as_str(),
            r.product.as_str(),
            r.duration.as_str(),
            r.price.as_str(),
            r.your_price.as_str(),
            r.currency.as_str(),
        );
        let ghost before = views(lines@);
        add_line(&mut lines, l);
        proof {
            let body = pricing_table(rows@).skip(1);
            assert(body[i as int] == l@);
            assert(body.take(i + 1) =~= body.take(i as int).push(l@));
        }
        i = i + 1;
    }
    assert(views(lines@) =~= pricing_table(rows@));
    lines_text(&lines)
}

} // verus!
