//! Auto-pagination. The API's default page size silently truncates long
//! listings, so listings are fetched 100 at a time until the server's
//! `TotalItems` is reached; a page that adds nothing, or a listing that
//! runs past 100 pages, is an error rather than a hang.
use vstd::prelude::*;

use crate::api::Error;
use crate::text::{decimal, decimal_string};

verus! {

/// Largest page number a listing may request.
pub const MAX_PAGES: usize = 100;

pub open spec fn stalled_message(total: nat, page: nat) -> Seq<char> {
    "pagination stalled: server reports "@ + decimal(total) + " total items but page "@ + decimal(
        page,
    ) + " added none"@
}

pub open spec fn overflow_message() -> Seq<char> {
    "pagination overflow: 100 pages fetched without completing the listing"@
}

/// How one page ends a step of a listing.
pub enum PageEnd {
    /// The items gathered reach the server's total.
    Complete,
    /// Short of the total: request the next page.
    Next,
    /// The page added nothing while the total is not reached.
    Stalled,
    /// Short of the total after the last page allowed.
    Overflow,
}

/// The step a page makes, given the items gathered with it, its own
/// length, its page number and the server's total.
pub open spec fn page_end(count: nat, fetched: nat, page: nat, total: nat) -> PageEnd {
    if count >= total {
        PageEnd::Complete
    } else if fetched == 0 {
        PageEnd::Stalled
    } else if page >= 100 {
        PageEnd::Overflow
    } else {
        PageEnd::Next
    }
}

/// The pages' items, one after another.
pub open spec fn flat<T>(pages: Seq<(Seq<T>, nat)>) -> Seq<T>
    decreases pages.len(),
{
    if pages.len() == 0 {
        seq![]
    } else {
        pages[0].0 + flat(pages.drop_first())
    }
}

/// A listing run over replies (each a page's items and the total it
/// reports), taken in order from `items` gathered so far and page `page`:
/// the items gathered, the page reached, how it ended (`Next` when the
/// replies ran out first), and how many replies it took in.
pub open spec fn run_pages<T>(items: Seq<T>, page: nat, pages: Seq<(Seq<T>, nat)>) -> (
    Seq<T>,
    nat,
    PageEnd,
    nat,
)
    decreases pages.len(),
{
    if pages.len() == 0 {
        (items, page, PageEnd::Next, 0)
    } else {
        let gathered = items + pages[0].0;
        let end = page_end(gathered.len(), pages[0].0.len(), page, pages[0].1);
        if end is Next {
            let r = run_pages(gathered, page + 1, pages.drop_first());
            (r.0, r.1, r.2, r.3 + 1)
        } else {
            (gathered, page, end, 1)
        }
    }
}

proof fn lemma_run_pages<T>(items: Seq<T>, page: nat, pages: Seq<(Seq<T>, nat)>)
    requires
        1 <= page <= 100,
    ensures
        ({
            let r = run_pages(items, page, pages);
            &&& r.3 <= pages.len()
            &&& page + r.3 <= 101
            &&& r.0 == items + flat(pages.take(r.3 as int))
            &&& r.2 is Next ==> r.3 == pages.len() && r.1 == page + r.3 && r.1 <= 100
            &&& !(r.2 is Next) ==> {
                &&& r.3 >= 1
                &&& r.2 == page_end(r.0.len(), pages[r.3 - 1].0.len(), r.1, pages[r.3 - 1].1)
                &&& r.1 == page + r.3 - 1
            }
        }),
    decreases pages.len(),
{
    if pages.len() == 0 {
        assert(pages.take(0) =~= Seq::<(Seq<T>, nat)>::empty());
        assert(items + flat(pages.take(0)) =~= items);
    } else {
        let gathered = items + pages[0].0;
        let end = page_end(gathered.len(), pages[0].0.len(), page, pages[0].1);
        if end is Next {
            let rest = pages.drop_first();
            lemma_run_pages(gathered, page + 1, rest);
            let r = run_pages(gathered, page + 1, rest);
            assert(pages.take((r.3 + 1) as int).drop_first() =~= rest.take(r.3 as int));
            assert(flat(pages.take((r.3 + 1) as int)) == pages[0].0 + flat(rest.take(r.3 as int)));
            assert(items + flat(pages.take((r.3 + 1) as int)) =~= gathered + flat(rest.take(r.3 as int)));
            if !(r.2 is Next) {
                assert(pages[r.3 as int] == rest[r.3 - 1]);
            }
        } else {
            assert(pages.take(1).drop_first() =~= Seq::<(Seq<T>, nat)>::empty());
            assert(flat(pages.take(1)) =~= pages[0].0 + flat(Seq::<(Seq<T>, nat)>::empty()));
            assert(items + flat(pages.take(1)) =~= gathered);
        }
    }
}

/// A whole listing, fetched page by page from a fresh pager, gathers
/// exactly the fetched pages' items in order, and never asks for more
/// than 100 pages. It ends on the first page at which the items gathered
/// reach the total the server reports (complete), or that adds nothing
/// short of it (stalled), or that is the 100th still short of it
/// (overflow). Short of all of these it is still asking for the next page.
pub proof fn whole_listing<T>(pages: Seq<(Seq<T>, nat)>)
    ensures
        ({
            let r = run_pages(Seq::<T>::empty(), 1, pages);
            &&& r.3 <= pages.len()
            &&& r.3 <= 100
            &&& r.0 == flat(pages.take(r.3 as int))
            &&& r.2 is Next ==> r.3 == pages.len() && r.3 < 100
            &&& r.2 is Complete ==> r.3 >= 1 && r.0.len() >= pages[r.3 - 1].1
            &&& r.2 is Stalled ==> r.3 >= 1 && pages[r.3 - 1].0.len() == 0 && r.0.len()
                < pages[r.3 - 1].1
            &&& r.2 is Overflow ==> r.3 == 100 && r.0.len() < pages[r.3 - 1].1
            &&& forall|j: int|
                0 <= j < r.3 - 1 ==> flat(pages.take(j + 1)).len() < #[trigger] pages[j].1
        }),
{
    lemma_run_pages(Seq::<T>::empty(), 1, pages);
    let r = run_pages(Seq::<T>::empty(), 1, pages);
    assert(Seq::<T>::empty() + flat(pages.take(r.3 as int)) =~= flat(pages.take(r.3 as int)));
    lemma_run_short(Seq::<T>::empty(), 1, pages);
}

proof fn lemma_run_short<T>(items: Seq<T>, page: nat, pages: Seq<(Seq<T>, nat)>)
    requires
        1 <= page <= 100,
    ensures
        ({
            let r = run_pages(items, page, pages);
            forall|j: int|
                0 <= j < r.3 - 1 ==> (items + flat(pages.take(j + 1))).len() < #[trigger] pages[j].1
        }),
    decreases pages.len(),
{
    if pages.len() > 0 {
        let gathered = items + pages[0].0;
        let end = page_end(gathered.len(), pages[0].0.len(), page, pages[0].1);
        if end is Next {
            let rest = pages.drop_first();
            lemma_run_short(gathered, page + 1, rest);
            lemma_run_pages(gathered, page + 1, rest);
            let r = run_pages(gathered, page + 1, rest);
            assert forall|j: int| 0 <= j < r.3 implies (items + flat(pages.take(j + 1))).len()
                < #[trigger] pages[j].1 by {
                if j == 0 {
                    assert(pages.take(1).drop_first() =~= Seq::<(Seq<T>, nat)>::empty());
                    assert(flat(pages.take(1)) =~= pages[0].0 + flat(Seq::<(Seq<T>, nat)>::empty()));
                    assert(items + flat(pages.take(1)) =~= gathered);
                } else {
                    assert(pages[j] == rest[j - 1]);
                    assert(pages.take(j + 1).drop_first() =~= rest.take(j));
                    assert(flat(pages.take(j + 1)) == pages[0].0 + flat(rest.take(j)));
                    assert(items + flat(pages.take(j + 1)) =~= gathered + flat(rest.take(j)));
                }
            }
        }
    }
}

/// A listing in progress: the items gathered so far and the next page to
/// request.
pub struct Pager<T> {
    items: Vec<T>,
    page: usize,
}

impl<T> Pager<T> {
    pub closed spec fn items_view(&self) -> Seq<T> {
        self.items@
    }

    pub closed spec fn page_view(&self) -> nat {
        self.page as nat
    }

    /// Pages are numbered from 1 and never pass `MAX_PAGES`.
    pub open spec fn wf(&self) -> bool {
        1 <= self.page_view() <= 100
    }

    pub fn new() -> (p: Self)
        ensures
            p.items_view() == Seq::<T>::empty(),
            p.page_view() == 1,
            p.wf(),
    {
        Pager { items: Vec::new(), page: 1 }
    }

    /// The page number to request next.
    pub fn page(&self) -> (r: usize)
        ensures
            r == self.page_view(),
    {
        self.page
    }

    /// The `Page` parameter for the next request.
    pub fn page_param(&self) -> (r: String)
        ensures
            r@ == decimal(self.page_view()),
    {
        decimal_string(self.page as u128)
    }

    /// Take in one fetched page. `Ok(true)`: the listing is complete;
    /// `Ok(false)`: request the next page.
    pub fn absorb(&mut self, fetched: Vec<T>, total_items: usize) -> (r: Result<bool, Error>)
        requires
            old(self).wf(),
        ensures
            final(self).items_view() == old(self).items_view() + fetched@,
            final(self).wf(),
            match page_end(
                old(self).items_view().len() + fetched@.len(),
                fetched@.len(),
                old(self).page_view(),
                total_items as nat,
            ) {
                PageEnd::Complete => r == Ok::<bool, Error>(true) && final(self).page_view() == old(
                    self,
                ).page_view(),
                PageEnd::Stalled => r matches Err(Error::Parse(m)) && m@ == stalled_message(
                    total_items as nat,
                    old(self).page_view(),
                ),
                PageEnd::Overflow => r matches Err(Error::Parse(m)) && m@ == overflow_message(),
                PageEnd::Next => r == Ok::<bool, Error>(false) && final(self).page_view() == old(
                    self,
                ).page_view() + 1,
            },
    {
        let added = fetched.len();
        let mut fetched = fetched;
        self.items.append(&mut fetched);
        if self.items.len() >= total_items {
            return Ok(true);
        }
        if added == 0 {
            let mut m = decimal_string(total_items as u128);
            let mut msg = String::new();
            msg.push_str("pagination stalled: server reports ");
            msg.push_str(m.as_str());
            msg.push_str(" total items but page ");
            m = decimal_string(self.page as u128);
            msg.push_str(m.as_str());
            msg.push_str(" added none");
            return Err(Error::Parse(msg));
        }
        if self.page >= MAX_PAGES {
            return Err(
                Error::Parse(
                    "pagination overflow: 100 pages fetched without completing the listing".to_string(),
                ),
            );
        }
        self.page = self.page + 1;
        Ok(false)
    }

    /// The gathered items.
    pub fn into_items(self) -> (r: Vec<T>)
        ensures
            r@ == self.items_view(),
    {
        self.items
    }
}

} // verus!
