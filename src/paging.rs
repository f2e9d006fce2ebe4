use crate::calendar::{
    date_of_ce_day, date_text, push_date, CivilDate, CE_DAY_OF_EPOCH, MAX_EPOCH_DAY, MILLIS_PER_DAY,
};
use vstd::prelude::*;
use vstd::string::*;

verus! {

/// How many fetched items may wait for the aggregator before fetches pause.
pub const QUEUE_CAPACITY: usize = 200;

/// A handle on one listed item; the store may leave out its identifier.
#[derive(Debug, Clone, PartialEq, Eq)]
pub struct ItemRef {
    pub id: Option<String>,
}

/// One page of a listing and the token that continues it, if any.
#[derive(Debug, Clone, PartialEq, Eq)]
pub struct Page {
    pub items: Vec<ItemRef>,
    pub next_token: Option<String>,
}

/// The identifiers that the items carry, in order.
pub open spec fn present_ids(s: Seq<ItemRef>) -> Seq<String>
    decreases s.len(),
{
    if s.len() == 0 {
        Seq::empty()
    } else {
        present_ids(s.drop_last()) + match s.last().id {
            Some(id) => seq![id],
            None => Seq::empty(),
        }
    }
}

/// Where a listing stands: the token for the next request, whether a page
/// has come, whether the listing is over, and whether any item was listed.
pub struct ListerModel {
    pub token: Option<String>,
    pub started: bool,
    pub finished: bool,
    pub saw_items: bool,
}

pub open spec fn fresh_listing() -> ListerModel {
    ListerModel { token: None, started: false, finished: false, saw_items: false }
}

/// One page received. An empty first page ends the listing with nothing
/// listed, whatever token it carries; otherwise the page's token is the next
/// request's, and its absence ends the listing.
pub open spec fn step(s: ListerModel, page: Page) -> ListerModel {
    if !s.started && page.items@.len() == 0 {
        ListerModel { token: None, started: true, finished: true, saw_items: false }
    } else {
        ListerModel {
            token: page.next_token,
            started: true,
            finished: page.next_token is None,
            saw_items: s.saw_items || page.items@.len() > 0,
        }
    }
}

/// The state after the pages, in order; pages after the end are not requested.
pub open spec fn walk(s: ListerModel, pages: Seq<Page>) -> ListerModel
    decreases pages.len(),
{
    if pages.len() == 0 {
        s
    } else {
        let before = walk(s, pages.drop_last());
        if before.finished {
            before
        } else {
            step(before, pages.last())
        }
    }
}

/// What to do with a page: fetch these items, then request the next page or not.
pub struct PageAction {
    pub ids: Vec<String>,
    pub more: bool,
}

/// The walk over the pages of one listing.
pub struct Lister {
    token: Option<String>,
    started: bool,
    finished: bool,
    saw_items: bool,
}

impl View for Lister {
    type V = ListerModel;

    closed spec fn view(&self) -> ListerModel {
        ListerModel {
            token: self.token,
            started: self.started,
            finished: self.finished,
            saw_items: self.saw_items,
        }
    }
}

impl Lister {
    pub fn new() -> (r: Lister)
        ensures
            r@ == fresh_listing(),
    {
        Lister { token: None, started: false, finished: false, saw_items: false }
    }

    pub fn is_finished(&self) -> (r: bool)
        ensures
            r == self@.finished,
    {
        self.finished
    }

    /// Whether any page listed an item.
    pub fn saw_items(&self) -> (r: bool)
        ensures
            r == self@.saw_items,
    {
        self.saw_items
    }

    /// The continuation token that the next request carries.
    pub fn next_token(&self) -> (r: Option<String>)
        ensures
            r == self@.token,
    {
        match &self.token {
            Some(t) => Some(t.clone()),
            None => None,
        }
    }

    /// Takes in the page that the last request returned.
    pub fn on_page(&mut self, page: Page) -> (r: PageAction)
        requires
            !old(self)@.finished,
        ensures
            final(self)@ == step(old(self)@, page),
            r.more == !final(self)@.finished,
            r.ids@ == if !old(self)@.started && page.items@.len() == 0 {
                Seq::empty()
            } else {
                present_ids(page.items@)
            },
    {
        if !self.started && page.items.len() == 0 {
            self.token = None;
            self.started = true;
            self.finished = true;
            self.saw_items = false;
            proof {
                reveal_with_fuel(present_ids, 1);
            }
            return PageAction { ids: Vec::new(), more: false };
        }
        let ids = collect_ids(&page.items);
        self.saw_items = self.saw_items || page.items.len() > 0;
        self.started = true;
        self.finished = page.next_token.is_none();
        self.token = page.next_token;
        PageAction { ids, more: !self.finished }
    }
}

/// The identifiers of the items that carry one, in order.
pub fn collect_ids(items: &Vec<ItemRef>) -> (r: Vec<String>)
    ensures
        r@ == present_ids(items@),
{
    let mut ids: Vec<String> = Vec::new();
    let mut i: usize = 0;
    while i < items.len()
        invariant
            i <= items.len(),
            ids@ == present_ids(items@.take(i as int)),
        decreases items.len() - i,
    {
        proof {
            assert(items@.take(i + 1).drop_last() =~= items@.take(i as int));
        }
        match &items[i].id {
            Some(id) => {
                ids.push(id.clone());
            },
            None => {},
        }
        i += 1;
        proof {
            assert(ids@ =~= present_ids(items@.take(i as int)));
        }
    }
    assert(items@.take(i as int) =~= items@);
    ids
}

/// Pages are visited in the order their tokens chain them: after pages
/// `0..=k` of a listing whose first page lists something and whose earlier
/// pages each carried a token, the next request carries page `k`'s token,
/// and the listing has ended exactly when page `k` carried none.
pub proof fn lemma_walk_follows_tokens(pages: Seq<Page>, k: int)
    requires
        0 <= k < pages.len(),
        pages[0].items@.len() > 0,
        forall|j: int| 0 <= j < k ==> (#[trigger] pages[j]).next_token is Some,
    ensures
        walk(fresh_listing(), pages.take(k + 1)).token == pages[k].next_token,
        walk(fresh_listing(), pages.take(k + 1)).finished == (pages[k].next_token is None),
        walk(fresh_listing(), pages.take(k + 1)).saw_items,
    decreases k,
{
    assert(pages.take(k + 1).drop_last() =~= pages.take(k));
    assert(pages.take(k + 1).last() == pages[k]);
    if k == 0 {
        assert(pages.take(0) =~= Seq::<Page>::empty());
    } else {
        lemma_walk_follows_tokens(pages, k - 1);
    }
}

/// The query text: items dated after the cutoff day.
pub fn build_query(cutoff: &CivilDate) -> (r: String)
    ensures
        r@ == "after:"@ + date_text(*cutoff),
{
    let mut q = String::from_str("after:");
    push_date(&mut q, cutoff);
    q
}

/// The category that the listing is restricted to.
pub fn category_label() -> (r: &'static str)
    ensures
        r@ == "SPAM"@,
{
    "SPAM"
}

/// The UTC day `lookback_days` before the instant `now_ms` (epoch milliseconds),
/// where that day lies between 1970-01-01 and 9999-12-31.
pub fn cutoff_date(now_ms: i64, lookback_days: u64) -> (r: Option<CivilDate>)
    ensures
        r is Some <==> (0 <= now_ms && lookback_days <= now_ms / MILLIS_PER_DAY && now_ms / MILLIS_PER_DAY
            - lookback_days <= MAX_EPOCH_DAY),
        r matches Some(d) ==> d.wf() && d.epoch_day() == now_ms / MILLIS_PER_DAY - lookback_days,
{
    if now_ms < 0 {
        return None;
    }
    let today: i64 = now_ms / MILLIS_PER_DAY;
    if lookback_days > today as u64 {
        return None;
    }
    let day: i64 = today - lookback_days as i64;
    if day > MAX_EPOCH_DAY {
        return None;
    }
    Some(date_of_ce_day((day + CE_DAY_OF_EPOCH) as i32))
}

} // verus!
