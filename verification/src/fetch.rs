//! The paginated data-acquisition loop, as a verified state machine.
//!
//! The fetcher starts from a search query, issues one request per page, and
//! folds each reply into its state: a successful page's records are mapped
//! and appended to the cube, a continuation cursor moves the fetcher to the
//! next page, and a missing cursor completes the fetch. A failed request or
//! a malformed body ends the fetch with the records gathered so far — a
//! partial result, not an error. A page cap guards against an endless
//! cursor chain from the untrusted upstream.
//!
//! The surrounding program performs the HTTP requests and the inter-page
//! delay; every decision lives here.

use vstd::prelude::*;
use vstd::string::StringExecFns;

use crate::card::Card;
use crate::card::CardView;
use crate::json::parse_page;
use crate::json::parsed_page;
use crate::json::PageView;

verus! {

/// A record as the cube keeps it: the name always, the rarity only where the
/// query asked to track rarity.
pub open spec fn strip_card(c: CardView, include_rarity: bool) -> CardView {
    CardView { name: c.name, rarity: if include_rarity { c.rarity } else { None } }
}

/// One page's records, mapped by [`strip_card`] in order.
pub open spec fn strip_view(cards: Seq<CardView>, include_rarity: bool) -> Seq<CardView> {
    cards.map_values(|c: CardView| strip_card(c, include_rarity))
}

/// Maps one page's raw records to cube records: names are kept as they came;
/// rarities are kept only where `include_rarity` holds, and dropped wholesale
/// otherwise, whatever the raw records carried.
pub fn process_cards(cards: &Vec<Card>, include_rarity: bool) -> (r: Vec<Card>)
    ensures
        r.deep_view() == strip_view(cards.deep_view(), include_rarity),
        !include_rarity ==> forall|i: int|
            0 <= i < r.deep_view().len() ==> (#[trigger] r.deep_view()[i]).rarity is None,
{
    let mut out: Vec<Card> = Vec::new();
    let n = cards.len();
    for i in 0..n
        invariant
            n == cards.len(),
            out.deep_view().len() == i,
            forall|k: int|
                0 <= k < i ==> out.deep_view()[k] == strip_card(
                    #[trigger] cards.deep_view()[k],
                    include_rarity,
                ),
    {
        let c = &cards[i];
        let rarity = if include_rarity {
            match &c.rarity {
                Some(r) => Some(r.clone()),
                None => None,
            }
        } else {
            None
        };
        out.push(Card { name: c.name.clone(), rarity });
    }
    proof {
        assert(out.deep_view() =~= strip_view(cards.deep_view(), include_rarity));
    }
    out
}

/// Rarity stripping: where rarity tracking is off, every mapped record's
/// rarity is absent, whatever the raw records carried.
pub proof fn lemma_strip_hides_rarity(cards: Seq<CardView>)
    ensures
        forall|i: int|
            0 <= i < cards.len() ==> (#[trigger] strip_view(cards, false)[i]).rarity is None,
{
}

/// A search query: the set codes to cover and whether to track rarity.
pub struct FetchQuery {
    pub sets: Vec<String>,
    pub include_rarity: bool,
}

/// The mathematical model of a [`FetchQuery`].
#[verifier::ext_equal]
pub struct QueryView {
    pub sets: Seq<Seq<char>>,
    pub include_rarity: bool,
}

impl DeepView for FetchQuery {
    type V = QueryView;

    open spec fn deep_view(&self) -> QueryView {
        QueryView { sets: self.sets.deep_view(), include_rarity: self.include_rarity }
    }
}

impl FetchQuery {
    /// Builds a query; a query must name at least one set code.
    pub fn new(sets: Vec<String>, include_rarity: bool) -> (r: Option<FetchQuery>)
        ensures
            match r {
                Some(q) => q.deep_view() == (QueryView {
                    sets: sets.deep_view(),
                    include_rarity,
                }) && q.deep_view().sets.len() > 0,
                None => sets.deep_view().len() == 0,
            },
    {
        if sets.len() == 0 {
            None
        } else {
            Some(FetchQuery { sets, include_rarity })
        }
    }
}

/// One set code's search clause.
pub open spec fn set_clause(code: Seq<char>) -> Seq<char> {
    "set%3A"@ + code
}

/// The disjunction over all set codes, joined left to right.
pub open spec fn sets_disjunction(sets: Seq<Seq<char>>) -> Seq<char>
    decreases sets.len(),
{
    if sets.len() == 0 {
        Seq::empty()
    } else if sets.len() == 1 {
        set_clause(sets[0])
    } else {
        sets_disjunction(sets.drop_last()) + "+OR+"@ + set_clause(sets.last())
    }
}

/// The first page's request URL: the fixed filter — no basic lands, paper
/// printings only — conjoined with the disjunction over the query's set
/// codes, ordered by name, page one.
pub open spec fn search_url(sets: Seq<Seq<char>>) -> Seq<char> {
    "https://api.scryfall.com/cards/search?order=name&format=json&q=(-t%3ABasic+AND+game%3Apaper+AND+("@
        + sets_disjunction(sets) + "))&page=1"@
}

/// Builds the first page's request URL for a query.
pub fn build_url(query: &FetchQuery) -> (r: String)
    ensures
        r@ == search_url(query.deep_view().sets),
{
    let ghost sets = query.sets.deep_view();
    let mut url = String::new();
    url.append(
        "https://api.scryfall.com/cards/search?order=name&format=json&q=(-t%3ABasic+AND+game%3Apaper+AND+(",
    );
    let ghost prefix = url@;
    proof {
        assert(prefix + sets_disjunction(sets.take(0)) =~= prefix);
    }
    let n = query.sets.len();
    for i in 0..n
        invariant
            n == query.sets.len(),
            sets == query.sets.deep_view(),
            url@ == prefix + sets_disjunction(sets.take(i as int)),
    {
        if i > 0 {
            url.append("+OR+");
        }
        url.append("set%3A");
        url.append(query.sets[i].as_str());
        proof {
            assert(sets.take(i + 1).drop_last() =~= sets.take(i as int));
            assert(sets.take(i + 1).last() == sets[i as int]);
            if i == 0 {
                assert(prefix + sets_disjunction(sets.take(1)) =~= prefix + set_clause(sets[0]));
            }
            assert(url@ =~= prefix + sets_disjunction(sets.take(i + 1)));
        }
    }
    proof {
        assert(sets.take(n as int) =~= sets);
    }
    url.append("))&page=1");
    proof {
        assert(url@ =~= search_url(sets));
    }
    url
}

/// What one HTTP exchange handed back: whether the status was a success,
/// and the response body.
pub struct HttpReply {
    pub ok: bool,
    pub body: String,
}

/// The mathematical model of an [`HttpReply`].
#[verifier::ext_equal]
pub struct ReplyView {
    pub ok: bool,
    pub body: Seq<char>,
}

impl DeepView for HttpReply {
    type V = ReplyView;

    open spec fn deep_view(&self) -> ReplyView {
        ReplyView { ok: self.ok, body: self.body@ }
    }
}

/// Where a fetch stands: still expecting pages, finished with every page,
/// or stopped early — by a failed request, a malformed body or the page
/// cap — with a partial cube.
#[derive(Clone, Copy, Debug, PartialEq, Eq, Structural)]
pub enum FetchStatus {
    InProgress,
    Complete,
    Partial,
}

/// The mathematical model of a [`Fetcher`].
#[verifier::ext_equal]
pub struct FetcherView {
    pub cards: Seq<CardView>,
    pub url: Seq<char>,
    pub include_rarity: bool,
    pub pages_fetched: int,
    pub max_pages: int,
    pub requests: int,
    pub status: FetchStatus,
}

/// The pagination state machine: the cube gathered so far, the URL the next
/// request must go to, and the fetch's standing.
pub struct Fetcher {
    pub cards: Vec<Card>,
    pub url: String,
    pub include_rarity: bool,
    pub pages_fetched: usize,
    pub max_pages: usize,
    pub requests: usize,
    pub status: FetchStatus,
}

impl DeepView for Fetcher {
    type V = FetcherView;

    open spec fn deep_view(&self) -> FetcherView {
        FetcherView {
            cards: self.cards.deep_view(),
            url: self.url@,
            include_rarity: self.include_rarity,
            pages_fetched: self.pages_fetched as int,
            max_pages: self.max_pages as int,
            requests: self.requests as int,
            status: self.status,
        }
    }
}

/// The fetcher's starting state: an empty cube, the query's first-page URL,
/// and — unless the page cap forbids even one request — a fetch in progress.
pub open spec fn init_view(q: QueryView, max_pages: int) -> FetcherView {
    FetcherView {
        cards: Seq::empty(),
        url: search_url(q.sets),
        include_rarity: q.include_rarity,
        pages_fetched: 0,
        max_pages: max_pages,
        requests: 0,
        status: if max_pages > 0 {
            FetchStatus::InProgress
        } else {
            FetchStatus::Partial
        },
    }
}

/// How one reply moves the fetcher on. A failed request or a malformed body
/// stops the fetch and keeps the cube gathered so far. A well-formed page's
/// records are mapped and appended; its cursor, if any, becomes the next URL,
/// unless the page cap is reached; a missing cursor completes the fetch.
pub open spec fn step_view(pre: FetcherView, reply: ReplyView) -> FetcherView {
    let counted = FetcherView { requests: pre.requests + 1, ..pre };
    if !reply.ok {
        FetcherView { status: FetchStatus::Partial, ..counted }
    } else {
        match parsed_page(reply.body) {
            None => FetcherView { status: FetchStatus::Partial, ..counted },
            Some(page) => {
                let grown = FetcherView {
                    cards: pre.cards + strip_view(page.cards, pre.include_rarity),
                    pages_fetched: pre.pages_fetched + 1,
                    ..counted
                };
                match page.next_page {
                    None => FetcherView { status: FetchStatus::Complete, ..grown },
                    Some(u) => if grown.pages_fetched < grown.max_pages {
                        FetcherView { url: u, status: FetchStatus::InProgress, ..grown }
                    } else {
                        FetcherView { url: u, status: FetchStatus::Partial, ..grown }
                    },
                }
            },
        }
    }
}

impl Fetcher {
    /// A fetcher in progress has pages left under its cap and one request
    /// per fetched page behind it.
    pub open spec fn inv(self) -> bool {
        self.status is InProgress ==> {
            &&& self.pages_fetched < self.max_pages
            &&& self.requests == self.pages_fetched
        }
    }

    /// Starts a fetch for a query, capped at `max_pages` page requests.
    pub fn new(query: &FetchQuery, max_pages: usize) -> (r: Fetcher)
        ensures
            r.inv(),
            r.deep_view() == init_view(query.deep_view(), max_pages as int),
    {
        Fetcher {
            cards: Vec::new(),
            url: build_url(query),
            include_rarity: query.include_rarity,
            pages_fetched: 0,
            max_pages,
            requests: 0,
            status: if max_pages > 0 {
                FetchStatus::InProgress
            } else {
                FetchStatus::Partial
            },
        }
    }

    /// Whether the fetcher still expects a page.
    pub fn in_progress(&self) -> (r: bool)
        ensures
            r == (self.deep_view().status is InProgress),
    {
        match self.status {
            FetchStatus::InProgress => true,
            _ => false,
        }
    }

    /// Folds one reply into the fetch, as [`step_view`] says.
    pub fn step(&mut self, reply: &HttpReply)
        requires
            old(self).inv(),
            old(self).deep_view().status is InProgress,
        ensures
            final(self).inv(),
            final(self).deep_view() == step_view(old(self).deep_view(), reply.deep_view()),
    {
        self.requests = self.requests + 1;
        if !reply.ok {
            self.status = FetchStatus::Partial;
            return ;
        }
        let page = match parse_page(reply.body.as_str()) {
            Some(p) => p,
            None => {
                self.status = FetchStatus::Partial;
                return ;
            },
        };
        let mut mapped = process_cards(&page.cards, self.include_rarity);
        let ghost old_cards = self.cards.deep_view();
        let ghost mapped_view = mapped.deep_view();
        self.cards.append(&mut mapped);
        proof {
            assert(self.cards.deep_view() =~= old_cards + mapped_view);
        }
        self.pages_fetched = self.pages_fetched + 1;
        match page.next_page {
            None => {
                self.status = FetchStatus::Complete;
            },
            Some(u) => {
                self.url = u;
                self.status = if self.pages_fetched < self.max_pages {
                    FetchStatus::InProgress
                } else {
                    FetchStatus::Partial
                };
            },
        }
        proof {
            assert(self.deep_view() =~= step_view(old(self).deep_view(), reply.deep_view()));
        }
    }
}

/// Where a fetch ends after a sequence of replies: the fetcher folds each
/// reply in turn for as long as it is in progress and replies remain.
pub open spec fn run_view(f: FetcherView, replies: Seq<ReplyView>) -> FetcherView
    decreases replies.len(),
{
    if replies.len() == 0 || !(f.status is InProgress) {
        f
    } else {
        run_view(step_view(f, replies[0]), replies.drop_first())
    }
}

/// Runs a whole fetch against a given sequence of replies — one per request
/// the fetcher makes, in order. This is the fetch loop with its transport
/// abstracted away; a driver that performs real requests calls
/// [`Fetcher::step`] reply by reply and lands on the same states.
pub fn run_fetch(query: &FetchQuery, max_pages: usize, replies: &Vec<HttpReply>) -> (r: Fetcher)
    ensures
        r.inv(),
        r.deep_view() == run_view(
            init_view(query.deep_view(), max_pages as int),
            replies.deep_view(),
        ),
{
    let mut f = Fetcher::new(query, max_pages);
    let ghost f0 = f.deep_view();
    let ghost rv = replies.deep_view();
    let n = replies.len();
    proof {
        assert(rv.skip(0) =~= rv);
    }
    let mut i: usize = 0;
    loop
        invariant_except_break
            i <= n,
            n == replies.len(),
            rv == replies.deep_view(),
            f.inv(),
            run_view(f0, rv) == run_view(f.deep_view(), rv.skip(i as int)),
        ensures
            f.inv(),
            run_view(f0, rv) == f.deep_view(),
        decreases n - i,
    {
        if i >= n {
            proof {
                assert(rv.skip(i as int) =~= Seq::<ReplyView>::empty());
            }
            break ;
        }
        if !f.in_progress() {
            break ;
        }
        proof {
            assert(rv.skip(i as int)[0] == rv[i as int]);
            assert(replies.deep_view()[i as int] == replies@[i as int].deep_view());
            assert(rv.skip(i as int).drop_first() =~= rv.skip(i + 1));
        }
        f.step(&replies[i]);
        i = i + 1;
    }
    f
}

/// The records a run of pages contributes to the cube: each page's records,
/// mapped by [`strip_card`], concatenated in page order.
pub open spec fn pages_cards(pages: Seq<PageView>, include_rarity: bool) -> Seq<CardView>
    decreases pages.len(),
{
    if pages.len() == 0 {
        Seq::empty()
    } else {
        strip_view(pages[0].cards, include_rarity) + pages_cards(pages.drop_first(), include_rarity)
    }
}

/// The first `k` replies each answer with a success whose body parses to the
/// matching page, and each of those pages carries a continuation cursor.
pub open spec fn good_replies(replies: Seq<ReplyView>, pages: Seq<PageView>, k: int) -> bool {
    &&& k <= replies.len()
    &&& k <= pages.len()
    &&& forall|i: int|
        0 <= i < k ==> (#[trigger] replies[i]).ok && parsed_page(replies[i].body) == Some(pages[i])
    &&& forall|i: int| 0 <= i < k ==> (#[trigger] pages[i]).next_page is Some
}

/// Pagination termination, from any state still in progress: against replies
/// whose first `n` pages carry a continuation cursor and whose last page
/// omits it, the fetch consumes every reply — one request each — ends
/// complete, and appends exactly the pages' mapped records in order.
pub proof fn lemma_run_completes(f: FetcherView, replies: Seq<ReplyView>, pages: Seq<PageView>)
    requires
        f.status is InProgress,
        f.requests == f.pages_fetched,
        replies.len() == pages.len(),
        replies.len() >= 1,
        good_replies(replies, pages, replies.len() - 1),
        replies.last().ok,
        parsed_page(replies.last().body) == Some(pages.last()),
        pages.last().next_page is None,
        f.pages_fetched + replies.len() <= f.max_pages,
    ensures
        run_view(f, replies).status is Complete,
        run_view(f, replies).requests == f.requests + replies.len(),
        run_view(f, replies).cards == f.cards + pages_cards(pages, f.include_rarity),
    decreases replies.len(),
{
    let f1 = step_view(f, replies[0]);
    if replies.len() == 1 {
        assert(replies[0] == replies.last());
        assert(pages[0] == pages.last());
        assert(run_view(f1, replies.drop_first()) == f1);
        assert(pages.drop_first().len() == 0);
        assert(pages_cards(pages.drop_first(), f.include_rarity) == Seq::<CardView>::empty());
        assert(pages_cards(pages, f.include_rarity) =~= strip_view(
            pages[0].cards,
            f.include_rarity,
        ));
        assert(f.cards + strip_view(pages[0].cards, f.include_rarity) =~= f.cards + pages_cards(
            pages,
            f.include_rarity,
        ));
    } else {
        assert(replies[0].ok && parsed_page(replies[0].body) == Some(pages[0]));
        assert(pages[0].next_page is Some);
        assert(f1.status is InProgress);
        let rr = replies.drop_first();
        let pp = pages.drop_first();
        assert(rr.last() == replies.last());
        assert(pp.last() == pages.last());
        assert(good_replies(rr, pp, rr.len() - 1)) by {
            assert forall|i: int| 0 <= i < rr.len() - 1 implies (#[trigger] rr[i]).ok
                && parsed_page(rr[i].body) == Some(pp[i]) && (#[trigger] pp[i]).next_page
                is Some by {
                assert(rr[i] == replies[i + 1]);
                assert(pp[i] == pages[i + 1]);
            }
        }
        lemma_run_completes(f1, rr, pp);
        assert((f.cards + strip_view(pages[0].cards, f.include_rarity)) + pages_cards(
            pp,
            f.include_rarity,
        ) =~= f.cards + pages_cards(pages, f.include_rarity));
    }
}

/// Partial result on failure, from any state still in progress: against
/// replies whose first `k` answers are good pages with a continuation cursor
/// and whose reply `k` fails, the fetch keeps exactly the `k` good pages'
/// mapped records, makes `k + 1` requests, and ends partial — no error.
pub proof fn lemma_run_partial(
    f: FetcherView,
    replies: Seq<ReplyView>,
    pages: Seq<PageView>,
    k: int,
)
    requires
        f.status is InProgress,
        f.requests == f.pages_fetched,
        0 <= k < replies.len(),
        k <= pages.len(),
        good_replies(replies, pages, k),
        !replies[k].ok,
        f.pages_fetched + k < f.max_pages,
    ensures
        run_view(f, replies).status is Partial,
        run_view(f, replies).requests == f.requests + k + 1,
        run_view(f, replies).cards == f.cards + pages_cards(pages.take(k), f.include_rarity),
    decreases k,
{
    let f1 = step_view(f, replies[0]);
    if k == 0 {
        assert(f1.status is Partial);
        assert(run_view(f1, replies.drop_first()) == f1);
        assert(f.cards + pages_cards(pages.take(0), f.include_rarity) =~= f.cards);
    } else {
        assert(replies[0].ok && parsed_page(replies[0].body) == Some(pages[0]));
        assert(pages[0].next_page is Some);
        assert(f1.status is InProgress);
        let rr = replies.drop_first();
        let pp = pages.drop_first();
        assert(rr[k - 1] == replies[k]);
        assert(good_replies(rr, pp, k - 1)) by {
            assert forall|i: int| 0 <= i < k - 1 implies (#[trigger] rr[i]).ok && parsed_page(
                rr[i].body,
            ) == Some(pp[i]) && (#[trigger] pp[i]).next_page is Some by {
                assert(rr[i] == replies[i + 1]);
                assert(pp[i] == pages[i + 1]);
            }
        }
        lemma_run_partial(f1, rr, pp, k - 1);
        assert(pages.take(k)[0] == pages[0]);
        assert(pages.take(k).drop_first() =~= pp.take(k - 1));
        assert((f.cards + strip_view(pages[0].cards, f.include_rarity)) + pages_cards(
            pp.take(k - 1),
            f.include_rarity,
        ) =~= f.cards + pages_cards(pages.take(k), f.include_rarity));
    }
}

/// Pagination termination for a whole fetch: from the start state of `q`,
/// against an API that returns a continuation cursor on every page but the
/// last, the fetch makes exactly one request per page, ends complete, and
/// its cube is the concatenation of all pages' mapped records in order.
pub proof fn lemma_pagination_terminates(
    q: QueryView,
    max_pages: int,
    replies: Seq<ReplyView>,
    pages: Seq<PageView>,
)
    requires
        replies.len() == pages.len(),
        1 <= replies.len() <= max_pages,
        good_replies(replies, pages, replies.len() - 1),
        replies.last().ok,
        parsed_page(replies.last().body) == Some(pages.last()),
        pages.last().next_page is None,
    ensures
        run_view(init_view(q, max_pages), replies).status is Complete,
        run_view(init_view(q, max_pages), replies).requests == replies.len(),
        run_view(init_view(q, max_pages), replies).cards == pages_cards(
            pages,
            q.include_rarity,
        ),
{
    let f = init_view(q, max_pages);
    lemma_run_completes(f, replies, pages);
    assert(f.cards + pages_cards(pages, q.include_rarity) =~= pages_cards(
        pages,
        q.include_rarity,
    ));
}

/// Partial result on failure for a whole fetch: from the start state of `q`,
/// against an API that answers `k` good pages and then a failed request, the
/// fetch returns exactly the `k` pages' mapped records, with no error.
pub proof fn lemma_partial_result_on_failure(
    q: QueryView,
    max_pages: int,
    replies: Seq<ReplyView>,
    pages: Seq<PageView>,
    k: int,
)
    requires
        0 <= k < replies.len(),
        k <= pages.len(),
        k < max_pages,
        good_replies(replies, pages, k),
        !replies[k].ok,
    ensures
        run_view(init_view(q, max_pages), replies).status is Partial,
        run_view(init_view(q, max_pages), replies).requests == k + 1,
        run_view(init_view(q, max_pages), replies).cards == pages_cards(
            pages.take(k),
            q.include_rarity,
        ),
{
    let f = init_view(q, max_pages);
    lemma_run_partial(f, replies, pages, k);
    assert(f.cards + pages_cards(pages.take(k), q.include_rarity) =~= pages_cards(
        pages.take(k),
        q.include_rarity,
    ));
}

} // verus!
