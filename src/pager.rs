use vstd::prelude::*;
use crate::client::{episodes_request_view, Request, Session};
use crate::model::{ClientError, Episode, EpisodeView, views};

verus! {

/// The most pages one episode listing may take; a listing that still points
/// to a further page after this many is abandoned.
pub const MAX_PAGES: u64 = 10000;

/// One page of a series' episodes and the number of the page after it.
pub struct EpisodePage {
    pub episodes: Vec<Episode>,
    pub next: Option<u64>,
}

/// The mathematical value of an [`EpisodePage`].
pub struct PageView {
    pub episodes: Seq<EpisodeView>,
    pub next: Option<u64>,
}

impl View for EpisodePage {
    type V = PageView;

    open spec fn view(&self) -> PageView {
        PageView { episodes: views(self.episodes@), next: self.next }
    }
}

/// The outcome of one page fetch, as values.
pub open spec fn outcome_view(o: Result<EpisodePage, ClientError>) -> Result<PageView, ClientError> {
    match o {
        Ok(p) => Ok(p@),
        Err(e) => Err(e),
    }
}

/// Progress of collecting a series' episodes.
pub struct FetchView {
    pub series_id: u64,
    /// The episodes of the pages received so far, in page order.
    pub collected: Seq<EpisodeView>,
    /// The page to fetch next; none once the listing is complete or failed.
    pub next_page: Option<u64>,
    /// The error that ended the collection, if one did.
    pub error: Option<ClientError>,
    /// How many pages were received.
    pub fetched: nat,
}

/// The state before any page was fetched: page 1 is next.
pub open spec fn start(series_id: u64) -> FetchView {
    FetchView { series_id, collected: seq![], next_page: Some(1), error: None, fetched: 0 }
}

/// The state after one more page fetch: an error ends the collection; a page
/// adds its episodes and names the next page, unless the page limit is
/// reached while more pages are announced.
pub open spec fn after_page(v: FetchView, outcome: Result<PageView, ClientError>) -> FetchView {
    match outcome {
        Err(e) => FetchView {
            series_id: v.series_id,
            collected: v.collected,
            next_page: None,
            error: Some(e),
            fetched: v.fetched,
        },
        Ok(p) => if p.next is Some && v.fetched + 1 >= MAX_PAGES {
            FetchView {
                series_id: v.series_id,
                collected: v.collected,
                next_page: None,
                error: Some(ClientError::TooManyPages),
                fetched: v.fetched + 1,
            }
        } else {
            FetchView {
                series_id: v.series_id,
                collected: v.collected + p.episodes,
                next_page: p.next,
                error: None,
                fetched: v.fetched + 1,
            }
        },
    }
}

/// The state after receiving each of `pages` in turn.
pub open spec fn after_pages(v: FetchView, pages: Seq<PageView>) -> FetchView
    decreases pages.len(),
{
    if pages.len() == 0 {
        v
    } else {
        after_page(after_pages(v, pages.drop_last()), Ok(pages.last()))
    }
}

/// The episodes of `pages`, page after page.
pub open spec fn concat_pages(pages: Seq<PageView>) -> Seq<EpisodeView>
    decreases pages.len(),
{
    if pages.len() == 0 {
        seq![]
    } else {
        concat_pages(pages.drop_last()) + pages.last().episodes
    }
}

/// The result that a finished collection hands back.
pub open spec fn fetch_result(v: FetchView) -> Result<Seq<EpisodeView>, ClientError> {
    match v.error {
        Some(e) => Err(e),
        None => Ok(v.collected),
    }
}

/// Collects the episodes of one series page by page. The caller asks for the
/// request of the pending page, performs it, and hands back its outcome, until
/// no page is pending.
pub struct EpisodeFetch {
    series_id: u64,
    collected: Vec<Episode>,
    next_page: Option<u64>,
    error: Option<ClientError>,
    fetched: u64,
}

impl View for EpisodeFetch {
    type V = FetchView;

    closed spec fn view(&self) -> FetchView {
        FetchView {
            series_id: self.series_id,
            collected: views(self.collected@),
            next_page: self.next_page,
            error: self.error,
            fetched: self.fetched as nat,
        }
    }
}

impl EpisodeFetch {
    /// The collection's own invariant: within the page limit, and no page
    /// pending after an error.
    pub closed spec fn wf(&self) -> bool {
        &&& self.fetched <= MAX_PAGES
        &&& self.next_page is Some ==> self.fetched < MAX_PAGES
        &&& self.error is Some ==> self.next_page is None
    }

    /// Starts collecting the episodes of `series_id` at page 1.
    pub fn new(series_id: u64) -> (r: Self)
        ensures
            r.wf(),
            r@ == start(series_id),
    {
        let r = EpisodeFetch {
            series_id,
            collected: Vec::new(),
            next_page: Some(1),
            error: None,
            fetched: 0,
        };
        assert(r@.collected =~= seq![]);
        r
    }

    /// The page to fetch next, if any.
    pub fn pending(&self) -> (r: Option<u64>)
        ensures
            r == self@.next_page,
    {
        self.next_page
    }

    /// The request for the pending page, if any.
    pub fn request(&self, session: &Session) -> (r: Option<Request>)
        ensures
            match self@.next_page {
                Some(p) => r is Some && r->Some_0@ == episodes_request_view(
                    session@,
                    self@.series_id,
                    p,
                ),
                None => r is None,
            },
    {
        match self.next_page {
            Some(p) => Some(session.episodes_request(self.series_id, p)),
            None => None,
        }
    }

    /// Takes in the outcome of fetching the pending page.
    pub fn receive(&mut self, outcome: Result<EpisodePage, ClientError>)
        requires
            old(self).wf(),
            old(self)@.next_page is Some,
        ensures
            final(self).wf(),
            final(self)@ == after_page(old(self)@, outcome_view(outcome)),
    {
        match outcome {
            Err(e) => {
                self.error = Some(e);
                self.next_page = None;
            },
            Ok(page) => {
                let next = page.next;
                let mut episodes = page.episodes;
                self.fetched = self.fetched + 1;
                if next.is_some() && self.fetched >= MAX_PAGES {
                    self.error = Some(ClientError::TooManyPages);
                    self.next_page = None;
                } else {
                    self.collected.append(&mut episodes);
                    self.next_page = next;
                    proof {
                        assert(views(self.collected@) =~= views(old(self).collected@) + views(
                            page.episodes@,
                        ));
                    }
                }
            },
        }
    }

    /// The collected episodes, or the error that ended the collection. Nothing
    /// partial is handed back after an error.
    pub fn finish(self) -> (r: Result<Vec<Episode>, ClientError>)
        requires
            self@.next_page is None,
        ensures
            match fetch_result(self@) {
                Ok(s) => r is Ok && views(r->Ok_0@) == s,
                Err(e) => r == Err::<Vec<Episode>, ClientError>(e),
            },
    {
        match self.error {
            Some(e) => Err(e),
            None => Ok(self.collected),
        }
    }
}

/// Receiving the pages of a listing in order, each but the last naming a next
/// page and the last naming none, collects their episodes in page order and
/// completes without error, as long as the listing stays within the page limit.
pub proof fn lemma_pages_merge(series_id: u64, pages: Seq<PageView>)
    requires
        0 < pages.len() <= MAX_PAGES,
        forall|i: int| 0 <= i < pages.len() - 1 ==> (#[trigger] pages[i]).next is Some,
        pages.last().next is None,
    ensures
        fetch_result(after_pages(start(series_id), pages)) == Ok::<
            Seq<EpisodeView>,
            ClientError,
        >(concat_pages(pages)),
        after_pages(start(series_id), pages).next_page is None,
{
    lemma_pages_prefix(series_id, pages, pages.len() as int);
    assert(pages.take(pages.len() as int) =~= pages);
}

proof fn lemma_pages_prefix(series_id: u64, pages: Seq<PageView>, k: int)
    requires
        0 <= k <= pages.len() <= MAX_PAGES,
        forall|i: int| 0 <= i < pages.len() - 1 ==> (#[trigger] pages[i]).next is Some,
        pages.len() > 0 ==> pages.last().next is None,
    ensures
        ({
            let v = after_pages(start(series_id), pages.take(k));
            &&& v.collected == concat_pages(pages.take(k))
            &&& v.error is None
            &&& v.fetched == k
            &&& k > 0 ==> v.next_page == pages[k - 1].next
        }),
    decreases k,
{
    if k > 0 {
        lemma_pages_prefix(series_id, pages, k - 1);
        let t = pages.take(k);
        assert(t.drop_last() =~= pages.take(k - 1));
        assert(t.last() == pages[k - 1]);
    } else {
        assert(pages.take(0) =~= Seq::<PageView>::empty());
    }
}

/// A failed page fetch ends the collection with that error.
pub proof fn lemma_failure_is_final(v: FetchView, e: ClientError)
    ensures
        after_page(v, Err(e)).next_page is None,
        fetch_result(after_page(v, Err(e))) == Err::<Seq<EpisodeView>, ClientError>(e),
{
}

} // verus!
