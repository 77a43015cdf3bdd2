//! The crawl engine: one state, and one transition for each link consumed.

use crate::frontier::lemma_initial;
use crate::frontier::lemma_offer;
use crate::frontier::lemma_pop;
use crate::frontier::Frontier;
use crate::frontier::FrontierView;
use crate::link::parse_seed;
use crate::link::in_scope;
use crate::link::is_same_domain;
use crate::link::seed_link;
use crate::link::Link;
use crate::link::LinkView;
use crate::link::SeedError;
use crate::metrics::lemma_record;
use crate::metrics::lemma_record_at_most;
use crate::metrics::word_max;
use crate::metrics::LogView;
use crate::metrics::Metrics;
use crate::metrics::MetricsView;
use crate::page::hrefs;
use crate::page::links_view;
use crate::page::page_links;
use crate::page::parse_urls;
use crate::repository::zlib_best;
use crate::repository::Repository;
use crate::repository::RepositoryView;
use crate::repository::StoreError;
use crate::repository::StoredPage;
use crate::text::text_view;
use crate::text::texts;
use crate::text::utf8;
use crate::timer::Elapsed;
use vstd::prelude::*;

verus! {

/// How the fetch of one link ended.
#[derive(Debug)]
pub enum Fetched {
    /// The request failed before any response arrived.
    Failed { reason: String },
    /// A response arrived, `elapsed` after the request, that is no HTML
    /// document.
    NotHtml { elapsed: Elapsed },
    /// An HTML response arrived, `elapsed` after the request, but its body
    /// could not be read.
    Broken { elapsed: Elapsed, reason: String },
    /// An HTML response arrived, `elapsed` after the request, with this body.
    Page { elapsed: Elapsed, body: String },
}

/// The mathematical value of [`Fetched`].
pub enum FetchedView {
    Failed { reason: Seq<char> },
    NotHtml { elapsed: Elapsed },
    Broken { elapsed: Elapsed, reason: Seq<char> },
    Page { elapsed: Elapsed, body: Seq<char> },
}

impl View for Fetched {
    type V = FetchedView;

    open spec fn view(&self) -> FetchedView {
        match *self {
            Fetched::Failed { reason } => FetchedView::Failed { reason: reason@ },
            Fetched::NotHtml { elapsed } => FetchedView::NotHtml { elapsed },
            Fetched::Broken { elapsed, reason } => FetchedView::Broken { elapsed, reason: reason@ },
            Fetched::Page { elapsed, body } => FetchedView::Page { elapsed, body: body@ },
        }
    }
}

impl FetchedView {
    /// The body of the page that was fetched, if one was.
    pub open spec fn body(self) -> Option<Seq<char>> {
        match self {
            FetchedView::Page { body, .. } => Some(body),
            _ => None,
        }
    }
}

/// The predicate that holds of the links on a domain.
pub open spec fn on_domain(domain: Seq<char>) -> spec_fn(LinkView) -> bool {
    |link: LinkView| in_scope(link, domain)
}

/// The texts of those links that lie on a domain, in order.
pub open spec fn same_domain(links: Seq<LinkView>, domain: Seq<char>) -> Seq<Seq<char>> {
    hrefs(links.filter(on_domain(domain)))
}

impl MetricsView {
    /// The statistics after a fetch ended: a failure is tallied by its
    /// message, an answer is counted with the time it took, and an HTML
    /// answer is counted as such. A response that is no HTML document is no
    /// failure.
    pub open spec fn fetched(self, outcome: FetchedView) -> MetricsView {
        match outcome {
            FetchedView::Failed { reason } => MetricsView { error: self.error.record(reason), ..self },
            FetchedView::NotHtml { elapsed } => MetricsView { log: self.log.answered(elapsed), ..self },
            FetchedView::Broken { elapsed, reason } => MetricsView {
                log: self.log.answered(elapsed).html(),
                error: self.error.record(reason),
            },
            FetchedView::Page { elapsed, .. } => MetricsView {
                log: self.log.answered(elapsed).html(),
                ..self
            },
        }
    }
}

/// The state of a run.
pub struct CrawlerView {
    pub repo: RepositoryView,
    pub frontier: FrontierView,
    pub crawled_count: nat,
    pub max_crawl: nat,
    pub seed_domain: Seq<char>,
    pub metrics: MetricsView,
}

impl CrawlerView {
    /// The state of a run that has not fetched anything yet: the seed waits,
    /// and its host is the domain that confines the run.
    pub open spec fn initial(seed: LinkView, max_crawl: nat) -> CrawlerView
        recommends
            seed.host is Some,
    {
        CrawlerView {
            repo: RepositoryView::empty(),
            frontier: FrontierView::initial(seed.href),
            crawled_count: 0,
            max_crawl,
            seed_domain: seed.host->0,
            metrics: MetricsView::initial(),
        }
    }

    /// What holds of every state of a run: no link was discovered twice, the
    /// links handed out are the links counted, the count is within the
    /// budget, and the statistics are within what that many rounds allow.
    pub open spec fn wf(self) -> bool {
        &&& self.frontier.wf()
        &&& self.repo.wf()
        &&& self.crawled_count == self.frontier.popped.len()
        &&& self.crawled_count <= self.max_crawl
        &&& self.metrics.log.consistent(self.crawled_count)
        &&& self.metrics.error.wf()
        &&& self.metrics.error.at_most(self.crawled_count)
    }

    /// Whether the run goes on: a link is waiting and the budget is not spent.
    pub open spec fn should_crawl(self) -> bool {
        self.frontier.queue.len() > 0 && self.crawled_count < self.max_crawl
    }

    /// The link to fetch next, while the run goes on.
    pub open spec fn next_url(self) -> Option<Seq<char>> {
        if self.should_crawl() {
            Some(self.frontier.queue[0])
        } else {
            None
        }
    }

    /// The streams after the outcome of a fetch is stored, or why it cannot
    /// be: only the body of a page is stored.
    pub open spec fn store(self, outcome: FetchedView) -> Result<RepositoryView, StoreError> {
        match outcome.body() {
            Some(body) => self.repo.store(body),
            None => Ok(self.repo),
        }
    }

    /// The state after the first waiting link is consumed with the given
    /// outcome, where `repo` is what the streams hold by then.
    ///
    /// The link leaves the queue and the count advances, whatever the
    /// outcome. For a page, the links of the page are counted, and those on
    /// the domain of the run are offered to the frontier.
    pub open spec fn consume(self, outcome: FetchedView, repo: RepositoryView) -> CrawlerView
        recommends
            self.should_crawl(),
    {
        let url = self.frontier.queue[0];
        let rest = self.frontier.pop();
        let metrics = self.metrics.fetched(outcome);
        match outcome.body() {
            Some(body) => {
                let links = page_links(body, url);
                let same = same_domain(links, self.seed_domain);
                CrawlerView {
                    repo,
                    frontier: rest.offer(same),
                    crawled_count: self.crawled_count + 1,
                    metrics: MetricsView {
                        log: metrics.log.page(utf8(body).len(), links.len(), same.len()),
                        ..metrics
                    },
                    ..self
                }
            },
            None => CrawlerView {
                repo,
                frontier: rest,
                crawled_count: self.crawled_count + 1,
                metrics,
                ..self
            },
        }
    }

    /// One round of the run. A run that does not go on stays as it is.
    /// Otherwise the first waiting link is consumed, unless its page cannot
    /// be stored.
    pub open spec fn crawl(self, outcome: FetchedView) -> Result<CrawlerView, StoreError> {
        if !self.should_crawl() {
            Ok(self)
        } else {
            match self.store(outcome) {
                Ok(repo) => Ok(self.consume(outcome, repo)),
                Err(e) => Err(e),
            }
        }
    }

    /// What a round hands out to be appended to the streams: the body of the
    /// page that a run that goes on has consumed.
    pub open spec fn persists(self, outcome: FetchedView) -> Option<Seq<char>> {
        if self.should_crawl() {
            outcome.body()
        } else {
            None
        }
    }

    /// The state after a run has ended: the lengths of the streams, the
    /// duration of the run and the number of links left waiting are noted in
    /// the statistics.
    pub open spec fn finish(self, process_time: Elapsed) -> CrawlerView {
        CrawlerView {
            metrics: MetricsView {
                log: LogView {
                    compressed_bytes: self.repo.compressed.len(),
                    uncompressed_bytes: self.repo.uncompressed.len(),
                    process_time: process_time.total_nanos(),
                    que_size_at_end: self.frontier.queue.len(),
                    ..self.metrics.log
                },
                ..self.metrics
            },
            ..self
        }
    }

    /// The state after a series of rounds, one for each outcome in turn, or
    /// the failure that ended the run.
    pub open spec fn run(self, outcomes: Seq<FetchedView>) -> Result<CrawlerView, StoreError>
        decreases outcomes.len(),
    {
        if outcomes.len() == 0 {
            Ok(self)
        } else {
            match self.crawl(outcomes[0]) {
                Ok(next) => next.run(outcomes.drop_first()),
                Err(e) => Err(e),
            }
        }
    }
}

/// No machine word holds more than 64 bits.
proof fn lemma_word_max()
    ensures
        usize::MAX <= word_max(),
{
}

/// A fresh run is well formed.
pub proof fn lemma_initial_wf(seed: LinkView, max_crawl: nat)
    ensures
        CrawlerView::initial(seed, max_crawl).wf(),
{
    lemma_initial(seed.href);
    let tally = MetricsView::initial().error;
    assert(tally.order.to_set() =~= tally.counts.dom());
}

/// Every round keeps the state of a run well formed.
pub proof fn lemma_crawl_wf(state: CrawlerView, outcome: FetchedView)
    requires
        state.wf(),
    ensures
        state.crawl(outcome) matches Ok(next) ==> next.wf(),
{
    if state.should_crawl() {
        if let Ok(repo) = state.store(outcome) {
            let rounds = state.crawled_count;
            let rest = state.frontier.pop();
            lemma_pop(state.frontier);
            match outcome {
                FetchedView::Failed { reason } => {
                    lemma_record(state.metrics.error, reason);
                    lemma_record_at_most(state.metrics.error, reason, rounds);
                },
                FetchedView::NotHtml { .. } => {},
                FetchedView::Broken { reason, .. } => {
                    lemma_record(state.metrics.error, reason);
                    lemma_record_at_most(state.metrics.error, reason, rounds);
                },
                FetchedView::Page { body, .. } => {
                    let links = page_links(body, state.frontier.queue[0]);
                    links.lemma_filter_len(on_domain(state.seed_domain));
                    lemma_offer(rest, same_domain(links, state.seed_domain));
                },
            }
        }
    }
}

/// Every round of a run that goes on consumes exactly one link: the count
/// advances by one and stays within the budget, the link that waited longest
/// joins the links handed out, and the budget and the domain stay the same.
pub proof fn lemma_crawl_advances(state: CrawlerView, outcome: FetchedView)
    requires
        state.wf(),
        state.should_crawl(),
    ensures
        state.crawl(outcome) matches Ok(next) ==> {
            &&& next.crawled_count == state.crawled_count + 1
            &&& next.crawled_count <= next.max_crawl
            &&& next.max_crawl == state.max_crawl
            &&& next.seed_domain == state.seed_domain
            &&& next.frontier.popped == state.frontier.popped.push(state.frontier.queue[0])
        },
        outcome.body() is None ==> state.crawl(outcome) is Ok,
{
}

/// A run that has ended stays ended: no round changes it.
pub proof fn lemma_finished_is_terminal(state: CrawlerView, outcomes: Seq<FetchedView>)
    requires
        !state.should_crawl(),
    ensures
        state.run(outcomes) == Ok::<CrawlerView, StoreError>(state),
    decreases outcomes.len(),
{
    if outcomes.len() > 0 {
        lemma_finished_is_terminal(state, outcomes.drop_first());
    }
}

/// A run consumes at most one link for each outcome and never more links
/// than its budget allows; where there are at least as many outcomes as the
/// budget has left, the run has ended after them.
pub proof fn lemma_run_terminates(state: CrawlerView, outcomes: Seq<FetchedView>)
    requires
        state.wf(),
    ensures
        state.run(outcomes) matches Ok(last) ==> {
            &&& last.wf()
            &&& last.max_crawl == state.max_crawl
            &&& state.crawled_count <= last.crawled_count <= state.max_crawl
            &&& last.crawled_count <= state.crawled_count + outcomes.len()
            &&& outcomes.len() >= state.max_crawl - state.crawled_count ==> !last.should_crawl()
        },
    decreases outcomes.len(),
{
    if outcomes.len() > 0 {
        if let Ok(next) = state.crawl(outcomes[0]) {
            lemma_crawl_wf(state, outcomes[0]);
            if state.should_crawl() {
                lemma_crawl_advances(state, outcomes[0]);
                lemma_run_terminates(next, outcomes.drop_first());
            } else {
                lemma_finished_is_terminal(state, outcomes.drop_first());
            }
        }
    }
}

/// A round forgets no link: what was discovered before it stays discovered,
/// in its place, and what was seen stays seen.
pub proof fn lemma_crawl_keeps_discovered(state: CrawlerView, outcome: FetchedView)
    requires
        state.wf(),
    ensures
        state.crawl(outcome) matches Ok(next) ==> {
            &&& state.frontier.discovered().is_prefix_of(next.frontier.discovered())
            &&& state.frontier.seen().subset_of(next.frontier.seen())
        },
{
    if state.should_crawl() {
        if let Ok(repo) = state.store(outcome) {
            let rest = state.frontier.pop();
            lemma_pop(state.frontier);
            if let Some(body) = outcome.body() {
                let links = page_links(body, state.frontier.queue[0]);
                lemma_offer(rest, same_domain(links, state.seed_domain));
            }
        }
    }
}

/// Only links on the domain of the run join the queue: every link that waits
/// after a round waited before it, or is a link of the fetched page that lies
/// on the domain.
pub proof fn lemma_crawl_enqueues_in_scope(state: CrawlerView, outcome: FetchedView)
    requires
        state.wf(),
        state.should_crawl(),
    ensures
        state.crawl(outcome) matches Ok(next) ==> forall|url: Seq<char>|
            #[trigger] next.frontier.queue.contains(url) ==> state.frontier.queue.contains(url) || (
            outcome.body() matches Some(body) && exists|link: LinkView|
                #[trigger] page_links(body, state.frontier.queue[0]).contains(link) && in_scope(
                    link,
                    state.seed_domain,
                ) && link.href == url),
{
    if let Ok(next) = state.crawl(outcome) {
        let rest = state.frontier.pop();
        assert forall|url: Seq<char>| #[trigger] next.frontier.queue.contains(url) implies state.frontier.queue.contains(url) || (
            outcome.body() matches Some(body) && exists|link: LinkView|
                #[trigger] page_links(body, state.frontier.queue[0]).contains(link) && in_scope(
                    link,
                    state.seed_domain,
                ) && link.href == url) by {
            if rest.queue.contains(url) {
                let i = choose|i: int| 0 <= i < rest.queue.len() && rest.queue[i] == url;
                assert(state.frontier.queue[i + 1] == url);
            } else {
                let body = outcome.body()->0;
                let links = page_links(body, state.frontier.queue[0]);
                let kept = links.filter(on_domain(state.seed_domain));
                let same = same_domain(links, state.seed_domain);
                let news = crate::frontier::fresh(same, rest.seen());
                crate::frontier::lemma_fresh(same, rest.seen());
                assert(news.contains(url));
                assert(news.to_set().contains(url));
                assert(same.contains(url));
                let j = choose|j: int| 0 <= j < same.len() && same[j] == url;
                let link = kept[j];
                links.lemma_filter_pred(on_domain(state.seed_domain), j);
                assert(kept.contains(link));
                links.lemma_filter_contains_rev(on_domain(state.seed_domain), link);
                assert(links.contains(link));
            }
        }
    }
}

/// Across a run no link is handed out twice: the links handed out before the
/// run stay handed out, in their order, and those handed out after it are
/// all different.
pub proof fn lemma_run_hands_out_once(state: CrawlerView, outcomes: Seq<FetchedView>)
    requires
        state.wf(),
    ensures
        state.run(outcomes) matches Ok(last) ==> {
            &&& state.frontier.popped.is_prefix_of(last.frontier.popped)
            &&& last.frontier.popped.no_duplicates()
            &&& last.frontier.popped.len() == last.crawled_count
        },
    decreases outcomes.len(),
{
    if outcomes.len() > 0 {
        if let Ok(next) = state.crawl(outcomes[0]) {
            lemma_crawl_wf(state, outcomes[0]);
            lemma_run_hands_out_once(next, outcomes.drop_first());
        }
    }
    if let Ok(last) = state.run(outcomes) {
        lemma_run_terminates(state, outcomes);
        lemma_no_link_twice(last);
    }
}

/// No link is ever handed out twice, and every link that was handed out or
/// waits was discovered once.
pub proof fn lemma_no_link_twice(state: CrawlerView)
    requires
        state.wf(),
    ensures
        state.frontier.popped.no_duplicates(),
        state.frontier.queue.no_duplicates(),
        state.frontier.discovered().no_duplicates(),
        state.frontier.popped.len() == state.crawled_count,
{
    crate::frontier::lemma_discovered_once(state.frontier);
}

/// The engine of one run: the frontier, the budget, the storage sink and the
/// statistics.
pub struct Crawler {
    repo: Repository,
    frontier: Frontier,
    crawled_count: usize,
    max_crawl: usize,
    seed_domain: String,
    metrics: Metrics,
}

impl View for Crawler {
    type V = CrawlerView;

    closed spec fn view(&self) -> CrawlerView {
        CrawlerView {
            repo: self.repo@,
            frontier: self.frontier@,
            crawled_count: self.crawled_count as nat,
            max_crawl: self.max_crawl as nat,
            seed_domain: self.seed_domain@,
            metrics: self.metrics@,
        }
    }
}

impl Crawler {
    /// The parts of the engine keep what they promise.
    pub closed spec fn parts_wf(&self) -> bool {
        &&& self.repo.wf()
        &&& self.frontier.wf()
        &&& self.metrics.log.within(self.crawled_count as nat)
    }

    /// The engine is in a state that a run can reach.
    pub open spec fn wf(&self) -> bool {
        &&& self@.wf()
        &&& self.parts_wf()
    }

    /// The engine of a run that starts at `seed` and consumes at most
    /// `max_crawl` links, or why the seed cannot start a run. The seed waits
    /// in the frontier as the parser normalizes it, and its host, be it a
    /// name or an address, is the domain that confines the run.
    pub fn new(seed: &str, max_crawl: usize) -> (r: Result<Crawler, SeedError>)
        ensures
            match r {
                Ok(crawler) => {
                    &&& crawler.wf()
                    &&& seed_link(seed@) matches Ok(link)
                    &&& crawler@ == CrawlerView::initial(link, max_crawl as nat)
                },
                Err(e) => seed_link(seed@) == Err::<LinkView, SeedError>(e),
            },
    {
        match parse_seed(seed) {
            Ok(Link { href, host: Some(seed_domain) }) => {
                let crawler = Crawler {
                    repo: Repository::new(),
                    frontier: Frontier::new(href.as_str()),
                    crawled_count: 0,
                    max_crawl,
                    seed_domain,
                    metrics: Metrics::new(),
                };
                proof {
                    lemma_initial_wf(seed_link(seed@)->Ok_0, max_crawl as nat);
                }
                Ok(crawler)
            },
            Ok(Link { host: None, .. }) => Err(SeedError::MissingHost),
            Err(e) => Err(e),
        }
    }

    /// Whether the run goes on.
    pub fn should_crawl(&self) -> (go: bool)
        ensures
            go == self@.should_crawl(),
    {
        !self.frontier.is_empty() && self.crawled_count < self.max_crawl
    }

    /// The link to fetch next, while the run goes on.
    pub fn next_url(&self) -> (url: Option<&String>)
        ensures
            match url {
                Some(u) => self@.next_url() == Some(u@),
                None => self@.next_url().is_none(),
            },
    {
        if self.should_crawl() {
            self.frontier.peek()
        } else {
            None
        }
    }

    /// The texts of those links that lie on the domain of the run, in order.
    pub fn same_domain_urls(&self, all_urls: &Vec<Link>) -> (urls: Vec<String>)
        ensures
            texts(urls@) == same_domain(links_view(all_urls@), self@.seed_domain),
            urls.len() <= all_urls.len(),
    {
        let ghost all = links_view(all_urls@);
        let ghost pred = on_domain(self.seed_domain@);
        let mut urls: Vec<String> = Vec::new();
        proof {
            assert(all.take(0).filter(pred) =~= Seq::<LinkView>::empty()) by {
                all.take(0).lemma_filter_len(pred);
            }
            assert(texts(urls@) =~= hrefs(all.take(0).filter(pred)));
        }
        for i in 0..all_urls.len()
            invariant
                all == links_view(all_urls@),
                pred == on_domain(self.seed_domain@),
                texts(urls@) == hrefs(all.take(i as int).filter(pred)),
                urls.len() <= i,
        {
            let link = &all_urls[i];
            proof {
                all.lemma_take_succ_push(i as int);
                all.take(i as int).lemma_filter_push(all[i as int], pred);
                assert(all[i as int] == link@);
            }
            if is_same_domain(link, self.seed_domain.as_str()) {
                let ghost before = texts(urls@);
                let ghost kept = all.take(i as int).filter(pred);
                urls.push(link.href.clone());
                proof {
                    assert(texts(urls@) =~= before.push(link@.href));
                    assert(hrefs(kept.push(link@)) =~= hrefs(kept).push(link@.href));
                }
            }
        }
        proof {
            assert(all.take(all_urls.len() as int) =~= all);
        }
        urls
    }

    /// Accounts for the end of a fetch, and hands on the body of the page
    /// where there is one.
    fn fetch_next(&mut self, outcome: Fetched) -> (body: Option<String>)
        requires
            old(self).metrics.error.wf(),
            old(self).metrics@.error.at_most(old(self).crawled_count as nat),
            old(self).metrics.log.within(old(self).crawled_count as nat),
            old(self).crawled_count < old(self).max_crawl,
        ensures
            final(self).metrics@ == old(self).metrics@.fetched(outcome@),
            final(self).metrics.error.wf(),
            final(self).metrics.log.within((old(self).crawled_count + 1) as nat),
            final(self).metrics.log.total_urls == old(self).metrics.log.total_urls,
            final(self).metrics.log.downloaded_bytes == old(self).metrics.log.downloaded_bytes,
            final(self).repo == old(self).repo,
            final(self).frontier == old(self).frontier,
            final(self).crawled_count == old(self).crawled_count,
            final(self).max_crawl == old(self).max_crawl,
            final(self).seed_domain == old(self).seed_domain,
            text_view(body) == outcome@.body(),
    {
        proof {
            lemma_word_max();
        }
        match outcome {
            Fetched::Failed { reason } => {
                self.metrics.error.record(reason.as_str());
                None
            },
            Fetched::NotHtml { elapsed } => {
                self.metrics.log.record_response(elapsed);
                None
            },
            Fetched::Broken { elapsed, reason } => {
                self.metrics.log.record_response(elapsed);
                self.metrics.log.record_html();
                self.metrics.error.record(reason.as_str());
                None
            },
            Fetched::Page { elapsed, body } => {
                self.metrics.log.record_response(elapsed);
                self.metrics.log.record_html();
                Some(body)
            },
        }
    }

    /// One round of the run: consumes the link that `next_url` gave, with the
    /// outcome of its fetch.
    ///
    /// Returns what to append to the two streams where a page was consumed.
    /// Where the page cannot be stored the run cannot go on, and nothing has
    /// changed.
    pub fn crawl(&mut self, outcome: Fetched) -> (r: Result<Option<StoredPage>, StoreError>)
        requires
            old(self).wf(),
        ensures
            final(self).wf(),
            match r {
                Ok(stored) => {
                    &&& old(self)@.crawl(outcome@) == Ok::<CrawlerView, StoreError>(final(self)@)
                    &&& match stored {
                        Some(page) => {
                            &&& old(self)@.persists(outcome@) matches Some(body)
                            &&& Some(page.compressed@) == zlib_best(body)
                            &&& page.uncompressed@ == utf8(body)
                        },
                        None => old(self)@.persists(outcome@) is None,
                    }
                },
                Err(e) => {
                    &&& old(self)@.crawl(outcome@) == Err::<CrawlerView, StoreError>(e)
                    &&& final(self)@ == old(self)@
                },
            },
            old(self)@.should_crawl() && r is Ok ==> final(self)@.crawled_count == old(
                self,
            )@.crawled_count + 1,
            outcome@.body() is None ==> r is Ok,
    {
        let ghost before = self@;
        if !self.should_crawl() {
            return Ok(None);
        }
        let stored = match &outcome {
            Fetched::Page { body, .. } => match self.repo.store(body.as_str()) {
                Ok(page) => Some(page),
                Err(e) => {
                    return Err(e);
                },
            },
            _ => None,
        };
        let ghost repo = self.repo@;
        let ghost after = before.consume(outcome@, repo);
        proof {
            assert(before.store(outcome@) == Ok::<RepositoryView, StoreError>(repo));
            lemma_crawl_wf(before, outcome@);
            lemma_word_max();
        }
        if let Some(url) = self.frontier.pop_next() {
            if let Some(body) = self.fetch_next(outcome) {
                let all_urls = parse_urls(body.as_str(), url.as_str());
                let same_domain_urls = self.same_domain_urls(&all_urls);
                proof {
                    assert(links_view(all_urls@).len() == all_urls.len());
                    assert(texts(same_domain_urls@).len() == same_domain_urls.len());
                }
                self.metrics.log.record_page(
                    body.as_str().as_bytes().len(),
                    all_urls.len(),
                    same_domain_urls.len(),
                );
                self.frontier.offer(&same_domain_urls);
            }
            self.crawled_count = self.crawled_count + 1;
            proof {
                assert(self@.metrics == after.metrics);
                assert(self@ == after);
            }
        }
        Ok(stored)
    }

    /// Ends the run: notes the lengths of the streams, the duration of the
    /// run and the number of links left waiting in the statistics.
    pub fn finish(&mut self, process_time: Elapsed)
        requires
            old(self).wf(),
        ensures
            final(self).wf(),
            final(self)@ == old(self)@.finish(process_time),
    {
        self.metrics.log.compressed_bytes = self.repo.compressed_bytes();
        self.metrics.log.uncompressed_bytes = self.repo.uncompressed_bytes();
        self.metrics.log.process_time = process_time;
        self.metrics.log.que_size_at_end = self.frontier.len();
    }

    /// The statistics of the run so far.
    pub fn metrics(&self) -> (metrics: &Metrics)
        ensures
            metrics@ == self@.metrics,
            self.wf() ==> metrics.error.wf(),
    {
        &self.metrics
    }

    /// The number of links consumed so far.
    pub fn crawled_count(&self) -> (count: usize)
        ensures
            count == self@.crawled_count,
    {
        self.crawled_count
    }

    /// The most links the run may consume.
    pub fn max_crawl(&self) -> (budget: usize)
        ensures
            budget == self@.max_crawl,
    {
        self.max_crawl
    }

    /// The domain that the run is confined to.
    pub fn seed_domain(&self) -> (domain: &String)
        ensures
            domain@ == self@.seed_domain,
    {
        &self.seed_domain
    }

    /// The number of links waiting.
    pub fn que_size(&self) -> (len: usize)
        ensures
            len == self@.frontier.queue.len(),
    {
        self.frontier.len()
    }

    /// The storage sink of the run.
    pub fn repo(&self) -> (repo: &Repository)
        ensures
            repo@ == self@.repo,
            self.wf() ==> repo.wf(),
    {
        &self.repo
    }
}

} // verus!
