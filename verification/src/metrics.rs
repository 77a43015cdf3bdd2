//! Run statistics: counters, timers and the tally of failures by message.

use crate::text::texts;
use crate::timer::Elapsed;
use crate::timer::TimeSum;
use vstd::hash_map::StringHashMap;
use vstd::prelude::*;

verus! {

/// The most a machine word counts: no page holds more links or bytes, and no
/// run has more rounds.
pub open spec fn word_max() -> nat {
    0xFFFF_FFFF_FFFF_FFFF
}

/// The statistics of a run.
pub struct Metrics {
    pub log: LogMetrics,
    pub error: ErrorMetrics,
}

/// The mathematical value of [`Metrics`].
pub struct MetricsView {
    pub log: LogView,
    pub error: ErrorTally,
}

impl View for Metrics {
    type V = MetricsView;

    open spec fn view(&self) -> MetricsView {
        MetricsView { log: self.log@, error: self.error@ }
    }
}

impl Metrics {
    /// The statistics of a run that has not fetched anything yet.
    pub fn new() -> (metrics: Metrics)
        ensures
            metrics.error.wf(),
            metrics.log.within(0),
            metrics@ == MetricsView::initial(),
    {
        Metrics { log: LogMetrics::new(), error: ErrorMetrics::new() }
    }
}

impl MetricsView {
    /// The statistics of a run that has not fetched anything yet.
    pub open spec fn initial() -> MetricsView {
        MetricsView { log: LogView::initial(), error: ErrorTally::empty() }
    }
}

/// Counters and timers of a run.
#[derive(Clone, Copy, Debug, PartialEq, Eq, Structural)]
pub struct LogMetrics {
    /// Links found on the pages fetched.
    pub total_urls: u128,
    /// Links found that lie on the domain of the run.
    pub same_domains: u128,
    /// Links found that lie on other domains.
    pub other_domains: u128,
    /// Responses that were HTML documents.
    pub total_html_files: usize,
    /// Length of the compressed stream at the end of the run.
    pub compressed_bytes: u64,
    /// Length of the raw stream at the end of the run.
    pub uncompressed_bytes: u64,
    /// Bytes of page text received.
    pub downloaded_bytes: u128,
    /// Requests that were answered.
    pub fetch_count: usize,
    /// Duration of the whole run.
    pub process_time: Elapsed,
    /// Time spent waiting for responses.
    pub download_time: TimeSum,
    /// Links still waiting when the run ended.
    pub que_size_at_end: usize,
}

/// The mathematical value of [`LogMetrics`]: counts, and times in nanoseconds.
pub struct LogView {
    pub total_urls: nat,
    pub same_domains: nat,
    pub other_domains: nat,
    pub total_html_files: nat,
    pub compressed_bytes: nat,
    pub uncompressed_bytes: nat,
    pub downloaded_bytes: nat,
    pub fetch_count: nat,
    pub process_time: nat,
    pub download_time: nat,
    pub que_size_at_end: nat,
}

impl View for LogMetrics {
    type V = LogView;

    open spec fn view(&self) -> LogView {
        LogView {
            total_urls: self.total_urls as nat,
            same_domains: self.same_domains as nat,
            other_domains: self.other_domains as nat,
            total_html_files: self.total_html_files as nat,
            compressed_bytes: self.compressed_bytes as nat,
            uncompressed_bytes: self.uncompressed_bytes as nat,
            downloaded_bytes: self.downloaded_bytes as nat,
            fetch_count: self.fetch_count as nat,
            process_time: self.process_time.total_nanos(),
            download_time: self.download_time.total_nanos(),
            que_size_at_end: self.que_size_at_end as nat,
        }
    }
}

impl LogView {
    /// The counters of a run that has not fetched anything yet.
    pub open spec fn initial() -> LogView {
        LogView {
            total_urls: 0,
            same_domains: 0,
            other_domains: 0,
            total_html_files: 0,
            compressed_bytes: 0,
            uncompressed_bytes: 0,
            downloaded_bytes: 0,
            fetch_count: 0,
            process_time: 0,
            download_time: 0,
            que_size_at_end: 0,
        }
    }

    /// What holds of the counters after `rounds` consumed links: every link
    /// found is on the domain or off it, a response precedes every page, and
    /// a consumed link every response.
    pub open spec fn consistent(self, rounds: nat) -> bool {
        &&& self.total_urls == self.same_domains + self.other_domains
        &&& self.total_html_files <= self.fetch_count
        &&& self.fetch_count <= rounds
    }

    /// The counters after one more request was answered, `elapsed` after it
    /// was sent.
    pub open spec fn answered(self, elapsed: Elapsed) -> LogView {
        LogView {
            fetch_count: self.fetch_count + 1,
            download_time: self.download_time + elapsed.total_nanos(),
            ..self
        }
    }

    /// The counters after one more response was an HTML document.
    pub open spec fn html(self) -> LogView {
        LogView { total_html_files: self.total_html_files + 1, ..self }
    }

    /// The counters after a page of `bytes` bytes was received that holds
    /// `links` links, `same` of them on the domain of the run.
    pub open spec fn page(self, bytes: nat, links: nat, same: nat) -> LogView
        recommends
            same <= links,
    {
        LogView {
            downloaded_bytes: self.downloaded_bytes + bytes,
            total_urls: self.total_urls + links,
            same_domains: self.same_domains + same,
            other_domains: (self.other_domains + links - same) as nat,
            ..self
        }
    }
}

impl LogMetrics {
    /// The sums stay within what `rounds` consumed links can add up to, so
    /// that one more round overflows none of them.
    pub open spec fn within(self, rounds: nat) -> bool {
        &&& self@.consistent(rounds)
        &&& self.total_urls <= rounds * word_max()
        &&& self.downloaded_bytes <= rounds * word_max()
        &&& self.download_time.secs <= self.fetch_count * 0xFFFF_FFFF_FFFF_FFFF
        &&& self.download_time.nanos <= self.fetch_count * 0xFFFF_FFFF
    }

    /// The counters of a run that has not fetched anything yet.
    pub fn new() -> (log: LogMetrics)
        ensures
            log@ == LogView::initial(),
            log.within(0),
    {
        LogMetrics {
            total_urls: 0,
            same_domains: 0,
            other_domains: 0,
            total_html_files: 0,
            compressed_bytes: 0,
            uncompressed_bytes: 0,
            downloaded_bytes: 0,
            fetch_count: 0,
            process_time: Elapsed::zero(),
            download_time: TimeSum::zero(),
            que_size_at_end: 0,
        }
    }

    /// Counts an answered request and the time it took.
    pub fn record_response(&mut self, elapsed: Elapsed)
        requires
            old(self).fetch_count < usize::MAX,
            old(self).download_time.secs + elapsed.secs <= u128::MAX,
            old(self).download_time.nanos + elapsed.nanos <= u128::MAX,
        ensures
            final(self)@ == old(self)@.answered(elapsed),
            *final(self) == (LogMetrics {
                fetch_count: (old(self).fetch_count + 1) as usize,
                download_time: old(self).download_time.with(elapsed),
                ..*old(self)
            }),
    {
        self.fetch_count = self.fetch_count + 1;
        self.download_time = self.download_time.plus(elapsed);
    }

    /// Counts a response that was an HTML document.
    pub fn record_html(&mut self)
        requires
            old(self).total_html_files < usize::MAX,
        ensures
            final(self)@ == old(self)@.html(),
            *final(self) == (LogMetrics {
                total_html_files: (old(self).total_html_files + 1) as usize,
                ..*old(self)
            }),
    {
        self.total_html_files = self.total_html_files + 1;
    }

    /// Counts the bytes of a page and the links found in it.
    pub fn record_page(&mut self, bytes: usize, links: usize, same: usize)
        requires
            same <= links,
            old(self).downloaded_bytes + bytes <= u128::MAX,
            old(self).total_urls + links <= u128::MAX,
            old(self).same_domains + same <= u128::MAX,
            old(self).other_domains + links - same <= u128::MAX,
        ensures
            final(self)@ == old(self)@.page(bytes as nat, links as nat, same as nat),
            *final(self) == (LogMetrics {
                downloaded_bytes: (old(self).downloaded_bytes + bytes) as u128,
                total_urls: (old(self).total_urls + links) as u128,
                same_domains: (old(self).same_domains + same) as u128,
                other_domains: (old(self).other_domains + links - same) as u128,
                ..*old(self)
            }),
    {
        self.downloaded_bytes = self.downloaded_bytes + bytes as u128;
        self.total_urls = self.total_urls + links as u128;
        self.same_domains = self.same_domains + same as u128;
        self.other_domains = self.other_domains + (links - same) as u128;
    }
}

/// How often each failure message occurred, and the messages in the order in
/// which each occurred first.
pub struct ErrorTally {
    pub counts: Map<Seq<char>, nat>,
    pub order: Seq<Seq<char>>,
}

impl ErrorTally {
    /// The tally of no failures.
    pub open spec fn empty() -> ErrorTally {
        ErrorTally { counts: Map::empty(), order: Seq::empty() }
    }

    /// How often a message occurred.
    pub open spec fn count(self, message: Seq<char>) -> nat {
        if self.counts.contains_key(message) {
            self.counts[message]
        } else {
            0
        }
    }

    /// The tally after one more occurrence of a message.
    pub open spec fn record(self, message: Seq<char>) -> ErrorTally {
        ErrorTally {
            counts: self.counts.insert(message, self.count(message) + 1),
            order: if self.counts.contains_key(message) {
                self.order
            } else {
                self.order.push(message)
            },
        }
    }

    /// The messages listed are those counted, each listed once and counted at
    /// least once.
    pub open spec fn wf(self) -> bool {
        &&& self.order.no_duplicates()
        &&& self.order.to_set() == self.counts.dom()
        &&& forall|m: Seq<char>| #[trigger] self.counts.contains_key(m) ==> self.counts[m] >= 1
    }

    /// No message occurred more than `bound` times.
    pub open spec fn at_most(self, bound: nat) -> bool {
        forall|m: Seq<char>| #[trigger] self.counts.contains_key(m) ==> self.counts[m] <= bound
    }
}

/// Recording a failure keeps a tally well formed, raises the count of its
/// message by one and leaves every other count as it was.
pub proof fn lemma_record(tally: ErrorTally, message: Seq<char>)
    requires
        tally.wf(),
    ensures
        tally.record(message).wf(),
        tally.record(message).count(message) == tally.count(message) + 1,
        forall|other: Seq<char>|
            other != message ==> tally.record(message).count(other) == tally.count(other),
{
    let after = tally.record(message);
    if tally.counts.contains_key(message) {
        assert(tally.order.to_set().contains(message));
        assert(after.counts.dom() =~= tally.counts.dom());
    } else {
        assert(!tally.order.to_set().contains(message));
        tally.order.lemma_push_to_set_commute(message);
        assert(after.counts.dom() =~= tally.counts.dom().insert(message));
    }
}

/// Recording a failure raises no count beyond one more than the bound that
/// held before.
pub proof fn lemma_record_at_most(tally: ErrorTally, message: Seq<char>, bound: nat)
    requires
        tally.at_most(bound),
    ensures
        tally.record(message).at_most(bound + 1),
{
}

/// The tally of failures of a run, by message.
pub struct ErrorMetrics {
    errors: StringHashMap<usize>,
    messages: Vec<String>,
}

impl View for ErrorMetrics {
    type V = ErrorTally;

    closed spec fn view(&self) -> ErrorTally {
        ErrorTally {
            counts: self.errors@.map_values(|count: usize| count as nat),
            order: texts(self.messages@),
        }
    }
}

impl ErrorMetrics {
    /// The tally is well formed.
    pub open spec fn wf(&self) -> bool {
        self@.wf()
    }

    /// The tally of no failures.
    pub fn new() -> (tally: ErrorMetrics)
        ensures
            tally.wf(),
            tally@ == ErrorTally::empty(),
    {
        let tally = ErrorMetrics { errors: StringHashMap::new(), messages: Vec::new() };
        proof {
            assert(tally@.order =~= Seq::<Seq<char>>::empty());
            assert(tally@.counts =~= Map::<Seq<char>, nat>::empty());
            assert(tally@.order.to_set() =~= tally@.counts.dom());
        }
        tally
    }

    /// Counts one more occurrence of a failure message.
    pub fn record(&mut self, message: &str)
        requires
            old(self).wf(),
            old(self)@.count(message@) < usize::MAX,
        ensures
            final(self).wf(),
            final(self)@ == old(self)@.record(message@),
    {
        let ghost before = self@;
        match self.errors.get(message) {
            Some(count) => {
                let next: usize = *count + 1;
                self.errors.insert(message.to_owned(), next);
            },
            None => {
                self.errors.insert(message.to_owned(), 1);
                self.messages.push(message.to_owned());
                proof {
                    assert(texts(self.messages@) =~= before.order.push(message@));
                }
            },
        }
        proof {
            lemma_record(before, message@);
            assert(self@.counts =~= before.record(message@).counts);
        }
    }

    /// How often a failure message occurred.
    pub fn count(&self, message: &str) -> (count: usize)
        ensures
            count == self@.count(message@),
    {
        match self.errors.get(message) {
            Some(count) => *count,
            None => 0,
        }
    }

    /// The number of distinct failure messages.
    pub fn len(&self) -> (len: usize)
        ensures
            len == self@.order.len(),
    {
        proof {
            assert(texts(self.messages@).len() == self.messages@.len());
        }
        self.messages.len()
    }

    /// The distinct failure messages, in the order in which each occurred
    /// first.
    pub fn messages(&self) -> (messages: &Vec<String>)
        ensures
            texts(messages@) == self@.order,
    {
        &self.messages
    }
}

} // verus!
