//! The frontier of a run: the links waiting to be fetched, in the order of
//! their discovery, and every link the run has ever discovered.

use crate::text::texts;
use std::collections::VecDeque;
use vstd::hash_set::StringHashSet;
use vstd::prelude::*;

verus! {

/// The candidates that are new to `seen`, each at the place of its first
/// occurrence among the candidates.
pub open spec fn fresh(candidates: Seq<Seq<char>>, seen: Set<Seq<char>>) -> Seq<Seq<char>>
    decreases candidates.len(),
{
    if candidates.len() == 0 {
        Seq::empty()
    } else {
        let before = fresh(candidates.drop_last(), seen);
        let last = candidates.last();
        if seen.contains(last) || before.contains(last) {
            before
        } else {
            before.push(last)
        }
    }
}

/// What is new among some candidates is the difference between the
/// candidates and what was seen, as a set, and holds nothing twice.
pub proof fn lemma_fresh(candidates: Seq<Seq<char>>, seen: Set<Seq<char>>)
    ensures
        fresh(candidates, seen).no_duplicates(),
        fresh(candidates, seen).to_set() == candidates.to_set().difference(seen),
        fresh(candidates, seen).len() <= candidates.len(),
    decreases candidates.len(),
{
    let news = fresh(candidates, seen);
    if candidates.len() == 0 {
        assert(news.to_set() =~= candidates.to_set().difference(seen));
    } else {
        let earlier = candidates.drop_last();
        let last = candidates.last();
        let before = fresh(earlier, seen);
        lemma_fresh(earlier, seen);
        assert(candidates =~= earlier.push(last));
        earlier.lemma_push_to_set_commute(last);
        if seen.contains(last) || before.contains(last) {
            assert(before.contains(last) ==> before.to_set().contains(last));
            assert(news.to_set() =~= candidates.to_set().difference(seen));
        } else {
            before.lemma_push_to_set_commute(last);
            assert(news.to_set() =~= candidates.to_set().difference(seen));
        }
    }
}

/// The state of a frontier: the links already handed out and the links still
/// waiting, both in the order of their discovery.
pub struct FrontierView {
    pub popped: Seq<Seq<char>>,
    pub queue: Seq<Seq<char>>,
}

impl FrontierView {
    /// The frontier of a run that knows its seed and nothing else.
    pub open spec fn initial(seed: Seq<char>) -> FrontierView {
        FrontierView { popped: Seq::empty(), queue: seq![seed] }
    }

    /// Every link ever discovered, in the order of discovery.
    pub open spec fn discovered(self) -> Seq<Seq<char>> {
        self.popped + self.queue
    }

    /// The set of links ever discovered.
    pub open spec fn seen(self) -> Set<Seq<char>> {
        self.discovered().to_set()
    }

    /// No link was discovered twice.
    pub open spec fn wf(self) -> bool {
        self.discovered().no_duplicates()
    }

    /// The frontier after its first waiting link is handed out.
    pub open spec fn pop(self) -> FrontierView
        recommends
            self.queue.len() > 0,
    {
        FrontierView { popped: self.popped.push(self.queue[0]), queue: self.queue.drop_first() }
    }

    /// The frontier after some candidates are offered: those that are new
    /// join the end of the queue.
    pub open spec fn offer(self, candidates: Seq<Seq<char>>) -> FrontierView {
        FrontierView { popped: self.popped, queue: self.queue + fresh(candidates, self.seen()) }
    }

    /// The frontier after a series of offers, one batch of candidates after
    /// the other.
    pub open spec fn offer_all(self, batches: Seq<Seq<Seq<char>>>) -> FrontierView
        decreases batches.len(),
    {
        if batches.len() == 0 {
            self
        } else {
            self.offer(batches[0]).offer_all(batches.drop_first())
        }
    }
}

/// The frontier of a fresh run is well formed, and its seed is all it has seen.
pub proof fn lemma_initial(seed: Seq<char>)
    ensures
        FrontierView::initial(seed).wf(),
        FrontierView::initial(seed).seen() == set![seed],
{
    let f = FrontierView::initial(seed);
    assert(f.discovered() =~= seq![seed]);
    assert(f.seen() =~= set![seed]) by {
        assert(f.discovered()[0] == seed);
    }
}

/// Handing out a link changes neither what was discovered nor its order, so
/// a well-formed frontier stays well formed.
pub proof fn lemma_pop(frontier: FrontierView)
    requires
        frontier.queue.len() > 0,
    ensures
        frontier.pop().discovered() == frontier.discovered(),
        frontier.pop().seen() == frontier.seen(),
        frontier.wf() ==> frontier.pop().wf(),
{
    assert(frontier.pop().discovered() =~= frontier.discovered());
}

/// Offering candidates keeps a frontier well formed: what was discovered
/// stays in place, the new candidates follow it, each once, and the links
/// seen are those seen before together with the candidates.
pub proof fn lemma_offer(frontier: FrontierView, candidates: Seq<Seq<char>>)
    requires
        frontier.wf(),
    ensures
        frontier.offer(candidates).wf(),
        frontier.offer(candidates).discovered() == frontier.discovered() + fresh(
            candidates,
            frontier.seen(),
        ),
        frontier.offer(candidates).seen() == frontier.seen().union(candidates.to_set()),
{
    let news = fresh(candidates, frontier.seen());
    let after = frontier.offer(candidates);
    lemma_fresh(candidates, frontier.seen());
    assert(after.discovered() =~= frontier.discovered() + news);
    assert forall|i: int, j: int|
        0 <= i < frontier.discovered().len() && 0 <= j < news.len() implies frontier.discovered()[i]
        != news[j] by {
        assert(frontier.seen().contains(frontier.discovered()[i]));
        assert(news.to_set().contains(news[j]));
    }
    vstd::seq_lib::lemma_no_dup_in_concat(frontier.discovered(), news);
    vstd::seq_lib::seq_to_set_distributes_over_add(frontier.discovered(), news);
    assert(after.seen() =~= frontier.seen().union(candidates.to_set()));
}

/// Whatever is offered, and however often, no link is discovered twice: a
/// series of offers keeps a frontier well formed, hands nothing out, and
/// leaves what was discovered before in its place.
pub proof fn lemma_offer_all(frontier: FrontierView, batches: Seq<Seq<Seq<char>>>)
    requires
        frontier.wf(),
    ensures
        frontier.offer_all(batches).wf(),
        frontier.offer_all(batches).popped == frontier.popped,
        frontier.discovered().is_prefix_of(frontier.offer_all(batches).discovered()),
        frontier.seen().subset_of(frontier.offer_all(batches).seen()),
    decreases batches.len(),
{
    if batches.len() > 0 {
        lemma_offer(frontier, batches[0]);
        lemma_offer_all(frontier.offer(batches[0]), batches.drop_first());
    }
}

/// In a well-formed frontier no link was handed out twice, no link waits
/// twice, and no link that was handed out waits again.
pub proof fn lemma_discovered_once(frontier: FrontierView)
    requires
        frontier.wf(),
    ensures
        frontier.popped.no_duplicates(),
        frontier.queue.no_duplicates(),
        forall|i: int, j: int|
            0 <= i < frontier.popped.len() && 0 <= j < frontier.queue.len() ==> frontier.popped[i]
                != frontier.queue[j],
{
    let all = frontier.discovered();
    let n = frontier.popped.len() as int;
    assert forall|i: int, j: int|
        0 <= i < frontier.popped.len() && 0 <= j < frontier.popped.len() && i
            != j implies frontier.popped[i] != frontier.popped[j] by {
        assert(all[i] == frontier.popped[i] && all[j] == frontier.popped[j]);
    }
    assert forall|i: int, j: int|
        0 <= i < frontier.queue.len() && 0 <= j < frontier.queue.len() && i
            != j implies frontier.queue[i] != frontier.queue[j] by {
        assert(all[n + i] == frontier.queue[i] && all[n + j] == frontier.queue[j]);
    }
    assert forall|i: int, j: int|
        0 <= i < frontier.popped.len() && 0 <= j < frontier.queue.len() implies frontier.popped[i]
        != frontier.queue[j] by {
        assert(all[i] == frontier.popped[i] && all[n + j] == frontier.queue[j]);
    }
}

/// The work queue of a run together with the set of every link it has seen.
pub struct Frontier {
    que: VecDeque<String>,
    uniq_urls: StringHashSet,
    popped: Ghost<Seq<Seq<char>>>,
}

impl View for Frontier {
    type V = FrontierView;

    closed spec fn view(&self) -> FrontierView {
        FrontierView { popped: self.popped@, queue: texts(self.que@) }
    }
}

impl Frontier {
    /// The set of links seen is kept.
    pub closed spec fn remembers(&self) -> bool {
        self.uniq_urls@ == self@.seen()
    }

    /// No link was discovered twice, and the set of links seen is kept.
    pub open spec fn wf(&self) -> bool {
        &&& self@.wf()
        &&& self.remembers()
    }

    /// The frontier of a run that starts at `seed`.
    pub fn new(seed: &str) -> (frontier: Frontier)
        ensures
            frontier.wf(),
            frontier@ == FrontierView::initial(seed@),
    {
        let mut que: VecDeque<String> = VecDeque::new();
        que.push_back(seed.to_owned());
        let mut uniq_urls = StringHashSet::new();
        uniq_urls.insert(seed.to_owned());
        let frontier = Frontier { que, uniq_urls, popped: Ghost(Seq::empty()) };
        proof {
            lemma_initial(seed@);
            assert(texts(frontier.que@) =~= seq![seed@]);
            assert(frontier.uniq_urls@ =~= set![seed@]);
        }
        frontier
    }

    /// The number of links waiting.
    pub fn len(&self) -> (len: usize)
        ensures
            len == self@.queue.len(),
    {
        self.que.len()
    }

    /// Whether no link is waiting.
    pub fn is_empty(&self) -> (empty: bool)
        ensures
            empty == (self@.queue.len() == 0),
    {
        self.que.len() == 0
    }

    /// Whether a link was ever discovered.
    pub fn contains(&self, url: &str) -> (known: bool)
        requires
            self.wf(),
        ensures
            known == self@.seen().contains(url@),
    {
        self.uniq_urls.contains(url)
    }

    /// The link that is handed out next, if one is waiting.
    pub fn peek(&self) -> (next: Option<&String>)
        ensures
            match next {
                Some(url) => self@.queue.len() > 0 && url@ == self@.queue[0],
                None => self@.queue.len() == 0,
            },
    {
        if self.que.len() == 0 {
            None
        } else {
            Some(&self.que[0])
        }
    }

    /// Hands out the link that has waited longest. `None` says that no link
    /// is waiting, and then nothing changes.
    pub fn pop_next(&mut self) -> (next: Option<String>)
        requires
            old(self).wf(),
        ensures
            final(self).wf(),
            match next {
                Some(url) => {
                    &&& old(self)@.queue.len() > 0
                    &&& url@ == old(self)@.queue[0]
                    &&& final(self)@ == old(self)@.pop()
                },
                None => old(self)@.queue.len() == 0 && final(self)@ == old(self)@,
            },
    {
        let ghost before = self@;
        let next = self.que.pop_front();
        if let Some(url) = &next {
            proof {
                self.popped@ = self.popped@.push(url@);
                assert(texts(self.que@) =~= before.queue.drop_first());
                lemma_pop(before);
            }
        }
        next
    }

    /// Offers candidates: each one that was never discovered before joins the
    /// end of the queue, once, in the order of the candidates. Returns those
    /// that joined.
    pub fn offer(&mut self, candidates: &Vec<String>) -> (added: Vec<String>)
        requires
            old(self).wf(),
        ensures
            final(self).wf(),
            final(self)@ == old(self)@.offer(texts(candidates@)),
            texts(added@) == fresh(texts(candidates@), old(self)@.seen()),
    {
        let ghost before = self@;
        let ghost all = texts(candidates@);
        let mut added: Vec<String> = Vec::new();
        proof {
            assert(texts(added@) =~= Seq::<Seq<char>>::empty());
            assert(before.queue + Seq::<Seq<char>>::empty() =~= before.queue);
        }
        for i in 0..candidates.len()
            invariant
                all == texts(candidates@),
                before.wf(),
                self.popped@ == before.popped,
                texts(added@) == fresh(all.take(i as int), before.seen()),
                texts(self.que@) == before.queue + texts(added@),
                self.uniq_urls@ == before.seen().union(all.take(i as int).to_set()),
        {
            let url = &candidates[i];
            proof {
                let earlier = all.take(i as int);
                assert(all.take(i + 1).drop_last() =~= earlier);
                assert(all.take(i + 1).last() == url@);
                assert(all.take(i + 1) =~= earlier.push(url@));
                earlier.lemma_push_to_set_commute(url@);
                lemma_fresh(earlier, before.seen());
                assert(fresh(earlier, before.seen()).contains(url@) <==> fresh(
                    earlier,
                    before.seen(),
                ).to_set().contains(url@));
            }
            if self.uniq_urls.insert(url.clone()) {
                let ghost queued = texts(self.que@);
                let ghost news = texts(added@);
                self.que.push_back(url.clone());
                added.push(url.clone());
                proof {
                    assert(texts(self.que@) =~= queued.push(url@));
                    assert(texts(added@) =~= news.push(url@));
                    assert(queued.push(url@) =~= before.queue + news.push(url@));
                }
            }
            proof {
                assert(self.uniq_urls@ =~= before.seen().union(all.take(i + 1).to_set()));
            }
        }
        proof {
            assert(all.take(candidates.len() as int) =~= all);
            lemma_offer(before, all);
        }
        added
    }
}

} // verus!
