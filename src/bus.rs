//! The event bus: subscriptions by tag, per-tag publish counters, and the log
//! of published events that the caller dispatches to its handlers.
use crate::error::TradingError;
use crate::event::{tag_name, tag_text, Event, TAG_COUNT};
use vstd::prelude::*;

verus! {

/// Subscribers are numbered in the order they subscribed; publishing an event
/// yields the numbers of those registered under its tag, in that order.
#[derive(Debug)]
pub struct EventBus {
    subscribers: Vec<String>,
    counts: Vec<u64>,
    log: Vec<Event>,
}

/// The subscribers, by number, whose tag is `tag`, in subscription order.
pub open spec fn matching(subs: Seq<Seq<char>>, tag: Seq<char>) -> Seq<usize>
    decreases subs.len(),
{
    if subs.len() == 0 {
        Seq::empty()
    } else {
        let rest = matching(subs.drop_last(), tag);
        if subs.last() == tag {
            rest.push((subs.len() - 1) as usize)
        } else {
            rest
        }
    }
}

/// The `(tag, count)` pairs of the first `n` tags whose count is positive.
pub open spec fn snapshot(counts: Seq<u64>, n: int) -> Seq<(Seq<char>, u64)>
    decreases n,
{
    if n <= 0 {
        Seq::empty()
    } else {
        let rest = snapshot(counts, n - 1);
        if counts[n - 1] > 0 {
            rest.push((tag_name(n - 1), counts[n - 1]))
        } else {
            rest
        }
    }
}

impl EventBus {
    /// The tag each subscriber registered under.
    pub closed spec fn subscriptions(&self) -> Seq<Seq<char>> {
        self.subscribers@.map_values(|s: String| s@)
    }

    /// How many events of each tag were published.
    pub closed spec fn counters(&self) -> Seq<u64> {
        self.counts@
    }

    /// Every published event, oldest first.
    pub closed spec fn published(&self) -> Seq<Event> {
        self.log@
    }

    pub open spec fn wf(&self) -> bool {
        self.counters().len() == TAG_COUNT
    }

    pub fn new() -> (r: EventBus)
        ensures
            r.wf(),
            r.subscriptions().len() == 0,
            r.counters() == Seq::new(TAG_COUNT as nat, |i: int| 0u64),
            r.published().len() == 0,
    {
        let mut counts: Vec<u64> = Vec::new();
        let mut i: usize = 0;
        while i < TAG_COUNT
            invariant
                i <= TAG_COUNT,
                counts@ == Seq::new(i as nat, |j: int| 0u64),
            decreases TAG_COUNT - i,
        {
            counts.push(0);
            i = i + 1;
            assert(counts@ =~= Seq::new(i as nat, |j: int| 0u64));
        }
        let r = EventBus { subscribers: Vec::new(), counts, log: Vec::new() };
        assert(r.subscriptions() =~= Seq::<Seq<char>>::empty());
        r
    }

    /// Registers a subscriber under `event_type`; returns its number.
    pub fn subscribe(&mut self, event_type: &str) -> (r: usize)
        requires
            old(self).wf(),
        ensures
            final(self).wf(),
            r == old(self).subscriptions().len(),
            final(self).subscriptions() == old(self).subscriptions().push(event_type@),
            final(self).counters() == old(self).counters(),
            final(self).published() == old(self).published(),
    {
        let r = self.subscribers.len();
        self.subscribers.push(event_type.to_owned());
        proof {
            assert(self.subscriptions() =~= old(self).subscriptions().push(event_type@));
        }
        r
    }

    /// Counts the event under its tag, logs it, and returns the subscribers to
    /// call with it, in subscription order. A counter that would pass `u64::MAX`
    /// fails the publish and leaves the bus as it was.
    pub fn publish(&mut self, event: Event) -> (r: Result<Vec<usize>, TradingError>)
        requires
            old(self).wf(),
        ensures
            final(self).wf(),
            final(self).subscriptions() == old(self).subscriptions(),
            r is Ok <==> old(self).counters()[event.tag()] < u64::MAX,
            r matches Err(e) ==> e is EventBus && *final(self) == *old(self),
            r matches Ok(ids) ==> ids@ == matching(old(self).subscriptions(), tag_name(event.tag()))
                && final(self).counters() == old(self).counters().update(
                event.tag(),
                (old(self).counters()[event.tag()] + 1) as u64,
            ) && final(self).published() == old(self).published().push(event),
    {
        let t = event.tag_index();
        let c = self.counts[t];
        if c == u64::MAX {
            return Err(TradingError::EventBus("event counter overflow".to_owned()));
        }
        self.counts.set(t, c + 1);
        let tag = tag_text(t).to_owned();
        let ids = self.subscribers_of(&tag);
        self.log.push(event);
        Ok(ids)
    }

    fn subscribers_of(&self, tag: &String) -> (r: Vec<usize>)
        ensures
            r@ == matching(self.subscriptions(), tag@),
    {
        let mut ids: Vec<usize> = Vec::new();
        let mut i: usize = 0;
        while i < self.subscribers.len()
            invariant
                i <= self.subscribers@.len(),
                ids@ == matching(self.subscriptions().subrange(0, i as int), tag@),
            decreases self.subscribers@.len() - i,
        {
            proof {
                let s = self.subscriptions().subrange(0, i + 1);
                assert(s.drop_last() =~= self.subscriptions().subrange(0, i as int));
            }
            if self.subscribers[i] == *tag {
                ids.push(i);
            }
            i = i + 1;
        }
        assert(self.subscriptions().subrange(0, i as int) =~= self.subscriptions());
        ids
    }

    /// Every subscriber, in subscription order, whatever its tag.
    pub fn publish_all(&mut self, event: Event) -> (r: Result<Vec<usize>, TradingError>)
        requires
            old(self).wf(),
        ensures
            final(self).wf(),
            r matches Ok(ids) ==> ids@.len() == old(self).subscriptions().len() && forall|i: int|
                0 <= i < ids@.len() ==> ids@[i] == i,
            r is Ok,
            final(self).subscriptions() == old(self).subscriptions(),
            final(self).counters() == old(self).counters(),
            final(self).published() == old(self).published().push(event),
    {
        let mut ids: Vec<usize> = Vec::new();
        let mut i: usize = 0;
        while i < self.subscribers.len()
            invariant
                i <= self.subscribers@.len(),
                ids@.len() == i,
                forall|j: int| 0 <= j < i ==> ids@[j] == j,
            decreases self.subscribers@.len() - i,
        {
            ids.push(i);
            i = i + 1;
        }
        self.log.push(event);
        Ok(ids)
    }

    /// How many events of the tag `event_type` were published.
    pub fn count(&self, event_type: &str) -> (r: u64)
        requires
            self.wf(),
        ensures
            (exists|i: int| 0 <= i < TAG_COUNT && tag_name(i) == event_type@) ==> r
                == self.counters()[choose|i: int| 0 <= i < TAG_COUNT && tag_name(i) == event_type@],
            (forall|i: int| 0 <= i < TAG_COUNT ==> tag_name(i) != event_type@) ==> r == 0,
    {
        let key = event_type.to_owned();
        let mut i: usize = 0;
        while i < TAG_COUNT
            invariant
                self.wf(),
                i <= TAG_COUNT,
                key@ == event_type@,
                forall|j: int| 0 <= j < i ==> tag_name(j) != event_type@,
            decreases TAG_COUNT - i,
        {
            if tag_text(i).to_owned() == key {
                proof {
                    lemma_tag_names_distinct();
                }
                return self.counts[i];
            }
            i = i + 1;
        }
        0
    }

    /// The counters of the tags published at least once, as `(tag, count)`
    /// pairs in tag order.
    pub fn metrics_snapshot(&self) -> (r: Vec<(String, u64)>)
        requires
            self.wf(),
        ensures
            r@.map_values(|p: (String, u64)| (p.0@, p.1)) == snapshot(self.counters(), TAG_COUNT as int),
    {
        let mut out: Vec<(String, u64)> = Vec::new();
        let mut i: usize = 0;
        while i < TAG_COUNT
            invariant
                self.wf(),
                i <= TAG_COUNT,
                out@.map_values(|p: (String, u64)| (p.0@, p.1)) == snapshot(self.counters(), i as int),
            decreases TAG_COUNT - i,
        {
            let c = self.counts[i];
            if c > 0 {
                let ghost before = out@;
                out.push((tag_text(i).to_owned(), c));
                assert(out@.map_values(|p: (String, u64)| (p.0@, p.1)) =~= before.map_values(
                    |p: (String, u64)| (p.0@, p.1),
                ).push((tag_name(i as int), c)));
            }
            i = i + 1;
        }
        out
    }

    /// The events published so far, oldest first.
    pub fn events(&self) -> (r: &Vec<Event>)
        ensures
            r@ == self.published(),
    {
        &self.log
    }

    /// Hands out the published events, oldest first, and forgets them.
    pub fn drain_events(&mut self) -> (r: Vec<Event>)
        requires
            old(self).wf(),
        ensures
            final(self).wf(),
            r@ == old(self).published(),
            final(self).published().len() == 0,
            final(self).subscriptions() == old(self).subscriptions(),
            final(self).counters() == old(self).counters(),
    {
        let mut out: Vec<Event> = Vec::new();
        std::mem::swap(&mut out, &mut self.log);
        out
    }
}

proof fn lemma_tag_names_distinct()
    ensures
        forall|i: int, j: int|
            0 <= i < TAG_COUNT && 0 <= j < TAG_COUNT && i != j ==> tag_name(i) != tag_name(j),
{
    reveal_strlit("PriceUpdated");
    reveal_strlit("SignalGenerated");
    reveal_strlit("TradeExecuted");
    reveal_strlit("TradeClosed");
    reveal_strlit("OrderSubmitted");
    reveal_strlit("OrderFilled");
    reveal_strlit("OrderCancelled");
    reveal_strlit("OrderRejected");
    reveal_strlit("RiskHalt");
    reveal_strlit("Error");
    assert forall|i: int, j: int|
        0 <= i < TAG_COUNT && 0 <= j < TAG_COUNT && i != j implies tag_name(i) != tag_name(j) by {
        assert(tag_name(i).len() != tag_name(j).len() || tag_name(i)[0] != tag_name(j)[0]
            || tag_name(i)[5] != tag_name(j)[5]);
    }
}

/// After `n` successful publishes of events with tag `t` (and none of other
/// tags), that tag's counter has grown by exactly `n`.
pub proof fn lemma_counter_law(counts: Seq<Seq<u64>>, t: int)
    requires
        counts.len() > 0,
        0 <= t < TAG_COUNT,
        forall|k: int|
            0 <= k < counts.len() ==> (#[trigger] counts[k]).len() == TAG_COUNT,
        forall|k: int|
            0 <= k < counts.len() - 1 ==> #[trigger] counts[k + 1] == counts[k].update(
                t,
                (counts[k][t] + 1) as u64,
            ) && counts[k][t] < u64::MAX,
    ensures
        counts.last()[t] == counts[0][t] + counts.len() - 1,
    decreases counts.len(),
{
    if counts.len() > 1 {
        let c2 = counts.drop_last();
        assert forall|k: int| 0 <= k < c2.len() - 1 implies #[trigger] c2[k + 1] == c2[k].update(
            t,
            (c2[k][t] + 1) as u64,
        ) && c2[k][t] < u64::MAX by {
            assert(c2[k + 1] == counts[k + 1]);
            assert(c2[k] == counts[k]);
        }
        lemma_counter_law(c2, t);
        let k = counts.len() - 2;
        assert(counts[k + 1] == counts[k].update(t, (counts[k][t] + 1) as u64));
        assert(c2.last() == counts[k]);
    }
}

} // verus!
