//! Coordination of many independent collectors keyed by subject name, and
//! the scripted multi-step order lifecycle used to generate correlated
//! synthetic events.
//!
//! A wait on a subject that was never registered fails with
//! [`EventError::NoCollector`][crate::events::EventError] — a
//! programming-contract violation, reported immediately and never retried.

use vstd::prelude::*;

use crate::events::EventCollector;
use crate::events::EventError;
use crate::events::EventMessage;
use crate::events::EventModel;
use crate::events::WaitStep;

verus! {

/// Index of the first pair whose subject is `s`, or -1.
spec fn spec_find(pairs: Seq<(String, EventCollector)>, s: Seq<char>) -> int
    decreases pairs.len(),
{
    if pairs.len() == 0 {
        -1
    } else if pairs[0].0@ == s {
        0
    } else {
        let r = spec_find(pairs.drop_first(), s);
        if r < 0 {
            -1
        } else {
            r + 1
        }
    }
}

proof fn lemma_find_bounds(pairs: Seq<(String, EventCollector)>, s: Seq<char>)
    ensures
        -1 <= spec_find(pairs, s) < pairs.len(),
        spec_find(pairs, s) >= 0 ==> pairs[spec_find(pairs, s)].0@ == s,
        spec_find(pairs, s) >= 0 ==> forall|j: int|
            0 <= j < spec_find(pairs, s) ==> (#[trigger] pairs[j]).0@ != s,
        spec_find(pairs, s) == -1 ==> forall|j: int|
            0 <= j < pairs.len() ==> (#[trigger] pairs[j]).0@ != s,
    decreases pairs.len(),
{
    if pairs.len() > 0 && pairs[0].0@ != s {
        lemma_find_bounds(pairs.drop_first(), s);
        assert(forall|j: int|
            1 <= j < pairs.len() ==> (#[trigger] pairs[j]) == pairs.drop_first()[j - 1]);
    }
}

proof fn lemma_find_first(pairs: Seq<(String, EventCollector)>, s: Seq<char>, i: int)
    requires
        0 <= i < pairs.len(),
        pairs[i].0@ == s,
        forall|j: int| 0 <= j < i ==> (#[trigger] pairs[j]).0@ != s,
    ensures
        spec_find(pairs, s) == i,
    decreases pairs.len(),
{
    if i > 0 {
        assert(forall|j: int|
            1 <= j < pairs.len() ==> (#[trigger] pairs.drop_first()[j - 1]) == pairs[j]);
        lemma_find_first(pairs.drop_first(), s, i - 1);
    }
}

/// Two pair sequences with the same subjects in the same places are
/// searched identically.
proof fn lemma_find_same_subjects(
    p1: Seq<(String, EventCollector)>,
    p2: Seq<(String, EventCollector)>,
    s: Seq<char>,
)
    requires
        p1.len() == p2.len(),
        forall|j: int| 0 <= j < p1.len() ==> (#[trigger] p1[j]).0@ == (#[trigger] p2[j]).0@,
    ensures
        spec_find(p1, s) == spec_find(p2, s),
    decreases p1.len(),
{
    if p1.len() > 0 {
        assert(forall|j: int|
            0 <= j < p1.len() - 1 ==> (#[trigger] p1.drop_first()[j]) == p1[j + 1]);
        assert(forall|j: int|
            0 <= j < p2.len() - 1 ==> (#[trigger] p2.drop_first()[j]) == p2[j + 1]);
        lemma_find_same_subjects(p1.drop_first(), p2.drop_first(), s);
    }
}

/// Manages N independent collectors keyed by subject name (a unique key:
/// registering a subject again replaces its collector with a fresh one),
/// and offers named waits that delegate to the matching collector.
pub struct EventTestHelper {
    collectors: Vec<(String, EventCollector)>,
}

impl EventTestHelper {
    /// Whether a collector for subject `s` was registered.
    pub closed spec fn has_collector(&self, s: Seq<char>) -> bool {
        spec_find(self.collectors@, s) >= 0
    }

    spec fn entry(&self, s: Seq<char>) -> EventCollector
        recommends
            self.has_collector(s),
    {
        self.collectors@[spec_find(self.collectors@, s)].1
    }

    /// Buffered, unconsumed messages of subject `s` (empty if never
    /// registered).
    pub closed spec fn pending_of(&self, s: Seq<char>) -> Seq<EventModel> {
        if self.has_collector(s) {
            self.entry(s).pending_model()
        } else {
            Seq::empty()
        }
    }

    /// Consumed messages of subject `s`, in consumption order.
    pub closed spec fn collected_of(&self, s: Seq<char>) -> Seq<EventModel> {
        if self.has_collector(s) {
            self.entry(s).collected_model()
        } else {
            Seq::empty()
        }
    }

    /// Whether subject `s`'s stream was closed.
    pub closed spec fn closed_of(&self, s: Seq<char>) -> bool {
        if self.has_collector(s) {
            self.entry(s).is_closed()
        } else {
            false
        }
    }

    pub fn new() -> (h: EventTestHelper)
        ensures
            forall|s: Seq<char>| !(#[trigger] h.has_collector(s)),
    {
        let h = EventTestHelper { collectors: Vec::new() };
        proof {
            assert forall|s: Seq<char>| !(#[trigger] h.has_collector(s)) by {
                lemma_find_bounds(h.collectors@, s);
            }
        }
        h
    }

    fn find(&self, subject: &str) -> (r: Option<usize>)
        ensures
            match r {
                Some(k) => k < self.collectors@.len() && spec_find(self.collectors@, subject@)
                    == k,
                None => spec_find(self.collectors@, subject@) == -1,
            },
    {
        let mut i: usize = 0;
        while i < self.collectors.len()
            invariant
                0 <= i <= self.collectors@.len(),
                forall|j: int| 0 <= j < i ==> (#[trigger] self.collectors@[j]).0@ != subject@,
            decreases self.collectors@.len() - i,
        {
            if crate::strnum::str_eq(self.collectors[i].0.as_str(), subject) {
                proof {
                    lemma_find_first(self.collectors@, subject@, i as int);
                }
                return Some(i);
            }
            i = i + 1;
        }
        proof {
            lemma_find_bounds(self.collectors@, subject@);
        }
        None
    }

    /// Registers a subject: a fresh, empty, open collector now owns its
    /// backlog.  Registering an already-registered subject discards that
    /// subject's old collector.  Every other subject is untouched.
    pub fn register_subject(&mut self, subject: &str)
        ensures
            final(self).has_collector(subject@),
            final(self).pending_of(subject@) =~= Seq::<EventModel>::empty(),
            final(self).collected_of(subject@) =~= Seq::<EventModel>::empty(),
            !final(self).closed_of(subject@),
            forall|s: Seq<char>|
                s != subject@ ==> #[trigger] final(self).has_collector(s) == old(self).has_collector(s),
            forall|s: Seq<char>|
                s != subject@ ==> #[trigger] final(self).pending_of(s) == old(self).pending_of(s),
            forall|s: Seq<char>|
                s != subject@ ==> #[trigger] final(self).collected_of(s) == old(self).collected_of(s),
            forall|s: Seq<char>|
                s != subject@ ==> #[trigger] final(self).closed_of(s) == old(self).closed_of(s),
    {
        let fresh = EventCollector::new(subject.to_owned());
        let entry = (subject.to_owned(), fresh);
        match self.find(subject) {
            Some(k) => {
                let ghost p1 = self.collectors@;
                let _replaced = self.collectors.remove(k);
                self.collectors.insert(k, entry);
                proof {
                    let p2 = self.collectors@;
                    assert(p2 =~= p1.update(k as int, p2[k as int]));
                    lemma_find_bounds(p1, subject@);
                    assert forall|s: Seq<char>| true implies spec_find(p1, s) == spec_find(
                        p2,
                        s,
                    ) by {
                        lemma_find_same_subjects(p1, p2, s);
                    }
                    assert forall|s: Seq<char>| s != subject@ && spec_find(p1, s) >= 0 implies (p2[
                    spec_find(p1, s)] == p1[spec_find(p1, s)]) by {
                        lemma_find_bounds(p1, s);
                    }
                }
            },
            None => {
                let ghost p1 = self.collectors@;
                self.collectors.push(entry);
                proof {
                    let p2 = self.collectors@;
                    lemma_find_bounds(p1, subject@);
                    lemma_find_first(p2, subject@, p1.len() as int);
                    assert forall|s: Seq<char>| s != subject@ implies (spec_find(p2, s)
                        == spec_find(p1, s) && (spec_find(p1, s) >= 0 ==> p2[spec_find(p1, s)]
                        == p1[spec_find(p1, s)])) by {
                        lemma_find_bounds(p1, s);
                        if spec_find(p1, s) >= 0 {
                            lemma_find_first(p2, s, spec_find(p1, s));
                        } else {
                            lemma_find_bounds(p2, s);
                            if spec_find(p2, s) >= 0 {
                                assert(p2[spec_find(p2, s)].0@ == s);
                            }
                        }
                    }
                }
            },
        }
    }

    /// Forwards one received message into the collector of its subject.
    /// Reports whether such a collector exists; if not, the message is
    /// dropped and nothing changes.
    pub fn deliver_to(&mut self, subject: &str, m: EventMessage) -> (found: bool)
        ensures
            found == old(self).has_collector(subject@),
            !found ==> *final(self) == *old(self),
            found ==> final(self).pending_of(subject@) == old(self).pending_of(subject@).push(m@),
            found ==> final(self).collected_of(subject@) == old(self).collected_of(subject@),
            found ==> final(self).closed_of(subject@) == old(self).closed_of(subject@),
            forall|s: Seq<char>|
                #[trigger] final(self).has_collector(s) == old(self).has_collector(s),
            forall|s: Seq<char>|
                s != subject@ ==> #[trigger] final(self).pending_of(s) == old(self).pending_of(s),
            forall|s: Seq<char>|
                s != subject@ ==> #[trigger] final(self).collected_of(s) == old(self).collected_of(s),
            forall|s: Seq<char>|
                s != subject@ ==> #[trigger] final(self).closed_of(s) == old(self).closed_of(s),
    {
        match self.find(subject) {
            None => {
                proof {
                    lemma_find_bounds(self.collectors@, subject@);
                }
                false
            },
            Some(k) => {
                let ghost p1 = self.collectors@;
                let mut pair = self.collectors.remove(k);
                pair.1.deliver(m);
                self.collectors.insert(k, pair);
                proof {
                    lemma_find_bounds(p1, subject@);
                    self.lemma_entry_replaced(p1, k as int, subject@);
                }
                true
            },
        }
    }

    /// Marks a subject's stream closed; buffered messages stay consumable.
    pub fn close_subject(&mut self, subject: &str) -> (found: bool)
        ensures
            found == old(self).has_collector(subject@),
            !found ==> *final(self) == *old(self),
            found ==> final(self).closed_of(subject@),
            found ==> final(self).pending_of(subject@) == old(self).pending_of(subject@),
            found ==> final(self).collected_of(subject@) == old(self).collected_of(subject@),
            forall|s: Seq<char>|
                #[trigger] final(self).has_collector(s) == old(self).has_collector(s),
            forall|s: Seq<char>|
                s != subject@ ==> #[trigger] final(self).pending_of(s) == old(self).pending_of(s),
            forall|s: Seq<char>|
                s != subject@ ==> #[trigger] final(self).collected_of(s) == old(self).collected_of(s),
            forall|s: Seq<char>|
                s != subject@ ==> #[trigger] final(self).closed_of(s) == old(self).closed_of(s),
    {
        match self.find(subject) {
            None => {
                proof {
                    lemma_find_bounds(self.collectors@, subject@);
                }
                false
            },
            Some(k) => {
                let ghost p1 = self.collectors@;
                let mut pair = self.collectors.remove(k);
                pair.1.close();
                self.collectors.insert(k, pair);
                proof {
                    lemma_find_bounds(p1, subject@);
                    self.lemma_entry_replaced(p1, k as int, subject@);
                }
                true
            },
        }
    }

    /// After an update of the entry at `k` (same subject string), lookups
    /// of every subject land where they did before, and entries of other
    /// subjects are untouched.
    proof fn lemma_entry_replaced(&self, p1: Seq<(String, EventCollector)>, k: int, t: Seq<char>)
        requires
            0 <= k < p1.len(),
            self.collectors@.len() == p1.len(),
            p1[k].0@ == t,
            self.collectors@[k].0@ == t,
            spec_find(p1, t) == k,
            forall|j: int| 0 <= j < p1.len() && j != k ==> self.collectors@[j] == #[trigger] p1[j],
        ensures
            forall|s: Seq<char>| spec_find(self.collectors@, s) == #[trigger] spec_find(p1, s),
            spec_find(self.collectors@, t) == k,
            forall|s: Seq<char>|
                s != t && spec_find(p1, s) >= 0 ==> self.collectors@[#[trigger] spec_find(p1, s)]
                    == p1[spec_find(p1, s)],
    {
        let p2 = self.collectors@;
        assert forall|s: Seq<char>| spec_find(p2, s) == #[trigger] spec_find(p1, s) by {
            lemma_find_same_subjects(p1, p2, s);
        }
        assert forall|s: Seq<char>| s != t && spec_find(p1, s) >= 0 implies p2[#[trigger] spec_find(
            p1,
            s,
        )] == p1[spec_find(p1, s)] by {
            lemma_find_bounds(p1, s);
        }
    }

    /// One step of a named, deadline-bounded wait: fails immediately with
    /// `NoCollector` if the subject was never registered (leaving the
    /// helper untouched), otherwise delegates the decision to that
    /// subject's collector.
    pub fn poll_named(&mut self, subject: &str, now_ms: u64, deadline_ms: u64) -> (r: Result<
        WaitStep,
        EventError,
    >)
        ensures
            !old(self).has_collector(subject@) ==> r == Result::<WaitStep, EventError>::Err(
                EventError::NoCollector,
            ) && *final(self) == *old(self),
            old(self).has_collector(subject@) ==> r is Ok,
            (old(self).has_collector(subject@) && old(self).pending_of(subject@).len() > 0) ==> (
            r matches Ok(WaitStep::Event(m)) && m@ == old(self).pending_of(subject@)[0] && final(self).pending_of(subject@) == old(self).pending_of(subject@).drop_first() && final(self).collected_of(subject@) == old(self).collected_of(subject@).push(
                old(self).pending_of(subject@)[0],
            )),
            (old(self).has_collector(subject@) && old(self).pending_of(subject@).len() == 0) ==> (
            final(self).pending_of(subject@) == old(self).pending_of(subject@) && final(self).collected_of(subject@) == old(self).collected_of(subject@)),
            (old(self).has_collector(subject@) && old(self).pending_of(subject@).len() == 0 && old(self).closed_of(subject@)) ==> (r matches Ok(step) && step is Closed),
            (old(self).has_collector(subject@) && old(self).pending_of(subject@).len() == 0 && !old(self).closed_of(subject@) && now_ms >= deadline_ms) ==> (r matches Ok(step)
                && step is TimedOut),
            (old(self).has_collector(subject@) && old(self).pending_of(subject@).len() == 0 && !old(self).closed_of(subject@) && now_ms < deadline_ms) ==> (r matches Ok(step)
                && step is Pending),
            forall|s: Seq<char>|
                #[trigger] final(self).has_collector(s) == old(self).has_collector(s),
            forall|s: Seq<char>|
                s != subject@ ==> #[trigger] final(self).pending_of(s) == old(self).pending_of(s),
            forall|s: Seq<char>|
                s != subject@ ==> #[trigger] final(self).collected_of(s) == old(self).collected_of(s),
            forall|s: Seq<char>|
                s != subject@ ==> #[trigger] final(self).closed_of(s) == old(self).closed_of(s),
            final(self).closed_of(subject@) == old(self).closed_of(subject@),
    {
        match self.find(subject) {
            None => {
                proof {
                    lemma_find_bounds(self.collectors@, subject@);
                }
                Err(EventError::NoCollector)
            },
            Some(k) => {
                let ghost p1 = self.collectors@;
                let mut pair = self.collectors.remove(k);
                let step = pair.1.poll_wait(now_ms, deadline_ms);
                self.collectors.insert(k, pair);
                proof {
                    lemma_find_bounds(p1, subject@);
                    self.lemma_entry_replaced(p1, k as int, subject@);
                }
                Ok(step)
            },
        }
    }

    /// Consumes everything currently buffered for a subject, oldest first;
    /// `NoCollector` if the subject was never registered.
    pub fn drain_named(&mut self, subject: &str) -> (r: Result<Vec<EventMessage>, EventError>)
        ensures
            !old(self).has_collector(subject@) ==> r == Result::<Vec<EventMessage>, EventError>::Err(
                EventError::NoCollector,
            ) && *final(self) == *old(self),
            old(self).has_collector(subject@) ==> (r matches Ok(drained) && drained@.map_values(
                |m: EventMessage| m@,
            ) == old(self).pending_of(subject@) && final(self).pending_of(subject@)
                =~= Seq::<EventModel>::empty() && final(self).collected_of(subject@) == old(self).collected_of(subject@) + old(self).pending_of(subject@)),
            forall|s: Seq<char>|
                #[trigger] final(self).has_collector(s) == old(self).has_collector(s),
            forall|s: Seq<char>|
                s != subject@ ==> #[trigger] final(self).pending_of(s) == old(self).pending_of(s),
            forall|s: Seq<char>|
                s != subject@ ==> #[trigger] final(self).collected_of(s) == old(self).collected_of(s),
            forall|s: Seq<char>|
                s != subject@ ==> #[trigger] final(self).closed_of(s) == old(self).closed_of(s),
    {
        match self.find(subject) {
            None => {
                proof {
                    lemma_find_bounds(self.collectors@, subject@);
                }
                Err(EventError::NoCollector)
            },
            Some(k) => {
                let ghost p1 = self.collectors@;
                let mut pair = self.collectors.remove(k);
                let drained = pair.1.drain_pending();
                self.collectors.insert(k, pair);
                proof {
                    lemma_find_bounds(p1, subject@);
                    self.lemma_entry_replaced(p1, k as int, subject@);
                }
                Ok(drained)
            },
        }
    }

    /// Counts, without consuming anything, the consumed messages of a
    /// subject whose JSON discriminant equals `event_type`; `NoCollector`
    /// if the subject was never registered.
    pub fn count_named(&self, subject: &str, event_type: &str) -> (r: Result<usize, EventError>)
        ensures
            !self.has_collector(subject@) ==> r == Result::<usize, EventError>::Err(
                EventError::NoCollector,
            ),
            self.has_collector(subject@) ==> r == Result::<usize, EventError>::Ok(
                crate::events::spec_count_of_type(
                    self.collected_of(subject@),
                    event_type@,
                ) as usize,
            ),
    {
        match self.find(subject) {
            None => {
                proof {
                    lemma_find_bounds(self.collectors@, subject@);
                }
                Err(EventError::NoCollector)
            },
            Some(k) => {
                let n = self.collectors[k].1.count_events_of_type(event_type);
                Ok(n)
            },
        }
    }

    /// Drops every collector and its backlog, deregistering all subjects.
    pub fn cleanup(&mut self)
        ensures
            forall|s: Seq<char>| !(#[trigger] final(self).has_collector(s)),
    {
        self.collectors = Vec::new();
        proof {
            assert forall|s: Seq<char>| !(#[trigger] self.has_collector(s)) by {
                lemma_find_bounds(self.collectors@, s);
            }
        }
    }

    /// Registers fresh collectors for the five driver lifecycle subjects;
    /// every other subject is untouched.
    pub fn setup_driver_event_collection(&mut self)
        ensures
            final(self).has_collector("driver.registered"@),
            final(self).has_collector("driver.verified"@),
            final(self).has_collector("driver.status.changed"@),
            final(self).has_collector("driver.location.updated"@),
            final(self).has_collector("driver.rating.updated"@),
            final(self).pending_of("driver.registered"@) =~= Seq::<EventModel>::empty(),
            final(self).pending_of("driver.verified"@) =~= Seq::<EventModel>::empty(),
            final(self).pending_of("driver.status.changed"@) =~= Seq::<EventModel>::empty(),
            final(self).pending_of("driver.location.updated"@) =~= Seq::<EventModel>::empty(),
            final(self).pending_of("driver.rating.updated"@) =~= Seq::<EventModel>::empty(),
            forall|s: Seq<char>|
                (s != "driver.registered"@ && s != "driver.verified"@ && s
                    != "driver.status.changed"@ && s != "driver.location.updated"@ && s
                    != "driver.rating.updated"@) ==> #[trigger] final(self).has_collector(s) == old(
                    self,
                ).has_collector(s),
            forall|s: Seq<char>|
                (s != "driver.registered"@ && s != "driver.verified"@ && s
                    != "driver.status.changed"@ && s != "driver.location.updated"@ && s
                    != "driver.rating.updated"@) ==> #[trigger] final(self).pending_of(s) == old(
                    self,
                ).pending_of(s),
    {
        proof {
            lemma_driver_subjects_distinct();
        }
        self.register_subject("driver.registered");
        self.register_subject("driver.verified");
        self.register_subject("driver.status.changed");
        self.register_subject("driver.location.updated");
        self.register_subject("driver.rating.updated");
    }

    /// Waits one poll step for a `driver.registered` event: fails with
    /// `NoCollector` — immediately, it cannot hang — when the setup step
    /// never registered the subject, and otherwise decides like
    /// [`EventCollector::poll_wait`] on that subject's collector.
    pub fn wait_for_driver_registered(&mut self, now_ms: u64, deadline_ms: u64) -> (r: Result<
        WaitStep,
        EventError,
    >)
        ensures
            !old(self).has_collector("driver.registered"@) ==> r == Result::<
                WaitStep,
                EventError,
            >::Err(EventError::NoCollector) && *final(self) == *old(self),
            old(self).has_collector("driver.registered"@) ==> r is Ok,
            (old(self).has_collector("driver.registered"@) && old(self).pending_of(
                "driver.registered"@,
            ).len() > 0) ==> (r matches Ok(WaitStep::Event(m)) && m@ == old(self).pending_of(
                "driver.registered"@,
            )[0] && final(self).pending_of("driver.registered"@) == old(self).pending_of(
                "driver.registered"@,
            ).drop_first()),
            (old(self).has_collector("driver.registered"@) && old(self).pending_of(
                "driver.registered"@,
            ).len() == 0 && !old(self).closed_of("driver.registered"@) && now_ms >= deadline_ms)
                ==> (r matches Ok(step) && step is TimedOut),
            forall|s: Seq<char>|
                #[trigger] final(self).has_collector(s) == old(self).has_collector(s),
            forall|s: Seq<char>|
                s != "driver.registered"@ ==> #[trigger] final(self).pending_of(s) == old(
                    self,
                ).pending_of(s),
    {
        self.poll_named("driver.registered", now_ms, deadline_ms)
    }

    /// Waits one poll step for a `driver.location.updated` event: fails
    /// with `NoCollector` — immediately, it cannot hang — when the setup
    /// step never registered the subject, and otherwise decides like
    /// [`EventCollector::poll_wait`] on that subject's collector.
    pub fn wait_for_location_updated(&mut self, now_ms: u64, deadline_ms: u64) -> (r: Result<
        WaitStep,
        EventError,
    >)
        ensures
            !old(self).has_collector("driver.location.updated"@) ==> r == Result::<
                WaitStep,
                EventError,
            >::Err(EventError::NoCollector) && *final(self) == *old(self),
            old(self).has_collector("driver.location.updated"@) ==> r is Ok,
            (old(self).has_collector("driver.location.updated"@) && old(self).pending_of(
                "driver.location.updated"@,
            ).len() > 0) ==> (r matches Ok(WaitStep::Event(m)) && m@ == old(self).pending_of(
                "driver.location.updated"@,
            )[0] && final(self).pending_of("driver.location.updated"@) == old(self).pending_of(
                "driver.location.updated"@,
            ).drop_first()),
            (old(self).has_collector("driver.location.updated"@) && old(self).pending_of(
                "driver.location.updated"@,
            ).len() == 0 && !old(self).closed_of("driver.location.updated"@) && now_ms
                >= deadline_ms) ==> (r matches Ok(step) && step is TimedOut),
            forall|s: Seq<char>|
                #[trigger] final(self).has_collector(s) == old(self).has_collector(s),
            forall|s: Seq<char>|
                s != "driver.location.updated"@ ==> #[trigger] final(self).pending_of(s) == old(
                    self,
                ).pending_of(s),
    {
        self.poll_named("driver.location.updated", now_ms, deadline_ms)
    }
}

/// The five driver lifecycle subjects are pairwise distinct.
proof fn lemma_driver_subjects_distinct()
    ensures
        "driver.registered"@ != "driver.verified"@,
        "driver.registered"@ != "driver.status.changed"@,
        "driver.registered"@ != "driver.location.updated"@,
        "driver.registered"@ != "driver.rating.updated"@,
        "driver.verified"@ != "driver.status.changed"@,
        "driver.verified"@ != "driver.location.updated"@,
        "driver.verified"@ != "driver.rating.updated"@,
        "driver.status.changed"@ != "driver.location.updated"@,
        "driver.status.changed"@ != "driver.rating.updated"@,
        "driver.location.updated"@ != "driver.rating.updated"@,
{
    reveal_strlit("driver.registered");
    reveal_strlit("driver.verified");
    reveal_strlit("driver.status.changed");
    reveal_strlit("driver.location.updated");
    reveal_strlit("driver.rating.updated");
    assert("driver.registered"@.len() == 17);
    assert("driver.verified"@.len() == 15);
    assert("driver.status.changed"@.len() == 21);
    assert("driver.location.updated"@.len() == 23);
    assert("driver.rating.updated"@.len() == 21);
    assert("driver.status.changed"@[7] == 's');
    assert("driver.rating.updated"@[7] == 'r');
}

/// One scripted step of the simulated order lifecycle: the subject to
/// publish a synthetic event on, and the minimum delay to let pass before
/// publishing it, in milliseconds.
pub struct LifecycleStep {
    pub subject: String,
    pub delay_before_ms: u64,
}

/// The scripted "simulate full order lifecycle" plan: assignment,
/// completion, payment, rating.  The steps must be published strictly in
/// this order with at least the given spacing, since downstream assertions
/// depend on temporal ordering.
pub fn order_lifecycle_plan() -> (plan: Vec<LifecycleStep>)
    ensures
        plan@.len() == 4,
        plan@[0].subject@ == "order.assigned"@,
        plan@[0].delay_before_ms == 0,
        plan@[1].subject@ == "order.completed"@,
        plan@[1].delay_before_ms == 100,
        plan@[2].subject@ == "payment.processed"@,
        plan@[2].delay_before_ms == 0,
        plan@[3].subject@ == "customer.rated.driver"@,
        plan@[3].delay_before_ms == 0,
{
    let mut plan: Vec<LifecycleStep> = Vec::new();
    plan.push(LifecycleStep { subject: "order.assigned".to_owned(), delay_before_ms: 0 });
    plan.push(LifecycleStep { subject: "order.completed".to_owned(), delay_before_ms: 100 });
    plan.push(LifecycleStep { subject: "payment.processed".to_owned(), delay_before_ms: 0 });
    plan.push(
        LifecycleStep { subject: "customer.rated.driver".to_owned(), delay_before_ms: 0 },
    );
    plan
}

} // verus!
