//! Per-subject event collection: FIFO buffering of received messages,
//! deadline-bounded wait decisions, duration-bounded draining, and
//! non-destructive counting by event type.
//!
//! A collector is the synchronous core of one subscription.  The
//! surrounding runtime forwards every message of the subscribed subject
//! into the collector with [`EventCollector::deliver`], and drives waits by
//! polling [`EventCollector::poll_wait`] with the current clock reading:
//! the collector decides, the runtime suspends, retries or resolves.

use vstd::prelude::*;

verus! {

/// The mathematical value of one received message.
pub ghost struct EventModel {
    pub subject: Seq<char>,
    pub payload: Seq<u8>,
}

/// An opaque byte payload together with the subject it arrived on.
/// Immutable once received.
#[derive(Debug)]
pub struct EventMessage {
    pub subject: String,
    pub payload: Vec<u8>,
}

impl View for EventMessage {
    type V = EventModel;

    open spec fn view(&self) -> EventModel {
        EventModel { subject: self.subject@, payload: self.payload@ }
    }
}

impl EventMessage {
    /// An exact copy of the message.
    pub fn duplicate(&self) -> (m: EventMessage)
        ensures
            m@ == self@,
    {
        let mut payload: Vec<u8> = Vec::new();
        let mut i: usize = 0;
        while i < self.payload.len()
            invariant
                0 <= i <= self.payload.len(),
                payload@ == self.payload@.subrange(0, i as int),
            decreases self.payload.len() - i,
        {
            payload.push(self.payload[i]);
            proof {
                assert(payload@ =~= self.payload@.subrange(0, i + 1));
            }
            i = i + 1;
        }
        proof {
            assert(payload@ =~= self.payload@);
        }
        EventMessage { subject: self.subject.clone(), payload }
    }
}

/// The error taxonomy of the event verification engine.
///
/// `Transport` is fatal to the enclosing test; `Deserialization` and
/// `Timeout` are recoverable per call; `StreamClosed` ends a collector's
/// stream; `NoCollector` marks a programming-contract violation (a wait on
/// a subject that was never registered), never a runtime failure.
#[derive(Clone, Copy, Debug, PartialEq, Eq, Structural)]
pub enum EventError {
    Transport,
    Deserialization,
    Timeout,
    StreamClosed,
    NoCollector,
}

impl EventError {
    /// A fixed description of the error, for reports and logs.
    pub fn describe(&self) -> (s: &'static str)
        ensures
            self is Transport ==> s@ == "transport failure"@,
            self is Deserialization ==> s@ == "payload did not match the expected event shape"@,
            self is Timeout ==> s@ == "deadline elapsed with no matching event"@,
            self is StreamClosed ==> s@ == "event stream closed"@,
            self is NoCollector ==> s@ == "no collector registered for the subject"@,
    {
        match self {
            EventError::Transport => "transport failure",
            EventError::Deserialization => "payload did not match the expected event shape",
            EventError::Timeout => "deadline elapsed with no matching event",
            EventError::StreamClosed => "event stream closed",
            EventError::NoCollector => "no collector registered for the subject",
        }
    }
}

/// The decision a collector makes when a wait is polled.
#[derive(Debug)]
pub enum WaitStep {
    /// The oldest buffered message; it has been consumed from the buffer.
    Event(EventMessage),
    /// Nothing buffered and the deadline has not passed: suspend and retry.
    Pending,
    /// Nothing buffered and the deadline has passed.
    TimedOut,
    /// Nothing buffered and the stream has been closed.
    Closed,
}

impl WaitStep {
    /// Resolves a terminal wait decision into the caller-facing result.
    pub fn resolve(self) -> (r: Result<EventMessage, EventError>)
        requires
            !(self is Pending),
        ensures
            self matches WaitStep::Event(m) ==> (r matches Ok(n) && n@ == m@),
            self is TimedOut ==> r == Result::<EventMessage, EventError>::Err(EventError::Timeout),
            self is Closed ==> r == Result::<EventMessage, EventError>::Err(
                EventError::StreamClosed,
            ),
    {
        match self {
            WaitStep::Event(m) => Ok(m),
            WaitStep::TimedOut => Err(EventError::Timeout),
            WaitStep::Closed => Err(EventError::StreamClosed),
            WaitStep::Pending => Err(EventError::Timeout),
        }
    }
}

/// Delivering one message appends it to the pending buffer.
pub open spec fn spec_deliver(pending: Seq<EventModel>, m: EventModel) -> Seq<EventModel> {
    pending.push(m)
}

/// Delivering a whole sequence of messages, oldest first.
pub open spec fn spec_deliver_all(pending: Seq<EventModel>, ms: Seq<EventModel>) -> Seq<EventModel>
    decreases ms.len(),
{
    if ms.len() == 0 {
        pending
    } else {
        spec_deliver_all(spec_deliver(pending, ms[0]), ms.drop_first())
    }
}

/// Messages published by a single publisher and forwarded in delivery order
/// end up buffered in exactly that order behind what was already pending;
/// draining the buffer therefore returns them in the same relative order
/// they were published.
pub proof fn lemma_fifo_order(pending: Seq<EventModel>, ms: Seq<EventModel>)
    ensures
        spec_deliver_all(pending, ms) == pending + ms,
    decreases ms.len(),
{
    if ms.len() == 0 {
        assert(spec_deliver_all(pending, ms) =~= pending + ms);
    } else {
        lemma_fifo_order(spec_deliver(pending, ms[0]), ms.drop_first());
        assert(pending.push(ms[0]) + ms.drop_first() =~= pending + ms);
    }
}

/// A message delivered to an empty buffer is exactly the message the next
/// wait consumes: a wait that started before the publish still resolves
/// with it, and with nothing else.
pub proof fn lemma_no_lost_wakeup(pending: Seq<EventModel>, m: EventModel)
    requires
        pending.len() == 0,
    ensures
        spec_deliver(pending, m).len() == 1,
        spec_deliver(pending, m)[0] == m,
{
}

/// How many of `msgs` carry the JSON discriminant field equal to `tag`.
pub open spec fn spec_count_of_type(msgs: Seq<EventModel>, tag: Seq<char>) -> nat
    decreases msgs.len(),
{
    if msgs.len() == 0 {
        0
    } else {
        spec_count_of_type(msgs.drop_last(), tag) + if event_type_of(
            msgs.last().payload,
        ) == Some(tag) {
            1nat
        } else {
            0nat
        }
    }
}

/// The `event_type` discriminant a JSON payload carries, if the payload
/// parses as JSON and the field is a string: a function of the bytes alone.
pub uninterp spec fn event_type_of(payload: Seq<u8>) -> Option<Seq<char>>;

/// Relies on serde_json::from_slice, serde_json::Value::get and
/// serde_json::Value::as_str: whether the payload parses and what string
/// its `event_type` field holds depend on the bytes alone.
#[verifier::external_body]
fn extract_event_type(payload: &Vec<u8>) -> (r: Option<String>)
    ensures
        (r is Some) == (event_type_of(payload@) is Some),
        r is Some ==> r->0@ == event_type_of(payload@)->0,
{
    match serde_json::from_slice::<serde_json::Value>(payload.as_slice()) {
        Ok(v) => v.get("event_type").and_then(|t| t.as_str()).map(|t| t.to_owned()),
        Err(_) => None,
    }
}

/// Owns one subject's backlog: an unbounded FIFO buffer of received but
/// unconsumed messages, plus the ordered log of everything consumed so far.
pub struct EventCollector {
    subject: String,
    pending: Vec<EventMessage>,
    collected: Vec<EventMessage>,
    closed: bool,
}

impl EventCollector {
    /// The subject this collector owns.
    pub closed spec fn subject_model(&self) -> Seq<char> {
        self.subject@
    }

    /// Received messages not yet consumed, oldest first.
    pub closed spec fn pending_model(&self) -> Seq<EventModel> {
        self.pending@.map_values(|m: EventMessage| m@)
    }

    /// Every message consumed so far, in consumption order.
    pub closed spec fn collected_model(&self) -> Seq<EventModel> {
        self.collected@.map_values(|m: EventMessage| m@)
    }

    /// Whether the underlying stream has been closed.
    pub closed spec fn is_closed(&self) -> bool {
        self.closed
    }

    pub fn new(subject: String) -> (c: EventCollector)
        ensures
            c.subject_model() == subject@,
            c.pending_model() =~= Seq::<EventModel>::empty(),
            c.collected_model() =~= Seq::<EventModel>::empty(),
            !c.is_closed(),
    {
        EventCollector { subject, pending: Vec::new(), collected: Vec::new(), closed: false }
    }

    /// Buffers one received message behind everything already pending.
    /// The forwarding task calls this for each message of the stream, in
    /// delivery order, so that nothing received before the first wait is
    /// lost.
    pub fn deliver(&mut self, m: EventMessage)
        ensures
            final(self).pending_model() == spec_deliver(old(self).pending_model(), m@),
            final(self).collected_model() == old(self).collected_model(),
            final(self).subject_model() == old(self).subject_model(),
            final(self).is_closed() == old(self).is_closed(),
    {
        self.pending.push(m);
        proof {
            assert(self.pending_model() =~= spec_deliver(old(self).pending_model(), m@));
        }
    }

    /// Marks the underlying stream closed; buffered messages stay
    /// consumable.
    pub fn close(&mut self)
        ensures
            final(self).is_closed(),
            final(self).pending_model() == old(self).pending_model(),
            final(self).collected_model() == old(self).collected_model(),
            final(self).subject_model() == old(self).subject_model(),
    {
        self.closed = true;
    }

    /// One step of a deadline-bounded wait, decided from the buffer, the
    /// stream state and the clock: the oldest buffered message if there is
    /// one (consumed, FIFO), otherwise whether to suspend, time out or
    /// report the stream closed.  A timeout consumes nothing: the
    /// collector is left exactly as it was and stays usable.
    pub fn poll_wait(&mut self, now_ms: u64, deadline_ms: u64) -> (step: WaitStep)
        ensures
            old(self).pending_model().len() > 0 ==> (step matches WaitStep::Event(m) && m@ == old(self).pending_model()[0] && final(self).pending_model() == old(self).pending_model().drop_first() && final(self).collected_model() == old(self).collected_model().push(old(self).pending_model()[0])),
            old(self).pending_model().len() == 0 ==> (final(self).pending_model() == old(self).pending_model() && final(self).collected_model() == old(self).collected_model()),
            (old(self).pending_model().len() == 0 && old(self).is_closed()) ==> step is Closed,
            (old(self).pending_model().len() == 0 && !old(self).is_closed() && now_ms
                >= deadline_ms) ==> step is TimedOut,
            (old(self).pending_model().len() == 0 && !old(self).is_closed() && now_ms
                < deadline_ms) ==> step is Pending,
            final(self).subject_model() == old(self).subject_model(),
            final(self).is_closed() == old(self).is_closed(),
    {
        if self.pending.len() > 0 {
            let m = self.pending.remove(0);
            self.collected.push(m.duplicate());
            proof {
                assert(self.pending_model() =~= old(self).pending_model().drop_first());
                assert(self.collected_model() =~= old(self).collected_model().push(
                    old(self).pending_model()[0],
                ));
            }
            WaitStep::Event(m)
        } else if self.closed {
            WaitStep::Closed
        } else if now_ms >= deadline_ms {
            WaitStep::TimedOut
        } else {
            WaitStep::Pending
        }
    }

    /// Consumes the whole pending buffer at once, returning the messages
    /// oldest first.  Driven in a loop until a wall-clock deadline, this
    /// yields everything received in the window, in delivery order.
    pub fn drain_pending(&mut self) -> (drained: Vec<EventMessage>)
        ensures
            drained@.map_values(|m: EventMessage| m@) == old(self).pending_model(),
            final(self).pending_model() =~= Seq::<EventModel>::empty(),
            final(self).collected_model() == old(self).collected_model() + old(self).pending_model(),
            final(self).subject_model() == old(self).subject_model(),
            final(self).is_closed() == old(self).is_closed(),
    {
        let mut drained: Vec<EventMessage> = Vec::new();
        core::mem::swap(&mut drained, &mut self.pending);
        let mut i: usize = 0;
        while i < drained.len()
            invariant
                0 <= i <= drained.len(),
                drained@.map_values(|m: EventMessage| m@) == old(self).pending_model(),
                self.pending@.len() == 0,
                self.collected@.map_values(|m: EventMessage| m@) == old(self).collected_model()
                    + drained@.map_values(|m: EventMessage| m@).subrange(0, i as int),
                self.subject@ == old(self).subject_model(),
                self.closed == old(self).is_closed(),
            decreases drained.len() - i,
        {
            let copy = drained[i].duplicate();
            let ghost prev = self.collected@;
            self.collected.push(copy);
            proof {
                let dm = drained@.map_values(|m: EventMessage| m@);
                assert(copy@ == dm[i as int]);
                assert(self.collected@.map_values(|m: EventMessage| m@) =~= prev.map_values(
                    |m: EventMessage| m@,
                ).push(copy@));
                assert(self.collected@.map_values(|m: EventMessage| m@) =~= old(self).collected_model() + dm.subrange(0, i + 1));
            }
            i = i + 1;
        }
        proof {
            let dm = drained@.map_values(|m: EventMessage| m@);
            assert(dm.subrange(0, dm.len() as int) =~= dm);
            assert(self.collected_model() =~= old(self).collected_model() + old(self).pending_model());
        }
        drained
    }

    /// Everything consumed so far, in consumption order.
    pub fn get_collected_events(&self) -> (log: &Vec<EventMessage>)
        ensures
            log@.map_values(|m: EventMessage| m@) == self.collected_model(),
    {
        &self.collected
    }

    /// Counts, without consuming anything, how many consumed messages
    /// carry the JSON discriminant `event_type` equal to `event_type`.
    pub fn count_events_of_type(&self, event_type: &str) -> (n: usize)
        ensures
            n == spec_count_of_type(self.collected_model(), event_type@),
    {
        let mut n: usize = 0;
        let mut i: usize = 0;
        while i < self.collected.len()
            invariant
                0 <= i <= self.collected@.len(),
                n == spec_count_of_type(
                    self.collected_model().subrange(0, i as int),
                    event_type@,
                ),
                n <= i,
            decreases self.collected@.len() - i,
        {
            let matched = match extract_event_type(&self.collected[i].payload) {
                Some(t) => crate::strnum::str_eq(t.as_str(), event_type),
                None => false,
            };
            proof {
                let pre = self.collected_model().subrange(0, i + 1);
                assert(pre.drop_last() =~= self.collected_model().subrange(0, i as int));
                assert(pre.last() == self.collected_model()[i as int]);
            }
            if matched {
                n = n + 1;
            }
            i = i + 1;
        }
        proof {
            assert(self.collected_model().subrange(0, self.collected@.len() as int)
                =~= self.collected_model());
        }
        n
    }
}

} // verus!
