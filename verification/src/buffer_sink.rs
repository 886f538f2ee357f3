//! The bounded buffer of the most recent indicators.

use vstd::prelude::*;
use std::collections::VecDeque;
use crate::messages::{BufferDataRequest, Indicators, PerformanceIndicators};

verus! {

/// The number of indicators that a buffer holds unless it is told otherwise.
pub const BUFFER_SIZE: usize = 2000;

/// What each of a sequence of indicators holds.
pub open spec fn views(items: Seq<PerformanceIndicators>) -> Seq<Indicators> {
    items.map_values(|item: PerformanceIndicators| item@)
}

/// The smaller of two numbers.
pub open spec fn smaller(a: int, b: int) -> int {
    if a <= b {
        a
    } else {
        b
    }
}

/// A buffer of `capacity` places that held `held` and then received `item`:
/// the item comes first, and what no longer fits is gone from the end.
pub open spec fn received(held: Seq<Indicators>, capacity: nat, item: Indicators) -> Seq<
    Indicators,
> {
    (seq![item] + held).take(smaller(held.len() as int + 1, capacity as int))
}

/// A buffer of `capacity` places that was empty and then received `items`
/// one by one, the first of them first.
pub open spec fn received_all(capacity: nat, items: Seq<Indicators>) -> Seq<Indicators>
    decreases items.len(),
{
    if items.len() == 0 {
        Seq::empty()
    } else {
        received(received_all(capacity, items.drop_last()), capacity, items.last())
    }
}

/// After any number of items an empty buffer holds as many of them as it has
/// places, or all of them if they are fewer: the latest ones, the most
/// recent first.
pub proof fn lemma_buffer_holds_latest(capacity: nat, items: Seq<Indicators>)
    ensures
        received_all(capacity, items).len() == smaller(items.len() as int, capacity as int),
        received_all(capacity, items) == items.reverse().take(
            smaller(items.len() as int, capacity as int),
        ),
    decreases items.len(),
{
    if items.len() > 0 {
        lemma_buffer_holds_latest(capacity, items.drop_last());
        let held = received_all(capacity, items.drop_last());
        let kept = smaller(items.len() as int, capacity as int);
        assert forall|i: int| 0 <= i < kept implies received_all(capacity, items)[i]
            == items.reverse()[i] by {
            if i > 0 {
                assert(held[i - 1] == items.drop_last().reverse()[i - 1]);
            }
        }
    }
}

/// The sink that keeps the most recent indicators, the latest first.
#[derive(Debug)]
pub struct BufferSink {
    pub data_sink: VecDeque<PerformanceIndicators>,
    /// The number of indicators that the buffer holds at most.
    pub capacity: usize,
}

impl View for BufferSink {
    type V = Seq<Indicators>;

    open spec fn view(&self) -> Seq<Indicators> {
        views(self.data_sink@)
    }
}

impl Default for BufferSink {
    /// An empty buffer of `BUFFER_SIZE` places.
    fn default() -> (sink: Self)
        ensures
            sink@ == Seq::<Indicators>::empty(),
            sink.capacity == BUFFER_SIZE,
    {
        BufferSink::new(BUFFER_SIZE)
    }
}

impl BufferSink {
    /// The buffer holds no more than it has places for.
    pub open spec fn wf(&self) -> bool {
        self.data_sink@.len() <= self.capacity
    }

    /// An empty buffer of `capacity` places.
    pub fn new(capacity: usize) -> (sink: Self)
        ensures
            sink@ == Seq::<Indicators>::empty(),
            sink.capacity == capacity,
            sink.wf(),
    {
        let sink = BufferSink { data_sink: VecDeque::with_capacity(capacity), capacity };
        sink
    }

    /// Takes in new indicators: they come first, and what the buffer has no
    /// place for any more leaves at the end.
    pub fn handle(&mut self, msg: PerformanceIndicators)
        ensures
            final(self)@ == received(old(self)@, old(self).capacity as nat, msg@),
            final(self).capacity == old(self).capacity,
            final(self).wf(),
    {
        self.data_sink.push_front(msg);
        self.data_sink.truncate(self.capacity);
    }

    /// Copies of the `n` most recent indicators, the latest first; of all
    /// that the buffer holds where they are fewer.
    pub fn handle_request(&self, msg: BufferDataRequest) -> (recent: Vec<PerformanceIndicators>)
        ensures
            views(recent@) == self@.take(smaller(msg.n as int, self@.len() as int)),
    {
        let held = self.data_sink.len();
        let wanted: usize = if msg.n <= held {
            msg.n
        } else {
            held
        };
        let mut recent: Vec<PerformanceIndicators> = Vec::new();
        let mut i: usize = 0;
        while i < wanted
            invariant
                i <= wanted <= held,
                held == self.data_sink@.len(),
                recent@.len() == i,
                forall|k: int| 0 <= k < i ==> (#[trigger] recent@[k])@ == self.data_sink@[k]@,
            decreases wanted - i,
        {
            let item = self.data_sink[i].clone();
            recent.push(item);
            i += 1;
        }
        recent
    }
}

} // verus!
