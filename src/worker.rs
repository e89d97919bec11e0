//! The batching worker's decisions.
//!
//! The worker owns a batch of accepted items and reacts to four events: an
//! item arriving, the flush timer ticking, a shutdown request, and the queue
//! having been drained after shutdown. Each event moves it between
//! `Running`, `Draining` and `Stopped` and may hand back a batch to flush.
//! The runtime that waits for these events and writes the batches lives
//! outside this module.

use vstd::prelude::*;

verus! {

/// Where the worker is in its life.
#[derive(Clone, Copy, Debug, PartialEq, Eq, Structural)]
pub enum WorkerState {
    /// Accepting items and flushing by size and by timer.
    Running,
    /// Shutdown was requested: collecting what is still queued.
    Draining,
    /// The final flush is done; no further event is processed.
    Stopped,
}

/// Something that happened to the worker.
pub enum WorkerEvent<T> {
    /// An item arrived from the queue.
    Item(T),
    /// The flush timer ticked.
    Tick,
    /// Shutdown was requested.
    Shutdown,
    /// Every item still queued at shutdown has been received.
    Drained,
}

/// The worker as a value: its state and the items of its batch, in arrival order.
pub struct WorkerModel<T> {
    pub state: WorkerState,
    pub batch: Seq<T>,
}

/// A fresh worker: running, with an empty batch.
pub open spec fn initial_model<T>() -> WorkerModel<T> {
    WorkerModel { state: WorkerState::Running, batch: Seq::empty() }
}

/// The worker after `event`, and the batch to flush, if any. `batch_size`
/// is the batch length that triggers a flush while running.
pub open spec fn step_model<T>(m: WorkerModel<T>, batch_size: nat, event: WorkerEvent<T>) -> (
    WorkerModel<T>,
    Option<Seq<T>>,
) {
    match m.state {
        WorkerState::Running => match event {
            WorkerEvent::Item(x) => {
                let b = m.batch.push(x);
                if b.len() >= batch_size {
                    (WorkerModel { state: WorkerState::Running, batch: Seq::empty() }, Some(b))
                } else {
                    (WorkerModel { state: WorkerState::Running, batch: b }, None)
                }
            },
            WorkerEvent::Tick => if m.batch.len() > 0 {
                (WorkerModel { state: WorkerState::Running, batch: Seq::empty() }, Some(m.batch))
            } else {
                (m, None)
            },
            WorkerEvent::Shutdown => (WorkerModel { state: WorkerState::Draining, batch: m.batch }, None),
            WorkerEvent::Drained => (m, None),
        },
        WorkerState::Draining => match event {
            WorkerEvent::Item(x) => (WorkerModel { state: WorkerState::Draining, batch: m.batch.push(x) }, None),
            WorkerEvent::Drained => (
                WorkerModel { state: WorkerState::Stopped, batch: Seq::empty() },
                if m.batch.len() > 0 { Some(m.batch) } else { None },
            ),
            _ => (m, None),
        },
        WorkerState::Stopped => (m, None),
    }
}

/// The worker after each of `events` in turn, and the batches flushed on the way.
pub open spec fn run_model<T>(m: WorkerModel<T>, batch_size: nat, events: Seq<WorkerEvent<T>>) -> (
    WorkerModel<T>,
    Seq<Seq<T>>,
)
    decreases events.len(),
{
    if events.len() == 0 {
        (m, Seq::empty())
    } else {
        let (m1, flushed) = run_model(m, batch_size, events.drop_last());
        let (m2, out) = step_model(m1, batch_size, events.last());
        (m2, match out {
            Some(b) => flushed.push(b),
            None => flushed,
        })
    }
}

/// The items that `events` deliver, in order.
pub open spec fn items_of<T>(events: Seq<WorkerEvent<T>>) -> Seq<T>
    decreases events.len(),
{
    if events.len() == 0 {
        Seq::empty()
    } else {
        match events.last() {
            WorkerEvent::Item(x) => items_of(events.drop_last()).push(x),
            _ => items_of(events.drop_last()),
        }
    }
}

pub open spec fn has_no_drained<T>(events: Seq<WorkerEvent<T>>) -> bool {
    forall|i: int| 0 <= i < events.len() ==> !(#[trigger] events[i] is Drained)
}

pub open spec fn has_shutdown<T>(events: Seq<WorkerEvent<T>>) -> bool {
    exists|i: int| 0 <= i < events.len() && #[trigger] events[i] is Shutdown
}

pub open spec fn only_items<T>(events: Seq<WorkerEvent<T>>) -> bool {
    forall|i: int| 0 <= i < events.len() ==> #[trigger] events[i] is Item
}

pub open spec fn batch_view<T>(b: Option<Vec<T>>) -> Option<Seq<T>> {
    match b {
        Some(v) => Some(v@),
        None => None,
    }
}

/// The worker's batch and state, driven one event at a time.
pub struct BatchWorker<T> {
    state: WorkerState,
    batch: Vec<T>,
    batch_size: usize,
}

impl<T> View for BatchWorker<T> {
    type V = WorkerModel<T>;

    closed spec fn view(&self) -> WorkerModel<T> {
        WorkerModel { state: self.state, batch: self.batch@ }
    }
}

impl<T> BatchWorker<T> {
    /// The batch length that triggers a flush.
    pub closed spec fn limit(&self) -> nat {
        self.batch_size as nat
    }

    /// A running worker with an empty batch that flushes once `batch_size`
    /// items have gathered.
    pub fn new(batch_size: usize) -> (r: Self)
        ensures
            r@ == initial_model::<T>(),
            r.limit() == batch_size,
    {
        let r = BatchWorker { state: WorkerState::Running, batch: Vec::new(), batch_size };
        assert(r@ =~= initial_model::<T>());
        r
    }

    /// The current state.
    pub fn state(&self) -> (r: WorkerState)
        ensures
            r == self@.state,
    {
        self.state
    }

    /// How many items wait in the batch.
    pub fn pending(&self) -> (r: usize)
        ensures
            r == self@.batch.len(),
    {
        self.batch.len()
    }

    fn take_batch(&mut self) -> (r: Vec<T>)
        ensures
            r@ == old(self).batch@,
            final(self).batch@ == Seq::<T>::empty(),
            final(self).state == old(self).state,
            final(self).batch_size == old(self).batch_size,
    {
        let mut out: Vec<T> = Vec::new();
        std::mem::swap(&mut out, &mut self.batch);
        out
    }

    /// Handles one event, returning the batch to flush, if any.
    pub fn step(&mut self, event: WorkerEvent<T>) -> (r: Option<Vec<T>>)
        ensures
            final(self).limit() == old(self).limit(),
            (final(self)@, batch_view(r)) == step_model(old(self)@, old(self).limit(), event),
    {
        let ghost before = self@;
        let r = match self.state {
            WorkerState::Running => match event {
                WorkerEvent::Item(x) => {
                    self.batch.push(x);
                    if self.batch.len() >= self.batch_size {
                        Some(self.take_batch())
                    } else {
                        None
                    }
                },
                WorkerEvent::Tick => if self.batch.len() > 0 {
                    Some(self.take_batch())
                } else {
                    None
                },
                WorkerEvent::Shutdown => {
                    self.state = WorkerState::Draining;
                    None
                },
                WorkerEvent::Drained => None,
            },
            WorkerState::Draining => match event {
                WorkerEvent::Item(x) => {
                    self.batch.push(x);
                    None
                },
                WorkerEvent::Drained => {
                    self.state = WorkerState::Stopped;
                    if self.batch.len() > 0 {
                        Some(self.take_batch())
                    } else {
                        None
                    }
                },
                _ => None,
            },
            WorkerState::Stopped => None,
        };
        assert(self.batch@ =~= step_model(before, old(self).limit(), event).0.batch);
        r
    }
}

proof fn lemma_push_flatten<T>(fl: Seq<Seq<T>>, b: Seq<T>)
    ensures
        fl.push(b).flatten_alt() == fl.flatten_alt() + b,
{
    assert(fl.push(b).drop_last() =~= fl);
}

/// Until the queue is drained, the worker is running, or draining once a
/// shutdown was requested. Nothing else, and no storage outcome, which the
/// worker never sees, changes its state.
pub proof fn lemma_state_until_drained<T>(m: WorkerModel<T>, batch_size: nat, events: Seq<WorkerEvent<T>>)
    requires
        m.state != WorkerState::Stopped,
        has_no_drained(events),
    ensures
        run_model(m, batch_size, events).0.state == if m.state == WorkerState::Draining || has_shutdown(events) {
            WorkerState::Draining
        } else {
            WorkerState::Running
        },
    decreases events.len(),
{
    if events.len() > 0 {
        let init = events.drop_last();
        assert forall|i: int| 0 <= i < init.len() implies !(#[trigger] init[i] is Drained) by {
            assert(init[i] == events[i]);
        }
        lemma_state_until_drained(m, batch_size, init);
        assert(!(events[events.len() - 1] is Drained));
        if has_shutdown(init) {
            let i = choose|i: int| 0 <= i < init.len() && #[trigger] init[i] is Shutdown;
            assert(events[i] is Shutdown);
        }
        if has_shutdown(events) && !has_shutdown(init) {
            let i = choose|i: int| 0 <= i < events.len() && #[trigger] events[i] is Shutdown;
            if i < init.len() {
                assert(init[i] is Shutdown);
            }
        }
        if events.last() is Shutdown {
            assert(events[events.len() - 1] is Shutdown);
        }
    }
}

/// Every item that arrives before the queue is drained is either in exactly
/// one flushed batch or still in the batch, in arrival order: none is lost
/// and none is written twice.
pub proof fn lemma_items_kept_once<T>(m: WorkerModel<T>, batch_size: nat, events: Seq<WorkerEvent<T>>)
    requires
        m.state != WorkerState::Stopped,
        has_no_drained(events),
    ensures
        run_model(m, batch_size, events).1.flatten_alt() + run_model(m, batch_size, events).0.batch
            == m.batch + items_of(events),
    decreases events.len(),
{
    if events.len() > 0 {
        let init = events.drop_last();
        assert forall|i: int| 0 <= i < init.len() implies !(#[trigger] init[i] is Drained) by {
            assert(init[i] == events[i]);
        }
        lemma_items_kept_once(m, batch_size, init);
        lemma_state_until_drained(m, batch_size, init);
        assert(!(events[events.len() - 1] is Drained));
        let (m1, fl1) = run_model(m, batch_size, init);
        let (m2, out) = step_model(m1, batch_size, events.last());
        match out {
            Some(b) => {
                lemma_push_flatten(fl1, b);
            },
            None => {},
        }
        match events.last() {
            WorkerEvent::Item(x) => {
                assert(m.batch + items_of(init).push(x) =~= (m.batch + items_of(init)).push(x));
                assert(fl1.flatten_alt() + m1.batch.push(x) =~= (fl1.flatten_alt() + m1.batch).push(x));
            },
            _ => {},
        }
        assert(run_model(m, batch_size, events).1.flatten_alt() + run_model(m, batch_size, events).0.batch
            =~= m.batch + items_of(events));
    }
}

/// While fewer than `batch_size` items have gathered and the timer has not
/// ticked, nothing is flushed.
pub proof fn lemma_no_flush_below_threshold<T>(m: WorkerModel<T>, batch_size: nat, events: Seq<WorkerEvent<T>>)
    requires
        m.state == WorkerState::Running,
        only_items(events),
        m.batch.len() + events.len() < batch_size,
    ensures
        run_model(m, batch_size, events).1.len() == 0,
        run_model(m, batch_size, events).0.state == WorkerState::Running,
        run_model(m, batch_size, events).0.batch == m.batch + items_of(events),
    decreases events.len(),
{
    if events.len() > 0 {
        let init = events.drop_last();
        assert forall|i: int| 0 <= i < init.len() implies #[trigger] init[i] is Item by {
            assert(init[i] == events[i]);
        }
        lemma_no_flush_below_threshold(m, batch_size, init);
        lemma_items_len(init);
        assert(events[events.len() - 1] is Item);
        let x = events.last()->Item_0;
        assert(m.batch + items_of(init).push(x) =~= (m.batch + items_of(init)).push(x));
    } else {
        assert(m.batch + items_of(events) =~= m.batch);
    }
}

/// From a fresh worker, exactly `batch_size` items cause exactly one flush,
/// of exactly those items, and leave an empty batch.
pub proof fn lemma_flush_at_batch_size<T>(batch_size: nat, events: Seq<WorkerEvent<T>>)
    requires
        batch_size > 0,
        only_items(events),
        events.len() == batch_size,
    ensures
        run_model(initial_model::<T>(), batch_size, events).1 == seq![items_of(events)],
        run_model(initial_model::<T>(), batch_size, events).0 == initial_model::<T>(),
{
    let init = events.drop_last();
    assert forall|i: int| 0 <= i < init.len() implies #[trigger] init[i] is Item by {
        assert(init[i] == events[i]);
    }
    lemma_no_flush_below_threshold(initial_model::<T>(), batch_size, init);
    lemma_items_len(init);
    assert(events[events.len() - 1] is Item);
    let x = events.last()->Item_0;
    assert(Seq::<T>::empty() + items_of(init) =~= items_of(init));
    let fl = run_model(initial_model::<T>(), batch_size, events).1;
    assert(fl =~= seq![items_of(events)]);
    assert(run_model(initial_model::<T>(), batch_size, events).0.batch =~= Seq::<T>::empty());
}

/// From a fresh worker, a batch below the size threshold is flushed, whole,
/// at the next timer tick.
pub proof fn lemma_flush_on_tick<T>(batch_size: nat, events: Seq<WorkerEvent<T>>)
    requires
        only_items(events),
        0 < events.len() < batch_size,
    ensures
        run_model(initial_model::<T>(), batch_size, events.push(WorkerEvent::Tick)).1 == seq![items_of(events)],
        run_model(initial_model::<T>(), batch_size, events.push(WorkerEvent::Tick)).0 == initial_model::<T>(),
{
    lemma_no_flush_below_threshold(initial_model::<T>(), batch_size, events);
    let evs = events.push(WorkerEvent::Tick);
    assert(evs.drop_last() =~= events);
    assert(Seq::<T>::empty() + items_of(events) =~= items_of(events));
    assert(items_of(events).len() == events.len()) by {
        lemma_items_len(events);
    }
    let fl = run_model(initial_model::<T>(), batch_size, evs).1;
    assert(fl =~= seq![items_of(events)]);
    assert(run_model(initial_model::<T>(), batch_size, evs).0.batch =~= Seq::<T>::empty());
}

proof fn lemma_items_len<T>(events: Seq<WorkerEvent<T>>)
    requires
        only_items(events),
    ensures
        items_of(events).len() == events.len(),
    decreases events.len(),
{
    if events.len() > 0 {
        let init = events.drop_last();
        assert forall|i: int| 0 <= i < init.len() implies #[trigger] init[i] is Item by {
            assert(init[i] == events[i]);
        }
        lemma_items_len(init);
        assert(events[events.len() - 1] is Item);
    }
}

/// From a fresh worker, once shutdown was requested and the queue drained,
/// the worker has stopped, and the flushed batches hold every item that
/// arrived, each exactly once, in arrival order.
pub proof fn lemma_shutdown_flushes_all<T>(batch_size: nat, events: Seq<WorkerEvent<T>>)
    requires
        has_no_drained(events),
        has_shutdown(events),
    ensures
        run_model(initial_model::<T>(), batch_size, events.push(WorkerEvent::Drained)).0.state == WorkerState::Stopped,
        run_model(initial_model::<T>(), batch_size, events.push(WorkerEvent::Drained)).0.batch.len() == 0,
        run_model(initial_model::<T>(), batch_size, events.push(WorkerEvent::Drained)).1.flatten_alt()
            == items_of(events),
{
    let m = initial_model::<T>();
    lemma_state_until_drained(m, batch_size, events);
    lemma_items_kept_once(m, batch_size, events);
    let evs = events.push(WorkerEvent::Drained);
    assert(evs.drop_last() =~= events);
    let (m1, fl1) = run_model(m, batch_size, events);
    assert(Seq::<T>::empty() + items_of(events) =~= items_of(events));
    assert(items_of(evs) == items_of(events));
    if m1.batch.len() > 0 {
        lemma_push_flatten(fl1, m1.batch);
    } else {
        assert(fl1.flatten_alt() + m1.batch =~= fl1.flatten_alt());
    }
}

} // verus!
