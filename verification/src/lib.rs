//! A single-process delayed-delivery scheduler: callers submit a value
//! together with a desired delivery time, a time-ordered queue holds the
//! pending items, and a worker drains each value to a consumer at or after
//! its time, in non-decreasing time order.

mod queue;
mod time;

pub use queue::NextItem;
pub use queue::Queue;
pub use queue::lemma_earlier_submission_takes_the_head;
pub use queue::lemma_elapsed_items_are_delivered;
pub use queue::lemma_no_early_delivery;
pub use queue::lemma_ordered_delivery;
pub use queue::lemma_ready_count;
pub use queue::ready_count;
pub use queue::sorted_by_time;
pub use queue::values_of;
pub use time::DesiredTime;

use vstd::prelude::*;

verus! {

/// Anything that can receive a delivered value.
pub trait Consumer<T> {
    fn consume(&self, t: T);
}

/// The error of a failed submission: the worker has terminated, and the value
/// is handed back to the caller rather than silently lost.
#[derive(PartialEq, Eq, Debug)]
pub struct DeliveryFailed<T>(pub T);

/// Relies on std::sync::mpsc::Sender, the send side of an unbounded
/// multi-producer, single-consumer channel; the value is carried through
/// opaquely.
#[verifier::external_type_specification]
#[verifier::external_body]
#[verifier::reject_recursive_types(T)]
pub struct ExSender<T>(std::sync::mpsc::Sender<T>);

/// The producer-facing handle: holds the send side of the hand-off channel
/// that carries submissions to the worker.
#[verifier::reject_recursive_types(T)]
pub struct Schedule<T> {
    send: std::sync::mpsc::Sender<(T, DesiredTime)>,
}

/// Relies on std::sync::mpsc::Sender::send: it never blocks, and it fails
/// only when the receiver has disconnected, in which case the error carries
/// the unsent message back.
#[verifier::external_body]
fn channel_send<T>(
    sender: &std::sync::mpsc::Sender<(T, DesiredTime)>,
    message: T,
    time: DesiredTime,
) -> (r: Result<(), DeliveryFailed<T>>)
    ensures
        r matches Err(e) ==> e.0 == message,
{
    sender.send((message, time)).map_err(|e| DeliveryFailed((e.0).0))
}

impl<T> Schedule<T> {
    /// Wraps the send side of a hand-off channel whose receive side a worker
    /// drains.
    pub fn from_sender(send: std::sync::mpsc::Sender<(T, DesiredTime)>) -> Schedule<T> {
        Schedule { send }
    }

    /// Submits a value for delivery at or after the given time. Never blocks;
    /// fails only when the worker has terminated, and then the error returns
    /// the value to the caller.
    pub fn send(&self, message: T, time: DesiredTime) -> (r: Result<(), DeliveryFailed<T>>)
        ensures
            r matches Err(e) ==> e.0 == message,
    {
        channel_send(&self.send, message, time)
    }

    /// Submits a value for immediate delivery: `send` with the current
    /// instant as the desired time.
    pub fn send_now(&self, message: T) -> (r: Result<(), DeliveryFailed<T>>)
        ensures
            r matches Err(e) ==> e.0 == message,
    {
        let time = DesiredTime::now();
        channel_send(&self.send, message, time)
    }
}

/// What the worker observes when its wait on the hand-off channel ends.
#[derive(PartialEq, Eq, Debug)]
pub enum WorkerEvent<T> {
    /// A new submission arrived.
    Received(T, DesiredTime),
    /// The bounded wait ran out: the time it waited for has come.
    TimedOut,
    /// Every producer handle is gone and no submission is pending.
    Disconnected,
}

/// Whether the worker keeps running after an event.
#[derive(PartialEq, Eq, Debug)]
pub enum WorkerStep {
    KeepRunning,
    Terminated,
}

/// The worker's decision on one event: a received submission joins the queue
/// and the worker re-drains; a timeout re-drains with nothing added; a
/// disconnect terminates the worker, the queue untouched.
pub fn apply_event<T>(queue: &mut Queue<T>, event: WorkerEvent<T>) -> (r: WorkerStep)
    requires
        old(queue).wf(),
    ensures
        final(queue).wf(),
        event matches WorkerEvent::Received(data, time) ==> r == WorkerStep::KeepRunning
            && final(queue)@ == old(queue)@.insert(
            ready_count(old(queue)@, time@),
            (time, data),
        ),
        event is TimedOut ==> r == WorkerStep::KeepRunning && final(queue)@ == old(queue)@,
        event is Disconnected ==> r == WorkerStep::Terminated && final(queue)@ == old(queue)@,
{
    match event {
        WorkerEvent::Received(data, time) => {
            queue.put(data, time);
            WorkerStep::KeepRunning
        },
        WorkerEvent::TimedOut => WorkerStep::KeepRunning,
        WorkerEvent::Disconnected => WorkerStep::Terminated,
    }
}

/// One drain: delivers every currently-ready item to the consumer, earliest
/// first, then reports how the worker should wait — `Some(t)` to wait until
/// `t` (the earliest remaining time), `None` to wait indefinitely because the
/// queue is empty. Items whose time has not come are not removed.
pub fn send_while_next_is_available<T, S: Consumer<T>>(
    queue: &mut Queue<T>,
    consumer: &S,
) -> (r: Option<DesiredTime>)
    requires
        old(queue).wf(),
    ensures
        final(queue).wf(),
        r is None ==> final(queue)@.len() == 0,
        r matches Some(t) ==> final(queue)@.len() > 0 && t == final(queue)@[0].0,
        exists|k: int| 0 <= k <= old(queue)@.len() && final(queue)@ == old(queue)@.skip(k),
{
    let ghost orig = queue@;
    proof {
        assert(orig.skip(0) =~= orig);
    }
    loop
        invariant
            queue.wf(),
            orig == old(queue)@,
            exists|k: int| 0 <= k <= orig.len() && queue@ == orig.skip(k),
        decreases queue@.len(),
    {
        let ghost pre = queue@;
        match queue.next() {
            NextItem::After(desired_time) => {
                return Some(desired_time);
            },
            NextItem::Never => {
                return None;
            },
            NextItem::Now(data) => {
                proof {
                    let k = choose|k: int| 0 <= k <= orig.len() && pre == orig.skip(k);
                    assert(orig.skip(k).drop_first() =~= orig.skip(k + 1));
                }
                consumer.consume(data);
            },
        }
    }
}

} // verus!
