//! Per-topic buffering: samples, flush tasks, the bounded flush-task queue,
//! and the topic buffer with its size and age flush thresholds.

use vstd::prelude::*;

verus! {

/// One message delivered by the publish/subscribe layer: opaque payload
/// bytes, the topic it arrived on, an optional source timestamp in
/// nanoseconds, and an encoding hint carried through unchanged.
#[derive(Debug, Clone)]
pub struct Sample {
    pub topic: String,
    pub payload: Vec<u8>,
    pub timestamp_ns: Option<u64>,
    pub encoding: String,
}

impl Sample {
    /// A sample without a source timestamp.
    pub fn new(topic: String, payload: Vec<u8>) -> (r: Sample)
        ensures
            r.topic == topic,
            r.payload == payload,
            r.timestamp_ns is None,
            r.encoding@ == Seq::<char>::empty(),
    {
        Sample { topic, payload, timestamp_ns: None, encoding: String::new() }
    }

    /// A sample with a source timestamp.
    pub fn with_timestamp(topic: String, payload: Vec<u8>, timestamp_ns: u64) -> (r: Sample)
        ensures
            r.topic == topic,
            r.payload == payload,
            r.timestamp_ns == Some(timestamp_ns),
            r.encoding@ == Seq::<char>::empty(),
    {
        Sample { topic, payload, timestamp_ns: Some(timestamp_ns), encoding: String::new() }
    }
}

/// An ordered batch of samples handed from a topic buffer to a flush worker.
/// Immutable once enqueued.
#[derive(Clone)]
pub struct FlushTask {
    pub topic: String,
    pub samples: Vec<Sample>,
    pub recording_id: String,
}

#[verifier::external_type_specification]
#[verifier::external_body]
#[verifier::reject_recursive_types(T)]
pub struct ExArrayQueue<T>(crossbeam::queue::ArrayQueue<T>);

/// The flush tasks a queue holds, oldest first.
pub uninterp spec fn queue_tasks(q: crossbeam::queue::ArrayQueue<FlushTask>) -> Seq<FlushTask>;

/// The capacity a queue was created with.
pub uninterp spec fn queue_bound(q: crossbeam::queue::ArrayQueue<FlushTask>) -> nat;

/// The bounded many-producer many-consumer flush-task queue.
pub struct FlushQueue {
    inner: crossbeam::queue::ArrayQueue<FlushTask>,
}

impl FlushQueue {
    /// The tasks the queue holds, oldest first.
    pub closed spec fn tasks(self) -> Seq<FlushTask> {
        queue_tasks(self.inner)
    }

    /// The fixed capacity.
    pub closed spec fn bound(self) -> nat {
        queue_bound(self.inner)
    }

    /// The queue never holds more tasks than its capacity, and the
    /// capacity is a machine word.
    pub open spec fn wf(self) -> bool {
        &&& self.tasks().len() <= self.bound()
        &&& 0 < self.bound() <= usize::MAX
    }

    /// Relies on crossbeam's `ArrayQueue::new`: creates an empty bounded
    /// queue with the given capacity (it panics on a zero capacity, kept
    /// out by `requires`).
    #[verifier::external_body]
    fn new_inner(capacity: usize) -> (q: crossbeam::queue::ArrayQueue<FlushTask>)
        requires
            0 < capacity < usize::MAX / 2,
        ensures
            queue_tasks(q) == Seq::<FlushTask>::empty(),
            queue_bound(q) == capacity as nat,
    {
        crossbeam::queue::ArrayQueue::new(capacity)
    }

    /// An empty queue with the given capacity.
    pub fn new(capacity: usize) -> (q: FlushQueue)
        requires
            0 < capacity < usize::MAX / 2,
        ensures
            q.tasks() == Seq::<FlushTask>::empty(),
            q.bound() == capacity as nat,
            q.wf(),
    {
        FlushQueue { inner: Self::new_inner(capacity) }
    }

    /// Relies on crossbeam's `ArrayQueue::push`: appends at the tail, or
    /// hands the value back when the queue is full.
    #[verifier::external_body]
    fn push_inner(q: &mut crossbeam::queue::ArrayQueue<FlushTask>, t: FlushTask) -> (r: Result<(), FlushTask>)
        ensures
            queue_bound(*final(q)) == queue_bound(*old(q)),
            queue_tasks(*old(q)).len() < queue_bound(*old(q)) ==> r is Ok && queue_tasks(*final(q))
                == queue_tasks(*old(q)).push(t),
            queue_tasks(*old(q)).len() >= queue_bound(*old(q)) ==> (r matches Err(v) && v == t)
                && queue_tasks(*final(q)) == queue_tasks(*old(q)),
    {
        q.push(t)
    }

    /// Best-effort enqueue: appends the task unless the queue is full, in
    /// which case the task is handed back.
    pub fn try_push(&mut self, t: FlushTask) -> (r: Result<(), FlushTask>)
        requires
            old(self).wf(),
        ensures
            final(self).wf(),
            final(self).bound() == old(self).bound(),
            old(self).tasks().len() < old(self).bound() ==> r is Ok
                && final(self).tasks() == old(self).tasks().push(t),
            old(self).tasks().len() >= old(self).bound() ==> (r matches Err(v) && v == t)
                && final(self).tasks() == old(self).tasks(),
    {
        Self::push_inner(&mut self.inner, t)
    }

    /// Relies on crossbeam's `ArrayQueue::pop`: removes and returns the
    /// oldest task, or `None` when the queue is empty.
    #[verifier::external_body]
    fn pop_inner(q: &mut crossbeam::queue::ArrayQueue<FlushTask>) -> (r: Option<FlushTask>)
        ensures
            queue_bound(*final(q)) == queue_bound(*old(q)),
            queue_tasks(*old(q)).len() == 0 ==> r is None && queue_tasks(*final(q)) == queue_tasks(
                *old(q),
            ),
            queue_tasks(*old(q)).len() > 0 ==> r == Some(queue_tasks(*old(q))[0]) && queue_tasks(
                *final(q),
            ) == queue_tasks(*old(q)).drop_first(),
    {
        q.pop()
    }

    /// Removes and returns the oldest task, if any.
    pub fn try_pop(&mut self) -> (r: Option<FlushTask>)
        requires
            old(self).wf(),
        ensures
            final(self).wf(),
            final(self).bound() == old(self).bound(),
            old(self).tasks().len() == 0 ==> r is None && final(self).tasks() == old(self).tasks(),
            old(self).tasks().len() > 0 ==> r == Some(old(self).tasks()[0]) && final(self).tasks()
                == old(self).tasks().drop_first(),
    {
        Self::pop_inner(&mut self.inner)
    }

    /// Relies on crossbeam's `ArrayQueue::len`: the number of tasks held.
    #[verifier::external_body]
    fn len_inner(q: &crossbeam::queue::ArrayQueue<FlushTask>) -> (r: usize)
        requires
            queue_tasks(*q).len() <= usize::MAX,
        ensures
            r as nat == queue_tasks(*q).len(),
    {
        q.len()
    }

    /// The number of tasks held.
    pub fn len(&self) -> (r: usize)
        requires
            self.wf(),
        ensures
            r as nat == self.tasks().len(),
    {
        Self::len_inner(&self.inner)
    }
}

/// Total payload bytes of a run of samples.
pub open spec fn payload_bytes(s: Seq<Sample>) -> int
    decreases s.len(),
{
    if s.len() == 0 {
        0
    } else {
        payload_bytes(s.drop_last()) + s.last().payload@.len()
    }
}

/// What one push did: the sample was buffered, or it triggered a flush
/// whose task was enqueued, or it triggered a flush whose task was dropped
/// because the queue was full.
#[derive(Debug, Clone, Copy, PartialEq, Eq, Structural)]
pub enum PushOutcome {
    Buffered,
    Flushed,
    DroppedFlush,
}

/// Accumulator for one (recording, topic) pair with size and age flush
/// thresholds. One list plays the double buffer's active half; a flush
/// takes the whole list at once, which a reader can never observe
/// half-swapped.
pub struct TopicBuffer {
    pub topic_name: String,
    pub recording_id: String,
    pub active: Vec<Sample>,
    pub total_samples: usize,
    pub total_bytes: usize,
    pub max_buffer_size: usize,
    pub max_buffer_duration_secs: u64,
    pub last_flush_time: u64,
}

impl TopicBuffer {
    /// The counters describe the active list exactly; the byte counter
    /// saturates at the machine-word bound.
    pub open spec fn wf(self) -> bool {
        &&& self.total_samples == self.active@.len()
        &&& self.total_bytes == if payload_bytes(self.active@) <= usize::MAX {
            payload_bytes(self.active@)
        } else {
            usize::MAX as int
        }
    }

    /// Whether a push is followed by a flush: the byte counter has reached
    /// the size threshold, or the age threshold has passed since the last
    /// flush.
    pub open spec fn spec_should_flush(self, now_secs: u64) -> bool {
        self.total_bytes >= self.max_buffer_size || now_secs >= self.last_flush_time
            + self.max_buffer_duration_secs
    }

    /// An empty buffer whose age threshold starts counting now.
    pub fn new(
        topic_name: String,
        recording_id: String,
        max_buffer_size: usize,
        max_buffer_duration_secs: u64,
        now_secs: u64,
    ) -> (r: TopicBuffer)
        ensures
            r.wf(),
            r.topic_name == topic_name,
            r.recording_id == recording_id,
            r.active@.len() == 0,
            r.total_samples == 0,
            r.total_bytes == 0,
            r.max_buffer_size == max_buffer_size,
            r.max_buffer_duration_secs == max_buffer_duration_secs,
            r.last_flush_time == now_secs,
    {
        TopicBuffer {
            topic_name,
            recording_id,
            active: Vec::new(),
            total_samples: 0,
            total_bytes: 0,
            max_buffer_size,
            max_buffer_duration_secs,
            last_flush_time: now_secs,
        }
    }

    /// Current (sample count, byte count) of the active list.
    pub fn stats(&self) -> (r: (usize, usize))
        ensures
            r.0 == self.total_samples,
            r.1 == self.total_bytes,
    {
        (self.total_samples, self.total_bytes)
    }

    /// Takes the active list as a flush task and resets the counters and
    /// the age threshold; best-effort enqueue onto the shared queue.
    fn swap_and_enqueue(&mut self, now_secs: u64, queue: &mut FlushQueue) -> (r: PushOutcome)
        requires
            old(self).wf(),
            old(queue).wf(),
        ensures
            final(self).wf(),
            final(queue).wf(),
            final(queue).bound() == old(queue).bound(),
            final(self).topic_name == old(self).topic_name,
            final(self).recording_id == old(self).recording_id,
            final(self).max_buffer_size == old(self).max_buffer_size,
            final(self).max_buffer_duration_secs == old(self).max_buffer_duration_secs,
            final(self).active@.len() == 0,
            final(self).total_samples == 0,
            final(self).total_bytes == 0,
            final(self).last_flush_time == now_secs,
            r != PushOutcome::Buffered,
            old(queue).tasks().len() < old(queue).bound() ==> r == PushOutcome::Flushed && final(queue).tasks().len() == old(queue).tasks().len() + 1 && final(queue).tasks().last().topic
                == old(self).topic_name && final(queue).tasks().last().recording_id == old(self).recording_id && final(queue).tasks().last().samples == old(self).active && final(queue).tasks().take(old(queue).tasks().len() as int) == old(queue).tasks(),
            old(queue).tasks().len() >= old(queue).bound() ==> r == PushOutcome::DroppedFlush
                && final(queue).tasks() == old(queue).tasks(),
    {
        let mut drained: Vec<Sample> = Vec::new();
        core::mem::swap(&mut drained, &mut self.active);
        self.total_samples = 0;
        self.total_bytes = 0;
        self.last_flush_time = now_secs;
        let task = FlushTask {
            topic: self.topic_name.clone(),
            samples: drained,
            recording_id: self.recording_id.clone(),
        };
        let ghost pre = queue.tasks();
        match queue.try_push(task) {
            Ok(_) => {
                proof {
                    assert(final(queue).tasks().take(pre.len() as int) =~= pre);
                }
                PushOutcome::Flushed
            },
            Err(_) => PushOutcome::DroppedFlush,
        }
    }

    /// Appends a sample to the active list and updates the counters; when
    /// the size or the age threshold is now reached, drains the list into
    /// a flush task in push order and enqueues it best-effort.
    pub fn push_sample(&mut self, sample: Sample, now_secs: u64, queue: &mut FlushQueue) -> (r:
        PushOutcome)
        requires
            old(self).wf(),
            old(queue).wf(),
        ensures
            final(self).wf(),
            final(queue).wf(),
            final(queue).bound() == old(queue).bound(),
            final(self).topic_name == old(self).topic_name,
            final(self).recording_id == old(self).recording_id,
            final(self).max_buffer_size == old(self).max_buffer_size,
            final(self).max_buffer_duration_secs == old(self).max_buffer_duration_secs,
            ({
                let sat_bytes: int = if old(self).total_bytes + sample.payload@.len()
                    <= usize::MAX {
                    old(self).total_bytes + sample.payload@.len()
                } else {
                    usize::MAX as int
                };
                let flushed = sat_bytes >= old(self).max_buffer_size || now_secs >= old(self).last_flush_time + old(self).max_buffer_duration_secs;
                if !flushed {
                    r == PushOutcome::Buffered && final(self).active@ == old(self).active@.push(
                        sample,
                    ) && final(self).total_samples == old(self).total_samples + 1 && final(self).total_bytes == sat_bytes && final(self).last_flush_time == old(self).last_flush_time && *final(queue) == *old(queue)
                } else {
                    final(self).active@.len() == 0 && final(self).total_samples == 0 && final(self).total_bytes == 0 && final(self).last_flush_time == now_secs && if old(queue).tasks().len() < old(queue).bound() {
                        r == PushOutcome::Flushed && final(queue).tasks().len() == old(queue).tasks().len() + 1 && final(queue).tasks().last().topic == old(self).topic_name && final(queue).tasks().last().recording_id == old(self).recording_id && final(queue).tasks().last().samples@ == old(self).active@.push(sample) && final(queue).tasks().take(
                            old(queue).tasks().len() as int,
                        ) == old(queue).tasks()
                    } else {
                        r == PushOutcome::DroppedFlush && final(queue).tasks() == old(queue).tasks()
                    }
                }
            }),
    {
        let len = sample.payload.len();
        self.active.push(sample);
        self.total_samples = self.active.len();
        self.total_bytes = self.total_bytes.saturating_add(len);
        proof {
            assert(self.active@.drop_last() =~= old(self).active@);
            assert(payload_bytes(self.active@) == payload_bytes(old(self).active@) + len);
        }
        let flush = self.total_bytes >= self.max_buffer_size || (now_secs >= self.last_flush_time
            && now_secs - self.last_flush_time >= self.max_buffer_duration_secs);
        if flush {
            self.swap_and_enqueue(now_secs, queue)
        } else {
            PushOutcome::Buffered
        }
    }

    /// Unconditionally drains the active list into a flush task, in push
    /// order, and enqueues it best-effort; invoked during termination.
    pub fn force_flush(&mut self, now_secs: u64, queue: &mut FlushQueue) -> (r: PushOutcome)
        requires
            old(self).wf(),
            old(queue).wf(),
        ensures
            final(self).wf(),
            final(queue).wf(),
            final(queue).bound() == old(queue).bound(),
            final(self).topic_name == old(self).topic_name,
            final(self).recording_id == old(self).recording_id,
            final(self).max_buffer_size == old(self).max_buffer_size,
            final(self).max_buffer_duration_secs == old(self).max_buffer_duration_secs,
            final(self).active@.len() == 0,
            final(self).total_samples == 0,
            final(self).total_bytes == 0,
            final(self).last_flush_time == now_secs,
            r != PushOutcome::Buffered,
            old(queue).tasks().len() < old(queue).bound() ==> r == PushOutcome::Flushed && final(queue).tasks().len() == old(queue).tasks().len() + 1 && final(queue).tasks().last().topic
                == old(self).topic_name && final(queue).tasks().last().recording_id == old(self).recording_id && final(queue).tasks().last().samples == old(self).active && final(queue).tasks().take(old(queue).tasks().len() as int) == old(queue).tasks(),
            old(queue).tasks().len() >= old(queue).bound() ==> r == PushOutcome::DroppedFlush
                && final(queue).tasks() == old(queue).tasks(),
    {
        self.swap_and_enqueue(now_secs, queue)
    }
}

} // verus!
