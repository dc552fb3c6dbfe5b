//! Recording sessions and the recording manager: the lifecycle state
//! machine, lazy per-topic buffers, aggregate counters, and the registry
//! of sessions keyed by recording id. The manager owns the shared
//! flush-task queue; flush workers drain it through the manager.

use vstd::prelude::*;
use vstd::string::StringExecFns;

use crate::buffer::{FlushQueue, FlushTask, PushOutcome, Sample, TopicBuffer};
use crate::config::string_is;
use crate::protocol::{
    CompressionLevel, CompressionType, RecorderCommand, RecorderRequest, RecorderResponse,
    RecordingMetadata, RecordingStatus, StatusResponse,
};

verus! {

/// The lifecycle table: what each control command does in each state.
/// `None` is an illegal transition, which leaves the state unchanged.
pub open spec fn transition(s: RecordingStatus, c: RecorderCommand) -> Option<RecordingStatus> {
    match c {
        RecorderCommand::Pause => if s == RecordingStatus::Recording {
            Some(RecordingStatus::Paused)
        } else {
            None
        },
        RecorderCommand::Resume => if s == RecordingStatus::Paused {
            Some(RecordingStatus::Recording)
        } else {
            None
        },
        RecorderCommand::Cancel => if s == RecordingStatus::Recording || s
            == RecordingStatus::Paused || s == RecordingStatus::Uploading {
            Some(RecordingStatus::Cancelled)
        } else {
            None
        },
        RecorderCommand::Finish => if s == RecordingStatus::Recording || s
            == RecordingStatus::Paused {
            Some(RecordingStatus::Finished)
        } else {
            None
        },
        RecorderCommand::Start => None,
    }
}

/// Samples still waiting in the given buffers.
pub open spec fn pending_samples(bs: Seq<TopicBuffer>) -> int
    decreases bs.len(),
{
    if bs.len() == 0 {
        0
    } else {
        pending_samples(bs.drop_last()) + bs.last().active@.len()
    }
}

/// Bytes still waiting in the given buffers.
pub open spec fn pending_bytes(bs: Seq<TopicBuffer>) -> int
    decreases bs.len(),
{
    if bs.len() == 0 {
        0
    } else {
        pending_bytes(bs.drop_last()) + bs.last().total_bytes
    }
}

/// Replacing one buffer changes the pending count by the difference.
proof fn lemma_pending_update(bs: Seq<TopicBuffer>, i: int, b: TopicBuffer)
    requires
        0 <= i < bs.len(),
    ensures
        pending_samples(bs.update(i, b)) == pending_samples(bs) - bs[i].active@.len()
            + b.active@.len(),
    decreases bs.len(),
{
    if i == bs.len() - 1 {
        assert(bs.update(i, b).drop_last() =~= bs.drop_last());
        assert(bs.update(i, b).last() == b);
    } else {
        assert(bs.update(i, b).drop_last() =~= bs.drop_last().update(i, b));
        assert(bs.update(i, b).last() == bs.last());
        lemma_pending_update(bs.drop_last(), i, b);
    }
}

/// Appending a buffer adds its pending count.
proof fn lemma_pending_push(bs: Seq<TopicBuffer>, b: TopicBuffer)
    ensures
        pending_samples(bs.push(b)) == pending_samples(bs) + b.active@.len(),
{
    assert(bs.push(b).drop_last() =~= bs);
    assert(bs.push(b).last() == b);
}

/// One recording's state: identity and metadata, requested topics, the
/// per-topic buffers created lazily on first sample, and the aggregate
/// counters updated at push time.
pub struct RecordingSession {
    pub recording_id: String,
    pub scene: Option<String>,
    pub skills: Vec<String>,
    pub organization: Option<String>,
    pub task_id: Option<String>,
    pub device_id: String,
    pub data_collector_id: Option<String>,
    pub topics: Vec<String>,
    pub compression_type: CompressionType,
    pub compression_level: CompressionLevel,
    pub state: RecordingStatus,
    pub buffers: Vec<TopicBuffer>,
    pub total_samples: u64,
    pub total_bytes: u64,
    pub dropped_tasks: u64,
    pub start_time: u64,
    pub end_time: Option<u64>,
    pub max_buffer_size: usize,
    pub max_buffer_duration_secs: u64,
    /// Every sample ever accepted by this session.
    pub pushed_count: Ghost<int>,
    /// Samples that left in flush tasks successfully enqueued.
    pub enqueued_count: Ghost<int>,
    /// Samples lost with flush tasks dropped on a full queue.
    pub dropped_count: Ghost<int>,
}

impl RecordingSession {
    /// Internal invariant: a session is never idle, its buffers are
    /// consistent, belong to it, and have distinct topics, and every
    /// accepted sample is enqueued, dropped, or still pending.
    pub open spec fn wf(self) -> bool {
        &&& self.state != RecordingStatus::Idle
        &&& forall|i: int| 0 <= i < self.buffers.len() ==> (#[trigger] self.buffers[i]).wf()
        &&& forall|i: int|
            0 <= i < self.buffers.len() ==> (#[trigger] self.buffers[i]).recording_id@
                == self.recording_id@
        &&& forall|i: int, j: int|
            0 <= i < j < self.buffers.len() ==> (#[trigger] self.buffers[i]).topic_name@ != (
            #[trigger] self.buffers[j]).topic_name@
        &&& self.pushed_count@ == self.enqueued_count@ + self.dropped_count@ + pending_samples(
            self.buffers@,
        )
        &&& self.enqueued_count@ >= 0
        &&& self.dropped_count@ >= 0
    }

    /// A fresh session in the recording state, with no buffers and zeroed
    /// counters.
    pub fn new(
        request: RecorderRequest,
        recording_id: String,
        max_buffer_size: usize,
        max_buffer_duration_secs: u64,
        now_secs: u64,
    ) -> (r: RecordingSession)
        ensures
            r.wf(),
            r.recording_id == recording_id,
            r.device_id == request.device_id,
            r.scene == request.scene,
            r.skills == request.skills,
            r.organization == request.organization,
            r.task_id == request.task_id,
            r.data_collector_id == request.data_collector_id,
            r.topics == request.topics,
            r.compression_type == request.compression_type,
            r.compression_level == request.compression_level,
            r.state == RecordingStatus::Recording,
            r.buffers@.len() == 0,
            r.total_samples == 0,
            r.total_bytes == 0,
            r.dropped_tasks == 0,
            r.start_time == now_secs,
            r.end_time is None,
            r.pushed_count@ == 0,
            r.enqueued_count@ == 0,
            r.dropped_count@ == 0,
            r.max_buffer_size == max_buffer_size,
            r.max_buffer_duration_secs == max_buffer_duration_secs,
    {
        RecordingSession {
            recording_id,
            scene: request.scene,
            skills: request.skills,
            organization: request.organization,
            task_id: request.task_id,
            device_id: request.device_id,
            data_collector_id: request.data_collector_id,
            topics: request.topics,
            compression_type: request.compression_type,
            compression_level: request.compression_level,
            state: RecordingStatus::Recording,
            buffers: Vec::new(),
            total_samples: 0,
            total_bytes: 0,
            dropped_tasks: 0,
            start_time: now_secs,
            end_time: None,
            max_buffer_size,
            max_buffer_duration_secs,
            pushed_count: Ghost(0),
            enqueued_count: Ghost(0),
            dropped_count: Ghost(0),
        }
    }

    /// Index of the buffer for a topic, if one was created.
    pub open spec fn spec_buffer_index(bs: Seq<TopicBuffer>, topic: Seq<char>) -> int
        decreases bs.len(),
    {
        if bs.len() == 0 {
            -1
        } else if bs[0].topic_name@ == topic {
            0
        } else {
            let r = Self::spec_buffer_index(bs.drop_first(), topic);
            if r < 0 {
                -1
            } else {
                r + 1
            }
        }
    }

    /// Finds the buffer for a topic.
    fn buffer_index(&self, topic: &String) -> (r: Option<usize>)
        ensures
            match r {
                Some(i) => Self::spec_buffer_index(self.buffers@, topic@) == i as int && i
                    < self.buffers@.len() && self.buffers@[i as int].topic_name@ == topic@,
                None => Self::spec_buffer_index(self.buffers@, topic@) == -1,
            },
    {
        let mut i: usize = 0;
        while i < self.buffers.len()
            invariant
                i <= self.buffers@.len(),
                forall|j: int| 0 <= j < i ==> (#[trigger] self.buffers@[j]).topic_name@ != topic@,
            decreases self.buffers@.len() - i,
        {
            if string_is(&self.buffers[i].topic_name, topic.as_str()) {
                proof {
                    lemma_buffer_index_at(self.buffers@, topic@, i as int);
                }
                return Some(i);
            }
            i = i + 1;
        }
        proof {
            lemma_buffer_index_props(self.buffers@, topic@);
        }
        None
    }

    /// Routes one delivered sample. While recording, the sample goes into
    /// its topic's buffer, created lazily on first use, the cumulative
    /// counters grow at push time, and at most one flush task, belonging
    /// to this recording, may be enqueued. In any other state the sample
    /// is discarded: nothing changes and nothing is enqueued.
    pub fn push_sample(&mut self, sample: Sample, now_secs: u64, queue: &mut FlushQueue) -> (r:
        bool)
        requires
            old(self).wf(),
            old(queue).wf(),
        ensures
            final(self).wf(),
            final(queue).wf(),
            final(queue).bound() == old(queue).bound(),
            final(self).recording_id == old(self).recording_id,
            final(self).state == old(self).state,
            final(self).topics == old(self).topics,
            final(self).device_id == old(self).device_id,
            final(self).start_time == old(self).start_time,
            final(self).end_time == old(self).end_time,
            r == (old(self).state == RecordingStatus::Recording),
            old(self).state != RecordingStatus::Recording ==> *final(self) == *old(self) && *final(queue) == *old(queue),
            old(self).state == RecordingStatus::Recording ==> ({
                &&& final(self).pushed_count@ == old(self).pushed_count@ + 1
                &&& final(self).total_samples == (if old(self).total_samples + 1 <= u64::MAX {
                    old(self).total_samples + 1
                } else {
                    u64::MAX as int
                })
                &&& final(self).total_bytes == (if old(self).total_bytes + sample.payload@.len()
                    <= u64::MAX {
                    old(self).total_bytes + sample.payload@.len()
                } else {
                    u64::MAX as int
                })
                &&& final(queue).tasks().len() >= old(queue).tasks().len()
                &&& final(queue).tasks().len() <= old(queue).tasks().len() + 1
                &&& final(queue).tasks().take(old(queue).tasks().len() as int) == old(queue).tasks()
                &&& (final(queue).tasks().len() > old(queue).tasks().len() ==> final(queue).tasks().last().recording_id@ == old(self).recording_id@ && final(queue).tasks().last().topic@ == sample.topic@)
            }),
    {
        if !matches!(self.state, RecordingStatus::Recording) {
            return false;
        }
        let payload_len = sample.payload.len() as u64;
        let idx = match self.buffer_index(&sample.topic) {
            Some(i) => i,
            None => {
                let b = TopicBuffer::new(
                    String::from_str(sample.topic.as_str()),
                    String::from_str(self.recording_id.as_str()),
                    self.max_buffer_size,
                    self.max_buffer_duration_secs,
                    now_secs,
                );
                let ghost pre = self.buffers@;
                proof {
                    lemma_pending_push(pre, b);
                }
                self.buffers.push(b);
                proof {
                    assert forall|j: int, k: int|
                        0 <= j < k < self.buffers@.len() implies (#[trigger] self.buffers@[
                    j]).topic_name@ != (#[trigger] self.buffers@[k]).topic_name@ by {
                        if k == self.buffers@.len() - 1 {
                            assert(Self::spec_buffer_index(pre, sample.topic@) == -1);
                            lemma_buffer_index_absent(pre, sample.topic@, j);
                        }
                    }
                }
                self.buffers.len() - 1
            },
        };
        let ghost pre_bufs = self.buffers@;
        let ghost pre_queue_len = queue.tasks().len();
        let buf = &mut self.buffers[idx];
        let outcome = buf.push_sample(sample, now_secs, queue);
        proof {
            lemma_pending_update(pre_bufs, idx as int, self.buffers@[idx as int]);
        }
        self.pushed_count = Ghost(self.pushed_count@ + 1);
        match outcome {
            PushOutcome::Buffered => {},
            PushOutcome::Flushed => {
                let ghost flushed = pre_bufs[idx as int].active@.len() + 1;
                self.enqueued_count = Ghost(self.enqueued_count@ + flushed);
            },
            PushOutcome::DroppedFlush => {
                let ghost lost = pre_bufs[idx as int].active@.len() + 1;
                self.dropped_count = Ghost(self.dropped_count@ + lost);
                self.dropped_tasks = self.dropped_tasks.saturating_add(1);
            },
        }
        self.total_samples = self.total_samples.saturating_add(1);
        self.total_bytes = self.total_bytes.saturating_add(payload_len);
        proof {
            if queue.tasks().len() == pre_queue_len {
                assert(queue.tasks().take(pre_queue_len as int) =~= queue.tasks());
            }
        }
        true
    }

    /// Pauses delivery: legal only while recording; an illegal transition
    /// changes nothing.
    pub fn pause(&mut self) -> (r: bool)
        requires
            old(self).wf(),
        ensures
            final(self).wf(),
            r == (transition(old(self).state, RecorderCommand::Pause) is Some),
            r ==> *final(self) == (RecordingSession {
                state: RecordingStatus::Paused,
                ..*old(self)
            }),
            !r ==> *final(self) == *old(self),
    {
        if matches!(self.state, RecordingStatus::Recording) {
            self.state = RecordingStatus::Paused;
            true
        } else {
            false
        }
    }

    /// Resumes delivery: legal only while paused; an illegal transition
    /// changes nothing.
    pub fn resume(&mut self) -> (r: bool)
        requires
            old(self).wf(),
        ensures
            final(self).wf(),
            r == (transition(old(self).state, RecorderCommand::Resume) is Some),
            r ==> *final(self) == (RecordingSession {
                state: RecordingStatus::Recording,
                ..*old(self)
            }),
            !r ==> *final(self) == *old(self),
    {
        if matches!(self.state, RecordingStatus::Paused) {
            self.state = RecordingStatus::Recording;
            true
        } else {
            false
        }
    }

    /// Cancels the recording from any non-terminal state: buffered samples
    /// are discarded without flushing, nothing is ever enqueued, and no
    /// terminal metadata is owed. Irreversible; illegal from a terminal
    /// state, which changes nothing.
    pub fn cancel(&mut self, now_secs: u64) -> (r: bool)
        requires
            old(self).wf(),
        ensures
            final(self).wf(),
            r == (transition(old(self).state, RecorderCommand::Cancel) is Some),
            !r ==> *final(self) == *old(self),
            r ==> final(self).state == RecordingStatus::Cancelled && final(self).buffers@.len()
                == 0 && final(self).end_time == Some(now_secs) && final(self).recording_id
                == old(self).recording_id && final(self).device_id == old(self).device_id
                && final(self).topics == old(self).topics && final(self).total_samples
                == old(self).total_samples && final(self).total_bytes == old(self).total_bytes
                && final(self).pushed_count@ == old(self).pushed_count@
                && final(self).dropped_count@ == old(self).dropped_count@ + pending_samples(
                old(self).buffers@,
            ) && final(self).enqueued_count@ == old(self).enqueued_count@,
    {
        let cancellable = matches!(
            self.state,
            RecordingStatus::Recording | RecordingStatus::Paused | RecordingStatus::Uploading
        );
        if !cancellable {
            return false;
        }
        proof {
            lemma_pending_nonneg(self.buffers@);
        }
        self.dropped_count = Ghost(self.dropped_count@ + pending_samples(self.buffers@));
        self.buffers = Vec::new();
        self.state = RecordingStatus::Cancelled;
        self.end_time = Some(now_secs);
        true
    }

    /// Finishes the recording: legal from recording or paused. Every topic
    /// buffer is force-flushed onto the queue, so nothing stays pending:
    /// every sample ever accepted has then left in an enqueued flush task
    /// or was dropped on a full queue. Each task enqueued here belongs to
    /// this recording. Illegal transitions change nothing.
    pub fn finish(&mut self, now_secs: u64, queue: &mut FlushQueue) -> (r: bool)
        requires
            old(self).wf(),
            old(queue).wf(),
        ensures
            final(self).wf(),
            final(queue).wf(),
            final(queue).bound() == old(queue).bound(),
            r == (transition(old(self).state, RecorderCommand::Finish) is Some),
            !r ==> *final(self) == *old(self) && *final(queue) == *old(queue),
            r ==> ({
                &&& final(self).state == RecordingStatus::Finished
                &&& final(self).end_time == Some(now_secs)
                &&& final(self).recording_id == old(self).recording_id
                &&& final(self).device_id == old(self).device_id
                &&& final(self).topics == old(self).topics
                &&& final(self).total_samples == old(self).total_samples
                &&& final(self).total_bytes == old(self).total_bytes
                &&& final(self).pushed_count@ == old(self).pushed_count@
                &&& pending_samples(final(self).buffers@) == 0
                &&& final(self).pushed_count@ == final(self).enqueued_count@ + final(self).dropped_count@
                &&& final(queue).tasks().len() >= old(queue).tasks().len()
                &&& final(queue).tasks().take(old(queue).tasks().len() as int) == old(queue).tasks()
                &&& forall|k: int|
                    old(queue).tasks().len() <= k < final(queue).tasks().len() ==> (
                    #[trigger] final(queue).tasks()[k]).recording_id@ == old(self).recording_id@
            }),
    {
        let finishable = matches!(
            self.state,
            RecordingStatus::Recording | RecordingStatus::Paused
        );
        if !finishable {
            return false;
        }
        self.state = RecordingStatus::Uploading;
        let ghost orig_tasks = queue.tasks();
        let mut i: usize = 0;
        while i < self.buffers.len()
            invariant
                self.wf(),
                queue.wf(),
                queue.bound() == old(queue).bound(),
                i <= self.buffers@.len(),
                self.state == RecordingStatus::Uploading,
                self.recording_id == old(self).recording_id,
                self.device_id == old(self).device_id,
                self.topics == old(self).topics,
                self.end_time == old(self).end_time,
                self.start_time == old(self).start_time,
                self.total_samples == old(self).total_samples,
                self.total_bytes == old(self).total_bytes,
                self.pushed_count@ == old(self).pushed_count@,
                self.buffers@.len() == old(self).buffers@.len(),
                forall|j: int| 0 <= j < i ==> (#[trigger] self.buffers@[j]).active@.len() == 0,
                queue.tasks().len() >= orig_tasks.len(),
                queue.tasks().take(orig_tasks.len() as int) == orig_tasks,
                forall|k: int|
                    orig_tasks.len() <= k < queue.tasks().len() ==> (#[trigger] queue.tasks()[
                    k]).recording_id@ == self.recording_id@,
            decreases self.buffers@.len() - i,
        {
            let ghost pre_bufs = self.buffers@;
            let ghost pre_tasks = queue.tasks();
            let buf = &mut self.buffers[i];
            let outcome = buf.force_flush(now_secs, queue);
            proof {
                lemma_pending_update(pre_bufs, i as int, self.buffers@[i as int]);
            }
            match outcome {
                PushOutcome::Flushed => {
                    let ghost flushed = pre_bufs[i as int].active@.len();
                    self.enqueued_count = Ghost(self.enqueued_count@ + flushed);
                },
                _ => {
                    let ghost lost = pre_bufs[i as int].active@.len();
                    self.dropped_count = Ghost(self.dropped_count@ + lost);
                    self.dropped_tasks = self.dropped_tasks.saturating_add(1);
                },
            }
            proof {
                if queue.tasks().len() == pre_tasks.len() {
                    assert(queue.tasks().take(pre_tasks.len() as int) =~= queue.tasks());
                }
                assert(queue.tasks().take(orig_tasks.len() as int) =~= queue.tasks().take(
                    pre_tasks.len() as int,
                ).take(orig_tasks.len() as int));
                assert forall|k: int|
                    orig_tasks.len() <= k < queue.tasks().len() implies (#[trigger] queue.tasks()[
                k]).recording_id@ == self.recording_id@ by {
                    if k < pre_tasks.len() {
                        assert(queue.tasks().take(pre_tasks.len() as int)[k] == queue.tasks()[k]);
                        assert(pre_tasks[k] == queue.tasks()[k]);
                    }
                }
            }
            i = i + 1;
        }
        proof {
            lemma_pending_all_empty(self.buffers@);
        }
        self.state = RecordingStatus::Finished;
        self.end_time = Some(now_secs);
        true
    }
}


/// The pending count is never negative.
proof fn lemma_pending_nonneg(bs: Seq<TopicBuffer>)
    ensures
        pending_samples(bs) >= 0,
    decreases bs.len(),
{
    if bs.len() > 0 {
        lemma_pending_nonneg(bs.drop_last());
    }
}

/// Buffers that are all empty hold nothing pending.
proof fn lemma_pending_all_empty(bs: Seq<TopicBuffer>)
    requires
        forall|j: int| 0 <= j < bs.len() ==> (#[trigger] bs[j]).active@.len() == 0,
    ensures
        pending_samples(bs) == 0,
    decreases bs.len(),
{
    if bs.len() > 0 {
        assert(bs.last() == bs[bs.len() - 1]);
        lemma_pending_all_empty(bs.drop_last());
    }
}

/// What `spec_buffer_index` returns: the least matching index, or `-1`.
proof fn lemma_buffer_index_props(bs: Seq<TopicBuffer>, topic: Seq<char>)
    ensures
        RecordingSession::spec_buffer_index(bs, topic) == -1 ==> forall|j: int|
            0 <= j < bs.len() ==> (#[trigger] bs[j]).topic_name@ != topic,
        RecordingSession::spec_buffer_index(bs, topic) >= 0 ==> 0
            <= RecordingSession::spec_buffer_index(bs, topic) < bs.len() && bs[
        RecordingSession::spec_buffer_index(bs, topic)].topic_name@ == topic,
    decreases bs.len(),
{
    if bs.len() == 0 {
    } else if bs[0].topic_name@ == topic {
    } else {
        lemma_buffer_index_props(bs.drop_first(), topic);
        let r = RecordingSession::spec_buffer_index(bs.drop_first(), topic);
        if r < 0 {
            assert forall|j: int| 0 <= j < bs.len() implies (#[trigger] bs[j]).topic_name@
                != topic by {
                if j > 0 {
                    assert(bs.drop_first()[j - 1] == bs[j]);
                }
            }
        } else {
            assert(bs.drop_first()[r] == bs[r + 1]);
        }
    }
}

/// `spec_buffer_index` finds exactly the first matching position.
proof fn lemma_buffer_index_at(bs: Seq<TopicBuffer>, topic: Seq<char>, i: int)
    requires
        0 <= i < bs.len(),
        bs[i].topic_name@ == topic,
        forall|j: int| 0 <= j < i ==> (#[trigger] bs[j]).topic_name@ != topic,
    ensures
        RecordingSession::spec_buffer_index(bs, topic) == i,
    decreases bs.len(),
{
    if i == 0 {
    } else {
        assert(bs[0].topic_name@ != topic);
        assert forall|j: int| 0 <= j < i - 1 implies (#[trigger] bs.drop_first()[j]).topic_name@
            != topic by {
            assert(bs.drop_first()[j] == bs[j + 1]);
        }
        assert(bs.drop_first()[i - 1] == bs[i]);
        lemma_buffer_index_at(bs.drop_first(), topic, i - 1);
    }
}

/// A topic absent from the buffers differs from every buffer's topic.
proof fn lemma_buffer_index_absent(bs: Seq<TopicBuffer>, topic: Seq<char>, j: int)
    requires
        RecordingSession::spec_buffer_index(bs, topic) == -1,
        0 <= j < bs.len(),
    ensures
        bs[j].topic_name@ != topic,
    decreases bs.len(),
{
    if j > 0 {
        lemma_buffer_index_absent(bs.drop_first(), topic, j - 1);
        assert(bs.drop_first()[j - 1] == bs[j]);
    }
}

/// The ordinal of a compression level, as recorded in terminal metadata.
pub open spec fn spec_level_ordinal(l: CompressionLevel) -> i32 {
    match l {
        CompressionLevel::Fastest => 0,
        CompressionLevel::Fast => 1,
        CompressionLevel::Default => 2,
        CompressionLevel::Slow => 3,
        CompressionLevel::Slowest => 4,
    }
}

/// Copies a string.
fn clone_string(s: &String) -> (r: String)
    ensures
        r@ == s@,
{
    String::from_str(s.as_str())
}

/// Copies an optional string.
fn clone_opt_string(s: &Option<String>) -> (r: Option<String>)
    ensures
        match s {
            Some(v) => (r matches Some(w) && w@ == v@),
            None => r is None,
        },
{
    match s {
        Some(v) => Some(clone_string(v)),
        None => None,
    }
}

/// Copies a list of strings.
fn clone_strings(v: &Vec<String>) -> (r: Vec<String>)
    ensures
        r@.len() == v@.len(),
        forall|i: int| 0 <= i < v@.len() ==> (#[trigger] r@[i])@ == v@[i]@,
{
    let mut out: Vec<String> = Vec::new();
    let mut i: usize = 0;
    while i < v.len()
        invariant
            i <= v@.len(),
            out@.len() == i,
            forall|j: int| 0 <= j < i ==> (#[trigger] out@[j])@ == v@[j]@,
        decreases v@.len() - i,
    {
        out.push(clone_string(&v[i]));
        i = i + 1;
    }
    out
}

impl RecordingSession {
    /// The aggregate bytes waiting in this session's buffers, saturating
    /// at the machine bound.
    pub fn buffer_size_total(&self) -> (r: u64)
        ensures
            r == (if pending_bytes(self.buffers@) <= u64::MAX {
                pending_bytes(self.buffers@)
            } else {
                u64::MAX as int
            }),
    {
        proof {
            assert(self.buffers@.take(0) =~= Seq::<TopicBuffer>::empty());
        }
        let mut total: u64 = 0;
        let mut i: usize = 0;
        while i < self.buffers.len()
            invariant
                i <= self.buffers@.len(),
                total == (if pending_bytes(self.buffers@.take(i as int)) <= u64::MAX {
                    pending_bytes(self.buffers@.take(i as int))
                } else {
                    u64::MAX as int
                }),
            decreases self.buffers@.len() - i,
        {
            proof {
                assert(self.buffers@.take(i + 1).drop_last() =~= self.buffers@.take(i as int));
                assert(self.buffers@.take(i + 1).last() == self.buffers@[i as int]);
                lemma_pending_bytes_nonneg(self.buffers@.take(i as int));
            }
            total = total.saturating_add(self.buffers[i].total_bytes as u64);
            i = i + 1;
        }
        proof {
            assert(self.buffers@.take(self.buffers@.len() as int) =~= self.buffers@);
        }
        total
    }

    /// The terminal metadata record for this recording, capturing the
    /// final counters and the end time.
    pub fn terminal_metadata(&self) -> (r: RecordingMetadata)
        ensures
            r.recording_id@ == self.recording_id@,
            r.device_id@ == self.device_id@,
            (match self.scene {
                Some(v) => (r.scene matches Some(w) && w@ == v@),
                None => r.scene is None,
            }),
            (match self.organization {
                Some(v) => (r.organization matches Some(w) && w@ == v@),
                None => r.organization is None,
            }),
            (match self.task_id {
                Some(v) => (r.task_id matches Some(w) && w@ == v@),
                None => r.task_id is None,
            }),
            (match self.data_collector_id {
                Some(v) => (r.data_collector_id matches Some(w) && w@ == v@),
                None => r.data_collector_id is None,
            }),
            r.skills@.len() == self.skills@.len(),
            forall|i: int| 0 <= i < self.skills@.len() ==> (#[trigger] r.skills@[i])@
                == self.skills@[i]@,
            r.topics@.len() == self.topics@.len(),
            forall|i: int| 0 <= i < self.topics@.len() ==> (#[trigger] r.topics@[i])@
                == self.topics@[i]@,
            r.compression_type@ == crate::storage::spec_compression_name(self.compression_type),
            r.compression_level == spec_level_ordinal(self.compression_level),
            r.start_time == self.start_time,
            r.end_time == self.end_time,
            r.total_bytes == (if self.total_bytes <= i64::MAX {
                self.total_bytes as int
            } else {
                i64::MAX as int
            }),
            r.total_samples == (if self.total_samples <= i64::MAX {
                self.total_samples as int
            } else {
                i64::MAX as int
            }),
    {
        let level: i32 = match self.compression_level {
            CompressionLevel::Fastest => 0,
            CompressionLevel::Fast => 1,
            CompressionLevel::Default => 2,
            CompressionLevel::Slow => 3,
            CompressionLevel::Slowest => 4,
        };
        RecordingMetadata {
            recording_id: clone_string(&self.recording_id),
            scene: clone_opt_string(&self.scene),
            skills: clone_strings(&self.skills),
            organization: clone_opt_string(&self.organization),
            task_id: clone_opt_string(&self.task_id),
            device_id: clone_string(&self.device_id),
            data_collector_id: clone_opt_string(&self.data_collector_id),
            topics: clone_strings(&self.topics),
            compression_type: crate::storage::compression_type_name(self.compression_type),
            compression_level: level,
            start_time: self.start_time,
            end_time: self.end_time,
            total_bytes: if self.total_bytes <= i64::MAX as u64 {
                self.total_bytes as i64
            } else {
                i64::MAX
            },
            total_samples: if self.total_samples <= i64::MAX as u64 {
                self.total_samples as i64
            } else {
                i64::MAX
            },
        }
    }
}

/// The pending byte count is never negative.
proof fn lemma_pending_bytes_nonneg(bs: Seq<TopicBuffer>)
    ensures
        pending_bytes(bs) >= 0,
    decreases bs.len(),
{
    if bs.len() > 0 {
        lemma_pending_bytes_nonneg(bs.drop_last());
    }
}

/// Index of the session with the given recording id, or `-1`.
pub open spec fn spec_session_index(ss: Seq<RecordingSession>, id: Seq<char>) -> int
    decreases ss.len(),
{
    if ss.len() == 0 {
        -1
    } else if ss[0].recording_id@ == id {
        0
    } else {
        let r = spec_session_index(ss.drop_first(), id);
        if r < 0 {
            -1
        } else {
            r + 1
        }
    }
}

/// What `spec_session_index` returns: the least matching index, or `-1`.
pub proof fn lemma_session_index_props(ss: Seq<RecordingSession>, id: Seq<char>)
    ensures
        spec_session_index(ss, id) == -1 ==> forall|j: int|
            0 <= j < ss.len() ==> (#[trigger] ss[j]).recording_id@ != id,
        spec_session_index(ss, id) >= 0 ==> 0 <= spec_session_index(ss, id) < ss.len() && ss[
        spec_session_index(ss, id)].recording_id@ == id,
    decreases ss.len(),
{
    if ss.len() == 0 {
    } else if ss[0].recording_id@ == id {
    } else {
        lemma_session_index_props(ss.drop_first(), id);
        let r = spec_session_index(ss.drop_first(), id);
        if r < 0 {
            assert forall|j: int| 0 <= j < ss.len() implies (#[trigger] ss[j]).recording_id@
                != id by {
                if j > 0 {
                    assert(ss.drop_first()[j - 1] == ss[j]);
                }
            }
        } else {
            assert(ss.drop_first()[r] == ss[r + 1]);
        }
    }
}

/// `spec_session_index` finds exactly the first matching position.
proof fn lemma_session_index_at(ss: Seq<RecordingSession>, id: Seq<char>, i: int)
    requires
        0 <= i < ss.len(),
        ss[i].recording_id@ == id,
        forall|j: int| 0 <= j < i ==> (#[trigger] ss[j]).recording_id@ != id,
    ensures
        spec_session_index(ss, id) == i,
    decreases ss.len(),
{
    if i == 0 {
    } else {
        assert(ss[0].recording_id@ != id);
        assert forall|j: int| 0 <= j < i - 1 implies (#[trigger] ss.drop_first()[
        j]).recording_id@ != id by {
            assert(ss.drop_first()[j] == ss[j + 1]);
        }
        assert(ss.drop_first()[i - 1] == ss[i]);
        lemma_session_index_at(ss.drop_first(), id, i - 1);
    }
}

/// Registry of sessions keyed by recording id, owner of the shared
/// flush-task queue, and the target of every control operation.
pub struct RecorderManager {
    pub sessions: Vec<RecordingSession>,
    pub queue: FlushQueue,
    pub bucket_name: String,
    pub max_buffer_size: usize,
    pub max_buffer_duration_secs: u64,
}

impl RecorderManager {
    /// Internal invariant: the queue is consistent, every session is, and
    /// recording ids are distinct, so a terminated entry is never
    /// overwritten.
    pub open spec fn wf(self) -> bool {
        &&& self.queue.wf()
        &&& forall|i: int| 0 <= i < self.sessions.len() ==> (#[trigger] self.sessions[i]).wf()
        &&& forall|i: int, j: int|
            0 <= i < j < self.sessions.len() ==> (#[trigger] self.sessions[i]).recording_id@ != (
            #[trigger] self.sessions[j]).recording_id@
    }

    /// A manager with no sessions and an empty flush queue of the given
    /// capacity.
    pub fn new(
        bucket_name: String,
        max_buffer_size: usize,
        max_buffer_duration_secs: u64,
        queue_capacity: usize,
    ) -> (r: RecorderManager)
        requires
            0 < queue_capacity < usize::MAX / 2,
        ensures
            r.wf(),
            r.sessions@.len() == 0,
            r.queue.tasks().len() == 0,
            r.queue.bound() == queue_capacity as nat,
            r.bucket_name == bucket_name,
            r.max_buffer_size == max_buffer_size,
            r.max_buffer_duration_secs == max_buffer_duration_secs,
    {
        RecorderManager {
            sessions: Vec::new(),
            queue: FlushQueue::new(queue_capacity),
            bucket_name,
            max_buffer_size,
            max_buffer_duration_secs,
        }
    }

    /// Finds the session for a recording id.
    fn session_index(&self, id: &str) -> (r: Option<usize>)
        ensures
            match r {
                Some(i) => spec_session_index(self.sessions@, id@) == i as int && i
                    < self.sessions@.len() && self.sessions@[i as int].recording_id@ == id@,
                None => spec_session_index(self.sessions@, id@) == -1,
            },
    {
        let mut i: usize = 0;
        while i < self.sessions.len()
            invariant
                i <= self.sessions@.len(),
                forall|j: int| 0 <= j < i ==> (#[trigger] self.sessions@[j]).recording_id@
                    != id@,
            decreases self.sessions@.len() - i,
        {
            if string_is(&self.sessions[i].recording_id, id) {
                proof {
                    lemma_session_index_at(self.sessions@, id@, i as int);
                }
                return Some(i);
            }
            i = i + 1;
        }
        proof {
            lemma_session_index_props(self.sessions@, id@);
        }
        None
    }
}

impl RecorderManager {
    /// Starts a recording: validates the request, takes the caller's
    /// recording id or the freshly generated one, and installs a new
    /// session in the recording state. A missing device id or an id
    /// already in the registry is rejected with no state change; the
    /// caller guarantees the generated id is unique in this process.
    pub fn start_recording(
        &mut self,
        request: RecorderRequest,
        generated_id: String,
        now_secs: u64,
    ) -> (r: RecorderResponse)
        requires
            old(self).wf(),
        ensures
            final(self).wf(),
            ({
                let id_spec = match request.recording_id {
                    Some(s) => s@,
                    None => generated_id@,
                };
                &&& request.device_id@.len() == 0 ==> !r.success && r.message@
                    == "device_id cannot be empty"@ && *final(self) == *old(self)
                &&& request.device_id@.len() > 0 && spec_session_index(
                    old(self).sessions@,
                    id_spec,
                ) >= 0 ==> !r.success && r.message@ == "Recording already exists"@ && *final(self)
                    == *old(self)
                &&& request.device_id@.len() > 0 && spec_session_index(
                    old(self).sessions@,
                    id_spec,
                ) < 0 ==> ({
                    &&& r.success
                    &&& (r.recording_id matches Some(rid) && rid@ == id_spec)
                    &&& (r.bucket_name matches Some(b) && b@ == old(self).bucket_name@)
                    &&& final(self).queue == old(self).queue
                    &&& final(self).sessions@.len() == old(self).sessions@.len() + 1
                    &&& final(self).sessions@.take(old(self).sessions@.len() as int) == old(self).sessions@
                    &&& ({
                        let ns = final(self).sessions@.last();
                        &&& ns.recording_id@ == id_spec
                        &&& ns.state == RecordingStatus::Recording
                        &&& ns.device_id == request.device_id
                        &&& ns.topics == request.topics
                        &&& ns.compression_type == request.compression_type
                        &&& ns.compression_level == request.compression_level
                        &&& ns.total_samples == 0
                        &&& ns.total_bytes == 0
                        &&& ns.buffers@.len() == 0
                        &&& ns.start_time == now_secs
                    })
                })
            }),
    {
        if request.device_id.as_str().is_empty() {
            return RecorderResponse::error(String::from_str("device_id cannot be empty"));
        }
        let id: String = match &request.recording_id {
            Some(s) => clone_string(s),
            None => generated_id,
        };
        match self.session_index(id.as_str()) {
            Some(_i) => RecorderResponse::error(String::from_str("Recording already exists")),
            None => {
                proof {
                    lemma_session_index_props(self.sessions@, id@);
                }
                let bucket = clone_string(&self.bucket_name);
                let rid = clone_string(&id);
                let session = RecordingSession::new(
                    request,
                    id,
                    self.max_buffer_size,
                    self.max_buffer_duration_secs,
                    now_secs,
                );
                let ghost pre = self.sessions@;
                self.sessions.push(session);
                proof {
                    assert(self.sessions@.take(pre.len() as int) =~= pre);
                    assert forall|i: int, j: int|
                        0 <= i < j < self.sessions@.len() implies (#[trigger] self.sessions@[
                    i]).recording_id@ != (#[trigger] self.sessions@[j]).recording_id@ by {
                        if j == self.sessions@.len() - 1 {
                            assert(pre[i] == self.sessions@[i]);
                        }
                    }
                }
                RecorderResponse::success(Some(rid), Some(bucket))
            },
        }
    }

    /// Pauses a recording: delegates to the session's transition; an
    /// unknown id or an illegal transition changes nothing.
    pub fn pause_recording(&mut self, id: &str) -> (r: RecorderResponse)
        requires
            old(self).wf(),
        ensures
            final(self).wf(),
            ({
                let idx = spec_session_index(old(self).sessions@, id@);
                &&& idx < 0 ==> !r.success && r.message@ == "Recording not found"@ && *final(self)
                    == *old(self)
                &&& idx >= 0 ==> ({
                    let sess = old(self).sessions@[idx];
                    match transition(sess.state, RecorderCommand::Pause) {
                        Some(ns) => r.success && final(self).sessions@ == old(self).sessions@.update(
                            idx,
                            (RecordingSession { state: ns, ..sess }),
                        ) && final(self).queue == old(self).queue,
                        None => !r.success && r.message@ == "Invalid state transition"@
                            && final(self).sessions@ == old(self).sessions@ && final(self).queue.tasks() == old(self).queue.tasks() && final(self).queue.bound()
                            == old(self).queue.bound(),
                    }
                })
            }),
    {
        let i = match self.session_index(id) {
            Some(i) => i,
            None => {
                return RecorderResponse::error(String::from_str("Recording not found"));
            },
        };
        let rid = clone_string(&self.sessions[i].recording_id);
        let ok = self.sessions[i].pause();
        if ok {
            proof {
                lemma_wf_after_update(old(self).sessions@, self.sessions@, i as int);
            }
            RecorderResponse::success(Some(rid), None)
        } else {
            proof {
                assert(self.sessions@ =~= old(self).sessions@);
            }
            RecorderResponse::error(String::from_str("Invalid state transition"))
        }
    }

    /// Resumes a paused recording; an unknown id or an illegal transition
    /// changes nothing.
    pub fn resume_recording(&mut self, id: &str) -> (r: RecorderResponse)
        requires
            old(self).wf(),
        ensures
            final(self).wf(),
            ({
                let idx = spec_session_index(old(self).sessions@, id@);
                &&& idx < 0 ==> !r.success && r.message@ == "Recording not found"@ && *final(self)
                    == *old(self)
                &&& idx >= 0 ==> ({
                    let sess = old(self).sessions@[idx];
                    match transition(sess.state, RecorderCommand::Resume) {
                        Some(ns) => r.success && final(self).sessions@ == old(self).sessions@.update(
                            idx,
                            (RecordingSession { state: ns, ..sess }),
                        ) && final(self).queue == old(self).queue,
                        None => !r.success && r.message@ == "Invalid state transition"@
                            && final(self).sessions@ == old(self).sessions@ && final(self).queue.tasks() == old(self).queue.tasks() && final(self).queue.bound()
                            == old(self).queue.bound(),
                    }
                })
            }),
    {
        let i = match self.session_index(id) {
            Some(i) => i,
            None => {
                return RecorderResponse::error(String::from_str("Recording not found"));
            },
        };
        let rid = clone_string(&self.sessions[i].recording_id);
        let ok = self.sessions[i].resume();
        if ok {
            proof {
                lemma_wf_after_update(old(self).sessions@, self.sessions@, i as int);
            }
            RecorderResponse::success(Some(rid), None)
        } else {
            proof {
                assert(self.sessions@ =~= old(self).sessions@);
            }
            RecorderResponse::error(String::from_str("Invalid state transition"))
        }
    }

    /// Cancels a recording from any non-terminal state: buffered samples
    /// are discarded, nothing new reaches the flush queue, and the entry
    /// stays in the registry for status queries. An unknown id or a
    /// terminal state changes nothing.
    pub fn cancel_recording(&mut self, id: &str, now_secs: u64) -> (r: RecorderResponse)
        requires
            old(self).wf(),
        ensures
            final(self).wf(),
            final(self).queue == old(self).queue,
            ({
                let idx = spec_session_index(old(self).sessions@, id@);
                &&& idx < 0 ==> !r.success && r.message@ == "Recording not found"@ && *final(self)
                    == *old(self)
                &&& idx >= 0 ==> ({
                    let sess = old(self).sessions@[idx];
                    match transition(sess.state, RecorderCommand::Cancel) {
                        Some(ns) => ({
                            &&& r.success
                            &&& final(self).sessions@.len() == old(self).sessions@.len()
                            &&& forall|j: int|
                                0 <= j < old(self).sessions@.len() && j != idx ==> final(self).sessions@[j] == old(self).sessions@[j]
                            &&& final(self).sessions@[idx].state == RecordingStatus::Cancelled
                            &&& final(self).sessions@[idx].recording_id@ == sess.recording_id@
                            &&& final(self).sessions@[idx].buffers@.len() == 0
                            &&& final(self).sessions@[idx].end_time == Some(now_secs)
                        }),
                        None => !r.success && r.message@ == "Invalid state transition"@
                            && final(self).sessions@ == old(self).sessions@ && final(self).queue.tasks() == old(self).queue.tasks() && final(self).queue.bound()
                            == old(self).queue.bound(),
                    }
                })
            }),
    {
        let i = match self.session_index(id) {
            Some(i) => i,
            None => {
                return RecorderResponse::error(String::from_str("Recording not found"));
            },
        };
        let rid = clone_string(&self.sessions[i].recording_id);
        let ok = self.sessions[i].cancel(now_secs);
        if ok {
            proof {
                lemma_wf_after_update(old(self).sessions@, self.sessions@, i as int);
            }
            RecorderResponse::success(Some(rid), None)
        } else {
            proof {
                assert(self.sessions@ =~= old(self).sessions@);
            }
            RecorderResponse::error(String::from_str("Invalid state transition"))
        }
    }

    /// Finishes a recording from the recording or paused state: every
    /// topic buffer is force-flushed onto the queue, so every accepted
    /// sample has then left in an enqueued task or was dropped on a full
    /// queue, and every task enqueued here belongs to this recording. An
    /// unknown id or an illegal transition changes nothing.
    pub fn finish_recording(&mut self, id: &str, now_secs: u64) -> (r: RecorderResponse)
        requires
            old(self).wf(),
        ensures
            final(self).wf(),
            final(self).queue.bound() == old(self).queue.bound(),
            ({
                let idx = spec_session_index(old(self).sessions@, id@);
                &&& idx < 0 ==> !r.success && r.message@ == "Recording not found"@ && *final(self)
                    == *old(self)
                &&& idx >= 0 ==> ({
                    let sess = old(self).sessions@[idx];
                    match transition(sess.state, RecorderCommand::Finish) {
                        Some(ns) => ({
                            let fs = final(self).sessions@[idx];
                            &&& r.success
                            &&& final(self).sessions@.len() == old(self).sessions@.len()
                            &&& forall|j: int|
                                0 <= j < old(self).sessions@.len() && j != idx ==> final(self).sessions@[j] == old(self).sessions@[j]
                            &&& fs.state == RecordingStatus::Finished
                            &&& fs.recording_id@ == sess.recording_id@
                            &&& fs.end_time == Some(now_secs)
                            &&& pending_samples(fs.buffers@) == 0
                            &&& fs.pushed_count@ == sess.pushed_count@
                            &&& fs.pushed_count@ == fs.enqueued_count@ + fs.dropped_count@
                            &&& final(self).queue.tasks().len() >= old(self).queue.tasks().len()
                            &&& final(self).queue.tasks().take(
                                old(self).queue.tasks().len() as int,
                            ) == old(self).queue.tasks()
                            &&& forall|k: int|
                                old(self).queue.tasks().len() <= k < final(self).queue.tasks().len() ==> (#[trigger] final(self).queue.tasks()[
                                k]).recording_id@ == sess.recording_id@
                        }),
                        None => !r.success && r.message@ == "Invalid state transition"@
                            && final(self).sessions@ == old(self).sessions@ && final(self).queue.tasks() == old(self).queue.tasks() && final(self).queue.bound()
                            == old(self).queue.bound(),
                    }
                })
            }),
    {
        let i = match self.session_index(id) {
            Some(i) => i,
            None => {
                return RecorderResponse::error(String::from_str("Recording not found"));
            },
        };
        let rid = clone_string(&self.sessions[i].recording_id);
        let sess = &mut self.sessions[i];
        let ok = sess.finish(now_secs, &mut self.queue);
        if ok {
            proof {
                lemma_wf_after_update(old(self).sessions@, self.sessions@, i as int);
            }
            RecorderResponse::success(Some(rid), None)
        } else {
            proof {
                assert(self.sessions@ =~= old(self).sessions@);
            }
            RecorderResponse::error(String::from_str("Invalid state transition"))
        }
    }

    /// Delivers one sample to a recording. While recording it is buffered
    /// under its topic and the counters grow; in any other state, or for
    /// an unknown id, it is discarded and nothing changes.
    pub fn push_sample(&mut self, id: &str, sample: Sample, now_secs: u64) -> (r: bool)
        requires
            old(self).wf(),
        ensures
            final(self).wf(),
            final(self).queue.bound() == old(self).queue.bound(),
            ({
                let idx = spec_session_index(old(self).sessions@, id@);
                &&& idx < 0 ==> !r && *final(self) == *old(self)
                &&& idx >= 0 ==> ({
                    let sess = old(self).sessions@[idx];
                    &&& r == (sess.state == RecordingStatus::Recording)
                    &&& sess.state != RecordingStatus::Recording ==> final(self).sessions@
                        == old(self).sessions@ && final(self).queue.tasks() == old(self).queue.tasks()
                    &&& sess.state == RecordingStatus::Recording ==> ({
                        let fs = final(self).sessions@[idx];
                        &&& final(self).sessions@.len() == old(self).sessions@.len()
                        &&& forall|j: int|
                            0 <= j < old(self).sessions@.len() && j != idx ==> final(self).sessions@[j] == old(self).sessions@[j]
                        &&& fs.pushed_count@ == sess.pushed_count@ + 1
                        &&& fs.recording_id@ == sess.recording_id@
                        &&& fs.state == sess.state
                        &&& final(self).queue.tasks().len() >= old(self).queue.tasks().len()
                        &&& final(self).queue.tasks().len() <= old(self).queue.tasks().len() + 1
                        &&& final(self).queue.tasks().take(old(self).queue.tasks().len() as int)
                            == old(self).queue.tasks()
                        &&& (final(self).queue.tasks().len() > old(self).queue.tasks().len()
                            ==> final(self).queue.tasks().last().recording_id@
                            == sess.recording_id@)
                    })
                })
            }),
    {
        let i = match self.session_index(id) {
            Some(i) => i,
            None => {
                return false;
            },
        };
        let sess = &mut self.sessions[i];
        let accepted = sess.push_sample(sample, now_secs, &mut self.queue);
        proof {
            lemma_wf_after_update(old(self).sessions@, self.sessions@, i as int);
            if !accepted {
                assert(self.sessions@ =~= old(self).sessions@);
            }
        }
        accepted
    }

    /// Answers a status query: a snapshot of the session's state,
    /// metadata, topics, and counters, computed from the registry alone.
    /// Reading takes `&self` and can change nothing; two queries over the
    /// same state answer alike. An unknown id reports an idle, failed
    /// status with everything empty.
    pub fn get_status(&self, id: &str) -> (r: StatusResponse)
        requires
            self.wf(),
        ensures
            ({
                let idx = spec_session_index(self.sessions@, id@);
                &&& idx < 0 ==> !r.success && r.message@ == "Recording not found"@ && r.status
                    == RecordingStatus::Idle && r.device_id@ == Seq::<char>::empty()
                    && r.skills@.len() == 0 && r.active_topics@.len() == 0 && r.scene is None
                    && r.organization is None && r.task_id is None && r.data_collector_id is None
                    && r.buffer_size_bytes == 0 && r.total_recorded_bytes == 0
                &&& idx >= 0 ==> ({
                    let sess = self.sessions@[idx];
                    &&& r.success
                    &&& r.message@ == "Status retrieved"@
                    &&& r.status == sess.state
                    &&& r.device_id@ == sess.device_id@
                    &&& (match sess.scene {
                        Some(v) => (r.scene matches Some(w) && w@ == v@),
                        None => r.scene is None,
                    })
                    &&& (match sess.organization {
                        Some(v) => (r.organization matches Some(w) && w@ == v@),
                        None => r.organization is None,
                    })
                    &&& (match sess.task_id {
                        Some(v) => (r.task_id matches Some(w) && w@ == v@),
                        None => r.task_id is None,
                    })
                    &&& (match sess.data_collector_id {
                        Some(v) => (r.data_collector_id matches Some(w) && w@ == v@),
                        None => r.data_collector_id is None,
                    })
                    &&& r.skills@.len() == sess.skills@.len()
                    &&& forall|i: int| 0 <= i < sess.skills@.len() ==> (#[trigger] r.skills@[
                        i])@ == sess.skills@[i]@
                    &&& r.active_topics@.len() == sess.topics@.len()
                    &&& forall|i: int| 0 <= i < sess.topics@.len() ==> (
                        #[trigger] r.active_topics@[i])@ == sess.topics@[i]@
                    &&& r.buffer_size_bytes == (if pending_bytes(sess.buffers@) <= i32::MAX {
                        pending_bytes(sess.buffers@)
                    } else {
                        i32::MAX as int
                    })
                    &&& r.total_recorded_bytes == (if sess.total_bytes <= i64::MAX {
                        sess.total_bytes as int
                    } else {
                        i64::MAX as int
                    })
                })
            }),
    {
        let i = match self.session_index(id) {
            Some(i) => i,
            None => {
                return StatusResponse {
                    success: false,
                    message: String::from_str("Recording not found"),
                    status: RecordingStatus::Idle,
                    scene: None,
                    skills: Vec::new(),
                    organization: None,
                    task_id: None,
                    device_id: String::new(),
                    data_collector_id: None,
                    active_topics: Vec::new(),
                    buffer_size_bytes: 0,
                    total_recorded_bytes: 0,
                };
            },
        };
        let sess = &self.sessions[i];
        let pending = sess.buffer_size_total();
        let buffer_size_bytes: i32 = if pending > i32::MAX as u64 {
            i32::MAX
        } else {
            pending as i32
        };
        let total_recorded_bytes: i64 = if sess.total_bytes > i64::MAX as u64 {
            i64::MAX
        } else {
            sess.total_bytes as i64
        };
        StatusResponse {
            success: true,
            message: String::from_str("Status retrieved"),
            status: sess.state,
            scene: clone_opt_string(&sess.scene),
            skills: clone_strings(&sess.skills),
            organization: clone_opt_string(&sess.organization),
            task_id: clone_opt_string(&sess.task_id),
            device_id: clone_string(&sess.device_id),
            data_collector_id: clone_opt_string(&sess.data_collector_id),
            active_topics: clone_strings(&sess.topics),
            buffer_size_bytes,
            total_recorded_bytes,
        }
    }

    /// Hands the oldest flush task to a worker, if any.
    pub fn next_flush_task(&mut self) -> (r: Option<FlushTask>)
        requires
            old(self).wf(),
        ensures
            final(self).wf(),
            final(self).sessions == old(self).sessions,
            final(self).queue.bound() == old(self).queue.bound(),
            old(self).queue.tasks().len() == 0 ==> r is None && final(self).queue.tasks()
                == old(self).queue.tasks(),
            old(self).queue.tasks().len() > 0 ==> r == Some(old(self).queue.tasks()[0]) && final(self).queue.tasks() == old(self).queue.tasks().drop_first(),
    {
        self.queue.try_pop()
    }

    /// The current depth of the flush-task queue; never above its bound.
    pub fn queue_depth(&self) -> (r: usize)
        requires
            self.wf(),
        ensures
            r as nat == self.queue.tasks().len(),
            r as nat <= self.queue.bound(),
    {
        self.queue.len()
    }

    /// Queue overflow is bounded: in every reachable manager state the
    /// flush-task queue holds at most its fixed capacity, since every
    /// operation preserves well-formedness and well-formedness carries
    /// the bound.
    pub proof fn lemma_queue_depth_bounded(self)
        requires
            self.wf(),
        ensures
            self.queue.tasks().len() <= self.queue.bound(),
    {
    }

    /// Finishes every session that is still recording or paused; sessions
    /// in any other state stay as they are. The registry keeps every
    /// entry.
    pub fn shutdown(&mut self, now_secs: u64)
        requires
            old(self).wf(),
        ensures
            final(self).wf(),
            final(self).sessions@.len() == old(self).sessions@.len(),
            forall|i: int|
                0 <= i < old(self).sessions@.len() ==> (if old(self).sessions@[i].state
                    == RecordingStatus::Recording || old(self).sessions@[i].state
                    == RecordingStatus::Paused {
                    (#[trigger] final(self).sessions@[i]).state == RecordingStatus::Finished
                        && final(self).sessions@[i].recording_id@ == old(self).sessions@[i].recording_id@
                } else {
                    final(self).sessions@[i] == old(self).sessions@[i]
                }),
    {
        let mut i: usize = 0;
        while i < self.sessions.len()
            invariant
                self.wf(),
                i <= self.sessions@.len(),
                self.sessions@.len() == old(self).sessions@.len(),
                forall|j: int|
                    i <= j < old(self).sessions@.len() ==> #[trigger] self.sessions@[j] == old(self).sessions@[j],
                forall|j: int|
                    0 <= j < i ==> (if old(self).sessions@[j].state == RecordingStatus::Recording
                        || old(self).sessions@[j].state == RecordingStatus::Paused {
                        (#[trigger] self.sessions@[j]).state == RecordingStatus::Finished
                            && self.sessions@[j].recording_id@ == old(self).sessions@[j].recording_id@
                    } else {
                        self.sessions@[j] == old(self).sessions@[j]
                    }),
            decreases self.sessions@.len() - i,
        {
            let ghost pre = self.sessions@;
            let sess = &mut self.sessions[i];
            let finished = sess.finish(now_secs, &mut self.queue);
            proof {
                lemma_wf_after_update(pre, self.sessions@, i as int);
                if !finished {
                    assert(self.sessions@ =~= pre);
                }
            }
            i = i + 1;
        }
    }
}

/// A registry that was well-formed stays so when one session changes
/// without changing its recording id.
proof fn lemma_wf_after_update(
    pre: Seq<RecordingSession>,
    post: Seq<RecordingSession>,
    idx: int,
)
    requires
        0 <= idx < pre.len(),
        post.len() == pre.len(),
        forall|j: int| 0 <= j < pre.len() && j != idx ==> post[j] == pre[j],
        post[idx].recording_id@ == pre[idx].recording_id@,
        forall|i: int, j: int|
            0 <= i < j < pre.len() ==> (#[trigger] pre[i]).recording_id@ != (
            #[trigger] pre[j]).recording_id@,
    ensures
        forall|i: int, j: int|
            0 <= i < j < post.len() ==> (#[trigger] post[i]).recording_id@ != (
            #[trigger] post[j]).recording_id@,
{
}

} // verus!
