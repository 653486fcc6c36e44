//! Download tasks and the per-artifact task queue.
//!
//! One artifact yields two tasks, one per stream. The queue is a
//! last-in-first-out stack: the audio task is pushed first and the video
//! task second, so the video task is always drained first.

use vstd::prelude::*;

verus! {

/// Discriminator between the video and the audio sub-download of one
/// artifact.
#[derive(Clone, Copy, PartialEq, Eq, Structural, Debug)]
pub enum StreamKind {
    Video,
    Audio,
}

/// The label under which a stream kind is reported in progress events.
pub open spec fn kind_label_spec(kind: StreamKind) -> Seq<char> {
    match kind {
        StreamKind::Video => "video"@,
        StreamKind::Audio => "audio"@,
    }
}

/// Renders the stream-kind label used in progress events.
pub fn kind_label(kind: StreamKind) -> (r: String)
    ensures
        r@ == kind_label_spec(kind),
{
    match kind {
        StreamKind::Video => {
            let s: &str = "video";
            s.to_owned()
        },
        StreamKind::Audio => {
            let s: &str = "audio";
            s.to_owned()
        },
    }
}

/// One sub-download: immutable, consumed once by the downloader.
pub struct DownloadTask {
    pub cid: String,
    pub display_name: String,
    pub url: String,
    pub path: String,
    pub kind: StreamKind,
}

/// LIFO queue of the sub-downloads of one artifact.
pub struct TaskQueue {
    items: Vec<DownloadTask>,
}

/// The order in which a LIFO queue yields its items: last first.
pub open spec fn drain_order(items: Seq<DownloadTask>) -> Seq<DownloadTask>
    decreases items.len(),
{
    if items.len() == 0 {
        Seq::empty()
    } else {
        seq![items.last()] + drain_order(items.drop_last())
    }
}

impl TaskQueue {
    pub closed spec fn view(self) -> Seq<DownloadTask> {
        self.items@
    }

    /// An empty queue.
    pub fn new() -> (q: TaskQueue)
        ensures
            q@ == Seq::<DownloadTask>::empty(),
    {
        TaskQueue { items: Vec::new() }
    }

    /// Pushes one task onto the top of the queue.
    pub fn push(&mut self, task: DownloadTask)
        ensures
            final(self)@ == old(self)@.push(task),
    {
        self.items.push(task);
    }

    /// Pops the most recently pushed task, if any.
    pub fn pop(&mut self) -> (r: Option<DownloadTask>)
        ensures
            old(self)@.len() == 0 ==> r is None && final(self)@ == old(self)@,
            old(self)@.len() > 0 ==> r == Some(old(self)@.last()) && final(self)@ == old(
                self,
            )@.drop_last(),
    {
        self.items.pop()
    }

    /// The queue for one artifact: the audio task is pushed first, the
    /// video task second, so the video task drains first.
    pub fn for_artifact(video: DownloadTask, audio: DownloadTask) -> (q: TaskQueue)
        ensures
            q@ =~= seq![audio, video],
            drain_order(q@) =~= seq![video, audio],
    {
        let mut q = TaskQueue::new();
        q.push(audio);
        q.push(video);
        proof {
            assert(q@ =~= seq![audio, video]);
            lemma_pair_drain_order(video, audio);
            assert(drain_order(q@) == drain_order(seq![audio, video]));
        }
        q
    }
}

/// For any artifact, the queue built from its two tasks drains the video
/// task first and the audio task second, whatever the push order was
/// chosen to be.
pub proof fn lemma_pair_drain_order(video: DownloadTask, audio: DownloadTask)
    ensures
        drain_order(seq![audio, video]) =~= seq![video, audio],
{
    let pair = seq![audio, video];
    let single = pair.drop_last();
    assert(single =~= seq![audio]);
    let empty = single.drop_last();
    assert(empty =~= Seq::<DownloadTask>::empty());
    assert(drain_order(empty) =~= Seq::<DownloadTask>::empty());
    assert(drain_order(single) =~= seq![audio] + drain_order(empty));
    assert(drain_order(pair) =~= seq![video] + drain_order(single));
}

} // verus!
