//! The orchestrator: registering one artifact request and building its
//! task queue.
//!
//! A request carries an identifier, a display name and the two stream
//! URLs. Registration resolves each stream's destination path from the
//! final segment of its URL under the temporary directory, records a
//! fresh completion state, and yields the queue that drains the video
//! task first.

use vstd::prelude::*;

use crate::store::fresh_state;
use crate::store::StateStore;
use crate::task::drain_order;
use crate::task::DownloadTask;
use crate::task::StreamKind;
use crate::task::TaskQueue;
use crate::urlname::extract_filename;
use crate::urlname::extract_filename_spec;
use crate::urlname::join_path;
use crate::urlname::joined_path;

verus! {

/// One artifact request as the caller submits it; immutable.
pub struct ArtifactRequest {
    pub cid: String,
    pub display_name: String,
    pub video_url: String,
    pub audio_url: String,
}

/// The destination path of a stream: its URL's file name under the
/// temporary directory.
pub open spec fn dest_path_spec(temp_dir: Seq<char>, url: Seq<char>) -> Seq<char> {
    joined_path(temp_dir, extract_filename_spec(url))
}

/// Registers one artifact request: records a fresh completion state
/// under the request's display name (silently replacing any prior entry
/// of that name) and yields the task queue, which drains the video task
/// first, then the audio task.
pub fn register_request(store: &mut StateStore, req: &ArtifactRequest, temp_dir: &str) -> (q:
    TaskQueue)
    requires
        old(store).inv(),
    ensures
        final(store).inv(),
        match final(store).get(req.display_name@) {
            Some(st) => fresh_state(
                req.display_name@,
                req.cid@,
                dest_path_spec(temp_dir@, req.video_url@),
                dest_path_spec(temp_dir@, req.audio_url@),
                st,
            ),
            None => false,
        },
        forall|n: Seq<char>|
            n != req.display_name@ ==> final(store).get(n) == old(store).get(n),
        q@.len() == 2,
        q@[1].kind == StreamKind::Video && q@[1].cid@ == req.cid@ && q@[1].display_name@
            == req.display_name@ && q@[1].url@ == req.video_url@ && q@[1].path@ == dest_path_spec(
            temp_dir@,
            req.video_url@,
        ),
        q@[0].kind == StreamKind::Audio && q@[0].cid@ == req.cid@ && q@[0].display_name@
            == req.display_name@ && q@[0].url@ == req.audio_url@ && q@[0].path@ == dest_path_spec(
            temp_dir@,
            req.audio_url@,
        ),
        drain_order(q@) == seq![q@[1], q@[0]],
{
    let video_filename = extract_filename(req.video_url.as_str());
    let audio_filename = extract_filename(req.audio_url.as_str());
    let video_path = join_path(temp_dir, video_filename.as_str());
    let audio_path = join_path(temp_dir, audio_filename.as_str());
    store.register(
        req.display_name.clone(),
        req.cid.clone(),
        video_path.clone(),
        audio_path.clone(),
    );
    let video_task = DownloadTask {
        cid: req.cid.clone(),
        display_name: req.display_name.clone(),
        url: req.video_url.clone(),
        path: video_path,
        kind: StreamKind::Video,
    };
    let audio_task = DownloadTask {
        cid: req.cid.clone(),
        display_name: req.display_name.clone(),
        url: req.audio_url.clone(),
        path: audio_path,
        kind: StreamKind::Audio,
    };
    TaskQueue::for_artifact(video_task, audio_task)
}

} // verus!
