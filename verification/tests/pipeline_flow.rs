use biliget::register_request;
use biliget::ArtifactRequest;
use biliget::DownloadTask;
use biliget::MergeOutcome;
use biliget::StateStore;
use biliget::StreamKind;
use biliget::TaskQueue;

fn request() -> ArtifactRequest {
    ArtifactRequest {
        cid: "123".to_owned(),
        display_name: "video.mp4".to_owned(),
        video_url: "https://example.com/stream/30280/video.m4s".to_owned(),
        audio_url: "https://example.com/stream/30280/audio.m4s".to_owned(),
    }
}

#[test]
fn queue_drains_video_first() {
    let mut store = StateStore::new();
    let req = request();
    let mut q = register_request(&mut store, &req, "/tmp/work");
    let first = q.pop().expect("two tasks queued");
    let second = q.pop().expect("two tasks queued");
    assert!(q.pop().is_none());
    assert_eq!(first.kind, StreamKind::Video);
    assert_eq!(first.url, "https://example.com/stream/30280/video.m4s");
    assert_eq!(first.path, "/tmp/work/video.m4s");
    assert_eq!(second.kind, StreamKind::Audio);
    assert_eq!(second.url, "https://example.com/stream/30280/audio.m4s");
    assert_eq!(second.path, "/tmp/work/audio.m4s");
}

#[test]
fn end_to_end_success() {
    let mut store = StateStore::new();
    let req = request();
    let mut q = register_request(&mut store, &req, "/tmp/work");
    let video_task = q.pop().unwrap();
    let audio_task = q.pop().unwrap();

    let after_video = store.on_task_complete(&video_task, true);
    assert!(after_video.is_none(), "merge must wait for both streams");
    let st = store.get_state("video.mp4").unwrap();
    assert!(st.video_downloaded);
    assert!(!st.audio_downloaded);
    assert!(!st.finished);

    let merge = store.on_task_complete(&audio_task, true);
    let inputs = merge.expect("both streams done: merge is due");
    assert_eq!(inputs.video_path, "/tmp/work/video.m4s");
    assert_eq!(inputs.audio_path, "/tmp/work/audio.m4s");
    assert_eq!(inputs.display_name, "video.mp4");

    let plan = biliget::merge_epilogue(
        true,
        &inputs.audio_path,
        &inputs.video_path,
        "video.mp4.progress",
        "/out/video.mp4",
    );
    assert_eq!(plan.outcome, MergeOutcome::Success);
    assert!(store.mark_finished(&inputs.display_name));
    let st = store.get_state("video.mp4").unwrap();
    assert!(st.video_downloaded && st.audio_downloaded && st.finished);

    // A stale completion for the same artifact does not trigger a second
    // merge.
    let again = store.on_task_complete(&audio_task, true);
    assert!(again.is_none(), "merge is invoked exactly once");
}

#[test]
fn failed_audio_never_merges() {
    let mut store = StateStore::new();
    let req = request();
    let mut q = register_request(&mut store, &req, "/tmp/work");
    let video_task = q.pop().unwrap();
    let audio_task = q.pop().unwrap();

    assert!(store.on_task_complete(&video_task, true).is_none());
    let merge = store.on_task_complete(&audio_task, false);
    assert!(merge.is_none(), "a failed download must not trigger the merge");
    let st = store.get_state("video.mp4").unwrap();
    assert!(st.video_downloaded);
    assert!(!st.audio_downloaded, "a failed download leaves its flag clear");
    assert!(!st.finished);
}

#[test]
fn mismatched_cid_is_dropped() {
    let mut store = StateStore::new();
    let req = request();
    let mut q = register_request(&mut store, &req, "/tmp/work");
    let video_task = q.pop().unwrap();
    let stale = DownloadTask {
        cid: "999".to_owned(),
        display_name: "video.mp4".to_owned(),
        url: video_task.url.clone(),
        path: video_task.path.clone(),
        kind: StreamKind::Video,
    };
    assert!(store.on_task_complete(&stale, true).is_none());
    let st = store.get_state("video.mp4").unwrap();
    assert!(!st.video_downloaded, "a mismatched identifier is ignored");
}

#[test]
fn missing_entry_is_dropped() {
    let mut store = StateStore::new();
    let task = DownloadTask {
        cid: "123".to_owned(),
        display_name: "nobody.mp4".to_owned(),
        url: "https://example.com/v".to_owned(),
        path: "/tmp/v".to_owned(),
        kind: StreamKind::Video,
    };
    assert!(store.on_task_complete(&task, true).is_none());
    assert!(store.get_state("nobody.mp4").is_none());
}

#[test]
fn reregistration_overwrites() {
    let mut store = StateStore::new();
    let req = request();
    let mut q = register_request(&mut store, &req, "/tmp/work");
    let video_task = q.pop().unwrap();
    assert!(store.on_task_complete(&video_task, true).is_none());
    // The same display name arrives again: the in-flight state is
    // silently replaced by a fresh one.
    let _ = register_request(&mut store, &req, "/tmp/work");
    let st = store.get_state("video.mp4").unwrap();
    assert!(!st.video_downloaded);
    assert!(!st.audio_downloaded);
    assert!(!st.finished);
}

#[test]
fn lifo_queue_order() {
    let video = DownloadTask {
        cid: "1".to_owned(),
        display_name: "n".to_owned(),
        url: "v".to_owned(),
        path: "pv".to_owned(),
        kind: StreamKind::Video,
    };
    let audio = DownloadTask {
        cid: "1".to_owned(),
        display_name: "n".to_owned(),
        url: "a".to_owned(),
        path: "pa".to_owned(),
        kind: StreamKind::Audio,
    };
    let mut q = TaskQueue::for_artifact(video, audio);
    assert_eq!(q.pop().unwrap().kind, StreamKind::Video);
    assert_eq!(q.pop().unwrap().kind, StreamKind::Audio);
    assert!(q.pop().is_none());
}
