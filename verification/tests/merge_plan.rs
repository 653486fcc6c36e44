use biliget::merge_epilogue;
use biliget::muxer_args;
use biliget::sidecar_name;
use biliget::MergeOutcome;

#[test]
fn muxer_argument_order() {
    let args = muxer_args("/tmp/v.m4s", "/tmp/a.m4s", "/out/video.mp4", "video.mp4.progress");
    let expect = vec![
        "-i",
        "/tmp/v.m4s",
        "-i",
        "/tmp/a.m4s",
        "-c:v",
        "copy",
        "-c:a",
        "aac",
        "/out/video.mp4",
        "-progress",
        "video.mp4.progress",
        "-y",
    ];
    assert_eq!(args, expect);
}

#[test]
fn sidecar_name_suffix() {
    assert_eq!(sidecar_name("video.mp4"), "video.mp4.progress");
}

#[test]
fn success_removes_inputs_and_sidecar_only() {
    let plan = merge_epilogue(true, "/tmp/a.m4s", "/tmp/v.m4s", "video.mp4.progress", "/out/video.mp4");
    assert_eq!(plan.outcome, MergeOutcome::Success);
    assert_eq!(plan.remove, vec!["/tmp/a.m4s", "/tmp/v.m4s", "video.mp4.progress"]);
    assert!(!plan.remove.iter().any(|p| p == "/out/video.mp4"));
}

#[test]
fn failure_also_removes_output() {
    let plan = merge_epilogue(false, "/tmp/a.m4s", "/tmp/v.m4s", "video.mp4.progress", "/out/video.mp4");
    assert_eq!(plan.outcome, MergeOutcome::Failed);
    assert_eq!(
        plan.remove,
        vec!["/tmp/a.m4s", "/tmp/v.m4s", "video.mp4.progress", "/out/video.mp4"]
    );
}
