//! The merge step: the muxer's argument list, the sidecar path, and the
//! epilogue that decides cleanup and the terminal notification.

use vstd::prelude::*;

verus! {

/// The ordered arguments handed to the external muxer: the video input,
/// the audio input, video codec copied, audio re-encoded, the output
/// path, the incremental progress sidecar, and overwrite enabled.
pub open spec fn muxer_args_spec(
    video_path: Seq<char>,
    audio_path: Seq<char>,
    output_path: Seq<char>,
    sidecar_path: Seq<char>,
) -> Seq<Seq<char>> {
    seq![
        "-i"@,
        video_path,
        "-i"@,
        audio_path,
        "-c:v"@,
        "copy"@,
        "-c:a"@,
        "aac"@,
        output_path,
        "-progress"@,
        sidecar_path,
        "-y"@,
    ]
}

/// Builds the muxer's argument list.
pub fn muxer_args(video_path: &str, audio_path: &str, output_path: &str, sidecar_path: &str) -> (r:
    Vec<String>)
    ensures
        r.deep_view() == muxer_args_spec(video_path@, audio_path@, output_path@, sidecar_path@),
{
    let mut args: Vec<String> = Vec::new();
    args.push("-i".to_owned());
    args.push(video_path.to_owned());
    args.push("-i".to_owned());
    args.push(audio_path.to_owned());
    args.push("-c:v".to_owned());
    args.push("copy".to_owned());
    args.push("-c:a".to_owned());
    args.push("aac".to_owned());
    args.push(output_path.to_owned());
    args.push("-progress".to_owned());
    args.push(sidecar_path.to_owned());
    args.push("-y".to_owned());
    proof {
        assert(args.deep_view() =~= muxer_args_spec(
            video_path@,
            audio_path@,
            output_path@,
            sidecar_path@,
        ));
    }
    args
}

/// The sidecar file name derived from the output file name by a fixed
/// suffix.
pub open spec fn sidecar_name_spec(output_name: Seq<char>) -> Seq<char> {
    output_name + ".progress"@
}

/// Derives the sidecar file name for an output file name.
pub fn sidecar_name(output_name: &str) -> (r: String)
    ensures
        r@ == sidecar_name_spec(output_name@),
{
    let mut s = output_name.to_owned();
    s.append(".progress");
    s
}

/// The terminal notification of one merge invocation.
#[derive(Clone, Copy, PartialEq, Eq, Structural, Debug)]
pub enum MergeOutcome {
    Success,
    Failed,
}

/// What to do once the muxer has exited: which files to delete, and
/// which notification to emit.
pub struct MergePlan {
    pub remove: Vec<String>,
    pub outcome: MergeOutcome,
}

/// The files deleted after a merge: the original audio input, the
/// original video input and the sidecar, always and in that order; the
/// output file as well when the muxer failed.
pub open spec fn cleanup_spec(
    exit_success: bool,
    audio_path: Seq<char>,
    video_path: Seq<char>,
    sidecar_path: Seq<char>,
    output_path: Seq<char>,
) -> Seq<Seq<char>> {
    if exit_success {
        seq![audio_path, video_path, sidecar_path]
    } else {
        seq![audio_path, video_path, sidecar_path, output_path]
    }
}

/// Decides the epilogue of one merge invocation from the muxer's exit
/// status: deletion failures never change the outcome, so the plan is a
/// function of the status alone.
pub fn merge_epilogue(
    exit_success: bool,
    audio_path: &str,
    video_path: &str,
    sidecar_path: &str,
    output_path: &str,
) -> (plan: MergePlan)
    ensures
        plan.remove.deep_view() == cleanup_spec(
            exit_success,
            audio_path@,
            video_path@,
            sidecar_path@,
            output_path@,
        ),
        plan.outcome == (if exit_success {
            MergeOutcome::Success
        } else {
            MergeOutcome::Failed
        }),
{
    let mut remove: Vec<String> = Vec::new();
    remove.push(audio_path.to_owned());
    remove.push(video_path.to_owned());
    remove.push(sidecar_path.to_owned());
    if !exit_success {
        remove.push(output_path.to_owned());
    }
    let outcome = if exit_success {
        MergeOutcome::Success
    } else {
        MergeOutcome::Failed
    };
    let plan = MergePlan { remove, outcome };
    proof {
        assert(plan.remove.deep_view() =~= cleanup_spec(
            exit_success,
            audio_path@,
            video_path@,
            sidecar_path@,
            output_path@,
        ));
    }
    plan
}

/// After any merge the original inputs and the sidecar are slated for
/// deletion; the output file is slated exactly on failure, provided the
/// output path is not also one of the three always-deleted paths.
pub proof fn lemma_cleanup_covers(
    exit_success: bool,
    audio_path: Seq<char>,
    video_path: Seq<char>,
    sidecar_path: Seq<char>,
    output_path: Seq<char>,
)
    requires
        output_path != audio_path,
        output_path != video_path,
        output_path != sidecar_path,
    ensures
        cleanup_spec(exit_success, audio_path, video_path, sidecar_path, output_path).contains(
            audio_path,
        ),
        cleanup_spec(exit_success, audio_path, video_path, sidecar_path, output_path).contains(
            video_path,
        ),
        cleanup_spec(exit_success, audio_path, video_path, sidecar_path, output_path).contains(
            sidecar_path,
        ),
        cleanup_spec(exit_success, audio_path, video_path, sidecar_path, output_path).contains(
            output_path,
        ) <==> !exit_success,
{
    let plan = cleanup_spec(exit_success, audio_path, video_path, sidecar_path, output_path);
    assert(plan[0] == audio_path);
    assert(plan[1] == video_path);
    assert(plan[2] == sidecar_path);
    if !exit_success {
        assert(plan[3] == output_path);
    }
}

} // verus!
