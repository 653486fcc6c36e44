//! Verified core of a paired video/audio download-and-merge pipeline.
//!
//! The library holds the logic of the pipeline: the task queue and its
//! drain order, the completion-state store, the chunked download progress
//! accounting, the merge supervisor's sidecar parsing and cleanup plan,
//! and the small string rules of the surrounding session and proxy
//! collaborators. All I/O (HTTP, files, processes) lives outside, in the
//! application shell, which feeds plain values in and carries actions out.

use vstd::prelude::*;

mod merge;
mod pipeline;
mod proxy;
mod session;

pub use proxy::proxy_target;
pub use proxy::proxy_target_spec;
pub use proxy::stripped_path;
pub use session::cookie_header_spec;
pub use session::cookie_header_value;
pub use session::default_headers;
pub use session::find_sessdata;
pub use session::find_sessdata_spec;
pub use session::login_step;
pub use session::login_step_spec;
pub use session::mask_key;
pub use session::masked_key_spec;
pub use session::names_sessdata;
pub use session::user_mid_event;
pub use session::LoginStep;
mod progress;
mod sidecar;

pub use merge::cleanup_spec;
pub use merge::lemma_cleanup_covers;
pub use merge::merge_epilogue;
pub use merge::muxer_args;
pub use merge::muxer_args_spec;
pub use merge::sidecar_name;
pub use merge::sidecar_name_spec;
pub use merge::MergeOutcome;
pub use merge::MergePlan;
pub use pipeline::dest_path_spec;
pub use pipeline::register_request;
pub use pipeline::ArtifactRequest;
mod store;

pub use sidecar::any_end_line;
pub use sidecar::cycle_keys;
pub use sidecar::cycle_values;
pub use sidecar::is_end_line;
pub use sidecar::key_of;
pub use sidecar::key_of_spec;
pub use sidecar::key_reported;
pub use sidecar::kv_of;
pub use sidecar::lemma_cycle_keys_distinct;
pub use sidecar::no_keys_spec;
pub use sidecar::parse_kv;
pub use sidecar::tail_cycle;
pub use sidecar::trim;
pub use sidecar::trim_spec;
pub use sidecar::with_key;
pub use sidecar::FieldKey;
pub use sidecar::ReportedKeys;
pub use sidecar::RingBuffer;
pub use sidecar::RING_CAPACITY;
mod strutil;

pub use store::entries_wf;
pub use store::fresh_state;
pub use store::lemma_finished_implies_downloaded;
pub use store::lookup;
pub use store::with_flag;
pub use store::ArtifactState;
pub use store::MergeInputs;
pub use store::StateStore;
mod task;
mod urlname;

pub use progress::compute_sample;
pub use progress::eta_centi_spec;
pub use progress::format_progress_event;
pub use progress::lemma_mb_figures;
pub use progress::lemma_prefix_total_monotonic;
pub use progress::mb_centi_spec;
pub use progress::percent_centi_spec;
pub use progress::prefix_total;
pub use progress::progress_event_spec;
pub use progress::remaining_bytes;
pub use progress::speed_centi_spec;
pub use progress::DownloadMeter;
pub use progress::ProgressSample;

pub use strutil::centi_str;
pub use strutil::centi_string;
pub use strutil::dec_str;
pub use strutil::dec_string;
pub use strutil::str_eq;
pub use task::drain_order;
pub use task::lemma_pair_drain_order;
pub use task::DownloadTask;
pub use task::StreamKind;
pub use task::TaskQueue;
pub use urlname::extract_filename;
pub use urlname::extract_filename_spec;
pub use urlname::join_path;
pub use urlname::joined_path;

verus! {

} // verus!
