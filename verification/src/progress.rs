//! Download progress accounting.
//!
//! Throughput figures are held as fixed-point hundredths (two decimal
//! places), so a value of 1234 renders as `12.34`. When the response
//! carries no usable content length the total size is zero and the
//! percentage falls back to zero rather than failing; when no time has
//! elapsed the speed is zero, and when the speed is zero the estimate of
//! the remaining time is zero.

use vstd::arithmetic::div_mod::lemma_div_basics;
use vstd::arithmetic::div_mod::lemma_div_is_ordered;
use vstd::arithmetic::div_mod::lemma_div_is_ordered_by_denominator;
use vstd::prelude::*;

use crate::strutil::centi_str;
use crate::strutil::centi_string;
use crate::strutil::dec_str;
use crate::strutil::dec_string;
use crate::task::kind_label;
use crate::task::kind_label_spec;
use crate::task::StreamKind;

verus! {

/// Megabytes transferred so far, in hundredths.
pub open spec fn mb_centi_spec(downloaded: nat) -> nat {
    downloaded * 100 / 1048576
}

/// Transfer speed in hundredths of a megabyte per second: bytes per
/// millisecond, scaled to megabytes per second; zero before any time has
/// elapsed.
pub open spec fn speed_centi_spec(downloaded: nat, elapsed_ms: nat) -> nat {
    if elapsed_ms == 0 {
        0
    } else {
        downloaded * 100000 / (elapsed_ms * 1048576)
    }
}

/// Bytes still to come, never negative even when more arrived than the
/// stated total.
pub open spec fn remaining_bytes(total_size: nat, downloaded: nat) -> nat {
    if total_size > downloaded {
        (total_size - downloaded) as nat
    } else {
        0
    }
}

/// Estimated seconds remaining, in hundredths: remaining bytes over the
/// speed; zero while the speed is zero.
pub open spec fn eta_centi_spec(total_size: nat, downloaded: nat, elapsed_ms: nat) -> nat {
    let speed = speed_centi_spec(downloaded, elapsed_ms);
    if speed == 0 {
        0
    } else {
        remaining_bytes(total_size, downloaded) * 10000 / (speed * 1048576)
    }
}

/// Completion percentage in hundredths; zero when the total size is
/// unknown (zero), the documented degenerate fallback.
pub open spec fn percent_centi_spec(downloaded: nat, total_size: nat) -> nat {
    if total_size == 0 {
        0
    } else {
        downloaded * 10000 / total_size
    }
}

/// One progress reading, recomputed after every received chunk.
pub struct ProgressSample {
    pub downloaded: u64,
    pub total_size: u64,
    pub elapsed_ms: u64,
    pub mb_centi: u128,
    pub speed_centi: u128,
    pub eta_centi: u128,
    pub percent_centi: u128,
}

impl ProgressSample {
    /// The sample's figures all agree with the specification formulas.
    pub open spec fn wf(self) -> bool {
        &&& self.mb_centi == mb_centi_spec(self.downloaded as nat)
        &&& self.speed_centi == speed_centi_spec(self.downloaded as nat, self.elapsed_ms as nat)
        &&& self.eta_centi == eta_centi_spec(
            self.total_size as nat,
            self.downloaded as nat,
            self.elapsed_ms as nat,
        )
        &&& self.percent_centi == percent_centi_spec(self.downloaded as nat, self.total_size as nat)
    }
}

/// Computes one progress sample from the raw counters.
pub fn compute_sample(downloaded: u64, total_size: u64, elapsed_ms: u64) -> (s: ProgressSample)
    ensures
        s.downloaded == downloaded,
        s.total_size == total_size,
        s.elapsed_ms == elapsed_ms,
        s.wf(),
{
    let mb_centi: u128 = downloaded as u128 * 100 / 1048576;
    let speed_centi: u128 = if elapsed_ms == 0 {
        0
    } else {
        downloaded as u128 * 100000 / (elapsed_ms as u128 * 1048576)
    };
    let remaining: u64 = if total_size > downloaded {
        total_size - downloaded
    } else {
        0
    };
    let eta_centi: u128 = if speed_centi == 0 {
        0
    } else {
        proof {
            let num = downloaded as int * 100000;
            let den = elapsed_ms as int * 1048576;
            lemma_div_basics(num);
            lemma_div_is_ordered_by_denominator(num, 1, den);
        }
        remaining as u128 * 10000 / (speed_centi * 1048576)
    };
    let percent_centi: u128 = if total_size == 0 {
        0
    } else {
        downloaded as u128 * 10000 / total_size as u128
    };
    ProgressSample { downloaded, total_size, elapsed_ms, mb_centi, speed_centi, eta_centi, percent_centi }
}

/// The total size of the chunks among the first `i` of a stream.
pub open spec fn prefix_total(chunks: Seq<nat>, i: int) -> nat
    decreases i,
{
    if i <= 0 {
        0
    } else {
        prefix_total(chunks, i - 1) + chunks[i - 1]
    }
}

/// Bytes accumulated over a prefix of the stream never shrink as the
/// prefix grows.
pub proof fn lemma_prefix_total_monotonic(chunks: Seq<nat>, i: int, j: int)
    requires
        0 <= i <= j <= chunks.len(),
    ensures
        prefix_total(chunks, i) <= prefix_total(chunks, j),
    decreases j - i,
{
    if i < j {
        lemma_prefix_total_monotonic(chunks, i, j - 1);
    }
}

/// For a stream of chunks, the reported megabyte figures are
/// non-decreasing from chunk to chunk, and after the final chunk of a
/// stream totalling `n` bytes the figure is exactly `n` megabytes in
/// hundredths, rounded down.
pub proof fn lemma_mb_figures(chunks: Seq<nat>, i: int, j: int, n: nat)
    requires
        0 <= i <= j <= chunks.len(),
        prefix_total(chunks, chunks.len() as int) == n,
    ensures
        mb_centi_spec(prefix_total(chunks, i)) <= mb_centi_spec(prefix_total(chunks, j)),
        mb_centi_spec(prefix_total(chunks, chunks.len() as int)) == n * 100 / 1048576,
{
    lemma_prefix_total_monotonic(chunks, i, j);
    lemma_div_is_ordered(
        prefix_total(chunks, i) as int * 100,
        prefix_total(chunks, j) as int * 100,
        1048576,
    );
}

/// Running byte counter of one download.
pub struct DownloadMeter {
    pub downloaded: u64,
}

impl DownloadMeter {
    /// A meter with no bytes received yet.
    pub fn new() -> (m: DownloadMeter)
        ensures
            m.downloaded == 0,
    {
        DownloadMeter { downloaded: 0 }
    }

    /// Accounts one received chunk and produces the progress sample to
    /// report for it.
    pub fn on_chunk(&mut self, chunk_len: usize, total_size: u64, elapsed_ms: u64) -> (s:
        ProgressSample)
        requires
            old(self).downloaded + chunk_len <= u64::MAX,
        ensures
            final(self).downloaded == old(self).downloaded + chunk_len,
            s.downloaded == final(self).downloaded,
            s.total_size == total_size,
            s.elapsed_ms == elapsed_ms,
            s.wf(),
    {
        self.downloaded = self.downloaded + chunk_len as u64;
        compute_sample(self.downloaded, total_size, elapsed_ms)
    }
}

/// The ordered fields of one `download-progress` event: identifier,
/// percentage, estimated seconds left, megabytes transferred, speed,
/// elapsed milliseconds, display name, stream kind, action tag.
/// Consumers parse by position, so the order and the unit suffixes are
/// part of the contract.
pub open spec fn progress_event_spec(
    s: ProgressSample,
    cid: Seq<char>,
    display_name: Seq<char>,
    kind: StreamKind,
    action: Seq<char>,
) -> Seq<Seq<char>> {
    seq![
        cid,
        centi_str(s.percent_centi as nat) + "%"@,
        centi_str(s.eta_centi as nat) + " s"@,
        centi_str(s.mb_centi as nat) + " MB"@,
        centi_str(s.speed_centi as nat) + " MB/s"@,
        dec_str(s.elapsed_ms as nat) + " ms"@,
        display_name,
        kind_label_spec(kind),
        action,
    ]
}

/// Builds the nine ordered fields of one `download-progress` event.
pub fn format_progress_event(
    s: &ProgressSample,
    cid: &str,
    display_name: &str,
    kind: StreamKind,
    action: &str,
) -> (r: Vec<String>)
    ensures
        r.deep_view() == progress_event_spec(*s, cid@, display_name@, kind, action@),
{
    let mut fields: Vec<String> = Vec::new();
    fields.push(cid.to_owned());
    let mut percent = centi_string(s.percent_centi);
    percent.append("%");
    fields.push(percent);
    let mut eta = centi_string(s.eta_centi);
    eta.append(" s");
    fields.push(eta);
    let mut mb = centi_string(s.mb_centi);
    mb.append(" MB");
    fields.push(mb);
    let mut speed = centi_string(s.speed_centi);
    speed.append(" MB/s");
    fields.push(speed);
    let mut elapsed = dec_string(s.elapsed_ms as u128);
    elapsed.append(" ms");
    fields.push(elapsed);
    fields.push(display_name.to_owned());
    fields.push(kind_label(kind));
    fields.push(action.to_owned());
    proof {
        assert(fields.deep_view() =~= progress_event_spec(*s, cid@, display_name@, kind, action@));
    }
    fields
}

} // verus!
