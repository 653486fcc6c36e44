use biliget::compute_sample;
use biliget::format_progress_event;
use biliget::DownloadMeter;
use biliget::StreamKind;

#[test]
fn sample_formulas() {
    // 1 MiB received of 10 MiB after exactly one second.
    let s = compute_sample(1048576, 10485760, 1000);
    assert_eq!(s.mb_centi, 100);
    assert_eq!(s.speed_centi, 100);
    assert_eq!(s.percent_centi, 1000);
    assert_eq!(s.eta_centi, 900);
}

#[test]
fn zero_total_size_percent_falls_back_to_zero() {
    let s = compute_sample(4096, 0, 50);
    assert_eq!(s.percent_centi, 0);
    let fields = format_progress_event(&s, "77", "clip.mp4", StreamKind::Audio, "multi");
    assert_eq!(fields[1], "0.00%");
}

#[test]
fn zero_elapsed_speed_and_eta_are_zero() {
    let s = compute_sample(4096, 8192, 0);
    assert_eq!(s.speed_centi, 0);
    assert_eq!(s.eta_centi, 0);
}

#[test]
fn more_received_than_total_keeps_eta_at_zero_remaining() {
    let s = compute_sample(2048, 1024, 1000);
    assert_eq!(s.eta_centi, 0);
}

#[test]
fn event_field_order_and_suffixes() {
    let s = compute_sample(1048576, 10485760, 1000);
    let fields = format_progress_event(&s, "123", "video.mp4", StreamKind::Video, "multi");
    assert_eq!(fields.len(), 9);
    assert_eq!(fields[0], "123");
    assert_eq!(fields[1], "10.00%");
    assert_eq!(fields[2], "9.00 s");
    assert_eq!(fields[3], "1.00 MB");
    assert_eq!(fields[4], "1.00 MB/s");
    assert_eq!(fields[5], "1000 ms");
    assert_eq!(fields[6], "video.mp4");
    assert_eq!(fields[7], "video");
    assert_eq!(fields[8], "multi");
}

#[test]
fn downloaded_mb_is_nondecreasing_and_ends_at_total() {
    // Ten fixed-size chunks of one mebibyte: 10 MiB in all.
    let mut meter = DownloadMeter::new();
    let total: u64 = 10 * 1048576;
    let mut last_mb = 0u128;
    let mut elapsed = 0u64;
    for _ in 0..10 {
        elapsed += 100;
        let s = meter.on_chunk(1048576, total, elapsed);
        assert!(s.mb_centi >= last_mb, "downloaded MB must never shrink");
        last_mb = s.mb_centi;
    }
    assert_eq!(meter.downloaded, total);
    assert_eq!(last_mb, 1000, "final figure is the full 10.00 MB");
}

#[test]
fn chunked_accumulation_matches_byte_count() {
    let mut meter = DownloadMeter::new();
    let sizes = vec![1000usize, 24, 0, 4096, 1];
    let mut sum = 0u64;
    for (i, len) in sizes.iter().enumerate() {
        sum += *len as u64;
        let s = meter.on_chunk(*len, 8192, (i as u64 + 1) * 10);
        assert_eq!(s.downloaded, sum);
    }
    assert_eq!(meter.downloaded, 5121);
}
