use biliget::parse_kv;
use biliget::tail_cycle;
use biliget::trim;
use biliget::RingBuffer;
use biliget::RING_CAPACITY;

#[test]
fn parse_plain_pair() {
    let (k, v) = parse_kv("frame=120").expect("one equals sign");
    assert_eq!(k, "frame");
    assert_eq!(v, "120");
}

#[test]
fn parse_trims_both_sides() {
    let (k, v) = parse_kv(" out_time = 00:00:07.80 \n").expect("one equals sign");
    assert_eq!(k, "out_time");
    assert_eq!(v, "00:00:07.80");
}

#[test]
fn parse_rejects_no_equals() {
    assert!(parse_kv("no separator here").is_none());
}

#[test]
fn parse_rejects_two_equals() {
    assert!(parse_kv("a=b=c").is_none());
}

#[test]
fn trim_behaviour() {
    assert_eq!(trim("  x  "), "x");
    assert_eq!(trim("\t\r\n"), "");
    assert_eq!(trim("word"), "word");
}

#[test]
fn ring_buffer_caps_at_capacity() {
    let mut ring = RingBuffer::new();
    for i in 0..(RING_CAPACITY + 5) {
        ring.push(format!("frame={}", i));
    }
    assert_eq!(ring.len(), RING_CAPACITY);
    // The oldest lines were evicted: the first surviving frame is 5.
    let (msgs, _) = tail_cycle(&ring, "clip.mp4");
    assert_eq!(msgs[0], "5");
}

#[test]
fn cycle_reports_each_key_once() {
    let mut ring = RingBuffer::new();
    ring.push("frame=10\n".to_owned());
    ring.push("fps=25.0\n".to_owned());
    ring.push("frame=11\n".to_owned());
    ring.push("out_time=00:00:01\n".to_owned());
    ring.push("bitrate=900k\n".to_owned());
    ring.push("speed=1.5x\n".to_owned());
    ring.push("fps=26.0\n".to_owned());
    let (msgs, done) = tail_cycle(&ring, "clip.mp4");
    assert!(!done);
    // First occurrence of each interesting key, in buffer order, then
    // the display name; `bitrate` is not an interesting key.
    assert_eq!(msgs, vec!["10", "25.0", "00:00:01", "1.5x", "clip.mp4"]);
}

#[test]
fn cycle_never_exceeds_buffered_lines_plus_name() {
    let mut ring = RingBuffer::new();
    for i in 0..40 {
        ring.push(format!("frame={}", i));
    }
    let (msgs, _) = tail_cycle(&ring, "clip.mp4");
    assert!(msgs.len() <= RING_CAPACITY + 1);
    // All lines carry the same key, so only one value is reported.
    assert_eq!(msgs.len(), 2);
}

#[test]
fn sentinel_ends_the_tail() {
    let mut ring = RingBuffer::new();
    ring.push("frame=99\n".to_owned());
    ring.push("progress=end\n".to_owned());
    let (msgs, done) = tail_cycle(&ring, "clip.mp4");
    assert!(done, "the sentinel line ends the tail loop");
    // `progress` is not an interesting key; only frame and the name are
    // reported.
    assert_eq!(msgs, vec!["99", "clip.mp4"]);
}

#[test]
fn name_is_always_appended() {
    let ring = RingBuffer::new();
    let (msgs, done) = tail_cycle(&ring, "clip.mp4");
    assert!(!done);
    assert_eq!(msgs, vec!["clip.mp4"]);
}
