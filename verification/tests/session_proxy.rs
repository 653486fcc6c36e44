use biliget::centi_string;
use biliget::cookie_header_value;
use biliget::dec_string;
use biliget::default_headers;
use biliget::extract_filename;
use biliget::find_sessdata;
use biliget::join_path;
use biliget::login_step;
use biliget::mask_key;
use biliget::proxy_target;
use biliget::str_eq;
use biliget::user_mid_event;
use biliget::LoginStep;

#[test]
fn filename_from_url() {
    assert_eq!(
        extract_filename("https://example.com/stream/30280/audio.m4s?k=v"),
        "audio.m4s"
    );
}

#[test]
fn filename_fallback_on_unparsable_url() {
    assert_eq!(extract_filename("not a url"), "default_filename");
}

#[test]
fn filename_of_bare_host_is_empty_segment() {
    assert_eq!(extract_filename("https://example.com/"), "");
}

#[test]
fn path_join() {
    assert_eq!(join_path("/tmp/work", "audio.m4s"), "/tmp/work/audio.m4s");
}

#[test]
fn string_equality() {
    assert!(str_eq("abc", "abc"));
    assert!(!str_eq("abc", "abd"));
    assert!(!str_eq("abc", "abcd"));
}

#[test]
fn decimal_rendering() {
    assert_eq!(dec_string(0), "0");
    assert_eq!(dec_string(907), "907");
    assert_eq!(centi_string(0), "0.00");
    assert_eq!(centi_string(7), "0.07");
    assert_eq!(centi_string(1234), "12.34");
}

#[test]
fn fixed_header_set() {
    let headers = default_headers();
    assert_eq!(headers.len(), 6);
    assert_eq!(headers[0].0, "User-Agent");
    assert_eq!(headers[3], ("Range".to_owned(), "bytes=0-".to_owned()));
    assert_eq!(headers[5], ("Referer".to_owned(), "https://www.bilibili.com".to_owned()));
}

#[test]
fn cookie_line() {
    assert_eq!(
        cookie_header_value("SESSDATA=abc123"),
        "SESSDATA=abc123; Domain=.bilibili.com; Path=/"
    );
}

#[test]
fn key_masking() {
    assert_eq!(mask_key("abcdefghXXXX12345678"), "abcdefgh****12345678");
    assert_eq!(mask_key("abcdefgh12345678"), "abcdefgh12345678");
}

#[test]
fn sessdata_segment_is_found_verbatim() {
    assert_eq!(
        find_sessdata("foo=1; SESSDATA=abc; bar=2").as_deref(),
        Some(" SESSDATA=abc")
    );
    assert_eq!(find_sessdata("SESSDATA=xyz").as_deref(), Some("SESSDATA=xyz"));
    assert!(find_sessdata("foo=1; bar=2").is_none());
}

#[test]
fn login_decisions() {
    assert_eq!(login_step(Some(-412), None), LoginStep::Rejected);
    assert_eq!(login_step(Some(0), Some(0)), LoginStep::Scanned);
    assert_eq!(login_step(Some(0), Some(86038)), LoginStep::Expired);
    assert_eq!(login_step(Some(0), Some(86101)), LoginStep::Waiting);
    assert_eq!(login_step(Some(0), Some(86090)), LoginStep::Waiting);
    assert_eq!(login_step(Some(0), Some(5)), LoginStep::Unknown);
    assert_eq!(login_step(Some(0), None), LoginStep::Unknown);
    assert_eq!(login_step(Some(7), Some(0)), LoginStep::Unknown);
    assert_eq!(login_step(None, None), LoginStep::Unknown);
}

#[test]
fn proxy_targets() {
    assert_eq!(
        proxy_target("https://api.bilibili.com", "/api/x/web-interface/nav", "p=1"),
        "https://api.bilibili.com/x/web-interface/nav?p=1"
    );
    assert_eq!(
        proxy_target("https://passport.bilibili.com", "/passport/login", ""),
        "https://passport.bilibili.com/login"
    );
    assert_eq!(
        proxy_target("https://i0.hdslb.com", "/i0/bfs/pic.png", ""),
        "https://i0.hdslb.com/bfs/pic.png"
    );
    assert_eq!(
        proxy_target("https://api.bilibili.com", "/other", ""),
        "https://api.bilibili.com/other"
    );
}

#[test]
fn user_mid_payload() {
    assert_eq!(user_mid_event(0, "init"), vec!["0", "init"]);
    assert_eq!(user_mid_event(3493118839, "login"), vec!["3493118839", "login"]);
}
