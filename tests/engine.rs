use scurl::error::TransferError;
use scurl::headers::{parse_header, prepare_headers, range_value, USER_AGENT};
use scurl::length::{content_length, parse_decimal};
use scurl::plan::{plan_body, BodyPlan};
use scurl::progress::{progress_bar, Frame, ProgressBar};
use scurl::redirect::{status_is_redirection, status_is_success, Session, Step, MAX_REDIRECTS};
use scurl::request::{Commands, Method, TransferRequest};
use scurl::segment::{plan_segments, Segment, SEGMENT_COUNT};
use scurl::transfer::{Action, Transfer};

fn request(method: Method, url: &str, output: Option<&str>, headers: &[&str]) -> TransferRequest {
    TransferRequest {
        method,
        url: url.to_string(),
        body: None,
        headers: headers.iter().map(|h| h.to_string()).collect(),
        output: output.map(|o| o.to_string()),
        verbose: false,
    }
}

#[test]
fn header_split_and_trimmed() {
    assert_eq!(parse_header("Accept: text/html"), Some(("Accept".to_string(), "text/html".to_string())));
    assert_eq!(parse_header("  X-Key   :   v  "), Some(("X-Key".to_string(), "v".to_string())));
    assert_eq!(parse_header("Host: a:8080"), Some(("Host".to_string(), "a:8080".to_string())));
    assert_eq!(parse_header(":"), Some((String::new(), String::new())));
    assert_eq!(parse_header("no separator"), None);
    assert_eq!(parse_header(""), None);
}

#[test]
fn malformed_headers_do_not_abort() {
    let raw: Vec<String> = vec!["Bad".to_string(), "A: 1".to_string(), "worse one".to_string(), "B:2".to_string()];
    let prepared = prepare_headers(&raw);
    assert_eq!(
        prepared.fields,
        vec![("A".to_string(), "1".to_string()), ("B".to_string(), "2".to_string())]
    );
    assert_eq!(prepared.malformed, vec!["Bad".to_string(), "worse one".to_string()]);

    let mut t = Transfer::new(request(Method::Get, "https://example.test/", None, &["nocolon"])).unwrap();
    assert!(t.headers.fields.is_empty());
    assert_eq!(t.headers.malformed, vec!["nocolon".to_string()]);
    assert!(matches!(t.on_response(200, None, Some("12")), Action::Body(BodyPlan::Print)));
}

#[test]
fn user_agent_is_fixed() {
    assert_eq!(USER_AGENT, "scurl/0.2");
}

#[test]
fn status_classes() {
    assert!(status_is_success(200));
    assert!(status_is_success(299));
    assert!(!status_is_success(300));
    assert!(status_is_redirection(301));
    assert!(status_is_redirection(308));
    assert!(!status_is_redirection(404));
}

#[test]
fn decimal_lengths() {
    assert_eq!(parse_decimal("10000000"), Some(10_000_000));
    assert_eq!(parse_decimal("+7"), Some(7));
    assert_eq!(parse_decimal("0"), Some(0));
    assert_eq!(parse_decimal("18446744073709551615"), Some(u64::MAX));
    assert_eq!(parse_decimal("18446744073709551616"), None);
    assert_eq!(parse_decimal("99999999999999999999999"), None);
    assert_eq!(parse_decimal(""), None);
    assert_eq!(parse_decimal("+"), None);
    assert_eq!(parse_decimal("-1"), None);
    assert_eq!(parse_decimal("12a"), None);
    assert_eq!(parse_decimal(" 12"), None);
    assert_eq!(content_length(Some("512")), 512);
    assert_eq!(content_length(Some("abc")), 0);
    assert_eq!(content_length(None), 0);
}

#[test]
fn unknown_length_streams_without_progress() {
    assert_eq!(plan_body(Method::Get, true, content_length(None)), BodyPlan::Stream { total: 0, progress: false });
    assert_eq!(plan_body(Method::Get, false, 0), BodyPlan::Print);
    let mut p = ProgressBar::new(0);
    p.inc(4096);
    assert_eq!(p.current, 4096);
    assert_eq!(p.frame(), None);
}

#[test]
fn plan_thresholds() {
    assert_eq!(plan_body(Method::Get, true, 5_000_000), BodyPlan::Stream { total: 5_000_000, progress: true });
    assert_eq!(plan_body(Method::Get, true, 5_000_001), BodyPlan::Segmented { total: 5_000_001 });
    assert_eq!(plan_body(Method::Post, false, 50_000_000), BodyPlan::Print);
    assert_eq!(plan_body(Method::Put, true, 50_000), BodyPlan::Stream { total: 50_000, progress: false });
    assert_eq!(plan_body(Method::Delete, true, 50_001), BodyPlan::Stream { total: 50_001, progress: true });
    assert_eq!(plan_body(Method::Head, true, 50_000_000), BodyPlan::ReportHead);
}

#[test]
fn redirect_chain_of_five_finishes() {
    let mut t = Transfer::new(request(Method::Get, "https://example.test/0", None, &[])).unwrap();
    for i in 1..=5u64 {
        let loc = format!("https://example.test/{}", i);
        assert!(matches!(t.on_response(302, Some(loc.clone()), None), Action::Send));
        assert_eq!(t.session.current_url, loc);
        assert_eq!(t.session.redirects, i);
    }
    assert!(matches!(t.on_response(200, None, None), Action::Body(BodyPlan::Print)));
}

#[test]
fn redirect_chain_of_six_fails() {
    let mut t = Transfer::new(request(Method::Get, "https://example.test/0", Some("out.bin"), &[])).unwrap();
    for i in 1..=MAX_REDIRECTS {
        assert!(matches!(t.on_response(301, Some(format!("https://example.test/{}", i)), None), Action::Send));
    }
    assert!(matches!(
        t.on_response(307, Some("https://example.test/6".to_string()), None),
        Action::Fail(TransferError::TooManyRedirects)
    ));
    assert_eq!(t.session.redirects, 5);
    assert_eq!(t.session.current_url, "https://example.test/5");
}

#[test]
fn redirect_without_location_is_a_status_error() {
    let mut s = Session::new("https://example.test/");
    assert_eq!(s.on_response(302, None), Step::Rejected(302));
    assert_eq!(s.redirects, 0);
    assert_eq!(s.current_url, "https://example.test/");
}

#[test]
fn error_statuses_never_write() {
    for code in [404u16, 500u16] {
        let mut t = Transfer::new(request(Method::Get, "https://example.test/x", Some("out.bin"), &[])).unwrap();
        match t.on_response(code, None, Some("10000000")) {
            Action::Fail(TransferError::StatusError { code: c }) => assert_eq!(c, code),
            other => panic!("unexpected action {:?}", matches!(other, Action::Body(_))),
        }
    }
}

#[test]
fn head_reports_only() {
    let mut t = Transfer::new(request(Method::Head, "https://example.test/", None, &[])).unwrap();
    assert!(matches!(t.on_response(200, None, Some("1234")), Action::Body(BodyPlan::ReportHead)));
    assert_eq!(Method::Head.as_str(), "HEAD");
}

#[test]
fn ten_megabytes_to_file_is_segmented() {
    let mut t = Transfer::new(request(Method::Get, "https://example.test/file.bin", Some("out.bin"), &[])).unwrap();
    let action = t.on_response(200, None, Some("10000000"));
    assert!(matches!(action, Action::Body(BodyPlan::Segmented { total: 10_000_000 })));
    let segs = plan_segments(10_000_000, SEGMENT_COUNT);
    assert_eq!(segs.len(), 32);
    assert_eq!(segs[0], Segment { start: 0, end: 312_499 });
    assert_eq!(segs[1], Segment { start: 312_500, end: 624_999 });
    assert_eq!(segs[31], Segment { start: 9_687_500, end: 9_999_999 });
    let total: u64 = segs.iter().map(|s| s.end - s.start + 1).sum();
    assert_eq!(total, 10_000_000);
    assert_eq!(range_value(segs[31]), "bytes=9687500-9999999");
    assert_eq!(range_value(segs[0]), "bytes=0-312499");
}

#[test]
fn segments_partition_with_remainder() {
    for (total, count) in [(32u64, 32u64), (100, 32), (5_000_001, 32), (7, 1), (u64::MAX, 32)] {
        let segs = plan_segments(total, count);
        assert_eq!(segs.len() as u64, count);
        assert_eq!(segs[0].start, 0);
        assert_eq!(segs[segs.len() - 1].end, total - 1);
        for w in segs.windows(2) {
            assert!(w[0].start <= w[0].end);
            assert_eq!(w[0].end + 1, w[1].start);
        }
    }
    let segs = plan_segments(100, 32);
    assert_eq!(segs[30], Segment { start: 90, end: 92 });
    assert_eq!(segs[31], Segment { start: 93, end: 99 });
}

#[test]
fn segmented_and_sequential_files_match() {
    let body: Vec<u8> = (0..1000u32).map(|i| (i * 7 % 251) as u8).collect();
    let mut sequential: Vec<u8> = Vec::new();
    for chunk in body.chunks(64) {
        sequential.extend_from_slice(chunk);
    }
    let mut segmented: Vec<u8> = Vec::new();
    for s in plan_segments(body.len() as u64, SEGMENT_COUNT) {
        let (a, b) = (s.start as usize, s.end as usize + 1);
        if segmented.len() < b {
            segmented.resize(b, 0);
        }
        segmented[a..b].copy_from_slice(&body[a..b]);
    }
    assert_eq!(segmented, body);
    assert_eq!(sequential, segmented);
}

#[test]
fn range_values() {
    assert_eq!(range_value(Segment { start: 0, end: 0 }), "bytes=0-0");
    assert_eq!(range_value(Segment { start: 10, end: 1_009 }), "bytes=10-1009");
    assert_eq!(range_value(Segment { start: u64::MAX - 1, end: u64::MAX }), "bytes=18446744073709551614-18446744073709551615");
}

#[test]
fn progress_frames() {
    let mut p = ProgressBar::new(200);
    assert_eq!(p.frame(), Some(Frame { filled: 0, empty: 40, hundredths: 0 }));
    p.inc(50);
    assert_eq!(p.frame(), Some(Frame { filled: 10, empty: 30, hundredths: 2500 }));
    p.inc(150);
    assert_eq!(p.frame(), Some(Frame { filled: 40, empty: 0, hundredths: 10000 }));
    p.inc(200);
    assert_eq!(p.frame(), Some(Frame { filled: 40, empty: 0, hundredths: 20000 }));
    let mut q = ProgressBar::new(3);
    q.inc(1);
    assert_eq!(q.frame(), Some(Frame { filled: 13, empty: 27, hundredths: 3333 }));
    q.inc(u64::MAX);
    assert_eq!(q.current, u64::MAX);
    assert_eq!(q.total, 3);
}

#[test]
fn commands_become_requests() {
    let c = Commands::Post {
        url: "https://example.test/api".to_string(),
        data: Some("{\"a\":1}".to_string()),
        output: None,
        headers: vec!["Content-Type: application/json".to_string()],
        verbose: true,
    };
    let r = c.to_request();
    assert_eq!(r.method, Method::Post);
    assert_eq!(r.method.as_str(), "POST");
    assert_eq!(r.url, "https://example.test/api");
    assert_eq!(r.body.as_deref(), Some("{\"a\":1}"));
    assert_eq!(r.output, None);
    assert_eq!(r.headers, vec!["Content-Type: application/json".to_string()]);
    assert!(r.verbose);

    let h = Commands::Head { url: "https://example.test/".to_string(), headers: vec![], verbose: false };
    let r = h.to_request();
    assert_eq!(r.method, Method::Head);
    assert_eq!(r.output, None);
    assert_eq!(r.body, None);

    let g = Commands::Get {
        url: "u".to_string(),
        output: Some("out.bin".to_string()),
        headers: vec![],
        verbose: false,
    };
    assert_eq!(g.to_request().output.as_deref(), Some("out.bin"));
    let d = Commands::Delete { url: "u".to_string(), output: None, headers: vec![], verbose: false };
    assert_eq!(d.to_request().method.as_str(), "DELETE");
    let p = Commands::Put { url: "u".to_string(), data: None, output: None, headers: vec![], verbose: false };
    assert_eq!(p.to_request().method.as_str(), "PUT");
    assert_eq!(Method::Get.as_str(), "GET");
}

#[test]
fn progress_bar_starts_empty() {
    let p = progress_bar(1000);
    assert_eq!(p.total, 1000);
    assert_eq!(p.current, 0);
    assert_eq!(p.frame(), Some(Frame { filled: 0, empty: 40, hundredths: 0 }));
}

#[test]
fn range_completeness() {
    let s = Segment { start: 100, end: 199 };
    assert!(s.is_complete(100));
    assert!(!s.is_complete(99));
    assert!(!s.is_complete(0));
    assert!(!s.is_complete(10_000));
    assert!(Segment { start: 5, end: 5 }.is_complete(1));
}

#[test]
fn unsendable_headers_fail_before_sending() {
    let r = Transfer::new(request(Method::Get, "https://example.test/", None, &["A: 1", "Bad Name: x", "(c): 2"]));
    match r {
        Err(TransferError::InvalidHeader { name }) => assert_eq!(name, "Bad Name"),
        _ => panic!("expected an invalid header"),
    }
    let r = Transfer::new(request(Method::Get, "https://example.test/", None, &["X-Ctl: a\u{1}b"]));
    assert!(matches!(r, Err(TransferError::InvalidHeader { name }) if name == "X-Ctl"));
    let r = Transfer::new(request(Method::Get, "https://example.test/", None, &["Ünicode: v"]));
    assert!(matches!(r, Err(TransferError::InvalidHeader { .. })));
    let r = Transfer::new(request(Method::Get, "https://example.test/", None, &[": empty name"]));
    assert!(matches!(r, Err(TransferError::InvalidHeader { name }) if name.is_empty()));
}

#[test]
fn sendable_headers_pass() {
    let t = Transfer::new(request(
        Method::Get,
        "https://example.test/",
        None,
        &["X-Tab: a\tb", "Accept: café", "Weird-#$%&'*+.^_`|~!\"Chars: ok", "Empty:"],
    ))
    .unwrap();
    assert_eq!(t.headers.fields.len(), 4);
    assert_eq!(t.headers.fields[3], ("Empty".to_string(), String::new()));
}
