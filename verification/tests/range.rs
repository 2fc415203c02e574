use monsoon::range::{parse_range, plan_response, RangeHeader, StreamError};

fn h(name: &str, value: &str) -> (String, String) {
    (name.to_string(), value.to_string())
}

#[test]
fn range_request_from_an_offset() {
    let plan = plan_response(5000, "video/x-matroska", &RangeHeader::Value("bytes=1000-".to_string()), None, None).unwrap();
    assert_eq!(plan.status, 206);
    assert_eq!(plan.start, 1000);
    assert_eq!(
        plan.headers,
        vec![
            h("Accept-Ranges", "bytes"),
            h("Content-Type", "video/x-matroska"),
            h("Content-Length", "4000"),
            h("Content-Range", "bytes 1000-4999/5000"),
        ]
    );
}

#[test]
fn whole_file_without_range() {
    let plan = plan_response(5000, "video/mp4", &RangeHeader::Absent, None, None).unwrap();
    assert_eq!(plan.status, 200);
    assert_eq!(plan.start, 0);
    assert_eq!(
        plan.headers,
        vec![h("Accept-Ranges", "bytes"), h("Content-Type", "video/mp4"), h("Content-Length", "5000")]
    );
}

#[test]
fn dlna_headers_are_answered() {
    let plan = plan_response(10, "video/mp4", &RangeHeader::Absent, Some("streaming"), Some("1")).unwrap();
    assert_eq!(
        plan.headers,
        vec![
            h("Accept-Ranges", "bytes"),
            h("transferMode.dlna.org", "Streaming"),
            h("contentFeatures.dlna.org", "DLNA.ORG_OP=01"),
            h("Content-Type", "video/mp4"),
            h("Content-Length", "10"),
        ]
    );
    let plan = plan_response(10, "video/mp4", &RangeHeader::Absent, Some("Interactive"), Some("0")).unwrap();
    assert_eq!(plan.headers.len(), 3);
    let plan = plan_response(10, "video/mp4", &RangeHeader::Absent, Some("Streaming"), None).unwrap();
    assert_eq!(plan.headers[1], h("transferMode.dlna.org", "Streaming"));
}

#[test]
fn unusable_range_gives_the_whole_file_without_a_length() {
    for range in [RangeHeader::Unreadable, RangeHeader::Value("bytes=0-10".to_string()), RangeHeader::Value("items=5-".to_string())] {
        let plan = plan_response(10, "video/mp4", &range, None, None).unwrap();
        assert_eq!(plan.status, 200);
        assert_eq!(plan.start, 0);
        assert_eq!(plan.headers, vec![h("Accept-Ranges", "bytes"), h("Content-Type", "video/mp4")]);
    }
}

#[test]
fn offset_at_and_behind_the_end() {
    let plan = plan_response(10, "a/b", &RangeHeader::Value("bytes=10-".to_string()), None, None).unwrap();
    assert_eq!(plan.status, 206);
    assert_eq!(plan.headers[2], h("Content-Length", "0"));
    assert_eq!(plan.headers[3], h("Content-Range", "bytes 10-9/10"));
    assert_eq!(
        plan_response(10, "a/b", &RangeHeader::Value("bytes=11-".to_string()), None, None).err(),
        Some(StreamError::Seek)
    );
    let plan = plan_response(0, "a/b", &RangeHeader::Value("bytes=0-".to_string()), None, None).unwrap();
    assert_eq!(plan.headers[3], h("Content-Range", "bytes 0-0/0"));
    assert_eq!(StreamError::Seek.status(), 500);
    assert_eq!(StreamError::NoRoute.status(), 500);
}

#[test]
fn range_values() {
    assert_eq!(parse_range("bytes=1000-"), Some(1000));
    assert_eq!(parse_range("bytes=0-"), Some(0));
    assert_eq!(parse_range("bytes=+7-"), Some(7));
    assert_eq!(parse_range("bytes=-"), None);
    assert_eq!(parse_range("bytes="), None);
    assert_eq!(parse_range("bytes=5"), None);
    assert_eq!(parse_range("bytes=5-9"), None);
    assert_eq!(parse_range("Bytes=5-"), None);
    assert_eq!(parse_range("bytes=18446744073709551616-"), None);
    assert_eq!(parse_range(""), None);
}
