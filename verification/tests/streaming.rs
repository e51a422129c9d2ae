use music_core::stream::{
    assemble, forbidden, handle_stream_request, media_type_of, parse_range_header, path_of_uri,
    plan_response, satisfiable_ranges, BodyPart, RangeRequest, Response, MAX_LEN,
};

fn file_of(len: usize) -> Vec<u8> {
    (0..len).map(|i| (i % 251) as u8).collect()
}

fn header<'a>(response: &'a Response, name: &str) -> Option<&'a str> {
    response.headers.iter().find(|(n, _)| n == name).map(|(_, v)| v.as_str())
}

fn pairs(items: &[(&str, &str)]) -> Vec<(String, String)> {
    items.iter().map(|(n, v)| (n.to_string(), v.to_string())).collect()
}

fn body_of(response: &Response, file: &Vec<u8>) -> Vec<u8> {
    assemble(&response.body, file).unwrap()
}

#[test]
fn uri_gives_the_percent_decoded_path() {
    assert_eq!(
        path_of_uri("stream://localhost/%2Ftmp%2Ffile.mp3"),
        Some("/tmp/file.mp3".to_string())
    );
    assert_eq!(
        path_of_uri("stream://localhost/%2Fmy%20music%2F%C3%A9t%C3%A9.flac"),
        Some("/my music/\u{e9}t\u{e9}.flac".to_string())
    );
    assert_eq!(path_of_uri("stream://localhost/"), Some(String::new()));
    assert_eq!(path_of_uri("stream://localhost/plain"), Some("plain".to_string()));
    assert_eq!(path_of_uri("stream://localhost/100%"), Some("100%".to_string()));
}

#[test]
fn uri_with_bytes_that_are_no_utf8_decodes_lossily() {
    assert_eq!(path_of_uri("stream://localhost/a%FFb"), Some("a\u{fffd}b".to_string()));
}

#[test]
fn uri_of_another_scheme_names_no_path() {
    assert_eq!(path_of_uri("http://localhost/%2Ftmp%2Ffile.mp3"), None);
    assert_eq!(path_of_uri("stream://localhost"), None);
    assert_eq!(path_of_uri("Stream://localhost/x"), None);
    assert_eq!(path_of_uri(""), None);
}

#[test]
fn media_type_goes_by_extension() {
    assert_eq!(media_type_of("/tmp/file.mp3"), "audio/mpeg");
    assert_eq!(media_type_of("/tmp/file.flac"), "audio/flac");
    assert_eq!(media_type_of("/tmp/file.MP3"), "audio/mpeg");
    assert_eq!(media_type_of("/tmp/cover.png"), "image/png");
}

#[test]
fn m4a_is_served_as_mp4_audio() {
    assert_eq!(media_type_of("/tmp/file.m4a"), "audio/mp4");
}

#[test]
fn unknown_extension_is_an_octet_stream() {
    assert_eq!(media_type_of("/tmp/file.zzzzz"), "application/octet-stream");
    assert_eq!(media_type_of("/tmp/file"), "application/octet-stream");
    assert_eq!(media_type_of(""), "application/octet-stream");
}

#[test]
fn request_out_of_scope_is_forbidden() {
    let response = handle_stream_request("/etc/passwd", false, Some("bytes=0-9"), 1000);
    assert_eq!(response, forbidden());
    assert_eq!(response.status, 403);
    assert_eq!(response.headers, pairs(&[("Access-Control-Allow-Origin", "*")]));
    assert_eq!(body_of(&response, &vec![]), b"File not in scope".to_vec());
}

#[test]
fn request_without_range_gets_the_whole_file() {
    let file = file_of(1000);
    let response = handle_stream_request("/tmp/file.mp3", true, None, 1000);
    assert_eq!(response.status, 200);
    assert_eq!(
        response.headers,
        pairs(&[
            ("Content-Type", "audio/mpeg"),
            ("Content-Length", "1000"),
            ("Access-Control-Allow-Origin", "*"),
            ("Access-Control-Allow-Headers", "*"),
            ("Access-Control-Allow-Methods", "*"),
        ])
    );
    assert_eq!(response.body, vec![BodyPart::FileRange { start: 0, end: 999 }]);
    assert_eq!(body_of(&response, &file), file);
}

#[test]
fn whole_file_is_not_capped() {
    let len = 3 * MAX_LEN;
    let response = handle_stream_request("/tmp/file.mp3", true, None, len);
    assert_eq!(response.body, vec![BodyPart::FileRange { start: 0, end: len - 1 }]);
    assert_eq!(header(&response, "Content-Length"), Some("3072000"));
}

#[test]
fn empty_file_is_served_with_an_empty_body() {
    let response = handle_stream_request("/tmp/file.mp3", true, None, 0);
    assert_eq!(response.status, 200);
    assert_eq!(header(&response, "Content-Length"), Some("0"));
    assert_eq!(body_of(&response, &vec![]), Vec::<u8>::new());
}

#[test]
fn first_hundred_bytes_of_a_thousand() {
    let file = file_of(1000);
    let path = path_of_uri("stream://localhost/%2Ftmp%2Ffile.mp3").unwrap();
    let response = handle_stream_request(&path, true, Some("bytes=0-99"), 1000);
    assert_eq!(response.status, 206);
    assert_eq!(
        response.headers,
        pairs(&[
            ("Content-Type", "audio/mpeg"),
            ("Content-Range", "bytes 0-99/1000"),
            ("Content-Length", "100"),
            ("Access-Control-Allow-Origin", "*"),
        ])
    );
    assert_eq!(body_of(&response, &file), file[..100].to_vec());
}

#[test]
fn range_is_clamped_to_the_file() {
    let file = file_of(1000);
    let response = handle_stream_request("/tmp/file.mp3", true, Some("bytes=900-5000"), 1000);
    assert_eq!(response.status, 206);
    assert_eq!(header(&response, "Content-Range"), Some("bytes 900-999/1000"));
    assert_eq!(header(&response, "Content-Length"), Some("100"));
    assert_eq!(body_of(&response, &file), file[900..].to_vec());
}

#[test]
fn open_and_suffix_ranges_are_understood() {
    let file = file_of(1000);
    let response = handle_stream_request("/tmp/file.mp3", true, Some("bytes=990-"), 1000);
    assert_eq!(header(&response, "Content-Range"), Some("bytes 990-999/1000"));
    assert_eq!(body_of(&response, &file), file[990..].to_vec());
    let response = handle_stream_request("/tmp/file.mp3", true, Some("bytes=-5"), 1000);
    assert_eq!(header(&response, "Content-Range"), Some("bytes 995-999/1000"));
    assert_eq!(body_of(&response, &file), file[995..].to_vec());
}

#[test]
fn range_is_capped_at_max_len() {
    assert_eq!(MAX_LEN, 1000 * 1024);
    let len = 3_000_000;
    let response = handle_stream_request("/tmp/file.mp3", true, Some("bytes=0-"), len);
    assert_eq!(response.status, 206);
    assert_eq!(header(&response, "Content-Range"), Some("bytes 0-1023999/3000000"));
    assert_eq!(header(&response, "Content-Length"), Some("1024000"));
    assert_eq!(response.body, vec![BodyPart::FileRange { start: 0, end: 1_023_999 }]);

    let response = handle_stream_request("/tmp/file.mp3", true, Some("bytes=10-1024009"), len);
    assert_eq!(header(&response, "Content-Range"), Some("bytes 10-1024009/3000000"));
    let response = handle_stream_request("/tmp/file.mp3", true, Some("bytes=10-1024010"), len);
    assert_eq!(header(&response, "Content-Range"), Some("bytes 10-1024009/3000000"));
}

#[test]
fn two_ranges_make_a_multipart_body() {
    let file = file_of(1000);
    let response = handle_stream_request("/tmp/file.mp3", true, Some("bytes=0-0,500-599"), 1000);
    assert_eq!(response.status, 206);
    let content_type = header(&response, "Content-Type").unwrap();
    let boundary = content_type.strip_prefix("multipart/byteranges; boundary=").unwrap();
    let number = boundary.strip_prefix("sadasq2e").unwrap();
    assert!(!number.is_empty() && number.chars().all(|c| c.is_ascii_digit()));
    assert_eq!(
        response.headers,
        pairs(&[("Content-Type", content_type), ("Access-Control-Allow-Origin", "*")])
    );

    let mut expected = Vec::new();
    expected.extend_from_slice(
        format!(
            "\r\n--{boundary}\r\nContent-Type: audio/mpeg\r\nContent-Range: bytes 0-0/1000\r\n\r\n"
        )
        .as_bytes(),
    );
    expected.extend_from_slice(&file[0..1]);
    expected.extend_from_slice(
        format!(
            "\r\n--{boundary}\r\nContent-Type: audio/mpeg\r\nContent-Range: bytes 500-599/1000\r\n\r\n"
        )
        .as_bytes(),
    );
    expected.extend_from_slice(&file[500..600]);
    expected.extend_from_slice(format!("\r\n--{boundary}\r\n").as_bytes());
    let body = body_of(&response, &file);
    assert_eq!(body, expected);
    assert!(body.ends_with(format!("\r\n--{boundary}\r\n").as_bytes()));
}

#[test]
fn multipart_body_with_a_given_boundary_number() {
    let file = file_of(50);
    let request = RangeRequest::Ranges(vec![(0, 2), (10, 3), (48, 2)]);
    let response = plan_response("audio/flac", 50, request, 42);
    assert_eq!(
        response.headers,
        pairs(&[
            ("Content-Type", "multipart/byteranges; boundary=sadasq2e42"),
            ("Access-Control-Allow-Origin", "*"),
        ])
    );
    let head = |range: &str| {
        BodyPart::Bytes(
            format!(
                "\r\n--sadasq2e42\r\nContent-Type: audio/flac\r\nContent-Range: bytes {range}/50\r\n\r\n"
            )
            .into_bytes(),
        )
    };
    assert_eq!(
        response.body,
        vec![
            head("0-1"),
            BodyPart::FileRange { start: 0, end: 1 },
            head("10-12"),
            BodyPart::FileRange { start: 10, end: 12 },
            head("48-49"),
            BodyPart::FileRange { start: 48, end: 49 },
            BodyPart::Bytes(b"\r\n--sadasq2e42\r\n".to_vec()),
        ]
    );
    let body = body_of(&response, &file);
    assert_eq!(body.len(), response.body.iter().map(|p| match p {
        BodyPart::Bytes(b) => b.len(),
        BodyPart::FileRange { start, end } => (end - start + 1) as usize,
    }).sum::<usize>());
}

#[test]
fn range_beyond_the_file_is_not_satisfiable() {
    let response = handle_stream_request("/tmp/file.mp3", true, Some("bytes=2000-2500"), 1000);
    assert_eq!(response.status, 416);
    assert_eq!(response.headers, pairs(&[("Content-Range", "bytes */1000")]));
    assert_eq!(body_of(&response, &file_of(1000)), Vec::<u8>::new());
}

#[test]
fn range_header_that_does_not_parse_is_not_satisfiable() {
    for bad in ["items=0-9", "bytes=9-0", "bytes=a-b", "bytes", "bytes=0x10-", "0-99", "bytes=--1"] {
        let response = handle_stream_request("/tmp/file.mp3", true, Some(bad), 1000);
        assert_eq!(response.status, 416, "{bad}");
        assert_eq!(header(&response, "Content-Range"), Some("bytes */1000"), "{bad}");
        assert!(response.body.is_empty(), "{bad}");
    }
}

#[test]
fn range_header_without_ranges_is_not_satisfiable() {
    for none in ["", "bytes=", "bytes=,", "bytes= , "] {
        let response = handle_stream_request("/tmp/file.mp3", true, Some(none), 1000);
        assert_eq!(response.status, 416, "{none:?}");
    }
}

#[test]
fn no_range_of_an_empty_file_can_be_served() {
    for range in ["bytes=0-", "bytes=0-0", "bytes=-5"] {
        let response = handle_stream_request("/tmp/file.mp3", true, Some(range), 0);
        assert_eq!(response.status, 416, "{range}");
        assert_eq!(header(&response, "Content-Range"), Some("bytes */0"));
    }
}

#[test]
fn one_range_left_of_several_is_served_alone() {
    let response = handle_stream_request("/tmp/file.mp3", true, Some("bytes=0-9,2000-"), 1000);
    assert_eq!(response.status, 206);
    assert_eq!(header(&response, "Content-Range"), Some("bytes 0-9/1000"));
    assert_eq!(header(&response, "Content-Type"), Some("audio/mpeg"));
}

#[test]
fn status_416_exactly_where_nothing_can_be_served() {
    let cases: Vec<(RangeRequest, bool)> = vec![
        (RangeRequest::Whole, false),
        (RangeRequest::Invalid, true),
        (RangeRequest::Ranges(vec![]), true),
        (RangeRequest::Ranges(vec![(0, 0)]), true),
        (RangeRequest::Ranges(vec![(100, 1)]), true),
        (RangeRequest::Ranges(vec![(99, 2)]), true),
        (RangeRequest::Ranges(vec![(u64::MAX, u64::MAX)]), true),
        (RangeRequest::Ranges(vec![(99, 1)]), false),
        (RangeRequest::Ranges(vec![(0, 100)]), false),
        (RangeRequest::Ranges(vec![(100, 1), (5, 5)]), false),
        (RangeRequest::Ranges(vec![(5, 5), (50, 5)]), false),
    ];
    for (request, expected) in cases {
        let response = plan_response("audio/mpeg", 100, request.clone(), 1);
        assert_eq!(response.status == 416, expected, "{request:?}");
        assert!(assemble(&response.body, &file_of(100)).is_some());
    }
}

#[test]
fn ranges_to_serve_are_those_within_the_file_clamped() {
    let len = 2 * MAX_LEN;
    let ranges = vec![(0, 1), (5, 0), (10, MAX_LEN), (10, MAX_LEN + 1), (len - 1, 1), (len, 1), (len - 1, 2)];
    assert_eq!(
        satisfiable_ranges(&ranges, len),
        vec![(0, 0), (10, MAX_LEN + 9), (10, MAX_LEN + 9), (len - 1, len - 1)]
    );
    assert_eq!(satisfiable_ranges(&vec![], len), vec![]);
    assert_eq!(satisfiable_ranges(&vec![(u64::MAX, 1), (1, u64::MAX)], u64::MAX), vec![]);
}

#[test]
fn range_header_is_parsed_into_starts_and_lengths() {
    assert_eq!(parse_range_header(None, 1000), RangeRequest::Whole);
    assert_eq!(parse_range_header(Some("bytes=0-99"), 1000), RangeRequest::Ranges(vec![(0, 100)]));
    assert_eq!(
        parse_range_header(Some("bytes=0-0, 500-599,-1"), 1000),
        RangeRequest::Ranges(vec![(0, 1), (500, 100), (999, 1)])
    );
    assert_eq!(parse_range_header(Some("bytes=2000-2500"), 1000), RangeRequest::Invalid);
    assert_eq!(parse_range_header(Some("nonsense"), 1000), RangeRequest::Invalid);
}

#[test]
fn walking_a_file_by_ranges_rebuilds_it() {
    let len = 2 * MAX_LEN as usize + 12_345;
    let file = file_of(len);
    let mut rebuilt: Vec<u8> = Vec::new();
    let mut requests = 0;
    while rebuilt.len() < len {
        let range = format!("bytes={}-", rebuilt.len());
        let response = handle_stream_request("/tmp/file.mp3", true, Some(&range), len as u64);
        assert_eq!(response.status, 206);
        let body = body_of(&response, &file);
        assert!(!body.is_empty() && body.len() <= MAX_LEN as usize);
        assert_eq!(header(&response, "Content-Length"), Some(body.len().to_string().as_str()));
        rebuilt.extend_from_slice(&body);
        requests += 1;
    }
    assert_eq!(requests, 3);
    assert_eq!(rebuilt, file);
}

#[test]
fn walking_a_small_file_in_steps_rebuilds_it() {
    let file = file_of(1000);
    let mut rebuilt: Vec<u8> = Vec::new();
    for start in (0..1000).step_by(128) {
        let range = format!("bytes={}-{}", start, start + 127);
        let response = handle_stream_request("/tmp/file.mp3", true, Some(&range), 1000);
        rebuilt.extend_from_slice(&body_of(&response, &file));
    }
    assert_eq!(rebuilt, file);
}

#[test]
fn body_that_reaches_beyond_the_file_cannot_be_assembled() {
    let file = file_of(10);
    assert_eq!(assemble(&vec![BodyPart::FileRange { start: 0, end: 9 }], &file), Some(file.clone()));
    assert_eq!(assemble(&vec![BodyPart::FileRange { start: 0, end: 10 }], &file), None);
    assert_eq!(assemble(&vec![BodyPart::FileRange { start: 5, end: 4 }], &file), None);
    assert_eq!(
        assemble(
            &vec![BodyPart::Bytes(vec![1]), BodyPart::FileRange { start: 10, end: 10 }],
            &file
        ),
        None
    );
    assert_eq!(
        assemble(
            &vec![
                BodyPart::Bytes(vec![255]),
                BodyPart::FileRange { start: 2, end: 3 },
                BodyPart::Bytes(vec![]),
                BodyPart::FileRange { start: 9, end: 9 },
            ],
            &file
        ),
        Some(vec![255, 2, 3, 9])
    );
    assert_eq!(assemble(&vec![], &file), Some(vec![]));
}
