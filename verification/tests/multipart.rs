use ai_gateway::byte_pattern::BytePatternMatcher;
use ai_gateway::multipart::MultipartStructureValidator;

fn body(boundary: &str, preamble: &[u8], extra_header: Option<&str>) -> Vec<u8> {
    let mut body = preamble.to_vec();
    body.extend_from_slice(format!("--{boundary}\r\n").as_bytes());
    body.extend_from_slice(b"Content-Disposition: form-data; name=\"model\"\r\n");
    if let Some(header) = extra_header {
        body.extend_from_slice(header.as_bytes());
        body.extend_from_slice(b"\r\n");
    }
    body.extend_from_slice(b"\r\ngpt-image-2\r\n");
    body.extend_from_slice(format!("--{boundary}\r\n").as_bytes());
    body.extend_from_slice(
        b"Content-Disposition: form-data; name=\"image[]\"; filename=\"image-0.png\"\r\nContent-Type: image/png\r\n\r\nimage\r\n",
    );
    body.extend_from_slice(format!("--{boundary}--\r\n").as_bytes());
    body
}

#[test]
fn chunked_structure_validation_accepts_a_well_formed_body() {
    let boundary = "structure-limit-boundary";
    let valid = body(boundary, b"", None);
    let mut validator = MultipartStructureValidator::new(boundary);
    for chunk in valid.chunks(3) {
        assert!(validator.push(chunk));
    }
    assert!(validator.finish());
}

#[test]
fn structure_guard_bounds_preamble_and_part_headers() {
    let boundary = "structure-limit-boundary";
    let mut validator = MultipartStructureValidator::new(boundary);
    assert!(!validator.push(&body(boundary, &vec![b'x'; 8 * 1024 + 1], None)));

    let mut validator = MultipartStructureValidator::new(boundary);
    let fill = format!("X-Fill: {}", "x".repeat(16 * 1024));
    assert!(!validator.push(&body(boundary, b"", Some(&fill))));
}

#[test]
fn a_body_that_stops_early_is_incomplete() {
    let boundary = "b0undary";
    let valid = body(boundary, b"", None);
    let mut validator = MultipartStructureValidator::new(boundary);
    assert!(validator.push(&valid[..valid.len() - 8]));
    assert!(!validator.finish());
}

#[test]
fn pattern_matcher_restarts_after_each_occurrence() {
    let mut matcher = BytePatternMatcher::new(b"abab".to_vec());
    let found: Vec<bool> = b"ababab".iter().map(|byte| matcher.push(*byte)).collect();
    assert_eq!(found, vec![false, false, false, true, false, false]);
    assert_eq!(matcher.matched(), 2);
    matcher.reset();
    assert_eq!(matcher.matched(), 0);
    assert!(!matcher.push(b'b'));
    assert_eq!(matcher.matched(), 0);
    assert!(!matcher.push(b'a'));
    assert_eq!(matcher.matched(), 1);
}
