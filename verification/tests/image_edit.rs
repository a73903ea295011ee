use ai_gateway::codex_edit_body::{check_codex_edit, codex_json_limit, rebuilt_body_limit, Base64Stream};
use ai_gateway::form_inspection::{MultipartInspector, PartKind};
use ai_gateway::image_edit::{
    edit_request_members, image_mime, reject_encoded_body, rewrite_model_fields, stream_requested,
    CodexEditFields, EditFieldValue, MultipartTextField,
};
use ai_gateway::proxy_error::{ImageEditBodyError, RequestPolicyError};
use base64::Engine;

fn field(name: &str, value: &str) -> MultipartTextField {
    MultipartTextField { name: name.to_owned(), value: value.as_bytes().to_vec() }
}

fn codex_fields() -> Vec<MultipartTextField> {
    vec![
        field("model", "gpt-image-2"),
        field("prompt", "add a red hat"),
        field("background", "auto"),
        field("quality", "high"),
        field("size", "1024x1024"),
    ]
}

#[test]
fn stream_is_requested_by_true_or_one() {
    assert!(stream_requested(&[field("stream", " TRUE ")]));
    assert!(stream_requested(&[field("prompt", "x"), field("stream", "1")]));
    assert!(!stream_requested(&[field("stream", "false")]));
    assert!(!stream_requested(&[field("streaming", "true")]));
    assert!(!stream_requested(&[MultipartTextField { name: "stream".to_owned(), value: vec![0xff] }]));
}

#[test]
fn codex_fields_parse_the_accepted_members() {
    let parsed = CodexEditFields::parse(&codex_fields()).unwrap();
    assert_eq!(parsed.prompt, "add a red hat");
    assert_eq!(parsed.model, "gpt-image-2");
    assert_eq!(parsed.background.as_deref(), Some("auto"));
    assert_eq!(parsed.quality.as_deref(), Some("high"));
    assert_eq!(parsed.size.as_deref(), Some("1024x1024"));
    assert_eq!(parsed.n, None);
}

#[test]
fn codex_fields_refuse_unknown_quality_and_missing_prompt() {
    let mut fields = codex_fields();
    fields[3] = field("quality", "ultra");
    assert_eq!(CodexEditFields::parse(&fields).unwrap_err(), ImageEditBodyError::CodexInvalidField);
    let fields = vec![field("model", "gpt-image-2")];
    assert_eq!(CodexEditFields::parse(&fields).unwrap_err(), ImageEditBodyError::CodexMissingField);
    let mut fields = codex_fields();
    fields.push(field("prompt", "again"));
    assert_eq!(CodexEditFields::parse(&fields).unwrap_err(), ImageEditBodyError::CodexDuplicateField);
}

#[test]
fn codex_fields_read_a_count_and_refuse_streaming() {
    let mut fields = codex_fields();
    fields.push(field("n", " 2 "));
    fields.push(field("stream", "False"));
    assert_eq!(CodexEditFields::parse(&fields).unwrap().n, Some(2));
    let mut fields = codex_fields();
    fields.push(field("n", "two"));
    assert_eq!(CodexEditFields::parse(&fields).unwrap_err(), ImageEditBodyError::CodexInvalidField);
    let mut fields = codex_fields();
    fields.push(field("stream", "true"));
    assert_eq!(CodexEditFields::parse(&fields).unwrap_err(), ImageEditBodyError::StreamingUnsupported);
}

#[test]
fn codex_json_members_come_in_order() {
    let mut fields = codex_fields();
    fields.push(field("n", "3"));
    let parsed = CodexEditFields::parse(&fields).unwrap();
    let text = String::from_utf8(parsed.json_fields()).unwrap();
    assert_eq!(
        text,
        ",\"prompt\":\"add a red hat\",\"background\":\"auto\",\"model\":\"gpt-image-2\",\"n\":3,\"quality\":\"high\",\"size\":\"1024x1024\""
    );
}

#[test]
fn codex_json_members_escape_control_text() {
    let fields = vec![field("model", "gpt-image-2"), field("prompt", "a\u{0001}\"b")];
    let parsed = CodexEditFields::parse(&fields).unwrap();
    let text = String::from_utf8(parsed.json_fields()).unwrap();
    assert_eq!(text, ",\"prompt\":\"a\\u0001\\\"b\",\"model\":\"gpt-image-2\"");
    let limit = codex_json_limit(0, &fields);
    assert!(text.len() + 16 <= limit);
}

#[test]
fn codex_json_limit_adds_base64_text_and_overhead() {
    let fields = vec![field("prompt", "abcd")];
    assert_eq!(codex_json_limit(3, &fields), 4 + 24 + 65536);
    assert_eq!(codex_json_limit(usize::MAX, &fields), usize::MAX);
    assert_eq!(rebuilt_body_limit(100, 11), 100 + 11 + 65536);
    assert_eq!(rebuilt_body_limit(usize::MAX - 1, 11), usize::MAX);
}

#[test]
fn codex_edit_takes_five_images_and_no_mask() {
    let refusal = RequestPolicyError {
        message: "mask is not supported".to_owned(),
        param: "mask",
        code: "codex_request_body_field_unsupported",
    };
    assert_eq!(check_codex_edit(5, 0, refusal.clone()), Ok(()));
    assert_eq!(check_codex_edit(6, 0, refusal.clone()), Err(ImageEditBodyError::CodexTooManyImages));
    assert_eq!(check_codex_edit(1, 1, refusal.clone()), Err(ImageEditBodyError::RequestPolicy(refusal)));
}

#[test]
fn model_fields_are_rewritten() {
    let fields = vec![field("model", "client-image"), field("prompt", "add a blue sky")];
    let rewritten = rewrite_model_fields(fields, "upstream-image").unwrap();
    assert_eq!(rewritten, vec![field("model", "upstream-image"), field("prompt", "add a blue sky")]);
    let fields = vec![field("model", "client-image")];
    assert_eq!(rewrite_model_fields(fields, "bad\r\nmodel").unwrap_err(), ImageEditBodyError::InvalidModel);
}

#[test]
fn only_identity_encodings_are_accepted() {
    assert_eq!(reject_encoded_body(&[]), Ok(()));
    assert_eq!(reject_encoded_body(&[b"identity".to_vec(), b" Identity , IDENTITY".to_vec()]), Ok(()));
    assert_eq!(
        reject_encoded_body(&[b"gzip".to_vec()]),
        Err(ImageEditBodyError::UnsupportedContentEncoding)
    );
    assert_eq!(
        reject_encoded_body(&[b"identity,gzip".to_vec()]),
        Err(ImageEditBodyError::UnsupportedContentEncoding)
    );
}

#[test]
fn image_types_come_from_the_part_or_its_file_name() {
    assert_eq!(image_mime(Some("image/png"), None), Ok("image/png".to_owned()));
    assert_eq!(image_mime(Some("text/plain"), Some("a.png")), Err(ImageEditBodyError::CodexImageContentType));
    assert_eq!(image_mime(None, Some("PHOTO.JPEG")), Ok("image/jpeg".to_owned()));
    assert_eq!(image_mime(None, Some("x.webp")), Ok("image/webp".to_owned()));
    assert_eq!(image_mime(None, Some("x.bmp")), Err(ImageEditBodyError::CodexImageContentType));
    assert_eq!(image_mime(None, None), Err(ImageEditBodyError::CodexImageContentType));
    let long = format!("image/{}", "x".repeat(123));
    assert_eq!(image_mime(Some(&long), None), Err(ImageEditBodyError::CodexImageContentType));
}

#[test]
fn edit_request_members_keep_the_last_value_of_a_name() {
    let fields = vec![
        field("n", " 4 "),
        field("stream", "TRUE"),
        field("prompt", "first"),
        field("prompt", "second"),
        MultipartTextField { name: "size".to_owned(), value: vec![0xff] },
    ];
    let members = edit_request_members(&fields);
    assert_eq!(
        members,
        vec![
            ("n".to_owned(), EditFieldValue::Count(4)),
            ("stream".to_owned(), EditFieldValue::Flag(true)),
            ("prompt".to_owned(), EditFieldValue::Text("second".to_owned())),
        ]
    );
    let members = edit_request_members(&[field("n", "many"), field("stream", "maybe")]);
    assert_eq!(members[0].1, EditFieldValue::Text("many".to_owned()));
    assert_eq!(members[1].1, EditFieldValue::Text("maybe".to_owned()));
}

fn text_part(inspector: &mut MultipartInspector, name: &str, value: &[u8]) -> Result<(), ImageEditBodyError> {
    assert_eq!(inspector.begin_part(Some(name), None, Ok(()))?, PartKind::Text);
    inspector.text_chunk(value)?;
    inspector.end_text()
}

fn image_part(inspector: &mut MultipartInspector, length: usize) -> Result<(), ImageEditBodyError> {
    assert_eq!(inspector.begin_part(Some("image"), Some("image.png"), Ok(()))?, PartKind::File);
    inspector.file_chunk(length)?;
    inspector.end_file()
}

#[test]
fn inspection_reads_a_well_formed_edit() {
    let mut inspector = MultipartInspector::new(1024);
    text_part(&mut inspector, "model", b"gpt-image-2").unwrap();
    text_part(&mut inspector, "prompt", b"add a hat").unwrap();
    image_part(&mut inspector, 300).unwrap();
    image_part(&mut inspector, 200).unwrap();
    assert_eq!(inspector.begin_part(Some("mask"), None, Ok(())), Ok(PartKind::File));
    inspector.end_file().unwrap();
    let inspection = inspector.finish().unwrap();
    assert_eq!(inspection.model, "gpt-image-2");
    assert_eq!(inspection.image_count, 2);
    assert_eq!(inspection.image_bytes, 500);
    assert_eq!(inspection.mask_count, 1);
    assert_eq!(inspection.text_fields, vec![field("model", "gpt-image-2"), field("prompt", "add a hat")]);
}

#[test]
fn inspection_enforces_file_and_name_limits() {
    let mut inspector = MultipartInspector::new(128);
    assert_eq!(inspector.begin_part(Some("image"), None, Ok(())), Ok(PartKind::File));
    inspector.file_chunk(100).unwrap();
    assert_eq!(inspector.file_chunk(29), Err(ImageEditBodyError::FileTooLarge));
    inspector.file_chunk(28).unwrap();
    inspector.end_file().unwrap();
    let long = "n".repeat(129);
    assert_eq!(inspector.begin_part(Some(&long), None, Ok(())), Err(ImageEditBodyError::FieldNameTooLong));
    let long_file = format!("{}.png", "f".repeat(252));
    assert_eq!(inspector.begin_part(Some("image"), Some(&long_file), Ok(())), Err(ImageEditBodyError::FileNameTooLong));
    assert_eq!(inspector.begin_part(None, None, Ok(())), Err(ImageEditBodyError::MalformedMultipart));
    assert_eq!(
        inspector.begin_part(Some("future_file"), Some("a.bin"), Ok(())),
        Err(ImageEditBodyError::UnexpectedFileField)
    );
}

#[test]
fn inspection_checks_the_model() {
    let mut inspector = MultipartInspector::new(16);
    assert_eq!(text_part(&mut inspector, "model", b"  "), Err(ImageEditBodyError::EmptyModel));
    assert_eq!(text_part(&mut MultipartInspector::new(16), "model", &[0xff]), Err(ImageEditBodyError::InvalidModel));
    let long = "m".repeat(301);
    assert_eq!(
        text_part(&mut MultipartInspector::new(16), "model", long.as_bytes()),
        Err(ImageEditBodyError::ModelTooLong)
    );
    let mut inspector = MultipartInspector::new(16);
    text_part(&mut inspector, "model", "m".repeat(300).as_bytes()).unwrap();
    assert_eq!(text_part(&mut inspector, "model", b"other"), Err(ImageEditBodyError::DuplicateModel));
}

#[test]
fn inspection_requires_an_image_and_a_model() {
    let mut inspector = MultipartInspector::new(16);
    text_part(&mut inspector, "model", b"gpt-image-2").unwrap();
    assert_eq!(inspector.finish().unwrap_err(), ImageEditBodyError::MissingImage);
    let mut inspector = MultipartInspector::new(16);
    image_part(&mut inspector, 4).unwrap();
    assert_eq!(inspector.finish().unwrap_err(), ImageEditBodyError::MissingModel);
}

#[test]
fn inspection_counts_parts_images_masks_and_text() {
    let mut inspector = MultipartInspector::new(16);
    for _ in 0..16 {
        image_part(&mut inspector, 1).unwrap();
    }
    assert_eq!(image_part(&mut inspector, 1), Err(ImageEditBodyError::TooManyImages));
    let mut inspector = MultipartInspector::new(16);
    assert_eq!(inspector.begin_part(Some("mask"), None, Ok(())), Ok(PartKind::File));
    inspector.end_file().unwrap();
    assert_eq!(inspector.begin_part(Some("mask"), None, Ok(())), Ok(PartKind::File));
    assert_eq!(inspector.end_file(), Err(ImageEditBodyError::TooManyMasks));
    let mut inspector = MultipartInspector::new(16);
    for index in 0..64 {
        text_part(&mut inspector, &format!("f{index}"), b"x").unwrap();
    }
    assert_eq!(inspector.begin_part(Some("extra"), None, Ok(())), Err(ImageEditBodyError::TooManyFields));
    let mut inspector = MultipartInspector::new(16);
    assert_eq!(inspector.begin_part(Some("prompt"), None, Ok(())), Ok(PartKind::Text));
    inspector.text_chunk(&vec![b'a'; 65536]).unwrap();
    assert_eq!(inspector.text_chunk(b"b"), Err(ImageEditBodyError::TextFieldTooLarge));
    let mut inspector = MultipartInspector::new(16);
    for index in 0..16 {
        text_part(&mut inspector, &format!("f{index}"), &vec![b'a'; 65536]).unwrap();
    }
    assert_eq!(text_part(&mut inspector, "last", b"a"), Err(ImageEditBodyError::TextFieldTooLarge));
}

#[test]
fn base64_stream_matches_encoding_the_whole_file() {
    let mut stream = Base64Stream::new(1024);
    let mut text = String::new();
    for chunk in [&b"ab"[..], b"cde", b"f", b"gh"] {
        text.push_str(&stream.push(chunk).unwrap());
    }
    text.push_str(&stream.finish());
    assert_eq!(text, base64::engine::general_purpose::STANDARD.encode(b"abcdefgh"));
    assert_eq!(text, "YWJjZGVmZ2g=");
}

#[test]
fn base64_stream_refuses_a_file_over_its_limit() {
    let mut stream = Base64Stream::new(4);
    assert_eq!(stream.push(b"abc").unwrap(), "YWJj");
    assert_eq!(stream.push(b"de"), Err(ImageEditBodyError::FileTooLarge));
    assert_eq!(stream.push(b"d").unwrap(), "");
    assert_eq!(stream.finish(), "ZA==");
}

#[test]
fn multipart_unknown_file_field_uses_request_policy_contract() {
    let refusal = RequestPolicyError {
        message: "Request body field `future_file` is not supported.".to_owned(),
        param: "future_file",
        code: "request_body_field_unsupported",
    };
    let mut inspector = MultipartInspector::new(1024);
    let error = inspector
        .begin_part(Some("future_file"), Some("a.bin"), Err(refusal.clone()))
        .unwrap_err();
    assert_eq!(error, ImageEditBodyError::RequestPolicy(refusal));
    assert_eq!(ai_gateway::form_inspection::file_policy_name("image[]"), "image");
    assert_eq!(ai_gateway::form_inspection::file_policy_name("mask"), "mask");
}

fn part(name: &str, essence: Option<&str>, data: &[u8]) -> ai_gateway::codex_edit_body::FormPart {
    ai_gateway::codex_edit_body::FormPart {
        name: Some(name.to_owned()),
        content_essence: essence.map(str::to_owned),
        file_name: None,
        data: data.to_vec(),
    }
}

fn no_mask() -> RequestPolicyError {
    RequestPolicyError { message: "mask".to_owned(), param: "mask", code: "codex_request_body_field_unsupported" }
}

#[test]
fn codex_adapter_streams_images_into_data_urls() {
    let fields = codex_fields();
    let (mut writer, mut body) = ai_gateway::codex_edit_body::CodexBodyWriter::start(
        2,
        0,
        no_mask(),
        &fields,
        11,
        512,
        vec!["moderation".to_owned()],
    )
    .unwrap();
    for p in [
        part("model", None, b"gpt-image-2"),
        part("image", Some("image/png"), b"first"),
        part("moderation", None, b"low"),
        part("image[]", Some("image/jpeg"), b"second-image"),
    ] {
        body.extend_from_slice(&writer.step(p).unwrap());
    }
    body.extend_from_slice(&writer.finish().unwrap());
    let engine = base64::engine::general_purpose::STANDARD;
    let expected = format!(
        "{{\"images\":[{{\"image_url\":\"data:image/png;base64,{}\"}},{{\"image_url\":\"data:image/jpeg;base64,{}\"}}],\"prompt\":\"add a red hat\",\"background\":\"auto\",\"model\":\"gpt-image-2\",\"quality\":\"high\",\"size\":\"1024x1024\"}}",
        engine.encode(b"first"),
        engine.encode(b"second-image")
    );
    assert_eq!(String::from_utf8(body).unwrap(), expected);
}

#[test]
fn codex_writer_checks_image_types_sizes_and_counts() {
    let fields = codex_fields();
    let start = || {
        ai_gateway::codex_edit_body::CodexBodyWriter::start(1, 0, no_mask(), &fields, 4, 4, Vec::new()).unwrap().0
    };
    let mut writer = start();
    assert_eq!(
        writer.step(part("image", Some("text/plain"), b"abc")).unwrap_err(),
        ImageEditBodyError::CodexImageContentType
    );
    assert_eq!(writer.step(part("image", Some("image/png"), b"abcde")).unwrap_err(), ImageEditBodyError::FileTooLarge);
    assert_eq!(writer.finish().unwrap_err(), ImageEditBodyError::MalformedMultipart);
    assert!(matches!(
        ai_gateway::codex_edit_body::CodexBodyWriter::start(6, 0, no_mask(), &fields, 4, 4, Vec::new()),
        Err(ImageEditBodyError::CodexTooManyImages)
    ));
}

#[test]
fn base64_stream_output_joins_to_the_encoding_of_the_whole_file_for_any_split() {
    let data: Vec<u8> = (0u8..=255).chain(0u8..17).collect();
    let whole = base64::engine::general_purpose::STANDARD.encode(&data);
    for size in [1usize, 2, 3, 4, 5, 7, 64, 1000] {
        let mut stream = Base64Stream::new(data.len());
        let mut joined = String::new();
        for chunk in data.chunks(size) {
            joined.push_str(&stream.push(chunk).unwrap());
        }
        joined.push_str(&stream.finish());
        assert_eq!(joined, whole, "chunk size {size}");
    }
}
