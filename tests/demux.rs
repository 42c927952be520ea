use derby_voice::demux::JSONBufferParser;

const HI_OBJECT: &str = r#"{"choices":[{"delta":{"content":"Hi"}}]}"#;

#[test]
fn split_object_yields_one_delta_after_both_halves() {
    let mut parser = JSONBufferParser::new();
    let (first, second) = HI_OBJECT.split_at(17);
    parser.append(first);
    assert_eq!(parser.extract_content(), Vec::<String>::new());
    parser.append(second);
    assert_eq!(parser.extract_content(), vec!["Hi".to_string()]);
    assert_eq!(parser.extract_content(), Vec::<String>::new());
    assert_eq!(parser.find_json_object_boundaries(), None);
}

#[test]
fn several_objects_in_one_chunk_come_out_in_order() {
    let mut parser = JSONBufferParser::new();
    let chunk = r#"{"choices":[{"delta":{"content":"Hel"}}]}{"choices":[{"delta":{"content":"lo"}}]}{"choi"#;
    parser.append(chunk);
    assert_eq!(parser.extract_content(), vec!["Hel".to_string(), "lo".to_string()]);
    parser.append(r#"ces":[{"delta":{"content":"!"}}]}"#);
    assert_eq!(parser.extract_content(), vec!["!".to_string()]);
}

#[test]
fn malformed_and_fieldless_objects_are_dropped() {
    let mut parser = JSONBufferParser::new();
    parser.append(r#"{not json}{"choices":[{"delta":{}}]}{"choices":[{"delta":{"content":"ok"}}]}"#);
    assert_eq!(parser.extract_content(), vec!["ok".to_string()]);
    assert_eq!(parser.find_json_object_boundaries(), None);
}

#[test]
fn boundaries_skip_leading_bytes_and_nested_braces() {
    let mut parser = JSONBufferParser::new();
    parser.append("data: {\"a\":{\"b\":1}} tail");
    assert_eq!(parser.find_json_object_boundaries(), Some((6, 18)));
    let mut open_only = JSONBufferParser::new();
    open_only.append("{\"a\":{");
    assert_eq!(open_only.find_json_object_boundaries(), None);
}

#[test]
fn multibyte_text_is_extracted_whole() {
    let mut parser = JSONBufferParser::new();
    parser.append(r#"{"choices":[{"delta":{"content":"héllo ✓"}}]}"#);
    assert_eq!(parser.extract_content(), vec!["héllo ✓".to_string()]);
}

#[test]
fn stray_closing_brace_does_not_stall_extraction() {
    let mut parser = JSONBufferParser::new();
    parser.append("}{}");
    assert_eq!(parser.find_json_object_boundaries(), Some((1, 2)));
    let mut stream = JSONBufferParser::new();
    stream.append(r#"}]}{"choices":[{"delta":{"content":"after"}}]}"#);
    assert_eq!(stream.extract_content(), vec!["after".to_string()]);
}

#[test]
fn brace_inside_text_loses_only_that_delta() {
    let mut parser = JSONBufferParser::new();
    parser.append(r#"{"choices":[{"delta":{"content":"a}}b"}}]}"#);
    parser.append(r#"{"choices":[{"delta":{"content":"next"}}]}"#);
    assert_eq!(parser.extract_content(), vec!["next".to_string()]);
    assert_eq!(parser.find_json_object_boundaries(), None);
}
