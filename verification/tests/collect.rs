use sse_collector::collector::collect_results;
use sse_collector::types::{Aggregate, Response};

fn ok(s: &str) -> Result<Vec<u8>, String> {
    Ok(s.as_bytes().to_vec())
}

fn collect(lines: &[&str]) -> Response {
    let items: Vec<Result<Vec<u8>, String>> = lines.iter().map(|l| ok(l)).collect();
    collect_results(&items, 1111).expect("no transport error")
}

#[test]
fn end_to_end_scenario() {
    let r = collect(&[
        "data: {\"id\":\"abc\",\"model\":\"m1\",\"choices\":[{\"delta\":{\"role\":\"assistant\"}}]}\n",
        "data: {\"choices\":[{\"delta\":{\"content\":\"Hel\"}}]}\n",
        "data: {\"choices\":[{\"delta\":{\"content\":\"lo\"}}]}\n",
        "data: {\"choices\":[{\"finish_reason\":\"stop\"}],\"usage\":{\"prompt_tokens\":5,\"completion_tokens\":2,\"total_tokens\":7}}\n",
        "data: [DONE]\n",
    ]);
    assert_eq!(r.id, "abc");
    assert_eq!(r.object, "chat.completion");
    assert_eq!(r.model, "m1");
    assert_eq!(r.choices.len(), 1);
    assert_eq!(r.choices[0].index, 0);
    assert_eq!(r.choices[0].message.role, "assistant");
    assert_eq!(r.choices[0].message.content, "Hello");
    assert_eq!(r.choices[0].message.reasoning_content, None);
    assert_eq!(r.choices[0].finish_reason, Some("stop".to_string()));
    let u = r.usage.expect("usage present");
    assert_eq!(u.prompt_tokens, 5);
    assert_eq!(u.completion_tokens, 2);
    assert_eq!(u.total_tokens, 7);
}

#[test]
fn content_is_exact_concatenation() {
    let r = collect(&[
        "data: {\"choices\":[{\"delta\":{\"content\":\"a\"}}]}\n",
        "data: {\"choices\":[{\"delta\":{\"content\":\"\"}}]}\n",
        "data: {\"choices\":[{\"delta\":{\"content\":\"b c\"}}]}\n",
        "data: {\"choices\":[{\"delta\":{\"content\":\"d\"}}]}\n",
    ]);
    assert_eq!(r.choices[0].message.content, "ab cd");
}

#[test]
fn no_reasoning_means_absent_field() {
    let r = collect(&["data: {\"choices\":[{\"delta\":{\"content\":\"hi\"}}]}\n"]);
    assert_eq!(r.choices[0].message.reasoning_content, None);
}

#[test]
fn reasoning_is_concatenated_independently() {
    let r = collect(&[
        "data: {\"choices\":[{\"delta\":{\"reasoning_content\":\"think \"}}]}\n",
        "data: {\"choices\":[{\"delta\":{\"content\":\"say\"}}]}\n",
        "data: {\"choices\":[{\"delta\":{\"reasoning_content\":\"hard\"}}]}\n",
    ]);
    assert_eq!(r.choices[0].message.content, "say");
    assert_eq!(
        r.choices[0].message.reasoning_content,
        Some("think hard".to_string())
    );
}

#[test]
fn empty_reasoning_fragment_still_counts() {
    let r = collect(&["data: {\"choices\":[{\"delta\":{\"reasoning_content\":\"\"}}]}\n"]);
    assert_eq!(r.choices[0].message.reasoning_content, Some(String::new()));
}

#[test]
fn finish_reason_last_nonempty_wins() {
    let r = collect(&[
        "data: {\"choices\":[{\"finish_reason\":\"length\"}]}\n",
        "data: {\"choices\":[{\"finish_reason\":\"\"}]}\n",
        "data: {\"choices\":[{\"finish_reason\":\"stop\"}]}\n",
        "data: {\"choices\":[{\"delta\":{\"content\":\"x\"}}]}\n",
    ]);
    assert_eq!(r.choices[0].finish_reason, Some("stop".to_string()));
}

#[test]
fn finish_reason_defaults_to_stop() {
    let r = collect(&["data: {\"choices\":[{\"delta\":{\"content\":\"x\"}}]}\n"]);
    assert_eq!(r.choices[0].finish_reason, Some("stop".to_string()));
}

#[test]
fn invalid_json_line_is_skipped() {
    let r = collect(&[
        "data: {\"choices\":[{\"delta\":{\"content\":\"a\"}}]}\n",
        "data: {not json at all\n",
        "data: \n",
        "data: {\"choices\":[{\"delta\":{\"content\":\"b\"}}]}\n",
    ]);
    assert_eq!(r.choices[0].message.content, "ab");
}

#[test]
fn non_data_lines_are_ignored() {
    let r = collect(&[
        "event: message\n",
        "\n",
        ": a comment\n",
        "data: {\"choices\":[{\"delta\":{\"content\":\"only\"}}]}\n",
        "id: 7\n",
    ]);
    assert_eq!(r.choices[0].message.content, "only");
}

#[test]
fn done_sentinel_does_not_terminate_processing() {
    let r = collect(&[
        "data: {\"choices\":[{\"delta\":{\"content\":\"before\"}}]}\n",
        "data: [DONE]\n",
        "data: {\"choices\":[{\"delta\":{\"content\":\" after\"}}]}\n",
    ]);
    assert_eq!(r.choices[0].message.content, "before after");
}

#[test]
fn transport_error_aborts_with_error_result() {
    let items: Vec<Result<Vec<u8>, String>> = vec![
        ok("data: {\"choices\":[{\"delta\":{\"content\":\"partial\"}}]}\n"),
        Err("boom".to_string()),
        ok("data: {\"choices\":[{\"delta\":{\"content\":\"late\"}}]}\n"),
    ];
    let r = collect_results(&items, 1111);
    assert_eq!(r, Err("Stream error: boom".to_string()));
}

#[test]
fn line_split_across_chunks_is_reassembled() {
    let items: Vec<Result<Vec<u8>, String>> = vec![
        ok("data: {\"choices\":[{\"delta\":"),
        ok("{\"content\":\"joined\"}}]}\n"),
    ];
    let r = collect_results(&items, 1111).unwrap();
    assert_eq!(r.choices[0].message.content, "joined");
}

#[test]
fn trailing_line_without_newline_is_processed() {
    let items: Vec<Result<Vec<u8>, String>> = vec![
        ok("data: {\"choices\":[{\"delta\":{\"content\":\"tail\"}}]}"),
    ];
    let r = collect_results(&items, 1111).unwrap();
    assert_eq!(r.choices[0].message.content, "tail");
}

#[test]
fn id_and_model_last_nonempty_wins() {
    let r = collect(&[
        "data: {\"id\":\"first\",\"model\":\"m1\"}\n",
        "data: {\"id\":\"\",\"model\":\"\"}\n",
        "data: {\"id\":\"second\"}\n",
    ]);
    assert_eq!(r.id, "second");
    assert_eq!(r.model, "m1");
}

#[test]
fn defaults_when_stream_is_empty() {
    let items: Vec<Result<Vec<u8>, String>> = Vec::new();
    let r = collect_results(&items, 424242).unwrap();
    assert_eq!(r.id, "chatcmpl-unknown");
    assert_eq!(r.model, "unknown");
    assert_eq!(r.created, 424242);
    assert_eq!(r.choices.len(), 1);
    assert_eq!(r.choices[0].message.role, "assistant");
    assert_eq!(r.choices[0].message.content, "");
    assert_eq!(r.choices[0].message.reasoning_content, None);
    assert_eq!(r.choices[0].finish_reason, Some("stop".to_string()));
    assert_eq!(r.usage, None);
}

#[test]
fn created_overwritten_by_event() {
    let r = collect(&["data: {\"created\":1234567}\n"]);
    assert_eq!(r.created, 1234567);
}

#[test]
fn malformed_usage_is_ignored() {
    let r = collect(&[
        "data: {\"usage\":{\"prompt_tokens\":1,\"completion_tokens\":2,\"total_tokens\":3}}\n",
        "data: {\"usage\":{\"prompt_tokens\":9}}\n",
    ]);
    let u = r.usage.expect("usage kept from the well-formed report");
    assert_eq!(u.prompt_tokens, 1);
    assert_eq!(u.completion_tokens, 2);
    assert_eq!(u.total_tokens, 3);
}

#[test]
fn later_usage_report_replaces_earlier() {
    let r = collect(&[
        "data: {\"usage\":{\"prompt_tokens\":1,\"completion_tokens\":2,\"total_tokens\":3}}\n",
        "data: {\"usage\":{\"prompt_tokens\":4,\"completion_tokens\":5,\"total_tokens\":9}}\n",
    ]);
    let u = r.usage.unwrap();
    assert_eq!(u.prompt_tokens, 4);
    assert_eq!(u.total_tokens, 9);
}

#[test]
fn repeated_data_prefixes_are_all_stripped() {
    let r = collect(&[
        "data: data: {\"choices\":[{\"delta\":{\"content\":\"deep\"}}]}\n",
        "data: data: [DONE]\n",
    ]);
    assert_eq!(r.choices[0].message.content, "deep");
}

#[test]
fn surrounding_whitespace_is_trimmed() {
    let r = collect(&[
        "   data: {\"choices\":[{\"delta\":{\"content\":\"w\"}}]}   \r\n",
        "\tdata:    [DONE]\t\n",
    ]);
    assert_eq!(r.choices[0].message.content, "w");
}

#[test]
fn invalid_utf8_is_replaced_not_fatal() {
    let mut bytes = b"data: {\"choices\":[{\"delta\":{\"content\":\"ok\"}}]}\n".to_vec();
    bytes.extend_from_slice(&[0xFF, 0xFE, b'\n']);
    let items: Vec<Result<Vec<u8>, String>> = vec![Ok(bytes)];
    let r = collect_results(&items, 1111).unwrap();
    assert_eq!(r.choices[0].message.content, "ok");
}

#[test]
fn only_first_choice_is_inspected() {
    let r = collect(&[
        "data: {\"choices\":[{\"delta\":{\"content\":\"one\"}},{\"delta\":{\"content\":\"two\"}}]}\n",
    ]);
    assert_eq!(r.choices[0].message.content, "one");
    assert_eq!(r.choices.len(), 1);
}

#[test]
fn role_from_event_is_kept() {
    let r = collect(&["data: {\"choices\":[{\"delta\":{\"role\":\"tool\"}}]}\n"]);
    assert_eq!(r.choices[0].message.role, "tool");
}

#[test]
fn feed_text_and_finish_work_directly() {
    let mut agg = Aggregate::new(5);
    agg.feed_text("data: {\"choices\":[{\"delta\":{\"content\":\"via \"}}]}\n");
    agg.feed_text("data: {\"choices\":[{\"delta\":{\"content\":\"text\"}}]}\n");
    let r = agg.finish();
    assert_eq!(r.created, 5);
    assert_eq!(r.choices[0].message.content, "via text");
}
