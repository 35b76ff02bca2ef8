//! Calls to the model through a child process.
use attini::curl::{
    base_url_not_unicode, chat_completions_url, check_api_key, curl_args,
    extract_api_error_message, format_curl_failure, CurlStream, ErrorKind, Shown,
};
use attini::sansio::deepseek::ChatMessage;


#[test]
fn default_base_url_appends_chat_completions() {
    let url = chat_completions_url(None).expect("default base must succeed");
    assert_eq!(url, "https://api.deepseek.com/chat/completions");
}

#[test]
fn custom_base_url_appends_chat_completions() {
    let url = chat_completions_url(Some("http://100.114.199.83:8888/v1"))
        .expect("custom base must succeed");
    assert_eq!(url, "http://100.114.199.83:8888/v1/chat/completions");
}

#[test]
fn trailing_slash_on_base_is_stripped() {
    let url = chat_completions_url(Some("http://127.0.0.1:8888/v1/"))
        .expect("base with trailing slash must succeed");
    assert_eq!(url, "http://127.0.0.1:8888/v1/chat/completions");
}

#[test]
fn empty_base_url_is_rejected() {
    let err = chat_completions_url(Some("")).expect_err("empty base must fail");
    assert_eq!(err.kind(), ErrorKind::InvalidInput);
    assert!(err.to_string().contains("DEEPSEEK_BASE_URL"));
}

#[test]
fn extracts_openai_style_error_message() {
    let body = r#"{"error":{"message":"The model `deepseek-v4-flash` does not exist.","type":"NotFoundError","code":404}}"#;
    assert_eq!(
        extract_api_error_message(body).as_deref(),
        Some("The model `deepseek-v4-flash` does not exist.")
    );
}

#[test]
fn extract_api_error_message_ignores_non_error_json() {
    assert!(extract_api_error_message(r#"{"id":"x"}"#).is_none());
    assert!(extract_api_error_message("not json").is_none());
    assert!(extract_api_error_message("").is_none());
}

#[test]
fn format_curl_failure_prefers_api_message() {
    let status = "exit status: 22";
    let body = br#"{"error":{"message":"The model `x` does not exist."}}"#;
    let msg = format_curl_failure(status, body, "The requested URL returned error: 404");
    assert_eq!(msg, "API request failed: The model `x` does not exist.");
}

#[test]
fn curl_failures_fall_back_to_what_there_is() {
    assert_eq!(
        format_curl_failure("exit status: 22", b" oops \n", "ignored"),
        "curl exited with exit status: 22: oops"
    );
    assert_eq!(
        format_curl_failure("exit status: 6", b"", "no host"),
        "curl exited with exit status: 6: no host"
    );
    assert_eq!(
        format_curl_failure("exit status: 6", b"", ""),
        "curl exited with exit status: 6"
    );
    // An error without a message is no message.
    assert_eq!(
        format_curl_failure("exit status: 22", br#"{"error":{"message":""}}"#, ""),
        "curl exited with exit status: 22: {\"error\":{\"message\":\"\"}}"
    );
}

#[test]
fn keys_are_required() {
    assert!(check_api_key(Some("k")).is_ok());
    let err = check_api_key(None).expect_err("no key");
    assert_eq!(err.kind(), ErrorKind::NotFound);
    assert_eq!(err.to_string(), "DEEPSEEK_API_KEY is not set");
    let err = check_api_key(Some("")).expect_err("empty key");
    assert_eq!(err.kind(), ErrorKind::InvalidInput);
    assert_eq!(err.to_string(), "DEEPSEEK_API_KEY is empty");
    assert_eq!(
        base_url_not_unicode().to_string(),
        "DEEPSEEK_BASE_URL is not valid Unicode"
    );
}

#[test]
fn the_child_is_told_where_to_send_the_body() {
    let args = curl_args("SECRET-REDACTED", "http://h/chat/completions");
    assert_eq!(args[4], "Authorization: Bearer SECRET-REDACTED");
    assert_eq!(args[9], "--data-binary");
    assert_eq!(args[11], "http://h/chat/completions");
    assert_eq!(args.len(), 12);
}

#[test]
fn a_response_is_put_together_from_its_chunks() {
    let mut s = CurlStream::new();
    let first = b"data: {\"choices\":[{\"delta\":{\"content\":\"he\",\"reasoning_content\":\"hm\"}}]}\n\n: ping\n\ndata: {\"cho";
    let (shown, end) = s.receive(first);
    assert_eq!(
        shown,
        vec![
            Shown::Content("he".to_string()),
            Shown::Reasoning("hm".to_string())
        ]
    );
    assert_eq!(end, Ok(false));
    let second = b"ices\":[{\"delta\":{\"content\":\"llo\",\"tool_calls\":[{\"index\":1,\"id\":\"b\",\"function\":{\"name\":\"read\",\"arguments\":\"{\"}},{\"index\":0,\"id\":\"a\",\"function\":{\"name\":\"list\"}},{\"index\":1,\"id\":\"c\",\"function\":{\"arguments\":\"}\"}}]},\"finish_reason\":\"tool_calls\"}],\"usage\":{\"prompt_tokens\":7}}\n\ndata: [DONE]\n\n";
    let (shown, end) = s.receive(second);
    assert_eq!(shown, vec![Shown::Content("llo".to_string())]);
    assert_eq!(end, Ok(true));
    assert_eq!(s.raw_body().len(), first.len() + second.len());
    let r = s.finish();
    assert_eq!(r.content, "hello");
    assert_eq!(r.reasoning_content.as_deref(), Some("hm"));
    assert_eq!(r.finish_reason.as_deref(), Some("tool_calls"));
    assert_eq!(r.usage.and_then(|u| u.prompt_tokens), Some(7));
    // Calls stand in the order in which they began.
    assert_eq!(r.tool_calls.len(), 2);
    assert_eq!(r.tool_calls[0].id, "b");
    assert_eq!(r.tool_calls[0].arguments_json, "{}");
    assert_eq!(r.tool_calls[1].function_name, "list");
    match r.into_assistant() {
        ChatMessage::Assistant { content, .. } => assert_eq!(content, "hello"),
        other => panic!("expected assistant, got {other:?}"),
    }
}

#[test]
fn broken_streams_are_errors() {
    let mut s = CurlStream::new();
    let (_, end) = s.receive(b"data: {oops\n\n");
    assert!(end.unwrap_err().starts_with("stream payload: "));
    let mut s = CurlStream::new();
    let (_, end) = s.receive(b"data: \xff\n\n");
    assert_eq!(
        end,
        Err("sse decode: SSE line contained invalid UTF-8".to_string())
    );
}
