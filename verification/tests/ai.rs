use jarvis::ai::providers::{
    bearer, chat_completions_url, anthropic_auth_header, gemini_key, gemini_method_url, gemini_request_url, minimax_key,
    openai_key, resolve_anthropic_auth, AuthMethod, DEFAULT_GEMINI_BASE_URL,
};
use jarvis::ai::stream::{
    assemble_gemini_reply, is_done_marker, parse_function_call, AnthropicEvent, AnthropicStream, GeminiChunk,
    GeminiFunctionCall, GeminiPart, GeminiStream, OpenAiChunk, OpenAiStream, ToolCallAccumulator, ToolCallDelta,
};
use jarvis::ai::{classify_status, http_failure, AiError, BusyGuard, Provider, Skill, SkillRouter, StatusClass, TokenUsage};
use std::sync::atomic::AtomicBool;
use std::sync::Arc;

fn delta(index: u64, id: Option<&str>, name: Option<&str>, args: Option<&str>) -> ToolCallDelta {
    ToolCallDelta {
        index: Some(index),
        id: id.map(|s| s.to_string()),
        name: name.map(|s| s.to_string()),
        arguments: args.map(|s| s.to_string()),
    }
}

fn json(s: &str) -> serde_json::Value {
    serde_json::from_str(s).unwrap()
}

#[test]
fn accumulates_streamed_tool_call_fragments() {
    let mut acc = ToolCallAccumulator::default();
    acc.ingest(&delta(0, Some("call_1"), Some("read_file"), Some("")));
    acc.ingest(&delta(0, None, None, Some("{\"pa")));
    acc.ingest(&delta(0, None, None, Some("th\":\"a.txt\"}")));
    let calls = acc.finish();
    assert_eq!(calls.len(), 1);
    assert_eq!(calls[0].id, "call_1");
    assert_eq!(calls[0].name, "read_file");
    assert_eq!(json(&calls[0].arguments)["path"], "a.txt");
}

#[test]
fn accumulates_multiple_parallel_tool_calls_by_index() {
    let mut acc = ToolCallAccumulator::default();
    acc.ingest(&delta(0, Some("c0"), Some("read_file"), Some("{\"path\":")));
    acc.ingest(&delta(1, Some("c1"), Some("list_directory"), Some("{\"path\":")));
    acc.ingest(&delta(0, None, None, Some("\"a.txt\"}")));
    acc.ingest(&delta(1, None, None, Some("\".\"}")));
    let calls = acc.finish();
    assert_eq!(calls.len(), 2);
    assert_eq!(calls[0].id, "c0");
    assert_eq!(calls[0].name, "read_file");
    assert_eq!(json(&calls[0].arguments)["path"], "a.txt");
    assert_eq!(calls[1].id, "c1");
    assert_eq!(calls[1].name, "list_directory");
    assert_eq!(json(&calls[1].arguments)["path"], ".");
}

#[test]
fn empty_accumulator_yields_no_calls() {
    let acc = ToolCallAccumulator::default();
    assert!(acc.is_empty());
    assert!(acc.finish().is_empty());
}

#[test]
fn tool_calls_come_out_in_index_order_and_unnamed_are_dropped() {
    let mut acc = ToolCallAccumulator::new();
    acc.ingest(&delta(5, Some("c5"), Some("b"), None));
    acc.ingest(&delta(2, Some("c2"), Some("a"), None));
    acc.ingest(&delta(3, Some("c3"), None, Some("{}")));
    let calls = acc.finish();
    assert_eq!(calls.iter().map(|c| c.id.as_str()).collect::<Vec<_>>(), vec!["c2", "c5"]);
}

#[test]
fn openai_stream_collects_text_usage_and_calls() {
    let mut s = OpenAiStream::new();
    let e = s.ingest(&OpenAiChunk { prompt_tokens: None, completion_tokens: None, content: Some("Hel".into()), tool_calls: vec![] });
    assert_eq!(e, Some("Hel".to_string()));
    let e = s.ingest(&OpenAiChunk {
        prompt_tokens: Some(10),
        completion_tokens: Some(3),
        content: Some(String::new()),
        tool_calls: vec![delta(0, Some("c"), Some("read_file"), Some("{}"))],
    });
    assert_eq!(e, None);
    assert_eq!(s.content, "Hel");
    assert_eq!(s.usage.total_tokens(), 13);
    assert!(!s.tools.is_empty());
    assert!(is_done_marker(" [DONE] "));
    assert!(!is_done_marker("{}"));
}

fn text_part(t: &str) -> GeminiPart {
    GeminiPart { text: Some(t.to_string()), function_call: None }
}

fn call_part(name: &str, args: &str) -> GeminiPart {
    GeminiPart {
        text: None,
        function_call: Some(GeminiFunctionCall { name: Some(name.to_string()), args: Some(args.to_string()) }),
    }
}

fn chunk(parts: Vec<GeminiPart>) -> GeminiChunk {
    GeminiChunk { error: None, parts, prompt_tokens: None, candidates_tokens: None }
}

#[test]
fn accumulates_streamed_text_chunks() {
    let mut acc = GeminiStream::new();
    acc.ingest(&chunk(vec![text_part("Hel")])).unwrap();
    acc.ingest(&chunk(vec![text_part("lo")])).unwrap();
    assert_eq!(acc.content, "Hello");
    assert!(acc.tool_calls.is_empty());
}

#[test]
fn on_chunk_receives_each_text_part() {
    let mut acc = GeminiStream::new();
    let a = acc.ingest(&chunk(vec![text_part("a"), text_part(""), text_part("b")])).unwrap();
    assert_eq!(a, vec!["a".to_string(), "b".to_string()]);
}

#[test]
fn accumulates_streamed_function_calls_with_synthesized_ids() {
    let mut acc = GeminiStream::new();
    acc.ingest(&chunk(vec![call_part("read_file", "{\"path\":\"a.txt\"}")])).unwrap();
    acc.ingest(&chunk(vec![call_part("list_directory", "{\"path\":\".\"}")])).unwrap();
    assert_eq!(acc.tool_calls.len(), 2);
    assert_eq!(acc.tool_calls[0].id, "call_0");
    assert_eq!(acc.tool_calls[1].id, "call_1");
    assert_eq!(acc.tool_calls[1].name, "list_directory");
}

#[test]
fn accumulates_usage_metadata() {
    let mut acc = GeminiStream::new();
    acc.ingest(&GeminiChunk { error: None, parts: vec![], prompt_tokens: Some(12), candidates_tokens: Some(34) }).unwrap();
    assert_eq!(acc.usage.input_tokens, 12);
    assert_eq!(acc.usage.output_tokens, 34);
}

#[test]
fn mixed_text_and_function_call_in_one_chunk() {
    let mut acc = GeminiStream::new();
    acc.ingest(&chunk(vec![text_part("Looking..."), call_part("read_file", "{}")])).unwrap();
    assert_eq!(acc.content, "Looking...");
    assert_eq!(acc.tool_calls.len(), 1);
    assert_eq!(acc.tool_calls[0].name, "read_file");
}

#[test]
fn ingest_returns_error_on_api_error_chunk() {
    let mut acc = GeminiStream::new();
    let r = acc.ingest(&GeminiChunk { error: Some("{\"code\":400}".into()), parts: vec![], prompt_tokens: None, candidates_tokens: None });
    match r {
        Err(AiError::ApiError(m)) => assert!(m.contains("400")),
        other => panic!("expected an API error, got {other:?}"),
    }
}

#[test]
fn parse_response_synthesizes_distinct_ids_for_parallel_calls() {
    let r = assemble_gemini_reply(Some(vec![vec![call_part("a", "{}"), call_part("b", "{}")]]), None, None).unwrap();
    assert_eq!(r.tool_calls[0].id, "call_0");
    assert_eq!(r.tool_calls[1].id, "call_1");
}

#[test]
fn parse_response_errors_on_missing_candidates() {
    assert!(matches!(assemble_gemini_reply(None, None, None), Err(AiError::ParseError(_))));
    assert!(matches!(assemble_gemini_reply(Some(vec![]), None, None), Err(AiError::ParseError(_))));
}

#[test]
fn function_call_without_args_gets_empty_object() {
    let c = parse_function_call(&GeminiFunctionCall { name: None, args: None }, 7);
    assert_eq!(c.id, "call_7");
    assert_eq!(c.name, "");
    assert_eq!(c.arguments, "{}");
}

#[test]
fn anthropic_stream_assembles_text_and_tool_use() {
    let mut s = AnthropicStream::new();
    assert_eq!(s.on_event(AnthropicEvent::MessageStart { input_tokens: Some(9) }), None);
    assert_eq!(s.on_event(AnthropicEvent::TextDelta("Hi".into())), Some("Hi".to_string()));
    s.on_event(AnthropicEvent::ToolUseStart { id: "tu1".into(), name: "read_file".into() });
    s.on_event(AnthropicEvent::InputJsonDelta("{\"path\":".into()));
    s.on_event(AnthropicEvent::InputJsonDelta("\"a\"}".into()));
    s.on_event(AnthropicEvent::BlockStop);
    s.on_event(AnthropicEvent::BlockStop);
    s.on_event(AnthropicEvent::MessageDelta { output_tokens: None });
    assert_eq!(s.content, "Hi");
    assert_eq!(s.tool_calls.len(), 1);
    assert_eq!(s.tool_calls[0].id, "tu1");
    assert_eq!(s.tool_calls[0].arguments, "{\"path\":\"a\"}");
    assert_eq!(s.usage.input_tokens, 9);
    assert_eq!(s.usage.output_tokens, 0);
}

#[test]
fn chat_completions_url_appends_path() {
    assert_eq!(chat_completions_url("https://api.openai.com/v1"), "https://api.openai.com/v1/chat/completions");
}

#[test]
fn chat_completions_url_trims_trailing_slash() {
    assert_eq!(chat_completions_url("https://api.minimax.io/v1/"), "https://api.minimax.io/v1/chat/completions");
}

#[test]
fn method_url_builds_models_path() {
    assert_eq!(
        gemini_method_url(DEFAULT_GEMINI_BASE_URL, "gemini-2.0-flash", "generateContent"),
        "https://generativelanguage.googleapis.com/v1beta/models/gemini-2.0-flash:generateContent"
    );
}

#[test]
fn method_url_trims_trailing_slash() {
    assert_eq!(
        gemini_method_url("https://generativelanguage.googleapis.com/v1beta/", "m", "streamGenerateContent"),
        "https://generativelanguage.googleapis.com/v1beta/models/m:streamGenerateContent"
    );
}

#[test]
fn streaming_request_asks_for_sse() {
    assert_eq!(gemini_request_url("https://x/v1", "m", true), "https://x/v1/models/m:streamGenerateContent?alt=sse");
    assert_eq!(gemini_request_url("https://x/v1", "m", false), "https://x/v1/models/m:generateContent");
}

#[test]
fn anthropic_credentials_resolution_order() {
    let (t, m) = resolve_anthropic_auth(Some(" key \n"), Some("oauth"), Some("file")).unwrap();
    assert_eq!((t.as_str(), m), ("key", AuthMethod::ApiKey));
    let (t, m) = resolve_anthropic_auth(None, Some(" oauth "), Some("file")).unwrap();
    assert_eq!((t.as_str(), m), ("oauth", AuthMethod::OAuth));
    let (t, m) = resolve_anthropic_auth(None, None, Some("file")).unwrap();
    assert_eq!((t.as_str(), m), ("file", AuthMethod::OAuth));
    match resolve_anthropic_auth(None, None, None) {
        Err(AiError::ApiError(msg)) => assert!(msg.contains("ANTHROPIC_API_KEY")),
        other => panic!("unexpected {other:?}"),
    }
}

#[test]
fn provider_key_errors_name_the_variable() {
    assert_eq!(openai_key(Some("k")).unwrap(), "k");
    assert!(matches!(openai_key(None), Err(AiError::ApiError(m)) if m.contains("OPENAI_API_KEY")));
    assert!(matches!(minimax_key(None), Err(AiError::ApiError(m)) if m.contains("MINIMAX_API_KEY")));
    assert_eq!(gemini_key(None, Some("g")).unwrap(), "g");
    assert!(matches!(gemini_key(None, None), Err(AiError::ApiError(m)) if m.contains("GOOGLE_API_KEY")));
}

#[test]
fn auth_headers_by_method() {
    assert_eq!(anthropic_auth_header(AuthMethod::ApiKey, "t"), ("x-api-key", "t".to_string()));
    assert_eq!(anthropic_auth_header(AuthMethod::OAuth, "t"), ("Authorization", "Bearer t".to_string()));
    assert_eq!(bearer("k"), "Bearer k");
}

#[test]
fn token_usage_total_saturates() {
    let u = TokenUsage { input_tokens: 3, output_tokens: 4 };
    assert_eq!(u.total_tokens(), 7);
    let big = TokenUsage { input_tokens: u64::MAX, output_tokens: 1 };
    assert_eq!(big.total_tokens(), u64::MAX);
    assert_eq!(TokenUsage::default().total_tokens(), 0);
}

#[test]
fn error_messages() {
    assert_eq!(AiError::ApiError("x".into()).message(), "API error: x");
    assert_eq!(AiError::RateLimited.message(), "Rate limited");
    assert_eq!(AiError::NetworkError("n".into()).message(), "Network error: n");
    assert_eq!(AiError::ParseError("p".into()).message(), "Parse error: p");
    assert_eq!(AiError::Timeout.message(), "Timeout");
}

#[test]
fn http_status_handling() {
    assert_eq!(classify_status(429), StatusClass::RateLimited);
    assert_eq!(classify_status(200), StatusClass::Success);
    assert_eq!(classify_status(500), StatusClass::Failed);
    let long = "x".repeat(300);
    match http_failure("500 Internal Server Error", &long) {
        AiError::ApiError(m) => assert_eq!(m, format!("HTTP 500 Internal Server Error: {}", "x".repeat(200))),
        other => panic!("unexpected {other:?}"),
    }
}

#[test]
fn busy_guard_is_exclusive_until_released() {
    let flag = Arc::new(AtomicBool::new(false));
    let g = BusyGuard::acquire(&flag).unwrap();
    match BusyGuard::acquire(&flag) {
        Err(AiError::ApiError(m)) => assert_eq!(m, "Session is busy with another request"),
        _ => panic!("second acquire must fail"),
    }
    g.release();
    assert!(BusyGuard::acquire(&flag).is_ok());
}

#[test]
fn guard_from_exchange_maps_the_outcome() {
    let flag = Arc::new(AtomicBool::new(true));
    let g = BusyGuard::guard_from_exchange(Ok(false), &flag).unwrap();
    g.release();
    assert!(!flag.load(std::sync::atomic::Ordering::SeqCst), "the guard holds the very flag it was given");
    match BusyGuard::guard_from_exchange(Err(true), &flag) {
        Err(AiError::ApiError(m)) => assert_eq!(m, "Session is busy with another request"),
        _ => panic!("a failed exchange is the busy error"),
    }
}

#[test]
fn skill_router_routes_by_skill_then_default() {
    let mut r: SkillRouter<&'static str> = SkillRouter::new();
    assert!(matches!(r.select_client("chat"), Err(AiError::ApiError(m)) if m == "No client registered for provider Anthropic"));
    r.register_client(Provider::Anthropic, "messages-client");
    r.register_skill(Skill { name: "code".into(), provider: Provider::Anthropic, system_prompt: None });
    r.register_skill(Skill { name: "code".into(), provider: Provider::Anthropic, system_prompt: Some("p".into()) });
    assert_eq!(r.skills().len(), 1);
    assert_eq!(r.skills()[0].system_prompt.as_deref(), Some("p"));
    assert_eq!(r.provider_for("code"), Provider::Anthropic);
    assert_eq!(*r.select_client("anything").unwrap(), "messages-client");
}

use jarvis::ai::stream::{assemble_openai_reply, OpenAiReply, RawToolCall};

#[test]
fn openai_reply_defaults_absent_parts() {
    let reply = OpenAiReply {
        content: None,
        tool_calls: vec![RawToolCall { id: "c1".into(), name: "read_file".into(), arguments: "{}".into() }],
        prompt_tokens: Some(7),
        completion_tokens: None,
    };
    let r = assemble_openai_reply(reply);
    assert_eq!(r.content, "");
    assert_eq!(r.tool_calls.len(), 1);
    assert_eq!(r.tool_calls[0].id, "c1");
    assert_eq!(r.usage.input_tokens, 7);
    assert_eq!(r.usage.output_tokens, 0);
}

#[test]
fn router_default_provider_can_be_set() {
    let mut router: SkillRouter<u8> = SkillRouter::new();
    router.set_default_provider(Provider::Anthropic);
    router.register_client(Provider::Anthropic, 9);
    assert_eq!(router.provider_for("unknown-skill"), Provider::Anthropic);
    assert_eq!(*router.select_client("unknown-skill").unwrap(), 9);
}
