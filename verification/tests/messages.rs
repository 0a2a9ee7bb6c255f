//! How each provider's request lays out a conversation, and how replies are
//! assembled.

use jarvis::ai::messages::{
    anthropic_messages, assemble_anthropic_reply, gemini_contents, openai_messages, system_text, AnthropicContent,
    ContentBlock, GeminiOutPart, Message, OpenAiMessage,
};
use jarvis::ai::stream::{assemble_gemini_reply, assemble_openai_reply, GeminiFunctionCall, GeminiPart, OpenAiReply, RawToolCall};
use jarvis::ai::Role;

fn tool_use(id: &str, name: &str, input: &str) -> ContentBlock {
    ContentBlock::ToolUse { id: id.into(), name: name.into(), input: input.into() }
}

fn tool_result(id: &str, content: &str, is_error: bool) -> ContentBlock {
    ContentBlock::ToolResult { tool_use_id: id.into(), content: content.into(), is_error }
}

fn roundtrip(id: &str) -> Vec<Message> {
    vec![
        Message::text(Role::User, "read a.txt"),
        Message::blocks(Role::Assistant, vec![tool_use(id, "read_file", r#"{"path":"a.txt"}"#)]),
        Message::blocks(Role::User, vec![tool_result(id, "hello", false)]),
    ]
}

// ---- Anthropic --------------------------------------------------------------

#[test]
fn client_plain_text_message_serializes_as_string() {
    let turns = anthropic_messages(&vec![Message::text(Role::User, "hello there")]);
    assert_eq!(turns[0].role, "user");
    assert!(matches!(&turns[0].content, AnthropicContent::Text(t) if t == "hello there"));
}

#[test]
fn tool_use_turn_serializes_as_block_array() {
    let msgs = vec![Message::blocks(
        Role::Assistant,
        vec![ContentBlock::Text { text: "let me check".into() }, tool_use("toolu_1", "read_file", r#"{"path":"a.txt"}"#)],
    )];
    let turns = anthropic_messages(&msgs);
    let AnthropicContent::Blocks(arr) = &turns[0].content else { panic!("tool turn must be an array") };
    assert!(matches!(&arr[0], ContentBlock::Text { .. }));
    match &arr[1] {
        ContentBlock::ToolUse { id, name, input } => {
            assert_eq!(id, "toolu_1");
            assert_eq!(name, "read_file");
            assert_eq!(input, r#"{"path":"a.txt"}"#);
        }
        other => panic!("expected tool_use, got {other:?}"),
    }
}

#[test]
fn tool_result_keyed_by_tool_use_id() {
    let turns = anthropic_messages(&vec![Message::blocks(Role::User, vec![tool_result("toolu_1", "file contents", false)])]);
    assert_eq!(turns[0].role, "user");
    let AnthropicContent::Blocks(arr) = &turns[0].content else { panic!("expected blocks") };
    match &arr[0] {
        ContentBlock::ToolResult { tool_use_id, content, is_error } => {
            assert_eq!(tool_use_id, "toolu_1");
            assert_eq!(content, "file contents");
            assert!(!is_error);
        }
        other => panic!("expected tool_result, got {other:?}"),
    }
}

#[test]
fn tool_result_error_flag_propagates() {
    let turns = anthropic_messages(&vec![Message::blocks(Role::User, vec![tool_result("toolu_x", "Access denied", true)])]);
    let AnthropicContent::Blocks(arr) = &turns[0].content else { panic!("expected blocks") };
    assert!(matches!(&arr[0], ContentBlock::ToolResult { is_error: true, .. }));
}

#[test]
fn client_full_tool_roundtrip_serialization() {
    let turns = anthropic_messages(&roundtrip("t1"));
    assert_eq!(turns.len(), 3);
    assert!(matches!(&turns[0].content, AnthropicContent::Text(t) if t == "read a.txt"));
    let AnthropicContent::Blocks(call) = &turns[1].content else { panic!() };
    let AnthropicContent::Blocks(result) = &turns[2].content else { panic!() };
    match (&call[0], &result[0]) {
        (ContentBlock::ToolUse { id, .. }, ContentBlock::ToolResult { tool_use_id, .. }) => assert_eq!(id, tool_use_id),
        other => panic!("unexpected {other:?}"),
    }
}

#[test]
fn anthropic_system_messages_are_not_turns() {
    let msgs = vec![Message::text(Role::System, "be terse"), Message::text(Role::User, "hi")];
    assert_eq!(anthropic_messages(&msgs).len(), 1);
    assert_eq!(system_text(None, &msgs).as_deref(), Some("be terse"));
    assert_eq!(system_text(Some("you are jarvis"), &msgs).as_deref(), Some("you are jarvis"));
    assert_eq!(system_text(None, &vec![Message::text(Role::User, "hi")]), None);
}

#[test]
fn anthropic_reply_takes_first_text_and_all_tool_uses() {
    let blocks = vec![
        ContentBlock::Text { text: "checking".into() },
        tool_use("t1", "read_file", "{}"),
        ContentBlock::Text { text: "ignored".into() },
        tool_use("t2", "list_directory", r#"{"path":"."}"#),
    ];
    let r = assemble_anthropic_reply(&blocks, Some(3), None);
    assert_eq!(r.content, "checking");
    let ids: Vec<&str> = r.tool_calls.iter().map(|c| c.id.as_str()).collect();
    assert_eq!(ids, vec!["t1", "t2"]);
    assert_eq!(r.tool_calls[1].arguments, r#"{"path":"."}"#);
    assert_eq!(r.usage.input_tokens, 3);
    assert_eq!(r.usage.output_tokens, 0);
    assert_eq!(assemble_anthropic_reply(&Vec::new(), None, None).content, "");
}

// ---- OpenAI -----------------------------------------------------------------

fn plain(m: &OpenAiMessage) -> (&str, &str) {
    match m {
        OpenAiMessage::Plain { role, content } => (role, content.as_str()),
        other => panic!("expected a plain message, got {other:?}"),
    }
}

#[test]
fn openai_plain_text_message_serializes_as_string() {
    let out = openai_messages(None, &vec![Message::text(Role::User, "hello there")]);
    assert_eq!(plain(&out[0]), ("user", "hello there"));
}

#[test]
fn system_role_message_maps_to_system() {
    let out = openai_messages(None, &vec![Message::text(Role::System, "be terse"), Message::text(Role::User, "hi")]);
    assert_eq!(plain(&out[0]), ("system", "be terse"));
    assert_eq!(plain(&out[1]).0, "user");
}

#[test]
fn configured_system_prompt_is_first_message() {
    let out = openai_messages(Some("you are jarvis"), &vec![Message::text(Role::User, "hi")]);
    assert_eq!(plain(&out[0]), ("system", "you are jarvis"));
    assert_eq!(plain(&out[1]).0, "user");
    let dup = openai_messages(Some("you are jarvis"), &vec![Message::text(Role::System, "other")]);
    assert_eq!(dup.len(), 1);
}

#[test]
fn tool_use_assistant_turn_serializes_to_openai_tool_calls() {
    let msgs = vec![Message::blocks(
        Role::Assistant,
        vec![ContentBlock::Text { text: "let me check".into() }, tool_use("call_1", "read_file", r#"{"path":"a.txt"}"#)],
    )];
    match &openai_messages(None, &msgs)[0] {
        OpenAiMessage::ToolCalls { content, calls } => {
            assert_eq!(content.as_deref(), Some("let me check"));
            assert_eq!(calls[0].id, "call_1");
            assert_eq!(calls[0].name, "read_file");
            assert_eq!(calls[0].arguments, r#"{"path":"a.txt"}"#);
        }
        other => panic!("expected tool calls, got {other:?}"),
    }
}

#[test]
fn tool_use_without_text_uses_null_content() {
    let msgs = vec![Message::blocks(Role::Assistant, vec![tool_use("call_x", "list_directory", r#"{"path":"."}"#)])];
    match &openai_messages(None, &msgs)[0] {
        OpenAiMessage::ToolCalls { content, calls } => {
            assert!(content.is_none());
            assert_eq!(calls[0].id, "call_x");
        }
        other => panic!("expected tool calls, got {other:?}"),
    }
}

#[test]
fn tool_result_becomes_separate_tool_message() {
    let msgs = vec![Message::blocks(Role::User, vec![tool_result("call_1", "file contents", false)])];
    match &openai_messages(None, &msgs)[0] {
        OpenAiMessage::ToolResult { tool_call_id, content } => {
            assert_eq!(tool_call_id, "call_1");
            assert_eq!(content, "file contents");
        }
        other => panic!("expected a tool message, got {other:?}"),
    }
}

#[test]
fn openai_full_tool_roundtrip_serialization() {
    let out = openai_messages(None, &roundtrip("call_1"));
    assert_eq!(out.len(), 3);
    assert_eq!(plain(&out[0]), ("user", "read a.txt"));
    let OpenAiMessage::ToolCalls { calls, .. } = &out[1] else { panic!("expected tool calls") };
    let OpenAiMessage::ToolResult { tool_call_id, .. } = &out[2] else { panic!("expected a tool message") };
    assert_eq!(&calls[0].id, tool_call_id);
}

#[test]
fn parse_response_extracts_content_and_tool_calls() {
    let reply = OpenAiReply {
        content: Some("checking now".into()),
        tool_calls: vec![RawToolCall { id: "call_42".into(), name: "read_file".into(), arguments: r#"{"path":"main.rs"}"#.into() }],
        prompt_tokens: Some(12),
        completion_tokens: Some(7),
    };
    let resp = assemble_openai_reply(reply);
    assert_eq!(resp.content, "checking now");
    assert_eq!(resp.tool_calls.len(), 1);
    assert_eq!(resp.tool_calls[0].id, "call_42");
    assert_eq!(resp.tool_calls[0].name, "read_file");
    assert_eq!(resp.tool_calls[0].arguments, r#"{"path":"main.rs"}"#);
    assert_eq!(resp.usage.input_tokens, 12);
    assert_eq!(resp.usage.output_tokens, 7);
}

#[test]
fn parse_response_handles_null_content() {
    let reply = OpenAiReply {
        content: None,
        tool_calls: vec![RawToolCall { id: "c1".into(), name: "list_directory".into(), arguments: "{}".into() }],
        prompt_tokens: None,
        completion_tokens: None,
    };
    let resp = assemble_openai_reply(reply);
    assert_eq!(resp.content, "");
    assert_eq!(resp.tool_calls.len(), 1);
}

// ---- Gemini -----------------------------------------------------------------

fn text_of(p: &GeminiOutPart) -> &str {
    match p {
        GeminiOutPart::Text(t) => t,
        other => panic!("expected text, got {other:?}"),
    }
}

#[test]
fn plain_text_user_message_maps_to_user_role() {
    let c = gemini_contents(&vec![Message::text(Role::User, "hello")]);
    assert_eq!(c[0].role, "user");
    assert_eq!(text_of(&c[0].parts[0]), "hello");
}

#[test]
fn assistant_text_maps_to_model_role() {
    let c = gemini_contents(&vec![Message::text(Role::Assistant, "hi back")]);
    assert_eq!(c[0].role, "model");
    assert_eq!(text_of(&c[0].parts[0]), "hi back");
}

#[test]
fn system_message_folds_into_system_instruction() {
    let msgs = vec![Message::text(Role::System, "be terse"), Message::text(Role::User, "hi")];
    let c = gemini_contents(&msgs);
    assert_eq!(c.len(), 1);
    assert_eq!(c[0].role, "user");
    assert_eq!(system_text(None, &msgs).as_deref(), Some("be terse"));
}

#[test]
fn configured_system_prompt_becomes_system_instruction() {
    let msgs = vec![Message::text(Role::User, "hi")];
    assert_eq!(system_text(Some("you are jarvis"), &msgs).as_deref(), Some("you are jarvis"));
}

#[test]
fn tool_use_assistant_turn_serializes_to_function_call() {
    let msgs = vec![Message::blocks(
        Role::Assistant,
        vec![ContentBlock::Text { text: "let me check".into() }, tool_use("call_0", "read_file", r#"{"path":"a.txt"}"#)],
    )];
    let c = gemini_contents(&msgs);
    assert_eq!(c[0].role, "model");
    assert_eq!(text_of(&c[0].parts[0]), "let me check");
    match &c[0].parts[1] {
        GeminiOutPart::FunctionCall { name, args } => {
            assert_eq!(name, "read_file");
            assert_eq!(args, r#"{"path":"a.txt"}"#);
        }
        other => panic!("expected a function call, got {other:?}"),
    }
}

#[test]
fn tool_result_serializes_to_function_response_with_name() {
    let msgs = vec![
        Message::blocks(Role::Assistant, vec![tool_use("call_0", "read_file", r#"{"path":"a.txt"}"#)]),
        Message::blocks(Role::User, vec![tool_result("call_0", "file contents", false)]),
    ];
    let c = gemini_contents(&msgs);
    assert_eq!(c[1].role, "user");
    match &c[1].parts[0] {
        GeminiOutPart::FunctionResponse { name, content } => {
            assert_eq!(name, "read_file");
            assert_eq!(content, "file contents");
        }
        other => panic!("expected a function response, got {other:?}"),
    }
}

#[test]
fn unknown_tool_result_is_named_by_its_id() {
    let msgs = vec![Message::blocks(Role::User, vec![tool_result("call_9", "x", false)])];
    match &gemini_contents(&msgs)[0].parts[0] {
        GeminiOutPart::FunctionResponse { name, .. } => assert_eq!(name, "call_9"),
        other => panic!("expected a function response, got {other:?}"),
    }
}

#[test]
fn gemini_full_tool_roundtrip_serialization() {
    let c = gemini_contents(&roundtrip("call_0"));
    assert_eq!(c.len(), 3);
    assert_eq!(c[0].role, "user");
    assert_eq!(text_of(&c[0].parts[0]), "read a.txt");
    assert_eq!(c[1].role, "model");
    assert!(matches!(&c[1].parts[0], GeminiOutPart::FunctionCall { name, .. } if name == "read_file"));
    assert_eq!(c[2].role, "user");
    assert!(matches!(&c[2].parts[0], GeminiOutPart::FunctionResponse { name, .. } if name == "read_file"));
}

#[test]
fn parse_response_extracts_text_and_function_calls() {
    let parts = vec![
        GeminiPart { text: Some("checking now".into()), function_call: None },
        GeminiPart {
            text: None,
            function_call: Some(GeminiFunctionCall { name: Some("read_file".into()), args: Some(r#"{"path":"main.rs"}"#.into()) }),
        },
    ];
    let resp = assemble_gemini_reply(Some(vec![parts]), Some(12), Some(7)).unwrap();
    assert_eq!(resp.content, "checking now");
    assert_eq!(resp.tool_calls.len(), 1);
    assert_eq!(resp.tool_calls[0].id, "call_0");
    assert_eq!(resp.tool_calls[0].name, "read_file");
    assert_eq!(resp.tool_calls[0].arguments, r#"{"path":"main.rs"}"#);
    assert_eq!(resp.usage.input_tokens, 12);
    assert_eq!(resp.usage.output_tokens, 7);
}
