use zcode_gateway::json::{parse, Json};
use zcode_gateway::translate::{
    anthropic_usage_to_openai, apply_anthropic_thinking_compat, map_stop_reason_to_finish_reason, openai_error_body,
    translate_request_openai_to_anthropic, translate_response_anthropic_to_openai,
    translate_response_at,
};

fn json(text: &str) -> Json {
    parse(text).unwrap()
}

fn item<'a>(j: &'a Json, key: &str, i: usize) -> &'a Json {
    &j.items_at(key).unwrap()[i]
}

#[test]
fn openai_to_anthropic_basic() {
    let req = json(
        r#"{
            "model": "glm-5.3",
            "messages": [
                { "role": "system", "content": "be brief" },
                { "role": "user", "content": "hello" }
            ],
            "max_tokens": 100,
            "temperature": 0.5
        }"#,
    );
    let out = translate_request_openai_to_anthropic(&req).unwrap();
    assert_eq!(out.str_at("system"), Some("be brief"));
    assert_eq!(item(&out, "messages", 0).str_at("role"), Some("user"));
    assert_eq!(out.str_in("thinking", "type"), Some("enabled"));
    assert_eq!(out.str_in("output_config", "effort"), Some("max"));
    assert!(out.get("temperature").is_none());
    assert_eq!(out.u64_at("max_tokens"), Some((100u64 + 32_000u64).min(128_000)));
}

#[test]
fn tool_messages_coalesce() {
    let req = json(
        r#"{
            "model": "glm-4.6",
            "messages": [
                { "role": "user", "content": "run it" },
                { "role": "assistant", "tool_calls": [{ "id": "c1", "type": "function", "function": { "name": "sh", "arguments": "{\"cmd\":\"ls\"}" } }] },
                { "role": "tool", "tool_call_id": "c1", "content": "a.txt" },
                { "role": "tool", "tool_call_id": "c2", "content": "b.txt" }
            ]
        }"#,
    );
    let out = translate_request_openai_to_anthropic(&req).unwrap();
    let msgs = out.items_at("messages").unwrap();
    assert_eq!(msgs.len(), 3);
    assert_eq!(item(&msgs[1], "content", 0).str_at("type"), Some("tool_use"));
    assert_eq!(msgs[2].str_at("role"), Some("user"));
    assert_eq!(msgs[2].items_at("content").unwrap().len(), 2);
    assert_eq!(out.get_in("thinking", "budget_tokens").unwrap().as_u64(), Some(1024u64));
}

#[test]
fn anthropic_response_to_openai() {
    let resp = json(
        r#"{
            "id": "msg_1",
            "type": "message",
            "role": "assistant",
            "content": [
                { "type": "thinking", "thinking": "hmm" },
                { "type": "text", "text": "hi" },
                { "type": "tool_use", "id": "t1", "name": "sh", "input": { "cmd": "ls" } }
            ],
            "stop_reason": "tool_use",
            "usage": { "input_tokens": 10, "output_tokens": 5, "cache_read_input_tokens": 3 }
        }"#,
    );
    let out = translate_response_anthropic_to_openai(&resp, "glm-4.6").unwrap();
    assert_eq!(out.str_at("object"), Some("chat.completion"));
    let choice = item(&out, "choices", 0);
    assert_eq!(choice.str_in("message", "content"), Some("hi"));
    assert_eq!(choice.str_in("message", "reasoning_content"), Some("hmm"));
    assert_eq!(choice.str_at("finish_reason"), Some("tool_calls"));
    let message = choice.get("message").unwrap();
    assert_eq!(item(message, "tool_calls", 0).str_in("function", "name"), Some("sh"));
    let usage = out.get("usage").unwrap();
    assert_eq!(usage.u64_at("prompt_tokens"), Some(13));
    assert_eq!(
        usage.get_in("prompt_tokens_details", "cached_tokens").unwrap().as_u64(),
        Some(3)
    );
}

#[test]
fn requests_without_their_parts_are_refused() {
    let e = translate_request_openai_to_anthropic(&json("[]")).err().unwrap();
    assert_eq!(e, "OpenAI request body must be a JSON object");
    let e = translate_request_openai_to_anthropic(&json("{}")).err().unwrap();
    assert_eq!(e, "OpenAI request is missing `model`");
    let e = translate_request_openai_to_anthropic(&json(r#"{"model":"m"}"#)).err().unwrap();
    assert_eq!(e, "OpenAI request is missing `messages`");
}

#[test]
fn plain_requests_keep_their_numbers() {
    let req = json(
        r#"{"model":"plain","messages":[{"role":"user","content":"hi"}],"max_tokens":7,"temperature":0.5,"stop":"END","stream":true}"#,
    );
    let out = translate_request_openai_to_anthropic(&req).unwrap();
    assert_eq!(out.u64_at("max_tokens"), Some(7));
    assert_eq!(out.bool_at("stream"), Some(true));
    assert_eq!(out.get("temperature").unwrap().render(), "0.5");
    assert_eq!(out.items_at("stop_sequences").unwrap()[0].as_str(), Some("END"));
    assert!(out.get("thinking").is_none());
}

#[test]
fn thinking_excludes_sampling() {
    let req = json(
        r#"{"model":"glm-5.3","messages":[],"temperature":1,"top_p":0.9,"reasoning_effort":"low"}"#,
    );
    let out = translate_request_openai_to_anthropic(&req).unwrap();
    assert!(out.get("temperature").is_none());
    assert!(out.get("top_p").is_none());
    assert_eq!(out.get_in("thinking", "budget_tokens").unwrap().as_u64(), Some(8_000));
    assert_eq!(out.str_in("output_config", "effort"), Some("low"));
}

#[test]
fn responses_without_their_parts_are_refused() {
    let e = translate_response_at(&json("3"), "m", 0).err().unwrap();
    assert_eq!(e, "Anthropic response must be an object");
    let e = translate_response_at(&json("{}"), "m", 0).err().unwrap();
    assert_eq!(e, "Anthropic response is missing `content`");
}

#[test]
fn responses_bear_time_and_model() {
    let out = translate_response_at(&json(r#"{"content":[]}"#), "glm-5", 1_234).unwrap();
    assert_eq!(out.u64_at("created"), Some(1_234));
    assert_eq!(out.str_at("model"), Some("glm-5"));
    assert_eq!(out.str_at("id"), Some("chatcmpl-translated"));
}

#[test]
fn usage_counts_cached_input() {
    let usage = json(
        r#"{"input_tokens":10,"output_tokens":4,"cache_read_input_tokens":5,"cache_creation_input_tokens":2}"#,
    );
    let out = anthropic_usage_to_openai(Some(&usage));
    assert_eq!(out.u64_at("prompt_tokens"), Some(17));
    assert_eq!(out.u64_at("completion_tokens"), Some(4));
    assert_eq!(out.u64_at("total_tokens"), Some(21));
}

#[test]
fn stop_reasons_are_mapped() {
    assert_eq!(map_stop_reason_to_finish_reason(Some("end_turn")), Some("stop"));
    assert_eq!(map_stop_reason_to_finish_reason(Some("max_tokens")), Some("length"));
    assert_eq!(map_stop_reason_to_finish_reason(Some("tool_use")), Some("tool_calls"));
    assert_eq!(map_stop_reason_to_finish_reason(None), None);
}

#[test]
fn errors_have_an_envelope() {
    let body = openai_error_body("oops", "bad");
    assert_eq!(body.render(), r#"{"error":{"message":"oops","type":"bad"}}"#);
}

#[test]
fn thinking_budgets_are_settled() {
    for (budget, expected) in [
        ("", 1_024u64),
        (r#","budget_tokens":0"#, 1_024),
        (r#","budget_tokens":-7"#, 1_024),
        (r#","budget_tokens":"many""#, 1_024),
        (r#","budget_tokens":2000"#, 2_000),
    ] {
        let request = format!(
            r#"{{"model":"glm-4.6","max_tokens":50,"temperature":1,"top_k":2,"top_p":0.5,"x":1,
                "thinking":{{"type":"enabled"{budget}}}}}"#
        );
        let out = apply_anthropic_thinking_compat(json(&request));
        for gone in ["temperature", "top_k", "top_p"] {
            assert!(out.get(gone).is_none());
        }
        assert_eq!(out.get("thinking").unwrap().u64_at("budget_tokens"), Some(expected));
        assert_eq!(out.u64_at("max_tokens"), Some(50 + expected));
        assert_eq!(out.u64_at("x"), Some(1));
    }
    let full = json(r#"{"model":"glm-4.6","max_tokens":131072,"thinking":{"type":"adaptive"}}"#);
    assert_eq!(apply_anthropic_thinking_compat(full).u64_at("max_tokens"), Some(131_072));
}
