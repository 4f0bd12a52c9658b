use genvm::llm::{AnswerError, JsonValue, ResponseFormat};
use genvm::llm_default;
use genvm::llm_funcs;
use genvm::llm_default::LLLMProvider as DP;
use genvm::llm_funcs::{FuncsAnswer, LLLMProvider as FP};

fn render(v: &JsonValue) -> String {
    match v {
        JsonValue::Null => "null".to_string(),
        JsonValue::Bool(b) => b.to_string(),
        JsonValue::Number(Some(n)) => n.to_string(),
        JsonValue::Number(None) => "num".to_string(),
        JsonValue::Float32(bits) => format!("{}", f32::from_bits(*bits)),
        JsonValue::Float64(bits) => format!("{}", f64::from_bits(*bits)),
        JsonValue::Str(s) => format!("{:?}", s),
        JsonValue::Array(a) => format!("[{}]", a.iter().map(render).collect::<Vec<_>>().join(",")),
        JsonValue::Object(m) => format!(
            "{{{}}}",
            m.iter().map(|(k, v)| format!("{:?}:{}", k, render(v))).collect::<Vec<_>>().join(",")
        ),
    }
}

fn obj(members: Vec<(&str, JsonValue)>) -> JsonValue {
    JsonValue::Object(members.into_iter().map(|(k, v)| (k.to_string(), v)).collect())
}

fn s(t: &str) -> JsonValue {
    JsonValue::Str(t.to_string())
}

fn default_conf(provider: DP) -> llm_default::Config {
    llm_default::Config { host: "http://h".to_string(), provider, model: "m".to_string() }
}

fn funcs_conf(provider: FP) -> llm_funcs::Config {
    llm_funcs::Config { host: "http://h".to_string(), provider, model: "m".to_string() }
}

#[test]
fn temperature_bits_are_seven_tenths() {
    assert_eq!(f64::from_bits(llm_default::TEMPERATURE_0_7_F64_BITS), 0.7f64);
}

#[test]
fn default_module_requests() {
    let q = llm_default::exec_prompt_request(&default_conf(DP::Openai), "OK", "AK", "hi", ResponseFormat::Json);
    assert_eq!(q.url, "http://h/v1/chat/completions");
    assert_eq!(q.headers[1], ("Authorization".to_string(), "Bearer OK".to_string()));
    assert_eq!(
        render(&q.body),
        r#"{"model":"m","messages":[{"role":"user","content":"hi"}],"max_completion_tokens":1000,"stream":false,"temperature":0.7,"response_format":{"type":"json_object"}}"#
    );
    let q = llm_default::exec_prompt_request(&default_conf(DP::Atoma), "OK", "AK", "hi", ResponseFormat::Text);
    assert_eq!(q.headers[1].1, "Bearer AK");
    assert!(render(&q.body).contains(r#""max_tokens":1000"#));
    let q = llm_default::exec_prompt_request(&default_conf(DP::Ollama), "OK", "AK", "hi", ResponseFormat::Json);
    assert_eq!(q.url, "http://h/api/generate");
    assert_eq!(render(&q.body), r#"{"model":"m","prompt":"hi","stream":false,"format":"json"}"#);
    let q = llm_default::exec_prompt_request(&default_conf(DP::Simulator), "OK", "AK", "hi", ResponseFormat::Text);
    assert_eq!(q.url, "http://h/api");
    assert_eq!(
        render(&q.body),
        r#"{"jsonrpc":"2.0","method":"llm_genvm_module_call","params":["m","hi","\"text\""],"id":1}"#
    );
}

#[test]
fn default_module_answers_charge_gas() {
    let chat = obj(vec![
        ("choices", JsonValue::Array(vec![obj(vec![("message", obj(vec![("content", s("x"))]))])])),
        ("usage", obj(vec![("total_tokens", JsonValue::Number(Some(3)))])),
    ]);
    let mut gas: u64 = 1000;
    assert_eq!(llm_default::exec_prompt_answer(DP::Openai, &chat, &mut gas), Ok("x".to_string()));
    assert_eq!(gas, 1000 - (3 << 8));
    let mut gas: u64 = 10;
    assert_eq!(llm_default::exec_prompt_answer(DP::Atoma, &chat, &mut gas), Ok("x".to_string()));
    assert_eq!(gas, 0);
    let ollama = obj(vec![("response", s("y")), ("eval_duration", JsonValue::Number(Some(5)))]);
    let mut gas: u64 = 1000;
    assert_eq!(llm_default::exec_prompt_answer(DP::Ollama, &ollama, &mut gas), Ok("y".to_string()));
    assert_eq!(gas, 1000 - (5 << 4));
    let mut gas: u64 = 1000;
    assert_eq!(llm_default::exec_prompt_answer(DP::Ollama, &obj(vec![("response", s("y"))]), &mut gas), Err(AnswerError::NoUsage));
    assert_eq!(gas, 1000);
    let sim = obj(vec![("result", obj(vec![("response", s("z"))]))]);
    assert_eq!(llm_default::exec_prompt_answer(DP::Simulator, &sim, &mut gas), Ok("z".to_string()));
    assert_eq!(gas, 1000);
}

#[test]
fn module_requests() {
    let q = llm_funcs::exec_prompt_request(&funcs_conf(FP::Anthropic), "K", "hi", ResponseFormat::Json);
    assert_eq!(q.url, "http://h/v1/messages");
    assert_eq!(
        render(&q.body),
        r#"{"model":"m","messages":[{"role":"user","content":"hi"}],"max_tokens":1000,"stream":false,"temperature":0.7,"tools":[{"name":"json_out","description":"Output a valid json object","input_schema":{"type":"object"}}],"tool_choice":{"type":"tool","name":"json_out"}}"#
    );
    let q = llm_funcs::exec_prompt_request(&funcs_conf(FP::Google), "K", "hi", ResponseFormat::Text);
    assert_eq!(q.url, "http://h/v1beta/models/m:generateContent?key=K");
    assert_eq!(
        render(&q.body),
        r#"{"contents":[{"parts":[{"text":"hi"}]}],"generationConfig":{"responseMimeType":"text/plain","temperature":0.7,"maxOutputTokens":800}}"#
    );
    let q = llm_funcs::exec_prompt_request(&funcs_conf(FP::OpenaiCompatible), "K", "hi", ResponseFormat::Text);
    assert_eq!(q.headers[1].1, "Bearer K");
    assert!(render(&q.body).ends_with(r#""max_tokens":1000,"stream":false,"temperature":0.7}"#));
}

#[test]
fn module_answers() {
    let anthropic = || obj(vec![(
        "content",
        JsonValue::Array(vec![obj(vec![("text", s(" ```json {} ``` ")), ("input", obj(vec![("type", s("t"))]))])]),
    )]);
    assert!(matches!(llm_funcs::exec_prompt_answer(FP::Anthropic, ResponseFormat::Json, anthropic()),
        Ok(FuncsAnswer::Value(JsonValue::Str(t))) if t == "t"));
    assert!(matches!(llm_funcs::exec_prompt_answer(FP::Anthropic, ResponseFormat::Text, anthropic()),
        Ok(FuncsAnswer::Text(t)) if t == " ```json {} ``` "));
    let ollama = obj(vec![("response", s("```\n[1]\n```"))]);
    assert!(matches!(llm_funcs::exec_prompt_answer(FP::Ollama, ResponseFormat::Json, ollama),
        Ok(FuncsAnswer::Text(t)) if t == "[1]"));
    let chat = || obj(vec![("choices", JsonValue::Array(vec![obj(vec![("message", obj(vec![("content", s("x"))]))])]))]);
    assert!(matches!(llm_funcs::exec_prompt_answer(FP::OpenaiCompatible, ResponseFormat::Text, chat()),
        Err(AnswerError::NoUsage)));
    assert!(matches!(llm_funcs::exec_prompt_answer(FP::Google, ResponseFormat::Text, chat()),
        Err(AnswerError::NoResponse)));
}

#[test]
fn default_module_replies_are_parsed() {
    let body = r#"{"choices":[{"message":{"content":"x"}}],"usage":{"total_tokens":3}}"#;
    let mut gas: u64 = 1000;
    assert_eq!(llm_default::exec_prompt_reply(DP::Openai, body, &mut gas), Ok("x".to_string()));
    assert_eq!(gas, 1000 - (3 << 8));
    let mut gas: u64 = 1000;
    assert_eq!(llm_default::exec_prompt_reply(DP::Ollama, r#"{"response":"y","eval_duration":2.5}"#, &mut gas),
        Err(AnswerError::NoUsage));
    assert_eq!(gas, 1000);
    assert_eq!(llm_default::exec_prompt_reply(DP::Simulator, "not json", &mut gas), Err(AnswerError::NotJson));
    assert_eq!(gas, 1000);
    assert_eq!(llm_default::exec_prompt_reply(DP::Simulator, r#"{"result":{"response":"z"}}"#, &mut gas),
        Ok("z".to_string()));
}

#[test]
fn module_replies_are_parsed() {
    let body = r#"{"content":[{"input":{"type":[1,{"k":null}]}}]}"#;
    match llm_funcs::exec_prompt_reply(FP::Anthropic, ResponseFormat::Json, body) {
        Ok(FuncsAnswer::Value(v)) => assert_eq!(render(&v), r#"[1,{"k":null}]"#),
        _ => panic!("a value was expected"),
    }
    let body = r#"{"response": "```json\n{\"a\": 1}\n```"}"#;
    assert!(matches!(llm_funcs::exec_prompt_reply(FP::Ollama, ResponseFormat::Json, body),
        Ok(FuncsAnswer::Text(t)) if t == "{\"a\": 1}"));
    assert!(matches!(llm_funcs::exec_prompt_reply(FP::Ollama, ResponseFormat::Json, "[1,"),
        Err(AnswerError::NotJson)));
}
