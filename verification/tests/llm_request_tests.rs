use genvm::llm::{
    anthropic_json_answer, ollama_text_answer, openai_answer, AnswerError, Anthropic, BackendConfig,
    Gemini, ImageLua, JsonValue, OLlama, OpenAICompatible, Provider,
};
use genvm::llm::{ExtendedOutputFormat, ProviderImpl};
use genvm::llm_request::{
    check_prompt, exec_prompt_in_provider, prompt_plan, read_answer, read_reply, AnswerRead, AnthropicAsk, Internal, PromptError,
    ReadAnswer,
};
use genvm::str_map::StrMap;

/// A compact rendering of a JSON value, members in their order.
fn render(v: &JsonValue) -> String {
    match v {
        JsonValue::Null => "null".to_string(),
        JsonValue::Bool(b) => b.to_string(),
        JsonValue::Number(Some(n)) => n.to_string(),
        JsonValue::Number(None) => "num".to_string(),
        JsonValue::Float32(bits) => format!("{}", f32::from_bits(*bits)),
        JsonValue::Float64(bits) => format!("{}", f64::from_bits(*bits)),
        JsonValue::Str(s) => format!("{:?}", s),
        JsonValue::Array(a) => format!("[{}]", a.iter().map(render).collect::<Vec<_>>().join(",")),
        JsonValue::Object(m) => format!(
            "{{{}}}",
            m.iter().map(|(k, v)| format!("{:?}:{}", k, render(v))).collect::<Vec<_>>().join(",")
        ),
    }
}

const PNG: [u8; 9] = [0x89, 0x50, 0x4E, 0x47, 0x0D, 0x0A, 0x1A, 0x0A, 0x01];

fn prompt(system: Option<&str>, images: Vec<Vec<u8>>) -> Internal {
    Internal {
        system_message: system.map(|s| s.to_string()),
        user_message: "say yes".to_string(),
        temperature_bits: 0.5f32.to_bits(),
        images: images.into_iter().map(ImageLua).collect(),
        max_tokens: 100,
        use_max_completion_tokens: true,
    }
}

fn backend(provider: Provider) -> BackendConfig {
    BackendConfig {
        enabled: true,
        host: "https://h".to_string(),
        provider,
        key: "K".to_string(),
        models: StrMap::new(),
    }
}

fn headers(h: &[(String, String)]) -> Vec<(&str, &str)> {
    h.iter().map(|(a, b)| (a.as_str(), b.as_str())).collect()
}

#[test]
fn openai_request_has_messages_and_token_key() {
    let p = prompt(Some("be short"), vec![PNG.to_vec()]);
    let q = OpenAICompatible { config: backend(Provider::OpenaiCompatible) }
        .prompt_request(&p, "gpt", true)
        .ok().unwrap();
    assert_eq!(q.url, "https://h/v1/chat/completions");
    assert_eq!(headers(&q.headers), vec![("Content-Type", "application/json"), ("Authorization", "Bearer K")]);
    assert_eq!(
        render(&q.body),
        r#"{"model":"gpt","messages":[{"role":"system","content":"be short"},{"role":"user","content":[{"type":"text","text":"say yes"},{"type":"image_url","image_url":{"url":"data:image/png;base64,iVBORw0KGgoB"}}]}],"stream":false,"temperature":0.5,"response_format":{"type":"json_object"},"max_completion_tokens":100}"#
    );
}

#[test]
fn openai_text_request_uses_max_tokens_when_asked() {
    let mut p = prompt(None, vec![]);
    p.use_max_completion_tokens = false;
    let body = p.openai_body("m", false).ok().unwrap();
    assert_eq!(
        render(&body),
        r#"{"model":"m","messages":[{"role":"user","content":[{"type":"text","text":"say yes"}]}],"stream":false,"temperature":0.5,"max_tokens":100}"#
    );
}

#[test]
fn unknown_image_is_a_fatal_error() {
    let p = prompt(None, vec![vec![1, 2, 3]]);
    let e = p.openai_body("m", false).err().unwrap();
    assert_eq!(e.causes, vec!["INVALID_IMAGE".to_string()]);
    assert!(e.fatal);
    assert!(p.gemini_body(true).is_err());
    assert!(p.to_anthropic_no_format("m").is_err());
    let a = Anthropic { config: backend(Provider::Anthropic) };
    assert!(a.prompt_request(&p, "m", AnthropicAsk::Json).is_err());
    assert!(a.prompt_request(&p, "m", AnthropicAsk::BoolReason).is_ok());
}

#[test]
fn gemini_request_puts_key_in_url() {
    let p = prompt(Some("sys"), vec![PNG.to_vec()]);
    let q = Gemini { config: backend(Provider::Google) }.prompt_request(&p, "gem", false).ok().unwrap();
    assert_eq!(q.url, "https://h/v1beta/models/gem:generateContent?key=K");
    assert_eq!(headers(&q.headers), vec![("Content-Type", "application/json")]);
    assert_eq!(
        render(&q.body),
        r#"{"generationConfig":{"responseMimeType":"text/plain","temperature":0.5,"maxOutputTokens":100},"system_instruction":{"parts":[{"text":"sys"}]},"contents":[{"parts":[{"inline_data":{"mime_type":"image/png","data":"iVBORw0KGgoB"}},{"text":"say yes"}]}]}"#
    );
}

#[test]
fn ollama_request_sends_images_and_format() {
    let p = prompt(Some("sys"), vec![vec![1, 2, 3]]);
    let q = OLlama { config: backend(Provider::Ollama) }.prompt_request(&p, "llama", true);
    assert_eq!(q.url, "https://h/api/generate");
    assert!(q.headers.is_empty());
    assert_eq!(
        render(&q.body),
        r#"{"model":"llama","prompt":"say yes","stream":false,"options":{"temperature":0.5,"num_predict":100},"images":["AQID"],"system":"sys","format":"json"}"#
    );
}

#[test]
fn anthropic_requests() {
    let a = Anthropic { config: backend(Provider::Anthropic) };
    let p = prompt(None, vec![PNG.to_vec()]);
    let q = a.prompt_request(&p, "model-a", AnthropicAsk::Text).ok().unwrap();
    assert_eq!(q.url, "https://h/v1/messages");
    assert_eq!(
        headers(&q.headers),
        vec![("Content-Type", "application/json"), ("x-api-key", "K"), ("anthropic-version", "2023-06-01")]
    );
    assert_eq!(
        render(&q.body),
        r#"{"model":"model-a","messages":[{"role":"user","content":[{"type":"image","source":{"type":"base64","media_type":"image/png","data":"iVBORw0KGgoB"}},{"type":"text","text":"say yes"}]}],"max_tokens":100,"stream":false,"temperature":0.5}"#
    );
    let j = a.prompt_request(&p, "model-a", AnthropicAsk::Json).ok().unwrap();
    let tools = r#""tools":[{"name":"json_out","description":"Output a valid json object","input_schema":{"type":"object","patternProperties":{"":{"type":["object","null","array","number","string"]}}}}],"tool_choice":{"type":"tool","name":"json_out"}}"#;
    assert!(render(&j.body).ends_with(tools));
    let v = a.prompt_request(&prompt(Some("s"), vec![]), "model-a", AnthropicAsk::BoolReason).ok().unwrap();
    assert_eq!(
        render(&v.body),
        r#"{"model":"model-a","messages":[{"role":"user","content":"say yes"}],"max_tokens":200,"stream":false,"temperature":0.5,"tools":[{"name":"json_out","description":"Output a valid json object","input_schema":{"type":"object","properties":{"result":{"type":"boolean"},"reason":{"type":"string"}},"required":["result"]}}],"tool_choice":{"type":"tool","name":"json_out"},"system":"s"}"#
    );
}

fn obj(members: Vec<(&str, JsonValue)>) -> JsonValue {
    JsonValue::Object(members.into_iter().map(|(k, v)| (k.to_string(), v)).collect())
}

#[test]
fn answers_of_the_services() {
    let chat = obj(vec![(
        "choices",
        JsonValue::Array(vec![obj(vec![("message", obj(vec![("content", JsonValue::Str("hi".into()))]))])]),
    )]);
    assert_eq!(openai_answer(&chat), Ok("hi".to_string()));
    assert_eq!(openai_answer(&obj(vec![])), Err(AnswerError::NoResponse));
    assert_eq!(ollama_text_answer(&obj(vec![("response", JsonValue::Str("yo".into()))])), Ok("yo".to_string()));
    assert_eq!(ollama_text_answer(&obj(vec![("response", JsonValue::Null)])), Err(AnswerError::NoResponse));
    let tool = |input: JsonValue| obj(vec![("content", JsonValue::Array(vec![obj(vec![("input", input)])]))]);
    let answer = tool(obj(vec![("result", JsonValue::Bool(true))]));
    assert_eq!(render(&anthropic_json_answer(answer).unwrap()), r#"{"result":true}"#);
    assert!(anthropic_json_answer(tool(JsonValue::Str("x".into()))).is_err());
}

#[test]
fn backend_check_prompt() {
    let p = check_prompt();
    assert_eq!(f32::from_bits(p.temperature_bits), 0.7f32);
    assert_eq!(p.max_tokens, 30);
    assert!(p.system_message.is_none() && p.images.is_empty() && p.use_max_completion_tokens);
    assert!(p.user_message.starts_with("Respond with two letters \"ok\""));
}

fn providers() -> StrMap<ProviderImpl> {
    let mut m = StrMap::new();
    m.insert("oa".to_string(), backend(Provider::OpenaiCompatible).to_provider());
    m.insert("an".to_string(), backend(Provider::Anthropic).to_provider());
    m.insert("ol".to_string(), backend(Provider::Ollama).to_provider());
    m
}

#[test]
fn prompt_goes_to_the_named_provider() {
    let ps = providers();
    let p = prompt(None, vec![]);
    assert!(matches!(
        exec_prompt_in_provider(&ps, &p, "m", "nope", ExtendedOutputFormat::Text),
        Err(PromptError::AbsentProvider)
    ));
    let plan = exec_prompt_in_provider(&ps, &p, "m", "oa", ExtendedOutputFormat::JSON).ok().unwrap();
    assert_eq!(plan.read, AnswerRead::OpenAIText);
    assert!(render(&plan.request.body).contains(r#""response_format":{"type":"json_object"}"#));
    let plan = exec_prompt_in_provider(&ps, &p, "m", "an", ExtendedOutputFormat::Bool).ok().unwrap();
    assert_eq!(plan.read, AnswerRead::AnthropicBool);
    assert!(render(&plan.request.body).contains(r#""max_tokens":200"#));
    let plan = exec_prompt_in_provider(&ps, &p, "m", "ol", ExtendedOutputFormat::Bool).ok().unwrap();
    assert_eq!(plan.read, AnswerRead::OllamaText);
    assert!(render(&plan.request.body).ends_with(r#""format":"json"}"#));
}

#[test]
fn bad_image_fails_only_where_it_is_described() {
    let ps = providers();
    let p = prompt(None, vec![vec![0, 0]]);
    assert!(matches!(
        exec_prompt_in_provider(&ps, &p, "m", "oa", ExtendedOutputFormat::Text),
        Err(PromptError::Module(e)) if e.fatal
    ));
    assert!(exec_prompt_in_provider(&ps, &p, "m", "ol", ExtendedOutputFormat::Text).is_ok());
    let an = backend(Provider::Anthropic).to_provider();
    assert!(prompt_plan(&an, &p, "m", ExtendedOutputFormat::Bool).is_ok());
    assert!(prompt_plan(&an, &p, "m", ExtendedOutputFormat::JSON).is_err());
}

#[test]
fn answers_are_read_by_format() {
    let ollama = || obj(vec![("response", JsonValue::Str(" ```json\n{\"a\":1}\n``` ".into()))]);
    assert!(matches!(read_answer(AnswerRead::OllamaText, ExtendedOutputFormat::JSON, ollama()),
        Ok(ReadAnswer::ObjectText(t)) if t == "{\"a\":1}"));
    assert!(matches!(read_answer(AnswerRead::OllamaText, ExtendedOutputFormat::Text, ollama()),
        Ok(ReadAnswer::Text(t)) if t.starts_with(" ```json")));
    assert!(matches!(read_answer(AnswerRead::GeminiText, ExtendedOutputFormat::Text, ollama()),
        Err(AnswerError::NoResponse)));
    let tool = || obj(vec![(
        "content",
        JsonValue::Array(vec![obj(vec![("input", obj(vec![("result", JsonValue::Bool(false))]))])]),
    )]);
    assert!(matches!(read_answer(AnswerRead::AnthropicBool, ExtendedOutputFormat::Bool, tool()), Ok(ReadAnswer::Bool(false))));
    assert!(matches!(read_answer(AnswerRead::AnthropicObject, ExtendedOutputFormat::JSON, tool()), Ok(ReadAnswer::Object(_))));
    assert!(matches!(read_answer(AnswerRead::AnthropicText, ExtendedOutputFormat::Text, tool()),
        Err(AnswerError::NoResponse)));
}

#[test]
fn replies_are_parsed_then_read() {
    let body = r#"{"content":[{"input":{"result":true,"why":"ok"}}]}"#;
    match read_reply(AnswerRead::AnthropicObject, ExtendedOutputFormat::JSON, body) {
        Ok(ReadAnswer::Object(o)) => assert_eq!(render(&o), r#"{"result":true,"why":"ok"}"#),
        _ => panic!("an object was expected"),
    }
    assert!(matches!(read_reply(AnswerRead::AnthropicBool, ExtendedOutputFormat::Bool, body), Ok(ReadAnswer::Bool(true))));
    let body = r#"{"candidates":[{"content":{"parts":[{"text":"hello"}]}}]}"#;
    assert!(matches!(read_reply(AnswerRead::GeminiText, ExtendedOutputFormat::Text, body),
        Ok(ReadAnswer::Text(t)) if t == "hello"));
    assert!(matches!(read_reply(AnswerRead::GeminiText, ExtendedOutputFormat::Text, "{\"candidates\": [}"),
        Err(AnswerError::NotJson)));
    assert!(matches!(read_reply(AnswerRead::OllamaText, ExtendedOutputFormat::Text, "{} x"),
        Err(AnswerError::NotJson)));
}
