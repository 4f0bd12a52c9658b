use genvm::common::ModuleError;
use genvm::interfaces::Image;
use genvm::llm::{
    anthropic_answer, answer_is_bool, chat_completion_answer, charge_gas, check_answer, check_prompt_images,
    eq_principle_template, exec_prompt_id_template, filter_backends, finish_answer, gemini_answer, image_data_url,
    json_answer_is_bool, ollama_answer, response_format_or_text, sanitize_json_str, simulator_answer, trim,
    AnswerError, BackendConfig, EqTemplates, ImageLua, ImageType, JsonValue, ModelConfig, Provider, ProviderImpl,
    ResponseFormat, TemplateId,
};
use genvm::str_map::StrMap;

const PNG: [u8; 9] = [0x89, 0x50, 0x4E, 0x47, 0x0D, 0x0A, 0x1A, 0x0A, 1];
const JPG: [u8; 5] = [0xFF, 0xD8, 0xFF, 0xE0, 0];

fn obj(members: Vec<(&str, JsonValue)>) -> JsonValue {
    JsonValue::Object(members.into_iter().map(|(k, v)| (k.to_string(), v)).collect())
}

fn s(t: &str) -> JsonValue {
    JsonValue::Str(t.to_string())
}

#[test]
fn image_kinds() {
    assert_eq!(ImageType::sniff(&PNG), Some(ImageType::PNG));
    assert_eq!(ImageType::sniff(&JPG), Some(ImageType::JPG));
    assert_eq!(ImageType::sniff(&[0x89, 0x50]), None);
    assert_eq!(ImageType::PNG.media_type(), "image/png");
    assert_eq!(ImageType::JPG.media_type(), "image/jpeg");
    assert!(matches!(ImageLua(PNG.to_vec()).kind_or_error(), Ok(ImageType::PNG)));
    match ImageLua(vec![1, 2, 3]).kind_or_error() {
        Err(ModuleError { causes, fatal, .. }) => {
            assert_eq!(causes, vec!["INVALID_IMAGE".to_string()]);
            assert!(fatal);
        }
        Ok(_) => panic!("unknown image accepted"),
    }
    assert!(check_prompt_images(&vec![Image(PNG.to_vec()), Image(JPG.to_vec())]).is_ok());
    match check_prompt_images(&vec![Image(PNG.to_vec()), Image(vec![0])]) {
        Err(e) => assert!(!e.fatal),
        Ok(_) => panic!("bad image accepted"),
    }
}

#[test]
fn base64_and_data_urls() {
    assert_eq!(ImageLua(b"Man".to_vec()).as_base64(), "TWFu");
    assert_eq!(ImageLua(b"Ma".to_vec()).as_base64(), "TWE=");
    assert_eq!(ImageLua(b"M".to_vec()).as_base64(), "TQ==");
    assert_eq!(ImageLua(vec![0xfb, 0xff]).as_base64(), "+/8=");
    assert_eq!(image_data_url(&ImageLua(JPG.to_vec())).ok().unwrap(), "data:image/jpeg;base64,/9j/4AA=");
}

#[test]
fn answers_of_services() {
    let chat = obj(vec![
        ("choices", JsonValue::Array(vec![obj(vec![("message", obj(vec![("content", s("hi"))]))])])),
        ("usage", obj(vec![("total_tokens", JsonValue::Number(Some(12)))])),
    ]);
    assert_eq!(chat_completion_answer(&chat), Ok(("hi".to_string(), 12)));
    let no_usage = obj(vec![(
        "choices",
        JsonValue::Array(vec![obj(vec![("message", obj(vec![("content", s("hi"))]))])]),
    )]);
    assert_eq!(chat_completion_answer(&no_usage), Err(AnswerError::NoUsage));
    assert_eq!(chat_completion_answer(&obj(vec![])), Err(AnswerError::NoResponse));
    let ollama = obj(vec![("response", s("r")), ("eval_duration", JsonValue::Number(Some(5)))]);
    assert_eq!(ollama_answer(&ollama), Ok(("r".to_string(), 5)));
    let sim = obj(vec![("result", obj(vec![("response", s("x"))]))]);
    assert_eq!(simulator_answer(&sim), Ok("x".to_string()));
    let gem = obj(vec![(
        "candidates",
        JsonValue::Array(vec![obj(vec![(
            "content",
            obj(vec![("parts", JsonValue::Array(vec![obj(vec![("text", s("g"))])]))]),
        )])]),
    )]);
    assert_eq!(gemini_answer(&gem), Ok("g".to_string()));
    let anth = obj(vec![("content", JsonValue::Array(vec![obj(vec![("text", s("a"))])]))]);
    assert_eq!(anthropic_answer(&anth), Ok("a".to_string()));
    assert_eq!(json_answer_is_bool(&obj(vec![("result", JsonValue::Bool(true))])), Ok(true));
    assert_eq!(json_answer_is_bool(&obj(vec![("result", s("true"))])), Err(AnswerError::NotABool));
}

#[test]
fn gas_is_charged_without_underflow() {
    let mut gas = 10_000u64;
    charge_gas(&mut gas, 3, 8);
    assert_eq!(gas, 10_000 - 768);
    charge_gas(&mut gas, 1_000_000, 4);
    assert_eq!(gas, 0);
    let mut g2 = 5u64;
    charge_gas(&mut g2, u64::MAX, 8);
    assert_eq!(g2, 5 - 5u64.min(u64::MAX << 8));
}

#[test]
fn bool_answers() {
    assert_eq!(answer_is_bool("The answer is TRUE.".into()), Ok(true));
    assert_eq!(answer_is_bool("false".into()), Ok(false));
    assert_eq!(answer_is_bool("true or false".into()), Err(AnswerError::NotABool));
    assert_eq!(answer_is_bool("maybe".into()), Err(AnswerError::NotABool));
}

#[test]
fn json_fences_are_removed() {
    assert_eq!(sanitize_json_str("  ```json\n{\"a\": 1}\n```  "), "{\"a\": 1}");
    assert_eq!(sanitize_json_str("```\n[1]\n```"), "[1]");
    assert_eq!(sanitize_json_str(" {} "), "{}");
    assert_eq!(trim("\u{3000} x \t"), "x");
    assert_eq!(trim("   "), "");
    assert_eq!(finish_answer(ResponseFormat::Json, " ```json {} ``` ".into()), "{}");
    assert_eq!(finish_answer(ResponseFormat::Text, " t ".into()), " t ");
    assert_eq!(response_format_or_text(None), ResponseFormat::Text);
}

#[test]
fn templates() {
    let t = EqTemplates { comparative: "c".into(), non_comparative: "n".into(), non_comparative_leader: "l".into() };
    assert_eq!(eq_principle_template(&t, TemplateId::Comparative).map(|s| s.as_str()), Some("c"));
    assert_eq!(eq_principle_template(&t, TemplateId::NonComparative).map(|s| s.as_str()), Some("n"));
    assert!(eq_principle_template(&t, TemplateId::NonComparativeLeader).is_none());
    assert_eq!(exec_prompt_id_template(&t, TemplateId::NonComparativeLeader).map(|s| s.as_str()), Some("l"));
    assert!(exec_prompt_id_template(&t, TemplateId::Comparative).is_none());
}

fn model(enabled: bool) -> ModelConfig {
    ModelConfig { enabled, supports_json: false, supports_image: false, use_max_completion_tokens: false, meta: "null".into() }
}

fn backend(enabled: bool, key: &str, models: Vec<(&str, bool)>) -> BackendConfig {
    let mut m = StrMap::new();
    for (name, on) in models {
        m.insert(name.to_string(), model(on));
    }
    BackendConfig { enabled, host: "h".into(), provider: Provider::Ollama, key: key.into(), models: m }
}

#[test]
fn backends_are_filtered() {
    let all = vec![
        ("a".to_string(), backend(true, "k", vec![("m1", true), ("m2", false)])),
        ("b".to_string(), backend(true, "", vec![("m", true)])),
        ("c".to_string(), backend(true, "k", vec![("m", false)])),
        ("d".to_string(), backend(false, "k", vec![("m", true)])),
    ];
    let left = filter_backends(all, false).ok().unwrap();
    assert_eq!(left.len(), 1);
    assert_eq!(left[0].0, "a");
    assert_eq!(left[0].1.models.len(), 1);
    assert!(left[0].1.models.get("m2").is_none());
    assert!(filter_backends(vec![], false).is_err());
    assert_eq!(filter_backends(vec![], true).ok().map(|v| v.len()), Some(0));
    assert!(matches!(backend(true, "k", vec![]).to_provider(), ProviderImpl::OLlama(_)));
}

#[test]
fn start_up_answer() {
    assert_eq!(check_answer("  OK\n"), (true, "ok".to_string()));
    assert_eq!(check_answer("okay"), (false, "okay".to_string()));
}
