use genvm::common::{
    censor_debug, censor_str, connection_step, cookie_or_absent, env_var_key, map_user_error, reply_of, user_error_value,
    ConnectionStep, ErrorKind, ErrorSource, GenericValue, IncomingKind, ModuleError, Reply,
};

#[test]
fn error_kind_names() {
    assert_eq!(ErrorKind::STATUS_NOT_OK.to_string(), "STATUS_NOT_OK");
    assert_eq!(ErrorKind::OVERLOADED.to_string(), "OVERLOADED");
    assert_eq!(ErrorKind::Other("custom".into()).into_string(), "custom");
    assert_eq!(ErrorKind::READING_BODY.into_string(), "READING_BODY");
}

#[test]
fn user_errors_wrap_causes() {
    let inner = ModuleError { causes: vec!["inner".into()], fatal: false, ctx: vec![] };
    match map_user_error::<u8>(Err(ErrorSource::Module(inner)), "outer".into(), true) {
        Err(e) => {
            assert_eq!(e.causes, vec!["outer".to_string(), "inner".to_string()]);
            assert!(e.fatal);
        }
        Ok(_) => panic!("error lost"),
    }
    match map_user_error::<u8>(Err(ErrorSource::Other("io failed".into())), "READING".into(), false) {
        Err(e) => {
            assert_eq!(e.causes, vec!["READING".to_string()]);
            assert!(!e.fatal);
            assert_eq!(e.ctx[0].0, "rust_error");
            assert_eq!(e.ctx[0].1.as_str(), Some("io failed"));
        }
        Ok(_) => panic!("error lost"),
    }
    assert!(matches!(map_user_error(Ok::<u8, ErrorSource>(4), "m".into(), true), Ok(4)));
}

#[test]
fn replies() {
    let e = ModuleError { causes: vec!["a".into(), "b".into()], fatal: false, ctx: vec![] };
    match user_error_value(e) {
        GenericValue::Dict(d) => {
            assert_eq!(d[0].0, "causes");
            assert_eq!(d[1].0, "ctx");
            match &d[0].1 {
                GenericValue::Array(a) => {
                    assert_eq!(a.len(), 2);
                    assert_eq!(a[1].as_str(), Some("b"));
                }
                _ => panic!("causes not an array"),
            }
        }
        _ => panic!("not a dict"),
    }
    let fatal = ModuleError { causes: vec![], fatal: true, ctx: vec![] };
    assert!(matches!(reply_of::<u8>(Err(ErrorSource::Module(fatal)), "text".into()), Reply::FatalError(t) if t == "text"));
    assert!(matches!(reply_of::<u8>(Err(ErrorSource::Other("o".into())), "t2".into()), Reply::FatalError(t) if t == "t2"));
    assert!(matches!(reply_of(Ok::<u8, ErrorSource>(1), "".into()), Reply::Answer(1)));
}

#[test]
fn censoring_hides_secret_headers() {
    let debug = r#"Response { headers: {"Content-Type": "text", "Authorization": "Bearer SECRET-REDACTED", "x-api-key": "k1", "CF-Ray": "r"} }"#;
    let out = censor_str(debug);
    assert!(out.contains(r#""authorization": "<censored>""#));
    assert!(out.contains(r#""key": "<censored>""#));
    assert!(out.contains(r#""cf-ray": "<censored>""#));
    assert!(out.contains(r#""content-type": "text""#));
    assert!(!out.contains("k1"));
}

#[test]
fn small_helpers() {
    assert_eq!(cookie_or_absent(None), "<absent>");
    assert_eq!(cookie_or_absent(Some("c".into())), "c");
    assert_eq!(env_var_key("HOME"), "ENV[HOME]");
    assert_eq!(connection_step(IncomingKind::Ping), ConnectionStep::Pong);
    assert_eq!(connection_step(IncomingKind::Close), ConnectionStep::Stop);
    assert_eq!(connection_step(IncomingKind::Data), ConnectionStep::Handle);
    assert_eq!(connection_step(IncomingKind::Pong), ConnectionStep::Ignore);
}

fn regex_censor(debug: &str) -> String {
    let debug = debug.to_lowercase();
    let re = regex::Regex::new(r#""[^"]*(authorization|key|set-cookie|cf-ray|access-control)[^"]*": "[^"]*""#).unwrap();
    re.replace_all(&debug, |caps: &regex::Captures| format!(r#""{}": "<censored>""#, &caps[1])).into_owned()
}

#[test]
fn censoring_matches_the_header_pattern() {
    let cases = [
        r#"{"x-api-key": "abc", "other": "v", "my-KEY-authorization-x": "zz"}"#,
        r#"headers: {"set-cookie": "a=b", "cf-ray": "1", "access-control-allow": "*"}"#,
        r#""key": "unterminated"#,
        r#""key":"no space" "key": "" "" "x": "key""#,
        r#"""key": "v"": "w""#,
        "plain text, no pairs",
        r#"{"Authorization": "Bearer ü", "keykey": "x"}"#,
    ];
    for c in cases {
        assert_eq!(censor_str(c), regex_censor(c), "input {c}");
    }
    assert_eq!(
        censor_str(r#"{"x-api-key": "abc", "other": "v", "my-key-authorization-x": "zz"}"#),
        r#"{"key": "<censored>", "other": "v", "authorization": "<censored>"}"#
    );
}

#[test]
fn censor_debug_hides_secrets_of_debug_text() {
    let out = censor_debug(&std::collections::BTreeMap::from([("X-Api-Key", "secret"), ("a", "b")]));
    assert_eq!(out, r#"{"key": "<censored>", "a": "b"}"#);
}
