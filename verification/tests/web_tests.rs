use genvm::common::GenericValue;
use genvm::interfaces::HeaderData;
use genvm::llm::JsonValue;
use genvm::str_map::StrMap;
use genvm::web::{lua_compatible_response, sent_response, session_url, webdriver_ready, webdriver_session_id};

fn obj(members: Vec<(&str, JsonValue)>) -> JsonValue {
    JsonValue::Object(members.into_iter().map(|(k, v)| (k.to_string(), v)).collect())
}

fn headers() -> StrMap<HeaderData> {
    let mut h = StrMap::new();
    h.insert("content-type".into(), HeaderData(b"text/html".to_vec()));
    h
}

#[test]
fn webdriver_answers() {
    assert!(webdriver_ready(&obj(vec![("value", obj(vec![("ready", JsonValue::Bool(true))]))])));
    assert!(!webdriver_ready(&obj(vec![("value", obj(vec![("ready", JsonValue::Bool(false))]))])));
    assert!(!webdriver_ready(&obj(vec![])));
    let opened = obj(vec![("value", obj(vec![("sessionId", JsonValue::Str("s1".into()))]))]);
    assert_eq!(webdriver_session_id(&opened), Some("s1".to_string()));
    assert_eq!(webdriver_session_id(&obj(vec![])), None);
    assert_eq!(session_url("http://wd", None), "http://wd/session");
    assert_eq!(session_url("http://wd", Some("s1")), "http://wd/session/s1");
}

#[test]
fn responses_for_scripts() {
    let ok = lua_compatible_response("http://a", 404, headers(), Ok(b"nf".to_vec()), false).ok().unwrap();
    assert_eq!(ok.status, 404);
    assert_eq!(ok.body, b"nf".to_vec());
    assert!(ok.headers.get("content-type").is_some());

    match lua_compatible_response("http://a", 404, headers(), Ok(b"nf".to_vec()), true) {
        Err(e) => {
            assert_eq!(e.causes, vec!["STATUS_NOT_OK".to_string()]);
            assert!(e.fatal);
            let keys: Vec<&str> = e.ctx.iter().map(|(k, _)| k.as_str()).collect();
            assert_eq!(keys, vec!["body", "headers", "status", "url"]);
            assert!(matches!(e.ctx[2].1, GenericValue::Number(404)));
        }
        Ok(_) => panic!("status not checked"),
    }
    match lua_compatible_response("http://a", 200, headers(), Err("reset".into()), false) {
        Err(e) => {
            assert_eq!(e.causes, vec!["READING_BODY".to_string()]);
            assert_eq!(e.ctx[1].1.as_str(), Some("reset"));
        }
        Ok(_) => panic!("body error lost"),
    }
}

#[test]
fn failed_send_is_a_fatal_sending_error() {
    match sent_response("http://a", Err("connection refused".into()), true) {
        Err(e) => {
            assert_eq!(e.causes, vec!["SENDING_REQUEST".to_string()]);
            assert!(e.fatal);
            assert_eq!(e.ctx.len(), 1);
            assert_eq!(e.ctx[0].0, "rust_error");
            assert_eq!(e.ctx[0].1.as_str(), Some("connection refused"));
        }
        Ok(_) => panic!("send failure lost"),
    }
    let ok = sent_response("http://a", Ok((200, headers(), Ok(b"hi".to_vec()))), true).ok().unwrap();
    assert_eq!(ok.body, b"hi".to_vec());
}
