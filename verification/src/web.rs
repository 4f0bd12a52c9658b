use vstd::prelude::*;

use crate::common::{is_str_value, map_user_error, BaseConfig, ErrorKind, ErrorSource, GenericValue, ModuleError};
use crate::interfaces::{HeaderData, Response};
use crate::llm::{jbool, jfield, json_field, jstr, json_str, JsonValue};
use crate::str_map::StrMap;

verus! {

/// The command line of the web service.
pub struct CliArgs {
    pub config: String,
    pub die_with_parent: bool,
}

/// The settings of the web service.
pub struct Config {
    pub bind_address: String,
    pub webdriver_host: String,
    pub session_create_request: String,
    pub lua_script_path: String,
    pub vm_count: usize,
    pub extra_tld: Vec<String>,
    pub always_allow_hosts: Vec<String>,
    pub base: BaseConfig,
}

/// Whether the webdriver's status answer says it is ready: `value.ready` is `true`.
pub fn webdriver_ready(v: &JsonValue) -> (r: bool)
    ensures
        r == (jbool(jfield(jfield(Some(*v), "value"@), "ready"@)) == Some(true)),
{
    proof {
        reveal_strlit("value");
        reveal_strlit("ready");
    }
    match json_field(json_field(Some(v), "value"), "ready") {
        Some(JsonValue::Bool(b)) => *b,
        _ => false,
    }
}

/// The id of the session the webdriver opened: `value.sessionId`.
pub fn webdriver_session_id(v: &JsonValue) -> (r: Option<String>)
    ensures
        match jstr(jfield(jfield(Some(*v), "value"@), "sessionId"@)) {
            Some(s) => r matches Some(t) && t@ == s,
            None => r is None,
        },
{
    proof {
        reveal_strlit("value");
        reveal_strlit("sessionId");
    }
    match json_str(json_field(json_field(Some(v), "value"), "sessionId")) {
        Some(s) => Some(String::from_str(s)),
        None => None,
    }
}

/// Where a session of the webdriver at `host` is opened (`session` is `None`) or closed.
pub fn session_url(host: &str, session: Option<&str>) -> (r: String)
    ensures
        r@ == match session {
            None => host@ + "/session"@,
            Some(id) => host@ + "/session/"@ + id@,
        },
{
    proof {
        reveal_strlit("/session");
        reveal_strlit("/session/");
        reveal_strlit("/");
    }
    let base = String::from_str(host).concat("/session");
    match session {
        None => base,
        Some(id) => base.concat("/").concat(id),
    }
}

/// The headers of a response as a value: each header's bytes under its name, in name order.
pub fn headers_value(headers: &StrMap<HeaderData>) -> (r: GenericValue)
    ensures
        match r {
            GenericValue::Dict(d) => d@.len() == headers.spec_entries().len() && forall|i: int|
                0 <= i < d@.len() ==> (#[trigger] d@[i]).0@ == headers.spec_entries()[i].0@
                    && is_bytes_value(d@[i].1, headers.spec_entries()[i].1.0@),
            _ => false,
        },
{
    let entries = headers.entries();
    let mut d: Vec<(String, GenericValue)> = Vec::new();
    let mut i: usize = 0;
    while i < entries.len()
        invariant
            0 <= i <= entries@.len(),
            entries@ == headers.spec_entries(),
            d@.len() == i,
            forall|j: int|
                0 <= j < i ==> (#[trigger] d@[j]).0@ == entries@[j].0@ && is_bytes_value(
                    d@[j].1,
                    entries@[j].1.0@,
                ),
        decreases entries@.len() - i,
    {
        let name = entries[i].0.clone();
        let bytes = copy_bytes(&entries[i].1.0);
        d.push((name, GenericValue::Bytes(bytes)));
        i = i + 1;
    }
    GenericValue::Dict(d)
}

fn copy_bytes(b: &Vec<u8>) -> (r: Vec<u8>)
    ensures
        r@ == b@,
{
    vstd::slice::slice_to_vec(b.as_slice())
}

/// `v` holds the bytes `b`.
pub open spec fn is_bytes_value(v: GenericValue, b: Seq<u8>) -> bool {
    match v {
        GenericValue::Bytes(x) => x@ == b,
        _ => false,
    }
}

/// `v` is the value of the headers: each header's bytes under its name, in name order.
pub open spec fn is_headers_value(v: GenericValue, headers: StrMap<HeaderData>) -> bool {
    match v {
        GenericValue::Dict(d) => d@.len() == headers.spec_entries().len() && forall|i: int|
            0 <= i < d@.len() ==> (#[trigger] d@[i]).0@ == headers.spec_entries()[i].0@
                && is_bytes_value(d@[i].1, headers.spec_entries()[i].1.0@),
        _ => false,
    }
}

/// `e` is the fatal error of a request to `url` that answered `status` with `headers`: the
/// single cause `kind` and four details in name order: `headers`, `status`, `url` and one more
/// detail `extra` named `extra_name`, which comes first (`body`) or second (`rust_error`).
pub open spec fn is_request_error(
    e: ModuleError,
    kind: Seq<char>,
    extra_name: Seq<char>,
    extra: GenericValue,
    url: Seq<char>,
    status: u16,
    headers: StrMap<HeaderData>,
) -> bool {
    let (x, h) = if extra_name == "body"@ { (0int, 1int) } else { (1int, 0int) };
    &&& e.causes@.len() == 1
    &&& e.causes@[0]@ == kind
    &&& e.fatal
    &&& e.ctx@.len() == 4
    &&& e.ctx@[x].0@ == extra_name && e.ctx@[x].1 == extra
    &&& e.ctx@[h].0@ == "headers"@ && is_headers_value(e.ctx@[h].1, headers)
    &&& e.ctx@[2].0@ == "status"@ && e.ctx@[2].1 == GenericValue::Number(status as i64)
    &&& e.ctx@[3].0@ == "url"@ && is_str_value(e.ctx@[3].1, url)
}

/// What a script sees of the answer to a request to `url`: the answer, unless its body could
/// not be read (`READING_BODY`, with the reader's error text), or `error_on_status` and the
/// status is not 200 (`STATUS_NOT_OK`, with the body).
pub fn lua_compatible_response(
    url: &str,
    status: u16,
    headers: StrMap<HeaderData>,
    body: Result<Vec<u8>, String>,
    error_on_status: bool,
) -> (r: Result<Response, ModuleError>)
    ensures
        match body {
            Err(text) => r matches Err(e) && is_request_error(
                e,
                "READING_BODY"@,
                "rust_error"@,
                GenericValue::Str(text),
                url@,
                status,
                headers,
            ),
            Ok(b) => if error_on_status && status != 200 {
                r matches Err(e) && is_request_error(
                    e,
                    "STATUS_NOT_OK"@,
                    "body"@,
                    GenericValue::Bytes(b),
                    url@,
                    status,
                    headers,
                )
            } else {
                r matches Ok(resp) && resp.status == status && resp.body == b
                    && resp.headers@ == headers@
            },
        },
{
    proof {
        reveal_strlit("url");
        reveal_strlit("status");
        reveal_strlit("headers");
        reveal_strlit("body");
        reveal_strlit("rust_error");
    }
    let hv = headers_value(&headers);
    match body {
        Err(text) => {
            let mut causes: Vec<String> = Vec::new();
            causes.push(ErrorKind::READING_BODY.into_string());
            let ghost t = text;
            let mut ctx: Vec<(String, GenericValue)> = Vec::new();
            ctx.push((String::from_str("headers"), hv));
            ctx.push((String::from_str("rust_error"), GenericValue::Str(text)));
            ctx.push((String::from_str("status"), GenericValue::Number(status as i64)));
            ctx.push((String::from_str("url"), GenericValue::Str(String::from_str(url))));
            let e = ModuleError { causes, fatal: true, ctx };
            assert("rust_error"@ != "body"@) by {
                assert("rust_error"@.len() != "body"@.len());
            }
            assert(is_request_error(e, "READING_BODY"@, "rust_error"@, GenericValue::Str(t), url@, status, headers));
            Err(e)
        },
        Ok(b) => {
            if error_on_status && status != 200 {
                let mut causes: Vec<String> = Vec::new();
                causes.push(ErrorKind::STATUS_NOT_OK.into_string());
                let ghost bb = b;
                let mut ctx: Vec<(String, GenericValue)> = Vec::new();
                ctx.push((String::from_str("body"), GenericValue::Bytes(b)));
                ctx.push((String::from_str("headers"), hv));
                ctx.push((String::from_str("status"), GenericValue::Number(status as i64)));
                ctx.push((String::from_str("url"), GenericValue::Str(String::from_str(url))));
                let e = ModuleError { causes, fatal: true, ctx };
                assert(is_request_error(e, "STATUS_NOT_OK"@, "body"@, GenericValue::Bytes(bb), url@, status, headers));
                Err(e)
            } else {
                Ok(Response { status, headers, body: b })
            }
        },
    }
}

/// What a script sees of a request to `url` once it was sent: a failed send is a fatal
/// `SENDING_REQUEST` error that carries the transport's error text under `rust_error`; an answer
/// (its status, headers and body read) is handed to [`lua_compatible_response`].
pub fn sent_response(
    url: &str,
    sent: Result<(u16, StrMap<HeaderData>, Result<Vec<u8>, String>), String>,
    error_on_status: bool,
) -> (r: Result<Response, ModuleError>)
    ensures
        match sent {
            Err(text) => r matches Err(e) && e.causes@.len() == 1 && e.causes@[0]@
                == "SENDING_REQUEST"@ && e.fatal && e.ctx@.len() == 1 && e.ctx@[0].0@
                == "rust_error"@ && is_str_value(e.ctx@[0].1, text@),
            Ok((status, headers, body)) => match body {
                Err(text) => r matches Err(e) && is_request_error(
                    e,
                    "READING_BODY"@,
                    "rust_error"@,
                    GenericValue::Str(text),
                    url@,
                    status,
                    headers,
                ),
                Ok(b) => if error_on_status && status != 200 {
                    r matches Err(e) && is_request_error(
                        e,
                        "STATUS_NOT_OK"@,
                        "body"@,
                        GenericValue::Bytes(b),
                        url@,
                        status,
                        headers,
                    )
                } else {
                    r matches Ok(resp) && resp.status == status && resp.body == b
                        && resp.headers@ == headers@
                },
            },
        },
{
    match sent {
        Err(text) => {
            let kind = ErrorKind::SENDING_REQUEST.into_string();
            proof {
                reveal_strlit("SENDING_REQUEST");
            }
            match map_user_error::<()>(Err(ErrorSource::Other(text)), kind, true) {
                Err(e) => Err(e),
                Ok(_) => unreached(),
            }
        },
        Ok((status, headers, body)) => lua_compatible_response(url, status, headers, body, error_on_status),
    }
}

} // verus!
