use vstd::prelude::*;

use crate::llm::{
    charge_gas, chat_completion_answer, jfield, json_from_str, json_parse, jstr, ju64,
    ollama_answer, simulator_answer,
    spec_chat_content, spec_chat_tokens, AnswerError, JsonValue, ResponseFormat,
};
use crate::llm_request::{
    arr1, at, concat2, elements, has_keys, header, headers_are, is_array_of, is_str,
    is_str_array, is_str_object, is_text_message, js, member, obj1, obj2, str_array, PostRequest,
};

verus! {

/// The bits of the `f64` nearest to 0.7, the sampling temperature of the prompt modules of
/// fixed configuration.
pub const TEMPERATURE_0_7_F64_BITS: u64 = 0x3FE6_6666_6666_6666;

/// The services that the default prompt module talks to.
#[derive(Clone, Copy, PartialEq, Eq, Debug, Structural)]
pub enum LLLMProvider {
    Atoma,
    Ollama,
    Openai,
    Simulator,
}

/// The configuration of the default prompt module.
pub struct Config {
    pub host: String,
    pub provider: LLLMProvider,
    pub model: String,
}

/// A chat completion body that sends `prompt` as the one user message, with at most 1000
/// tokens under `tokens_key`, no streaming, temperature 0.7, and, when `json` asks for one,
/// the response format of a JSON object.
pub open spec fn is_chat_body(
    v: JsonValue,
    model: Seq<char>,
    prompt: Seq<char>,
    tokens_key: Seq<char>,
    json: bool,
) -> bool {
    &&& has_keys(
        v,
        if json {
            seq!["model"@, "messages"@, tokens_key, "stream"@, "temperature"@, "response_format"@]
        } else {
            seq!["model"@, "messages"@, tokens_key, "stream"@, "temperature"@]
        },
    )
    &&& is_str(at(v, 0), model)
    &&& is_array_of(at(v, 1), 1)
    &&& is_text_message(elements(at(v, 1))[0], "user"@, prompt)
    &&& at(v, 2) == JsonValue::Number(Some(1000))
    &&& at(v, 3) == JsonValue::Bool(false)
    &&& at(v, 4) == JsonValue::Float64(TEMPERATURE_0_7_F64_BITS)
    &&& (json ==> is_str_object(at(v, 5), "type"@, "json_object"@))
}

/// An Ollama `generate` body: the model, the prompt, no streaming, and the format `json` when
/// `json` asks for it.
pub open spec fn is_plain_ollama_body(v: JsonValue, model: Seq<char>, prompt: Seq<char>, json: bool) -> bool {
    &&& has_keys(
        v,
        if json {
            seq!["model"@, "prompt"@, "stream"@, "format"@]
        } else {
            seq!["model"@, "prompt"@, "stream"@]
        },
    )
    &&& is_str(at(v, 0), model)
    &&& is_str(at(v, 1), prompt)
    &&& at(v, 2) == JsonValue::Bool(false)
    &&& (json ==> is_str(at(v, 3), "json"@))
}

/// The answer format as the simulator is told it: the format's name as a JSON string, quotes
/// included.
pub open spec fn format_json_text(format: ResponseFormat) -> Seq<char> {
    match format {
        ResponseFormat::Text => "\"text\""@,
        ResponseFormat::Json => "\"json\""@,
    }
}

/// A JSON-RPC call of the simulator's `llm_genvm_module_call` with the model, the prompt and
/// the answer format, id 1.
pub open spec fn is_simulator_body(
    v: JsonValue,
    model: Seq<char>,
    prompt: Seq<char>,
    format: ResponseFormat,
) -> bool {
    &&& has_keys(v, seq!["jsonrpc"@, "method"@, "params"@, "id"@])
    &&& is_str(at(v, 0), "2.0"@)
    &&& is_str(at(v, 1), "llm_genvm_module_call"@)
    &&& is_str_array(at(v, 2), seq![model, prompt, format_json_text(format)])
    &&& at(v, 3) == JsonValue::Number(Some(1))
}

pub(crate) fn chat_body(model: &str, prompt: &str, tokens_key: &str, json: bool) -> (r: JsonValue)
    ensures
        is_chat_body(r, model@, prompt@, tokens_key@, json),
{
    let mut m: Vec<(String, JsonValue)> = Vec::new();
    m.push(member("model", js(model)));
    m.push(member("messages", arr1(obj2("role", js("user"), "content", js(prompt)))));
    m.push(member(tokens_key, JsonValue::Number(Some(1000))));
    m.push(member("stream", JsonValue::Bool(false)));
    m.push(member("temperature", JsonValue::Float64(TEMPERATURE_0_7_F64_BITS)));
    if json {
        m.push(member("response_format", obj1("type", js("json_object"))));
    }
    JsonValue::Object(m)
}

pub(crate) fn plain_ollama_body(model: &str, prompt: &str, json: bool) -> (r: JsonValue)
    ensures
        is_plain_ollama_body(r, model@, prompt@, json),
{
    let mut m: Vec<(String, JsonValue)> = Vec::new();
    m.push(member("model", js(model)));
    m.push(member("prompt", js(prompt)));
    m.push(member("stream", JsonValue::Bool(false)));
    if json {
        m.push(member("format", js("json")));
    }
    JsonValue::Object(m)
}

pub(crate) fn simulator_body(model: &str, prompt: &str, format: ResponseFormat) -> (r: JsonValue)
    ensures
        is_simulator_body(r, model@, prompt@, format),
{
    let name = match format {
        ResponseFormat::Text => "\"text\"",
        ResponseFormat::Json => "\"json\"",
    };
    let params: [&str; 3] = [model, prompt, name];
    let params = str_array(&params);
    let mut m: Vec<(String, JsonValue)> = Vec::new();
    m.push(member("jsonrpc", js("2.0")));
    m.push(member("method", js("llm_genvm_module_call")));
    m.push(member("params", params));
    m.push(member("id", JsonValue::Number(Some(1))));
    JsonValue::Object(m)
}

/// The request that runs `prompt` for an answer in `format` in the service of `conf`: Atoma
/// and OpenAI take a chat completion with the key of each (OpenAI counts the answer's length as
/// `max_completion_tokens`), Ollama a `generate` call, and the simulator a JSON-RPC call at
/// `/api`.
pub fn exec_prompt_request(
    conf: &Config,
    openai_key: &str,
    atoma_key: &str,
    prompt: &str,
    format: ResponseFormat,
) -> (r: PostRequest)
    ensures
        match conf.provider {
            LLLMProvider::Atoma => {
                &&& r.url@ == conf.host@ + "/v1/chat/completions"@
                &&& headers_are(
                    r.headers@,
                    seq![
                        ("Content-Type"@, "application/json"@),
                        ("Authorization"@, "Bearer "@ + atoma_key@),
                    ],
                )
                &&& is_chat_body(r.body, conf.model@, prompt@, "max_tokens"@, format == ResponseFormat::Json)
            },
            LLLMProvider::Openai => {
                &&& r.url@ == conf.host@ + "/v1/chat/completions"@
                &&& headers_are(
                    r.headers@,
                    seq![
                        ("Content-Type"@, "application/json"@),
                        ("Authorization"@, "Bearer "@ + openai_key@),
                    ],
                )
                &&& is_chat_body(
                    r.body,
                    conf.model@,
                    prompt@,
                    "max_completion_tokens"@,
                    format == ResponseFormat::Json,
                )
            },
            LLLMProvider::Ollama => {
                &&& r.url@ == conf.host@ + "/api/generate"@
                &&& r.headers@.len() == 0
                &&& is_plain_ollama_body(r.body, conf.model@, prompt@, format == ResponseFormat::Json)
            },
            LLLMProvider::Simulator => {
                &&& r.url@ == conf.host@ + "/api"@
                &&& headers_are(r.headers@, seq![("Content-Type"@, "application/json"@)])
                &&& is_simulator_body(r.body, conf.model@, prompt@, format)
            },
        },
{
    let json = match format {
        ResponseFormat::Text => false,
        ResponseFormat::Json => true,
    };
    let host = conf.host.as_str();
    let model = conf.model.as_str();
    match conf.provider {
        LLLMProvider::Atoma | LLLMProvider::Openai => {
            let (key, tokens_key) = match conf.provider {
                LLLMProvider::Atoma => (atoma_key, "max_tokens"),
                _ => (openai_key, "max_completion_tokens"),
            };
            let mut headers: Vec<(String, String)> = Vec::new();
            headers.push(header("Content-Type", String::from_str("application/json")));
            headers.push(header("Authorization", concat2("Bearer ", key)));
            PostRequest {
                url: concat2(host, "/v1/chat/completions"),
                headers,
                body: chat_body(model, prompt, tokens_key, json),
            }
        },
        LLLMProvider::Ollama => PostRequest {
            url: concat2(host, "/api/generate"),
            headers: Vec::new(),
            body: plain_ollama_body(model, prompt, json),
        },
        LLLMProvider::Simulator => {
            let mut headers: Vec<(String, String)> = Vec::new();
            headers.push(header("Content-Type", String::from_str("application/json")));
            PostRequest {
                url: concat2(host, "/api"),
                headers,
                body: simulator_body(model, prompt, format),
            }
        },
    }
}

/// `gas` after an answer that cost `units`, shifted left by `shift` bits: less by that, but
/// never below zero.
pub open spec fn gas_after(gas: u64, units: u64, shift: u64) -> u64 {
    (gas - if (units << shift) < gas {
        units << shift
    } else {
        gas
    }) as u64
}

/// `r` is the answer of the service `provider` in its response `v`, and `g1` what is left of
/// the gas `g0` after it: Atoma and OpenAI cost their total tokens shifted left by 8 bits, Ollama
/// its evaluation time shifted left by 4 bits, the simulator nothing. A response without the
/// answer, or without its cost, is refused and costs nothing.
pub open spec fn is_prompt_answer(
    provider: LLLMProvider,
    v: JsonValue,
    g0: u64,
    g1: u64,
    r: Result<String, AnswerError>,
) -> bool {
    match provider {
        LLLMProvider::Atoma | LLLMProvider::Openai => match (spec_chat_content(v), spec_chat_tokens(v)) {
            (Some(c), Some(t)) => r matches Ok(s) && s@ == c && g1 == gas_after(g0, t, 8),
            (Some(_), None) => r matches Err(e) && e == AnswerError::NoUsage && g1 == g0,
            (None, _) => r matches Err(e) && e == AnswerError::NoResponse && g1 == g0,
        },
        LLLMProvider::Ollama => match (
            jstr(jfield(Some(v), "response"@)),
            ju64(jfield(Some(v), "eval_duration"@)),
        ) {
            (Some(c), Some(t)) => r matches Ok(s) && s@ == c && g1 == gas_after(g0, t, 4),
            (Some(_), None) => r matches Err(e) && e == AnswerError::NoUsage && g1 == g0,
            (None, _) => r matches Err(e) && e == AnswerError::NoResponse && g1 == g0,
        },
        LLLMProvider::Simulator => g1 == g0 && match jstr(
            jfield(jfield(Some(v), "result"@), "response"@),
        ) {
            Some(c) => r matches Ok(s) && s@ == c,
            None => r matches Err(e) && e == AnswerError::NoResponse,
        },
    }
}

/// Reads the answer of the service `provider` from its response `v` and takes its cost from
/// `gas`.
pub fn exec_prompt_answer(provider: LLLMProvider, v: &JsonValue, gas: &mut u64) -> (r: Result<
    String,
    AnswerError,
>)
    ensures
        is_prompt_answer(provider, *v, *old(gas), *final(gas), r),
{
    match provider {
        LLLMProvider::Atoma | LLLMProvider::Openai => match chat_completion_answer(v) {
            Ok((text, tokens)) => {
                charge_gas(gas, tokens, 8);
                Ok(text)
            },
            Err(e) => Err(e),
        },
        LLLMProvider::Ollama => match ollama_answer(v) {
            Ok((text, duration)) => {
                charge_gas(gas, duration, 4);
                Ok(text)
            },
            Err(e) => Err(e),
        },
        LLLMProvider::Simulator => simulator_answer(v),
    }
}

/// Reads the answer of the service `provider` from the text `body` of its response and takes
/// its cost from `gas`: the text is parsed as JSON and read as [`exec_prompt_answer`] reads it;
/// a text that is no JSON document is refused and costs nothing.
pub fn exec_prompt_reply(provider: LLLMProvider, body: &str, gas: &mut u64) -> (r: Result<
    String,
    AnswerError,
>)
    ensures
        match json_parse(body@) {
            Some(v) => is_prompt_answer(provider, v, *old(gas), *final(gas), r),
            None => r matches Err(e) && e == AnswerError::NotJson && *final(gas) == *old(gas),
        },
{
    match json_from_str(body) {
        Some(v) => exec_prompt_answer(provider, &v, gas),
        None => Err(AnswerError::NotJson),
    }
}

/// An answer never adds gas: what is left is at most what there was, and it is less by exactly
/// the answer's cost (shifted), down to zero at most, when the cost fits; a refused answer costs
/// nothing.
pub proof fn lemma_answer_gas(provider: LLLMProvider, v: JsonValue, g0: u64, g1: u64, r: Result<String, AnswerError>)
    requires
        is_prompt_answer(provider, v, g0, g1, r),
    ensures
        g1 <= g0,
        r is Err ==> g1 == g0,
        provider == LLLMProvider::Simulator ==> g1 == g0,
        (provider == LLLMProvider::Atoma || provider == LLLMProvider::Openai) && r is Ok ==> (spec_chat_tokens(v)
            matches Some(t) && (t << 8u64 < g0 ==> g1 == g0 - (t << 8u64)) && (t << 8u64 >= g0 ==> g1 == 0)),
{
}

} // verus!
