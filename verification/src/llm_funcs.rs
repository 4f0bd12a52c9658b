use vstd::prelude::*;

use crate::llm::{
    anthropic_answer, chat_completion_answer, gemini_answer, jfield, jindex, json_from_str,
    json_parse, json_take_field, json_take_index, jstr, ollama_text_answer, sanitize_json_str, simulator_answer, spec_chat_content, spec_chat_tokens,
    spec_sanitize_json, AnswerError, JsonValue, ResponseFormat,
};
use crate::llm_default::{
    chat_body, is_chat_body, is_plain_ollama_body, is_simulator_body, plain_ollama_body,
    simulator_body, TEMPERATURE_0_7_F64_BITS,
};
use crate::llm_request::{
    arr1, at, concat2, elements, has_keys, header, headers_are, is_array_of, is_json_out_choice,
    is_str, is_str_object, js, json_out_choice, member, obj1, obj2, obj3, PostRequest,
};

verus! {

/// The services that the prompt module of fixed configuration talks to.
#[derive(Clone, Copy, PartialEq, Eq, Debug, Structural)]
pub enum LLLMProvider {
    Ollama,
    OpenaiCompatible,
    Simulator,
    Anthropic,
    Google,
}

/// The service, model and key of the prompt module of fixed configuration.
pub struct Config {
    pub host: String,
    pub provider: LLLMProvider,
    pub model: String,
}

/// The tool `json_out`, "Output a valid json object", whose input is any object.
pub open spec fn is_object_tool(v: JsonValue) -> bool {
    let tool = elements(v)[0];
    &&& is_array_of(v, 1)
    &&& has_keys(tool, seq!["name"@, "description"@, "input_schema"@])
    &&& is_str(at(tool, 0), "json_out"@)
    &&& is_str(at(tool, 1), "Output a valid json object"@)
    &&& is_str_object(at(tool, 2), "type"@, "object"@)
}

/// An Anthropic `messages` body: the chat body with at most 1000 tokens and no response
/// format, followed, when `json` asks for an object, by the tool `json_out` forced as the tool to
/// use.
pub open spec fn is_anthropic_funcs_body(v: JsonValue, model: Seq<char>, prompt: Seq<char>, json: bool) -> bool {
    &&& has_keys(
        v,
        if json {
            seq!["model"@, "messages"@, "max_tokens"@, "stream"@, "temperature"@, "tools"@, "tool_choice"@]
        } else {
            seq!["model"@, "messages"@, "max_tokens"@, "stream"@, "temperature"@]
        },
    )
    &&& is_str(at(v, 0), model)
    &&& is_array_of(at(v, 1), 1)
    &&& crate::llm_request::is_text_message(elements(at(v, 1))[0], "user"@, prompt)
    &&& at(v, 2) == JsonValue::Number(Some(1000))
    &&& at(v, 3) == JsonValue::Bool(false)
    &&& at(v, 4) == JsonValue::Float64(TEMPERATURE_0_7_F64_BITS)
    &&& (json ==> is_object_tool(at(v, 5)) && is_json_out_choice(at(v, 6)))
}

/// A Gemini `generateContent` body: the prompt as the one part of the contents, then the
/// generation settings: the answer's media type, temperature 0.7 and at most 800 tokens.
pub open spec fn is_gemini_funcs_body(v: JsonValue, prompt: Seq<char>, json: bool) -> bool {
    let contents = at(v, 0);
    let parts = at(elements(contents)[0], 0);
    let cfg = at(v, 1);
    &&& has_keys(v, seq!["contents"@, "generationConfig"@])
    &&& is_array_of(contents, 1)
    &&& has_keys(elements(contents)[0], seq!["parts"@])
    &&& is_array_of(parts, 1)
    &&& is_str_object(elements(parts)[0], "text"@, prompt)
    &&& has_keys(cfg, seq!["responseMimeType"@, "temperature"@, "maxOutputTokens"@])
    &&& is_str(at(cfg, 0), if json { "application/json"@ } else { "text/plain"@ })
    &&& at(cfg, 1) == JsonValue::Float64(TEMPERATURE_0_7_F64_BITS)
    &&& at(cfg, 2) == JsonValue::Number(Some(800))
}

/// The request that runs `prompt` for an answer in `format` in the service of `conf` with key
/// `api_key`.
pub open spec fn is_funcs_request(
    r: PostRequest,
    conf: Config,
    api_key: Seq<char>,
    prompt: Seq<char>,
    format: ResponseFormat,
) -> bool {
    let json = format == ResponseFormat::Json;
    match conf.provider {
        LLLMProvider::Anthropic => {
            &&& r.url@ == conf.host@ + "/v1/messages"@
            &&& headers_are(
                r.headers@,
                seq![
                    ("Content-Type"@, "application/json"@),
                    ("x-api-key"@, api_key),
                    ("anthropic-version"@, "2023-06-01"@),
                ],
            )
            &&& is_anthropic_funcs_body(r.body, conf.model@, prompt, json)
        },
        LLLMProvider::OpenaiCompatible => {
            &&& r.url@ == conf.host@ + "/v1/chat/completions"@
            &&& headers_are(
                r.headers@,
                seq![("Content-Type"@, "application/json"@), ("Authorization"@, "Bearer "@ + api_key)],
            )
            &&& is_chat_body(r.body, conf.model@, prompt, "max_tokens"@, json)
        },
        LLLMProvider::Google => {
            &&& r.url@ == conf.host@ + "/v1beta/models/"@ + conf.model@ + ":generateContent?key="@
                + api_key
            &&& headers_are(r.headers@, seq![("Content-Type"@, "application/json"@)])
            &&& is_gemini_funcs_body(r.body, prompt, json)
        },
        LLLMProvider::Ollama => {
            &&& r.url@ == conf.host@ + "/api/generate"@
            &&& r.headers@.len() == 0
            &&& is_plain_ollama_body(r.body, conf.model@, prompt, json)
        },
        LLLMProvider::Simulator => {
            &&& r.url@ == conf.host@ + "/api"@
            &&& headers_are(r.headers@, seq![("Content-Type"@, "application/json"@)])
            &&& is_simulator_body(r.body, conf.model@, prompt, format)
        },
    }
}

fn object_tool() -> (r: JsonValue)
    ensures
        is_object_tool(r),
{
    arr1(
        obj3(
            "name",
            js("json_out"),
            "description",
            js("Output a valid json object"),
            "input_schema",
            obj1("type", js("object")),
        ),
    )
}

fn anthropic_funcs_body(model: &str, prompt: &str, json: bool) -> (r: JsonValue)
    ensures
        is_anthropic_funcs_body(r, model@, prompt@, json),
{
    let mut m: Vec<(String, JsonValue)> = Vec::new();
    m.push(member("model", js(model)));
    m.push(member("messages", arr1(obj2("role", js("user"), "content", js(prompt)))));
    m.push(member("max_tokens", JsonValue::Number(Some(1000))));
    m.push(member("stream", JsonValue::Bool(false)));
    m.push(member("temperature", JsonValue::Float64(TEMPERATURE_0_7_F64_BITS)));
    if json {
        m.push(member("tools", object_tool()));
        m.push(member("tool_choice", json_out_choice()));
    }
    JsonValue::Object(m)
}

fn gemini_funcs_body(prompt: &str, json: bool) -> (r: JsonValue)
    ensures
        is_gemini_funcs_body(r, prompt@, json),
{
    let mime = if json {
        "application/json"
    } else {
        "text/plain"
    };
    obj2(
        "contents",
        arr1(obj1("parts", arr1(obj1("text", js(prompt))))),
        "generationConfig",
        obj3(
            "responseMimeType",
            js(mime),
            "temperature",
            JsonValue::Float64(TEMPERATURE_0_7_F64_BITS),
            "maxOutputTokens",
            JsonValue::Number(Some(800)),
        ),
    )
}

/// The request that runs `prompt` for an answer in `format` in the service of `conf` with key
/// `api_key`: Anthropic's `messages`, an OpenAI-compatible chat completion, Gemini's
/// `generateContent`, Ollama's `generate`, or a JSON-RPC call of the simulator.
pub fn exec_prompt_request(conf: &Config, api_key: &str, prompt: &str, format: ResponseFormat) -> (r:
    PostRequest)
    ensures
        is_funcs_request(r, *conf, api_key@, prompt@, format),
{
    let json = match format {
        ResponseFormat::Text => false,
        ResponseFormat::Json => true,
    };
    let host = conf.host.as_str();
    let model = conf.model.as_str();
    match conf.provider {
        LLLMProvider::Anthropic => {
            let mut headers: Vec<(String, String)> = Vec::new();
            headers.push(header("Content-Type", String::from_str("application/json")));
            headers.push(header("x-api-key", String::from_str(api_key)));
            headers.push(header("anthropic-version", String::from_str("2023-06-01")));
            PostRequest {
                url: concat2(host, "/v1/messages"),
                headers,
                body: anthropic_funcs_body(model, prompt, json),
            }
        },
        LLLMProvider::OpenaiCompatible => {
            let mut headers: Vec<(String, String)> = Vec::new();
            headers.push(header("Content-Type", String::from_str("application/json")));
            headers.push(header("Authorization", concat2("Bearer ", api_key)));
            PostRequest {
                url: concat2(host, "/v1/chat/completions"),
                headers,
                body: chat_body(model, prompt, "max_tokens", json),
            }
        },
        LLLMProvider::Google => {
            let mut headers: Vec<(String, String)> = Vec::new();
            headers.push(header("Content-Type", String::from_str("application/json")));
            let url = String::from_str(host).concat("/v1beta/models/").concat(model).concat(
                ":generateContent?key=",
            ).concat(api_key);
            PostRequest { url, headers, body: gemini_funcs_body(prompt, json) }
        },
        LLLMProvider::Ollama => PostRequest {
            url: concat2(host, "/api/generate"),
            headers: Vec::new(),
            body: plain_ollama_body(model, prompt, json),
        },
        LLLMProvider::Simulator => {
            let mut headers: Vec<(String, String)> = Vec::new();
            headers.push(header("Content-Type", String::from_str("application/json")));
            PostRequest {
                url: concat2(host, "/api"),
                headers,
                body: simulator_body(model, prompt, format),
            }
        },
    }
}

/// The answer of a prompt module of fixed configuration.
pub enum FuncsAnswer {
    /// The answer's text, its fence and blanks removed when JSON was asked for.
    Text(String),
    /// A JSON value whose text is the answer: what Anthropic's tool gives when JSON was asked
    /// for.
    Value(JsonValue),
}

/// The text of the answer that `provider` gives in `v`, when the answer is text.
pub open spec fn spec_funcs_text(provider: LLLMProvider, v: JsonValue) -> Option<Seq<char>> {
    match provider {
        LLLMProvider::Anthropic => jstr(jfield(jindex(jfield(Some(v), "content"@), 0), "text"@)),
        LLLMProvider::OpenaiCompatible => spec_chat_content(v),
        LLLMProvider::Google => jstr(
            jfield(
                jindex(jfield(jfield(jindex(jfield(Some(v), "candidates"@), 0), "content"@), "parts"@), 0),
                "text"@,
            ),
        ),
        LLLMProvider::Ollama => jstr(jfield(Some(v), "response"@)),
        LLLMProvider::Simulator => jstr(jfield(jfield(Some(v), "result"@), "response"@)),
    }
}

/// `r` is the answer of `provider` in its response `v`, for an answer in `format`: the
/// answer's text as it is for a text answer, and without its fence and blanks for a JSON
/// answer; an OpenAI-compatible response must also tell its total tokens. Anthropic, asked for
/// JSON, answers with the value at `content[0].input.type`.
pub open spec fn is_funcs_answer(
    provider: LLLMProvider,
    format: ResponseFormat,
    v: JsonValue,
    r: Result<FuncsAnswer, AnswerError>,
) -> bool {
    &&& provider == LLLMProvider::Anthropic && format == ResponseFormat::Json ==> match jfield(
        jfield(jindex(jfield(Some(v), "content"@), 0), "input"@),
        "type"@,
    ) {
        Some(x) => r matches Ok(FuncsAnswer::Value(y)) && y == x,
        None => r matches Err(e) && e == AnswerError::NoResponse,
    }
    &&& !(provider == LLLMProvider::Anthropic && format == ResponseFormat::Json) ==> match spec_funcs_text(
        provider,
        v,
    ) {
        Some(c) => if provider == LLLMProvider::OpenaiCompatible && spec_chat_tokens(v) is None {
            r matches Err(e) && e == AnswerError::NoUsage
        } else {
            r matches Ok(FuncsAnswer::Text(s)) && s@ == match format {
                ResponseFormat::Text => c,
                ResponseFormat::Json => spec_sanitize_json(c),
            }
        },
        None => r matches Err(e) && e == AnswerError::NoResponse,
    }
}

/// Reads the answer of `provider` in its response `v`, for an answer in `format`.
pub fn exec_prompt_answer(provider: LLLMProvider, format: ResponseFormat, v: JsonValue) -> (r:
    Result<FuncsAnswer, AnswerError>)
    ensures
        is_funcs_answer(provider, format, v, r),
{
    proof {
        reveal_strlit("content");
        reveal_strlit("input");
        reveal_strlit("type");
    }
    let text = match provider {
        LLLMProvider::Anthropic => match format {
            ResponseFormat::Json => {
                let x = json_take_field(
                    json_take_field(json_take_index(json_take_field(Some(v), "content"), 0), "input"),
                    "type",
                );
                return match x {
                    Some(y) => Ok(FuncsAnswer::Value(y)),
                    None => Err(AnswerError::NoResponse),
                };
            },
            ResponseFormat::Text => anthropic_answer(&v),
        },
        LLLMProvider::OpenaiCompatible => match chat_completion_answer(&v) {
            Ok((t, _tokens)) => Ok(t),
            Err(e) => Err(e),
        },
        LLLMProvider::Google => gemini_answer(&v),
        LLLMProvider::Ollama => ollama_text_answer(&v),
        LLLMProvider::Simulator => simulator_answer(&v),
    };
    match text {
        Ok(t) => match format {
            ResponseFormat::Text => Ok(FuncsAnswer::Text(t)),
            ResponseFormat::Json => Ok(FuncsAnswer::Text(String::from_str(sanitize_json_str(t.as_str())))),
        },
        Err(e) => Err(e),
    }
}

/// Reads the answer of `provider` from the text `body` of its response: the text is parsed as
/// JSON and read as [`exec_prompt_answer`] reads it; a text that is no JSON document is refused.
pub fn exec_prompt_reply(provider: LLLMProvider, format: ResponseFormat, body: &str) -> (r: Result<
    FuncsAnswer,
    AnswerError,
>)
    ensures
        match json_parse(body@) {
            Some(v) => is_funcs_answer(provider, format, v, r),
            None => r matches Err(e) && e == AnswerError::NotJson,
        },
{
    match json_from_str(body) {
        Some(v) => exec_prompt_answer(provider, format, v),
        None => Err(AnswerError::NotJson),
    }
}

} // verus!
