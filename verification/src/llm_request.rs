use vstd::prelude::*;

use crate::common::ModuleError;
use crate::str_map::StrMap;
use crate::llm::{
    anthropic_answer, anthropic_bool_answer, anthropic_json_answer, gemini_answer, jbool, jfield,
    jindex, json_from_str, json_parse, jstr, ollama_text_answer, openai_answer, sanitize_json_str, spec_chat_content,
    spec_sanitize_json, AnswerError, BackendConfig, ExtendedOutputFormat, ProviderImpl,
    base64_encode, is_invalid_image_error, spec_sniff, Anthropic, Gemini, ImageLua, ImageType,
    JsonValue, OLlama, OpenAICompatible,
};

verus! {

/// A prompt as it is sent to an LLM service.
pub struct Internal {
    pub system_message: Option<String>,
    pub user_message: String,
    /// The sampling temperature, by the bits of its `f32` value.
    pub temperature_bits: u32,
    pub images: Vec<ImageLua>,
    pub max_tokens: u32,
    /// The service takes the answer's length as `max_completion_tokens`, not `max_tokens`.
    pub use_max_completion_tokens: bool,
}

/// A `POST` of a JSON body.
pub struct PostRequest {
    pub url: String,
    pub headers: Vec<(String, String)>,
    pub body: JsonValue,
}

// ----- describing JSON values -----

/// `v` is the string `s`.
pub open spec fn is_str(v: JsonValue, s: Seq<char>) -> bool {
    v matches JsonValue::Str(x) && x@ == s
}

/// The members of an object; none for any other value.
pub open spec fn members(v: JsonValue) -> Seq<(String, JsonValue)> {
    match v {
        JsonValue::Object(m) => m@,
        _ => Seq::empty(),
    }
}

/// The elements of an array; none for any other value.
pub open spec fn elements(v: JsonValue) -> Seq<JsonValue> {
    match v {
        JsonValue::Array(a) => a@,
        _ => Seq::empty(),
    }
}

/// `v` is an object whose members have the keys `ks`, in this order.
pub open spec fn has_keys(v: JsonValue, ks: Seq<Seq<char>>) -> bool {
    &&& v is Object
    &&& members(v).len() == ks.len()
    &&& forall|i: int| 0 <= i < ks.len() ==> #[trigger] members(v)[i].0@ == ks[i]
}

/// The value of the `i`-th member of an object.
pub open spec fn at(v: JsonValue, i: int) -> JsonValue {
    members(v)[i].1
}

/// `v` is an array of `n` elements.
pub open spec fn is_array_of(v: JsonValue, n: int) -> bool {
    v is Array && elements(v).len() == n
}

/// `v` is an array of the strings `ss`.
pub open spec fn is_str_array(v: JsonValue, ss: Seq<Seq<char>>) -> bool {
    &&& is_array_of(v, ss.len() as int)
    &&& forall|i: int| 0 <= i < ss.len() ==> is_str(#[trigger] elements(v)[i], ss[i])
}

/// `v` is the object `{k: s}` of one string member.
pub open spec fn is_str_object(v: JsonValue, k: Seq<char>, s: Seq<char>) -> bool {
    has_keys(v, seq![k]) && is_str(at(v, 0), s)
}

// ----- building JSON values -----

pub(crate) fn js(s: &str) -> (r: JsonValue)
    ensures
        is_str(r, s@),
{
    JsonValue::Str(String::from_str(s))
}

pub(crate) fn js_owned(s: String) -> (r: JsonValue)
    ensures
        is_str(r, s@),
{
    JsonValue::Str(s)
}

pub(crate) fn member(k: &str, v: JsonValue) -> (r: (String, JsonValue))
    ensures
        r.0@ == k@,
        r.1 == v,
{
    (String::from_str(k), v)
}

pub(crate) fn obj1(k0: &str, v0: JsonValue) -> (r: JsonValue)
    ensures
        has_keys(r, seq![k0@]),
        at(r, 0) == v0,
{
    let mut m: Vec<(String, JsonValue)> = Vec::new();
    m.push(member(k0, v0));
    JsonValue::Object(m)
}

pub(crate) fn obj2(k0: &str, v0: JsonValue, k1: &str, v1: JsonValue) -> (r: JsonValue)
    ensures
        has_keys(r, seq![k0@, k1@]),
        at(r, 0) == v0,
        at(r, 1) == v1,
{
    let mut m: Vec<(String, JsonValue)> = Vec::new();
    m.push(member(k0, v0));
    m.push(member(k1, v1));
    JsonValue::Object(m)
}

pub(crate) fn obj3(k0: &str, v0: JsonValue, k1: &str, v1: JsonValue, k2: &str, v2: JsonValue) -> (r: JsonValue)
    ensures
        has_keys(r, seq![k0@, k1@, k2@]),
        at(r, 0) == v0,
        at(r, 1) == v1,
        at(r, 2) == v2,
{
    let mut m: Vec<(String, JsonValue)> = Vec::new();
    m.push(member(k0, v0));
    m.push(member(k1, v1));
    m.push(member(k2, v2));
    JsonValue::Object(m)
}

pub(crate) fn arr1(v0: JsonValue) -> (r: JsonValue)
    ensures
        is_array_of(r, 1),
        elements(r)[0] == v0,
{
    let mut a: Vec<JsonValue> = Vec::new();
    a.push(v0);
    JsonValue::Array(a)
}

// ----- the parts of a prompt -----

/// Every image of the prompt has a known format.
pub open spec fn images_known(p: Internal) -> bool {
    forall|i: int| 0 <= i < p.images@.len() ==> (#[trigger] spec_sniff(p.images@[i].0@)) is Some
}

/// The media type of an image of known format.
pub open spec fn media_of(img: Seq<u8>) -> Seq<char> {
    spec_sniff(img).unwrap().spec_media_type()
}

/// An image as a data URL: `data:`, its media type, `;base64,` and its bytes in base64.
pub open spec fn data_url(img: Seq<u8>) -> Seq<char> {
    "data:"@ + media_of(img) + ";base64,"@ + base64_encode(img)
}

/// A chat message `{"role": role, "content": text}`.
pub open spec fn is_text_message(v: JsonValue, role: Seq<char>, text: Seq<char>) -> bool {
    &&& has_keys(v, seq!["role"@, "content"@])
    &&& is_str(at(v, 0), role)
    &&& is_str(at(v, 1), text)
}

/// The text part of an OpenAI or Anthropic message: `{"type": "text", "text": text}`.
pub open spec fn is_text_part(v: JsonValue, text: Seq<char>) -> bool {
    &&& has_keys(v, seq!["type"@, "text"@])
    &&& is_str(at(v, 0), "text"@)
    &&& is_str(at(v, 1), text)
}

/// An image part of an OpenAI message: `{"type": "image_url", "image_url": {"url": ..}}`.
pub open spec fn is_openai_image_part(v: JsonValue, img: Seq<u8>) -> bool {
    &&& has_keys(v, seq!["type"@, "image_url"@])
    &&& is_str(at(v, 0), "image_url"@)
    &&& is_str_object(at(v, 1), "url"@, data_url(img))
}

/// The OpenAI messages of a prompt: its system message, if any, then the user's message, whose
/// content is the text followed by one part per image.
pub open spec fn is_openai_messages(v: JsonValue, p: Internal) -> bool {
    let off: int = if p.system_message is Some { 1 } else { 0 };
    let user = elements(v)[off];
    let content = at(user, 1);
    &&& is_array_of(v, off + 1)
    &&& (p.system_message matches Some(sys) ==> is_text_message(elements(v)[0], "system"@, sys@))
    &&& has_keys(user, seq!["role"@, "content"@])
    &&& is_str(at(user, 0), "user"@)
    &&& is_array_of(content, 1 + p.images@.len() as int)
    &&& is_text_part(elements(content)[0], p.user_message@)
    &&& forall|i: int|
        0 <= i < p.images@.len() ==> is_openai_image_part(
            #[trigger] elements(content)[1 + i],
            p.images@[i].0@,
        )
}

/// The key under which a prompt gives the answer's length to an OpenAI service.
pub open spec fn max_tokens_key(p: Internal) -> Seq<char> {
    if p.use_max_completion_tokens {
        "max_completion_tokens"@
    } else {
        "max_tokens"@
    }
}

/// The body of an OpenAI chat completion request; `json` asks for a JSON object as answer.
pub open spec fn is_openai_body(v: JsonValue, p: Internal, model: Seq<char>, json: bool) -> bool {
    let n: int = if json { 5 } else { 4 };
    &&& has_keys(
        v,
        if json {
            seq!["model"@, "messages"@, "stream"@, "temperature"@, "response_format"@, max_tokens_key(p)]
        } else {
            seq!["model"@, "messages"@, "stream"@, "temperature"@, max_tokens_key(p)]
        },
    )
    &&& is_str(at(v, 0), model)
    &&& is_openai_messages(at(v, 1), p)
    &&& at(v, 2) == JsonValue::Bool(false)
    &&& at(v, 3) == JsonValue::Float32(p.temperature_bits)
    &&& (json ==> is_str_object(at(v, 4), "type"@, "json_object"@))
    &&& at(v, n) == JsonValue::Number(Some(p.max_tokens as u64))
}

impl Internal {
    /// The OpenAI messages of the prompt. An image of no known format is a fatal error.
    pub fn to_openai_messages(&self) -> (r: Result<JsonValue, ModuleError>)
        ensures
            r is Ok <==> images_known(*self),
            r matches Ok(v) ==> is_openai_messages(v, *self),
            r matches Err(e) ==> is_invalid_image_error(e, true),
    {
        let mut messages: Vec<JsonValue> = Vec::new();
        match &self.system_message {
            Some(sys) => {
                messages.push(obj2("role", js("system"), "content", js_owned(sys.clone())));
            },
            None => {},
        }
        let mut content: Vec<JsonValue> = Vec::new();
        content.push(obj2("type", js("text"), "text", js_owned(self.user_message.clone())));
        let mut i: usize = 0;
        while i < self.images.len()
            invariant
                0 <= i <= self.images@.len(),
                content@.len() == 1 + i,
                is_text_part(content@[0], self.user_message@),
                forall|j: int| 0 <= j < i ==> spec_sniff(#[trigger] self.images@[j].0@) is Some,
                forall|j: int|
                    0 <= j < i ==> is_openai_image_part(
                        #[trigger] content@[1 + j],
                        self.images@[j].0@,
                    ),
            decreases self.images@.len() - i,
        {
            let url = match crate::llm::image_data_url(&self.images[i]) {
                Ok(u) => u,
                Err(e) => {
                    return Err(e);
                },
            };
            proof {
                reveal_strlit("data:");
                reveal_strlit(";base64,");
            }
            content.push(obj2("type", js("image_url"), "image_url", obj1("url", js_owned(url))));
            assert(content@[1 + i as int] == content@.last());
            i = i + 1;
        }
        messages.push(obj2("role", js("user"), "content", JsonValue::Array(content)));
        Ok(JsonValue::Array(messages))
    }

    /// The body of an OpenAI chat completion request for the prompt; `json` asks for a JSON
    /// object as answer. An image of no known format is a fatal error.
    pub fn openai_body(&self, model: &str, json: bool) -> (r: Result<JsonValue, ModuleError>)
        ensures
            r is Ok <==> images_known(*self),
            r matches Ok(v) ==> is_openai_body(v, *self, model@, json),
            r matches Err(e) ==> is_invalid_image_error(e, true),
    {
        let messages = match self.to_openai_messages() {
            Ok(m) => m,
            Err(e) => {
                return Err(e);
            },
        };
        let mut m: Vec<(String, JsonValue)> = Vec::new();
        m.push(member("model", js(model)));
        m.push(member("messages", messages));
        m.push(member("stream", JsonValue::Bool(false)));
        m.push(member("temperature", JsonValue::Float32(self.temperature_bits)));
        if json {
            m.push(member("response_format", obj1("type", js("json_object"))));
        }
        let key = if self.use_max_completion_tokens {
            "max_completion_tokens"
        } else {
            "max_tokens"
        };
        m.push(member(key, JsonValue::Number(Some(self.max_tokens as u64))));
        let v = JsonValue::Object(m);
        Ok(v)
    }
}


// ----- Gemini -----

/// An image part of a Gemini message: `{"inline_data": {"mime_type": .., "data": ..}}`.
pub open spec fn is_gemini_image_part(v: JsonValue, img: Seq<u8>) -> bool {
    let d = at(v, 0);
    &&& has_keys(v, seq!["inline_data"@])
    &&& has_keys(d, seq!["mime_type"@, "data"@])
    &&& is_str(at(d, 0), media_of(img))
    &&& is_str(at(d, 1), base64_encode(img))
}

/// The body of a Gemini `generateContent` request; `json` asks for an answer in JSON. Its
/// members are the generation settings, the system instruction if the prompt has one, and the
/// contents: one part per image, then the user's text.
pub open spec fn is_gemini_body(v: JsonValue, p: Internal, json: bool) -> bool {
    let off: int = if p.system_message is Some { 1 } else { 0 };
    let cfg = at(v, 0);
    let contents = at(v, 1 + off);
    let parts = at(elements(contents)[0], 0);
    let n = p.images@.len() as int;
    &&& has_keys(
        v,
        if p.system_message is Some {
            seq!["generationConfig"@, "system_instruction"@, "contents"@]
        } else {
            seq!["generationConfig"@, "contents"@]
        },
    )
    &&& has_keys(cfg, seq!["responseMimeType"@, "temperature"@, "maxOutputTokens"@])
    &&& is_str(at(cfg, 0), if json { "application/json"@ } else { "text/plain"@ })
    &&& at(cfg, 1) == JsonValue::Float32(p.temperature_bits)
    &&& at(cfg, 2) == JsonValue::Number(Some(p.max_tokens as u64))
    &&& (p.system_message matches Some(sys) ==> {
        let si = at(v, 1);
        &&& has_keys(si, seq!["parts"@])
        &&& is_array_of(at(si, 0), 1)
        &&& is_str_object(elements(at(si, 0))[0], "text"@, sys@)
    })
    &&& is_array_of(contents, 1)
    &&& has_keys(elements(contents)[0], seq!["parts"@])
    &&& is_array_of(parts, n + 1)
    &&& forall|i: int|
        0 <= i < n ==> is_gemini_image_part(#[trigger] elements(parts)[i], p.images@[i].0@)
    &&& is_str_object(elements(parts)[n], "text"@, p.user_message@)
}

impl Internal {
    /// The body of a Gemini `generateContent` request for the prompt; `json` asks for an
    /// answer in JSON. An image of no known format is a fatal error.
    pub fn gemini_body(&self, json: bool) -> (r: Result<JsonValue, ModuleError>)
        ensures
            r is Ok <==> images_known(*self),
            r matches Ok(v) ==> is_gemini_body(v, *self, json),
            r matches Err(e) ==> is_invalid_image_error(e, true),
    {
        let mime = if json {
            "application/json"
        } else {
            "text/plain"
        };
        let cfg = obj3(
            "responseMimeType",
            js(mime),
            "temperature",
            JsonValue::Float32(self.temperature_bits),
            "maxOutputTokens",
            JsonValue::Number(Some(self.max_tokens as u64)),
        );
        let mut m: Vec<(String, JsonValue)> = Vec::new();
        m.push(member("generationConfig", cfg));
        match &self.system_message {
            Some(sys) => {
                let text = obj1("text", js_owned(sys.clone()));
                m.push(member("system_instruction", obj1("parts", arr1(text))));
            },
            None => {},
        }
        let mut parts: Vec<JsonValue> = Vec::new();
        let mut i: usize = 0;
        while i < self.images.len()
            invariant
                0 <= i <= self.images@.len(),
                parts@.len() == i,
                forall|j: int| 0 <= j < i ==> spec_sniff(#[trigger] self.images@[j].0@) is Some,
                forall|j: int|
                    0 <= j < i ==> is_gemini_image_part(#[trigger] parts@[j], self.images@[j].0@),
            decreases self.images@.len() - i,
        {
            let img = &self.images[i];
            let kind = match img.kind_or_error() {
                Ok(k) => k,
                Err(e) => {
                    return Err(e);
                },
            };
            let data = obj2("mime_type", js(kind.media_type()), "data", js_owned(img.as_base64()));
            parts.push(obj1("inline_data", data));
            assert(parts@[i as int] == parts@.last());
            i = i + 1;
        }
        parts.push(obj1("text", js_owned(self.user_message.clone())));
        m.push(member("contents", arr1(obj1("parts", JsonValue::Array(parts)))));
        Ok(JsonValue::Object(m))
    }
}

// ----- Ollama -----

/// The body of an Ollama `generate` request: the model, the user's text, no streaming, the
/// sampling settings, the images in base64, the system message if there is one, and, when
/// `json` asks for an answer in JSON, the format `json`.
pub open spec fn is_ollama_body(v: JsonValue, p: Internal, model: Seq<char>, json: bool) -> bool {
    let opts = at(v, 3);
    let images = at(v, 4);
    let off: int = if p.system_message is Some { 1 } else { 0 };
    &&& has_keys(
        v,
        if p.system_message is Some && json {
            seq!["model"@, "prompt"@, "stream"@, "options"@, "images"@, "system"@, "format"@]
        } else if p.system_message is Some {
            seq!["model"@, "prompt"@, "stream"@, "options"@, "images"@, "system"@]
        } else if json {
            seq!["model"@, "prompt"@, "stream"@, "options"@, "images"@, "format"@]
        } else {
            seq!["model"@, "prompt"@, "stream"@, "options"@, "images"@]
        },
    )
    &&& is_str(at(v, 0), model)
    &&& is_str(at(v, 1), p.user_message@)
    &&& at(v, 2) == JsonValue::Bool(false)
    &&& has_keys(opts, seq!["temperature"@, "num_predict"@])
    &&& at(opts, 0) == JsonValue::Float32(p.temperature_bits)
    &&& at(opts, 1) == JsonValue::Number(Some(p.max_tokens as u64))
    &&& is_array_of(images, p.images@.len() as int)
    &&& forall|i: int|
        0 <= i < p.images@.len() ==> is_str(
            #[trigger] elements(images)[i],
            base64_encode(p.images@[i].0@),
        )
    &&& (p.system_message matches Some(sys) ==> is_str(at(v, 5), sys@))
    &&& (json ==> is_str(at(v, 5 + off), "json"@))
}

impl Internal {
    /// The body of an Ollama `generate` request for the prompt; `json` asks for an answer in
    /// JSON. Ollama takes images of any format.
    pub fn ollama_body(&self, model: &str, json: bool) -> (r: JsonValue)
        ensures
            is_ollama_body(r, *self, model@, json),
    {
        let opts = obj2(
            "temperature",
            JsonValue::Float32(self.temperature_bits),
            "num_predict",
            JsonValue::Number(Some(self.max_tokens as u64)),
        );
        let mut images: Vec<JsonValue> = Vec::new();
        let mut i: usize = 0;
        while i < self.images.len()
            invariant
                0 <= i <= self.images@.len(),
                images@.len() == i,
                forall|j: int|
                    0 <= j < i ==> is_str(#[trigger] images@[j], base64_encode(self.images@[j].0@)),
            decreases self.images@.len() - i,
        {
            images.push(js_owned(self.images[i].as_base64()));
            assert(images@[i as int] == images@.last());
            i = i + 1;
        }
        let mut m: Vec<(String, JsonValue)> = Vec::new();
        m.push(member("model", js(model)));
        m.push(member("prompt", js_owned(self.user_message.clone())));
        m.push(member("stream", JsonValue::Bool(false)));
        m.push(member("options", opts));
        m.push(member("images", JsonValue::Array(images)));
        match &self.system_message {
            Some(sys) => {
                m.push(member("system", js_owned(sys.clone())));
            },
            None => {},
        }
        if json {
            m.push(member("format", js("json")));
        }
        JsonValue::Object(m)
    }
}

// ----- Anthropic -----

/// An image part of an Anthropic message:
/// `{"type": "image", "source": {"type": "base64", "media_type": .., "data": ..}}`.
pub open spec fn is_anthropic_image_part(v: JsonValue, img: Seq<u8>) -> bool {
    let src = at(v, 1);
    &&& has_keys(v, seq!["type"@, "source"@])
    &&& is_str(at(v, 0), "image"@)
    &&& has_keys(src, seq!["type"@, "media_type"@, "data"@])
    &&& is_str(at(src, 0), "base64"@)
    &&& is_str(at(src, 1), media_of(img))
    &&& is_str(at(src, 2), base64_encode(img))
}

/// The members that an Anthropic `messages` request for the prompt starts with: the model, one
/// user message whose content is one part per image and then the text, the answer's length, no
/// streaming, the temperature, and the system message if there is one.
pub open spec fn has_anthropic_prompt(v: JsonValue, p: Internal, model: Seq<char>) -> bool {
    let msgs = at(v, 1);
    let user = elements(msgs)[0];
    let content = at(user, 1);
    let n = p.images@.len() as int;
    &&& is_str(at(v, 0), model)
    &&& is_array_of(msgs, 1)
    &&& has_keys(user, seq!["role"@, "content"@])
    &&& is_str(at(user, 0), "user"@)
    &&& is_array_of(content, n + 1)
    &&& forall|i: int|
        0 <= i < n ==> is_anthropic_image_part(#[trigger] elements(content)[i], p.images@[i].0@)
    &&& is_text_part(elements(content)[n], p.user_message@)
    &&& at(v, 2) == JsonValue::Number(Some(p.max_tokens as u64))
    &&& at(v, 3) == JsonValue::Bool(false)
    &&& at(v, 4) == JsonValue::Float32(p.temperature_bits)
    &&& (p.system_message matches Some(sys) ==> is_str(at(v, 5), sys@))
}

/// The body of an Anthropic `messages` request that asks for text.
pub open spec fn is_anthropic_body(v: JsonValue, p: Internal, model: Seq<char>) -> bool {
    &&& has_keys(
        v,
        if p.system_message is Some {
            seq!["model"@, "messages"@, "max_tokens"@, "stream"@, "temperature"@, "system"@]
        } else {
            seq!["model"@, "messages"@, "max_tokens"@, "stream"@, "temperature"@]
        },
    )
    &&& has_anthropic_prompt(v, p, model)
}

/// The tool choice that forces the tool `json_out`: `{"type": "tool", "name": "json_out"}`.
pub open spec fn is_json_out_choice(v: JsonValue) -> bool {
    &&& has_keys(v, seq!["type"@, "name"@])
    &&& is_str(at(v, 0), "tool"@)
    &&& is_str(at(v, 1), "json_out"@)
}

/// The one tool `json_out`, "Output a valid json object", whose input has the schema `schema`.
pub open spec fn is_json_out_tools(v: JsonValue, schema: spec_fn(JsonValue) -> bool) -> bool {
    let tool = elements(v)[0];
    &&& is_array_of(v, 1)
    &&& has_keys(tool, seq!["name"@, "description"@, "input_schema"@])
    &&& is_str(at(tool, 0), "json_out"@)
    &&& is_str(at(tool, 1), "Output a valid json object"@)
    &&& schema(at(tool, 2))
}

/// The input schema of the tool that takes any JSON object: an object whose members, under any
/// name, are objects, nulls, arrays, numbers or strings.
pub open spec fn is_any_object_schema(v: JsonValue) -> bool {
    let pattern = at(v, 1);
    let any = at(pattern, 0);
    &&& has_keys(v, seq!["type"@, "patternProperties"@])
    &&& is_str(at(v, 0), "object"@)
    &&& has_keys(pattern, seq![""@])
    &&& has_keys(any, seq!["type"@])
    &&& is_str_array(at(any, 0), seq!["object"@, "null"@, "array"@, "number"@, "string"@])
}

/// The input schema of the tool that takes a truth value with its reason: an object with a
/// boolean `result`, which it must have, and a string `reason`.
pub open spec fn is_bool_reason_schema(v: JsonValue) -> bool {
    let props = at(v, 1);
    &&& has_keys(v, seq!["type"@, "properties"@, "required"@])
    &&& is_str(at(v, 0), "object"@)
    &&& has_keys(props, seq!["result"@, "reason"@])
    &&& is_str_object(at(props, 0), "type"@, "boolean"@)
    &&& is_str_object(at(props, 1), "type"@, "string"@)
    &&& is_str_array(at(v, 2), seq!["result"@])
}

/// The body of an Anthropic request that asks for a JSON object: the text request followed by
/// the tool `json_out` that takes any object, forced as the tool to use.
pub open spec fn is_anthropic_json_body(v: JsonValue, p: Internal, model: Seq<char>) -> bool {
    let off: int = if p.system_message is Some { 1 } else { 0 };
    &&& has_keys(
        v,
        if p.system_message is Some {
            seq![
                "model"@,
                "messages"@,
                "max_tokens"@,
                "stream"@,
                "temperature"@,
                "system"@,
                "tools"@,
                "tool_choice"@,
            ]
        } else {
            seq!["model"@, "messages"@, "max_tokens"@, "stream"@, "temperature"@, "tools"@, "tool_choice"@]
        },
    )
    &&& has_anthropic_prompt(v, p, model)
    &&& is_json_out_tools(at(v, 5 + off), |s: JsonValue| is_any_object_schema(s))
    &&& is_json_out_choice(at(v, 6 + off))
}

/// The body of an Anthropic request that asks for a truth value with its reason. It holds the
/// model, the user's text as the one message, at most 200 tokens, no streaming, the temperature,
/// the tool `json_out` that takes such an answer, forced as the tool to use, and the system
/// message if there is one. Images are not sent.
pub open spec fn is_anthropic_bool_reason_body(v: JsonValue, p: Internal, model: Seq<char>) -> bool {
    &&& has_keys(
        v,
        if p.system_message is Some {
            seq![
                "model"@,
                "messages"@,
                "max_tokens"@,
                "stream"@,
                "temperature"@,
                "tools"@,
                "tool_choice"@,
                "system"@,
            ]
        } else {
            seq!["model"@, "messages"@, "max_tokens"@, "stream"@, "temperature"@, "tools"@, "tool_choice"@]
        },
    )
    &&& is_str(at(v, 0), model)
    &&& is_array_of(at(v, 1), 1)
    &&& is_text_message(elements(at(v, 1))[0], "user"@, p.user_message@)
    &&& at(v, 2) == JsonValue::Number(Some(200))
    &&& at(v, 3) == JsonValue::Bool(false)
    &&& at(v, 4) == JsonValue::Float32(p.temperature_bits)
    &&& is_json_out_tools(at(v, 5), |s: JsonValue| is_bool_reason_schema(s))
    &&& is_json_out_choice(at(v, 6))
    &&& (p.system_message matches Some(sys) ==> is_str(at(v, 7), sys@))
}

fn json_out_tools(schema: JsonValue) -> (r: JsonValue)
    ensures
        is_json_out_tools(r, |s: JsonValue| s == schema),
{
    let tool = obj3("name", js("json_out"), "description", js("Output a valid json object"), "input_schema", schema);
    arr1(tool)
}

pub(crate) fn json_out_choice() -> (r: JsonValue)
    ensures
        is_json_out_choice(r),
{
    obj2("type", js("tool"), "name", js("json_out"))
}

pub(crate) fn str_array(items: &[&str]) -> (r: JsonValue)
    ensures
        is_array_of(r, items@.len() as int),
        forall|i: int| 0 <= i < items@.len() ==> is_str(#[trigger] elements(r)[i], items@[i]@),
{
    let mut a: Vec<JsonValue> = Vec::new();
    let mut i: usize = 0;
    while i < items.len()
        invariant
            0 <= i <= items@.len(),
            a@.len() == i,
            forall|j: int| 0 <= j < i ==> is_str(#[trigger] a@[j], items@[j]@),
        decreases items@.len() - i,
    {
        a.push(js(items[i]));
        assert(a@[i as int] == a@.last());
        i = i + 1;
    }
    JsonValue::Array(a)
}

fn any_object_schema() -> (r: JsonValue)
    ensures
        is_any_object_schema(r),
{
    let kinds: [&str; 5] = ["object", "null", "array", "number", "string"];
    let any = obj1("type", str_array(&kinds));
    assert(kinds@.map_values(|k: &str| k@) =~= seq!["object"@, "null"@, "array"@, "number"@, "string"@]);
    obj2("type", js("object"), "patternProperties", obj1("", any))
}

fn bool_reason_schema() -> (r: JsonValue)
    ensures
        is_bool_reason_schema(r),
{
    let props = obj2("result", obj1("type", js("boolean")), "reason", obj1("type", js("string")));
    let required: [&str; 1] = ["result"];
    obj3("type", js("object"), "properties", props, "required", str_array(&required))
}

impl Internal {
    fn anthropic_members(&self, model: &str) -> (r: Result<Vec<(String, JsonValue)>, ModuleError>)
        ensures
            r is Ok <==> images_known(*self),
            r matches Ok(m) ==> is_anthropic_body(JsonValue::Object(m), *self, model@),
            r matches Err(e) ==> is_invalid_image_error(e, true),
    {
        let mut content: Vec<JsonValue> = Vec::new();
        let mut i: usize = 0;
        while i < self.images.len()
            invariant
                0 <= i <= self.images@.len(),
                content@.len() == i,
                forall|j: int| 0 <= j < i ==> spec_sniff(#[trigger] self.images@[j].0@) is Some,
                forall|j: int|
                    0 <= j < i ==> is_anthropic_image_part(#[trigger] content@[j], self.images@[j].0@),
            decreases self.images@.len() - i,
        {
            let img = &self.images[i];
            let kind = match img.kind_or_error() {
                Ok(k) => k,
                Err(e) => {
                    return Err(e);
                },
            };
            let source = obj3(
                "type",
                js("base64"),
                "media_type",
                js(kind.media_type()),
                "data",
                js_owned(img.as_base64()),
            );
            content.push(obj2("type", js("image"), "source", source));
            assert(content@[i as int] == content@.last());
            i = i + 1;
        }
        content.push(obj2("type", js("text"), "text", js_owned(self.user_message.clone())));
        let user = obj2("role", js("user"), "content", JsonValue::Array(content));
        let mut m: Vec<(String, JsonValue)> = Vec::new();
        m.push(member("model", js(model)));
        m.push(member("messages", arr1(user)));
        m.push(member("max_tokens", JsonValue::Number(Some(self.max_tokens as u64))));
        m.push(member("stream", JsonValue::Bool(false)));
        m.push(member("temperature", JsonValue::Float32(self.temperature_bits)));
        match &self.system_message {
            Some(sys) => {
                m.push(member("system", js_owned(sys.clone())));
            },
            None => {},
        }
        Ok(m)
    }

    /// The body of an Anthropic `messages` request for the prompt that asks for text. An image
    /// of no known format is a fatal error.
    pub fn to_anthropic_no_format(&self, model: &str) -> (r: Result<JsonValue, ModuleError>)
        ensures
            r is Ok <==> images_known(*self),
            r matches Ok(v) ==> is_anthropic_body(v, *self, model@),
            r matches Err(e) ==> is_invalid_image_error(e, true),
    {
        match self.anthropic_members(model) {
            Ok(m) => Ok(JsonValue::Object(m)),
            Err(e) => Err(e),
        }
    }

    /// The body of an Anthropic request for the prompt that asks for a JSON object through the
    /// tool `json_out`. An image of no known format is a fatal error.
    pub fn anthropic_json_body(&self, model: &str) -> (r: Result<JsonValue, ModuleError>)
        ensures
            r is Ok <==> images_known(*self),
            r matches Ok(v) ==> is_anthropic_json_body(v, *self, model@),
            r matches Err(e) ==> is_invalid_image_error(e, true),
    {
        let mut m = match self.anthropic_members(model) {
            Ok(m) => m,
            Err(e) => {
                return Err(e);
            },
        };
        let ghost base = m@;
        m.push(member("tools", json_out_tools(any_object_schema())));
        m.push(member("tool_choice", json_out_choice()));
        let v = JsonValue::Object(m);
        proof {
            assert forall|i: int| 0 <= i < base.len() implies #[trigger] members(v)[i] == base[i] by {}
        }
        Ok(v)
    }

    /// The body of an Anthropic request for the prompt that asks for a truth value with its reason (a boolean
    /// `result` and a `reason`) through the tool `json_out`; the images are not sent.
    pub fn anthropic_bool_reason_body(&self, model: &str) -> (r: JsonValue)
        ensures
            is_anthropic_bool_reason_body(r, *self, model@),
    {
        let mut m: Vec<(String, JsonValue)> = Vec::new();
        m.push(member("model", js(model)));
        m.push(
            member(
                "messages",
                arr1(obj2("role", js("user"), "content", js_owned(self.user_message.clone()))),
            ),
        );
        m.push(member("max_tokens", JsonValue::Number(Some(200))));
        m.push(member("stream", JsonValue::Bool(false)));
        m.push(member("temperature", JsonValue::Float32(self.temperature_bits)));
        m.push(member("tools", json_out_tools(bool_reason_schema())));
        m.push(member("tool_choice", json_out_choice()));
        match &self.system_message {
            Some(sys) => {
                m.push(member("system", js_owned(sys.clone())));
            },
            None => {},
        }
        JsonValue::Object(m)
    }
}

// ----- requests and answers, by service -----

/// The headers of a request are `hs`, in this order.
pub open spec fn headers_are(h: Seq<(String, String)>, hs: Seq<(Seq<char>, Seq<char>)>) -> bool {
    &&& h.len() == hs.len()
    &&& forall|i: int| 0 <= i < hs.len() ==> #[trigger] h[i].0@ == hs[i].0 && h[i].1@ == hs[i].1
}

pub(crate) fn header(k: &str, v: String) -> (r: (String, String))
    ensures
        r.0@ == k@,
        r.1@ == v@,
{
    (String::from_str(k), v)
}

pub(crate) fn concat2(a: &str, b: &str) -> (r: String)
    ensures
        r@ == a@ + b@,
{
    String::from_str(a).concat(b)
}

/// `q` is the chat completion request for prompt `p` to the OpenAI service `c`: posted to
/// `/v1/chat/completions` of the host, as JSON, with the key as bearer token.
pub open spec fn is_openai_request(
    q: PostRequest,
    c: BackendConfig,
    p: Internal,
    model: Seq<char>,
    json: bool,
) -> bool {
    &&& q.url@ == c.host@ + "/v1/chat/completions"@
    &&& headers_are(
        q.headers@,
        seq![("Content-Type"@, "application/json"@), ("Authorization"@, "Bearer "@ + c.key@)],
    )
    &&& is_openai_body(q.body, p, model, json)
}

/// `q` is the `generate` request for prompt `p` to the Ollama service `c`: posted to
/// `/api/generate` of the host, with no headers.
pub open spec fn is_ollama_request(
    q: PostRequest,
    c: BackendConfig,
    p: Internal,
    model: Seq<char>,
    json: bool,
) -> bool {
    &&& q.url@ == c.host@ + "/api/generate"@
    &&& q.headers@.len() == 0
    &&& is_ollama_body(q.body, p, model, json)
}

/// `q` is the `generateContent` request for prompt `p` to the Gemini service `c`: posted to
/// `/v1beta/models/<model>:generateContent?key=<key>` of the host, as JSON.
pub open spec fn is_gemini_request(
    q: PostRequest,
    c: BackendConfig,
    p: Internal,
    model: Seq<char>,
    json: bool,
) -> bool {
    &&& q.url@ == c.host@ + "/v1beta/models/"@ + model + ":generateContent?key="@ + c.key@
    &&& headers_are(q.headers@, seq![("Content-Type"@, "application/json"@)])
    &&& is_gemini_body(q.body, p, json)
}

/// `q` is the `messages` request for prompt `p` to the Anthropic service `c` that asks for
/// `ask`: posted to `/v1/messages` of the host, as JSON, with the key and the API version
/// `2023-06-01`.
pub open spec fn is_anthropic_request(
    q: PostRequest,
    c: BackendConfig,
    p: Internal,
    model: Seq<char>,
    ask: AnthropicAsk,
) -> bool {
    &&& q.url@ == c.host@ + "/v1/messages"@
    &&& headers_are(
        q.headers@,
        seq![
            ("Content-Type"@, "application/json"@),
            ("x-api-key"@, c.key@),
            ("anthropic-version"@, "2023-06-01"@),
        ],
    )
    &&& match ask {
        AnthropicAsk::Text => is_anthropic_body(q.body, p, model),
        AnthropicAsk::Json => is_anthropic_json_body(q.body, p, model),
        AnthropicAsk::BoolReason => is_anthropic_bool_reason_body(q.body, p, model),
    }
}

impl OpenAICompatible {
    /// The chat completion request for a prompt: posted to `/v1/chat/completions` of the host,
    /// as JSON, with the key as bearer token. An image of no known format is a fatal error.
    pub fn prompt_request(&self, prompt: &Internal, model: &str, json: bool) -> (r: Result<
        PostRequest,
        ModuleError,
    >)
        ensures
            r is Ok <==> images_known(*prompt),
            r matches Ok(q) ==> is_openai_request(q, self.config, *prompt, model@, json),
            r matches Err(e) ==> is_invalid_image_error(e, true),
    {
        let body = match prompt.openai_body(model, json) {
            Ok(b) => b,
            Err(e) => {
                return Err(e);
            },
        };
        let mut headers: Vec<(String, String)> = Vec::new();
        headers.push(header("Content-Type", String::from_str("application/json")));
        headers.push(header("Authorization", concat2("Bearer ", self.config.key.as_str())));
        let url = concat2(self.config.host.as_str(), "/v1/chat/completions");
        Ok(PostRequest { url, headers, body })
    }
}

impl OLlama {
    /// The `generate` request for a prompt: posted to `/api/generate` of the host, with no
    /// headers.
    pub fn prompt_request(&self, prompt: &Internal, model: &str, json: bool) -> (r: PostRequest)
        ensures
            is_ollama_request(r, self.config, *prompt, model@, json),
    {
        let url = concat2(self.config.host.as_str(), "/api/generate");
        PostRequest { url, headers: Vec::new(), body: prompt.ollama_body(model, json) }
    }
}

impl Gemini {
    /// The `generateContent` request for a prompt: posted to
    /// `/v1beta/models/<model>:generateContent?key=<key>` of the host, as JSON. An image of no
    /// known format is a fatal error.
    pub fn prompt_request(&self, prompt: &Internal, model: &str, json: bool) -> (r: Result<
        PostRequest,
        ModuleError,
    >)
        ensures
            r is Ok <==> images_known(*prompt),
            r matches Ok(q) ==> is_gemini_request(q, self.config, *prompt, model@, json),
            r matches Err(e) ==> is_invalid_image_error(e, true),
    {
        let body = match prompt.gemini_body(json) {
            Ok(b) => b,
            Err(e) => {
                return Err(e);
            },
        };
        let mut headers: Vec<(String, String)> = Vec::new();
        headers.push(header("Content-Type", String::from_str("application/json")));
        let url = concat2(self.config.host.as_str(), "/v1beta/models/").concat(model).concat(
            ":generateContent?key=",
        ).concat(self.config.key.as_str());
        Ok(PostRequest { url, headers, body })
    }
}

/// What a request to Anthropic asks for.
#[derive(Clone, Copy, PartialEq, Eq, Debug, Structural)]
pub enum AnthropicAsk {
    Text,
    Json,
    BoolReason,
}

impl Anthropic {
    /// The `messages` request for a prompt: posted to `/v1/messages` of the host. Asking for
    /// text or a JSON object, an image of no known format is a fatal error; a request for a truth value
    /// does not send the images.
    pub fn prompt_request(&self, prompt: &Internal, model: &str, ask: AnthropicAsk) -> (r: Result<
        PostRequest,
        ModuleError,
    >)
        ensures
            r is Ok <==> (ask == AnthropicAsk::BoolReason || images_known(*prompt)),
            r matches Ok(q) ==> is_anthropic_request(q, self.config, *prompt, model@, ask),
            r matches Err(e) ==> is_invalid_image_error(e, true),
    {
        let body = match ask {
            AnthropicAsk::Text => match prompt.to_anthropic_no_format(model) {
                Ok(b) => b,
                Err(e) => {
                    return Err(e);
                },
            },
            AnthropicAsk::Json => match prompt.anthropic_json_body(model) {
                Ok(b) => b,
                Err(e) => {
                    return Err(e);
                },
            },
            AnthropicAsk::BoolReason => prompt.anthropic_bool_reason_body(model),
        };
        let mut headers: Vec<(String, String)> = Vec::new();
        headers.push(header("Content-Type", String::from_str("application/json")));
        headers.push(header("x-api-key", self.config.key.clone()));
        headers.push(header("anthropic-version", String::from_str("2023-06-01")));
        let url = concat2(self.config.host.as_str(), "/v1/messages");
        Ok(PostRequest { url, headers, body })
    }
}

// ----- running a prompt in a provider -----

/// Where the answer is found in a service's response.
#[derive(Clone, Copy, PartialEq, Eq, Debug, Structural)]
pub enum AnswerRead {
    /// The text at `choices[0].message.content`.
    OpenAIText,
    /// The text at `response`.
    OllamaText,
    /// The text at `candidates[0].content.parts[0].text`.
    GeminiText,
    /// The text at `content[0].text`.
    AnthropicText,
    /// The object at `content[0].input`.
    AnthropicObject,
    /// The boolean at `content[0].input.result`.
    AnthropicBool,
}

/// A prompt as one request to a service, and where its answer will be.
pub struct PromptPlan {
    pub request: PostRequest,
    pub read: AnswerRead,
}

/// `plan` is how provider `p` runs prompt `prompt` for an answer in `format`: a text answer
/// asks for text; an object or a boolean asks for JSON. Anthropic is asked through its tools for
/// an object or for a boolean; the others answer with text that holds the JSON.
pub open spec fn is_prompt_plan(
    p: ProviderImpl,
    prompt: Internal,
    model: Seq<char>,
    format: ExtendedOutputFormat,
    plan: PromptPlan,
) -> bool {
    let json = format != ExtendedOutputFormat::Text;
    match p {
        ProviderImpl::OpenAICompatible(o) => plan.read == AnswerRead::OpenAIText
            && is_openai_request(plan.request, o.config, prompt, model, json),
        ProviderImpl::OLlama(o) => plan.read == AnswerRead::OllamaText && is_ollama_request(
            plan.request,
            o.config,
            prompt,
            model,
            json,
        ),
        ProviderImpl::Gemini(g) => plan.read == AnswerRead::GeminiText && is_gemini_request(
            plan.request,
            g.config,
            prompt,
            model,
            json,
        ),
        ProviderImpl::Anthropic(a) => match format {
            ExtendedOutputFormat::Text => plan.read == AnswerRead::AnthropicText
                && is_anthropic_request(plan.request, a.config, prompt, model, AnthropicAsk::Text),
            ExtendedOutputFormat::JSON => plan.read == AnswerRead::AnthropicObject
                && is_anthropic_request(plan.request, a.config, prompt, model, AnthropicAsk::Json),
            ExtendedOutputFormat::Bool => plan.read == AnswerRead::AnthropicBool
                && is_anthropic_request(
                plan.request,
                a.config,
                prompt,
                model,
                AnthropicAsk::BoolReason,
            ),
        },
    }
}

/// The request sends the prompt's images, so each must be of a known format: every provider
/// but Ollama, and Anthropic unless it is asked for a boolean.
pub open spec fn plan_sends_image_kinds(p: ProviderImpl, format: ExtendedOutputFormat) -> bool {
    match p {
        ProviderImpl::OLlama(_) => false,
        ProviderImpl::Anthropic(_) => format != ExtendedOutputFormat::Bool,
        _ => true,
    }
}

/// Plans prompt `prompt` in provider `p` for an answer in `format`. An image of no known format
/// is a fatal error where the request describes the images.
pub fn prompt_plan(p: &ProviderImpl, prompt: &Internal, model: &str, format: ExtendedOutputFormat) -> (r:
    Result<PromptPlan, ModuleError>)
    ensures
        r is Ok <==> (!plan_sends_image_kinds(*p, format) || images_known(*prompt)),
        r matches Ok(plan) ==> is_prompt_plan(*p, *prompt, model@, format, plan),
        r matches Err(e) ==> is_invalid_image_error(e, true),
{
    let json = match format {
        ExtendedOutputFormat::Text => false,
        _ => true,
    };
    match p {
        ProviderImpl::OpenAICompatible(o) => match o.prompt_request(prompt, model, json) {
            Ok(request) => Ok(PromptPlan { request, read: AnswerRead::OpenAIText }),
            Err(e) => Err(e),
        },
        ProviderImpl::OLlama(o) => Ok(
            PromptPlan { request: o.prompt_request(prompt, model, json), read: AnswerRead::OllamaText },
        ),
        ProviderImpl::Gemini(g) => match g.prompt_request(prompt, model, json) {
            Ok(request) => Ok(PromptPlan { request, read: AnswerRead::GeminiText }),
            Err(e) => Err(e),
        },
        ProviderImpl::Anthropic(a) => {
            let (ask, read) = match format {
                ExtendedOutputFormat::Text => (AnthropicAsk::Text, AnswerRead::AnthropicText),
                ExtendedOutputFormat::JSON => (AnthropicAsk::Json, AnswerRead::AnthropicObject),
                ExtendedOutputFormat::Bool => (AnthropicAsk::BoolReason, AnswerRead::AnthropicBool),
            };
            match a.prompt_request(prompt, model, ask) {
                Ok(request) => Ok(PromptPlan { request, read }),
                Err(e) => Err(e),
            }
        },
    }
}

/// Why a prompt could not be run in a provider.
pub enum PromptError {
    /// No provider has the id asked for.
    AbsentProvider,
    Module(ModuleError),
}

/// Plans a prompt in the provider with id `provider_id`, which must be one of `providers`.
pub fn exec_prompt_in_provider(
    providers: &StrMap<ProviderImpl>,
    prompt: &Internal,
    model: &str,
    provider_id: &str,
    format: ExtendedOutputFormat,
) -> (r: Result<PromptPlan, PromptError>)
    ensures
        !providers@.contains_key(provider_id@) ==> r is Err && r->Err_0 is AbsentProvider,
        providers@.contains_key(provider_id@) ==> {
            let p = providers@[provider_id@];
            &&& r is Ok <==> (!plan_sends_image_kinds(p, format) || images_known(*prompt))
            &&& r matches Ok(plan) ==> is_prompt_plan(p, *prompt, model@, format, plan)
            &&& r matches Err(e) ==> (e matches PromptError::Module(m) && is_invalid_image_error(m, true))
        },
{
    match providers.get(provider_id) {
        None => Err(PromptError::AbsentProvider),
        Some(p) => match prompt_plan(p, prompt, model, format) {
            Ok(plan) => Ok(plan),
            Err(e) => Err(PromptError::Module(e)),
        },
    }
}

/// The text at the place `read` names, for the readers of text.
pub open spec fn spec_answer_text(read: AnswerRead, v: JsonValue) -> Option<Seq<char>> {
    match read {
        AnswerRead::OpenAIText => spec_chat_content(v),
        AnswerRead::OllamaText => jstr(jfield(Some(v), "response"@)),
        AnswerRead::GeminiText => jstr(
            jfield(
                jindex(jfield(jfield(jindex(jfield(Some(v), "candidates"@), 0), "content"@), "parts"@), 0),
                "text"@,
            ),
        ),
        _ => jstr(jfield(jindex(jfield(Some(v), "content"@), 0), "text"@)),
    }
}

/// The answer found in a response.
pub enum ReadAnswer {
    /// The answer, as text.
    Text(String),
    /// JSON text, its fence and blanks removed, that must hold an object: the answer, or, when a
    /// boolean is wanted, the object whose `result` is the answer.
    ObjectText(String),
    /// The answer, an object.
    Object(JsonValue),
    /// The answer, a boolean.
    Bool(bool),
}

/// `r` is what the response `v` answers at the place `read` names, for an answer in `format`:
/// a text found where an object or a boolean is wanted is handed on as JSON text to parse.
pub open spec fn is_read_answer(
    read: AnswerRead,
    format: ExtendedOutputFormat,
    v: JsonValue,
    r: Result<ReadAnswer, AnswerError>,
) -> bool {
    &&& read == AnswerRead::AnthropicObject ==> match jfield(
        jindex(jfield(Some(v), "content"@), 0),
        "input"@,
    ) {
        Some(x) => if x is Object {
            r matches Ok(ReadAnswer::Object(o)) && o == x
        } else {
            r matches Err(e) && e == AnswerError::NoResponse
        },
        None => r matches Err(e) && e == AnswerError::NoResponse,
    }
    &&& read == AnswerRead::AnthropicBool ==> match jbool(
        jfield(jfield(jindex(jfield(Some(v), "content"@), 0), "input"@), "result"@),
    ) {
        Some(b) => r matches Ok(ReadAnswer::Bool(x)) && x == b,
        None => r matches Err(e) && e == AnswerError::NotABool,
    }
    &&& read != AnswerRead::AnthropicObject && read != AnswerRead::AnthropicBool ==> match spec_answer_text(read, v) {
        Some(c) => if format == ExtendedOutputFormat::Text {
            r matches Ok(ReadAnswer::Text(s)) && s@ == c
        } else {
            r matches Ok(ReadAnswer::ObjectText(s)) && s@ == spec_sanitize_json(c)
        },
        None => r matches Err(e) && e == AnswerError::NoResponse,
    }
}

/// Reads the answer of the response `v` at the place `read` names, for an answer in `format`.
pub fn read_answer(read: AnswerRead, format: ExtendedOutputFormat, v: JsonValue) -> (r: Result<
    ReadAnswer,
    AnswerError,
>)
    ensures
        is_read_answer(read, format, v, r),
{
    let text = match read {
        AnswerRead::AnthropicObject => {
            return match anthropic_json_answer(v) {
                Ok(o) => Ok(ReadAnswer::Object(o)),
                Err(e) => Err(e),
            };
        },
        AnswerRead::AnthropicBool => {
            return match anthropic_bool_answer(&v) {
                Ok(b) => Ok(ReadAnswer::Bool(b)),
                Err(e) => Err(e),
            };
        },
        AnswerRead::OpenAIText => openai_answer(&v),
        AnswerRead::OllamaText => ollama_text_answer(&v),
        AnswerRead::GeminiText => gemini_answer(&v),
        AnswerRead::AnthropicText => anthropic_answer(&v),
    };
    match text {
        Ok(t) => match format {
            ExtendedOutputFormat::Text => Ok(ReadAnswer::Text(t)),
            _ => Ok(ReadAnswer::ObjectText(String::from_str(sanitize_json_str(t.as_str())))),
        },
        Err(e) => Err(e),
    }
}

/// Reads the answer from the text `body` of a response: the text is parsed as JSON and read as
/// [`read_answer`] reads it; a text that is no JSON document is refused.
pub fn read_reply(read: AnswerRead, format: ExtendedOutputFormat, body: &str) -> (r: Result<
    ReadAnswer,
    AnswerError,
>)
    ensures
        match json_parse(body@) {
            Some(v) => is_read_answer(read, format, v, r),
            None => r matches Err(e) && e == AnswerError::NotJson,
        },
{
    match json_from_str(body) {
        Some(v) => read_answer(read, format, v),
        None => Err(AnswerError::NotJson),
    }
}

/// The bits of the `f32` nearest to 0.7.
pub const TEMPERATURE_0_7_BITS: u32 = 0x3F33_3333;

/// The prompt that checks a backend: it asks for the two letters `ok` in lower case, with no
/// system message or image, at temperature 0.7 and at most 30 tokens.
pub fn check_prompt() -> (r: Internal)
    ensures
        r.system_message is None,
        r.user_message@
            == "Respond with two letters \"ok\" (without quotes) and only this word, lowercase"@,
        r.temperature_bits == TEMPERATURE_0_7_BITS,
        r.images@.len() == 0,
        r.max_tokens == 30,
        r.use_max_completion_tokens,
{
    Internal {
        system_message: None,
        user_message: String::from_str(
            "Respond with two letters \"ok\" (without quotes) and only this word, lowercase",
        ),
        temperature_bits: TEMPERATURE_0_7_BITS,
        images: Vec::new(),
        max_tokens: 30,
        use_max_completion_tokens: true,
    }
}

} // verus!
