use vstd::prelude::*;

use crate::common::ModuleError;
use crate::str_map::{filter_by_flags, StrMap};

verus! {

/// The image formats a prompt may carry.
#[derive(Clone, Copy, PartialEq, Eq, Debug, Structural)]
pub enum ImageType {
    PNG,
    JPG,
}

/// The signature that starts every PNG file.
pub open spec fn png_signature() -> Seq<u8> {
    seq![0x89u8, 0x50u8, 0x4Eu8, 0x47u8, 0x0Du8, 0x0Au8, 0x1Au8, 0x0Au8]
}

/// The bytes that start a JPEG file in the JFIF layout.
pub open spec fn jpg_signature() -> Seq<u8> {
    seq![0xFFu8, 0xD8u8, 0xFFu8, 0xE0u8]
}

/// `data` starts with `prefix`.
pub open spec fn bytes_start_with(data: Seq<u8>, prefix: Seq<u8>) -> bool {
    prefix.len() <= data.len() && data.take(prefix.len() as int) == prefix
}

/// The format of an image, told by its first bytes.
pub open spec fn spec_sniff(data: Seq<u8>) -> Option<ImageType> {
    if bytes_start_with(data, png_signature()) {
        Some(ImageType::PNG)
    } else if bytes_start_with(data, jpg_signature()) {
        Some(ImageType::JPG)
    } else {
        None
    }
}

fn starts_with_bytes(data: &[u8], prefix: &[u8]) -> (r: bool)
    ensures
        r == bytes_start_with(data@, prefix@),
{
    if prefix.len() > data.len() {
        return false;
    }
    let mut i: usize = 0;
    while i < prefix.len()
        invariant
            prefix@.len() <= data@.len(),
            0 <= i <= prefix@.len(),
            forall|j: int| 0 <= j < i ==> data@[j] == prefix@[j],
        decreases prefix@.len() - i,
    {
        if data[i] != prefix[i] {
            assert(data@.take(prefix@.len() as int)[i as int] != prefix@[i as int]);
            return false;
        }
        i = i + 1;
    }
    assert(data@.take(prefix@.len() as int) =~= prefix@);
    true
}

impl ImageType {
    /// The format of an image, told by its first bytes: the PNG signature, or the start of a
    /// JFIF JPEG.
    pub fn sniff(data: &[u8]) -> (r: Option<ImageType>)
        ensures
            r == spec_sniff(data@),
    {
        let png: [u8; 8] = [0x89, 0x50, 0x4E, 0x47, 0x0D, 0x0A, 0x1A, 0x0A];
        let jpg: [u8; 4] = [0xFF, 0xD8, 0xFF, 0xE0];
        assert(png@ =~= png_signature());
        assert(jpg@ =~= jpg_signature());
        if starts_with_bytes(data, &png) {
            Some(ImageType::PNG)
        } else if starts_with_bytes(data, &jpg) {
            Some(ImageType::JPG)
        } else {
            None
        }
    }

    /// The format's media type.
    pub open spec fn spec_media_type(self) -> Seq<char> {
        match self {
            ImageType::JPG => "image/jpeg"@,
            ImageType::PNG => "image/png"@,
        }
    }

    /// The format's media type.
    pub fn media_type(self) -> (r: &'static str)
        ensures
            r@ == self.spec_media_type(),
    {
        match self {
            ImageType::JPG => "image/jpeg",
            ImageType::PNG => "image/png",
        }
    }
}

/// The character of a six-bit value in the standard base64 alphabet.
pub open spec fn base64_char(v: int) -> char {
    if v < 26 {
        (65 + v) as char
    } else if v < 52 {
        (97 + v - 26) as char
    } else if v < 62 {
        (48 + v - 52) as char
    } else if v == 62 {
        '+'
    } else {
        '/'
    }
}

/// Standard base64 with padding: each three bytes become four characters; a last group of
/// one or two bytes is padded with `=` to four characters.
pub open spec fn base64_encode(b: Seq<u8>) -> Seq<char>
    decreases b.len(),
{
    if b.len() == 0 {
        Seq::empty()
    } else if b.len() == 1 {
        seq![base64_char(b[0] as int / 4), base64_char((b[0] % 4) * 16), '=', '=']
    } else if b.len() == 2 {
        seq![
            base64_char(b[0] as int / 4),
            base64_char((b[0] % 4) * 16 + b[1] / 16),
            base64_char((b[1] % 16) * 4),
            '=',
        ]
    } else {
        seq![
            base64_char(b[0] as int / 4),
            base64_char((b[0] % 4) * 16 + b[1] / 16),
            base64_char((b[1] % 16) * 4 + b[2] / 64),
            base64_char(b[2] as int % 64),
        ] + base64_encode(b.skip(3))
    }
}

/// Calls `base64::Engine::encode` of the engine `BASE64_STANDARD`: the standard alphabet of
/// RFC 4648 with padding.
#[verifier::external_body]
fn base64_standard(bytes: &[u8]) -> (r: String)
    ensures
        r@ == base64_encode(bytes@),
{
    base64::Engine::encode(&base64::prelude::BASE64_STANDARD, bytes)
}

/// An image handed to a prompt by a script.
pub struct ImageLua(pub Vec<u8>);

/// The error for an image of no known format.
pub open spec fn is_invalid_image_error(e: ModuleError, fatal: bool) -> bool {
    &&& e.causes@.len() == 1
    &&& e.causes@[0]@ == "INVALID_IMAGE"@
    &&& e.fatal == fatal
    &&& e.ctx@.len() == 0
}

/// The error for an image of no known format.
pub fn invalid_image_error(fatal: bool) -> (r: ModuleError)
    ensures
        is_invalid_image_error(r, fatal),
{
    let mut causes: Vec<String> = Vec::new();
    causes.push(String::from_str("INVALID_IMAGE"));
    ModuleError { causes, fatal, ctx: Vec::new() }
}

impl ImageLua {
    /// The image in standard base64.
    pub fn as_base64(&self) -> (r: String)
        ensures
            r@ == base64_encode(self.0@),
    {
        base64_standard(self.0.as_slice())
    }

    /// The image's format; an image of no known format is a fatal error.
    pub fn kind_or_error(&self) -> (r: Result<ImageType, ModuleError>)
        ensures
            spec_sniff(self.0@) matches Some(k) ==> r == Ok::<ImageType, ModuleError>(k),
            spec_sniff(self.0@) is None ==> (r matches Err(e) && is_invalid_image_error(e, true)),
    {
        match ImageType::sniff(self.0.as_slice()) {
            Some(k) => Ok(k),
            None => Err(invalid_image_error(true)),
        }
    }
}

/// Whether every image of a prompt has a known format; the first that does not is refused
/// with a non-fatal error.
pub fn check_prompt_images(images: &Vec<crate::interfaces::Image>) -> (r: Result<(), ModuleError>)
    ensures
        r is Ok <==> forall|i: int| 0 <= i < images@.len() ==> spec_sniff(#[trigger] images@[i].0@) is Some,
        r matches Err(e) ==> is_invalid_image_error(e, false),
{
    let mut i: usize = 0;
    while i < images.len()
        invariant
            0 <= i <= images@.len(),
            forall|j: int| 0 <= j < i ==> spec_sniff(#[trigger] images@[j].0@) is Some,
        decreases images@.len() - i,
    {
        if ImageType::sniff(images[i].0.as_slice()).is_none() {
            return Err(invalid_image_error(false));
        }
        i = i + 1;
    }
    Ok(())
}

/// The answer formats a prompt may ask for.
#[derive(Clone, Copy, PartialEq, Eq, Debug, Structural)]
pub enum ExtendedOutputFormat {
    Text,
    JSON,
    Bool,
}

/// The LLM services a backend may be.
#[derive(Clone, Copy, PartialEq, Eq, Debug, Structural)]
pub enum Provider {
    Ollama,
    OpenaiCompatible,
    Anthropic,
    Google,
}

/// What a backend offers of one model.
pub struct ModelConfig {
    pub enabled: bool,
    pub supports_json: bool,
    pub supports_image: bool,
    pub use_max_completion_tokens: bool,
    /// The model's settings that only the scripts read, as JSON text.
    pub meta: String,
}

/// One LLM backend: where it is, what it is, its key and its models.
pub struct BackendConfig {
    pub enabled: bool,
    pub host: String,
    pub provider: Provider,
    pub key: String,
    pub models: StrMap<ModelConfig>,
}

/// The command-line arguments of the module's `run` command: where its configuration is, whether
/// it may start with no backend left, and whether it stops when its parent does.
pub struct CliArgsRun {
    pub config: String,
    pub allow_empty_backends: bool,
    pub die_with_parent: bool,
}

/// The command-line arguments of the module's `check` command: where its configuration is, and
/// the one backend to check: its host, model, service and key.
pub struct CliArgsCheck {
    pub config: String,
    pub host: String,
    pub model: String,
    pub provider: Provider,
    pub key: String,
}

/// A backend that speaks the OpenAI chat completions API.
pub struct OpenAICompatible {
    pub config: BackendConfig,
}

/// A Google Gemini backend.
pub struct Gemini {
    pub config: BackendConfig,
}

/// An Ollama backend.
pub struct OLlama {
    pub config: BackendConfig,
}

/// An Anthropic backend.
pub struct Anthropic {
    pub config: BackendConfig,
}

/// A backend, by the service it speaks to.
pub enum ProviderImpl {
    OLlama(OLlama),
    OpenAICompatible(OpenAICompatible),
    Anthropic(Anthropic),
    Gemini(Gemini),
}

impl BackendConfig {
    /// The client for the backend's service, holding its configuration.
    pub fn to_provider(self) -> (r: ProviderImpl)
        ensures
            match self.provider {
                Provider::Ollama => r matches ProviderImpl::OLlama(p) && p.config == self,
                Provider::OpenaiCompatible => r matches ProviderImpl::OpenAICompatible(p)
                    && p.config == self,
                Provider::Anthropic => r matches ProviderImpl::Anthropic(p) && p.config == self,
                Provider::Google => r matches ProviderImpl::Gemini(p) && p.config == self,
            },
    {
        match self.provider {
            Provider::Ollama => ProviderImpl::OLlama(OLlama { config: self }),
            Provider::OpenaiCompatible => ProviderImpl::OpenAICompatible(
                OpenAICompatible { config: self },
            ),
            Provider::Anthropic => ProviderImpl::Anthropic(Anthropic { config: self }),
            Provider::Google => ProviderImpl::Gemini(Gemini { config: self }),
        }
    }
}

/// The flags of the enabled models, in key order.
pub open spec fn enabled_flags(models: Seq<(String, ModelConfig)>) -> Seq<bool> {
    Seq::new(models.len(), |i: int| models[i].1.enabled)
}

/// A backend after the start-up check, as a model of its fields: its enabled models are kept,
/// and it stays enabled only when it was, some model is left, and it has a key.
pub open spec fn spec_checked_backend(
    enabled: bool,
    key: Seq<char>,
    models: Seq<(String, ModelConfig)>,
) -> (bool, Seq<(String, ModelConfig)>) {
    if !enabled {
        (false, models)
    } else {
        let left = filter_by_flags(models, enabled_flags(models));
        (left.len() > 0 && key.len() > 0, left)
    }
}

/// Checks a backend at start-up: a disabled backend stays as it is; an enabled one keeps only
/// its enabled models, and is disabled when none is left or it has no key.
pub fn check_backend(b: &mut BackendConfig)
    ensures
        (final(b).enabled, final(b).models.spec_entries()) == spec_checked_backend(
            old(b).enabled,
            old(b).key@,
            old(b).models.spec_entries(),
        ),
        final(b).host == old(b).host,
        final(b).key == old(b).key,
        final(b).provider == old(b).provider,
{
    if !b.enabled {
        return ;
    }
    let mut flags: Vec<bool> = Vec::new();
    let entries = b.models.entries();
    let mut i: usize = 0;
    while i < entries.len()
        invariant
            0 <= i <= entries@.len(),
            flags@ == enabled_flags(entries@).take(i as int),
        decreases entries@.len() - i,
    {
        flags.push(entries[i].1.enabled);
        assert(flags@ =~= enabled_flags(entries@).take(i + 1));
        i = i + 1;
    }
    assert(flags@ =~= enabled_flags(entries@));
    let mut models = StrMap::new();
    std::mem::swap(&mut models, &mut b.models);
    models.retain_flags(&flags);
    if models.len() == 0 || b.key.unicode_len() == 0 {
        b.enabled = false;
    }
    b.models = models;
}

/// Why the LLM service does not start.
#[derive(Debug)]
pub enum StartError {
    /// No backend is left after the start-up check.
    NoValidBackend,
}

/// Which backends stay enabled after the start-up check.
pub open spec fn kept_flags(all: Seq<(String, BackendConfig)>) -> Seq<bool> {
    Seq::new(
        all.len(),
        |i: int| spec_checked_backend(all[i].1.enabled, all[i].1.key@, all[i].1.models.spec_entries()).0,
    )
}

/// `after` is `before` as the start-up check leaves it: the same host, key and service, and the
/// enabled flag and models that the check gives.
pub open spec fn is_checked(after: BackendConfig, before: BackendConfig) -> bool {
    &&& (after.enabled, after.models.spec_entries()) == spec_checked_backend(
        before.enabled,
        before.key@,
        before.models.spec_entries(),
    )
    &&& after.host == before.host
    &&& after.key == before.key
    &&& after.provider == before.provider
}

/// The backends left by the start-up check: `left` holds, in order, each backend of `all` that
/// stays enabled, under its name and as the check leaves it.
pub open spec fn backends_left(left: Seq<(String, BackendConfig)>, all: Seq<(String, BackendConfig)>) -> bool {
    backends_left_prefix(left, all, kept_flags(all))
}

/// Checks the backends at start-up and keeps, in order, the ones that stay enabled: those that
/// were enabled, have a key and some enabled model, each with only its enabled models. Without
/// any left the service does not start, unless `allow_empty`.
pub fn filter_backends(backends: Vec<(String, BackendConfig)>, allow_empty: bool) -> (r: Result<
    Vec<(String, BackendConfig)>,
    StartError,
>)
    ensures
        r is Err <==> filter_by_flags(backends@, kept_flags(backends@)).len() == 0 && !allow_empty,
        r matches Ok(left) ==> backends_left(left@, backends@),
{
    let ghost all = backends@;
    let mut backends = backends;
    let n = backends.len();
    let mut left: Vec<(String, BackendConfig)> = Vec::new();
    let mut rev: Vec<(String, BackendConfig)> = Vec::new();
    let mut k: usize = 0;
    while k < n
        invariant
            n == all.len(),
            0 <= k <= n,
            backends@ == all.take(n - k),
            rev@.len() == k,
            forall|i: int| 0 <= i < k ==> #[trigger] rev@[i] == all[n - 1 - i],
        decreases n - k,
    {
        let e = backends.pop().unwrap();
        assert(backends@ =~= all.take(n - k - 1));
        rev.push(e);
        k = k + 1;
    }
    let ghost flags = kept_flags(all);
    let mut i: usize = 0;
    while i < n
        invariant
            n == all.len(),
            flags == kept_flags(all),
            0 <= i <= n,
            rev@.len() == n - i,
            forall|j: int| 0 <= j < n - i ==> #[trigger] rev@[j] == all[n - 1 - j],
            backends_left_prefix(left@, all.take(i as int), flags.take(i as int)),
        decreases n - i,
    {
        let (name, mut b) = rev.pop().unwrap();
        let ghost before = b;
        assert((name, b) == all[i as int]);
        check_backend(&mut b);
        let keep = b.enabled;
        assert(keep == flags[i as int]);
        assert(all.take(i + 1).drop_last() =~= all.take(i as int));
        assert(flags.take(i + 1).take(i as int) =~= flags.take(i as int));
        assert(all.take(i + 1).last() == all[i as int]);
        let ghost left_before = left@;
        if keep {
            left.push((name, b));
            proof {
                assert(is_checked(b, before));
                assert(left@[left@.len() - 1] == (name, b));
            }
        }
        proof {
            let kept = filter_by_flags(all.take(i + 1), flags.take(i + 1));
            assert forall|j: int| 0 <= j < left@.len() implies (#[trigger] left@[j]).0 == kept[j].0
                && is_checked(left@[j].1, kept[j].1) by {
                if j < left_before.len() {
                    assert(left@[j] == left_before[j]);
                }
            }
        }
        i = i + 1;
    }
    assert(all.take(n as int) =~= all);
    assert(flags.take(n as int) =~= flags);
    if left.len() == 0 && !allow_empty {
        return Err(StartError::NoValidBackend);
    }
    Ok(left)
}

/// `left` holds, in order, the backends of `all` whose flag is set, under their names and as
/// the start-up check leaves them.
pub open spec fn backends_left_prefix(
    left: Seq<(String, BackendConfig)>,
    all: Seq<(String, BackendConfig)>,
    flags: Seq<bool>,
) -> bool {
    let kept = filter_by_flags(all, flags);
    &&& left.len() == kept.len()
    &&& forall|j: int|
        0 <= j < left.len() ==> (#[trigger] left[j]).0 == kept[j].0 && is_checked(left[j].1, kept[j].1)
}

/// The answer format a prompt's configuration asks for.
#[derive(Clone, Copy, PartialEq, Eq, Debug, Structural)]
pub enum ResponseFormat {
    Text,
    Json,
}

/// The answer format asked for, text when none is.
pub fn response_format_or_text(f: Option<ResponseFormat>) -> (r: ResponseFormat)
    ensures
        r == match f {
            Some(x) => x,
            None => ResponseFormat::Text,
        },
{
    match f {
        Some(x) => x,
        None => ResponseFormat::Text,
    }
}

/// A JSON document. An answer's number is read only by its value as a `u64`, when it has one;
/// a request carries its sampling temperature as a number written from a float, by its bits.
pub enum JsonValue {
    Null,
    Bool(bool),
    Number(Option<u64>),
    /// A number written from the `f32` with these bits.
    Float32(u32),
    /// A number written from the `f64` with these bits.
    Float64(u64),
    Str(String),
    Array(Vec<JsonValue>),
    /// Members in order.
    Object(Vec<(String, JsonValue)>),
}

/// The document that `serde_json` reads from `text`, as a [`JsonValue`]; `None` where it
/// refuses the text.
pub uninterp spec fn json_parse(text: Seq<char>) -> Option<JsonValue>;

/// Parses `text` with `serde_json::from_str` into a `serde_json::Value` and gives that value as
/// a [`JsonValue`]: a number by `as_u64`, each element and member value in the same way from
/// its own text (`to_string`), members in the order of `serde_json`'s map. Nothing is claimed
/// of the result but that it is [`json_parse`] of `text`.
#[verifier::external_body]
pub(crate) fn json_from_str(text: &str) -> (r: Option<JsonValue>)
    ensures
        r == json_parse(text@),
{
    let again = |x: &serde_json::Value| json_from_str(&x.to_string());
    Some(match serde_json::from_str(text).ok()? {
        serde_json::Value::Null => JsonValue::Null,
        serde_json::Value::Bool(b) => JsonValue::Bool(b),
        serde_json::Value::Number(n) => JsonValue::Number(n.as_u64()),
        serde_json::Value::String(s) => JsonValue::Str(s),
        serde_json::Value::Array(a) => JsonValue::Array(a.iter().map(again).collect::<Option<_>>()?),
        serde_json::Value::Object(m) => JsonValue::Object(
            m.iter().map(|(k, x)| Some((k.clone(), again(x)?))).collect::<Option<_>>()?,
        ),
    })
}

/// The value of the first member named `key`.
pub open spec fn members_get(m: Seq<(String, JsonValue)>, key: Seq<char>) -> Option<JsonValue>
    decreases m.len(),
{
    if m.len() == 0 {
        None
    } else if m[0].0@ == key {
        Some(m[0].1)
    } else {
        members_get(m.drop_first(), key)
    }
}

/// Member `key` of an object.
pub open spec fn jfield(v: Option<JsonValue>, key: Seq<char>) -> Option<JsonValue> {
    match v {
        Some(JsonValue::Object(m)) => members_get(m@, key),
        _ => None,
    }
}

/// Element `i` of an array.
pub open spec fn jindex(v: Option<JsonValue>, i: int) -> Option<JsonValue> {
    match v {
        Some(JsonValue::Array(a)) => if 0 <= i < a@.len() {
            Some(a@[i])
        } else {
            None
        },
        _ => None,
    }
}

/// The text of a string.
pub open spec fn jstr(v: Option<JsonValue>) -> Option<Seq<char>> {
    match v {
        Some(JsonValue::Str(s)) => Some(s@),
        _ => None,
    }
}

/// The value of a number that is a `u64`.
pub open spec fn ju64(v: Option<JsonValue>) -> Option<u64> {
    match v {
        Some(JsonValue::Number(n)) => n,
        _ => None,
    }
}

/// The truth value of a boolean.
pub open spec fn jbool(v: Option<JsonValue>) -> Option<bool> {
    match v {
        Some(JsonValue::Bool(b)) => Some(b),
        _ => None,
    }
}

/// The value a reference points to, if any.
pub open spec fn deref_opt(v: Option<&JsonValue>) -> Option<JsonValue> {
    match v {
        Some(x) => Some(*x),
        None => None,
    }
}

/// Member `key` of an object.
pub fn json_field<'a>(v: Option<&'a JsonValue>, key: &str) -> (r: Option<&'a JsonValue>)
    ensures
        match r {
            Some(x) => jfield(deref_opt(v), key@) == Some(*x),
            None => jfield(deref_opt(v), key@) is None,
        },
{
    match v {
        Some(JsonValue::Object(m)) => {
            let mut i: usize = 0;
            assert(m@.skip(0) =~= m@);
            while i < m.len()
                invariant
                    0 <= i <= m@.len(),
                    jfield(deref_opt(v), key@) == members_get(m@, key@),
                    members_get(m@, key@) == members_get(m@.skip(i as int), key@),
                decreases m@.len() - i,
            {
                assert(m@.skip(i as int).drop_first() =~= m@.skip(i + 1));
                assert(m@.skip(i as int)[0] == m@[i as int]);
                if crate::text::str_equal(m[i].0.as_str(), key) {
                    assert(members_get(m@.skip(i as int), key@) == Some(m@[i as int].1));
                    return Some(&m[i].1);
                }
                i = i + 1;
            }
            None
        },
        _ => None,
    }
}

/// Member `key` of an object, taken out of it.
pub fn json_take_field(v: Option<JsonValue>, key: &str) -> (r: Option<JsonValue>)
    ensures
        r == jfield(v, key@),
{
    match v {
        Some(JsonValue::Object(m)) => {
            let mut m = m;
            let ghost m0 = m@;
            let mut i: usize = 0;
            assert(m0.skip(0) =~= m0);
            while i < m.len()
                invariant
                    m@ == m0,
                    0 <= i <= m0.len(),
                    jfield(v, key@) == members_get(m0, key@),
                    members_get(m0, key@) == members_get(m0.skip(i as int), key@),
                decreases m0.len() - i,
            {
                assert(m0.skip(i as int).drop_first() =~= m0.skip(i + 1));
                assert(m0.skip(i as int)[0] == m0[i as int]);
                if crate::text::str_equal(m[i].0.as_str(), key) {
                    assert(members_get(m0.skip(i as int), key@) == Some(m0[i as int].1));
                    let e = m.remove(i);
                    return Some(e.1);
                }
                i = i + 1;
            }
            None
        },
        _ => None,
    }
}

/// Element `i` of an array, taken out of it.
pub fn json_take_index(v: Option<JsonValue>, i: usize) -> (r: Option<JsonValue>)
    ensures
        r == jindex(v, i as int),
{
    match v {
        Some(JsonValue::Array(a)) => if i < a.len() {
            let mut a = a;
            Some(a.remove(i))
        } else {
            None
        },
        _ => None,
    }
}

/// Element `i` of an array.
pub fn json_index<'a>(v: Option<&'a JsonValue>, i: usize) -> (r: Option<&'a JsonValue>)
    ensures
        match r {
            Some(x) => jindex(deref_opt(v), i as int) == Some(*x),
            None => jindex(deref_opt(v), i as int) is None,
        },
{
    match v {
        Some(JsonValue::Array(a)) => if i < a.len() {
            Some(&a[i])
        } else {
            None
        },
        _ => None,
    }
}

/// The text of a string.
pub fn json_str(v: Option<&JsonValue>) -> (r: Option<&str>)
    ensures
        match r {
            Some(s) => jstr(deref_opt(v)) == Some(s@),
            None => jstr(deref_opt(v)) is None,
        },
{
    match v {
        Some(JsonValue::Str(s)) => Some(s.as_str()),
        _ => None,
    }
}

/// The value of a number that is a `u64`.
pub fn json_u64(v: Option<&JsonValue>) -> (r: Option<u64>)
    ensures
        r == ju64(deref_opt(v)),
{
    match v {
        Some(JsonValue::Number(n)) => *n,
        _ => None,
    }
}

/// Why an answer of an LLM service is refused.
#[derive(Clone, Copy, PartialEq, Eq, Debug, Structural)]
pub enum AnswerError {
    /// The answer's text is missing.
    NoResponse,
    /// The answer's cost is missing.
    NoUsage,
    /// The answer names no truth value, or both.
    NotABool,
    /// The response is no JSON document.
    NotJson,
}

/// The text of a chat completion: `choices[0].message.content`.
pub open spec fn spec_chat_content(v: JsonValue) -> Option<Seq<char>> {
    jstr(jfield(jfield(jindex(jfield(Some(v), "choices"@), 0), "message"@), "content"@))
}

/// The tokens a chat completion cost: `usage.total_tokens`.
pub open spec fn spec_chat_tokens(v: JsonValue) -> Option<u64> {
    ju64(jfield(jfield(Some(v), "usage"@), "total_tokens"@))
}

/// The text and the cost in tokens of a chat completion.
pub fn chat_completion_answer(v: &JsonValue) -> (r: Result<(String, u64), AnswerError>)
    ensures
        match (spec_chat_content(*v), spec_chat_tokens(*v)) {
            (Some(c), Some(t)) => r matches Ok((s, n)) && s@ == c && n == t,
            (Some(_), None) => r == Err::<(String, u64), AnswerError>(AnswerError::NoUsage),
            (None, _) => r == Err::<(String, u64), AnswerError>(AnswerError::NoResponse),
        },
{
    proof {
        reveal_strlit("choices");
        reveal_strlit("message");
        reveal_strlit("content");
        reveal_strlit("usage");
        reveal_strlit("total_tokens");
    }
    let content = json_str(
        json_field(json_field(json_index(json_field(Some(v), "choices"), 0), "message"), "content"),
    );
    let content = match content {
        Some(c) => c,
        None => {
            return Err(AnswerError::NoResponse);
        },
    };
    match json_u64(json_field(json_field(Some(v), "usage"), "total_tokens")) {
        Some(t) => Ok((String::from_str(content), t)),
        None => Err(AnswerError::NoUsage),
    }
}

/// The text and the time an Ollama generation took: `response` and `eval_duration`.
pub fn ollama_answer(v: &JsonValue) -> (r: Result<(String, u64), AnswerError>)
    ensures
        match (
            jstr(jfield(Some(*v), "response"@)),
            ju64(jfield(Some(*v), "eval_duration"@)),
        ) {
            (Some(c), Some(t)) => r matches Ok((s, n)) && s@ == c && n == t,
            (Some(_), None) => r == Err::<(String, u64), AnswerError>(AnswerError::NoUsage),
            (None, _) => r == Err::<(String, u64), AnswerError>(AnswerError::NoResponse),
        },
{
    proof {
        reveal_strlit("response");
        reveal_strlit("eval_duration");
    }
    let content = match json_str(json_field(Some(v), "response")) {
        Some(c) => c,
        None => {
            return Err(AnswerError::NoResponse);
        },
    };
    match json_u64(json_field(Some(v), "eval_duration")) {
        Some(t) => Ok((String::from_str(content), t)),
        None => Err(AnswerError::NoUsage),
    }
}

/// The text of an answer of the simulator: `result.response`.
pub fn simulator_answer(v: &JsonValue) -> (r: Result<String, AnswerError>)
    ensures
        match jstr(jfield(jfield(Some(*v), "result"@), "response"@)) {
            Some(c) => r matches Ok(s) && s@ == c,
            None => r == Err::<String, AnswerError>(AnswerError::NoResponse),
        },
{
    proof {
        reveal_strlit("result");
        reveal_strlit("response");
    }
    match json_str(json_field(json_field(Some(v), "result"), "response")) {
        Some(c) => Ok(String::from_str(c)),
        None => Err(AnswerError::NoResponse),
    }
}

/// The truth value that an answer in JSON holds under `result`.
pub fn json_answer_is_bool(v: &JsonValue) -> (r: Result<bool, AnswerError>)
    ensures
        match jbool(jfield(Some(*v), "result"@)) {
            Some(b) => r == Ok::<bool, AnswerError>(b),
            None => r == Err::<bool, AnswerError>(AnswerError::NotABool),
        },
{
    proof {
        reveal_strlit("result");
    }
    match json_field(Some(v), "result") {
        Some(JsonValue::Bool(b)) => Ok(*b),
        _ => Err(AnswerError::NotABool),
    }
}

/// Takes the cost of an answer from the gas left: `units` shifted left by `shift` bits (as a
/// `u64` shift drops the high bits), but never more than is left.
pub fn charge_gas(gas: &mut u64, units: u64, shift: u32)
    requires
        shift < 64,
    ensures
        *final(gas) == *old(gas) - if (units << shift) < *old(gas) {
            units << shift
        } else {
            *old(gas)
        },
{
    let cost = units << shift;
    if cost < *gas {
        *gas = *gas - cost;
    } else {
        *gas = 0;
    }
}

/// `hay` holds `needle` somewhere.
pub open spec fn seq_has(hay: Seq<char>, needle: Seq<char>) -> bool {
    exists|i: int| 0 <= i <= hay.len() - needle.len() && #[trigger] hay.subrange(i, i + needle.len()) == needle
}

/// A character with ASCII letters put in lower case.
pub open spec fn ascii_lower(c: char) -> char {
    if 'A' <= c && c <= 'Z' {
        ((c as u32) + 32) as char
    } else {
        c
    }
}

/// A text with its ASCII letters put in lower case.
pub open spec fn ascii_lowercase(s: Seq<char>) -> Seq<char> {
    Seq::new(s.len(), |i: int| ascii_lower(s[i]))
}

fn lower_chars(s: &str) -> (r: Vec<char>)
    ensures
        r@ == ascii_lowercase(s@),
{
    let n = s.unicode_len();
    let mut out: Vec<char> = Vec::new();
    let mut i: usize = 0;
    while i < n
        invariant
            n == s@.len(),
            0 <= i <= n,
            out@ == ascii_lowercase(s@).take(i as int),
        decreases n - i,
    {
        let c = s.get_char(i);
        let l = if 'A' <= c && c <= 'Z' {
            char_from_ascii(c as u8 + 32)
        } else {
            c
        };
        out.push(l);
        assert(out@ =~= ascii_lowercase(s@).take(i + 1));
        i = i + 1;
    }
    assert(ascii_lowercase(s@).take(n as int) =~= ascii_lowercase(s@));
    out
}

fn char_from_ascii(b: u8) -> (r: char)
    requires
        b < 128,
    ensures
        r == b as char,
{
    b as char
}

fn matches_at(hay: &Vec<char>, needle: &[char], i: usize) -> (r: bool)
    requires
        i + needle@.len() <= hay@.len(),
    ensures
        r == (hay@.subrange(i as int, i + needle@.len()) == needle@),
{
    let hl = hay.len();
    let mut j: usize = 0;
    while j < needle.len()
        invariant
            0 <= j <= needle@.len(),
            hl == hay@.len(),
            i + needle@.len() <= hay@.len(),
            forall|m: int| 0 <= m < j ==> hay@[i + m] == needle@[m],
        decreases needle@.len() - j,
    {
        if hay[i + j] != needle[j] {
            assert(hay@.subrange(i as int, i + needle@.len())[j as int] != needle@[j as int]);
            return false;
        }
        j = j + 1;
    }
    assert(hay@.subrange(i as int, i + needle@.len()) =~= needle@);
    true
}

fn chars_have(hay: &Vec<char>, needle: &[char]) -> (r: bool)
    ensures
        r == seq_has(hay@, needle@),
{
    if needle.len() > hay.len() {
        return false;
    }
    let last = hay.len() - needle.len();
    let mut i: usize = 0;
    while i < last
        invariant
            last == hay@.len() - needle@.len(),
            0 <= i <= last,
            forall|k: int| 0 <= k < i ==> #[trigger] hay@.subrange(k, k + needle@.len()) != needle@,
        decreases last - i,
    {
        if matches_at(hay, needle, i) {
            return true;
        }
        i = i + 1;
    }
    matches_at(hay, needle, last)
}

/// The truth value of an answer: put in lower case, it must name exactly one of `true` and
/// `false`.
pub fn answer_is_bool(res: String) -> (r: Result<bool, AnswerError>)
    ensures
        seq_has(ascii_lowercase(res@), "true"@) == seq_has(ascii_lowercase(res@), "false"@) ==> r
            == Err::<bool, AnswerError>(AnswerError::NotABool),
        seq_has(ascii_lowercase(res@), "true"@) != seq_has(ascii_lowercase(res@), "false"@) ==> r
            == Ok::<bool, AnswerError>(seq_has(ascii_lowercase(res@), "true"@)),
{
    let lower = lower_chars(res.as_str());
    let t: [char; 4] = ['t', 'r', 'u', 'e'];
    let f: [char; 5] = ['f', 'a', 'l', 's', 'e'];
    proof {
        reveal_strlit("true");
        reveal_strlit("false");
        assert(t@ =~= "true"@);
        assert(f@ =~= "false"@);
    }
    let has_true = chars_have(&lower, &t);
    let has_false = chars_have(&lower, &f);
    if has_true == has_false {
        return Err(AnswerError::NotABool);
    }
    Ok(has_true)
}


/// The characters with the Unicode `White_Space` property, which `char::is_whitespace` tests.
pub open spec fn is_white_space(c: char) -> bool {
    ('\u{9}' <= c && c <= '\u{d}') || c == ' ' || c == '\u{85}' || c == '\u{a0}' || c == '\u{1680}'
        || ('\u{2000}' <= c && c <= '\u{200a}') || c == '\u{2028}' || c == '\u{2029}' || c
        == '\u{202f}' || c == '\u{205f}' || c == '\u{3000}'
}

fn white_space(c: char) -> (r: bool)
    ensures
        r == is_white_space(c),
{
    ('\u{9}' <= c && c <= '\u{d}') || c == ' ' || c == '\u{85}' || c == '\u{a0}' || c == '\u{1680}'
        || ('\u{2000}' <= c && c <= '\u{200a}') || c == '\u{2028}' || c == '\u{2029}' || c
        == '\u{202f}' || c == '\u{205f}' || c == '\u{3000}'
}

/// How many white-space characters start `s`.
pub open spec fn leading_ws(s: Seq<char>) -> int
    decreases s.len(),
{
    if s.len() == 0 {
        0
    } else if is_white_space(s[0]) {
        1 + leading_ws(s.drop_first())
    } else {
        0
    }
}

/// How many white-space characters end `s`.
pub open spec fn trailing_ws(s: Seq<char>) -> int
    decreases s.len(),
{
    if s.len() == 0 {
        0
    } else if is_white_space(s.last()) {
        1 + trailing_ws(s.drop_last())
    } else {
        0
    }
}

proof fn lemma_leading_ws(s: Seq<char>)
    ensures
        0 <= leading_ws(s) <= s.len(),
        forall|i: int| 0 <= i < leading_ws(s) ==> is_white_space(#[trigger] s[i]),
        leading_ws(s) < s.len() ==> !is_white_space(s[leading_ws(s)]),
    decreases s.len(),
{
    if s.len() > 0 && is_white_space(s[0]) {
        lemma_leading_ws(s.drop_first());
        assert forall|i: int| 0 <= i < leading_ws(s) implies is_white_space(#[trigger] s[i]) by {
            if i > 0 {
                assert(s[i] == s.drop_first()[i - 1]);
            }
        }
    }
}

proof fn lemma_trailing_ws(s: Seq<char>)
    ensures
        0 <= trailing_ws(s) <= s.len(),
        forall|i: int| s.len() - trailing_ws(s) <= i < s.len() ==> is_white_space(#[trigger] s[i]),
        trailing_ws(s) < s.len() ==> !is_white_space(s[s.len() - 1 - trailing_ws(s)]),
    decreases s.len(),
{
    if s.len() > 0 && is_white_space(s.last()) {
        lemma_trailing_ws(s.drop_last());
        assert forall|i: int| s.len() - trailing_ws(s) <= i < s.len() implies is_white_space(
            #[trigger] s[i],
        ) by {
            if i < s.len() - 1 {
                assert(s[i] == s.drop_last()[i]);
            }
        }
    }
}

/// Trimming takes away only white space, all of it at both ends: the result is a piece of the
/// text, everything before and after it is white space, and it neither starts nor ends with
/// white space.
pub proof fn lemma_trim_strips_white_space(s: Seq<char>)
    ensures
        exists|a: int, b: int|
            {
                &&& 0 <= a <= b <= s.len()
                &&& spec_trim(s) == s.subrange(a, b)
                &&& forall|i: int| 0 <= i < a ==> is_white_space(#[trigger] s[i])
                &&& forall|i: int| b <= i < s.len() ==> is_white_space(#[trigger] s[i])
            },
        spec_trim(s).len() > 0 ==> !is_white_space(spec_trim(s)[0]) && !is_white_space(
            spec_trim(s).last(),
        ),
{
    lemma_leading_ws(s);
    let a = leading_ws(s);
    let t = s.skip(a);
    lemma_trailing_ws(t);
    let b = a + t.len() - trailing_ws(t);
    assert(spec_trim(s) =~= s.subrange(a, b));
    assert forall|i: int| b <= i < s.len() implies is_white_space(#[trigger] s[i]) by {
        assert(s[i] == t[i - a]);
    }
    if spec_trim(s).len() > 0 {
        assert(spec_trim(s)[0] == s[a]);
        assert(spec_trim(s).last() == t[t.len() - 1 - trailing_ws(t)]);
    }
}

/// `s` without the white space that starts and ends it, as `str::trim` gives it.
pub open spec fn spec_trim(s: Seq<char>) -> Seq<char> {
    let t = s.skip(leading_ws(s));
    t.take(t.len() - trailing_ws(t))
}

/// `s` without the white space that starts and ends it.
pub fn trim(s: &str) -> (r: &str)
    ensures
        r@ == spec_trim(s@),
{
    let n = s.unicode_len();
    let mut i: usize = 0;
    assert(s@.skip(0) =~= s@);
    while i < n && white_space(s.get_char(i))
        invariant
            n == s@.len(),
            0 <= i <= n,
            leading_ws(s@) == i + leading_ws(s@.skip(i as int)),
        decreases n - i,
    {
        assert(s@.skip(i as int).drop_first() =~= s@.skip(i + 1));
        i = i + 1;
    }
    proof {
        if i < n {
            assert(s@.skip(i as int)[0] == s@[i as int]);
        }
        assert(leading_ws(s@) == i);
    }
    let ghost t = s@.skip(i as int);
    let mut j: usize = n;
    assert(t.take(t.len() as int) =~= t);
    while j > i && white_space(s.get_char(j - 1))
        invariant
            n == s@.len(),
            0 <= i <= j <= n,
            t == s@.skip(i as int),
            trailing_ws(t) == (n - j) + trailing_ws(t.take(j - i)),
        decreases j - i,
    {
        assert(t.take(j - i).drop_last() =~= t.take(j - 1 - i));
        assert(t.take(j - i).last() == s@[j - 1]);
        j = j - 1;
    }
    proof {
        if j > i {
            assert(t.take(j - i).last() == s@[j - 1]);
        }
        assert(trailing_ws(t) == n - j);
        assert(s@.subrange(i as int, j as int) =~= t.take(t.len() - trailing_ws(t)));
    }
    s.substring_char(i, j)
}

/// `s` ends with `suffix`.
pub open spec fn seq_ends_with(s: Seq<char>, suffix: Seq<char>) -> bool {
    suffix.len() <= s.len() && s.skip(s.len() - suffix.len()) == suffix
}

/// `s` starts with `prefix`.
pub open spec fn seq_starts_with(s: Seq<char>, prefix: Seq<char>) -> bool {
    prefix.len() <= s.len() && s.take(prefix.len() as int) == prefix
}

/// The text of a JSON answer without the Markdown fence around it: trimmed, without a leading
/// `` ```json `` (or `` ``` ``) and a trailing `` ``` ``, trimmed again.
pub open spec fn spec_sanitize_json(s: Seq<char>) -> Seq<char> {
    let a = spec_trim(s);
    let b = if seq_starts_with(a, "```json"@) {
        a.skip(7)
    } else if seq_starts_with(a, "```"@) {
        a.skip(3)
    } else {
        a
    };
    let c = if seq_ends_with(b, "```"@) {
        b.take(b.len() - 3)
    } else {
        b
    };
    spec_trim(c)
}

fn str_starts_with(s: &str, p: &str) -> (r: bool)
    ensures
        r == seq_starts_with(s@, p@),
{
    let r = crate::text::starts_with_str(s, p);
    proof {
        if p@.len() <= s@.len() {
            assert(s@.subrange(0, p@.len() as int) =~= s@.take(p@.len() as int));
        }
    }
    r
}

fn str_ends_with_fence(s: &str) -> (r: bool)
    ensures
        r == seq_ends_with(s@, "```"@),
{
    proof {
        reveal_strlit("```");
    }
    let n = s.unicode_len();
    if n < 3 {
        return false;
    }
    let r = s.get_char(n - 3) == '`' && s.get_char(n - 2) == '`' && s.get_char(n - 1) == '`';
    proof {
        if r {
            assert(s@.skip(n - 3) =~= "```"@);
        } else {
            if s@.skip(n - 3) == "```"@ {
                assert(s@.skip(n - 3)[0] == s@[n - 3]);
                assert(s@.skip(n - 3)[1] == s@[n - 2]);
                assert(s@.skip(n - 3)[2] == s@[n - 1]);
            }
        }
    }
    r
}

/// The text of a JSON answer without the Markdown fence that models often put around it.
pub fn sanitize_json_str(s: &str) -> (r: &str)
    ensures
        r@ == spec_sanitize_json(s@),
{
    proof {
        reveal_strlit("```json");
        reveal_strlit("```");
    }
    let a = trim(s);
    let n = a.unicode_len();
    let b = if str_starts_with(a, "```json") {
        a.substring_char(7, n)
    } else if str_starts_with(a, "```") {
        a.substring_char(3, n)
    } else {
        a
    };
    let m = b.unicode_len();
    let c = if str_ends_with_fence(b) {
        b.substring_char(0, m - 3)
    } else {
        b
    };
    assert(a@.subrange(7, n as int) =~= a@.skip(7));
    assert(a@.subrange(3, n as int) =~= a@.skip(3));
    assert(m >= 3 ==> b@.subrange(0, m - 3) =~= b@.take(m - 3));
    trim(c)
}

/// The answer of a prompt, in the format it asked for: a JSON answer loses its fence.
pub fn finish_answer(format: ResponseFormat, text: String) -> (r: String)
    ensures
        r@ == match format {
            ResponseFormat::Text => text@,
            ResponseFormat::Json => spec_sanitize_json(text@),
        },
{
    match format {
        ResponseFormat::Text => text,
        ResponseFormat::Json => String::from_str(sanitize_json_str(text.as_str())),
    }
}

/// The prompt templates of the equivalence principle.
#[derive(Clone, Copy, PartialEq, Eq, Debug, Structural)]
pub enum TemplateId {
    Comparative,
    NonComparative,
    NonComparativeLeader,
}

/// The texts of the equivalence prompt templates.
pub struct EqTemplates {
    pub comparative: String,
    pub non_comparative: String,
    pub non_comparative_leader: String,
}

/// The template that an equivalence check with template `id` fills in: the comparative or the
/// validator's non-comparative one; the leader's template is no check and is refused.
pub fn eq_principle_template(t: &EqTemplates, id: TemplateId) -> (r: Option<&String>)
    ensures
        match id {
            TemplateId::Comparative => r == Some(&t.comparative),
            TemplateId::NonComparative => r == Some(&t.non_comparative),
            TemplateId::NonComparativeLeader => r is None,
        },
{
    match id {
        TemplateId::Comparative => Some(&t.comparative),
        TemplateId::NonComparative => Some(&t.non_comparative),
        TemplateId::NonComparativeLeader => None,
    }
}

/// The template that a prompt by id fills in: only the leader's non-comparative template; the
/// others are checks and are refused.
pub fn exec_prompt_id_template(t: &EqTemplates, id: TemplateId) -> (r: Option<&String>)
    ensures
        match id {
            TemplateId::NonComparativeLeader => r == Some(&t.non_comparative_leader),
            _ => r is None,
        },
{
    match id {
        TemplateId::NonComparativeLeader => Some(&t.non_comparative_leader),
        _ => None,
    }
}


/// The text of a Gemini answer: `candidates[0].content.parts[0].text`.
pub fn gemini_answer(v: &JsonValue) -> (r: Result<String, AnswerError>)
    ensures
        match jstr(
            jfield(
                jindex(jfield(jfield(jindex(jfield(Some(*v), "candidates"@), 0), "content"@), "parts"@), 0),
                "text"@,
            ),
        ) {
            Some(c) => r matches Ok(s) && s@ == c,
            None => r == Err::<String, AnswerError>(AnswerError::NoResponse),
        },
{
    proof {
        reveal_strlit("candidates");
        reveal_strlit("content");
        reveal_strlit("parts");
        reveal_strlit("text");
    }
    let t = json_str(
        json_field(
            json_index(
                json_field(json_field(json_index(json_field(Some(v), "candidates"), 0), "content"), "parts"),
                0,
            ),
            "text",
        ),
    );
    match t {
        Some(c) => Ok(String::from_str(c)),
        None => Err(AnswerError::NoResponse),
    }
}

/// The text of an Anthropic answer: `content[0].text`.
pub fn anthropic_answer(v: &JsonValue) -> (r: Result<String, AnswerError>)
    ensures
        match jstr(jfield(jindex(jfield(Some(*v), "content"@), 0), "text"@)) {
            Some(c) => r matches Ok(s) && s@ == c,
            None => r == Err::<String, AnswerError>(AnswerError::NoResponse),
        },
{
    proof {
        reveal_strlit("content");
        reveal_strlit("text");
    }
    match json_str(json_field(json_index(json_field(Some(v), "content"), 0), "text")) {
        Some(c) => Ok(String::from_str(c)),
        None => Err(AnswerError::NoResponse),
    }
}

/// The truth value that an Anthropic tool answer gives: `content[0].input.result`.
pub fn anthropic_bool_answer(v: &JsonValue) -> (r: Result<bool, AnswerError>)
    ensures
        match jbool(jfield(jfield(jindex(jfield(Some(*v), "content"@), 0), "input"@), "result"@)) {
            Some(b) => r == Ok::<bool, AnswerError>(b),
            None => r == Err::<bool, AnswerError>(AnswerError::NotABool),
        },
{
    proof {
        reveal_strlit("content");
        reveal_strlit("input");
        reveal_strlit("result");
    }
    match json_field(json_field(json_index(json_field(Some(v), "content"), 0), "input"), "result") {
        Some(JsonValue::Bool(b)) => Ok(*b),
        _ => Err(AnswerError::NotABool),
    }
}

/// The text of an OpenAI chat completion: `choices[0].message.content`.
pub fn openai_answer(v: &JsonValue) -> (r: Result<String, AnswerError>)
    ensures
        match spec_chat_content(*v) {
            Some(c) => r matches Ok(s) && s@ == c,
            None => r == Err::<String, AnswerError>(AnswerError::NoResponse),
        },
{
    proof {
        reveal_strlit("choices");
        reveal_strlit("message");
        reveal_strlit("content");
    }
    let content = json_str(
        json_field(json_field(json_index(json_field(Some(v), "choices"), 0), "message"), "content"),
    );
    match content {
        Some(c) => Ok(String::from_str(c)),
        None => Err(AnswerError::NoResponse),
    }
}

/// The text of an Ollama generation: `response`.
pub fn ollama_text_answer(v: &JsonValue) -> (r: Result<String, AnswerError>)
    ensures
        match jstr(jfield(Some(*v), "response"@)) {
            Some(c) => r matches Ok(s) && s@ == c,
            None => r == Err::<String, AnswerError>(AnswerError::NoResponse),
        },
{
    proof {
        reveal_strlit("response");
    }
    match json_str(json_field(Some(v), "response")) {
        Some(c) => Ok(String::from_str(c)),
        None => Err(AnswerError::NoResponse),
    }
}

/// The object that an Anthropic tool answer gives: `content[0].input`, when it is an object.
pub fn anthropic_json_answer(v: JsonValue) -> (r: Result<JsonValue, AnswerError>)
    ensures
        match jfield(jindex(jfield(Some(v), "content"@), 0), "input"@) {
            Some(x) => if x is Object {
                r == Ok::<JsonValue, AnswerError>(x)
            } else {
                r == Err::<JsonValue, AnswerError>(AnswerError::NoResponse)
            },
            None => r == Err::<JsonValue, AnswerError>(AnswerError::NoResponse),
        },
{
    proof {
        reveal_strlit("content");
        reveal_strlit("input");
    }
    match json_take_field(json_take_index(json_take_field(Some(v), "content"), 0), "input") {
        Some(x) => match x {
            JsonValue::Object(_) => Ok(x),
            _ => Err(AnswerError::NoResponse),
        },
        None => Err(AnswerError::NoResponse),
    }
}

/// An image as a data URL: `data:`, its media type, `;base64,` and its bytes in base64. An
/// image of no known format is a fatal error.
pub fn image_data_url(img: &ImageLua) -> (r: Result<String, ModuleError>)
    ensures
        match spec_sniff(img.0@) {
            Some(k) => r matches Ok(u) && u@ == "data:"@ + k.spec_media_type() + ";base64,"@
                + base64_encode(img.0@),
            None => r matches Err(e) && is_invalid_image_error(e, true),
        },
{
    let kind = match img.kind_or_error() {
        Ok(k) => k,
        Err(e) => {
            return Err(e);
        },
    };
    let b64 = img.as_base64();
    Ok(String::from_str("data:").concat(kind.media_type()).concat(";base64,").concat(b64.as_str()))
}


/// Whether a backend passed the start-up check: its answer, trimmed and in lower case, is
/// `ok`. The normalised answer is handed back either way.
pub fn check_answer(res: &str) -> (r: (bool, String))
    ensures
        r.1@ == crate::common::lowercase_text(spec_trim(res@)),
        r.0 == (r.1@ == "ok"@),
{
    let lower = crate::common::to_lowercase(trim(res));
    let ok = crate::text::str_equal(lower.as_str(), "ok");
    (ok, lower)
}

} // verus!
