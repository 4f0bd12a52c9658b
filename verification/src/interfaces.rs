use crate::text::nat_decimal;
use crate::str_map::StrMap;
use vstd::prelude::*;

verus! {

/// A span of time that a request names as `<n>s` or `<n>ms`, in nanoseconds.
pub struct ParsedDuration(pub u128);

/// Whether `c` is a decimal digit of some script (Unicode general category `Nd`), which is
/// what the regex class `\d` matches.
pub uninterp spec fn decimal_digit(c: char) -> bool;

/// A digit of a duration's number: an ASCII digit, or a decimal digit of another script.
pub open spec fn duration_digit(c: char) -> bool {
    ('0' <= c && c <= '9') || decimal_digit(c)
}

/// Calls `regex::Regex::is_match` with the class `\d` alone, anchored, on the one character
/// `c`: whether `c` is a Unicode decimal digit.
#[verifier::external_body]
fn is_decimal_digit(c: char) -> (r: bool)
    ensures
        r == decimal_digit(c),
{
    let mut buf = [0u8; 4];
    regex::Regex::new(r"^\d$").unwrap().is_match(c.encode_utf8(&mut buf))
}

/// The number and the unit of a duration text: a non-empty run of decimal digits (of any
/// script), then `s` or `ms`, and nothing else; `None` for any other text.
pub open spec fn duration_form(s: Seq<char>) -> Option<(Seq<char>, Seq<char>)> {
    let k = duration_unit_len(s);
    let n = s.take(s.len() - k);
    if k > 0 && n.len() > 0 && forall|i: int| 0 <= i < n.len() ==> duration_digit(#[trigger] n[i]) {
        Some((n, if k == 2 { "ms"@ } else { "s"@ }))
    } else {
        None
    }
}

/// The length of the unit a duration text ends with: 2 for `ms`, 1 for `s`, 0 for neither.
pub open spec fn duration_unit_len(s: Seq<char>) -> int {
    if s.len() >= 2 && s[s.len() - 2] == 'm' && s[s.len() - 1] == 's' {
        2
    } else if s.len() >= 1 && s[s.len() - 1] == 's' {
        1
    } else {
        0
    }
}

/// Splits a duration text into its number and its unit, as [`duration_form`] says.
fn split_duration(s: &str) -> (r: Option<(&str, bool)>)
    ensures
        match duration_form(s@) {
            None => r is None,
            Some((n, u)) => r matches Some((m, secs)) && m@ == n && secs == (u == "s"@),
        },
{
    proof {
        reveal_strlit("s");
        reveal_strlit("ms");
    }
    let len = s.unicode_len();
    let unit_len: usize = if len >= 2 && s.get_char(len - 2) == 'm' && s.get_char(len - 1) == 's' {
        2
    } else if len >= 1 && s.get_char(len - 1) == 's' {
        1
    } else {
        return None;
    };
    let n = len - unit_len;
    assert(unit_len == duration_unit_len(s@));
    if n == 0 {
        return None;
    }
    let mut i: usize = 0;
    while i < n
        invariant
            0 <= i <= n,
            n < len,
            len == s@.len(),
            unit_len == duration_unit_len(s@),
            n == len - unit_len,
            forall|j: int| 0 <= j < i ==> duration_digit(#[trigger] s@[j]),
        decreases n - i,
    {
        let c = s.get_char(i);
        if !(('0' <= c && c <= '9') || is_decimal_digit(c)) {
            proof {
                let t = s@.take(n as int);
                assert(t[i as int] == s@[i as int]);
                assert(!duration_digit(t[i as int]));
            }
            return None;
        }
        i = i + 1;
    }
    let num = s.substring_char(0, n);
    proof {
        assert(num@ =~= s@.take(n as int));
        assert forall|j: int| 0 <= j < num@.len() implies duration_digit(#[trigger] num@[j]) by {
            assert(num@[j] == s@[j]);
        }
        assert("ms"@ != "s"@) by {
            assert("ms"@.len() != "s"@.len());
        }
    }
    Some((num, unit_len == 1))
}

/// The value of a run of ASCII decimal digits.
pub open spec fn decimal_value(s: Seq<char>) -> nat
    decreases s.len(),
{
    if s.len() == 0 {
        0
    } else {
        decimal_value(s.drop_last()) * 10 + ((s.last() as nat) - 48) as nat
    }
}

/// Every character of `s` is an ASCII digit.
pub open spec fn all_ascii_digits(s: Seq<char>) -> bool {
    forall|i: int| 0 <= i < s.len() ==> '0' <= #[trigger] s[i] && s[i] <= '9'
}

proof fn lemma_decimal_monotone(s: Seq<char>, i: int)
    requires
        0 <= i <= s.len(),
        all_ascii_digits(s),
    ensures
        decimal_value(s.take(i)) <= decimal_value(s),
    decreases s.len() - i,
{
    if i < s.len() {
        lemma_decimal_monotone(s, i + 1);
        assert(s.take(i + 1).drop_last() =~= s.take(i));
    } else {
        assert(s.take(i) =~= s);
    }
}

/// Reads a number as `str::parse::<u64>` does for digits: `None` unless the text is a non-empty
/// run of ASCII digits whose value fits in a `u64`.
pub fn parse_u64_digits(s: &str) -> (r: Option<u64>)
    ensures
        match r {
            Some(v) => s@.len() > 0 && all_ascii_digits(s@) && v == decimal_value(s@),
            None => s@.len() == 0 || !all_ascii_digits(s@) || decimal_value(s@) > u64::MAX,
        },
{
    let n = s.unicode_len();
    if n == 0 {
        return None;
    }
    let mut v: u64 = 0;
    let mut i: usize = 0;
    while i < n
        invariant
            n == s@.len(),
            0 <= i <= n,
            all_ascii_digits(s@.take(i as int)),
            v == decimal_value(s@.take(i as int)),
        decreases n - i,
    {
        let c = s.get_char(i);
        assert(s@.take(i + 1).drop_last() =~= s@.take(i as int));
        if !('0' <= c && c <= '9') {
            assert(!all_ascii_digits(s@)) by {
                assert(s@[i as int] == c);
            }
            return None;
        }
        let d = (c as u32 - 48) as u64;
        assert(all_ascii_digits(s@.take(i + 1)));
        match v.checked_mul(10) {
            None => {
                proof {
                    assert(all_ascii_digits(s@) ==> decimal_value(s@) > u64::MAX) by {
                        if all_ascii_digits(s@) {
                            lemma_decimal_monotone(s@, i + 1);
                        }
                    }
                }
                return None;
            },
            Some(t) => match t.checked_add(d) {
                None => {
                    proof {
                        assert(all_ascii_digits(s@) ==> decimal_value(s@) > u64::MAX) by {
                            if all_ascii_digits(s@) {
                                lemma_decimal_monotone(s@, i + 1);
                            }
                        }
                    }
                    return None;
                },
                Some(w) => {
                    v = w;
                },
            },
        }
        i = i + 1;
    }
    assert(s@.take(n as int) =~= s@);
    Some(v)
}

/// Why a duration is refused.
#[derive(Clone, Copy, PartialEq, Eq, Debug, Structural)]
pub enum DurationError {
    /// Not a number and a unit.
    Format,
    /// The number is not a `u64`.
    Number,
}

/// The nanoseconds of a duration text, or why it is refused.
pub open spec fn duration_nanos(s: Seq<char>) -> Result<nat, DurationError> {
    match duration_form(s) {
        None => Err(DurationError::Format),
        Some((n, u)) => if all_ascii_digits(n) && decimal_value(n) <= u64::MAX {
            Ok(decimal_value(n) * if u == "s"@ {
                1_000_000_000nat
            } else {
                1_000_000nat
            })
        } else {
            Err(DurationError::Number)
        },
    }
}

/// Reads a duration: a non-empty run of decimal digits, then `s` for seconds or `ms` for
/// milliseconds. Any other text is refused as `Format`; digits of another script than ASCII, or
/// a number past `u64`, as `Number`.
pub fn parse_duration(s: &str) -> (r: Result<ParsedDuration, DurationError>)
    ensures
        match duration_nanos(s@) {
            Ok(n) => r matches Ok(d) && d.0 == n,
            Err(e) => r == Err::<ParsedDuration, DurationError>(e),
        },
{
    proof {
        reveal_strlit("s");
    }
    let (num, secs) = match split_duration(s) {
        None => {
            return Err(DurationError::Format);
        },
        Some(p) => p,
    };
    let v = match parse_u64_digits(num) {
        None => {
            return Err(DurationError::Number);
        },
        Some(v) => v,
    };
    if secs {
        Ok(ParsedDuration(v as u128 * 1_000_000_000))
    } else {
        Ok(ParsedDuration(v as u128 * 1_000_000))
    }
}

proof fn lemma_nat_decimal_digits(n: nat)
    ensures
        nat_decimal(n).len() > 0,
        all_ascii_digits(nat_decimal(n)),
        decimal_value(nat_decimal(n)) == n,
    decreases n,
{
    let s = nat_decimal(n);
    if n < 10 {
        assert(s.drop_last() =~= Seq::<char>::empty());
        assert((s.last() as nat) - 48 == n);
        assert(decimal_value(s.drop_last()) == 0);
    } else {
        lemma_nat_decimal_digits(n / 10);
        assert(s.drop_last() =~= nat_decimal(n / 10));
        assert(s.last() == crate::text::digit_char(n % 10));
        assert((s.last() as nat) - 48 == n % 10);
        assert(n == (n / 10) * 10 + n % 10);
        assert(decimal_value(s) == decimal_value(s.drop_last()) * 10 + ((s.last() as nat) - 48) as nat);
        assert(decimal_value(s.drop_last()) == n / 10);
        assert forall|i: int| 0 <= i < s.len() implies '0' <= #[trigger] s[i] && s[i] <= '9' by {
            if i < s.len() - 1 {
                assert(s[i] == nat_decimal(n / 10)[i]);
            }
        }
    }
}

/// A duration written back as text reads back as the same number of whole milliseconds, when
/// that number fits in a `u64` (the reader takes no more).
pub proof fn lemma_duration_text_reads_back(d: ParsedDuration)
    requires
        d.0 / 1_000_000 <= u64::MAX,
    ensures
        ({
            let n = nat_decimal((d.0 / 1_000_000) as nat);
            &&& duration_form(n + "ms"@) == Some((n, "ms"@))
            &&& all_ascii_digits(n)
            &&& decimal_value(n) == d.0 / 1_000_000
            &&& duration_nanos(n + "ms"@) == Ok::<nat, DurationError>((d.0 / 1_000_000) as nat * 1_000_000nat)
        }),
{
    reveal_strlit("ms");
    let n = nat_decimal((d.0 / 1_000_000) as nat);
    lemma_nat_decimal_digits((d.0 / 1_000_000) as nat);
    let t = n + "ms"@;
    assert(duration_unit_len(t) == 2);
    assert(t.take(t.len() - 2) =~= n);
    assert forall|i: int| 0 <= i < n.len() implies duration_digit(#[trigger] n[i]) by {
        assert('0' <= n[i] && n[i] <= '9');
    }
    reveal_strlit("s");
    assert("ms"@ != "s"@) by {
        assert("ms"@.len() != "s"@.len());
    }
}

/// Reads a duration that may be absent: a JSON `null` is no time at all, a string is read by
/// [`parse_duration`].
pub fn read_duration(text: Option<&str>) -> (r: Result<ParsedDuration, DurationError>)
    ensures
        match text {
            None => r matches Ok(d) && d.0 == 0,
            Some(s) => match duration_nanos(s@) {
                Ok(n) => r matches Ok(d) && d.0 == n,
                Err(e) => r == Err::<ParsedDuration, DurationError>(e),
            },
        },
{
    match text {
        None => Ok(ParsedDuration(0)),
        Some(s) => parse_duration(s),
    }
}

/// The text a duration is written back as: whole milliseconds and `ms`.
pub fn duration_text(d: &ParsedDuration) -> (r: String)
    ensures
        r@ == crate::text::nat_decimal((d.0 / 1_000_000) as nat) + "ms"@,
{
    let ms = d.0 / 1_000_000;
    let digits = crate::text::u128_to_decimal(ms);
    proof {
        reveal_strlit("ms");
    }
    digits.concat("ms")
}

/// The format in which a language model is asked to answer.
#[derive(Clone, Copy, PartialEq, Eq, Debug, Structural)]
pub enum OutputFormat {
    Text,
    JSON,
}

/// The format of a prompt that names none.
pub fn default_text() -> (r: OutputFormat)
    ensures
        r == OutputFormat::Text,
{
    OutputFormat::Text
}

/// Variables of the comparative equivalence template.
pub struct PromptIDVarsComparative {
    pub(crate) leader_answer: String,
    pub(crate) validator_answer: String,
    pub(crate) principle: String,
}

/// Variables of the non-comparative equivalence template, as a validator fills it.
pub struct PromptIDVarsNonComparativeValidator {
    pub task: String,
    pub criteria: String,
    pub input: String,
    pub output: String,
}

/// Variables of the non-comparative equivalence template, as the leader fills it.
pub struct PromptIDVarsNonComparativeLeader {
    pub task: String,
    pub criteria: String,
    pub input: String,
}

/// The bytes of an image attached to a prompt.
pub struct Image(pub Vec<u8>);

/// A free-form prompt.
pub struct PromptPayload {
    pub response_format: OutputFormat,
    pub prompt: String,
    pub images: Vec<Image>,
}

/// A comparative equivalence check of two answers.
pub struct PromptEqComparativePayload {
    pub vars: PromptIDVarsComparative,
}

/// A validator's non-comparative equivalence check of the leader's answer.
pub struct PromptEqNonComparativeValidatorPayload {
    pub vars: PromptIDVarsNonComparativeValidator,
}

/// The leader's answer to a non-comparative task.
pub struct PromptEqNonComparativeLeaderPayload {
    pub vars: PromptIDVarsNonComparativeLeader,
}

/// A prompt built from one of the equivalence templates.
pub enum PromptTemplatePayload {
    EqComparative(PromptEqComparativePayload),
    EqNonComparativeValidator(PromptEqNonComparativeValidatorPayload),
    EqNonComparativeLeader(PromptEqNonComparativeLeaderPayload),
}

/// A request to the language-model module.
pub enum LlmMessage {
    Prompt(PromptPayload),
    PromptTemplate(PromptTemplatePayload),
}

/// The answer of the language-model module.
pub enum PromptAnswer {
    Text(String),
    Bool(bool),
    /// A JSON object: its members in order.
    Object(Vec<(String, crate::llm::JsonValue)>),
}

/// How a web page is rendered.
#[derive(Clone, Copy, PartialEq, Eq, Debug, Structural)]
pub enum RenderMode {
    Text,
    HTML,
    Screenshot,
}

/// No wait after a page has loaded.
pub fn no_wait() -> (r: ParsedDuration)
    ensures
        r.0 == 0,
{
    ParsedDuration(0)
}

/// A request to render a web page.
pub struct RenderPayload {
    pub mode: RenderMode,
    pub url: String,
    pub wait_after_loaded: ParsedDuration,
}

/// The method of a web request.
#[derive(Clone, Copy, PartialEq, Eq, Debug, Structural)]
pub enum RequestMethod {
    GET,
    POST,
    HEAD,
    DELETE,
    OPTIONS,
    PATCH,
}

/// The raw bytes of a header value.
pub struct HeaderData(pub Vec<u8>);

/// The answer to a web request.
pub struct Response {
    pub status: u16,
    pub headers: StrMap<HeaderData>,
    pub body: Vec<u8>,
}

/// The body of a request that names none.
pub fn default_none() -> (r: Option<Vec<u8>>)
    ensures
        r is None,
{
    None
}

/// Requests are not signed unless they say so.
pub fn default_false() -> (r: bool)
    ensures
        r == false,
{
    false
}

/// A web request.
pub struct RequestPayload {
    pub method: RequestMethod,
    pub url: String,
    pub headers: StrMap<HeaderData>,
    pub body: Option<Vec<u8>>,
    pub sign: bool,
}

/// A request to the web module.
pub enum WebMessage {
    Render(RenderPayload),
    Request(RequestPayload),
}

/// What the web module answers.
pub enum RenderAnswer {
    Response(Response),
    Text(String),
    Image(Vec<u8>),
}

} // verus!
