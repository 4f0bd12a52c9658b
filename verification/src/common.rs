use vstd::prelude::*;

verus! {

/// The kinds of failure of a request to an outside service.
#[allow(non_camel_case_types)]
pub enum ErrorKind {
    STATUS_NOT_OK,
    READING_BODY,
    SENDING_REQUEST,
    DESERIALIZING,
    OVERLOADED,
    Other(String),
}

impl ErrorKind {
    /// The kind's name; an `Other` kind is its own text.
    pub open spec fn spec_text(&self) -> Seq<char> {
        match self {
            ErrorKind::STATUS_NOT_OK => "STATUS_NOT_OK"@,
            ErrorKind::READING_BODY => "READING_BODY"@,
            ErrorKind::SENDING_REQUEST => "SENDING_REQUEST"@,
            ErrorKind::DESERIALIZING => "DESERIALIZING"@,
            ErrorKind::OVERLOADED => "OVERLOADED"@,
            ErrorKind::Other(s) => s@,
        }
    }

    /// The kind's name; an `Other` kind is its own text.
    #[allow(clippy::inherent_to_string)]
    pub fn to_string(&self) -> (r: String)
        ensures
            r@ == self.spec_text(),
    {
        match self {
            ErrorKind::STATUS_NOT_OK => String::from_str("STATUS_NOT_OK"),
            ErrorKind::READING_BODY => String::from_str("READING_BODY"),
            ErrorKind::SENDING_REQUEST => String::from_str("SENDING_REQUEST"),
            ErrorKind::DESERIALIZING => String::from_str("DESERIALIZING"),
            ErrorKind::OVERLOADED => String::from_str("OVERLOADED"),
            ErrorKind::Other(s) => s.clone(),
        }
    }

    /// The kind as text, giving up the kind.
    pub fn into_string(self) -> (r: String)
        ensures
            r@ == self.spec_text(),
    {
        match self {
            ErrorKind::Other(s) => s,
            k => k.to_string(),
        }
    }
}

/// A value exchanged with the modules' users. Numbers are doubles: one that holds an integer
/// is kept as that integer, any other by the bits of its IEEE 754 double.
pub enum GenericValue {
    Null,
    Bool(bool),
    Str(String),
    Bytes(Vec<u8>),
    Number(i64),
    FloatBits(u64),
    /// Entries in ascending key order, no key twice.
    Dict(Vec<(String, GenericValue)>),
    Array(Vec<GenericValue>),
}

impl GenericValue {
    /// The text of a string value.
    pub fn as_str(&self) -> (r: Option<&str>)
        ensures
            match self {
                GenericValue::Str(s) => r matches Some(t) && t@ == s@,
                _ => r is None,
            },
    {
        match self {
            GenericValue::Str(s) => Some(s.as_str()),
            _ => None,
        }
    }
}

/// `v` is the string `s`.
pub open spec fn is_str_value(v: GenericValue, s: Seq<char>) -> bool {
    match v {
        GenericValue::Str(t) => t@ == s,
        _ => false,
    }
}

/// `v` is the array of the strings `items`, in order.
pub open spec fn is_strings_array(v: GenericValue, items: Seq<String>) -> bool {
    match v {
        GenericValue::Array(a) => a@.len() == items.len() && forall|i: int|
            0 <= i < a@.len() ==> is_str_value(#[trigger] a@[i], items[i]@),
        _ => false,
    }
}

/// A failure that a module reports to its user: what went wrong, outermost first, whether the
/// run must stop, and details by name.
pub struct ModuleError {
    pub causes: Vec<String>,
    pub fatal: bool,
    /// Details in ascending key order, no key twice.
    pub ctx: Vec<(String, GenericValue)>,
}

/// An error on its way out of a module: either already a module error, or any other error,
/// given by its text (`{:#}`).
pub enum ErrorSource {
    Module(ModuleError),
    Other(String),
}

/// The name of the detail that carries the text of an error that was not a module error.
pub open spec fn rust_error_key() -> Seq<char> {
    "rust_error"@
}

/// Turns the error of `r` into a module error with `message` as its outermost cause: a module
/// error keeps its causes after `message`, its details, and stays fatal if it was; any other
/// error becomes a module error with `message` as its only cause and its text under
/// `rust_error`. The result is fatal when `fatal` is.
pub fn map_user_error<T>(r: Result<T, ErrorSource>, message: String, fatal: bool) -> (res: Result<
    T,
    ModuleError,
>)
    ensures
        match r {
            Ok(v) => res == Ok::<T, ModuleError>(v),
            Err(ErrorSource::Module(e)) => res matches Err(m) && m.causes@.len() == e.causes@.len()
                + 1 && m.causes@[0]@ == message@ && m.causes@.skip(1) == e.causes@ && m.fatal == (
            fatal || e.fatal) && m.ctx == e.ctx,
            Err(ErrorSource::Other(text)) => res matches Err(m) && m.causes@.len() == 1
                && m.causes@[0]@ == message@ && m.fatal == fatal && m.ctx@.len() == 1
                && m.ctx@[0].0@ == rust_error_key() && is_str_value(m.ctx@[0].1, text@),
        },
{
    match r {
        Ok(v) => Ok(v),
        Err(ErrorSource::Module(e)) => {
            let mut causes: Vec<String> = Vec::new();
            causes.push(message);
            let mut rest = e.causes;
            let ghost old_rest = rest@;
            causes.append(&mut rest);
            assert(causes@.skip(1) =~= old_rest);
            Err(ModuleError { causes, fatal: fatal || e.fatal, ctx: e.ctx })
        },
        Err(ErrorSource::Other(text)) => {
            let mut causes: Vec<String> = Vec::new();
            causes.push(message);
            let mut ctx: Vec<(String, GenericValue)> = Vec::new();
            ctx.push((String::from_str("rust_error"), GenericValue::Str(text)));
            proof {
                reveal_strlit("rust_error");
            }
            Err(ModuleError { causes, fatal, ctx })
        },
    }
}

/// What a module answers to one request.
pub enum Reply<T> {
    Answer(T),
    /// A failure the user caused; the run goes on.
    UserError(GenericValue),
    /// A failure after which the run must stop, with its text.
    FatalError(String),
}

/// The value that tells the user of a non-fatal module error: its causes, as strings, under
/// `causes`, then its details under `ctx`.
pub fn user_error_value(e: ModuleError) -> (r: GenericValue)
    ensures
        match r {
            GenericValue::Dict(m) => m@.len() == 2 && m@[0].0@ == "causes"@ && m@[1].0@ == "ctx"@
                && m@[1].1 == GenericValue::Dict(e.ctx) && is_strings_array(m@[0].1, e.causes@),
            _ => false,
        },
{
    let mut causes = e.causes;
    let ghost all = causes@;
    let mut values: Vec<GenericValue> = Vec::new();
    let mut taken: Vec<String> = Vec::new();
    let n = causes.len();
    let mut k: usize = 0;
    while k < n
        invariant
            n == all.len(),
            0 <= k <= n,
            causes@ == all.take(n - k),
            values@.len() == k,
            forall|i: int|
                0 <= i < k ==> is_str_value(#[trigger] values@[i], all[n - 1 - i]@),
        decreases n - k,
    {
        let c = causes.pop().unwrap();
        assert(causes@ =~= all.take(n - k - 1));
        values.push(GenericValue::Str(c));
        k = k + 1;
    }
    // The causes were taken from the back; put them back in order.
    let mut ordered: Vec<GenericValue> = Vec::new();
    let mut j: usize = 0;
    while j < n
        invariant
            0 <= j <= n,
            n == all.len(),
            values@.len() == n - j,
            forall|i: int|
                0 <= i < n - j ==> is_str_value(#[trigger] values@[i], all[n - 1 - i]@),
            ordered@.len() == j,
            forall|i: int|
                0 <= i < j ==> is_str_value(#[trigger] ordered@[i], all[i]@),
        decreases n - j,
    {
        let v = values.pop().unwrap();
        ordered.push(v);
        j = j + 1;
    }
    proof {
        reveal_strlit("causes");
        reveal_strlit("ctx");
    }
    let mut m: Vec<(String, GenericValue)> = Vec::new();
    m.push((String::from_str("causes"), GenericValue::Array(ordered)));
    m.push((String::from_str("ctx"), GenericValue::Dict(e.ctx)));
    GenericValue::Dict(m)
}

/// How a handler's failure is told: a non-fatal module error as a user error, anything else as
/// a fatal error with the text `fatal_text` (the failure's `{:#}` text).
pub fn reply_of<T>(res: Result<T, ErrorSource>, fatal_text: String) -> (r: Reply<T>)
    ensures
        match res {
            Ok(v) => r == Reply::<T>::Answer(v),
            Err(ErrorSource::Module(e)) => if e.fatal {
                r matches Reply::FatalError(t) && t@ == fatal_text@
            } else {
                r is UserError
            },
            Err(ErrorSource::Other(_)) => r matches Reply::FatalError(t) && t@ == fatal_text@,
        },
{
    match res {
        Ok(v) => Reply::Answer(v),
        Err(ErrorSource::Module(e)) => {
            if e.fatal {
                Reply::FatalError(fatal_text)
            } else {
                Reply::UserError(user_error_value(e))
            }
        },
        Err(ErrorSource::Other(_)) => Reply::FatalError(fatal_text),
    }
}

/// The cookie that names the current peer in logs, or `<absent>` outside of a peer's task.
pub fn cookie_or_absent(cookie: Option<String>) -> (r: String)
    ensures
        r@ == match cookie {
            Some(c) => c@,
            None => "<absent>"@,
        },
{
    match cookie {
        Some(c) => c,
        None => String::from_str("<absent>"),
    }
}

/// The text of `s` in lower case, as `str::to_lowercase` gives it.
pub uninterp spec fn lowercase_text(s: Seq<char>) -> Seq<char>;

/// Calls `str::to_lowercase`: each character is replaced by its lowercase mapping of the
/// Unicode tables; the result is named, not spelled out.
#[verifier::external_body]
pub(crate) fn to_lowercase(s: &str) -> (r: String)
    ensures
        r@ == lowercase_text(s@),
{
    s.to_lowercase()
}

/// The words that mark a quoted header or field as secret, in the order they are tried.
pub open spec fn censor_keywords() -> Seq<Seq<char>> {
    seq!["authorization"@, "key"@, "set-cookie"@, "cf-ray"@, "access-control"@]
}

/// The word `w` occurs in `name` at position `k`.
pub open spec fn occurs_at(name: Seq<char>, k: int, w: Seq<char>) -> bool {
    0 <= k && k + w.len() <= name.len() && name.subrange(k, k + w.len()) == w
}

/// The first of the secret words, from the `j`-th on, that occurs in `name` at `k`.
pub open spec fn keyword_from(name: Seq<char>, k: int, j: nat) -> Option<Seq<char>>
    decreases censor_keywords().len() - j,
{
    if j >= censor_keywords().len() {
        None
    } else if occurs_at(name, k, censor_keywords()[j as int]) {
        Some(censor_keywords()[j as int])
    } else {
        keyword_from(name, k, j + 1)
    }
}

/// The secret word that occurs last in `name` among the positions below `k`: the one that
/// starts furthest to the right.
pub open spec fn last_keyword(name: Seq<char>, k: nat) -> Option<Seq<char>>
    decreases k,
{
    if k == 0 {
        None
    } else {
        match keyword_from(name, k - 1, 0) {
            Some(w) => Some(w),
            None => last_keyword(name, (k - 1) as nat),
        }
    }
}

/// The position of the first `"` of `s` at or after `j`.
pub open spec fn next_quote(s: Seq<char>, j: nat) -> Option<nat>
    decreases s.len() - j,
{
    if j >= s.len() {
        None
    } else if s[j as int] == '"' {
        Some(j)
    } else {
        next_quote(s, j + 1)
    }
}

/// A secret pair that starts at `i`: a quoted name holding a secret word, then `": "` and a
/// quoted value. Gives where the pair ends and the secret word; of several, the one that starts
/// last in the name. This is the match at `i` of the pattern
/// `"[^"]*(authorization|key|set-cookie|cf-ray|access-control)[^"]*": "[^"]*"`.
pub open spec fn censor_match_at(s: Seq<char>, i: nat) -> Option<(nat, Seq<char>)> {
    if i < s.len() && s[i as int] == '"' {
        match next_quote(s, i + 1) {
            Some(q) => if q + 4 <= s.len() && s[q + 1int] == ':' && s[q + 2int] == ' ' && s[q + 3int] == '"' {
                match (next_quote(s, q + 4), last_keyword(s.subrange(i + 1int, q as int), (q - i - 1) as nat)) {
                    (Some(e), Some(w)) => Some(((e + 1) as nat, w)),
                    _ => None,
                }
            } else {
                None
            },
            None => None,
        }
    } else {
        None
    }
}

/// The text from position `i` on with every secret pair, taken leftmost first and without
/// overlap, replaced by its name and a hidden value.
pub open spec fn censor_from(s: Seq<char>, i: nat) -> Seq<char>
    decreases s.len() - i,
{
    if i >= s.len() {
        Seq::empty()
    } else {
        match censor_match_at(s, i) {
            Some((e, w)) => if i < e <= s.len() {
                spec_censored_pair(w) + censor_from(s, e)
            } else {
                seq![s[i as int]] + censor_from(s, i + 1)
            },
            None => seq![s[i as int]] + censor_from(s, i + 1),
        }
    }
}

/// A text with every quoted header or field whose name holds `authorization`, `key`,
/// `set-cookie`, `cf-ray` or `access-control` replaced by its censored pair.
pub open spec fn censored_text(s: Seq<char>) -> Seq<char> {
    censor_from(s, 0)
}

/// The pair that takes the place of a censored header: its name kept, its value hidden.
pub open spec fn spec_censored_pair(name: Seq<char>) -> Seq<char> {
    "\""@ + name + "\": \"<censored>\""@
}

/// The pair that takes the place of a censored header: its name kept, its value hidden.
pub fn censored_pair(name: &str) -> (r: String)
    ensures
        r@ == spec_censored_pair(name@),
{
    String::from_str("\"").concat(name).concat("\": \"<censored>\"")
}

proof fn lemma_next_quote_bounds(s: Seq<char>, j: nat)
    ensures
        next_quote(s, j) matches Some(q) ==> j <= q < s.len() && s[q as int] == '"',
    decreases s.len() - j,
{
    if j < s.len() && s[j as int] != '"' {
        lemma_next_quote_bounds(s, j + 1);
    }
}

fn find_quote(v: &Vec<char>, j: usize) -> (r: Option<usize>)
    requires
        j <= v@.len(),
    ensures
        match r {
            Some(q) => next_quote(v@, j as nat) == Some(q as nat),
            None => next_quote(v@, j as nat) is None,
        },
{
    let mut k = j;
    while k < v.len()
        invariant
            j <= k <= v@.len(),
            next_quote(v@, j as nat) == next_quote(v@, k as nat),
        decreases v@.len() - k,
    {
        if v[k] == '"' {
            return Some(k);
        }
        k = k + 1;
    }
    None
}

fn occurs_at_exec(v: &Vec<char>, start: usize, end: usize, k: usize, w: &str) -> (r: bool)
    requires
        start <= end <= v@.len(),
    ensures
        r == occurs_at(v@.subrange(start as int, end as int), k as int, w@),
{
    let ghost name = v@.subrange(start as int, end as int);
    let n = w.unicode_len();
    if k > end - start || n > end - start - k {
        return false;
    }
    let mut i: usize = 0;
    while i < n
        invariant
            0 <= i <= n,
            n == w@.len(),
            start <= end <= v@.len(),
            k + n <= end - start,
            name == v@.subrange(start as int, end as int),
            forall|m: int| 0 <= m < i ==> name[k + m] == w@[m],
        decreases n - i,
    {
        if v[start + k + i] != w.get_char(i) {
            assert(name.subrange(k as int, k + n)[i as int] != w@[i as int]);
            return false;
        }
        i = i + 1;
    }
    assert(name.subrange(k as int, k + n) =~= w@);
    true
}

fn keyword_at(v: &Vec<char>, start: usize, end: usize, k: usize) -> (r: Option<&'static str>)
    requires
        start <= end <= v@.len(),
    ensures
        match r {
            Some(w) => keyword_from(v@.subrange(start as int, end as int), k as int, 0) == Some(w@),
            None => keyword_from(v@.subrange(start as int, end as int), k as int, 0) is None,
        },
{
    let ghost name = v@.subrange(start as int, end as int);
    let words: [&'static str; 5] = ["authorization", "key", "set-cookie", "cf-ray", "access-control"];
    proof {
        reveal_strlit("authorization");
        reveal_strlit("key");
        reveal_strlit("set-cookie");
        reveal_strlit("cf-ray");
        reveal_strlit("access-control");
        assert forall|j: int| 0 <= j < 5 implies (#[trigger] words@[j])@ == censor_keywords()[j] by {}
    }
    let mut j: usize = 0;
    while j < 5
        invariant
            0 <= j <= 5,
            start <= end <= v@.len(),
            name == v@.subrange(start as int, end as int),
            forall|m: int| 0 <= m < 5 ==> (#[trigger] words@[m])@ == censor_keywords()[m],
            keyword_from(name, k as int, 0) == keyword_from(name, k as int, j as nat),
        decreases 5 - j,
    {
        if occurs_at_exec(v, start, end, k, words[j]) {
            return Some(words[j]);
        }
        j = j + 1;
    }
    None
}

fn last_keyword_exec(v: &Vec<char>, start: usize, end: usize) -> (r: Option<&'static str>)
    requires
        start <= end <= v@.len(),
    ensures
        match r {
            Some(w) => last_keyword(v@.subrange(start as int, end as int), (end - start) as nat) == Some(w@),
            None => last_keyword(v@.subrange(start as int, end as int), (end - start) as nat) is None,
        },
{
    let ghost name = v@.subrange(start as int, end as int);
    let mut k = end - start;
    while k > 0
        invariant
            0 <= k <= end - start,
            start <= end <= v@.len(),
            name == v@.subrange(start as int, end as int),
            last_keyword(name, (end - start) as nat) == last_keyword(name, k as nat),
        decreases k,
    {
        match keyword_at(v, start, end, k - 1) {
            Some(w) => {
                return Some(w);
            },
            None => {},
        }
        k = k - 1;
    }
    None
}

fn censor_match_exec(v: &Vec<char>, i: usize) -> (r: Option<(usize, &'static str)>)
    requires
        i < v@.len(),
    ensures
        match r {
            Some((e, w)) => censor_match_at(v@, i as nat) == Some((e as nat, w@)) && i < e <= v@.len(),
            None => censor_match_at(v@, i as nat) is None,
        },
{
    let n = v.len();
    if v[i] != '"' {
        return None;
    }
    let q = match find_quote(v, i + 1) {
        Some(q) => q,
        None => {
            return None;
        },
    };
    proof {
        lemma_next_quote_bounds(v@, (i + 1) as nat);
    }
    if !(n >= 4 && q < n - 3 && v[q + 1] == ':' && v[q + 2] == ' ' && v[q + 3] == '"') {
        return None;
    }
    let e = find_quote(v, q + 4);
    proof {
        lemma_next_quote_bounds(v@, (q + 4) as nat);
    }
    let w = last_keyword_exec(v, i + 1, q);
    match (e, w) {
        (Some(e), Some(w)) => Some((e + 1, w)),
        _ => None,
    }
}

/// Replaces every secret pair of a text, leftmost first, by its name and a hidden value.
fn censor_matches(s: &str) -> (r: String)
    ensures
        r@ == censored_text(s@),
{
    let v = crate::text::chars_of(s);
    let n = v.len();
    let mut out: Vec<char> = Vec::new();
    let mut i: usize = 0;
    while i < n
        invariant
            n == v@.len(),
            0 <= i <= n,
            out@ + censor_from(v@, i as nat) == censor_from(v@, 0),
        decreases n - i,
    {
        let ghost before = out@;
        match censor_match_exec(&v, i) {
            Some((e, w)) => {
                let pair = censored_pair(w);
                let mut k: usize = 0;
                let m = pair.unicode_len();
                while k < m
                    invariant
                        0 <= k <= m,
                        m == pair@.len(),
                        out@ == before + pair@.take(k as int),
                    decreases m - k,
                {
                    out.push(pair.get_char(k));
                    assert(pair@.take(k + 1) =~= pair@.take(k as int).push(pair@[k as int]));
                    k = k + 1;
                }
                assert(pair@.take(m as int) =~= pair@);
                assert(before + (spec_censored_pair(w@) + censor_from(v@, e as nat)) =~= out@
                    + censor_from(v@, e as nat));
                i = e;
            },
            None => {
                out.push(v[i]);
                assert(before + (seq![v@[i as int]] + censor_from(v@, (i + 1) as nat)) =~= out@
                    + censor_from(v@, (i + 1) as nat));
                i = i + 1;
            },
        }
    }
    assert(out@ =~= out@ + censor_from(v@, n as nat));
    crate::text::string_from_chars(out)
}

/// Hides the secrets of a request's or response's debug text: the text is put in lower case,
/// then each quoted header whose name mentions a secret keeps its name and loses its value.
pub fn censor_str(debug: &str) -> (r: String)
    ensures
        r@ == censored_text(lowercase_text(debug@)),
{
    let lower = to_lowercase(debug);
    censor_matches(lower.as_str())
}

/// Calls `format!("{:?}", x)`: the text that the `Debug` impl of `x`'s type writes. That impl is
/// the type's own, so nothing is claimed of the text.
#[verifier::external_body]
fn debug_text<T: std::fmt::Debug>(x: &T) -> (r: String) {
    format!("{:?}", x)
}

/// Hides the secrets of the debug text of `res`, as [`censor_str`] does; what that debug text
/// is depends on the `Debug` impl of `res`'s type.
pub fn censor_debug<T: std::fmt::Debug>(res: &T) -> (r: String)
    ensures
        exists|d: Seq<char>| r@ == censored_text(lowercase_text(d)),
{
    let debug = debug_text(res);
    let r = censor_str(debug.as_str());
    assert(r@ == censored_text(lowercase_text(debug@)));
    r
}

/// The levels of logging, from none to all.
#[derive(Clone, Copy, PartialEq, Eq, Debug, Structural)]
pub enum LogLevel {
    Off,
    Error,
    Warn,
    Info,
    Debug,
    Trace,
}

/// The settings every service shares: its threads and its logging.
pub struct BaseConfig {
    pub threads: usize,
    pub blocking_threads: usize,
    pub log_level: LogLevel,
    /// Targets whose log lines are dropped.
    pub log_disable: String,
}


/// The name under which a process's environment variable is offered to configuration
/// templates: `ENV[<name>]`.
pub fn env_var_key(name: &str) -> (r: String)
    ensures
        r@ == "ENV["@ + name@ + "]"@,
{
    String::from_str("ENV[").concat(name).concat("]")
}

/// The kinds of message that arrive on a module's connection.
#[derive(Clone, Copy, PartialEq, Eq, Debug, Structural)]
pub enum IncomingKind {
    Ping,
    Pong,
    Close,
    /// A text or binary message: a request.
    Data,
}

/// What a module does with an incoming message.
#[derive(Clone, Copy, PartialEq, Eq, Debug, Structural)]
pub enum ConnectionStep {
    /// Answer with a pong that carries the ping's bytes.
    Pong,
    /// Nothing; read the next message.
    Ignore,
    /// The peer is done: stop serving it.
    Stop,
    /// Decode the message and handle it.
    Handle,
}

/// What a module does with an incoming message: a ping is answered, a pong ignored, a close
/// ends the connection, and anything else is a request.
pub fn connection_step(k: IncomingKind) -> (r: ConnectionStep)
    ensures
        r == match k {
            IncomingKind::Ping => ConnectionStep::Pong,
            IncomingKind::Pong => ConnectionStep::Ignore,
            IncomingKind::Close => ConnectionStep::Stop,
            IncomingKind::Data => ConnectionStep::Handle,
        },
{
    match k {
        IncomingKind::Ping => ConnectionStep::Pong,
        IncomingKind::Pong => ConnectionStep::Ignore,
        IncomingKind::Close => ConnectionStep::Stop,
        IncomingKind::Data => ConnectionStep::Handle,
    }
}

} // verus!
