use vstd::prelude::*;
use vstd::utf8::encode_utf8;

use crate::text::{hex2, hex_digit, hex_digit_exec};
use crate::vm::RunOk;

verus! {

/// How much of a run's result the executable prints.
#[derive(Clone, Copy, PartialEq, Eq, Debug, Structural)]
pub enum PrintOption {
    /// A short form that leaves out what caused an error.
    Shrink,
    /// The whole result.
    All,
    /// Nothing.
    Quiet,
}

impl PrintOption {
    /// The option's name on the command line.
    pub open spec fn spec_name(&self) -> Seq<char> {
        match self {
            PrintOption::Shrink => "shrink"@,
            PrintOption::All => "all"@,
            PrintOption::Quiet => "none"@,
        }
    }

    /// The option's name on the command line.
    pub fn name(&self) -> (r: &'static str)
        ensures
            r@ == self.spec_name(),
    {
        match self {
            PrintOption::Shrink => "shrink",
            PrintOption::All => "all",
            PrintOption::Quiet => "none",
        }
    }
}

/// The command line of a single run.
pub struct Args {
    pub allow_latest: bool,
    pub message: String,
    pub host: String,
    pub cookie: Option<String>,
    pub print: PrintOption,
    pub sync: bool,
    /// Which of reading storage (`r`), writing it (`w`), sending messages (`s`), calling
    /// contracts (`c`) and running non-deterministic blocks (`n`) the run may do.
    pub permissions: String,
    pub host_data: String,
}

/// How many of the permission letters `r`, `w`, `s`, `c`, `n` occur in `s`.
pub open spec fn permission_letters_in(s: Seq<char>) -> int {
    (if s.contains('r') {
        1int
    } else {
        0
    }) + (if s.contains('w') {
        1int
    } else {
        0
    }) + (if s.contains('s') {
        1int
    } else {
        0
    }) + (if s.contains('c') {
        1int
    } else {
        0
    }) + (if s.contains('n') {
        1int
    } else {
        0
    })
}

/// A permission string is accepted when the permission letters it holds are as many as its
/// bytes.
pub open spec fn spec_permissions_valid(s: Seq<char>) -> bool {
    permission_letters_in(s) == encode_utf8(s).len()
}

fn str_contains_char(s: &str, c: char) -> (r: bool)
    ensures
        r == s@.contains(c),
{
    let n = s.unicode_len();
    let mut i: usize = 0;
    while i < n
        invariant
            n == s@.len(),
            0 <= i <= n,
            forall|j: int| 0 <= j < i ==> s@[j] != c,
        decreases n - i,
    {
        if s.get_char(i) == c {
            assert(s@[i as int] == c);
            return true;
        }
        i = i + 1;
    }
    false
}

/// Whether the permission string of a run is accepted: each of `r`, `w`, `s`, `c`, `n` that it
/// holds counts once, and the count must equal its length in bytes.
pub fn permissions_valid(permissions: &str) -> (r: bool)
    ensures
        r == spec_permissions_valid(permissions@),
{
    let mut count: usize = 0;
    if str_contains_char(permissions, 'r') {
        count = count + 1;
    }
    if str_contains_char(permissions, 'w') {
        count = count + 1;
    }
    if str_contains_char(permissions, 's') {
        count = count + 1;
    }
    if str_contains_char(permissions, 'c') {
        count = count + 1;
    }
    if str_contains_char(permissions, 'n') {
        count = count + 1;
    }
    count == permissions.as_bytes().len()
}

/// A byte in hexadecimal without leading zeros, as `{:x}` writes it.
pub open spec fn hex_short(b: u8) -> Seq<char> {
    if b < 16 {
        seq![hex_digit(b as nat)]
    } else {
        hex2(b)
    }
}

/// The bytes, each written with [`hex_short`], one after the other.
pub open spec fn spec_cookie_text(bytes: Seq<u8>) -> Seq<char>
    decreases bytes.len(),
{
    if bytes.len() == 0 {
        Seq::empty()
    } else {
        spec_cookie_text(bytes.drop_last()) + hex_short(bytes.last())
    }
}

/// The cookie that names a run in logs: the one given, else random bytes in hexadecimal, each
/// without leading zeros.
pub fn make_cookie(given: Option<String>, random: &[u8]) -> (r: String)
    ensures
        r@ == match given {
            Some(c) => c@,
            None => spec_cookie_text(random@),
        },
{
    match given {
        Some(c) => c,
        None => {
            let mut out: Vec<char> = Vec::new();
            let mut i: usize = 0;
            while i < random.len()
                invariant
                    0 <= i <= random@.len(),
                    out@ == spec_cookie_text(random@.take(i as int)),
                decreases random@.len() - i,
            {
                let b = random[i];
                if b >= 16 {
                    out.push(hex_digit_exec(b / 16));
                }
                out.push(hex_digit_exec(b % 16));
                assert(random@.take(i + 1).drop_last() =~= random@.take(i as int));
                assert(out@ =~= spec_cookie_text(random@.take(i as int)) + hex_short(b));
                i = i + 1;
            }
            assert(random@.take(random@.len() as int) =~= random@);
            crate::text::string_from_chars(out)
        },
    }
}

/// A run that failed outside the contract: the error's text, and the debug text of the wasm
/// trap behind it when there is one.
pub struct RunFailure {
    pub display: String,
    pub trap: Option<String>,
}

/// What the executable prints of a run's result.
pub open spec fn spec_printed(res: Result<RunOk, RunFailure>, print: PrintOption) -> Option<Seq<char>> {
    match print {
        PrintOption::Quiet => None,
        PrintOption::Shrink => match res {
            Ok(RunOk::ContractError(e, _)) => Some("ContractError(\""@ + e@ + "\")"@),
            Err(f) => match f.trap {
                Some(t) => Some("Error(\""@ + t@ + "\")"@),
                None => Some("Error(\"\")"@),
            },
            Ok(r) => Some(r.spec_debug()),
        },
        PrintOption::All => match res {
            Err(f) => Some("Error("@ + f.display@ + ")"@),
            Ok(r) => Some(r.spec_debug()),
        },
    }
}

/// What the executable prints of a run's result, if anything.
pub fn printed_result(res: &Result<RunOk, RunFailure>, print: PrintOption) -> (r: Option<String>)
    ensures
        match r {
            Some(s) => spec_printed(*res, print) == Some(s@),
            None => spec_printed(*res, print) is None,
        },
{
    match print {
        PrintOption::Quiet => None,
        PrintOption::Shrink => match res {
            Ok(RunOk::ContractError(e, _)) => Some(
                String::from_str("ContractError(\"").concat(e.as_str()).concat("\")"),
            ),
            Err(f) => match &f.trap {
                Some(t) => Some(String::from_str("Error(\"").concat(t.as_str()).concat("\")")),
                None => Some(String::from_str("Error(\"\")")),
            },
            Ok(r) => Some(r.to_debug_string()),
        },
        PrintOption::All => match res {
            Err(f) => Some(String::from_str("Error(").concat(f.display.as_str()).concat(")")),
            Ok(r) => Some(r.to_debug_string()),
        },
    }
}


/// One of the permission letters.
pub open spec fn is_permission_letter(c: char) -> bool {
    c == 'r' || c == 'w' || c == 's' || c == 'c' || c == 'n'
}

proof fn lemma_encode_len(s: Seq<char>)
    ensures
        encode_utf8(s).len() >= s.len(),
        (forall|i: int| 0 <= i < s.len() ==> (#[trigger] s[i] as u32) < 0x80) ==> encode_utf8(s).len()
            == s.len(),
    decreases s.len(),
{
    if s.len() > 0 {
        lemma_encode_len(s.drop_first());
        assert(forall|i: int| 0 <= i < s.drop_first().len() ==> s.drop_first()[i] == s[i + 1]);
        vstd::utf8::char_is_scalar(s[0]);
    }
}

/// The permission letters that `s` holds, as a set.
pub open spec fn letters_held(s: Seq<char>) -> Set<char> {
    let q0 = Set::<char>::empty();
    let q1 = if s.contains('r') { q0.insert('r') } else { q0 };
    let q2 = if s.contains('w') { q1.insert('w') } else { q1 };
    let q3 = if s.contains('s') { q2.insert('s') } else { q2 };
    let q4 = if s.contains('c') { q3.insert('c') } else { q3 };
    if s.contains('n') { q4.insert('n') } else { q4 }
}

proof fn lemma_letters_held(s: Seq<char>)
    ensures
        letters_held(s).finite(),
        letters_held(s).len() == permission_letters_in(s),
        letters_held(s) =~= s.to_set().filter(|c: char| is_permission_letter(c)),
{
    let q0 = Set::<char>::empty();
    let q1 = if s.contains('r') { q0.insert('r') } else { q0 };
    let q2 = if s.contains('w') { q1.insert('w') } else { q1 };
    let q3 = if s.contains('s') { q2.insert('s') } else { q2 };
    let q4 = if s.contains('c') { q3.insert('c') } else { q3 };
    assert(q0.len() == 0);
    assert(!q1.contains('w') && !q2.contains('s') && !q3.contains('c') && !q4.contains('n'));
    assert forall|c: char| letters_held(s).contains(c) <==> s.to_set().filter(
        |c: char| is_permission_letter(c),
    ).contains(c) by {
        if s.to_set().contains(c) {
            assert(s.contains(c));
        }
        if s.contains(c) {
            assert(s.to_set().contains(c));
        }
    }
}

/// A permission string is accepted exactly when it holds only the letters `r`, `w`, `s`, `c`,
/// `n`, each at most once (in any order).
pub proof fn lemma_permissions_valid(s: Seq<char>)
    ensures
        spec_permissions_valid(s) <==> (forall|i: int| 0 <= i < s.len() ==> is_permission_letter(
            #[trigger] s[i],
        )) && s.no_duplicates(),
{
    broadcast use vstd::seq_lib::seq_to_set_is_finite;

    let set = s.to_set();
    let held = letters_held(s);
    lemma_letters_held(s);
    lemma_encode_len(s);
    s.lemma_cardinality_of_set();
    vstd::set_lib::lemma_len_subset(held, set);
    if spec_permissions_valid(s) {
        // Every inequality in held <= set <= s <= bytes is an equality.
        assert(set.len() == s.len());
        s.lemma_no_dup_set_cardinality();
        assert forall|i: int| 0 <= i < s.len() implies is_permission_letter(#[trigger] s[i]) by {
            let x = s[i];
            assert(set.contains(x));
            if !is_permission_letter(x) {
                assert(!held.contains(x));
                assert(held.subset_of(set.remove(x)));
                vstd::set_lib::lemma_len_subset(held, set.remove(x));
            }
        }
    }
    if (forall|i: int| 0 <= i < s.len() ==> is_permission_letter(#[trigger] s[i]))
        && s.no_duplicates() {
        s.unique_seq_to_set();
        assert forall|i: int| 0 <= i < s.len() implies (#[trigger] s[i] as u32) < 0x80 by {
            assert(is_permission_letter(s[i]));
        }
        assert(held =~= set) by {
            assert forall|c: char| set.contains(c) implies held.contains(c) by {
                let i = choose|i: int| 0 <= i < s.len() && s[i] == c;
                assert(is_permission_letter(s[i]));
            }
        }
    }
}

} // verus!
