use vstd::prelude::*;

use crate::str_map::StrMap;
use vstd::utf8::{encode_utf8, valid_utf8};

use crate::decode::{decode_step, decode_utf8, lemma_decode_step_len, InvalidSequence};
use crate::errors::{ContractError, ContractReturn, I32Exit, UserError, VmError};
use crate::text::{debug_quoted, hex2, hex_digit_exec, i32_to_decimal, int_decimal, str_debug, string_from_chars};
use crate::host::ResultCode;
use crate::ustar::{
    zip_accepts, zip_file_count, zip_files, zip_first_failure, zip_open, zip_readable, Archive,
    SharedBytes,
};

verus! {

/// How a run ended, as the host sees it.
pub enum RunOk {
    /// Calldata-encoded bytes that the contract produced.
    Return(Vec<u8>),
    /// A failure the contract raised on purpose.
    Rollback(String),
    /// A failure the contract caused, with what caused it.
    ContractError(String, Option<Box<VmError>>),
}

pub type RunResult = Result<RunOk, VmError>;

impl RunOk {
    /// The bytes sent to the host: the result code, then the payload.
    pub open spec fn spec_bytes(&self) -> Seq<u8> {
        match self {
            RunOk::Return(buf) => seq![ResultCode::Return.spec_code()] + buf@,
            RunOk::Rollback(msg) => seq![ResultCode::Rollback.spec_code()] + encode_utf8(msg@),
            RunOk::ContractError(msg, _) => seq![ResultCode::ContractError.spec_code()] + encode_utf8(msg@),
        }
    }

    /// A return of the encoding of an empty value.
    pub fn empty_return() -> (r: RunOk)
        ensures
            r matches RunOk::Return(buf) && buf@ == seq![0u8],
    {
        let mut buf: Vec<u8> = Vec::new();
        buf.push(0);
        assert(buf@ =~= seq![0u8]);
        RunOk::Return(buf)
    }

    /// The bytes sent to the host for this result: the result code, then the payload.
    pub fn as_bytes_iter(&self) -> (r: Vec<u8>)
        ensures
            r@ == self.spec_bytes(),
    {
        let (code, payload): (ResultCode, &[u8]) = match self {
            RunOk::Return(buf) => (ResultCode::Return, buf.as_slice()),
            RunOk::Rollback(msg) => (ResultCode::Rollback, msg.as_str().as_bytes()),
            RunOk::ContractError(msg, _) => (ResultCode::ContractError, msg.as_str().as_bytes()),
        };
        let mut out: Vec<u8> = Vec::new();
        out.push(code.code());
        let mut i: usize = 0;
        while i < payload.len()
            invariant
                0 <= i <= payload@.len(),
                out@ == seq![code.spec_code()] + payload@.take(i as int),
            decreases payload@.len() - i,
        {
            out.push(payload[i]);
            assert(payload@.take(i + 1) =~= payload@.take(i as int).push(payload@[i as int]));
            i = i + 1;
        }
        assert(payload@.take(i as int) =~= payload@);
        out
    }
}


/// What a run that stopped with `e` reports: exits and traps become contract errors (exit code
/// zero is an empty return), raised rollbacks, errors and returns become their results, and
/// anything else stays an error.
pub fn result_of_stop(e: VmError) -> (r: RunResult)
    ensures
        match e {
            VmError::Exit(I32Exit(code)) => if code == 0 {
                r matches Ok(RunOk::Return(buf)) && buf@ == seq![0u8]
            } else {
                r matches Ok(RunOk::ContractError(msg, cause)) && cause is None && msg@
                    == "exit_code "@ + int_decimal(code as int)
            },
            VmError::Trap(t) => r matches Ok(RunOk::ContractError(msg, Some(cause)))
                && msg@ == "wasm_trap "@ + t@ && *cause == VmError::Trap(t),
            VmError::Contract(ContractError(msg, cause)) => r == Ok::<RunOk, VmError>(
                RunOk::ContractError(msg, cause),
            ),
            VmError::User(UserError(msg)) => r == Ok::<RunOk, VmError>(RunOk::Rollback(msg)),
            VmError::Returned(ContractReturn(buf)) => r == Ok::<RunOk, VmError>(RunOk::Return(buf)),
            VmError::Other(msg) => r == Err::<RunOk, VmError>(VmError::Other(msg)),
            VmError::Archive(a) => r == Err::<RunOk, VmError>(VmError::Archive(a)),
        },
{
    match e {
        VmError::Exit(I32Exit(code)) => {
            if code == 0 {
                Ok(RunOk::empty_return())
            } else {
                let digits = i32_to_decimal(code);
                let msg = String::from_str("exit_code ").concat(digits.as_str());
                Ok(RunOk::ContractError(msg, None))
            }
        },
        VmError::Trap(t) => {
            let msg = String::from_str("wasm_trap ").concat(t.as_str());
            Ok(RunOk::ContractError(msg, Some(Box::new(VmError::Trap(t)))))
        },
        VmError::Contract(ContractError(msg, cause)) => Ok(RunOk::ContractError(msg, cause)),
        VmError::User(UserError(msg)) => Ok(RunOk::Rollback(msg)),
        VmError::Returned(ContractReturn(buf)) => Ok(RunOk::Return(buf)),
        VmError::Other(msg) => Err(VmError::Other(msg)),
        VmError::Archive(a) => Err(VmError::Archive(a)),
    }
}

/// Whether `c` is a control character (general category Cc).
pub open spec fn is_control(c: char) -> bool {
    c as u32 <= 0x1F || (0x7F <= c as u32 && c as u32 <= 0x9F)
}

/// How the debug text of a returned buffer shows one decoded item.
pub open spec fn escape_item(item: Result<char, Seq<u8>>) -> Seq<char>
    decreases item,
{
    match item {
        Ok(c) => if c == '\\' {
            seq!['\\', '\\']
        } else if is_control(c) {
            seq!['\\', 'x'] + hex2(c as u8)
        } else {
            seq![c]
        },
        Err(bytes) => escape_invalid(bytes),
    }
}

/// Every byte of a malformed sequence as a backslash and two hexadecimal digits.
pub open spec fn escape_invalid(bytes: Seq<u8>) -> Seq<char>
    decreases bytes.len(),
{
    if bytes.len() == 0 {
        Seq::empty()
    } else {
        escape_invalid(bytes.drop_last()) + seq!['\\'] + hex2(bytes.last())
    }
}

/// The debug text of a returned buffer: each decoded item escaped, in order.
pub open spec fn escape_bytes(s: Seq<u8>) -> Seq<char>
    decreases s.len(),
{
    if s.len() == 0 {
        Seq::empty()
    } else {
        let step = decode_step(s);
        if 1 <= step.1 <= s.len() {
            escape_item(step.0) + escape_bytes(s.skip(step.1))
        } else {
            Seq::empty()
        }
    }
}

fn push_hex2(out: &mut Vec<char>, b: u8)
    ensures
        final(out)@ == old(out)@ + hex2(b),
{
    let hi = hex_digit_exec(b / 16);
    let lo = hex_digit_exec(b % 16);
    out.push(hi);
    out.push(lo);
    assert(final(out)@ =~= old(out)@ + hex2(b));
}

fn push_escaped_item(out: &mut Vec<char>, item: &Result<char, InvalidSequence>)
    ensures
        final(out)@ == old(out)@ + escape_item(
            match item {
                Ok(c) => Ok(*c),
                Err(seq) => Err(seq.0@),
            },
        ),
{
    match item {
        Ok(c) => {
            let c = *c;
            if c == '\\' {
                out.push('\\');
                out.push('\\');
                assert(final(out)@ =~= old(out)@ + seq!['\\', '\\']);
            } else if (c as u32) <= 0x1F || (0x7F <= (c as u32) && (c as u32) <= 0x9F) {
                out.push('\\');
                out.push('x');
                push_hex2(out, c as u8);
                assert(final(out)@ =~= old(out)@ + (seq!['\\', 'x'] + hex2(c as u8)));
            } else {
                out.push(c);
                assert(final(out)@ =~= old(out)@ + seq![c]);
            }
        },
        Err(seq) => {
            let bytes = &seq.0;
            let mut i: usize = 0;
            let ghost start = out@;
            assert(bytes@.take(0) =~= Seq::<u8>::empty());
            while i < bytes.len()
                invariant
                    0 <= i <= bytes@.len(),
                    out@ == start + escape_invalid(bytes@.take(i as int)),
                decreases bytes@.len() - i,
            {
                out.push('\\');
                push_hex2(out, bytes[i]);
                assert(bytes@.take(i + 1).drop_last() =~= bytes@.take(i as int));
                assert(out@ =~= start + escape_invalid(bytes@.take(i + 1)));
                i = i + 1;
            }
            assert(bytes@.take(i as int) =~= bytes@);
        },
    }
}

/// The debug text of a returned buffer: its bytes decoded leniently, with backslashes, control
/// characters and malformed bytes escaped.
pub fn escape_return_bytes(r: &Vec<u8>) -> (s: String)
    ensures
        s@ == escape_bytes(r@),
{
    let mut dec = decode_utf8(r.clone());
    let mut out: Vec<char> = Vec::new();
    loop
        invariant
            out@ + escape_bytes(dec.remaining()) == escape_bytes(r@),
        ensures
            out@ == escape_bytes(r@),
        decreases dec.remaining().len(),
    {
        let ghost before = dec.remaining();
        match dec.next() {
            None => {
                assert(out@ =~= escape_bytes(r@));
                break;
            },
            Some(item) => {
                proof {
                    lemma_decode_step_len(before);
                }
                let ghost out0 = out@;
                push_escaped_item(&mut out, &item);
                assert(out@ + escape_bytes(dec.remaining()) =~= out0 + escape_bytes(before));
            },
        }
    }
    string_from_chars(out)
}

impl RunOk {
    /// The debug text of a result, as the standard `Debug` output names its variant.
    pub open spec fn spec_debug(&self) -> Seq<char> {
        match self {
            RunOk::Return(buf) => "Return(\""@ + escape_bytes(buf@) + "\")"@,
            RunOk::Rollback(msg) => "Rollback("@ + debug_quoted(msg@) + ")"@,
            RunOk::ContractError(msg, _) => "ContractError("@ + debug_quoted(msg@) + ")"@,
        }
    }

    /// The debug text of a result.
    pub fn to_debug_string(&self) -> (r: String)
        ensures
            r@ == self.spec_debug(),
    {
        match self {
            RunOk::Return(buf) => {
                let inner = escape_return_bytes(buf);
                String::from_str("Return(\"").concat(inner.as_str()).concat("\")")
            },
            RunOk::Rollback(msg) => {
                let inner = str_debug(msg.as_str());
                String::from_str("Rollback(").concat(inner.as_str()).concat(")")
            },
            RunOk::ContractError(msg, _) => {
                let inner = str_debug(msg.as_str());
                String::from_str("ContractError(").concat(inner.as_str()).concat(")")
            },
        }
    }
}


/// The first eight bytes of a core wasm module: the magic number and version 1.
pub open spec fn wasm_module_header() -> Seq<u8> {
    seq![0x00u8, 0x61u8, 0x73u8, 0x6du8, 0x01u8, 0x00u8, 0x00u8, 0x00u8]
}

/// Calls `wasmparser::Parser::is_core_wasm`, which tests that the bytes start with the header of
/// a core module.
#[verifier::external_body]
fn is_core_wasm(bytes: &[u8]) -> (r: bool)
    ensures
        r == (bytes@.len() >= 8 && bytes@.take(8) == wasm_module_header()),
{
    wasmparser::Parser::is_core_wasm(bytes)
}

/// The message of the standard library's UTF-8 check on bytes that fail it.
pub uninterp spec fn utf8_error_text(bytes: Seq<u8>) -> Seq<char>;

/// Calls `std::str::from_utf8`, which accepts exactly the valid UTF-8 byte strings; on others the
/// message of its error is named.
#[verifier::external_body]
fn check_utf8(bytes: &[u8]) -> (r: Result<(), String>)
    ensures
        r is Ok <==> valid_utf8(bytes@),
        r matches Err(m) ==> m@ == utf8_error_text(bytes@),
{
    match std::str::from_utf8(bytes) {
        Ok(_) => Ok(()),
        Err(e) => Err(e.to_string()),
    }
}

/// Where the line that starts at `from` ends: the offset of the next line feed, or the end.
pub open spec fn line_end(s: Seq<u8>, from: int) -> int
    decreases s.len() - from,
{
    if from >= s.len() || from < 0 || s[from] == 10 {
        from
    } else {
        line_end(s, from + 1)
    }
}

/// The line that starts at `from`, without its line feed and a carriage return before it.
pub open spec fn line_at(s: Seq<u8>, from: int) -> Seq<u8> {
    let e = line_end(s, from);
    if e < s.len() && e > from && s[e - 1] == 13 {
        s.subrange(from, e - 1)
    } else {
        s.subrange(from, e)
    }
}

/// The comment that describes the runner of a source contract: the lines from `from` on that
/// start with `marker`, without it, joined, up to the first line that does not.
pub open spec fn runner_comment(s: Seq<u8>, from: int, marker: Seq<u8>) -> Seq<u8>
    decreases s.len() - from,
{
    if from < 0 || from >= s.len() {
        Seq::empty()
    } else {
        let line = line_at(s, from);
        if !(line.len() >= marker.len() && line.take(marker.len() as int) == marker) {
            Seq::empty()
        } else {
            let e = line_end(s, from);
            let rest = if e < s.len() && e >= from {
                runner_comment(s, e + 1, marker)
            } else {
                Seq::empty()
            };
            line.skip(marker.len() as int) + rest
        }
    }
}

/// The comment marker that a source contract starts with, if any: `//`, `#` or `--`.
pub open spec fn comment_marker(s: Seq<u8>) -> Option<Seq<u8>> {
    if s.len() >= 2 && s[0] == 47 && s[1] == 47 {
        Some(seq![47u8, 47u8])
    } else if s.len() >= 1 && s[0] == 35 {
        Some(seq![35u8])
    } else if s.len() >= 2 && s[0] == 45 && s[1] == 45 {
        Some(seq![45u8, 45u8])
    } else {
        None
    }
}

proof fn lemma_line_end(s: Seq<u8>, from: int)
    requires
        0 <= from <= s.len(),
    ensures
        from <= line_end(s, from) <= s.len(),
        forall|k: int| from <= k < line_end(s, from) ==> s[k] != 10,
        line_end(s, from) < s.len() ==> s[line_end(s, from)] == 10,
    decreases s.len() - from,
{
    if !(from >= s.len() || s[from] == 10) {
        lemma_line_end(s, from + 1);
    }
}

/// The lines `lines`, each followed by a line feed.
pub open spec fn joined_lines(lines: Seq<Seq<u8>>) -> Seq<u8>
    decreases lines.len(),
{
    if lines.len() == 0 {
        Seq::empty()
    } else {
        lines[0] + seq![10u8] + joined_lines(lines.drop_first())
    }
}

/// The lines, each without its first `k` bytes, one after the other.
pub open spec fn line_bodies(lines: Seq<Seq<u8>>, k: int) -> Seq<u8>
    decreases lines.len(),
{
    if lines.len() == 0 {
        Seq::empty()
    } else {
        lines[0].skip(k) + line_bodies(lines.drop_first(), k)
    }
}

/// `s` starts with `prefix`.
pub open spec fn has_prefix(s: Seq<u8>, prefix: Seq<u8>) -> bool {
    prefix.len() <= s.len() && s.take(prefix.len() as int) == prefix
}

/// A line of a comment: it starts with the marker and holds no line feed, and it does not end
/// with a carriage return.
pub open spec fn is_comment_line(l: Seq<u8>, marker: Seq<u8>) -> bool {
    &&& forall|i: int| 0 <= i < l.len() ==> l[i] != 10
    &&& !(l.len() > 0 && l[l.len() - 1] == 13)
    &&& has_prefix(l, marker)
}

proof fn lemma_comment_lines_from(s: Seq<u8>, from: int, lines: Seq<Seq<u8>>, marker: Seq<u8>, rest: Seq<u8>)
    requires
        0 <= from <= s.len(),
        s.subrange(from, s.len() as int) == joined_lines(lines) + rest,
        forall|i: int| 0 <= i < lines.len() ==> is_comment_line(#[trigger] lines[i], marker),
        !has_prefix(rest, marker),
    ensures
        runner_comment(s, from, marker) == line_bodies(lines, marker.len() as int),
    decreases lines.len(),
{
    let t = s.subrange(from, s.len() as int);
    if lines.len() == 0 {
        assert(t =~= rest);
        if from < s.len() {
            lemma_line_end(s, from);
            let line = line_at(s, from);
            if line.len() >= marker.len() && line.take(marker.len() as int) == marker {
                assert(rest.take(marker.len() as int) =~= line.take(marker.len() as int));
            }
        }
    } else {
        let l = lines[0];
        let n = l.len() as int;
        assert(is_comment_line(l, marker));
        let tail = joined_lines(lines.drop_first()) + rest;
        assert(joined_lines(lines) == l + seq![10u8] + joined_lines(lines.drop_first()));
        assert(t =~= l + (seq![10u8] + tail));
        assert(t.len() == s.len() - from);
        assert forall|k: int| 0 <= k < n implies s[from + k] == l[k] && s[from + k] != 10 by {
            assert(t[k] == l[k]);
            assert(t[k] == s[from + k]);
        }
        assert(t[n] == 10u8);
        assert(t[n] == s[from + n]);
        lemma_line_end(s, from);
        let e = line_end(s, from);
        if e < from + n {
            let k = e - from;
            assert(s[from + k] == l[k]);
            assert(l[k] != 10);
            assert(from + k == e);
        }
        if e > from + n {
            assert(s[from + n] != 10);
        }
        assert(e == from + n);
        assert(line_at(s, from) =~= l) by {
            if n > 0 {
                assert(s[e - 1] == l[n - 1]);
            }
            assert(s.subrange(from, e) =~= l);
        }
        assert(s.subrange(e + 1, s.len() as int) =~= joined_lines(lines.drop_first()) + rest) by {
            assert(t.subrange(n + 1, t.len() as int) =~= tail);
        }
        assert forall|i: int| 0 <= i < lines.drop_first().len() implies is_comment_line(
            #[trigger] lines.drop_first()[i],
            marker,
        ) by {
            assert(lines.drop_first()[i] == lines[i + 1]);
        }
        lemma_comment_lines_from(s, e + 1, lines.drop_first(), marker, rest);
    }
}

/// The runner comment of a source contract is every one of its leading lines that start with
/// the comment marker, in order, each without the marker (and without a carriage return before
/// its line feed), joined with nothing between them; it ends at the first line that does not
/// start with the marker.
pub proof fn lemma_runner_comment_lines(lines: Seq<Seq<u8>>, marker: Seq<u8>, rest: Seq<u8>)
    requires
        forall|i: int| 0 <= i < lines.len() ==> is_comment_line(#[trigger] lines[i], marker),
        !has_prefix(rest, marker),
    ensures
        runner_comment(joined_lines(lines) + rest, 0, marker) == line_bodies(lines, marker.len() as int),
{
    let s = joined_lines(lines) + rest;
    assert(s.subrange(0, s.len() as int) =~= s);
    lemma_comment_lines_from(s, 0, lines, marker, rest);
}

/// A source contract's comment marker is what its code starts with: `//`, `#` or `--`,
/// whichever it starts with, and none when it starts with none of them.
pub proof fn lemma_comment_marker_is_a_prefix(s: Seq<u8>)
    ensures
        comment_marker(s) matches Some(m) ==> has_prefix(s, m),
        comment_marker(s) matches Some(m) ==> m == seq![47u8, 47u8] || m == seq![35u8] || m == seq![
            45u8,
            45u8,
        ],
        has_prefix(s, seq![47u8, 47u8]) ==> comment_marker(s) == Some(seq![47u8, 47u8]),
        has_prefix(s, seq![35u8]) ==> comment_marker(s) == Some(seq![35u8]),
        has_prefix(s, seq![45u8, 45u8]) ==> comment_marker(s) == Some(seq![45u8, 45u8]),
        !has_prefix(s, seq![47u8, 47u8]) && !has_prefix(s, seq![35u8]) && !has_prefix(s, seq![45u8, 45u8])
            ==> comment_marker(s) is None,
{
    if s.len() >= 2 {
        assert(s.take(2) =~= seq![s[0], s[1]]);
    }
    if s.len() >= 1 {
        assert(s.take(1) =~= seq![s[0]]);
        if has_prefix(s, seq![35u8]) {
            assert(s.take(1)[0] == s[0]);
            assert(seq![35u8][0] == 35u8);
        }
    }
}

fn starts_with_at(s: &[u8], from: usize, end: usize, marker: &[u8]) -> (r: bool)
    requires
        from <= end <= s@.len(),
    ensures
        r == (end - from >= marker@.len() && s@.subrange(from as int, end as int).take(
            marker@.len() as int,
        ) == marker@),
{
    if end - from < marker.len() {
        return false;
    }
    let mut i: usize = 0;
    while i < marker.len()
        invariant
            from <= end <= s@.len(),
            end - from >= marker@.len(),
            0 <= i <= marker@.len(),
            forall|k: int| 0 <= k < i ==> s@[from + k] == marker@[k],
        decreases marker@.len() - i,
    {
        if s[from + i] != marker[i] {
            assert(s@.subrange(from as int, end as int).take(marker@.len() as int)[i as int] != marker@[i as int]);
            return false;
        }
        i = i + 1;
    }
    assert(s@.subrange(from as int, end as int).take(marker@.len() as int) =~= marker@);
    true
}

/// Collects the runner comment of a source contract, line by line.
fn collect_runner_comment(s: &[u8], marker: &[u8]) -> (r: Vec<u8>)
    ensures
        r@ == runner_comment(s@, 0, marker@),
{
    let mut out: Vec<u8> = Vec::new();
    let mut from: usize = 0;
    let len = s.len();
    while from < len
        invariant
            len == s@.len(),
            0 <= from <= len,
            out@ + runner_comment(s@, from as int, marker@) == runner_comment(s@, 0, marker@),
        decreases len - from,
    {
        let mut e = from;
        while e < len && s[e] != 10
            invariant
                from <= e <= len,
                len == s@.len(),
                line_end(s@, from as int) == line_end(s@, e as int),
            decreases len - e,
        {
            e = e + 1;
        }
        proof {
            lemma_line_end(s@, from as int);
        }
        let stop = if e < len && e > from && s[e - 1] == 13 {
            e - 1
        } else {
            e
        };
        assert(line_at(s@, from as int) == s@.subrange(from as int, stop as int));
        if !starts_with_at(s, from, stop, marker) {
            assert(out@ =~= runner_comment(s@, 0, marker@));
            return out;
        }
        let ghost out0 = out@;
        let mut k = from + marker.len();
        while k < stop
            invariant
                from + marker@.len() <= k <= stop,
                stop <= len,
                len == s@.len(),
                out@ == out0 + s@.subrange(from + marker@.len(), k as int),
            decreases stop - k,
        {
            out.push(s[k]);
            assert(s@.subrange(from + marker@.len(), k + 1) =~= s@.subrange(
                from + marker@.len(),
                k as int,
            ).push(s@[k as int]));
            k = k + 1;
        }
        assert(s@.subrange(from as int, stop as int).skip(marker@.len() as int) =~= s@.subrange(
            from + marker@.len(),
            stop as int,
        ));
        if e < len {
            from = e + 1;
        } else {
            assert(out@ =~= runner_comment(s@, 0, marker@));
            return out;
        }
    }
    assert(out@ =~= runner_comment(s@, 0, marker@));
    out
}

/// Reads the code of a contract into an archive: a zip image as it is, a core wasm module as the
/// single file `file` started directly, and source code as `file` together with the runner
/// description found in its leading comment lines.
pub fn code_to_archive(code: SharedBytes) -> (r: Result<Archive, VmError>)
    ensures
        zip_accepts(code@) ==> {
            &&& r is Ok <==> zip_readable(code@)
            &&& r matches Ok(a) ==> a.files() == zip_files(code@, zip_file_count(code@))
            &&& r matches Err(e) ==> e matches VmError::Archive(ae) && exists|k: nat|
                zip_first_failure(code@, k, ae@)
        },
        r matches Ok(a) ==> a.total_size == #[verifier::truncate] (code@.len() as u32),
        !zip_accepts(code@) && code@.len() >= 8 && code@.take(8) == wasm_module_header()
            ==> (r matches Ok(a) && a.files() == Map::<Seq<char>, Seq<u8>>::empty().insert(
            "runner.json"@,
            encode_utf8("{ \"StartWasm\": \"file\" }"@),
        ).insert("file"@, code@)),
        !zip_accepts(code@) && !(code@.len() >= 8 && code@.take(8) == wasm_module_header()) ==> {
            if !valid_utf8(code@) {
                r matches Err(VmError::Contract(ContractError(msg, Some(cause))))
                    && msg@ == "invalid_contract non-utf8"@
                    && (*cause matches VmError::Other(text) && text@ == utf8_error_text(code@))
            } else {
                match comment_marker(code@) {
                    None => r matches Err(VmError::Contract(ContractError(msg, None)))
                        && msg@ == "no_runner_comment"@,
                    Some(m) => r matches Ok(a) && a.files() == Map::<
                        Seq<char>,
                        Seq<u8>,
                    >::empty().insert("runner.json"@, runner_comment(code@, 0, m)).insert(
                        "file"@,
                        code@,
                    ),
                }
            }
        },
{
    let bytes = code.as_slice();
    match zip_open(vstd::slice::slice_to_vec(bytes)) {
        Some(mut z) => {
            let total = #[verifier::truncate] (code.len() as u32);
            return match Archive::from_zip(&mut z, total) {
                Ok(a) => Ok(a),
                Err(e) => Err(VmError::Archive(e)),
            };
        },
        None => {},
    }
    if is_core_wasm(bytes) {
        let runner = SharedBytes::from_slice("{ \"StartWasm\": \"file\" }".as_bytes());
        return Ok(Archive::from_file_and_runner(code, runner));
    }
    match check_utf8(bytes) {
        Ok(()) => {},
        Err(text) => {
            return Err(
                VmError::Contract(
                    ContractError(
                        String::from_str("invalid_contract non-utf8"),
                        Some(Box::new(VmError::Other(text))),
                    ),
                ),
            );
        },
    }
    let marker: Vec<u8> = if bytes.len() >= 2 && bytes[0] == 47 && bytes[1] == 47 {
        vec![47u8, 47u8]
    } else if bytes.len() >= 1 && bytes[0] == 35 {
        vec![35u8]
    } else if bytes.len() >= 2 && bytes[0] == 45 && bytes[1] == 45 {
        vec![45u8, 45u8]
    } else {
        return Err(VmError::Contract(ContractError(String::from_str("no_runner_comment"), None)));
    };
    assert(Some(marker@) == comment_marker(code@));
    let comment = collect_runner_comment(bytes, marker.as_slice());
    let runner = SharedBytes::new(comment);
    Ok(Archive::from_file_and_runner(code, runner))
}

/// How many modules were taken from the cache in memory, loaded in their precompiled form, or
/// compiled.
#[derive(Clone, Copy, PartialEq, Eq, Debug, Structural)]
pub struct CacheStats {
    pub precompile_hits: usize,
    pub cache_hits: usize,
    pub compiled_modules: usize,
}

/// Where a module to run comes from.
#[derive(Clone, Copy, PartialEq, Eq, Debug, Structural)]
pub enum CacheAction {
    /// It is in the cache already.
    Hit,
    /// Load its precompiled form, then keep it in the cache.
    LoadPrecompiled,
    /// Compile it, then keep it in the cache.
    Compile,
}

/// The compiled modules kept in memory, by the id of their wasm file (its runner id, `:` and
/// its path in the runner), with the counts of where modules came from.
pub struct ModuleCache<M> {
    modules: StrMap<M>,
    stats: CacheStats,
}

impl<M> ModuleCache<M> {
    /// The modules kept, by id.
    pub closed spec fn modules(&self) -> Map<Seq<char>, M> {
        self.modules@
    }

    /// The counts of where modules came from.
    pub closed spec fn counts(&self) -> CacheStats {
        self.stats
    }

    /// Reads the counts.
    pub fn stats(&self) -> (r: CacheStats)
        ensures
            r == self.counts(),
    {
        self.stats
    }

    /// An empty cache with all counts at zero.
    pub fn new() -> (r: ModuleCache<M>)
        ensures
            r.modules() == Map::<Seq<char>, M>::empty(),
            r.counts() == (CacheStats { precompile_hits: 0, cache_hits: 0, compiled_modules: 0 }),
    {
        ModuleCache {
            modules: StrMap::new(),
            stats: CacheStats { precompile_hits: 0, cache_hits: 0, compiled_modules: 0 },
        }
    }

    /// The module kept under `uid`.
    pub fn get(&self, uid: &str) -> (r: Option<&M>)
        ensures
            r is Some <==> self.modules().contains_key(uid@),
            r matches Some(m) ==> *m == self.modules()[uid@],
    {
        self.modules.get(uid)
    }

    /// Decides where the module `uid` comes from, and counts it: from the cache when it is kept
    /// there; otherwise from its precompiled form when that was found (`precompiled_found`), else
    /// by compiling it. The modules kept do not change.
    pub fn cache_step(&mut self, uid: &str, precompiled_found: bool) -> (r: CacheAction)
        requires
            old(self).modules().contains_key(uid@) ==> old(self).counts().cache_hits < usize::MAX,
            !old(self).modules().contains_key(uid@) && precompiled_found ==> old(
                self,
            ).counts().precompile_hits < usize::MAX,
            !old(self).modules().contains_key(uid@) && !precompiled_found ==> old(
                self,
            ).counts().compiled_modules < usize::MAX,
        ensures
            final(self).modules() == old(self).modules(),
            old(self).modules().contains_key(uid@) ==> r == CacheAction::Hit && final(self).counts() == (
            CacheStats { cache_hits: (old(self).counts().cache_hits + 1) as usize, ..old(self).counts() }),
            !old(self).modules().contains_key(uid@) && precompiled_found ==> r
                == CacheAction::LoadPrecompiled && final(self).counts() == (CacheStats {
                precompile_hits: (old(self).counts().precompile_hits + 1) as usize,
                ..old(self).counts()
            }),
            !old(self).modules().contains_key(uid@) && !precompiled_found ==> r == CacheAction::Compile
                && final(self).counts() == (CacheStats {
                compiled_modules: (old(self).counts().compiled_modules + 1) as usize,
                ..old(self).counts()
            }),
    {
        if self.modules.contains_key(uid) {
            self.stats.cache_hits = self.stats.cache_hits + 1;
            CacheAction::Hit
        } else if precompiled_found {
            self.stats.precompile_hits = self.stats.precompile_hits + 1;
            CacheAction::LoadPrecompiled
        } else {
            self.stats.compiled_modules = self.stats.compiled_modules + 1;
            CacheAction::Compile
        }
    }

    /// Keeps module `m` under `uid`.
    pub fn store(&mut self, uid: String, m: M)
        ensures
            final(self).modules() == old(self).modules().insert(uid@, m),
            final(self).counts() == old(self).counts(),
    {
        self.modules.insert(uid, m);
    }
}

} // verus!
