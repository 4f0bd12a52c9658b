use std::sync::Arc;
use vstd::prelude::*;
use vstd::utf8::{decode_utf8, valid_utf8};

use crate::str_map::StrMap;

verus! {

/// Calls `Arc::clone`, which hands out another handle to the same allocation; the claim is that
/// the new handle holds the same buffer.
#[verifier::external_body]
fn share_buffer(a: &Arc<Vec<u8>>) -> (r: Arc<Vec<u8>>)
    ensures
        r == *a,
{
    Arc::clone(a)
}

/// A cheaply clonable window into an immutable, shared byte buffer.
pub struct SharedBytes {
    bytes: Arc<Vec<u8>>,
    begin: usize,
    end: usize,
}

impl View for SharedBytes {
    type V = Seq<u8>;

    closed spec fn view(&self) -> Seq<u8> {
        self.bytes@.subrange(self.begin as int, self.end as int)
    }
}

impl SharedBytes {
    #[verifier::type_invariant]
    spec fn inv(self) -> bool {
        self.begin <= self.end <= self.bytes@.len()
    }

    /// Number of bytes in the window.
    pub fn len(&self) -> (r: usize)
        ensures
            r == self@.len(),
    {
        proof {
            use_type_invariant(self);
        }
        self.end - self.begin
    }

    /// Whether the window holds no bytes.
    pub fn is_empty(&self) -> (r: bool)
        ensures
            r == (self@.len() == 0),
    {
        self.len() == 0
    }

    /// The bytes of the window.
    pub fn as_slice(&self) -> (r: &[u8])
        ensures
            r@ == self@,
    {
        proof {
            use_type_invariant(self);
        }
        let all: &Vec<u8> = &*self.bytes;
        &all.as_slice()[self.begin..self.end]
    }

    /// Takes ownership of `value` and shares it as a whole.
    pub fn new(value: Vec<u8>) -> (r: SharedBytes)
        ensures
            r@ == value@,
    {
        let len = value.len();
        let r = SharedBytes { begin: 0, end: len, bytes: Arc::new(value) };
        assert(r@ =~= value@);
        r
    }

    /// Copies `value` into a fresh shared buffer.
    pub fn from_slice(value: &[u8]) -> (r: SharedBytes)
        ensures
            r@ == value@,
    {
        let data: Vec<u8> = vstd::slice::slice_to_vec(value);
        SharedBytes::new(data)
    }

    /// The byte at position `i` of the window.
    pub fn byte_at(&self, i: usize) -> (r: u8)
        requires
            i < self@.len(),
        ensures
            r == self@[i as int],
    {
        proof {
            use_type_invariant(self);
        }
        self.bytes[self.begin + i]
    }

    /// A window onto bytes `begin..end` of this window; the buffer is shared, not copied.
    pub fn slice(&self, begin: usize, end: usize) -> (r: SharedBytes)
        requires
            begin <= end <= self@.len(),
        ensures
            r@ == self@.subrange(begin as int, end as int),
    {
        proof {
            use_type_invariant(self);
        }
        let r = SharedBytes {
            bytes: share_buffer(&self.bytes),
            begin: self.begin + begin,
            end: self.begin + end,
        };
        assert(r@ =~= self@.subrange(begin as int, end as int));
        r
    }

    /// Another handle on the same window of the same buffer.
    pub fn share(&self) -> (r: SharedBytes)
        ensures
            r@ == self@,
    {
        proof {
            use_type_invariant(self);
        }
        SharedBytes { bytes: share_buffer(&self.bytes), begin: self.begin, end: self.end }
    }
}


/// Why a tar or zip image could not be read into an [`Archive`].
pub enum ArchiveError {
    /// Fewer bytes than two tar blocks.
    TooShort,
    /// The length is not a whole number of tar blocks.
    BadLength,
    /// The header that starts at `offset` lacks the ustar signature.
    InvalidHeader { offset: usize },
    /// A header describes a link.
    LinksForbidden,
    /// An entry name is not valid UTF-8.
    InvalidName,
    /// The size field holds a byte that is not an octal digit.
    InvalidOctal(u8),
    /// Two entries share a name.
    Occupied(String),
    /// The zip reader refused the image or one of its entries.
    Zip,
}

/// The failures of reading an archive, with names taken by their characters.
pub enum ArchiveFailure {
    TooShort,
    BadLength,
    InvalidHeader(nat),
    LinksForbidden,
    InvalidName,
    InvalidOctal(u8),
    Occupied(Seq<char>),
    Zip,
}

impl View for ArchiveError {
    type V = ArchiveFailure;

    open spec fn view(&self) -> ArchiveFailure {
        match self {
            ArchiveError::TooShort => ArchiveFailure::TooShort,
            ArchiveError::BadLength => ArchiveFailure::BadLength,
            ArchiveError::InvalidHeader { offset } => ArchiveFailure::InvalidHeader(*offset as nat),
            ArchiveError::LinksForbidden => ArchiveFailure::LinksForbidden,
            ArchiveError::InvalidName => ArchiveFailure::InvalidName,
            ArchiveError::InvalidOctal(c) => ArchiveFailure::InvalidOctal(*c),
            ArchiveError::Occupied(name) => ArchiveFailure::Occupied(name@),
            ArchiveError::Zip => ArchiveFailure::Zip,
        }
    }
}

/// The files of a map of named shared buffers, each by its bytes.
pub open spec fn file_bytes(m: Map<Seq<char>, SharedBytes>) -> Map<Seq<char>, Seq<u8>> {
    m.map_values(|b: SharedBytes| b@)
}

proof fn lemma_file_bytes_insert(m: Map<Seq<char>, SharedBytes>, k: Seq<char>, v: SharedBytes)
    ensures
        file_bytes(m.insert(k, v)) == file_bytes(m).insert(k, v@),
{
    assert(file_bytes(m.insert(k, v)) =~= file_bytes(m).insert(k, v@));
}

/// A collection of named files read out of a contract or runner image, kept in name order.
pub struct Archive {
    pub data: StrMap<SharedBytes>,
    pub total_size: u32,
}

impl Archive {
    /// The files of the archive, by name.
    pub open spec fn files(&self) -> Map<Seq<char>, Seq<u8>> {
        file_bytes(self.data@)
    }
}

/// Adds `key` to the files unless some file already carries that name.
pub fn map_try_insert(map: &mut StrMap<SharedBytes>, key: String, value: SharedBytes) -> (r: Result<
    (),
    ArchiveError,
>)
    ensures
        old(map)@.contains_key(key@) <==> r is Err,
        r is Err ==> final(map)@ == old(map)@ && r->Err_0@ == ArchiveFailure::Occupied(key@),
        r is Ok ==> final(map)@ == old(map)@.insert(key@, value),
{
    if map.contains_key(key.as_str()) {
        return Err(ArchiveError::Occupied(key));
    }
    map.insert(key, value);
    Ok(())
}

/// The length that [`spec_trim_zeroes`] keeps: `idx` less the zero bytes that end `x[..idx]`.
pub open spec fn trimmed_len(x: Seq<u8>, idx: int) -> int
    decreases idx,
{
    if idx > 0 && x[idx - 1] == 0 {
        trimmed_len(x, idx - 1)
    } else {
        idx
    }
}

/// A header field with its last byte dropped and then the zero bytes that end it.
pub open spec fn spec_trim_zeroes(x: Seq<u8>) -> Seq<u8> {
    x.take(trimmed_len(x, x.len() - 1))
}

proof fn lemma_trimmed_len(x: Seq<u8>, idx: int)
    requires
        0 <= idx <= x.len(),
    ensures
        0 <= trimmed_len(x, idx) <= idx,
    decreases idx,
{
    if idx > 0 && x[idx - 1] == 0 {
        lemma_trimmed_len(x, idx - 1);
    }
}

/// Drops the last byte of a header field and then the zero bytes that end it.
pub fn trim_zeroes(x: &[u8]) -> (r: &[u8])
    requires
        x@.len() > 0,
    ensures
        r@ == spec_trim_zeroes(x@),
        r@.len() < x@.len(),
{
    proof {
        lemma_trimmed_len(x@, x@.len() - 1);
    }
    let mut idx = x.len() - 1;
    while idx > 0 && x[idx - 1] == 0
        invariant
            0 <= idx < x@.len(),
            trimmed_len(x@, idx as int) == trimmed_len(x@, x@.len() - 1),
        decreases idx,
    {
        idx -= 1;
    }
    &x[0..idx]
}

/// The value of a string of octal digits.
pub open spec fn octal_value(s: Seq<u8>) -> nat
    decreases s.len(),
{
    if s.len() == 0 {
        0
    } else {
        octal_value(s.drop_last()) * 8 + (s.last() - 48) as nat
    }
}

/// An ASCII octal digit.
pub open spec fn is_octal_digit(c: u8) -> bool {
    48 <= c <= 55
}

/// The first byte of `s` that is not an octal digit.
pub open spec fn first_non_octal(s: Seq<u8>) -> Option<u8>
    decreases s.len(),
{
    if s.len() == 0 {
        None
    } else {
        match first_non_octal(s.drop_last()) {
            Some(c) => Some(c),
            None => if is_octal_digit(s.last()) {
                None
            } else {
                Some(s.last())
            },
        }
    }
}

/// The value of the octal digits that open `s`, up to its first other byte.
pub open spec fn octal_prefix_value(s: Seq<u8>) -> nat
    decreases s.len(),
{
    if s.len() == 0 {
        0
    } else if first_non_octal(s) is None {
        octal_value(s)
    } else {
        octal_prefix_value(s.drop_last())
    }
}

/// The signature and version of a ustar header: `ustar\0` and `00`.
pub open spec fn ustar_magic() -> Seq<u8> {
    seq![0x75u8, 0x73u8, 0x74u8, 0x61u8, 0x72u8, 0x00u8, 0x30u8, 0x30u8]
}

/// Every byte of `d[from..to]` is zero.
pub open spec fn all_zero(d: Seq<u8>, from: int, to: int) -> bool {
    forall|i: int| from <= i < to ==> d[i] == 0
}

/// The name of the entry whose header starts at `h`: its prefix field, then its name field.
pub open spec fn header_name_bytes(d: Seq<u8>, h: int) -> Seq<u8> {
    spec_trim_zeroes(d.subrange(h + 345, h + 500)) + spec_trim_zeroes(d.subrange(h, h + 100))
}

/// The size field of the header at `h`, without its zero padding.
pub open spec fn header_size_field(d: Seq<u8>, h: int) -> Seq<u8> {
    spec_trim_zeroes(d.subrange(h + 124, h + 136))
}

/// `x` raised to the next multiple of the block size.
pub open spec fn round_to_block(x: int) -> int {
    x + (512 - x % 512) % 512
}

/// What reading a tar image comes to: its files, a failure, or a crash of the reader.
pub enum UstarOutcome {
    Parsed(Map<Seq<char>, Seq<u8>>),
    Failed(ArchiveFailure),
    Panics,
}

/// Reading the headers from offset `begin` on, with `acc` the files read so far.
pub open spec fn ustar_parse_from(d: Seq<u8>, begin: int, acc: Map<Seq<char>, Seq<u8>>) -> UstarOutcome
    decreases d.len() - begin,
{
    if begin < 0 || begin + 1024 > d.len() {
        UstarOutcome::Parsed(acc)
    } else if all_zero(d, begin, begin + 1024) {
        UstarOutcome::Parsed(acc)
    } else if d.subrange(begin + 257, begin + 265) != ustar_magic() {
        UstarOutcome::Failed(ArchiveFailure::InvalidHeader(begin as nat))
    } else if !(d[begin + 156] == 48 || d[begin + 156] == 0 || d[begin + 156] == 53) {
        UstarOutcome::Failed(ArchiveFailure::LinksForbidden)
    } else if !valid_utf8(header_name_bytes(d, begin)) {
        UstarOutcome::Failed(ArchiveFailure::InvalidName)
    } else {
        let name = decode_utf8(header_name_bytes(d, begin));
        let size_field = header_size_field(d, begin);
        if name.len() > 0 && name.last() == '/' {
            ustar_parse_from(d, begin + 512, acc)
        } else if octal_prefix_value(size_field) > usize::MAX {
            UstarOutcome::Panics
        } else {
            match first_non_octal(size_field) {
                Some(c) => UstarOutcome::Failed(ArchiveFailure::InvalidOctal(c)),
                None => {
                    let size = octal_value(size_field);
                    if begin + 512 + size > d.len() {
                        UstarOutcome::Panics
                    } else if acc.contains_key(name) {
                        UstarOutcome::Failed(ArchiveFailure::Occupied(name))
                    } else {
                        let next = round_to_block(begin + 512 + size);
                        let acc2 = acc.insert(name, d.subrange(begin + 512, begin + 512 + size));
                        if next >= d.len() {
                            UstarOutcome::Parsed(acc2)
                        } else {
                            ustar_parse_from(d, next, acc2)
                        }
                    }
                },
            }
        }
    }
}

/// What reading `d` as a tar image comes to.
pub open spec fn spec_from_ustar(d: Seq<u8>) -> UstarOutcome {
    if d.len() < 1024 {
        UstarOutcome::Failed(ArchiveFailure::TooShort)
    } else if d.len() % 512 != 0 {
        UstarOutcome::Failed(ArchiveFailure::BadLength)
    } else {
        ustar_parse_from(d, 0, Map::empty())
    }
}


/// Calls `String::from_utf8`, which accepts exactly the valid UTF-8 byte strings; the claim is
/// that it succeeds on those and gives back the characters they encode.
#[verifier::external_body]
fn string_from_utf8(bytes: Vec<u8>) -> (r: Option<String>)
    ensures
        r is Some <==> valid_utf8(bytes@),
        r matches Some(s) ==> s@ == decode_utf8(bytes@),
{
    String::from_utf8(bytes).ok()
}

/// Eight to the power `n`.
pub open spec fn pow8(n: nat) -> nat
    decreases n,
{
    if n == 0 {
        1
    } else {
        8 * pow8((n - 1) as nat)
    }
}

proof fn lemma_first_non_octal_prefix(s: Seq<u8>, j: int)
    requires
        0 <= j <= s.len(),
        first_non_octal(s.take(j)) is Some,
    ensures
        first_non_octal(s) == first_non_octal(s.take(j)),
    decreases s.len(),
{
    if j == s.len() {
        assert(s.take(j) =~= s);
    } else {
        assert(s.drop_last().take(j) =~= s.take(j));
        lemma_first_non_octal_prefix(s.drop_last(), j);
    }
}

/// Reads a string of octal digits; on the first byte that is not one, gives that byte back.
fn parse_octal(s: &[u8]) -> (r: Result<u64, (u8, u64)>)
    requires
        s@.len() <= 11,
    ensures
        match r {
            Ok(v) => first_non_octal(s@) is None && v == octal_value(s@) && v
                == octal_prefix_value(s@),
            Err((c, p)) => first_non_octal(s@) == Some(c) && p == octal_prefix_value(s@),
        },
{
    let mut v: u64 = 0;
    let mut i: usize = 0;
    assert(s@.take(0) =~= Seq::<u8>::empty());
    while i < s.len()
        invariant
            0 <= i <= s@.len() <= 11,
            first_non_octal(s@.take(i as int)) is None,
            v == octal_value(s@.take(i as int)),
            v < pow8(i as nat),
        decreases s@.len() - i,
    {
        let c = s[i];
        assert(s@.take(i + 1).drop_last() =~= s@.take(i as int));
        if !(48 <= c && c <= 55) {
            proof {
                lemma_first_non_octal_prefix(s@, i + 1);
                lemma_octal_prefix_at(s@, i as int);
            }
            return Err((c, v));
        }
        proof {
            reveal_with_fuel(pow8, 12);
            assert(pow8(11) == 8589934592);
            lemma_pow8_mono(i as nat, 11);
            assert(v * 8 + 7 < pow8((i + 1) as nat)) by (nonlinear_arith)
                requires
                    v < pow8(i as nat),
                    pow8((i + 1) as nat) == 8 * pow8(i as nat),
            ;
        }
        v = v * 8 + (c - 48) as u64;
        i = i + 1;
    }
    assert(s@.take(i as int) =~= s@);
    Ok(v)
}

/// When the digits of `s` end at `i`, the value of its opening digits is that of `s[..i]`.
proof fn lemma_octal_prefix_at(s: Seq<u8>, i: int)
    requires
        0 <= i < s.len(),
        first_non_octal(s.take(i)) is None,
        !is_octal_digit(s[i]),
    ensures
        octal_prefix_value(s) == octal_value(s.take(i)),
    decreases s.len(),
{
    assert(s.take(i + 1).drop_last() =~= s.take(i));
    assert(s.take(i + 1).last() == s[i]);
    assert(first_non_octal(s.take(i + 1)) == Some(s[i]));
    lemma_first_non_octal_prefix(s, i + 1);
    assert(first_non_octal(s) is Some);
    assert(octal_prefix_value(s) == octal_prefix_value(s.drop_last()));
    if s.len() == i + 1 {
        assert(s.drop_last() =~= s.take(i));
        if i > 0 {
            assert(octal_prefix_value(s.take(i)) == octal_value(s.take(i)));
        }
    } else {
        assert(s.drop_last().take(i) =~= s.take(i));
        lemma_octal_prefix_at(s.drop_last(), i);
    }
}

proof fn lemma_pow8_mono(a: nat, b: nat)
    requires
        a <= b,
    ensures
        pow8(a) <= pow8(b),
    decreases b,
{
    if a < b {
        lemma_pow8_mono(a, (b - 1) as nat);
    }
}

proof fn lemma_round_to_block(x: int, l: int)
    requires
        0 <= x <= l,
        l % 512 == 0,
    ensures
        x <= round_to_block(x) <= l,
{
    let r = x % 512;
    assert(0 <= r < 512);
    if r != 0 {
        assert(x == 512 * (x / 512) + r);
        assert(l == 512 * (l / 512));
        assert(x / 512 < l / 512);
    }
}

impl Archive {
    /// Reads a ustar image: every regular file (or unnamed-type entry) becomes an entry named by its
    /// prefix and name fields; directories are skipped, links refused, and reading stops at two
    /// zero blocks or at the end.
    pub fn from_ustar(archive_bytes: SharedBytes) -> (r: Result<Archive, ArchiveError>)
        requires
            !(spec_from_ustar(archive_bytes@) is Panics),
        ensures
            match spec_from_ustar(archive_bytes@) {
                UstarOutcome::Parsed(files) => r matches Ok(a) && a.files() == files
                    && a.total_size == archive_bytes@.len() as u32,
                UstarOutcome::Failed(f) => r matches Err(e) && e@ == f,
                UstarOutcome::Panics => false,
            },
    {
        match Archive::try_from_ustar(archive_bytes) {
            Some(r) => r,
            None => {
                assert(false);
                Err(ArchiveError::TooShort)
            },
        }
    }

    /// Reads a ustar image as [`Archive::from_ustar`] does, and says `None` for an image that
    /// the reader would crash on: one whose file data runs past its end, or whose file size does
    /// not fit in a `usize`.
    pub fn try_from_ustar(archive_bytes: SharedBytes) -> (r: Option<Result<Archive, ArchiveError>>)
        ensures
            match spec_from_ustar(archive_bytes@) {
                UstarOutcome::Parsed(files) => r matches Some(Ok(a)) && a.files() == files
                    && a.total_size == archive_bytes@.len() as u32,
                UstarOutcome::Failed(f) => r matches Some(Err(e)) && e@ == f,
                UstarOutcome::Panics => r is None,
            },
    {
        let len = archive_bytes.len();
        if len < 1024 {
            return Some(Err(ArchiveError::TooShort));
        }
        if len % 512 != 0 {
            return Some(Err(ArchiveError::BadLength));
        }
        let all: &[u8] = archive_bytes.as_slice();
        let ghost d = archive_bytes@;
        let mut res: StrMap<SharedBytes> = StrMap::new();
        assert(file_bytes(res@) =~= Map::<Seq<char>, Seq<u8>>::empty());
        let mut begin: usize = 0;
        let mut done = false;
        while !done && len - begin >= 1024
            invariant
                all@ == d,
                d == archive_bytes@,
                len == d.len(),
                len % 512 == 0,
                begin <= len,
                spec_from_ustar(d) == ustar_parse_from(d, 0, Map::empty()),
                done ==> spec_from_ustar(d) == UstarOutcome::Parsed(file_bytes(res@)),
                !done ==> ustar_parse_from(d, begin as int, file_bytes(res@)) == spec_from_ustar(d),
            decreases len - begin, if done { 0int } else { 1int },
        {
            let ghost acc = file_bytes(res@);
            let mut k: usize = 0;
            let mut zero = true;
            while k < 1024
                invariant
                    all@ == d,
                    len == d.len(),
                    begin + 1024 <= len,
                    0 <= k <= 1024,
                    zero == all_zero(d, begin as int, begin + k),
                decreases 1024 - k,
            {
                if all[begin + k] != 0 {
                    zero = false;
                }
                k = k + 1;
            }
            if zero {
                done = true;
            } else {
                let header: &[u8] = &all[begin..begin + 512];
                assert(header@ =~= d.subrange(begin as int, begin + 512));
                if !(header[257] == 0x75 && header[258] == 0x73 && header[259] == 0x74
                    && header[260] == 0x61 && header[261] == 0x72 && header[262] == 0x00
                    && header[263] == 0x30 && header[264] == 0x30) {
                    assert(d.subrange(begin + 257, begin + 265) != ustar_magic()) by {
                        if d.subrange(begin + 257, begin + 265) == ustar_magic() {
                            assert(d.subrange(begin + 257, begin + 265)[0] == header[257]);
                            assert(d.subrange(begin + 257, begin + 265)[1] == header[258]);
                            assert(d.subrange(begin + 257, begin + 265)[2] == header[259]);
                            assert(d.subrange(begin + 257, begin + 265)[3] == header[260]);
                            assert(d.subrange(begin + 257, begin + 265)[4] == header[261]);
                            assert(d.subrange(begin + 257, begin + 265)[5] == header[262]);
                            assert(d.subrange(begin + 257, begin + 265)[6] == header[263]);
                            assert(d.subrange(begin + 257, begin + 265)[7] == header[264]);
                        }
                    }
                    return Some(Err(ArchiveError::InvalidHeader { offset: begin }));
                }
                assert(d.subrange(begin + 257, begin + 265) =~= ustar_magic());
                let size_field = trim_zeroes(&header[124..136]);
                assert(header@.subrange(124, 136) =~= d.subrange(begin + 124, begin + 136));
                let link_indicator = header[156];
                if !(link_indicator == 48 || link_indicator == 0 || link_indicator == 53) {
                    return Some(Err(ArchiveError::LinksForbidden));
                }
                let path_and_name = trim_zeroes(&header[0..100]);
                assert(header@.subrange(0, 100) =~= d.subrange(begin as int, begin + 100));
                let path_and_name_prefix = trim_zeroes(&header[345..500]);
                assert(header@.subrange(345, 500) =~= d.subrange(begin + 345, begin + 500));
                let mut name_vec: Vec<u8> = vstd::slice::slice_to_vec(path_and_name_prefix);
                let ghost prefix_len = name_vec@.len();
                let mut j: usize = 0;
                while j < path_and_name.len()
                    invariant
                        0 <= j <= path_and_name@.len(),
                        prefix_len == path_and_name_prefix@.len(),
                        name_vec@ == path_and_name_prefix@ + path_and_name@.take(j as int),
                    decreases path_and_name@.len() - j,
                {
                    name_vec.push(path_and_name[j]);
                    assert(path_and_name@.take(j + 1) =~= path_and_name@.take(j as int).push(path_and_name@[j as int]));
                    j = j + 1;
                }
                assert(path_and_name@.take(j as int) =~= path_and_name@);
                assert(name_vec@ =~= header_name_bytes(d, begin as int));
                let name = match string_from_utf8(name_vec) {
                    Some(n) => n,
                    None => {
                        return Some(Err(ArchiveError::InvalidName));
                    },
                };
                let name_chars = name.as_str().unicode_len();
                if name_chars > 0 && name.as_str().get_char(name_chars - 1) == '/' {
                    begin = begin + 512;
                } else {
                    let size = match parse_octal(size_field) {
                        Ok(v) => v,
                        Err((c, prefix)) => {
                            if prefix > usize::MAX as u64 {
                                return None;
                            }
                            return Some(Err(ArchiveError::InvalidOctal(c)));
                        },
                    };
                    if size > usize::MAX as u64 {
                        return None;
                    }
                    let file_size = size as usize;
                    if file_size > len - begin - 512 {
                        return None;
                    }
                    let contents = archive_bytes.slice(begin + 512, begin + 512 + file_size);
                    let after = begin + 512 + file_size;
                    proof {
                        lemma_round_to_block(after as int, len as int);
                    }
                    let next = after + (512 - after % 512) % 512;
                    let ghost before = res@;
                    let ghost key = name@;
                    let ghost value = contents;
                    match map_try_insert(&mut res, name, contents) {
                        Ok(()) => {},
                        Err(e) => {
                            return Some(Err(e));
                        },
                    }
                    proof {
                        lemma_file_bytes_insert(before, key, value);
                    }
                    begin = next;
                }
            }
        }
        Some(Ok(Archive { data: res, total_size: #[verifier::truncate] (len as u32) }))
    }
}


#[verifier::external_type_specification]
#[verifier::external_body]
#[verifier::reject_recursive_types(R)]
pub struct ExZipArchive<R>(zip::ZipArchive<R>);

#[verifier::external_type_specification]
#[verifier::external_body]
#[verifier::reject_recursive_types(T)]
pub struct ExCursor<T>(std::io::Cursor<T>);

/// A zip image held in memory, opened by the zip reader, with the bytes it was opened from.
pub struct ZipImage {
    archive: zip::ZipArchive<std::io::Cursor<Vec<u8>>>,
    bytes: Ghost<Seq<u8>>,
}

impl ZipImage {
    /// The bytes the image was opened from.
    pub closed spec fn bytes(&self) -> Seq<u8> {
        self.bytes@
    }
}

/// Whether the zip reader accepts `bytes` as a zip image.
pub uninterp spec fn zip_accepts(bytes: Seq<u8>) -> bool;

/// The number of files that the central directory of the zip image `bytes` lists.
pub uninterp spec fn zip_file_count(bytes: Seq<u8>) -> nat;

/// Whether file `i` of the zip image `bytes` can be opened and read to its end.
pub uninterp spec fn zip_entry_reads(bytes: Seq<u8>, i: nat) -> bool;

/// The name and the decompressed contents of file `i` of the zip image `bytes`.
pub uninterp spec fn zip_file(bytes: Seq<u8>, i: nat) -> (Seq<char>, Seq<u8>);

/// Calls `zip::ZipArchive::new` on the bytes: whether it succeeds depends on the bytes alone.
#[verifier::external_body]
pub(crate) fn zip_open(bytes: Vec<u8>) -> (r: Option<ZipImage>)
    ensures
        r is Some <==> zip_accepts(bytes@),
        r matches Some(z) ==> z.bytes() == bytes@,
{
    let ghost b = bytes@;
    let archive = zip::ZipArchive::new(std::io::Cursor::new(bytes)).ok()?;
    Some(ZipImage { archive, bytes: Ghost(b) })
}

/// Calls `zip::ZipArchive::len`: the number of files of the central directory.
#[verifier::external_body]
fn zip_len(z: &ZipImage) -> (r: usize)
    ensures
        r == zip_file_count(z.bytes()),
{
    z.archive.len()
}

/// Calls `zip::ZipArchive::by_index` and reads the file it gives to its end. Each entry is read
/// from its own offset in the in-memory bytes, so whether that succeeds, and the name and
/// contents it gives, depend on the bytes and `i` alone.
#[verifier::external_body]
fn zip_read_file(z: &mut ZipImage, i: usize) -> (r: Option<(String, Vec<u8>)>)
    requires
        i < zip_file_count(old(z).bytes()),
    ensures
        final(z).bytes() == old(z).bytes(),
        r is Some <==> zip_entry_reads(old(z).bytes(), i as nat),
        r matches Some((name, contents)) ==> (name@, contents@) == zip_file(old(z).bytes(), i as nat),
{
    let mut file = z.archive.by_index(i).ok()?;
    let mut buf: Vec<u8> = Vec::new();
    std::io::Read::read_to_end(&mut file, &mut buf).ok()?;
    Some((String::from(file.name()), buf))
}

/// Every file of the zip image `b` reads, and no two share a name.
pub open spec fn zip_readable(b: Seq<u8>) -> bool {
    &&& forall|i: nat| i < zip_file_count(b) ==> #[trigger] zip_entry_reads(b, i)
    &&& forall|i: nat, j: nat|
        i < j < zip_file_count(b) ==> #[trigger] zip_file(b, i).0 != #[trigger] zip_file(b, j).0
}

/// The files `0 .. k` of the zip image `b`, by name.
pub open spec fn zip_files(b: Seq<u8>, k: nat) -> Map<Seq<char>, Seq<u8>>
    decreases k,
{
    if k == 0 {
        Map::empty()
    } else {
        zip_files(b, (k - 1) as nat).insert(zip_file(b, (k - 1) as nat).0, zip_file(b, (k - 1) as nat).1)
    }
}

proof fn lemma_zip_files_names(b: Seq<u8>, k: nat, name: Seq<char>)
    ensures
        zip_files(b, k).contains_key(name) <==> exists|j: nat| j < k && #[trigger] zip_file(b, j).0 == name,
    decreases k,
{
    if k > 0 {
        lemma_zip_files_names(b, (k - 1) as nat, name);
        if zip_file(b, (k - 1) as nat).0 == name {
            assert(zip_file(b, (k - 1) as nat).0 == name);
        }
    }
}

/// File `k` of the zip image `b` is the first that does not read or repeats an earlier name,
/// and `e` is what that gives: `Zip` for a file that does not read, `Occupied` for a repeated
/// name.
pub open spec fn zip_first_failure(b: Seq<u8>, k: nat, e: ArchiveFailure) -> bool {
    &&& k < zip_file_count(b)
    &&& forall|j: nat| j < k ==> #[trigger] zip_entry_reads(b, j)
    &&& forall|i: nat, j: nat| i < j < k ==> #[trigger] zip_file(b, i).0 != #[trigger] zip_file(b, j).0
    &&& if !zip_entry_reads(b, k) {
        e == ArchiveFailure::Zip
    } else {
        &&& exists|j: nat| j < k && #[trigger] zip_file(b, j).0 == zip_file(b, k).0
        &&& e == ArchiveFailure::Occupied(zip_file(b, k).0)
    }
}

impl Archive {
    /// Reads every file of a zip image, in the order of its central directory. It fails at the
    /// first file that does not read or repeats an earlier name.
    pub fn from_zip(zip: &mut ZipImage, total_size: u32) -> (r: Result<Archive, ArchiveError>)
        ensures
            final(zip).bytes() == old(zip).bytes(),
            r is Ok <==> zip_readable(old(zip).bytes()),
            r matches Ok(a) ==> {
                &&& a.total_size == total_size
                &&& a.files() == zip_files(old(zip).bytes(), zip_file_count(old(zip).bytes()))
            },
            r matches Err(e) ==> exists|k: nat| zip_first_failure(old(zip).bytes(), k, e@),
    {
        let mut res: StrMap<SharedBytes> = StrMap::new();
        assert(file_bytes(res@) =~= Map::<Seq<char>, Seq<u8>>::empty());
        let count = zip_len(zip);
        let ghost b = zip.bytes();
        let mut i: usize = 0;
        while i < count
            invariant
                0 <= i <= count,
                count == zip_file_count(b),
                b == old(zip).bytes(),
                zip.bytes() == b,
                file_bytes(res@) == zip_files(b, i as nat),
                forall|x: nat, y: nat| x < y < i ==> #[trigger] zip_file(b, x).0 != #[trigger] zip_file(b, y).0,
                forall|j: nat| j < i ==> #[trigger] zip_entry_reads(b, j),
            decreases count - i,
        {
            let (name, contents) = match zip_read_file(zip, i) {
                Some(f) => f,
                None => {
                    let e = ArchiveError::Zip;
                    assert(zip_first_failure(b, i as nat, e@));
                    return Err(e);
                },
            };
            let ghost key = name@;
            let shared = SharedBytes::from_slice(contents.as_slice());
            let ghost value = shared;
            let ghost before = res@;
            proof {
                lemma_zip_files_names(b, i as nat, key);
                assert(before.contains_key(key) <==> file_bytes(before).contains_key(key));
            }
            match map_try_insert(&mut res, name, shared) {
                Ok(()) => {},
                Err(e) => {
                    proof {
                        let k = choose|k: nat| k < i && #[trigger] zip_file(b, k).0 == key;
                        assert(zip_file(b, k).0 == key);
                        assert(zip_first_failure(b, i as nat, e@));
                    }
                    return Err(e);
                },
            }
            proof {
                lemma_file_bytes_insert(before, key, value);
                assert forall|x: nat, y: nat| x < y < i + 1 implies #[trigger] zip_file(b, x).0
                    != #[trigger] zip_file(b, y).0 by {
                    if y == i {
                        assert(zip_files(b, i as nat).contains_key(zip_file(b, x).0)) by {
                            lemma_zip_files_names(b, i as nat, zip_file(b, x).0);
                        }
                    }
                }
            }
            i = i + 1;
        }
        Ok(Archive { data: res, total_size })
    }

    /// An archive of two files: `file`, and `runner.json` holding the runner description.
    pub fn from_file_and_runner(file: SharedBytes, runner_comment: SharedBytes) -> (r: Archive)
        ensures
            r.files() == Map::<Seq<char>, Seq<u8>>::empty().insert("runner.json"@, runner_comment@).insert(
                "file"@,
                file@,
            ),
            r.total_size == #[verifier::truncate] (file@.len() as u32),
    {
        let total_size = #[verifier::truncate] (file.len() as u32);
        let mut data: StrMap<SharedBytes> = StrMap::new();
        let ghost f = file;
        let ghost rc = runner_comment;
        data.insert(String::from_str("runner.json"), runner_comment);
        data.insert(String::from_str("file"), file);
        proof {
            let m0 = Map::<Seq<char>, SharedBytes>::empty();
            lemma_file_bytes_insert(m0, "runner.json"@, rc);
            lemma_file_bytes_insert(m0.insert("runner.json"@, rc), "file"@, f);
            assert(file_bytes(m0) =~= Map::<Seq<char>, Seq<u8>>::empty());
        }
        Archive { data, total_size }
    }
}

} // verus!
