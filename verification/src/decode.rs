use vstd::prelude::*;
use vstd::utf8::{
    encode_scalar, encode_utf8, has_width_1_encoding, has_width_2_encoding, has_width_3_encoding,
    has_width_4_encoding, is_scalar,
};

verus! {

pub assume_specification[ core::char::from_u32 ](i: u32) -> (r: Option<char>)
    ensures
        r is Some <==> is_scalar(i),
        r matches Some(c) ==> c as u32 == i,
;

/// The bytes of a sequence that does not decode to a character.
pub struct InvalidSequence(pub Vec<u8>);

/// Number of leading one bits of a byte.
pub open spec fn leading_ones(b: u8) -> u32 {
    if b == 0xFF {
        8
    } else if b >= 0xFE {
        7
    } else if b >= 0xFC {
        6
    } else if b >= 0xF8 {
        5
    } else if b >= 0xF0 {
        4
    } else if b >= 0xE0 {
        3
    } else if b >= 0xC0 {
        2
    } else if b >= 0x80 {
        1
    } else {
        0
    }
}

/// A byte that continues a multi-byte sequence: `10xxxxxx`.
pub open spec fn is_continuation(b: u8) -> bool {
    0x80 <= b < 0xC0
}

/// Adds the payload of a continuation byte to a partly decoded code point.
pub open spec fn accum_step(x: u32, c: u8) -> u32 {
    (x << 6u32) | ((c as u32) & 0x3Fu32)
}

/// The code point that `x` becomes once the continuation bytes `s` are added.
pub open spec fn accum(x: u32, s: Seq<u8>) -> u32
    decreases s.len(),
{
    if s.len() == 0 {
        x
    } else {
        accum_step(accum(x, s.drop_last()), s.last())
    }
}

/// How many continuation bytes follow from position `from` on, counting at most `max`.
pub open spec fn count_continuations(s: Seq<u8>, from: int, max: int) -> int
    decreases max,
{
    if max <= 0 || from < 0 || from >= s.len() || !is_continuation(s[from]) {
        0
    } else {
        1 + count_continuations(s, from + 1, max - 1)
    }
}

/// The number of bytes UTF-8 takes for the code point `x`.
pub open spec fn utf8_width(x: u32) -> u32 {
    if x < 0x80 {
        1
    } else if x < 0x800 {
        2
    } else if x < 0x10000 {
        3
    } else {
        4
    }
}

/// The bits of a leading byte that carry the code point, for a sequence of `l` bytes.
pub open spec fn lead_payload(b: u8, l: u32) -> u32 {
    (b as u32) & (0x7Fu32 >> l)
}

/// Decodes the first item of a non-empty byte string: a character, or the bytes of an invalid
/// sequence; the second component is how many bytes the item takes.
pub open spec fn decode_step(s: Seq<u8>) -> (Result<char, Seq<u8>>, int) {
    let b = s[0];
    if b < 0x80 {
        (Ok(b as char), 1)
    } else {
        let l = leading_ones(b);
        if l < 2 || l > 6 {
            (Err(seq![b]), 1)
        } else {
            let k = count_continuations(s, 1, l - 1);
            if k < l - 1 {
                (Err(s.take(1 + k)), 1 + k)
            } else {
                let x = accum(lead_payload(b, l), s.subrange(1, l as int));
                if is_scalar(x) && l == utf8_width(x) {
                    (Ok(x as char), l as int)
                } else {
                    (Err(s.take(l as int)), l as int)
                }
            }
        }
    }
}

/// Whether an executable item is the one that a decoding step describes.
pub open spec fn item_matches(r: Result<char, InvalidSequence>, s: Result<char, Seq<u8>>) -> bool {
    match (r, s) {
        (Ok(a), Ok(b)) => a == b,
        (Err(a), Err(b)) => a.0@ == b,
        _ => false,
    }
}

proof fn lemma_count_continuations(s: Seq<u8>, from: int, max: int, n: int)
    requires
        0 <= n <= max,
        0 <= from,
        from + n <= s.len(),
        forall|j: int| from <= j < from + n ==> is_continuation(#[trigger] s[j]),
        n == max || from + n >= s.len() || !is_continuation(s[from + n]),
    ensures
        count_continuations(s, from, max) == n,
    decreases n,
{
    if n > 0 {
        assert(is_continuation(s[from]));
        lemma_count_continuations(s, from + 1, max - 1, n - 1);
    } else {
        if max > 0 && from < s.len() {
            assert(!is_continuation(s[from]));
        }
    }
}

/// A lenient UTF-8 decoder: it yields characters, and the raw bytes of each malformed sequence.
pub struct DecodeUtf8 {
    bytes: Vec<u8>,
    pos: usize,
}

impl DecodeUtf8 {
    #[verifier::type_invariant]
    spec fn inv(self) -> bool {
        self.pos <= self.bytes@.len()
    }

    /// The bytes not decoded yet.
    pub closed spec fn remaining(&self) -> Seq<u8> {
        self.bytes@.skip(self.pos as int)
    }

    /// Decodes the next character, or the next malformed sequence.
    pub fn next(&mut self) -> (r: Option<Result<char, InvalidSequence>>)
        ensures
            old(self).remaining().len() == 0 ==> r is None && final(self).remaining() == old(
                self,
            ).remaining(),
            old(self).remaining().len() > 0 ==> {
                let step = decode_step(old(self).remaining());
                &&& r matches Some(item) && item_matches(item, step.0)
                &&& final(self).remaining() == old(self).remaining().skip(step.1)
            },
    {
        proof {
            use_type_invariant(&*self);
        }
        let ghost s = self.bytes@.skip(self.pos as int);
        let len = self.bytes.len();
        if self.pos >= len {
            return None;
        }
        let start = self.pos;
        let b = self.bytes[start];
        assert(s[0] == b);
        self.pos = start + 1;
        if b < 0x80 {
            assert(self.bytes@.skip(self.pos as int) =~= s.skip(1));
            return Some(Ok(b as char));
        }
        let l: u32 = if b == 0xFF {
            8
        } else if b >= 0xFE {
            7
        } else if b >= 0xFC {
            6
        } else if b >= 0xF8 {
            5
        } else if b >= 0xF0 {
            4
        } else if b >= 0xE0 {
            3
        } else if b >= 0xC0 {
            2
        } else {
            1
        };
        if l < 2 || l > 6 {
            assert(self.bytes@.skip(self.pos as int) =~= s.skip(1));
            let mut bad: Vec<u8> = Vec::new();
            bad.push(b);
            assert(bad@ =~= seq![b]);
            return Some(Err(InvalidSequence(bad)));
        }
        let ghost x0 = lead_payload(b, l);
        let mut x: u32 = (b as u32) & (0x7Fu32 >> l);
        let mut n: u32 = 0;
        while n < l - 1
            invariant
                self.bytes@.len() == len,
                self.bytes == old(self).bytes,
                s == old(self).remaining(),
                s == self.bytes@.skip(start as int),
                start < len,
                s.len() > 0,
                s[0] == b,
                b >= 0x80,
                l == leading_ones(b),
                x0 == lead_payload(b, l),
                2 <= l <= 6,
                0 <= n <= l - 1,
                self.pos == start + 1 + n,
                self.pos <= len,
                forall|j: int| 1 <= j < 1 + n ==> is_continuation(#[trigger] s[j]),
                x == accum(x0, s.subrange(1, 1 + n as int)),
            decreases l - 1 - n,
        {
            if self.pos < len && self.bytes[self.pos] >= 0x80 && self.bytes[self.pos] < 0xC0 {
                let c = self.bytes[self.pos];
                proof {
                    assert(s[1 + n as int] == c);
                    assert(s.subrange(1, 2 + n as int).drop_last() =~= s.subrange(1, 1 + n as int));
                }
                x = (x << 6u32) | ((c as u32) & 0x3Fu32);
                self.pos = self.pos + 1;
                n = n + 1;
            } else {
                proof {
                    if self.pos < len {
                        assert(s[1 + n as int] == self.bytes@[self.pos as int]);
                    }
                    lemma_count_continuations(s, 1, l - 1, n as int);
                    assert(self.bytes@.skip(self.pos as int) =~= s.skip(1 + n as int));
                }
                let bad = vstd::slice::slice_to_vec(&self.bytes.as_slice()[start..self.pos]);
                assert(bad@ =~= s.take(1 + n as int));
                return Some(Err(InvalidSequence(bad)));
            }
        }
        proof {
            lemma_count_continuations(s, 1, l - 1, n as int);
            assert(self.bytes@.skip(self.pos as int) =~= s.skip(l as int));
        }
        let width: u32 = if x < 0x80 {
            1
        } else if x < 0x800 {
            2
        } else if x < 0x10000 {
            3
        } else {
            4
        };
        match core::char::from_u32(x) {
            Some(c) => {
                proof {
                    vstd::utf8::char_u32_cast(c, x);
                }
                if l == width {
                    return Some(Ok(c));
                }
            },
            None => {},
        }
        let bad = vstd::slice::slice_to_vec(&self.bytes.as_slice()[start..self.pos]);
        assert(bad@ =~= s.take(l as int));
        Some(Err(InvalidSequence(bad)))
    }
}

/// Starts decoding `i`.
pub fn decode_utf8(i: Vec<u8>) -> (r: DecodeUtf8)
    ensures
        r.remaining() == i@,
{
    let r = DecodeUtf8 { bytes: i, pos: 0 };
    assert(r.bytes@.skip(0) =~= r.bytes@);
    r
}


proof fn lemma_count_continuations_bound(s: Seq<u8>, from: int, max: int)
    requires
        0 <= from,
    ensures
        0 <= count_continuations(s, from, max),
        count_continuations(s, from, max) <= if max < 0 { 0 } else { max },
        from < s.len() ==> count_continuations(s, from, max) <= s.len() - from,
        from >= s.len() ==> count_continuations(s, from, max) == 0,
    decreases max,
{
    if !(max <= 0 || from < 0 || from >= s.len() || !is_continuation(s[from])) {
        lemma_count_continuations_bound(s, from + 1, max - 1);
    }
}

/// A decoding step takes at least one byte and no more than there are.
pub proof fn lemma_decode_step_len(s: Seq<u8>)
    requires
        s.len() > 0,
    ensures
        1 <= decode_step(s).1 <= s.len(),
{
    let b = s[0];
    if b >= 0x80 {
        let l = leading_ones(b);
        if 2 <= l <= 6 {
            lemma_count_continuations_bound(s, 1, l - 1);
        }
    }
}

/// The items that decoding `s` to its end yields.
pub open spec fn decode_all(s: Seq<u8>) -> Seq<Result<char, Seq<u8>>>
    decreases s.len(),
{
    if s.len() == 0 {
        Seq::empty()
    } else {
        let step = decode_step(s);
        if 1 <= step.1 <= s.len() {
            seq![step.0] + decode_all(s.skip(step.1))
        } else {
            Seq::empty()
        }
    }
}


proof fn lemma_width_2_bits(c: u32)
    by (bit_vector)
    requires
        0x80 <= c <= 0x7FF,
    ensures
        ({
            let b0 = 0xC0u8 | (((c >> 6u32) & 0x1Fu32) as u8);
            let b1 = 0x80u8 | ((c & 0x3Fu32) as u8);
            &&& 0xC0 <= b0 < 0xE0
            &&& 0x80 <= b1 < 0xC0
            &&& (((b0 as u32) & (0x7Fu32 >> 2u32)) << 6u32) | ((b1 as u32) & 0x3Fu32) == c
        }),
{
}

proof fn lemma_width_3_bits(c: u32)
    by (bit_vector)
    requires
        0x800 <= c <= 0xFFFF,
    ensures
        ({
            let b0 = 0xE0u8 | (((c >> 12u32) & 0x0Fu32) as u8);
            let b1 = 0x80u8 | (((c >> 6u32) & 0x3Fu32) as u8);
            let b2 = 0x80u8 | ((c & 0x3Fu32) as u8);
            &&& 0xE0 <= b0 < 0xF0
            &&& 0x80 <= b1 < 0xC0
            &&& 0x80 <= b2 < 0xC0
            &&& (((((b0 as u32) & (0x7Fu32 >> 3u32)) << 6u32) | ((b1 as u32) & 0x3Fu32)) << 6u32)
                | ((b2 as u32) & 0x3Fu32) == c
        }),
{
}

proof fn lemma_width_4_bits(c: u32)
    by (bit_vector)
    requires
        0x10000 <= c <= 0x10FFFF,
    ensures
        ({
            let b0 = 0xF0u8 | (((c >> 18u32) & 0x07u32) as u8);
            let b1 = 0x80u8 | (((c >> 12u32) & 0x3Fu32) as u8);
            let b2 = 0x80u8 | (((c >> 6u32) & 0x3Fu32) as u8);
            let b3 = 0x80u8 | ((c & 0x3Fu32) as u8);
            &&& 0xF0 <= b0 < 0xF8
            &&& 0x80 <= b1 < 0xC0
            &&& 0x80 <= b2 < 0xC0
            &&& 0x80 <= b3 < 0xC0
            &&& (((((((b0 as u32) & (0x7Fu32 >> 4u32)) << 6u32) | ((b1 as u32) & 0x3Fu32)) << 6u32)
                | ((b2 as u32) & 0x3Fu32)) << 6u32) | ((b3 as u32) & 0x3Fu32) == c
        }),
{
}

/// Decoding bytes that start with the UTF-8 encoding of a character gives that character and
/// takes exactly its encoding, whatever follows.
pub proof fn lemma_decode_step_encoded(c: char, rest: Seq<u8>)
    ensures
        decode_step(encode_scalar(c as u32) + rest) == (
            Ok::<char, Seq<u8>>(c),
            encode_scalar(c as u32).len() as int,
        ),
{
    let v = c as u32;
    vstd::utf8::char_is_scalar(c);
    let e = encode_scalar(v);
    let s = e + rest;
    reveal_with_fuel(accum, 5);
    if has_width_1_encoding(v) {
        assert(s[0] == e[0]);
        assert(e[0] == (v & 0x7F) as u8);
        assert((v & 0x7Fu32) == v) by (bit_vector)
            requires
                v <= 0x7F,
        ;
        vstd::utf8::char_u32_cast(c, v);
    } else if has_width_2_encoding(v) {
        lemma_width_2_bits(v);
        assert(s[0] == e[0] && s[1] == e[1]);
        lemma_count_continuations(s, 1, 1, 1);
        assert(s.subrange(1, 2) =~= seq![e[1]]);
        assert(seq![e[1]].drop_last() =~= Seq::<u8>::empty());
        vstd::utf8::char_u32_cast(c, v);
    } else if has_width_3_encoding(v) {
        lemma_width_3_bits(v);
        assert(s[0] == e[0] && s[1] == e[1] && s[2] == e[2]);
        lemma_count_continuations(s, 1, 2, 2);
        assert(s.subrange(1, 3) =~= seq![e[1], e[2]]);
        assert(seq![e[1], e[2]].drop_last() =~= seq![e[1]]);
        assert(seq![e[1]].drop_last() =~= Seq::<u8>::empty());
        vstd::utf8::char_u32_cast(c, v);
    } else {
        lemma_width_4_bits(v);
        assert(s[0] == e[0] && s[1] == e[1] && s[2] == e[2] && s[3] == e[3]);
        lemma_count_continuations(s, 1, 3, 3);
        assert(s.subrange(1, 4) =~= seq![e[1], e[2], e[3]]);
        assert(seq![e[1], e[2], e[3]].drop_last() =~= seq![e[1], e[2]]);
        assert(seq![e[1], e[2]].drop_last() =~= seq![e[1]]);
        assert(seq![e[1]].drop_last() =~= Seq::<u8>::empty());
        vstd::utf8::char_u32_cast(c, v);
    }
}

/// Decoding the UTF-8 encoding of a text gives back exactly its characters, none of them an
/// error.
pub proof fn lemma_decode_all_encoded(cs: Seq<char>)
    ensures
        decode_all(encode_utf8(cs)) == cs.map_values(|c: char| Ok::<char, Seq<u8>>(c)),
    decreases cs.len(),
{
    if cs.len() > 0 {
        let e = encode_scalar(cs[0] as u32);
        let rest = encode_utf8(cs.drop_first());
        assert(encode_utf8(cs) == e + rest);
        lemma_decode_step_encoded(cs[0], rest);
        assert((e + rest).skip(e.len() as int) =~= rest);
        lemma_decode_all_encoded(cs.drop_first());
        assert(cs.map_values(|c: char| Ok::<char, Seq<u8>>(c)) =~= seq![Ok::<char, Seq<u8>>(cs[0])]
            + cs.drop_first().map_values(|c: char| Ok::<char, Seq<u8>>(c)));
    } else {
        assert(cs.map_values(|c: char| Ok::<char, Seq<u8>>(c)) =~= Seq::<Result<char, Seq<u8>>>::empty());
    }
}


/// The items that a decoder yields, one call of `next` at a time, are those of `decode_all` of
/// the bytes it was given: each call yields the first item of what remains and leaves the rest.
pub proof fn lemma_decode_all_unfold(s: Seq<u8>)
    requires
        s.len() > 0,
    ensures
        decode_all(s) == seq![decode_step(s).0] + decode_all(s.skip(decode_step(s).1)),
{
    lemma_decode_step_len(s);
}

} // verus!
