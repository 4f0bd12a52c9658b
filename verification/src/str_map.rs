use vstd::prelude::*;
use vstd::utf8::{encode_utf8, encode_utf8_decode_utf8};

use crate::sdk::{bytes_le, str_le};

verus! {

/// Byte strings in the standard order, strictly.
pub open spec fn bytes_lt(a: Seq<u8>, b: Seq<u8>) -> bool {
    bytes_le(a, b) && a != b
}

/// Keys in the order of `str`'s `Ord`: by their UTF-8 bytes.
pub open spec fn key_lt(a: Seq<char>, b: Seq<char>) -> bool {
    bytes_lt(encode_utf8(a), encode_utf8(b))
}

/// Every key is smaller than the keys after it.
pub open spec fn keys_ascending<V>(s: Seq<(String, V)>) -> bool {
    forall|i: int, j: int| 0 <= i < j < s.len() ==> key_lt(#[trigger] s[i].0@, #[trigger] s[j].0@)
}

/// The map that an association list describes; a later entry wins over an earlier one.
pub open spec fn assoc_map<V>(s: Seq<(String, V)>) -> Map<Seq<char>, V>
    decreases s.len(),
{
    if s.len() == 0 {
        Map::empty()
    } else {
        assoc_map(s.drop_last()).insert(s.last().0@, s.last().1)
    }
}

/// No two entries share a key.
pub open spec fn assoc_keys_distinct<V>(s: Seq<(String, V)>) -> bool {
    forall|i: int, j: int| 0 <= i < j < s.len() ==> s[i].0@ != s[j].0@
}

/// Any two byte strings are ordered one way or the other.
pub proof fn lemma_bytes_le_total(a: Seq<u8>, b: Seq<u8>)
    ensures
        bytes_le(a, b) || bytes_le(b, a),
    decreases a.len(),
{
    if a.len() > 0 && b.len() > 0 && a[0] == b[0] {
        lemma_bytes_le_total(a.drop_first(), b.drop_first());
    }
}

/// Byte strings ordered both ways are equal.
pub proof fn lemma_bytes_le_antisym(a: Seq<u8>, b: Seq<u8>)
    requires
        bytes_le(a, b),
        bytes_le(b, a),
    ensures
        a == b,
    decreases a.len(),
{
    if a.len() > 0 {
        lemma_bytes_le_antisym(a.drop_first(), b.drop_first());
        assert(a =~= seq![a[0]] + a.drop_first());
        assert(b =~= seq![b[0]] + b.drop_first());
    }
}

/// The order of byte strings is transitive.
pub proof fn lemma_bytes_le_trans(a: Seq<u8>, b: Seq<u8>, c: Seq<u8>)
    requires
        bytes_le(a, b),
        bytes_le(b, c),
    ensures
        bytes_le(a, c),
    decreases a.len(),
{
    if a.len() > 0 && b.len() > 0 && c.len() > 0 && a[0] == b[0] && b[0] == c[0] {
        lemma_bytes_le_trans(a.drop_first(), b.drop_first(), c.drop_first());
    }
}

/// Two different character strings have different UTF-8 encodings.
pub proof fn lemma_encode_injective(a: Seq<char>, b: Seq<char>)
    requires
        encode_utf8(a) == encode_utf8(b),
    ensures
        a == b,
{
    encode_utf8_decode_utf8(a);
    encode_utf8_decode_utf8(b);
}

/// The order of keys is a strict total order.
pub proof fn lemma_key_order(a: Seq<char>, b: Seq<char>, c: Seq<char>)
    ensures
        !key_lt(a, a),
        a != b ==> key_lt(a, b) || key_lt(b, a),
        !(key_lt(a, b) && key_lt(b, a)),
        key_lt(a, b) && key_lt(b, c) ==> key_lt(a, c),
{
    let (x, y, z) = (encode_utf8(a), encode_utf8(b), encode_utf8(c));
    lemma_bytes_le_total(x, y);
    if a != b && x == y {
        lemma_encode_injective(a, b);
    }
    if bytes_le(x, y) && bytes_le(y, x) {
        lemma_bytes_le_antisym(x, y);
    }
    if key_lt(a, b) && key_lt(b, c) {
        lemma_bytes_le_trans(x, y, z);
        if x == z {
            lemma_bytes_le_antisym(x, y);
        }
    }
}

/// Ascending keys are distinct.
pub proof fn lemma_ascending_distinct<V>(s: Seq<(String, V)>)
    requires
        keys_ascending(s),
    ensures
        assoc_keys_distinct(s),
{
    assert forall|i: int, j: int| 0 <= i < j < s.len() implies s[i].0@ != s[j].0@ by {
        lemma_key_order(s[i].0@, s[j].0@, s[j].0@);
    }
}

/// A key is in the map of a list exactly when some entry carries it, and then the map gives
/// that entry's value.
pub proof fn lemma_assoc_map<V>(s: Seq<(String, V)>)
    requires
        assoc_keys_distinct(s),
    ensures
        forall|k: Seq<char>|
            #![trigger assoc_map(s).contains_key(k)]
            assoc_map(s).contains_key(k) <==> exists|i: int| 0 <= i < s.len() && s[i].0@ == k,
        forall|i: int| 0 <= i < s.len() ==> #[trigger] assoc_map(s)[s[i].0@] == s[i].1,
        assoc_map(s).dom().finite(),
    decreases s.len(),
{
    if s.len() > 0 {
        let p = s.drop_last();
        assert(assoc_keys_distinct(p));
        lemma_assoc_map(p);
        assert forall|k: Seq<char>|
            assoc_map(s).contains_key(k) implies exists|i: int| 0 <= i < s.len() && s[i].0@ == k by {
            if k != s.last().0@ {
                let i = choose|i: int| 0 <= i < p.len() && p[i].0@ == k;
                assert(s[i].0@ == k);
            } else {
                assert(s[s.len() - 1].0@ == k);
            }
        }
        assert forall|k: Seq<char>|
            (exists|i: int| 0 <= i < s.len() && s[i].0@ == k) implies assoc_map(s).contains_key(k) by {
            let i = choose|i: int| 0 <= i < s.len() && s[i].0@ == k;
            if i < s.len() - 1 {
                assert(p[i].0@ == k);
            }
        }
        assert forall|i: int| 0 <= i < s.len() implies #[trigger] assoc_map(s)[s[i].0@] == s[i].1 by {
            if i < s.len() - 1 {
                assert(p[i] == s[i]);
                assert(s[i].0@ != s.last().0@);
            }
        }
    }
}

/// Two lists with distinct keys and the same entries up to order describe the same map.
proof fn lemma_assoc_map_ext<V>(s: Seq<(String, V)>, m: Map<Seq<char>, V>)
    requires
        assoc_keys_distinct(s),
        forall|k: Seq<char>| m.contains_key(k) <==> exists|i: int| 0 <= i < s.len() && s[i].0@ == k,
        forall|i: int| 0 <= i < s.len() ==> #[trigger] m[s[i].0@] == s[i].1,
    ensures
        assoc_map(s) == m,
{
    lemma_assoc_map(s);
    assert forall|k: Seq<char>| #[trigger] assoc_map(s).contains_key(k) implies assoc_map(s)[k]
        == m[k] by {
        let i = choose|i: int| 0 <= i < s.len() && s[i].0@ == k;
        assert(assoc_map(s)[s[i].0@] == s[i].1);
    }
    assert(assoc_map(s) =~= m);
}

/// A map from strings to values that keeps its entries in ascending key order, as a
/// `BTreeMap<String, V>` does.
pub struct StrMap<V> {
    entries: Vec<(String, V)>,
}

impl<V> View for StrMap<V> {
    type V = Map<Seq<char>, V>;

    closed spec fn view(&self) -> Map<Seq<char>, V> {
        assoc_map(self.entries@)
    }
}

impl<V> StrMap<V> {
    #[verifier::type_invariant]
    spec fn inv(self) -> bool {
        keys_ascending(self.entries@)
    }

    /// The entries in ascending key order.
    pub closed spec fn spec_entries(&self) -> Seq<(String, V)> {
        self.entries@
    }

    /// The empty map.
    pub fn new() -> (r: StrMap<V>)
        ensures
            r@ == Map::<Seq<char>, V>::empty(),
            r.spec_entries().len() == 0,
    {
        StrMap { entries: Vec::new() }
    }

    /// The number of entries.
    pub fn len(&self) -> (r: usize)
        ensures
            r == self.spec_entries().len(),
            r == self@.dom().len(),
    {
        proof {
            use_type_invariant(self);
            lemma_ascending_distinct(self.entries@);
            lemma_assoc_len(self.entries@);
        }
        self.entries.len()
    }

    /// The entries, in ascending key order.
    pub fn entries(&self) -> (r: &Vec<(String, V)>)
        ensures
            r@ == self.spec_entries(),
            keys_ascending(r@),
            assoc_map(r@) == self@,
    {
        proof {
            use_type_invariant(self);
        }
        &self.entries
    }

    /// The entries, in ascending key order.
    pub fn into_entries(self) -> (r: Vec<(String, V)>)
        ensures
            r@ == self.spec_entries(),
            keys_ascending(r@),
            assoc_map(r@) == self@,
    {
        proof {
            use_type_invariant(&self);
        }
        self.entries
    }

    /// The position of the first entry whose key is not smaller than `k`.
    fn lower_bound(&self, k: &str) -> (r: usize)
        ensures
            r <= self.spec_entries().len(),
            forall|j: int| 0 <= j < r ==> key_lt(#[trigger] self.spec_entries()[j].0@, k@),
            r < self.spec_entries().len() ==> !key_lt(self.spec_entries()[r as int].0@, k@),
    {
        let mut i: usize = 0;
        while i < self.entries.len()
            invariant
                0 <= i <= self.entries@.len(),
                forall|j: int| 0 <= j < i ==> key_lt(#[trigger] self.entries@[j].0@, k@),
            decreases self.entries@.len() - i,
        {
            let le = str_le(k, self.entries[i].0.as_str());
            if le {
                proof {
                    let (x, y) = (encode_utf8(self.entries@[i as int].0@), encode_utf8(k@));
                    if bytes_le(x, y) {
                        lemma_bytes_le_antisym(x, y);
                    }
                }
                return i;
            }
            proof {
                lemma_key_order(self.entries@[i as int].0@, k@, k@);
                lemma_bytes_le_total(encode_utf8(k@), encode_utf8(self.entries@[i as int].0@));
            }
            i = i + 1;
        }
        i
    }

    /// The value of key `k`, if the map has it.
    pub fn get(&self, k: &str) -> (r: Option<&V>)
        ensures
            r is Some <==> self@.contains_key(k@),
            r matches Some(v) ==> *v == self@[k@],
    {
        proof {
            use_type_invariant(self);
            lemma_ascending_distinct(self.entries@);
            lemma_assoc_map(self.entries@);
        }
        let i = self.lower_bound(k);
        if i < self.entries.len() && crate::text::str_equal(self.entries[i].0.as_str(), k) {
            return Some(&self.entries[i].1);
        }
        proof {
            assert forall|j: int| 0 <= j < self.entries@.len() implies self.entries@[j].0@ != k@ by {
                if j > i {
                    lemma_key_order(k@, self.entries@[i as int].0@, self.entries@[j].0@);
                    lemma_key_order(self.entries@[i as int].0@, k@, self.entries@[j].0@);
                    lemma_bytes_le_total(
                        encode_utf8(k@),
                        encode_utf8(self.entries@[i as int].0@),
                    );
                } else if j < i {
                    lemma_key_order(k@, k@, k@);
                }
            }
        }
        None
    }

    /// Whether the map has key `k`.
    pub fn contains_key(&self, k: &str) -> (r: bool)
        ensures
            r == self@.contains_key(k@),
    {
        self.get(k).is_some()
    }

    /// Keeps the entries whose flag is set; `keep` holds one flag per entry, in ascending key
    /// order.
    pub fn retain_flags(&mut self, keep: &Vec<bool>)
        requires
            keep@.len() == old(self).spec_entries().len(),
        ensures
            final(self).spec_entries() == filter_by_flags(old(self).spec_entries(), keep@),
    {
        proof {
            use_type_invariant(&*self);
        }
        let mut entries: Vec<(String, V)> = Vec::new();
        std::mem::swap(&mut entries, &mut self.entries);
        let ghost all = entries@;
        let n = entries.len();
        let mut out: Vec<(String, V)> = Vec::new();
        let mut rest: Vec<(String, V)> = Vec::new();
        // Take the entries from the back, then keep the flagged ones from the front.
        let mut k: usize = 0;
        while k < n
            invariant
                n == all.len(),
                0 <= k <= n,
                entries@ == all.take(n - k),
                rest@.len() == k,
                forall|i: int| 0 <= i < k ==> #[trigger] rest@[i] == all[n - 1 - i],
            decreases n - k,
        {
            let e = entries.pop().unwrap();
            assert(entries@ =~= all.take(n - k - 1));
            rest.push(e);
            k = k + 1;
        }
        let mut i: usize = 0;
        while i < n
            invariant
                n == all.len(),
                n == keep@.len(),
                0 <= i <= n,
                rest@.len() == n - i,
                forall|j: int| 0 <= j < n - i ==> #[trigger] rest@[j] == all[n - 1 - j],
                out@ == filter_by_flags(all.take(i as int), keep@.take(i as int)),
            decreases n - i,
        {
            let e = rest.pop().unwrap();
            assert(e == all[i as int]);
            assert(all.take(i + 1).drop_last() =~= all.take(i as int));
            assert(keep@.take(i + 1).take(i as int) =~= keep@.take(i as int));
            if keep[i] {
                out.push(e);
            }
            i = i + 1;
        }
        assert(all.take(n as int) =~= all);
        assert(keep@.take(n as int) =~= keep@);
        proof {
            lemma_filter_ascending(all, keep@);
        }
        self.entries = out;
    }

    /// Sets key `k` to `v`, replacing the value it had.
    pub fn insert(&mut self, k: String, v: V)
        ensures
            final(self)@ == old(self)@.insert(k@, v),
    {
        proof {
            use_type_invariant(&*self);
            lemma_ascending_distinct(self.entries@);
            lemma_assoc_map(self.entries@);
        }
        let i = self.lower_bound(k.as_str());
        let ghost old_entries = self.entries@;
        let ghost kv = k@;
        let replace = i < self.entries.len() && crate::text::str_equal(
            self.entries[i].0.as_str(),
            k.as_str(),
        );
        let ghost new_entries = if replace {
            old_entries.update(i as int, (k, v))
        } else {
            old_entries.insert(i as int, (k, v))
        };
        proof {
            // Every entry after position `i` has a larger key than `k`.
            assert forall|j: int| i < j < old_entries.len() implies key_lt(
                kv,
                #[trigger] old_entries[j].0@,
            ) by {
                let ki = old_entries[i as int].0@;
                lemma_key_order(ki, kv, old_entries[j].0@);
                lemma_key_order(kv, ki, old_entries[j].0@);
            }
            if !replace && i < old_entries.len() {
                lemma_key_order(old_entries[i as int].0@, kv, kv);
            }
            assert(keys_ascending(new_entries));
            lemma_ascending_distinct(new_entries);
            assert forall|key: Seq<char>|
                old(self)@.insert(kv, v).contains_key(key) <==> exists|j: int|
                    0 <= j < new_entries.len() && new_entries[j].0@ == key by {
                if old(self)@.insert(kv, v).contains_key(key) {
                    if key == kv {
                        assert(new_entries[i as int].0@ == key);
                    } else {
                        let j = choose|j: int| 0 <= j < old_entries.len() && old_entries[j].0@ == key;
                        if replace || j < i {
                            assert(new_entries[j].0@ == key);
                        } else {
                            assert(new_entries[j + 1].0@ == key);
                        }
                    }
                }
                if exists|j: int| 0 <= j < new_entries.len() && new_entries[j].0@ == key {
                    let j = choose|j: int| 0 <= j < new_entries.len() && new_entries[j].0@ == key;
                    if j != i {
                        if replace || j < i {
                            assert(old_entries[j].0@ == key);
                        } else {
                            assert(old_entries[j - 1].0@ == key);
                        }
                    }
                }
            }
            assert forall|j: int| 0 <= j < new_entries.len() implies #[trigger] old(
                self,
            )@.insert(kv, v)[new_entries[j].0@] == new_entries[j].1 by {
                if j != i {
                    if replace || j < i {
                        assert(new_entries[j] == old_entries[j]);
                    } else {
                        assert(new_entries[j] == old_entries[j - 1]);
                    }
                }
            }
            lemma_assoc_map_ext(new_entries, old(self)@.insert(kv, v));
        }
        let mut entries: Vec<(String, V)> = Vec::new();
        std::mem::swap(&mut entries, &mut self.entries);
        if replace {
            entries.set(i, (k, v));
        } else {
            entries.insert(i, (k, v));
        }
        assert(entries@ == new_entries);
        self.entries = entries;
    }
}

/// The entries whose flag is set, in order.
pub open spec fn filter_by_flags<V>(s: Seq<(String, V)>, keep: Seq<bool>) -> Seq<(String, V)>
    decreases s.len(),
{
    if s.len() == 0 {
        Seq::empty()
    } else {
        let r = filter_by_flags(s.drop_last(), keep.take(s.len() - 1));
        if keep[s.len() - 1] {
            r.push(s.last())
        } else {
            r
        }
    }
}

/// What a filter keeps is taken from the list it filters.
pub proof fn lemma_filter_from<V>(s: Seq<(String, V)>, keep: Seq<bool>)
    ensures
        forall|j: int|
            0 <= j < filter_by_flags(s, keep).len() ==> s.contains(
                #[trigger] filter_by_flags(s, keep)[j],
            ),
        filter_by_flags(s, keep).len() <= s.len(),
    decreases s.len(),
{
    if s.len() > 0 {
        let p = s.drop_last();
        let kp = keep.take(s.len() - 1);
        lemma_filter_from(p, kp);
        let r = filter_by_flags(p, kp);
        let f = filter_by_flags(s, keep);
        assert forall|j: int| 0 <= j < f.len() implies s.contains(
            #[trigger] filter_by_flags(s, keep)[j],
        ) by {
            if j < r.len() {
                assert(p.contains(r[j]));
                let m = choose|m: int| 0 <= m < p.len() && p[m] == r[j];
                assert(s[m] == p[m]);
                assert(f[j] == r[j]);
            } else {
                assert(f[j] == s[s.len() - 1]);
            }
        }
    }
}

/// A filter of ascending keys is ascending.
pub proof fn lemma_filter_ascending<V>(s: Seq<(String, V)>, keep: Seq<bool>)
    requires
        keys_ascending(s),
    ensures
        keys_ascending(filter_by_flags(s, keep)),
    decreases s.len(),
{
    if s.len() > 0 {
        let p = s.drop_last();
        let kp = keep.take(s.len() - 1);
        assert(keys_ascending(p));
        lemma_filter_ascending(p, kp);
        lemma_filter_from(p, kp);
        let r = filter_by_flags(p, kp);
        if keep[s.len() - 1] {
            let f = r.push(s.last());
            assert forall|i: int, j: int| 0 <= i < j < f.len() implies key_lt(
                #[trigger] f[i].0@,
                #[trigger] f[j].0@,
            ) by {
                if j == f.len() - 1 {
                    assert(p.contains(r[i]));
                    let m = choose|m: int| 0 <= m < p.len() && p[m] == r[i];
                    assert(s[m] == p[m]);
                } else {
                    assert(f[i] == r[i] && f[j] == r[j]);
                }
            }
        }
    }
}

/// A list with distinct keys has as many keys as entries.
pub proof fn lemma_assoc_len<V>(s: Seq<(String, V)>)
    requires
        assoc_keys_distinct(s),
    ensures
        assoc_map(s).dom().len() == s.len(),
    decreases s.len(),
{
    if s.len() > 0 {
        let p = s.drop_last();
        assert(assoc_keys_distinct(p));
        lemma_assoc_len(p);
        lemma_assoc_map(p);
        assert(!assoc_map(p).contains_key(s.last().0@)) by {
            if assoc_map(p).contains_key(s.last().0@) {
                let i = choose|i: int| 0 <= i < p.len() && p[i].0@ == s.last().0@;
                assert(s[i].0@ == s[s.len() - 1].0@);
            }
        }
    }
}


/// Reading a key gives what the last write of that key stored; a write leaves every other key
/// as it was. `after` is a map as `insert` of `k` and `v` leaves `before`; `get` and
/// `contains_key` answer by the view.
pub proof fn lemma_read_after_write<V>(before: StrMap<V>, after: StrMap<V>, k: Seq<char>, v: V, other: Seq<char>)
    requires
        after@ == before@.insert(k, v),
    ensures
        after@.contains_key(k),
        after@[k] == v,
        other != k ==> after@.contains_key(other) == before@.contains_key(other),
        other != k && before@.contains_key(other) ==> after@[other] == before@[other],
{
}

} // verus!
