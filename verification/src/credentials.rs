//! The credential map of an authorize request: lower-cased header name to value, in key order.

use vstd::prelude::*;
use vstd::utf8::encode_utf8;

use crate::text::str_eq;

verus! {

/// Lexicographic order on bytes, which is how strings are ordered.
pub open spec fn bytes_before(a: Seq<u8>, b: Seq<u8>) -> bool
    decreases a.len(),
{
    if b.len() == 0 {
        false
    } else if a.len() == 0 {
        true
    } else if a[0] != b[0] {
        a[0] < b[0]
    } else {
        bytes_before(a.drop_first(), b.drop_first())
    }
}

/// Whether the string `a` comes before the string `b`.
pub open spec fn before(a: Seq<char>, b: Seq<char>) -> bool {
    bytes_before(encode_utf8(a), encode_utf8(b))
}

proof fn lemma_bytes_irreflexive(a: Seq<u8>)
    ensures
        !bytes_before(a, a),
    decreases a.len(),
{
    if a.len() > 0 {
        lemma_bytes_irreflexive(a.drop_first());
    }
}

proof fn lemma_bytes_transitive(a: Seq<u8>, b: Seq<u8>, c: Seq<u8>)
    requires
        bytes_before(a, b),
        bytes_before(b, c),
    ensures
        bytes_before(a, c),
    decreases a.len(),
{
    if a.len() > 0 && a[0] == b[0] && b[0] == c[0] {
        lemma_bytes_transitive(a.drop_first(), b.drop_first(), c.drop_first());
    }
}

proof fn lemma_bytes_total(a: Seq<u8>, b: Seq<u8>)
    ensures
        bytes_before(a, b) || bytes_before(b, a) || a == b,
    decreases a.len(),
{
    if a.len() > 0 && b.len() > 0 {
        if a[0] == b[0] {
            lemma_bytes_total(a.drop_first(), b.drop_first());
            if a.drop_first() == b.drop_first() {
                assert(a =~= seq![a[0]] + a.drop_first());
                assert(b =~= seq![b[0]] + b.drop_first());
            }
        }
    } else if a.len() == 0 && b.len() == 0 {
        assert(a =~= b);
    }
}

proof fn lemma_total(a: Seq<char>, b: Seq<char>)
    ensures
        before(a, b) || before(b, a) || a == b,
        !before(a, a),
{
    lemma_bytes_total(encode_utf8(a), encode_utf8(b));
    lemma_bytes_irreflexive(encode_utf8(a));
    vstd::utf8::encode_utf8_decode_utf8(a);
    vstd::utf8::encode_utf8_decode_utf8(b);
}

fn str_before(a: &str, b: &str) -> (res: bool)
    ensures
        res == before(a@, b@),
{
    let x: &[u8] = a.as_bytes();
    let y: &[u8] = b.as_bytes();
    let m: usize = x.len();
    let n: usize = y.len();
    let mut i: usize = 0;
    assert(x@.skip(0) =~= x@);
    assert(y@.skip(0) =~= y@);
    while i < m && i < n
        invariant
            m == x@.len(),
            n == y@.len(),
            i <= m,
            i <= n,
            x@ == encode_utf8(a@),
            y@ == encode_utf8(b@),
            before(a@, b@) == bytes_before(x@.skip(i as int), y@.skip(i as int)),
        decreases m - i,
    {
        if x[i] != y[i] {
            return x[i] < y[i];
        }
        assert(x@.skip(i as int).drop_first() =~= x@.skip(i + 1));
        assert(y@.skip(i as int).drop_first() =~= y@.skip(i + 1));
        i += 1;
    }
    i < n
}

/// Whether the keys stand in strictly increasing order, so that no key occurs twice.
pub open spec fn in_key_order(entries: Seq<(String, String)>) -> bool {
    forall|i: int, j: int|
        #![trigger entries[i], entries[j]]
        0 <= i < j < entries.len() ==> before(entries[i].0@, entries[j].0@)
}

/// Whether `k` is the key of entry `i`.
pub open spec fn has_key_at(entries: Seq<(String, String)>, k: Seq<char>, i: int) -> bool {
    0 <= i < entries.len() && entries[i].0@ == k
}

/// The map that a list of entries stands for.
pub open spec fn as_map(entries: Seq<(String, String)>) -> Map<Seq<char>, Seq<char>> {
    Map::new(
        |k: Seq<char>| exists|i: int| has_key_at(entries, k, i),
        |k: Seq<char>| entries[choose|i: int| has_key_at(entries, k, i)].1@,
    )
}

proof fn lemma_lookup(entries: Seq<(String, String)>, i: int)
    requires
        in_key_order(entries),
        0 <= i < entries.len(),
    ensures
        as_map(entries).contains_key(entries[i].0@),
        as_map(entries)[entries[i].0@] == entries[i].1@,
        forall|j: int| has_key_at(entries, entries[i].0@, j) ==> j == i,
{
    let k = entries[i].0@;
    assert(has_key_at(entries, k, i));
    assert forall|j: int| has_key_at(entries, k, j) implies j == i by {
        lemma_total(k, k);
        if j < i {
            assert(before(entries[j].0@, entries[i].0@));
        } else if i < j {
            assert(before(entries[i].0@, entries[j].0@));
        }
    }
}

/// Lower-cased header name to value, restricted to what is forwarded to the verifier.
#[derive(Debug, PartialEq, Eq)]
pub struct Credentials {
    entries: Vec<(String, String)>,
}

impl View for Credentials {
    type V = Map<Seq<char>, Seq<char>>;

    closed spec fn view(&self) -> Map<Seq<char>, Seq<char>> {
        as_map(self.entries@)
    }
}

impl Credentials {
    #[verifier::type_invariant]
    closed spec fn ordered(self) -> bool {
        in_key_order(self.entries@)
    }

    /// No credentials.
    pub fn new() -> (res: Credentials)
        ensures
            res@ == Map::<Seq<char>, Seq<char>>::empty(),
    {
        let res = Credentials { entries: Vec::new() };
        assert(res@ =~= Map::<Seq<char>, Seq<char>>::empty()) by {
            assert forall|k: Seq<char>| !#[trigger] res@.contains_key(k) by {
                assert(forall|i: int| !has_key_at(res.entries@, k, i));
            }
        }
        res
    }

    /// The entries in key order.
    pub fn entries(&self) -> (res: &Vec<(String, String)>)
        ensures
            in_key_order(res@),
            as_map(res@) == self@,
            forall|i: int|
                0 <= i < res@.len() ==> self@.contains_key((#[trigger] res@[i]).0@)
                    && self@[res@[i].0@] == res@[i].1@,
            forall|k: Seq<char>| #[trigger]
                self@.contains_key(k) ==> exists|i: int|
                    0 <= i < res@.len() && (#[trigger] res@[i]).0@ == k,
    {
        proof {
            use_type_invariant(self);
            assert forall|i: int| 0 <= i < self.entries@.len() implies self@.contains_key(
                (#[trigger] self.entries@[i]).0@,
            ) && self@[self.entries@[i].0@] == self.entries@[i].1@ by {
                lemma_lookup(self.entries@, i);
            }
            assert forall|k: Seq<char>| #[trigger] self@.contains_key(k) implies exists|i: int|
                0 <= i < self.entries@.len() && (#[trigger] self.entries@[i]).0@ == k by {
                let i = choose|i: int| has_key_at(self.entries@, k, i);
                assert(self.entries@[i].0@ == k);
            }
        }
        &self.entries
    }

    /// The value under `key`, if there is one.
    pub fn get(&self, key: &str) -> (res: Option<&String>)
        ensures
            match res {
                Some(v) => self@.contains_key(key@) && self@[key@] == v@,
                None => !self@.contains_key(key@),
            },
    {
        proof {
            use_type_invariant(self);
        }
        let n: usize = self.entries.len();
        let mut i: usize = 0;
        while i < n
            invariant
                n == self.entries@.len(),
                in_key_order(self.entries@),
                i <= n,
                forall|j: int| 0 <= j < i ==> (#[trigger] self.entries@[j]).0@ != key@,
            decreases n - i,
        {
            if str_eq(self.entries[i].0.as_str(), key) {
                proof {
                    lemma_lookup(self.entries@, i as int);
                }
                return Some(&self.entries[i].1);
            }
            i += 1;
        }
        assert(forall|j: int| !has_key_at(self.entries@, key@, j));
        None
    }

    /// Puts `value` under `key`, in place of what was there.
    pub fn insert(&mut self, key: String, value: String)
        ensures
            final(self)@ == old(self)@.insert(key@, value@),
    {
        proof {
            use_type_invariant(&*self);
        }
        let mut entries: Vec<(String, String)> = Vec::new();
        std::mem::swap(&mut entries, &mut self.entries);
        let ghost prior = entries@;
        let ghost k = key@;
        let ghost v = value@;
        let n: usize = entries.len();
        let mut i: usize = 0;
        while i < n && str_before(entries[i].0.as_str(), key.as_str())
            invariant
                n == entries@.len(),
                i <= n,
                forall|j: int| 0 <= j < i ==> before((#[trigger] entries@[j]).0@, key@),
            decreases n - i,
        {
            i += 1;
        }
        if i < n && str_eq(entries[i].0.as_str(), key.as_str()) {
            entries.set(i, (key, value));
            proof {
                lemma_replaced(prior, entries@, i as int, k, v);
            }
        } else {
            proof {
                if i < n {
                    lemma_total(prior[i as int].0@, k);
                }
            }
            entries.insert(i, (key, value));
            proof {
                lemma_inserted(prior, entries@, i as int, k, v);
            }
        }
        self.entries = entries;
    }
}

proof fn lemma_same_map(
    prior: Seq<(String, String)>,
    entries: Seq<(String, String)>,
    k: Seq<char>,
    v: Seq<char>,
)
    requires
        in_key_order(prior),
        in_key_order(entries),
        exists|i: int| has_key_at(entries, k, i) && entries[i].1@ == v,
        forall|i: int|
            0 <= i < entries.len() && (#[trigger] entries[i]).0@ != k ==> prior.contains(entries[i]),
        forall|i: int|
            0 <= i < prior.len() && (#[trigger] prior[i]).0@ != k ==> entries.contains(prior[i]),
    ensures
        as_map(entries) == as_map(prior).insert(k, v),
{
    let i = choose|i: int| has_key_at(entries, k, i) && entries[i].1@ == v;
    lemma_lookup(entries, i);
    let m = as_map(entries);
    let w = as_map(prior).insert(k, v);
    assert forall|x: Seq<char>| #[trigger] m.contains_key(x) <==> w.contains_key(x) by {
        if m.contains_key(x) && x != k {
            let j = choose|j: int| has_key_at(entries, x, j);
            let l = choose|l: int| 0 <= l < prior.len() && prior[l] == entries[j];
            assert(has_key_at(prior, x, l));
        }
        if w.contains_key(x) && x != k {
            let j = choose|j: int| has_key_at(prior, x, j);
            let l = choose|l: int| 0 <= l < entries.len() && entries[l] == prior[j];
            assert(has_key_at(entries, x, l));
        }
    }
    assert forall|x: Seq<char>| m.contains_key(x) implies #[trigger] m[x] == w[x] by {
        if x != k {
            let j = choose|j: int| has_key_at(entries, x, j);
            let l = choose|l: int| 0 <= l < prior.len() && prior[l] == entries[j];
            lemma_lookup(entries, j);
            lemma_lookup(prior, l);
        }
    }
    assert(m =~= w);
}

proof fn lemma_replaced(
    prior: Seq<(String, String)>,
    entries: Seq<(String, String)>,
    i: int,
    k: Seq<char>,
    v: Seq<char>,
)
    requires
        in_key_order(prior),
        0 <= i < prior.len(),
        prior[i].0@ == k,
        entries.len() == prior.len(),
        entries[i].0@ == k,
        entries[i].1@ == v,
        forall|j: int| 0 <= j < prior.len() && j != i ==> entries[j] == prior[j],
    ensures
        in_key_order(entries),
        as_map(entries) == as_map(prior).insert(k, v),
{
    assert forall|a: int, b: int|
        #![trigger entries[a], entries[b]]
        0 <= a < b < entries.len() implies before(entries[a].0@, entries[b].0@) by {
        assert(before(prior[a].0@, prior[b].0@));
    }
    assert(has_key_at(entries, k, i));
    assert forall|j: int|
        0 <= j < entries.len() && (#[trigger] entries[j]).0@ != k implies prior.contains(
        entries[j],
    ) by {
        assert(prior[j] == entries[j]);
    }
    assert forall|j: int|
        0 <= j < prior.len() && (#[trigger] prior[j]).0@ != k implies entries.contains(prior[j]) by {
        assert(prior[j] == entries[j]);
    }
    lemma_same_map(prior, entries, k, v);
}

proof fn lemma_inserted(
    prior: Seq<(String, String)>,
    entries: Seq<(String, String)>,
    i: int,
    k: Seq<char>,
    v: Seq<char>,
)
    requires
        in_key_order(prior),
        0 <= i <= prior.len(),
        forall|j: int| 0 <= j < i ==> before((#[trigger] prior[j]).0@, k),
        i < prior.len() ==> before(k, prior[i].0@),
        entries.len() == prior.len() + 1,
        entries[i].0@ == k,
        entries[i].1@ == v,
        entries == prior.insert(i, entries[i]),
    ensures
        in_key_order(entries),
        as_map(entries) == as_map(prior).insert(k, v),
{
    assert forall|j: int| i <= j < prior.len() implies before(k, (#[trigger] prior[j]).0@) by {
        if i < j {
            assert(before(prior[i].0@, prior[j].0@));
            lemma_bytes_transitive(
                encode_utf8(k),
                encode_utf8(prior[i].0@),
                encode_utf8(prior[j].0@),
            );
        }
    }
    assert forall|a: int, b: int|
        #![trigger entries[a], entries[b]]
        0 <= a < b < entries.len() implies before(entries[a].0@, entries[b].0@) by {
        let pa = if a < i { a } else { a - 1 };
        let pb = if b < i { b } else { b - 1 };
        if a != i {
            assert(entries[a] == prior[pa]);
        }
        if b != i {
            assert(entries[b] == prior[pb]);
        }
    }
    assert(has_key_at(entries, k, i));
    assert forall|j: int|
        0 <= j < entries.len() && (#[trigger] entries[j]).0@ != k implies prior.contains(
        entries[j],
    ) by {
        let pj = if j < i { j } else { j - 1 };
        assert(prior[pj] == entries[j]);
    }
    assert forall|j: int|
        0 <= j < prior.len() && (#[trigger] prior[j]).0@ != k implies entries.contains(prior[j]) by {
        let ej = if j < i { j } else { j + 1 };
        assert(entries[ej] == prior[j]);
    }
    lemma_same_map(prior, entries, k, v);
}

impl Clone for Credentials {
    fn clone(&self) -> (res: Self)
        ensures
            res@ == self@,
    {
        proof {
            use_type_invariant(self);
        }
        let mut entries: Vec<(String, String)> = Vec::new();
        let n: usize = self.entries.len();
        let mut i: usize = 0;
        while i < n
            invariant
                n == self.entries@.len(),
                i <= n,
                entries@ =~= self.entries@.take(i as int),
            decreases n - i,
        {
            entries.push((self.entries[i].0.clone(), self.entries[i].1.clone()));
            i += 1;
        }
        assert(entries@ =~= self.entries@);
        Credentials { entries }
    }
}

/// Strings are ordered by their UTF-8 bytes as a dictionary orders words: at the first byte
/// where they differ, or the shorter first where one begins the other.
pub proof fn law_strings_are_ordered_by_their_bytes(a: Seq<u8>, b: Seq<u8>, s: Seq<char>, t: Seq<char>)
    ensures
        before(s, t) == bytes_before(encode_utf8(s), encode_utf8(t)),
        bytes_before(a, b) <==> exists|k: int|
            0 <= k <= a.len() && k < b.len() && #[trigger] a.take(k) == b.take(k) && (k == a.len()
                || a[k] < b[k]),
    decreases a.len(),
{
    if b.len() > 0 {
        assert(a.take(0) =~= b.take(0));
        if a.len() > 0 {
            let (x, y) = (a.drop_first(), b.drop_first());
            if a[0] == b[0] {
                law_strings_are_ordered_by_their_bytes(x, y, s, t);
                if bytes_before(x, y) {
                    let k = choose|k: int|
                        0 <= k <= x.len() && k < y.len() && #[trigger] x.take(k) == y.take(k) && (k
                            == x.len() || x[k] < y[k]);
                    assert(a.take(k + 1) =~= seq![a[0]] + x.take(k));
                    assert(b.take(k + 1) =~= seq![b[0]] + y.take(k));
                }
            }
            if exists|k: int|
                0 <= k <= a.len() && k < b.len() && #[trigger] a.take(k) == b.take(k) && (k
                    == a.len() || a[k] < b[k]) {
                let k = choose|k: int|
                    0 <= k <= a.len() && k < b.len() && #[trigger] a.take(k) == b.take(k) && (k
                        == a.len() || a[k] < b[k]);
                if k > 0 {
                    assert(a.take(k)[0] == a[0] && b.take(k)[0] == b[0]);
                    assert(x.take(k - 1) =~= a.take(k).drop_first());
                    assert(y.take(k - 1) =~= b.take(k).drop_first());
                }
            }
        }
    }
}

} // verus!
