//! Placeholder-to-value substitution table.

use vstd::prelude::*;

use crate::text::{chars_eq, chars_of, copy_chars, string_of};

verus! {

/// What replacing the empty key looks like after the leading copy of `v`:
/// every character of `s` followed by one more copy of `v`.
pub open spec fn spec_splice(s: Seq<char>, v: Seq<char>) -> Seq<char>
    decreases s.len(),
{
    if s.len() == 0 {
        Seq::empty()
    } else {
        seq![s[0]] + v + spec_splice(s.drop_first(), v)
    }
}

/// Literal, leftmost, non-overlapping replacement of every occurrence of
/// `k` in `s` by `v`, as `str::replace` performs it.  An empty key matches
/// at every character boundary.
pub open spec fn spec_replace(s: Seq<char>, k: Seq<char>, v: Seq<char>) -> Seq<char>
    decreases s.len(),
{
    if k.len() == 0 {
        v + spec_splice(s, v)
    } else if s.len() < k.len() {
        s
    } else if s.take(k.len() as int) == k {
        v + spec_replace(s.skip(k.len() as int), k, v)
    } else {
        seq![s[0]] + spec_replace(s.drop_first(), k, v)
    }
}

/// Whether `k` occurs in `s` starting at position `i`.
fn match_at(s: &Vec<char>, i: usize, k: &Vec<char>) -> (r: bool)
    requires
        i + k@.len() <= s@.len(),
    ensures
        r == (s@.subrange(i as int, i as int + k@.len() as int) == k@),
{
    let n = s.len();
    let kn = k.len();
    let mut j: usize = 0;
    while j < kn
        invariant
            j <= kn,
            n == s@.len(),
            kn == k@.len(),
            i + kn <= n,
            forall|m: int| 0 <= m < j ==> s@[i + m] == k@[m],
        decreases kn - j,
    {
        if s[i + j] != k[j] {
            proof {
                assert(s@.subrange(i as int, i as int + k@.len() as int)[j as int] != k@[
                    j as int
                ]);
            }
            return false;
        }
        j = j + 1;
    }
    proof {
        assert(s@.subrange(i as int, i as int + k@.len() as int) =~= k@);
    }
    true
}

/// Replaces every occurrence of `k` in `s` by `v`.
pub fn replace_all(s: &Vec<char>, k: &Vec<char>, v: &Vec<char>) -> (r: Vec<char>)
    ensures
        r@ == spec_replace(s@, k@, v@),
{
    let n = s.len();
    let kn = k.len();
    let mut out: Vec<char> = Vec::new();
    if kn == 0 {
        out.extend_from_slice(v.as_slice());
        proof {
            assert(s@.skip(0) =~= s@);
        }
        let mut i: usize = 0;
        while i < n
            invariant
                i <= n,
                n == s@.len(),
                out@ + spec_splice(s@.skip(i as int), v@) == spec_replace(s@, k@, v@),
                k@.len() == 0,
            decreases n - i,
        {
            let ghost prev = out@;
            out.push(s[i]);
            out.extend_from_slice(v.as_slice());
            proof {
                let tail = s@.skip(i as int);
                assert(tail.drop_first() =~= s@.skip(i + 1));
                assert(tail == seq![s@[i as int]] + tail.drop_first());
                assert(out@ + spec_splice(s@.skip(i + 1), v@) =~= prev + spec_splice(
                    tail,
                    v@,
                ));
            }
            i = i + 1;
        }
        proof {
            assert(s@.skip(n as int) =~= Seq::<char>::empty());
            assert(out@ + spec_splice(s@.skip(n as int), v@) =~= out@);
        }
        out
    } else {
        proof {
            assert(s@.skip(0) =~= s@);
            assert(out@ + spec_replace(s@, k@, v@) =~= spec_replace(s@, k@, v@));
        }
        let mut i: usize = 0;
        while i < n
            invariant
                i <= n,
                n == s@.len(),
                kn == k@.len(),
                kn > 0,
                out@ + spec_replace(s@.skip(i as int), k@, v@) == spec_replace(s@, k@, v@),
            decreases n - i,
        {
            let ghost prev = out@;
            let ghost tail = s@.skip(i as int);
            if kn <= n - i && match_at(s, i, k) {
                out.extend_from_slice(v.as_slice());
                proof {
                    assert(tail.take(kn as int) =~= s@.subrange(i as int, i as int + kn as int));
                    assert(tail.skip(kn as int) =~= s@.skip(i + kn));
                    assert(spec_replace(tail, k@, v@) == v@ + spec_replace(
                        s@.skip(i + kn),
                        k@,
                        v@,
                    ));
                    assert(out@ + spec_replace(s@.skip(i + kn), k@, v@) =~= prev
                        + spec_replace(tail, k@, v@));
                }
                i = i + kn;
            } else {
                out.push(s[i]);
                proof {
                    assert(tail.drop_first() =~= s@.skip(i + 1));
                    if kn <= n - i {
                        assert(tail.take(kn as int) =~= s@.subrange(
                            i as int,
                            i as int + kn as int,
                        ));
                        assert(spec_replace(tail, k@, v@) == seq![tail[0]] + spec_replace(
                            tail.drop_first(),
                            k@,
                            v@,
                        ));
                    } else {
                        assert(tail.len() < kn);
                        assert(spec_replace(tail, k@, v@) == tail);
                        assert(tail.drop_first().len() < kn);
                        assert(spec_replace(tail.drop_first(), k@, v@) == tail.drop_first());
                        assert(tail =~= seq![tail[0]] + tail.drop_first());
                    }
                    assert(out@ + spec_replace(s@.skip(i + 1), k@, v@) =~= prev
                        + spec_replace(tail, k@, v@));
                }
                i = i + 1;
            }
        }
        proof {
            assert(s@.skip(n as int) =~= Seq::<char>::empty());
            assert(spec_replace(s@.skip(n as int), k@, v@) == Seq::<char>::empty());
            assert(out@ + spec_replace(s@.skip(n as int), k@, v@) =~= out@);
        }
        out
    }
}

/// Index of the first pair of `pairs` whose key is `k`, or `pairs.len()`
/// if no pair has it.
pub open spec fn key_idx(pairs: Seq<(Seq<char>, Seq<char>)>, k: Seq<char>) -> int
    decreases pairs.len(),
{
    if pairs.len() == 0 {
        0
    } else if pairs[0].0 == k {
        0
    } else {
        1 + key_idx(pairs.drop_first(), k)
    }
}

/// What [`Config::insert`] leaves behind: the value of an existing key is
/// overwritten in place, a new key is appended.
pub open spec fn spec_insert(
    pairs: Seq<(Seq<char>, Seq<char>)>,
    k: Seq<char>,
    v: Seq<char>,
) -> Seq<(Seq<char>, Seq<char>)> {
    let i = key_idx(pairs, k);
    if 0 <= i < pairs.len() {
        pairs.update(i, (k, v))
    } else {
        pairs.push((k, v))
    }
}

/// Result of substituting every pair of `pairs` into `s`, one key after
/// the other, in the order the pairs stand in the sequence.
pub open spec fn spec_apply(pairs: Seq<(Seq<char>, Seq<char>)>, s: Seq<char>) -> Seq<char>
    decreases pairs.len(),
{
    if pairs.len() == 0 {
        s
    } else {
        spec_replace(spec_apply(pairs.drop_last(), s), pairs.last().0, pairs.last().1)
    }
}

proof fn lemma_key_idx(pairs: Seq<(Seq<char>, Seq<char>)>, k: Seq<char>, i: int)
    requires
        0 <= i <= pairs.len(),
        forall|m: int| 0 <= m < i ==> pairs[m].0 != k,
        i < pairs.len() ==> pairs[i].0 == k,
    ensures
        key_idx(pairs, k) == i,
    decreases pairs.len(),
{
    if i == 0 {
        if pairs.len() > 0 && pairs[0].0 != k {
            assert(i < pairs.len() && pairs[i].0 != k);
        }
    } else {
        assert(pairs[0].0 != k);
        lemma_key_idx(pairs.drop_first(), k, i - 1);
    }
}

/// Mapping from placeholder token to replacement text.  Its view is the
/// sequence of (key, value) pairs in insertion order; substitution applies
/// them in that order, one full pass per key.
pub struct Config {
    pairs: Vec<(Vec<char>, Vec<char>)>,
}

impl View for Config {
    type V = Seq<(Seq<char>, Seq<char>)>;

    closed spec fn view(&self) -> Seq<(Seq<char>, Seq<char>)> {
        Seq::new(self.pairs@.len() as nat, |i: int| (self.pairs@[i].0@, self.pairs@[i].1@))
    }
}

impl Default for Config {
    fn default() -> (r: Config)
        ensures
            r@ == Seq::<(Seq<char>, Seq<char>)>::empty(),
    {
        let r = Config { pairs: Vec::new() };
        proof {
            assert(r@ =~= Seq::<(Seq<char>, Seq<char>)>::empty());
        }
        r
    }
}

impl Config {
    /// A configuration with no pairs at all.
    pub fn new() -> (r: Config)
        ensures
            r@ == Seq::<(Seq<char>, Seq<char>)>::empty(),
    {
        Config::default()
    }

    /// Insert a config variable; an identical key keeps its place and has
    /// its value overwritten, so the last write to a key wins.
    pub fn insert(self, key: &str, value: &str) -> (r: Config)
        ensures
            r@ == spec_insert(self@, key@, value@),
    {
        let kc = chars_of(key);
        let vc = chars_of(value);
        let n = self.pairs.len();
        let mut idx: usize = n;
        let mut i: usize = 0;
        while i < n
            invariant
                i <= n,
                n == self.pairs@.len(),
                kc@ == key@,
                idx == n || idx < i,
                idx == n ==> forall|m: int| 0 <= m < i ==> self@[m].0 != key@,
                idx < n ==> self@[idx as int].0 == key@ && forall|m: int|
                    0 <= m < idx ==> self@[m].0 != key@,
            decreases n - i,
        {
            if idx == n && chars_eq(&self.pairs[i].0, &kc) {
                idx = i;
            }
            i = i + 1;
        }
        proof {
            lemma_key_idx(self@, key@, idx as int);
        }
        let mut out: Vec<(Vec<char>, Vec<char>)> = Vec::new();
        let mut m: usize = 0;
        while m < n
            invariant
                m <= n,
                n == self.pairs@.len(),
                kc@ == key@,
                vc@ == value@,
                idx <= n,
                out@.len() == m,
                forall|t: int|
                    0 <= t < m && t != idx ==> out@[t].0@ == self@[t].0 && out@[t].1@
                        == self@[t].1,
                forall|t: int|
                    0 <= t < m && t == idx ==> out@[t].0@ == key@ && out@[t].1@ == value@,
            decreases n - m,
        {
            if m == idx {
                out.push((copy_chars(&kc), copy_chars(&vc)));
            } else {
                out.push(
                    (copy_chars(&self.pairs[m].0), copy_chars(&self.pairs[m].1)),
                );
            }
            m = m + 1;
        }
        if idx == n {
            out.push((kc, vc));
        }
        let r = Config { pairs: out };
        proof {
            assert(r@ =~~= spec_insert(self@, key@, value@));
        }
        r
    }

    /// Apply the current config to the given string: every key is replaced
    /// by its value, pass after pass in insertion order.
    pub fn apply(&self, content: &str) -> (r: String)
        ensures
            r@ == spec_apply(self@, content@),
    {
        let mut cur = chars_of(content);
        let mut i: usize = 0;
        while i < self.pairs.len()
            invariant
                i <= self.pairs@.len(),
                cur@ == spec_apply(self@.take(i as int), content@),
            decreases self.pairs@.len() - i,
        {
            cur = replace_all(&cur, &self.pairs[i].0, &self.pairs[i].1);
            proof {
                let taken = self@.take(i + 1);
                assert(taken.drop_last() =~= self@.take(i as int));
                assert(taken.last() == (self.pairs@[i as int].0@, self.pairs@[i as int].1@));
            }
            i = i + 1;
        }
        proof {
            assert(self@.take(self.pairs@.len() as int) =~= self@);
        }
        string_of(&cur)
    }
}

/// The keys of a configuration are pairwise distinct.
pub open spec fn keys_unique(pairs: Seq<(Seq<char>, Seq<char>)>) -> bool {
    forall|i: int, j: int| 0 <= i < j < pairs.len() ==> pairs[i].0 != pairs[j].0
}

proof fn lemma_key_idx_props(pairs: Seq<(Seq<char>, Seq<char>)>, k: Seq<char>)
    ensures
        0 <= key_idx(pairs, k) <= pairs.len(),
        forall|m: int| 0 <= m < key_idx(pairs, k) ==> (#[trigger] pairs[m]).0 != k,
        key_idx(pairs, k) < pairs.len() ==> pairs[key_idx(pairs, k)].0 == k,
    decreases pairs.len(),
{
    if pairs.len() == 0 || pairs[0].0 == k {
    } else {
        lemma_key_idx_props(pairs.drop_first(), k);
        assert forall|m: int|
            0 <= m < key_idx(pairs, k) implies (#[trigger] pairs[m]).0 != k by {
            if m > 0 {
                assert(pairs[m] == pairs.drop_first()[m - 1]);
            }
        }
    }
}

/// Inserting keeps the keys pairwise distinct: an existing key is
/// overwritten in place, only an absent one is appended.
pub proof fn lemma_insert_keeps_keys_unique(
    pairs: Seq<(Seq<char>, Seq<char>)>,
    k: Seq<char>,
    v: Seq<char>,
)
    requires
        keys_unique(pairs),
    ensures
        keys_unique(spec_insert(pairs, k, v)),
{
    lemma_key_idx_props(pairs, k);
    let idx = key_idx(pairs, k);
    let updated = spec_insert(pairs, k, v);
    if 0 <= idx < pairs.len() {
        assert forall|i: int, j: int|
            0 <= i < j < updated.len() implies updated[i].0 != updated[j].0 by {
            assert(pairs[i].0 != pairs[j].0);
        }
    } else {
        assert forall|i: int, j: int|
            0 <= i < j < updated.len() implies updated[i].0 != updated[j].0 by {
            if j < pairs.len() {
                assert(pairs[i].0 != pairs[j].0);
            } else {
                assert(updated[j].0 == k);
                assert(pairs[i].0 != k);
            }
        }
    }
}

/// An empty configuration substitutes nothing: applying it to any text
/// returns that text unchanged.
pub proof fn lemma_apply_empty(pairs: Seq<(Seq<char>, Seq<char>)>, s: Seq<char>)
    requires
        pairs.len() == 0,
    ensures
        spec_apply(pairs, s) == s,
{
}

} // verus!
