//! An insertion-ordered association map with `String` keys.
//!
//! Headers, cookies, extracted path parameters and the static-route table
//! are all small maps from strings to values.  The map is kept as a vector
//! of pairs: keys stay unique, insertion order is preserved (which makes
//! rendering deterministic), and a later insert with an existing key
//! overwrites the value in place (last write wins).

use vstd::prelude::*;

verus! {

/// The index of the first pair of `s` whose key is `k`, or -1 when no pair
/// has that key.
pub open spec fn key_index<V>(s: Seq<(Seq<char>, V)>, k: Seq<char>) -> int
    decreases s.len(),
{
    if s.len() == 0 {
        -1
    } else if s[0].0 == k {
        0
    } else {
        let r = key_index(s.drop_first(), k);
        if r < 0 {
            -1
        } else {
            r + 1
        }
    }
}

/// Whether some pair of `s` has key `k`.
pub open spec fn has_key<V>(s: Seq<(Seq<char>, V)>, k: Seq<char>) -> bool {
    key_index(s, k) >= 0
}

/// The value bound to `k` in `s`, if any.
pub open spec fn value_of<V>(s: Seq<(Seq<char>, V)>, k: Seq<char>) -> Option<V> {
    if has_key(s, k) {
        Some(s[key_index(s, k)].1)
    } else {
        None
    }
}

/// The pair sequence after binding `k` to `v`: the value is overwritten in
/// place when `k` is present, and the pair is appended otherwise.
pub open spec fn bind<V>(s: Seq<(Seq<char>, V)>, k: Seq<char>, v: V) -> Seq<(Seq<char>, V)> {
    if has_key(s, k) {
        s.update(key_index(s, k), (k, v))
    } else {
        s.push((k, v))
    }
}

/// The pair sequence after removing the pair with key `k`, if present.
pub open spec fn unbind<V>(s: Seq<(Seq<char>, V)>, k: Seq<char>) -> Seq<(Seq<char>, V)> {
    if has_key(s, k) {
        s.remove(key_index(s, k))
    } else {
        s
    }
}

/// Whether no two pairs of `s` share a key.
pub open spec fn unique_keys<V>(s: Seq<(Seq<char>, V)>) -> bool {
    forall|i: int, j: int| 0 <= i < j < s.len() ==> (#[trigger] s[i]).0 != (#[trigger] s[j]).0
}

/// What `key_index` finds: a valid position holding the key, with no
/// earlier position holding it; or -1 when the key is absent everywhere.
pub proof fn lemma_key_index<V>(s: Seq<(Seq<char>, V)>, k: Seq<char>)
    ensures
        key_index(s, k) == -1 <==> (forall|j: int|
            0 <= j < s.len() ==> (#[trigger] s[j]).0 != k),
        key_index(s, k) >= 0 ==> {
            let ki = key_index(s, k);
            &&& ki < s.len()
            &&& s[ki].0 == k
            &&& forall|j: int| 0 <= j < ki ==> (#[trigger] s[j]).0 != k
        },
    decreases s.len(),
{
    if s.len() == 0 {
    } else if s[0].0 == k {
    } else {
        let st = s.drop_first();
        lemma_key_index(st, k);
        let r = key_index(st, k);
        if r == -1 {
            assert forall|j: int| 0 <= j < s.len() implies (#[trigger] s[j]).0 != k by {
                if j >= 1 {
                    assert(s[j] == st[j - 1]);
                    assert(st[j - 1].0 != k);
                }
            }
        } else {
            assert(s[r + 1] == st[r]);
            assert forall|j: int| 0 <= j < r + 1 implies (#[trigger] s[j]).0 != k by {
                if j >= 1 {
                    assert(s[j] == st[j - 1]);
                    assert(st[j - 1].0 != k);
                }
            }
        }
    }
}

/// Binding and unbinding keep the keys unique.
pub proof fn lemma_bind_unique<V>(s: Seq<(Seq<char>, V)>, k: Seq<char>, v: V)
    requires
        unique_keys(s),
    ensures
        unique_keys(bind(s, k, v)),
        unique_keys(unbind(s, k)),
{
    lemma_key_index(s, k);
    if has_key(s, k) {
        let ki = key_index(s, k);
        assert forall|i: int, j: int|
            0 <= i < j < bind(s, k, v).len() implies (#[trigger] bind(s, k, v)[i]).0 != (
        #[trigger] bind(s, k, v)[j]).0 by {
            assert(s[i].0 != s[j].0);
        }
        assert forall|i: int, j: int|
            0 <= i < j < unbind(s, k).len() implies (#[trigger] unbind(s, k)[i]).0 != (
        #[trigger] unbind(s, k)[j]).0 by {
            let s2 = s.remove(ki);
            let i0 = if i < ki {
                i
            } else {
                i + 1
            };
            let j0 = if j < ki {
                j
            } else {
                j + 1
            };
            assert(s2[i] == s[i0]);
            assert(s2[j] == s[j0]);
            assert(s[i0].0 != s[j0].0);
        }
    }
}

/// The map after binding each of `pairs` in order, starting empty.
pub open spec fn bind_all<V>(pairs: Seq<(Seq<char>, V)>) -> Seq<(Seq<char>, V)>
    decreases pairs.len(),
{
    if pairs.len() == 0 {
        Seq::empty()
    } else {
        bind(bind_all(pairs.drop_last()), pairs.last().0, pairs.last().1)
    }
}

/// The pairs of `s` with each value replaced by its view.
pub open spec fn viewed_pairs<V: View>(s: Seq<(Seq<char>, V)>) -> Seq<(Seq<char>, V::V)> {
    s.map_values(|p: (Seq<char>, V)| (p.0, p.1@))
}

/// Taking views of the values moves no key, so the first position of a key
/// is unchanged.
pub proof fn lemma_key_index_viewed<V: View>(s: Seq<(Seq<char>, V)>, k: Seq<char>)
    ensures
        key_index(viewed_pairs(s), k) == key_index(s, k),
    decreases s.len(),
{
    if s.len() > 0 {
        lemma_key_index_viewed(s.drop_first(), k);
        assert(viewed_pairs(s.drop_first()) =~= viewed_pairs(s).drop_first());
    }
}

/// Taking views of the values commutes with binding a key.
pub proof fn lemma_bind_viewed<V: View>(s: Seq<(Seq<char>, V)>, k: Seq<char>, v: V)
    ensures
        viewed_pairs(bind(s, k, v)) =~= bind(viewed_pairs(s), k, v@),
{
    lemma_key_index_viewed(s, k);
    lemma_key_index(s, k);
}

/// Compares two string slices by contents.
pub fn str_eq(a: &str, b: &str) -> (r: bool)
    ensures
        r == (a@ == b@),
{
    let x: String = a.to_owned();
    let y: String = b.to_owned();
    x == y
}

/// An association map from `String` keys to `V` values, in insertion order.
#[derive(Debug)]
pub struct StringMap<V> {
    pairs: Vec<(String, V)>,
}

impl<V> StringMap<V> {
    /// The pairs of the map, keys as character sequences, in order.
    pub closed spec fn view(&self) -> Seq<(Seq<char>, V)> {
        self.pairs@.map_values(|p: (String, V)| (p.0@, p.1))
    }

    /// An empty map.
    pub fn new() -> (r: Self)
        ensures
            r@ =~= Seq::<(Seq<char>, V)>::empty(),
    {
        StringMap { pairs: Vec::new() }
    }

    /// The number of pairs.
    pub fn len(&self) -> (r: usize)
        ensures
            r == self@.len(),
    {
        self.pairs.len()
    }

    /// The pair at position `i`.
    pub fn pair_at(&self, i: usize) -> (r: (&String, &V))
        requires
            i < self@.len(),
        ensures
            r.0@ == self@[i as int].0,
            *r.1 == self@[i as int].1,
    {
        let p = &self.pairs[i];
        (&p.0, &p.1)
    }

    /// Appends a pair at the end, keeping earlier pairs in place; used
    /// when rebuilding a map whose keys are already distinct.
    pub(crate) fn push_pair(&mut self, k: String, v: V)
        ensures
            final(self)@ =~= old(self)@.push((k@, v)),
    {
        self.pairs.push((k, v));
    }

    /// The position of the pair with key `k`, if present.
    fn position_of(&self, k: &str) -> (r: Option<usize>)
        ensures
            match r {
                Some(i) => i == key_index(self@, k@) && i < self@.len(),
                None => !has_key(self@, k@),
            },
    {
        proof {
            lemma_key_index(self@, k@);
        }
        let n = self.pairs.len();
        let mut i: usize = 0;
        while i < n
            invariant
                0 <= i <= n == self@.len(),
                forall|j: int| 0 <= j < i ==> (#[trigger] self@[j]).0 != k@,
            decreases n - i,
        {
            if str_eq(self.pairs[i].0.as_str(), k) {
                proof {
                    lemma_key_index(self@, k@);
                    assert(self@[i as int].0 == k@);
                    assert(key_index(self@, k@) >= 0);
                }
                return Some(i);
            }
            assert(self@[i as int].0 != k@);
            i = i + 1;
        }
        None
    }

    /// Whether a pair with key `k` is present.
    pub fn contains_key(&self, k: &str) -> (r: bool)
        ensures
            r == has_key(self@, k@),
    {
        self.position_of(k).is_some()
    }

    /// The value bound to `k`, if any.
    pub fn get(&self, k: &str) -> (r: Option<&V>)
        ensures
            match r {
                Some(v) => value_of(self@, k@) == Some(*v),
                None => value_of(self@, k@) is None,
            },
    {
        match self.position_of(k) {
            Some(i) => Some(&self.pairs[i].1),
            None => None,
        }
    }

    /// Binds `k` to `v`: overwrites in place when `k` is present, appends
    /// otherwise.
    pub fn insert(&mut self, k: String, v: V)
        ensures
            final(self)@ =~= bind(old(self)@, k@, v),
    {
        match self.position_of(k.as_str()) {
            Some(i) => {
                let ghost old_pairs = self@;
                let (k0, _) = self.pairs.remove(i);
                self.pairs.insert(i, (k0, v));
                proof {
                    lemma_key_index(old_pairs, k@);
                    assert(old_pairs[i as int].0 == k@);
                    assert(self@ =~= bind(old_pairs, k@, v));
                }
            },
            None => {
                self.pairs.push((k, v));
            },
        }
    }

    /// Removes the pair with key `k`, if present.
    pub fn remove(&mut self, k: &str)
        ensures
            final(self)@ =~= unbind(old(self)@, k@),
    {
        match self.position_of(k) {
            Some(i) => {
                let _ = self.pairs.remove(i);
            },
            None => {},
        }
    }
}

} // verus!
