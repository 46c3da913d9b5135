//! A map from names to small values; a later insertion of a name replaces the earlier one.

use vstd::prelude::*;

verus! {

/// Index of the last key equal to `k` among the first `n` keys, or -1.
pub open spec fn last_match(keys: Seq<Seq<char>>, k: Seq<char>, n: int) -> int
    decreases n,
{
    if n <= 0 {
        -1
    } else if keys[n - 1] == k {
        n - 1
    } else {
        last_match(keys, k, n - 1)
    }
}

/// The last match lies in range and holds `k`; a later key never equals `k`.
pub proof fn lemma_last_match(keys: Seq<Seq<char>>, k: Seq<char>, n: int)
    requires
        0 <= n <= keys.len(),
    ensures
        -1 <= last_match(keys, k, n) < n,
        last_match(keys, k, n) >= 0 ==> keys[last_match(keys, k, n)] == k,
        forall|j: int| last_match(keys, k, n) < j < n ==> keys[j] != k,
    decreases n,
{
    if n > 0 && keys[n - 1] != k {
        lemma_last_match(keys, k, n - 1);
    }
}

/// Extending the keys does not change a match among the first `n`.
pub proof fn lemma_last_match_prefix(keys: Seq<Seq<char>>, more: Seq<Seq<char>>, k: Seq<char>, n: int)
    requires
        0 <= n <= keys.len(),
    ensures
        last_match(keys + more, k, n) == last_match(keys, k, n),
    decreases n,
{
    if n > 0 {
        assert((keys + more)[n - 1] == keys[n - 1]);
        lemma_last_match_prefix(keys, more, k, n - 1);
    }
}

/// Finds the last index among `keys` whose string equals `k`.
pub fn find_last(keys: &Vec<String>, k: &String) -> (r: Option<usize>)
    ensures
        match r {
            Some(i) => i < keys@.len() && last_match(keys.deep_view(), k@, keys@.len() as int)
                == i as int,
            None => last_match(keys.deep_view(), k@, keys@.len() as int) == -1,
        },
{
    let mut i: usize = keys.len();
    while i > 0
        invariant
            i <= keys@.len(),
            last_match(keys.deep_view(), k@, keys@.len() as int) == last_match(
                keys.deep_view(),
                k@,
                i as int,
            ),
        decreases i,
    {
        if keys[i - 1] == *k {
            return Some(i - 1);
        }
        i = i - 1;
    }
    None
}

/// A map from names to values, kept as parallel lists of keys and values.
pub struct NameMap<V> {
    pub keys: Vec<String>,
    pub vals: Vec<V>,
}

impl<V: Copy> NameMap<V> {
    pub open spec fn wf(&self) -> bool {
        self.keys@.len() == self.vals@.len()
    }

    /// The value that `k` maps to.
    pub open spec fn lookup(&self, k: Seq<char>) -> Option<V> {
        let i = last_match(self.keys.deep_view(), k, self.keys@.len() as int);
        if i < 0 {
            None
        } else {
            Some(self.vals@[i])
        }
    }

    /// An empty map.
    pub fn new() -> (r: Self)
        ensures
            r.wf(),
            r.keys@.len() == 0,
            forall|k: Seq<char>| r.lookup(k) is None,
    {
        NameMap { keys: Vec::new(), vals: Vec::new() }
    }

    /// The value that `k` maps to.
    pub fn get(&self, k: &String) -> (r: Option<V>)
        requires
            self.wf(),
        ensures
            r == self.lookup(k@),
    {
        proof {
            lemma_last_match(self.keys.deep_view(), k@, self.keys@.len() as int);
        }
        match find_last(&self.keys, k) {
            Some(i) => Some(self.vals[i]),
            None => None,
        }
    }

    /// Maps `k` to `v`, replacing what `k` mapped to before.
    pub fn insert(&mut self, k: String, v: V)
        requires
            old(self).wf(),
        ensures
            final(self).wf(),
            final(self).lookup(k@) == Some(v),
            forall|k2: Seq<char>| k2 != k@ ==> final(self).lookup(k2) == old(self).lookup(k2),
            final(self).vals@ == old(self).vals@.push(v),
            final(self).keys.deep_view() == old(self).keys.deep_view().push(k@),
    {
        let ghost old_keys = self.keys.deep_view();
        let ghost kv = k@;
        self.keys.push(k);
        self.vals.push(v);
        proof {
            let n = old_keys.len() as int;
            assert(self.keys.deep_view() =~= old_keys + seq![kv]);
            assert(self.keys.deep_view() =~= old_keys.push(kv));
            assert forall|k2: Seq<char>| k2 != kv implies self.lookup(k2) == old(self).lookup(k2) by {
                lemma_last_match_prefix(old_keys, seq![kv], k2, n);
                lemma_last_match(old_keys, k2, n);
            }
        }
    }
}

} // verus!
