use vstd::prelude::*;

verus! {

/// The value bound to `k` in a list of entries: the last entry with that key wins.
pub open spec fn lookup<V>(s: Seq<(String, V)>, k: Seq<char>) -> Option<V>
    decreases s.len(),
{
    if s.len() == 0 {
        None
    } else if s.last().0@ == k {
        Some(s.last().1)
    } else {
        lookup(s.drop_last(), k)
    }
}

proof fn lemma_lookup_absent<V>(s: Seq<(String, V)>, k: Seq<char>)
    requires
        forall|m: int| 0 <= m < s.len() ==> (#[trigger] s[m]).0@ != k,
    ensures
        lookup(s, k) is None,
    decreases s.len(),
{
    if s.len() > 0 {
        assert(s.drop_last().len() < s.len());
        assert forall|m: int| 0 <= m < s.drop_last().len() implies (#[trigger] s.drop_last()[m]).0@
            != k by {
            assert(s.drop_last()[m] == s[m]);
        }
        lemma_lookup_absent(s.drop_last(), k);
    }
}

proof fn lemma_lookup_remove<V>(s: Seq<(String, V)>, p: int, k: Seq<char>)
    requires
        0 <= p < s.len(),
        s[p].0@ != k,
    ensures
        lookup(s.remove(p), k) == lookup(s, k),
    decreases s.len(),
{
    if p == s.len() - 1 {
        assert(s.remove(p) =~= s.drop_last());
    } else {
        let r = s.remove(p);
        assert(r.last() == s.last());
        assert(r.drop_last() =~= s.drop_last().remove(p));
        lemma_lookup_remove(s.drop_last(), p, k);
    }
}

proof fn lemma_lookup_update<V>(s: Seq<(String, V)>, i: int, w: V, j: Seq<char>)
    requires
        0 <= i < s.len(),
        forall|m: int| i < m < s.len() ==> (#[trigger] s[m]).0@ != s[i].0@,
    ensures
        lookup(s.update(i, (s[i].0, w)), j) == if j == s[i].0@ {
            Some(w)
        } else {
            lookup(s, j)
        },
    decreases s.len(),
{
    let u = s.update(i, (s[i].0, w));
    if i == s.len() - 1 {
        assert(u.drop_last() =~= s.drop_last());
    } else {
        assert(u.drop_last() =~= s.drop_last().update(i, (s[i].0, w)));
        assert(s.drop_last()[i] == s[i]);
        lemma_lookup_update(s.drop_last(), i, w, j);
    }
}

/// Whether two strings hold the same characters.
pub fn str_eq(a: &str, b: &str) -> (r: bool)
    ensures
        r == (a@ == b@),
{
    let n = a.unicode_len();
    if n != b.unicode_len() {
        return false;
    }
    let mut i: usize = 0;
    while i < n
        invariant
            n == a@.len(),
            n == b@.len(),
            i <= n,
            forall|j: int| 0 <= j < i ==> a@[j] == b@[j],
        decreases n - i,
    {
        if a.get_char(i) != b.get_char(i) {
            return false;
        }
        i = i + 1;
    }
    assert(a@ =~= b@);
    true
}

/// A map from strings to values, held as a list of entries.
pub struct Table<V> {
    pub entries: Vec<(String, V)>,
}

impl<V> View for Table<V> {
    type V = Map<Seq<char>, V>;

    open spec fn view(&self) -> Map<Seq<char>, V> {
        Map::new(|k: Seq<char>| lookup(self.entries@, k) is Some, |k: Seq<char>| lookup(self.entries@, k)->0)
    }
}

impl<V> Table<V> {
    /// An empty table.
    pub fn new() -> (r: Self)
        ensures
            r@ == Map::<Seq<char>, V>::empty(),
    {
        let r = Table { entries: Vec::new() };
        assert(r@ =~= Map::<Seq<char>, V>::empty());
        r
    }

    /// The value bound to `k`, if any.
    pub fn get(&self, k: &str) -> (r: Option<&V>)
        ensures
            r is Some <==> self@.contains_key(k@),
            r matches Some(v) ==> *v == self@[k@],
    {
        let ghost s = self.entries@;
        let mut i: usize = self.entries.len();
        assert(s.subrange(0, i as int) =~= s);
        while i > 0
            invariant
                s == self.entries@,
                i <= s.len(),
                lookup(s, k@) == lookup(s.subrange(0, i as int), k@),
            decreases i,
        {
            assert(s.subrange(0, i as int).drop_last() =~= s.subrange(0, i - 1));
            if str_eq(self.entries[i - 1].0.as_str(), k) {
                return Some(&self.entries[i - 1].1);
            }
            i = i - 1;
        }
        None
    }

    /// The index of the entry that binds `k`, if any.
    fn find(&self, k: &str) -> (r: Option<usize>)
        ensures
            r is Some <==> self@.contains_key(k@),
            r matches Some(i) ==> i < self.entries@.len() && self.entries@[i as int].0@ == k@
                && self@[k@] == self.entries@[i as int].1 && lookup(self.entries@, k@) == Some(
                self.entries@[i as int].1,
            ) && forall|m: int| i < m < self.entries@.len() ==> (#[trigger] self.entries@[m]).0@
                != k@,
    {
        let ghost s = self.entries@;
        let mut i: usize = self.entries.len();
        assert(s.subrange(0, i as int) =~= s);
        while i > 0
            invariant
                s == self.entries@,
                i <= s.len(),
                lookup(s, k@) == lookup(s.subrange(0, i as int), k@),
                forall|m: int| i <= m < s.len() ==> (#[trigger] s[m]).0@ != k@,
            decreases i,
        {
            assert(s.subrange(0, i as int).drop_last() =~= s.subrange(0, i - 1));
            if str_eq(self.entries[i - 1].0.as_str(), k) {
                return Some(i - 1);
            }
            i = i - 1;
        }
        None
    }

    /// The value bound to `k`, for change in place.
    pub fn get_mut(&mut self, k: &str) -> (r: Option<&mut V>)
        ensures
            r is Some <==> old(self)@.contains_key(k@),
            r matches Some(v) ==> *v == old(self)@[k@] && final(self)@ == old(self)@.insert(k@, *final(v)),
            r is None ==> final(self)@ == old(self)@,
    {
        match self.find(k) {
            Some(i) => {
                proof {
                    let s = self.entries@;
                    assert forall|w: V, j: Seq<char>| #[trigger]
                        lookup(s.update(i as int, (s[i as int].0, w)), j) == if j == k@ {
                            Some(w)
                        } else {
                            lookup(s, j)
                        } by {
                        lemma_lookup_update(s, i as int, w, j);
                    }
                }
                Some(&mut self.entries[i].1)
            },
            None => None,
        }
    }

    /// Whether `k` is bound.
    pub fn contains(&self, k: &str) -> (r: bool)
        ensures
            r == self@.contains_key(k@),
    {
        self.get(k).is_some()
    }

    /// Binds `k` to `v`, replacing an earlier binding.
    pub fn insert(&mut self, k: String, v: V)
        ensures
            final(self)@ == old(self)@.insert(k@, v),
    {
        let ghost s = self.entries@;
        let ghost kk = k@;
        self.entries.push((k, v));
        assert(self.entries@.drop_last() =~= s);
        assert(self@ =~= old(self)@.insert(kk, v));
    }

    /// Removes the binding of `k`, if any.
    pub fn remove(&mut self, k: &str)
        ensures
            final(self)@ == old(self)@.remove(k@),
    {
        let ghost s0 = self.entries@;
        let mut i: usize = self.entries.len();
        while i > 0
            invariant
                i <= self.entries@.len(),
                forall|m: int| i <= m < self.entries@.len() ==> (#[trigger] self.entries@[m]).0@
                    != k@,
                forall|j: Seq<char>| j != k@ ==> lookup(self.entries@, j) == lookup(s0, j),
            decreases i,
        {
            if str_eq(self.entries[i - 1].0.as_str(), k) {
                let ghost before = self.entries@;
                self.entries.remove(i - 1);
                assert forall|j: Seq<char>| j != k@ implies lookup(self.entries@, j) == lookup(
                    s0,
                    j,
                ) by {
                    lemma_lookup_remove(before, i - 1, j);
                }
                assert forall|m: int| i - 1 <= m < self.entries@.len() implies (
                #[trigger] self.entries@[m]).0@ != k@ by {
                    assert(self.entries@[m] == before[m + 1]);
                }
            }
            i = i - 1;
        }
        proof {
            lemma_lookup_absent(self.entries@, k@);
        }
        assert(self@ =~= old(self)@.remove(k@));
    }
}


/// A table's bindings seen through the view of each value.
pub open spec fn deep_map<V: View>(m: Map<Seq<char>, V>) -> Map<Seq<char>, V::V> {
    m.map_values(|x: V| x@)
}

pub proof fn lemma_deep_insert<V: View>(m: Map<Seq<char>, V>, k: Seq<char>, v: V)
    ensures
        deep_map(m.insert(k, v)) == deep_map(m).insert(k, v@),
{
    assert(deep_map(m.insert(k, v)) =~= deep_map(m).insert(k, v@));
}

pub proof fn lemma_deep_remove<V: View>(m: Map<Seq<char>, V>, k: Seq<char>)
    ensures
        deep_map(m.remove(k)) == deep_map(m).remove(k),
{
    assert(deep_map(m.remove(k)) =~= deep_map(m).remove(k));
}

} // verus!
