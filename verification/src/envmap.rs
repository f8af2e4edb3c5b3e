//! A small environment-variable mapping backed by a vector of pairs, with a
//! mathematical `Map` view. Inserting an existing key overwrites its value,
//! so later writers win, which is what layered environment composition needs.

use vstd::prelude::*;

verus! {

/// An environment-variable name/value mapping with unique keys.
pub struct EnvMap {
    entries: Vec<(String, String)>,
}

/// The `Map` denoted by a sequence of pairs, later pairs winning.
pub open spec fn map_of(s: Seq<(Seq<char>, Seq<char>)>) -> Map<Seq<char>, Seq<char>>
    decreases s.len(),
{
    if s.len() == 0 {
        Map::empty()
    } else {
        map_of(s.drop_last()).insert(s.last().0, s.last().1)
    }
}

pub proof fn lemma_map_of_domain(s: Seq<(Seq<char>, Seq<char>)>, k: Seq<char>)
    ensures
        map_of(s).contains_key(k) <==> exists|i: int| 0 <= i < s.len() && s[i].0 == k,
    decreases s.len(),
{
    if s.len() > 0 {
        lemma_map_of_domain(s.drop_last(), k);
        if s.last().0 == k {
            assert(s[s.len() - 1].0 == k);
        } else if map_of(s).contains_key(k) {
            let i = choose|i: int| 0 <= i < s.drop_last().len() && s.drop_last()[i].0 == k;
            assert(s[i].0 == k);
        } else if exists|i: int| 0 <= i < s.len() && s[i].0 == k {
            let i = choose|i: int| 0 <= i < s.len() && s[i].0 == k;
            assert(s.drop_last()[i].0 == k);
        }
    }
}

pub proof fn lemma_map_of_value(s: Seq<(Seq<char>, Seq<char>)>, i: int)
    requires
        0 <= i < s.len(),
        forall|p: int, q: int| 0 <= p < q < s.len() ==> s[p].0 != s[q].0,
    ensures
        map_of(s).contains_key(s[i].0),
        map_of(s)[s[i].0] == s[i].1,
    decreases s.len(),
{
    lemma_map_of_domain(s, s[i].0);
    if i < s.len() - 1 {
        assert(s.last().0 != s[i].0);
        assert(s.drop_last()[i] == s[i]);
        lemma_map_of_value(s.drop_last(), i);
    }
}

pub open spec fn key_seq(entries: Seq<(String, String)>) -> Seq<(Seq<char>, Seq<char>)> {
    entries.map_values(|e: (String, String)| (e.0@, e.1@))
}

impl EnvMap {
    /// The view sequence of name/value pairs.
    pub closed spec fn pairs(&self) -> Seq<(Seq<char>, Seq<char>)> {
        key_seq(self.entries@)
    }

    /// Keys are pairwise distinct.
    pub open spec fn wf(&self) -> bool {
        forall|p: int, q: int| 0 <= p < q < self.pairs().len()
            ==> self.pairs()[p].0 != self.pairs()[q].0
    }

    /// The mapping this value denotes.
    pub open spec fn map(&self) -> Map<Seq<char>, Seq<char>> {
        map_of(self.pairs())
    }

    pub open spec fn spec_len(&self) -> nat {
        self.pairs().len()
    }

    pub fn new() -> (r: EnvMap)
        ensures
            r.wf(),
            r.map() == Map::<Seq<char>, Seq<char>>::empty(),
            r.spec_len() == 0,
    {
        EnvMap { entries: Vec::new() }
    }

    /// How many variables are set.
    pub fn len(&self) -> (r: usize)
        ensures
            r == self.spec_len(),
            self.wf() ==> r == self.map().dom().len(),
    {
        proof {
            if self.wf() {
                self.lemma_len_is_dom_len();
            }
        }
        self.entries.len()
    }

    pub fn is_empty(&self) -> (r: bool)
        ensures
            r == (self.spec_len() == 0),
            r == (self.map() == Map::<Seq<char>, Seq<char>>::empty()),
    {
        proof {
            if self.pairs().len() > 0 {
                lemma_map_of_domain(self.pairs(), self.pairs()[0].0);
                assert(self.map().contains_key(self.pairs()[0].0));
                assert(self.map() != Map::<Seq<char>, Seq<char>>::empty());
            } else {
                assert(self.map() =~= Map::<Seq<char>, Seq<char>>::empty());
            }
        }
        self.entries.len() == 0
    }

    proof fn lemma_len_is_dom_len(&self)
        requires
            self.wf(),
        ensures
            self.map().dom().len() == self.pairs().len(),
            self.map().dom().finite(),
        decreases self.pairs().len(),
    {
        lemma_map_of_dom_len(self.pairs());
    }

    /// Look a variable up.
    pub fn get(&self, key: &str) -> (r: Option<&String>)
        requires
            self.wf(),
        ensures
            match r {
                Some(v) => self.map().contains_key(key@) && v@ == self.map()[key@],
                None => !self.map().contains_key(key@),
            },
    {
        let n = self.entries.len();
        let mut i: usize = 0;
        while i < n
            invariant
                n == self.entries@.len(),
                self.wf(),
                forall|j: int| 0 <= j < i ==> self.pairs()[j].0 != key@,
            decreases n - i,
        {
            let e = &self.entries[i];
            if crate::text::str_eq(e.0.as_str(), key) {
                proof {
                    lemma_map_of_value(self.pairs(), i as int);
                }
                return Some(&e.1);
            }
            proof {
                assert(self.pairs()[i as int].0 == self.entries@[i as int].0@);
            }
            i = i + 1;
        }
        proof {
            lemma_map_of_domain(self.pairs(), key@);
        }
        None
    }

    pub fn contains_key(&self, key: &str) -> (r: bool)
        requires
            self.wf(),
        ensures
            r == self.map().contains_key(key@),
    {
        self.get(key).is_some()
    }

    /// Set a variable; an existing binding of the same name is replaced.
    pub fn insert(&mut self, key: String, value: String)
        requires
            old(self).wf(),
        ensures
            final(self).wf(),
            final(self).map() == old(self).map().insert(key@, value@),
            final(self).spec_len() == if old(self).map().contains_key(key@) {
                old(self).spec_len()
            } else {
                old(self).spec_len() + 1
            },
    {
        let ghost old_pairs = self.pairs();
        let ghost old_entries = self.entries@;
        let n = self.entries.len();
        let mut i: usize = 0;
        while i < n
            invariant
                n == self.entries@.len(),
                self.wf(),
                self.entries@ == old_entries,
                self.pairs() == old_pairs,
                old(self).pairs() == old_pairs,
                forall|j: int| 0 <= j < i ==> self.pairs()[j].0 != key@,
            decreases n - i,
        {
            let matches_here = crate::text::str_eq(self.entries[i].0.as_str(), key.as_str());
            if matches_here {
                proof {
                    assert(old_pairs[i as int].0 == self.entries@[i as int].0@);
                    assert(old_pairs[i as int].0 == key@);
                    lemma_map_of_domain(old_pairs, key@);
                }
                let ghost k = key@;
                let ghost v = value@;
                self.entries[i] = (key, value);
                proof {
                    assert(self.pairs() =~= old_pairs.update(i as int, (k, v)));
                    lemma_map_of_update(old_pairs, i as int, k, v);
                    assert(self.map() == map_of(old_pairs).insert(k, v));
                    assert(self.spec_len() == old_pairs.len());
                    assert(map_of(old_pairs).contains_key(k));
                }
                return;
            }
            proof {
                assert(self.pairs()[i as int].0 == self.entries@[i as int].0@);
            }
            i = i + 1;
        }
        proof {
            lemma_map_of_domain(old_pairs, key@);
        }
        self.entries.push((key, value));
        proof {
            assert(self.pairs() =~= old_pairs.push((key@, value@)));
            assert(self.pairs().drop_last() =~= old_pairs);
        }
    }

    /// The variables as name/value pairs, for handing to a spawner.
    pub fn to_pairs(&self) -> (r: Vec<(String, String)>)
        ensures
            key_seq(r@) == self.pairs(),
    {
        let n = self.entries.len();
        let mut out: Vec<(String, String)> = Vec::new();
        let mut i: usize = 0;
        while i < n
            invariant
                n == self.entries@.len(),
                i <= n,
                i == out@.len(),
                forall|j: int| 0 <= j < i ==> #[trigger] key_seq(out@)[j] == self.pairs()[j],
            decreases n - i,
        {
            let ghost old_out = out@;
            let e = &self.entries[i];
            let k = e.0.clone();
            let v = e.1.clone();
            out.push((k, v));
            proof {
                assert(key_seq(out@) =~= key_seq(old_out).push((k@, v@)));
                assert(key_seq(out@)[i as int] == self.pairs()[i as int]);
                assert(forall|j: int| 0 <= j < i ==> #[trigger] key_seq(out@)[j] == key_seq(
                    old_out,
                )[j]);
            }
            i = i + 1;
        }
        proof {
            assert(key_seq(out@) =~= self.pairs());
        }
        out
    }

    /// A copy with the same contents.
    pub fn duplicate(&self) -> (r: EnvMap)
        ensures
            r.pairs() == self.pairs(),
            r.map() == self.map(),
            self.wf() ==> r.wf(),
    {
        let entries = self.to_pairs();
        let r = EnvMap { entries };
        proof {
            assert(r.pairs() =~= self.pairs());
        }
        r
    }
}

proof fn lemma_map_of_dom_len(s: Seq<(Seq<char>, Seq<char>)>)
    requires
        forall|p: int, q: int| 0 <= p < q < s.len() ==> s[p].0 != s[q].0,
    ensures
        map_of(s).dom().finite(),
        map_of(s).dom().len() == s.len(),
    decreases s.len(),
{
    if s.len() == 0 {
        assert(map_of(s).dom() =~= Set::<Seq<char>>::empty());
    } else {
        lemma_map_of_dom_len(s.drop_last());
        lemma_map_of_domain(s.drop_last(), s.last().0);
        assert(forall|i: int| 0 <= i < s.drop_last().len() ==> s.drop_last()[i] == s[i]);
        assert(!map_of(s.drop_last()).contains_key(s.last().0));
        assert(map_of(s).dom() =~= map_of(s.drop_last()).dom().insert(s.last().0));
    }
}

proof fn lemma_map_of_update(s: Seq<(Seq<char>, Seq<char>)>, i: int, k: Seq<char>, v: Seq<char>)
    requires
        0 <= i < s.len(),
        s[i].0 == k,
        forall|p: int, q: int| 0 <= p < q < s.len() ==> s[p].0 != s[q].0,
    ensures
        map_of(s.update(i, (k, v))) == map_of(s).insert(k, v),
    decreases s.len(),
{
    let su = s.update(i, (k, v));
    if i == s.len() - 1 {
        assert(su.drop_last() =~= s.drop_last());
        assert(map_of(su) == map_of(s.drop_last()).insert(k, v));
        assert(map_of(s).insert(k, v) =~= map_of(s.drop_last()).insert(s.last().0, s.last().1)
            .insert(k, v));
        assert(map_of(s.drop_last()).insert(k, v) =~= map_of(s.drop_last()).insert(
            s.last().0,
            s.last().1,
        ).insert(k, v));
    } else {
        assert(su.drop_last() =~= s.drop_last().update(i, (k, v)));
        lemma_map_of_update(s.drop_last(), i, k, v);
        assert(s.last().0 != k);
        assert(su.last() == s.last());
        assert(map_of(su) == map_of(s.drop_last()).insert(k, v).insert(s.last().0, s.last().1));
        assert(map_of(s.drop_last()).insert(k, v).insert(s.last().0, s.last().1) =~= map_of(
            s.drop_last(),
        ).insert(s.last().0, s.last().1).insert(k, v));
    }
}

} // verus!
