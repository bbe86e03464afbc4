//! A small association table from names to values, viewed as a
//! mathematical map.  A later binding for the same name shadows an earlier
//! one, which gives insertion exactly the semantics of `Map::insert`.
use vstd::prelude::*;

verus! {

/// The value bound to `k` in an entry sequence, most recent binding first.
pub open spec fn find_v<V>(s: Seq<(String, V)>, k: Seq<char>) -> Option<V>
    decreases s.len(),
{
    if s.len() == 0 {
        None
    } else if s.last().0@ == k {
        Some(s.last().1)
    } else {
        find_v(s.drop_last(), k)
    }
}

/// Binding lookup over a concatenation: the right-hand entries win.
pub proof fn lemma_find_concat<V>(a: Seq<(String, V)>, b: Seq<(String, V)>, k: Seq<char>)
    ensures
        find_v(a + b, k) == (match find_v(b, k) {
            Some(v) => Some(v),
            None => find_v(a, k),
        }),
    decreases b.len(),
{
    if b.len() == 0 {
        assert(a + b =~= a);
    } else {
        assert((a + b).last() == b.last());
        assert((a + b).drop_last() =~= a + b.drop_last());
        lemma_find_concat(a, b.drop_last(), k);
    }
}

/// A table of named bindings.
pub struct StrMap<V> {
    entries: Vec<(String, V)>,
}

impl<V: View> View for StrMap<V> {
    type V = Map<Seq<char>, <V as View>::V>;

    /// The mathematical map this table holds: each bound name to the value
    /// of its most recent binding.
    closed spec fn view(&self) -> Map<Seq<char>, <V as View>::V> {
        Map::new(
            |k: Seq<char>| find_v(self.entries@, k) is Some,
            |k: Seq<char>| (find_v(self.entries@, k)->0)@,
        )
    }
}

impl<V: View> StrMap<V> {
    /// An empty table.
    pub fn new() -> (r: Self)
        ensures
            r@ == Map::<Seq<char>, <V as View>::V>::empty(),
    {
        let r = StrMap { entries: Vec::new() };
        proof {
            assert(r@ =~= Map::<Seq<char>, <V as View>::V>::empty());
        }
        r
    }

    /// Binds `k` to `v`, shadowing any earlier binding of `k`.
    pub fn insert(&mut self, k: String, v: V)
        ensures
            final(self)@ == old(self)@.insert(k@, v@),
    {
        let ghost oldmap = self@;
        let ghost kview = k@;
        let ghost vview = v@;
        self.entries.push((k, v));
        proof {
            assert(forall|q: Seq<char>|
                #![auto]
                find_v(self.entries@, q) == if q == kview {
                    Some(self.entries@.last().1)
                } else {
                    find_v(self.entries@.drop_last(), q)
                });
            assert(self.entries@.drop_last() =~= old(self).entries@);
            assert(self@ =~= oldmap.insert(kview, vview));
        }
    }

    /// The value bound to `k`, if any.
    pub fn get(&self, k: &String) -> (r: Option<&V>)
        ensures
            match r {
                Some(v) => self@.contains_key(k@) && v@ == self@[k@],
                None => !self@.contains_key(k@),
            },
    {
        let n = self.entries.len();
        let mut i: usize = n;
        proof {
            assert(self.entries@.take(n as int) =~= self.entries@);
        }
        while i > 0
            invariant
                i <= n,
                n == self.entries.len(),
                find_v(self.entries@.take(i as int), k@) == find_v(self.entries@, k@),
            decreases i,
        {
            let j = i - 1;
            proof {
                assert(self.entries@.take(j as int + 1).last() == self.entries@[j as int]);
                assert(self.entries@.take(j as int + 1).drop_last() =~= self.entries@.take(
                    j as int,
                ));
            }
            if self.entries[j].0 == *k {
                return Some(&self.entries[j].1);
            }
            i = j;
        }
        proof {
            assert(self.entries@.take(0) =~= Seq::<(String, V)>::empty());
        }
        None
    }

    /// Adds every binding of `other`, in order: on a shared name the
    /// binding from `other` wins.
    pub fn merge(&mut self, other: StrMap<V>)
        ensures
            final(self)@ == old(self)@.union_prefer_right(other@),
    {
        let ghost aview = self@;
        let ghost bview = other@;
        let ghost a = self.entries@;
        let ghost b = other.entries@;
        let mut o = other;
        self.entries.append(&mut o.entries);
        proof {
            assert(self.entries@ =~= a + b);
            assert forall|q: Seq<char>| true implies #[trigger] find_v(self.entries@, q) == (
            match find_v(b, q) {
                Some(v) => Some(v),
                None => find_v(a, q),
            }) by {
                lemma_find_concat(a, b, q);
            }
            assert(self@ =~= aview.union_prefer_right(bview));
        }
    }
}

} // verus!
