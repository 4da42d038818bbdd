//! A small verified association map from actor keys to values, used for the
//! results a run hands back: one entry per terminal actor.

use vstd::prelude::*;

use crate::internal::EqKey;

verus! {

/// The map denoted by an association list; a later entry for a key overrides
/// an earlier one.
pub open spec fn map_of<K, V>(s: Seq<(K, V)>) -> Map<K, V>
    decreases s.len(),
{
    if s.len() == 0 {
        Map::empty()
    } else {
        map_of(s.drop_last()).insert(s.last().0, s.last().1)
    }
}

/// Entries at or after position `t` never mention `k`, so the map agrees with
/// the map of the first `t` entries on `k`.
proof fn lemma_map_of_take_absent<K, V>(s: Seq<(K, V)>, t: int, k: K)
    requires
        0 <= t <= s.len(),
        forall|j: int| t <= j < s.len() ==> (#[trigger] s[j]).0 != k,
    ensures
        map_of(s).dom().contains(k) <==> map_of(s.take(t)).dom().contains(k),
        map_of(s).dom().contains(k) ==> map_of(s)[k] == map_of(s.take(t))[k],
    decreases s.len() - t,
{
    if t == s.len() {
        assert(s.take(t) =~= s);
    } else {
        assert(s.last().0 != k);
        assert(s.drop_last().take(t) =~= s.take(t));
        lemma_map_of_take_absent(s.drop_last(), t, k);
    }
}

/// A map from keys to values, with lookup by the keys' own equality.
pub struct KeyMap<K, V> {
    entries: Vec<(K, V)>,
}

impl<K, V> View for KeyMap<K, V> {
    type V = Map<K, V>;

    closed spec fn view(&self) -> Map<K, V> {
        map_of(self.entries@)
    }
}

impl<K: EqKey, V> KeyMap<K, V> {
    /// The empty map.
    pub fn new() -> (r: Self)
        ensures
            r@ == Map::<K, V>::empty(),
    {
        let r = KeyMap { entries: Vec::new() };
        proof {
            assert(r.entries@.len() == 0);
        }
        r
    }

    /// Bind `key` to `value`, replacing any earlier binding.
    pub fn insert(&mut self, key: K, value: V)
        ensures
            final(self)@ == old(self)@.insert(key, value),
    {
        self.entries.push((key, value));
        proof {
            assert(self.entries@.drop_last() =~= old(self).entries@);
            assert(self.entries@.last() == (key, value));
        }
    }

    /// Look up the value bound to `key`.
    pub fn get(&self, key: &K) -> (r: Option<&V>)
        ensures
            self@.dom().contains(*key) ==> (r matches Some(v) && *v == self@[*key]),
            !self@.dom().contains(*key) ==> r is None,
    {
        let n = self.entries.len();
        let mut i: usize = n;
        while i > 0
            invariant
                n == self.entries@.len(),
                0 <= i <= n,
                forall|j: int| i <= j < n ==> (#[trigger] self.entries@[j]).0 != *key,
            decreases i,
        {
            i = i - 1;
            if self.entries[i].0.key_eq(key) {
                proof {
                    lemma_map_of_take_absent(self.entries@, i + 1, *key);
                    assert(self.entries@.take(i + 1).drop_last() =~= self.entries@.take(i as int));
                    assert(self.entries@.take(i + 1).last() == self.entries@[i as int]);
                }
                return Some(&self.entries[i].1);
            }
        }
        proof {
            lemma_map_of_take_absent(self.entries@, 0, *key);
            assert(self.entries@.take(0) =~= Seq::<(K, V)>::empty());
        }
        None
    }
}

} // verus!
