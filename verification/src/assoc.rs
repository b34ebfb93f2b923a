use vstd::prelude::*;

verus! {

/// A key of an [`AssocMap`]: a value that is compared and copied by its view.
pub trait MapKey: View + Sized {
    /// Whether two keys have the same view.
    fn same_key(&self, other: &Self) -> (r: bool)
        ensures
            r == (self@ == other@),
    ;

    /// A copy with the same view.
    fn copy_key(&self) -> (r: Self)
        ensures
            r@ == self@,
    ;
}

impl MapKey for String {
    fn same_key(&self, other: &Self) -> (r: bool) {
        *self == *other
    }

    fn copy_key(&self) -> (r: Self) {
        self.clone()
    }
}

impl MapKey for Vec<usize> {
    fn same_key(&self, other: &Self) -> (r: bool) {
        if self.len() != other.len() {
            return false;
        }
        let mut i: usize = 0;
        while i < self.len()
            invariant
                i <= self.len(),
                self.len() == other.len(),
                forall|j: int| 0 <= j < i ==> self@[j] == other@[j],
            decreases self.len() - i,
        {
            if self[i] != other[i] {
                return false;
            }
            i = i + 1;
        }
        assert(self@ =~= other@);
        true
    }

    fn copy_key(&self) -> (r: Self) {
        let mut out: Vec<usize> = Vec::new();
        let mut i: usize = 0;
        while i < self.len()
            invariant
                i <= self.len(),
                out@ == self@.subrange(0, i as int),
            decreases self.len() - i,
        {
            out.push(self[i]);
            assert(self@.subrange(0, i as int).push(self@[i as int]) =~= self@.subrange(0, i + 1));
            i = i + 1;
        }
        assert(self@.subrange(0, self@.len() as int) =~= self@);
        out
    }
}

/// A value of an [`AssocMap`] that can be copied with its view kept.
pub trait MapValue: View + Sized {
    /// A copy with the same view.
    fn copy_value(&self) -> (r: Self)
        ensures
            r@ == self@,
    ;
}

/// The map that a sequence of key-value pairs denotes: later pairs win.
pub open spec fn pairs_to_map<K: MapKey, V: View>(pairs: Seq<(K, V)>) -> Map<K::V, V::V>
    decreases pairs.len(),
{
    if pairs.len() == 0 {
        Map::empty()
    } else {
        pairs_to_map(pairs.drop_last()).insert(pairs.last().0@, pairs.last().1@)
    }
}

/// No two pairs of the sequence have the same key.
pub open spec fn distinct_keys<K: MapKey, V: View>(pairs: Seq<(K, V)>) -> bool {
    forall|i: int, j: int| 0 <= i < j < pairs.len() ==> pairs[i].0@ != pairs[j].0@
}

pub proof fn lemma_pairs_to_map_contains<K: MapKey, V: View>(pairs: Seq<(K, V)>, key: K::V)
    ensures
        pairs_to_map(pairs).contains_key(key) <==> exists|i: int|
            0 <= i < pairs.len() && #[trigger] pairs[i].0@ == key,
    decreases pairs.len(),
{
    if pairs.len() > 0 {
        let front = pairs.drop_last();
        lemma_pairs_to_map_contains(front, key);
        if pairs_to_map(pairs).contains_key(key) {
            if pairs.last().0@ == key {
                assert(pairs[pairs.len() - 1].0@ == key);
            } else {
                let i = choose|i: int| 0 <= i < front.len() && #[trigger] front[i].0@ == key;
                assert(pairs[i].0@ == key);
            }
        }
        if exists|i: int| 0 <= i < pairs.len() && #[trigger] pairs[i].0@ == key {
            let i = choose|i: int| 0 <= i < pairs.len() && #[trigger] pairs[i].0@ == key;
            if i < pairs.len() - 1 {
                assert(front[i].0@ == key);
            }
        }
    }
}

pub proof fn lemma_pairs_to_map_index<K: MapKey, V: View>(pairs: Seq<(K, V)>, i: int)
    requires
        distinct_keys(pairs),
        0 <= i < pairs.len(),
    ensures
        pairs_to_map(pairs).contains_key(pairs[i].0@),
        pairs_to_map(pairs)[pairs[i].0@] == pairs[i].1@,
    decreases pairs.len(),
{
    let front = pairs.drop_last();
    if i < pairs.len() - 1 {
        assert(distinct_keys(front)) by {
            assert forall|a: int, b: int| 0 <= a < b < front.len() implies front[a].0@
                != front[b].0@ by {
                assert(pairs[a].0@ != pairs[b].0@);
            }
        }
        lemma_pairs_to_map_index(front, i);
        assert(front[i] == pairs[i]);
        assert(pairs[i].0@ != pairs[pairs.len() - 1].0@);
    }
}

pub proof fn lemma_pairs_to_map_len<K: MapKey, V: View>(pairs: Seq<(K, V)>)
    requires
        distinct_keys(pairs),
    ensures
        pairs_to_map(pairs).dom().finite(),
        pairs_to_map(pairs).dom().len() == pairs.len(),
    decreases pairs.len(),
{
    if pairs.len() > 0 {
        let front = pairs.drop_last();
        assert(distinct_keys(front)) by {
            assert forall|a: int, b: int| 0 <= a < b < front.len() implies front[a].0@
                != front[b].0@ by {
                assert(pairs[a].0@ != pairs[b].0@);
            }
        }
        lemma_pairs_to_map_len(front);
        lemma_pairs_to_map_contains(front, pairs.last().0@);
        if pairs_to_map(front).contains_key(pairs.last().0@) {
            let i = choose|i: int| 0 <= i < front.len() && #[trigger] front[i].0@ == pairs.last().0@;
            assert(pairs[i].0@ != pairs[pairs.len() - 1].0@);
        }
        assert(pairs_to_map(pairs).dom() =~= pairs_to_map(front).dom().insert(pairs.last().0@));
    }
}

/// A map is the one that distinct pairs denote as soon as it has their keys
/// and, under each, the paired value.
pub proof fn lemma_pairs_to_map_unique<K: MapKey, V: View>(pairs: Seq<(K, V)>, m: Map<K::V, V::V>)
    requires
        distinct_keys(pairs),
        forall|key: K::V|
            m.contains_key(key) <==> exists|i: int|
                0 <= i < pairs.len() && #[trigger] pairs[i].0@ == key,
        forall|i: int| 0 <= i < pairs.len() ==> m[#[trigger] pairs[i].0@] == pairs[i].1@,
    ensures
        m == pairs_to_map(pairs),
{
    let n = pairs_to_map(pairs);
    assert forall|key: K::V| m.contains_key(key) == n.contains_key(key) by {
        lemma_pairs_to_map_contains(pairs, key);
    }
    assert forall|key: K::V| m.contains_key(key) implies m[key] == n[key] by {
        let i = choose|i: int| 0 <= i < pairs.len() && #[trigger] pairs[i].0@ == key;
        lemma_pairs_to_map_index(pairs, i);
    }
    assert(m =~= n);
}

/// A finite map from key views to value views, kept as a list of pairs with
/// distinct keys.
pub struct AssocMap<K: MapKey, V: View> {
    entries: Vec<(K, V)>,
}

impl<K: MapKey, V: View> View for AssocMap<K, V> {
    type V = Map<K::V, V::V>;

    closed spec fn view(&self) -> Map<K::V, V::V> {
        pairs_to_map(self.entries@)
    }
}

impl<K: MapKey, V: View> AssocMap<K, V> {
    #[verifier::type_invariant]
    spec fn well_formed(self) -> bool {
        distinct_keys(self.entries@)
    }

    /// The empty map.
    pub fn new() -> (r: Self)
        ensures
            r@ == Map::<K::V, V::V>::empty(),
    {
        AssocMap { entries: Vec::new() }
    }

    /// The number of keys.
    pub fn len(&self) -> (r: usize)
        ensures
            self@.dom().finite(),
            r == self@.dom().len(),
    {
        proof {
            use_type_invariant(self);
            lemma_pairs_to_map_len(self.entries@);
        }
        self.entries.len()
    }

    fn position(&self, key: &K) -> (r: Option<usize>)
        ensures
            match r {
                Some(i) => i < self.entries@.len() && self.entries@[i as int].0@ == key@,
                None => forall|j: int| 0 <= j < self.entries@.len() ==> self.entries@[j].0@ != key@,
            },
            r is Some <==> self@.contains_key(key@),
    {
        let mut i: usize = 0;
        while i < self.entries.len()
            invariant
                i <= self.entries@.len(),
                forall|j: int| 0 <= j < i ==> self.entries@[j].0@ != key@,
            decreases self.entries@.len() - i,
        {
            if self.entries[i].0.same_key(key) {
                proof {
                    lemma_pairs_to_map_contains(self.entries@, key@);
                }
                return Some(i);
            }
            i = i + 1;
        }
        proof {
            lemma_pairs_to_map_contains(self.entries@, key@);
        }
        None
    }

    /// Whether the key is present.
    pub fn contains_key(&self, key: &K) -> (r: bool)
        ensures
            r == self@.contains_key(key@),
    {
        self.position(key).is_some()
    }

    /// The value under the key, if the key is present.
    pub fn get(&self, key: &K) -> (r: Option<&V>)
        ensures
            r is Some <==> self@.contains_key(key@),
            r is Some ==> r->0@ == self@[key@],
    {
        match self.position(key) {
            Some(i) => {
                proof {
                    use_type_invariant(self);
                    lemma_pairs_to_map_index(self.entries@, i as int);
                }
                Some(&self.entries[i].1)
            },
            None => None,
        }
    }

    /// Puts the value under the key and hands back the value it replaces.
    pub fn insert(&mut self, key: K, value: V) -> (r: Option<V>)
        ensures
            final(self)@ == old(self)@.insert(key@, value@),
            r is Some <==> old(self)@.contains_key(key@),
            r is Some ==> r->0@ == old(self)@[key@],
    {
        proof {
            use_type_invariant(&*self);
        }
        let found = self.position(&key);
        let mut entries: Vec<(K, V)> = Vec::new();
        core::mem::swap(&mut entries, &mut self.entries);
        let ghost before = entries@;
        let previous = match found {
            Some(i) => {
                let pair = entries.remove(i);
                proof {
                    lemma_pairs_remove(before, i as int);
                    lemma_pairs_to_map_index(before, i as int);
                }
                Some(pair.1)
            },
            None => None,
        };
        let ghost middle = entries@;
        entries.push((key, value));
        proof {
            assert(entries@.drop_last() =~= middle);
            lemma_pairs_to_map_contains(middle, key@);
            assert(distinct_keys(entries@)) by {
                assert forall|a: int, b: int| 0 <= a < b < entries@.len() implies entries@[a].0@
                    != entries@[b].0@ by {
                    if b == entries@.len() - 1 {
                        assert(middle[a].0@ != key@);
                    } else {
                        assert(middle[a].0@ != middle[b].0@);
                    }
                }
            }
            assert(pairs_to_map(entries@) =~= pairs_to_map(before).insert(key@, value@));
        }
        self.entries = entries;
        previous
    }

    /// Takes the key out and hands back the value it had.
    pub fn remove(&mut self, key: &K) -> (r: Option<V>)
        ensures
            final(self)@ == old(self)@.remove(key@),
            r is Some <==> old(self)@.contains_key(key@),
            r is Some ==> r->0@ == old(self)@[key@],
    {
        proof {
            use_type_invariant(&*self);
        }
        match self.position(key) {
            Some(i) => {
                let mut entries: Vec<(K, V)> = Vec::new();
                core::mem::swap(&mut entries, &mut self.entries);
                let ghost before = entries@;
                let pair = entries.remove(i);
                proof {
                    lemma_pairs_remove(before, i as int);
                    lemma_pairs_to_map_index(before, i as int);
                }
                self.entries = entries;
                Some(pair.1)
            },
            None => {
                assert(self@ =~= self@.remove(key@));
                None
            },
        }
    }

    /// Takes some pair out of a map that is not empty.
    pub fn take_any(&mut self) -> (r: Option<(K, V)>)
        ensures
            old(self)@.dom().finite(),
            final(self)@.dom().finite(),
            match r {
                Some((key, value)) => {
                    &&& old(self)@.contains_key(key@)
                    &&& old(self)@[key@] == value@
                    &&& final(self)@ == old(self)@.remove(key@)
                    &&& final(self)@.dom().len() + 1 == old(self)@.dom().len()
                },
                None => old(self)@ == Map::<K::V, V::V>::empty() && final(self)@ == old(self)@,
            },
    {
        proof {
            use_type_invariant(&*self);
        }
        let mut entries: Vec<(K, V)> = Vec::new();
        core::mem::swap(&mut entries, &mut self.entries);
        let ghost before = entries@;
        let popped = entries.pop();
        proof {
            lemma_pairs_to_map_len(before);
            if before.len() > 0 {
                assert(entries@ =~= before.remove(before.len() - 1));
                lemma_pairs_remove(before, before.len() - 1);
                lemma_pairs_to_map_index(before, before.len() - 1);
                lemma_pairs_to_map_len(entries@);
            } else {
                assert(pairs_to_map(before) =~= Map::<K::V, V::V>::empty());
            }
        }
        self.entries = entries;
        popped
    }
}

impl<K: MapKey, V: View> AssocMap<K, V> {
    /// A copy of every key, each once.
    pub fn keys(&self) -> (r: Vec<K>)
        ensures
            self@.dom().finite(),
            r@.len() == self@.dom().len(),
            forall|i: int| 0 <= i < r@.len() ==> self@.contains_key(#[trigger] r@[i]@),
            forall|key: K::V|
                self@.contains_key(key) ==> exists|i: int| 0 <= i < r@.len() && #[trigger] r@[i]@ == key,
            forall|i: int, j: int| 0 <= i < j < r@.len() ==> r@[i]@ != r@[j]@,
    {
        proof {
            use_type_invariant(self);
            lemma_pairs_to_map_len(self.entries@);
        }
        let mut out: Vec<K> = Vec::new();
        let mut i: usize = 0;
        while i < self.entries.len()
            invariant
                i <= self.entries@.len(),
                out@.len() == i,
                forall|j: int| 0 <= j < i ==> #[trigger] out@[j]@ == self.entries@[j].0@,
            decreases self.entries@.len() - i,
        {
            out.push(self.entries[i].0.copy_key());
            i = i + 1;
        }
        proof {
            assert forall|j: int| 0 <= j < out@.len() implies self@.contains_key(
                #[trigger] out@[j]@,
            ) by {
                lemma_pairs_to_map_index(self.entries@, j);
            }
            assert forall|key: K::V| self@.contains_key(key) implies exists|j: int|
                0 <= j < out@.len() && #[trigger] out@[j]@ == key by {
                lemma_pairs_to_map_contains(self.entries@, key);
                let j = choose|j: int| 0 <= j < self.entries@.len() && #[trigger] self.entries@[j].0@ == key;
                assert(out@[j]@ == key);
            }
            assert forall|a: int, b: int| 0 <= a < b < out@.len() implies out@[a]@ != out@[b]@ by {
                assert(out@[a]@ == self.entries@[a].0@);
                assert(out@[b]@ == self.entries@[b].0@);
            }
        }
        out
    }
}

impl<K: MapKey, V: MapValue> MapValue for AssocMap<K, V> {
    fn copy_value(&self) -> (r: Self) {
        proof {
            use_type_invariant(self);
        }
        let mut entries: Vec<(K, V)> = Vec::new();
        let mut i: usize = 0;
        while i < self.entries.len()
            invariant
                i <= self.entries@.len(),
                entries@.len() == i,
                forall|j: int|
                    0 <= j < i ==> (#[trigger] entries@[j]).0@ == self.entries@[j].0@
                        && entries@[j].1@ == self.entries@[j].1@,
            decreases self.entries@.len() - i,
        {
            let key = self.entries[i].0.copy_key();
            let value = self.entries[i].1.copy_value();
            entries.push((key, value));
            i = i + 1;
        }
        proof {
            assert(distinct_keys(entries@)) by {
                assert forall|a: int, b: int| 0 <= a < b < entries@.len() implies entries@[a].0@
                    != entries@[b].0@ by {
                    assert(entries@[a].0@ == self.entries@[a].0@);
                    assert(entries@[b].0@ == self.entries@[b].0@);
                    assert(self.entries@[a].0@ != self.entries@[b].0@);
                }
            }
            let m = pairs_to_map(self.entries@);
            assert forall|key: K::V|
                m.contains_key(key) <==> exists|j: int|
                    0 <= j < entries@.len() && #[trigger] entries@[j].0@ == key by {
                lemma_pairs_to_map_contains(self.entries@, key);
                if m.contains_key(key) {
                    let j = choose|j: int|
                        0 <= j < self.entries@.len() && #[trigger] self.entries@[j].0@ == key;
                    assert(entries@[j].0@ == key);
                }
                if exists|j: int| 0 <= j < entries@.len() && #[trigger] entries@[j].0@ == key {
                    let j = choose|j: int| 0 <= j < entries@.len() && #[trigger] entries@[j].0@ == key;
                    assert(self.entries@[j].0@ == key);
                }
            }
            assert forall|j: int| 0 <= j < entries@.len() implies m[#[trigger] entries@[j].0@]
                == entries@[j].1@ by {
                lemma_pairs_to_map_index(self.entries@, j);
            }
            lemma_pairs_to_map_unique(entries@, m);
        }
        AssocMap { entries }
    }
}

/// Taking the pair at an index out of distinct pairs removes its key from
/// the map and leaves the pairs distinct.
pub proof fn lemma_pairs_remove<K: MapKey, V: View>(pairs: Seq<(K, V)>, i: int)
    requires
        distinct_keys(pairs),
        0 <= i < pairs.len(),
    ensures
        distinct_keys(pairs.remove(i)),
        pairs_to_map(pairs.remove(i)) == pairs_to_map(pairs).remove(pairs[i].0@),
{
    let rest = pairs.remove(i);
    assert forall|a: int, b: int| 0 <= a < b < rest.len() implies rest[a].0@ != rest[b].0@ by {
        let a2 = if a < i { a } else { a + 1 };
        let b2 = if b < i { b } else { b + 1 };
        assert(pairs[a2].0@ != pairs[b2].0@);
    }
    let m = pairs_to_map(pairs).remove(pairs[i].0@);
    assert forall|key: K::V|
        m.contains_key(key) <==> exists|j: int| 0 <= j < rest.len() && #[trigger] rest[j].0@ == key by {
        lemma_pairs_to_map_contains(pairs, key);
        if m.contains_key(key) {
            let j = choose|j: int| 0 <= j < pairs.len() && #[trigger] pairs[j].0@ == key;
            let j2 = if j < i { j } else { j - 1 };
            assert(rest[j2].0@ == key);
        }
        if exists|j: int| 0 <= j < rest.len() && #[trigger] rest[j].0@ == key {
            let j = choose|j: int| 0 <= j < rest.len() && #[trigger] rest[j].0@ == key;
            let j2 = if j < i { j } else { j + 1 };
            assert(pairs[j2].0@ == key);
            assert(pairs[j2].0@ != pairs[i].0@);
        }
    }
    assert forall|j: int| 0 <= j < rest.len() implies m[#[trigger] rest[j].0@] == rest[j].1@ by {
        let j2 = if j < i { j } else { j + 1 };
        lemma_pairs_to_map_index(pairs, j2);
        assert(pairs[j2].0@ != pairs[i].0@);
    }
    lemma_pairs_to_map_unique(rest, m);
}

} // verus!
