use vstd::prelude::*;

verus! {

/// A record stored under a textual key; its model is what contracts speak of.
pub trait Keyed: Sized + View {
    /// The key of a record, read from its model.
    spec fn key_of(m: Self::V) -> Seq<char>;

    fn key(&self) -> (r: &String)
        ensures
            r@ == Self::key_of(self@),
    ;

    fn duplicate(&self) -> (r: Self)
        ensures
            r@ == self@,
    ;
}

/// Records kept in insertion order, at most one per key.
pub struct Table<V> {
    pub entries: Vec<V>,
}

/// Whether some record of `s` has key `k`.
pub open spec fn seq_has_key<V: Keyed>(s: Seq<V::V>, k: Seq<char>) -> bool {
    exists|i: int| 0 <= i < s.len() && #[trigger] V::key_of(s[i]) == k
}

/// The position of the record of `s` under key `k`, where there is one.
pub open spec fn seq_index_of<V: Keyed>(s: Seq<V::V>, k: Seq<char>) -> int {
    choose|i: int| 0 <= i < s.len() && #[trigger] V::key_of(s[i]) == k
}

/// The record of `s` under key `k`, if any.
pub open spec fn seq_lookup<V: Keyed>(s: Seq<V::V>, k: Seq<char>) -> Option<V::V> {
    if seq_has_key::<V>(s, k) {
        Some(s[seq_index_of::<V>(s, k)])
    } else {
        None
    }
}

/// The texts held by a sequence of strings.
pub open spec fn texts(v: Seq<String>) -> Seq<Seq<char>> {
    v.map_values(|s: String| s@)
}

/// A copy of a list of strings.
pub fn copy_texts(v: &Vec<String>) -> (r: Vec<String>)
    ensures
        texts(r@) == texts(v@),
{
    let mut r: Vec<String> = Vec::new();
    let mut i: usize = 0;
    while i < v.len()
        invariant
            i <= v@.len(),
            r@.len() == i,
            forall|j: int| 0 <= j < i ==> #[trigger] r@[j]@ == v@[j]@,
        decreases v@.len() - i,
    {
        let c = v[i].clone();
        r.push(c);
        i = i + 1;
    }
    assert(texts(r@) =~= texts(v@));
    r
}

/// No two records of `s` share a key.
pub open spec fn keys_unique<V: Keyed>(s: Seq<V::V>) -> bool {
    forall|i: int, j: int|
        0 <= i < s.len() && 0 <= j < s.len() && i != j ==> #[trigger] V::key_of(s[i])
            != #[trigger] V::key_of(s[j])
}

/// The page of `s` that starts at `offset` and holds at most `limit` records.
pub open spec fn page<T>(s: Seq<T>, limit: nat, offset: nat) -> Seq<T> {
    if offset >= s.len() {
        Seq::empty()
    } else if offset + limit >= s.len() {
        s.subrange(offset as int, s.len() as int)
    } else {
        s.subrange(offset as int, (offset + limit) as int)
    }
}

/// Under unique keys, the record at position `i` is the one found by its key.
pub proof fn lemma_lookup_at<V: Keyed>(s: Seq<V::V>, i: int)
    requires
        keys_unique::<V>(s),
        0 <= i < s.len(),
    ensures
        seq_has_key::<V>(s, V::key_of(s[i])),
        seq_lookup::<V>(s, V::key_of(s[i])) == Some(s[i]),
        seq_index_of::<V>(s, V::key_of(s[i])) == i,
{
    let k = V::key_of(s[i]);
    assert(V::key_of(s[i]) == k);
    let j = choose|j: int| 0 <= j < s.len() && #[trigger] V::key_of(s[j]) == k;
    assert(V::key_of(s[j]) == k);
}

/// Removing the record under a key leaves no record under it.
pub proof fn lemma_removed_key_absent<V: Keyed>(s: Seq<V::V>, k: Seq<char>)
    requires
        keys_unique::<V>(s),
        seq_has_key::<V>(s, k),
    ensures
        !seq_has_key::<V>(s.remove(seq_index_of::<V>(s, k)), k),
        seq_lookup::<V>(s.remove(seq_index_of::<V>(s, k)), k) is None,
{
    let i = seq_index_of::<V>(s, k);
    let t = s.remove(i);
    assert(V::key_of(s[i]) == k);
    if seq_has_key::<V>(t, k) {
        let j = choose|j: int| 0 <= j < t.len() && #[trigger] V::key_of(t[j]) == k;
        let j0 = if j < i { j } else { j + 1 };
        assert(t[j] == s[j0]);
    }
}

/// Two sequences with the same keys at the same positions, and the same records
/// except at position `i`, agree on every lookup but that of the key at `i`.
proof fn lemma_lookup_frame<V: Keyed>(s0: Seq<V::V>, s: Seq<V::V>, i: int)
    requires
        keys_unique::<V>(s0),
        keys_unique::<V>(s),
        s0.len() == s.len(),
        0 <= i < s.len(),
        forall|j: int| 0 <= j < s.len() ==> #[trigger] V::key_of(s[j]) == V::key_of(s0[j]),
        forall|j: int| 0 <= j < s.len() && j != i ==> #[trigger] s[j] == s0[j],
    ensures
        forall|k: Seq<char>| #[trigger] seq_has_key::<V>(s, k) == seq_has_key::<V>(s0, k),
        forall|k: Seq<char>|
            k != V::key_of(s[i]) ==> #[trigger] seq_lookup::<V>(s, k) == seq_lookup::<V>(s0, k),
{
    assert forall|k: Seq<char>| #[trigger] seq_has_key::<V>(s, k) == seq_has_key::<V>(s0, k) by {
        if seq_has_key::<V>(s, k) {
            let j = choose|j: int| 0 <= j < s.len() && #[trigger] V::key_of(s[j]) == k;
            assert(V::key_of(s0[j]) == k);
        }
        if seq_has_key::<V>(s0, k) {
            let j = choose|j: int| 0 <= j < s0.len() && #[trigger] V::key_of(s0[j]) == k;
            assert(V::key_of(s[j]) == k);
        }
    }
    assert forall|k: Seq<char>| k != V::key_of(s[i]) implies #[trigger] seq_lookup::<V>(s, k)
        == seq_lookup::<V>(s0, k) by {
        if seq_has_key::<V>(s, k) {
            let j = choose|j: int| 0 <= j < s.len() && #[trigger] V::key_of(s[j]) == k;
            assert(j != i);
            lemma_lookup_at::<V>(s, j);
            lemma_lookup_at::<V>(s0, j);
        }
    }
}

impl<V: Keyed> View for Table<V> {
    type V = Seq<V::V>;

    open spec fn view(&self) -> Seq<V::V> {
        self.entries@.map_values(|v: V| v@)
    }
}

impl<V: Keyed> Table<V> {
    pub open spec fn wf(&self) -> bool {
        keys_unique::<V>(self@)
    }

    pub open spec fn has_key(&self, k: Seq<char>) -> bool {
        seq_has_key::<V>(self@, k)
    }

    pub open spec fn lookup(&self, k: Seq<char>) -> Option<V::V> {
        seq_lookup::<V>(self@, k)
    }

    pub open spec fn index_of(&self, k: Seq<char>) -> int {
        seq_index_of::<V>(self@, k)
    }

    pub fn new() -> (r: Self)
        ensures
            r.wf(),
            r@ == Seq::<V::V>::empty(),
    {
        let r = Table { entries: Vec::new() };
        assert(r@ =~= Seq::<V::V>::empty());
        r
    }

    pub fn len(&self) -> (r: usize)
        ensures
            r == self@.len(),
    {
        self.entries.len()
    }

    /// The position of the record with key `k`.
    pub fn position(&self, k: &String) -> (r: Option<usize>)
        requires
            self.wf(),
        ensures
            match r {
                Some(i) => i < self@.len() && V::key_of(self@[i as int]) == k@ && self.has_key(k@)
                    && self.lookup(k@) == Some(self@[i as int]) && i == self.index_of(k@),
                None => !self.has_key(k@) && self.lookup(k@) == None::<V::V>,
            },
    {
        let mut i: usize = 0;
        while i < self.entries.len()
            invariant
                self.wf(),
                i <= self@.len(),
                forall|j: int| 0 <= j < i ==> #[trigger] V::key_of(self@[j]) != k@,
            decreases self@.len() - i,
        {
            if *self.entries[i].key() == *k {
                proof {
                    lemma_lookup_at::<V>(self@, i as int);
                }
                return Some(i);
            }
            i = i + 1;
        }
        None
    }

    /// A copy of the record with key `k`, if any.
    pub fn get(&self, k: &String) -> (r: Option<V>)
        requires
            self.wf(),
        ensures
            r matches Some(v) ==> self.lookup(k@) == Some(v@),
            r is None ==> self.lookup(k@) is None,
    {
        match self.position(k) {
            Some(i) => Some(self.entries[i].duplicate()),
            None => None,
        }
    }

    pub fn contains_key(&self, k: &String) -> (r: bool)
        requires
            self.wf(),
        ensures
            r == self.has_key(k@),
    {
        self.position(k).is_some()
    }

    /// Copies of the records of the page at `offset` of at most `limit` records.
    pub fn page(&self, limit: usize, offset: usize) -> (r: Vec<V>)
        ensures
            r@.map_values(|v: V| v@) == page(self@, limit as nat, offset as nat),
    {
        let mut r: Vec<V> = Vec::new();
        let mut i: usize = offset;
        let mut taken: usize = 0;
        while i < self.entries.len() && taken < limit
            invariant
                offset <= i,
                taken == i - offset,
                taken <= limit,
                offset < self@.len() ==> i <= self@.len(),
                offset < self@.len() ==> r@.map_values(|v: V| v@) == self@.subrange(
                    offset as int,
                    i as int,
                ),
                offset >= self@.len() ==> r@.len() == 0,
            decreases self@.len() - i,
        {
            let v = self.entries[i].duplicate();
            r.push(v);
            i = i + 1;
            taken = taken + 1;
            proof {
                assert(r@.map_values(|v: V| v@) =~= self@.subrange(offset as int, i as int));
            }
        }
        proof {
            assert(r@.map_values(|v: V| v@) =~= page(self@, limit as nat, offset as nat));
        }
        r
    }

    /// Appends a record whose key is not yet present.
    pub fn push_new(&mut self, v: V)
        requires
            old(self).wf(),
            !old(self).has_key(V::key_of(v@)),
        ensures
            final(self).wf(),
            final(self)@ == old(self)@.push(v@),
            final(self).lookup(V::key_of(v@)) == Some(v@),
            forall|k: Seq<char>|
                k != V::key_of(v@) ==> #[trigger] final(self).lookup(k) == old(self).lookup(k),
            forall|k: Seq<char>|
                #[trigger] final(self).has_key(k) == (old(self).has_key(k) || k == V::key_of(v@)),
    {
        let ghost s0 = self@;
        let ghost m = v@;
        self.entries.push(v);
        proof {
            let s = self@;
            assert(s =~= s0.push(m));
            assert forall|i: int, j: int|
                0 <= i < s.len() && 0 <= j < s.len() && i != j implies #[trigger] V::key_of(s[i])
                != #[trigger] V::key_of(s[j]) by {
                if i == s.len() - 1 {
                    assert(s[j] == s0[j]);
                } else if j == s.len() - 1 {
                    assert(s[i] == s0[i]);
                } else {
                    assert(s[i] == s0[i] && s[j] == s0[j]);
                }
            }
            lemma_lookup_at::<V>(s, s.len() - 1);
            lemma_extend_lookup::<V>(s0, m);
        }
    }

    /// Replaces the record at position `i` by one with the same key.
    pub fn replace_at(&mut self, i: usize, v: V)
        requires
            old(self).wf(),
            i < old(self)@.len(),
            V::key_of(v@) == V::key_of(old(self)@[i as int]),
        ensures
            final(self).wf(),
            final(self)@ == old(self)@.update(i as int, v@),
            final(self).lookup(V::key_of(v@)) == Some(v@),
            forall|k: Seq<char>|
                k != V::key_of(v@) ==> #[trigger] final(self).lookup(k) == old(self).lookup(k),
            forall|k: Seq<char>| #[trigger] final(self).has_key(k) == old(self).has_key(k),
    {
        let ghost s0 = self@;
        let ghost m = v@;
        self.entries.set(i, v);
        proof {
            let s = self@;
            assert(s =~= s0.update(i as int, m));
            assert forall|a: int, b: int|
                0 <= a < s.len() && 0 <= b < s.len() && a != b implies #[trigger] V::key_of(s[a])
                != #[trigger] V::key_of(s[b]) by {
                assert(V::key_of(s[a]) == V::key_of(s0[a]));
                assert(V::key_of(s[b]) == V::key_of(s0[b]));
            }
            lemma_lookup_at::<V>(s, i as int);
            lemma_lookup_frame::<V>(s0, s, i as int);
        }
    }

    /// Removes the record at position `i`, keeping the order of the others.
    pub fn remove_at(&mut self, i: usize) -> (r: V)
        requires
            old(self).wf(),
            i < old(self)@.len(),
        ensures
            final(self).wf(),
            r@ == old(self)@[i as int],
            final(self)@ == old(self)@.remove(i as int),
            !final(self).has_key(V::key_of(r@)),
            final(self).lookup(V::key_of(r@)) == None::<V::V>,
            forall|k: Seq<char>|
                k != V::key_of(r@) ==> #[trigger] final(self).lookup(k) == old(self).lookup(k),
            forall|k: Seq<char>|
                #[trigger] final(self).has_key(k) == (old(self).has_key(k) && k != V::key_of(
                    r@,
                )),
    {
        let ghost s0 = self@;
        let r = self.entries.remove(i);
        proof {
            let s = self@;
            let rk = V::key_of(r@);
            assert(s =~= s0.remove(i as int));
            assert forall|a: int, b: int|
                0 <= a < s.len() && 0 <= b < s.len() && a != b implies #[trigger] V::key_of(s[a])
                != #[trigger] V::key_of(s[b]) by {
                let a0 = if a < i { a } else { a + 1 };
                let b0 = if b < i { b } else { b + 1 };
                assert(s[a] == s0[a0]);
                assert(s[b] == s0[b0]);
            }
            assert forall|k: Seq<char>| #[trigger]
                seq_has_key::<V>(s, k) == (seq_has_key::<V>(s0, k) && k != rk) by {
                if seq_has_key::<V>(s, k) {
                    let j = choose|j: int| 0 <= j < s.len() && #[trigger] V::key_of(s[j]) == k;
                    let j0 = if j < i { j } else { j + 1 };
                    assert(s[j] == s0[j0]);
                    assert(V::key_of(s0[j0]) == k);
                    assert(V::key_of(s0[i as int]) == rk);
                }
                if seq_has_key::<V>(s0, k) && k != rk {
                    let j = choose|j: int| 0 <= j < s0.len() && #[trigger] V::key_of(s0[j]) == k;
                    let j1 = if j < i { j } else { j - 1 };
                    assert(s[j1] == s0[j]);
                    assert(V::key_of(s[j1]) == k);
                }
            }
            assert forall|k: Seq<char>| k != rk implies #[trigger] seq_lookup::<V>(s, k)
                == seq_lookup::<V>(s0, k) by {
                if seq_has_key::<V>(s, k) {
                    let j = choose|j: int| 0 <= j < s.len() && #[trigger] V::key_of(s[j]) == k;
                    let j0 = if j < i { j } else { j + 1 };
                    assert(s[j] == s0[j0]);
                    lemma_lookup_at::<V>(s, j);
                    lemma_lookup_at::<V>(s0, j0);
                }
            }
        }
        r
    }
}

impl<V: Keyed> Table<V> {
    /// Adds `v` unless its key is present; tells whether it was added.
    pub fn insert_if_absent(&mut self, v: V) -> (r: bool)
        requires
            old(self).wf(),
        ensures
            final(self).wf(),
            r == !old(self).has_key(V::key_of(v@)),
            r ==> final(self)@ == old(self)@.push(v@),
            !r ==> final(self)@ == old(self)@,
    {
        if self.contains_key(v.key()) {
            false
        } else {
            self.push_new(v);
            true
        }
    }

    /// Replaces the record under the key of `v`, where there is one, and
    /// returns the record it replaced.
    pub fn update_existing(&mut self, v: V) -> (r: Option<V>)
        requires
            old(self).wf(),
        ensures
            final(self).wf(),
            r is Some == old(self).has_key(V::key_of(v@)),
            r matches Some(p) ==> old(self).lookup(V::key_of(v@)) == Some(p@) && final(self)@
                == old(self)@.update(old(self).index_of(V::key_of(v@)), v@),
            r is None ==> final(self)@ == old(self)@,
    {
        match self.position(v.key()) {
            Some(i) => {
                let p = self.entries[i].duplicate();
                self.replace_at(i, v);
                Some(p)
            },
            None => None,
        }
    }

    /// Removes the record under key `k`, where there is one, and returns it.
    pub fn remove_key(&mut self, k: &String) -> (r: Option<V>)
        requires
            old(self).wf(),
        ensures
            final(self).wf(),
            r is Some == old(self).has_key(k@),
            r matches Some(p) ==> old(self).lookup(k@) == Some(p@) && final(self)@ == old(
                self,
            )@.remove(old(self).index_of(k@)),
            r is None ==> final(self)@ == old(self)@,
    {
        match self.position(k) {
            Some(i) => Some(self.remove_at(i)),
            None => None,
        }
    }
}

/// Appending a record under a new key leaves the other lookups as they were.
proof fn lemma_extend_lookup<V: Keyed>(s0: Seq<V::V>, m: V::V)
    requires
        keys_unique::<V>(s0.push(m)),
    ensures
        forall|k: Seq<char>|
            k != V::key_of(m) ==> #[trigger] seq_lookup::<V>(s0.push(m), k) == seq_lookup::<V>(
                s0,
                k,
            ),
        forall|k: Seq<char>|
            #[trigger] seq_has_key::<V>(s0.push(m), k) == (seq_has_key::<V>(s0, k) || k
                == V::key_of(m)),
{
    let s = s0.push(m);
    assert(keys_unique::<V>(s0)) by {
        assert forall|a: int, b: int|
            0 <= a < s0.len() && 0 <= b < s0.len() && a != b implies #[trigger] V::key_of(s0[a])
            != #[trigger] V::key_of(s0[b]) by {
            assert(s[a] == s0[a] && s[b] == s0[b]);
        }
    }
    assert forall|k: Seq<char>| #[trigger]
        seq_has_key::<V>(s, k) == (seq_has_key::<V>(s0, k) || k == V::key_of(m)) by {
        if seq_has_key::<V>(s0, k) {
            let j = choose|j: int| 0 <= j < s0.len() && #[trigger] V::key_of(s0[j]) == k;
            assert(s[j] == s0[j]);
        }
        if k == V::key_of(m) {
            assert(s[s0.len() as int] == m);
        }
        if seq_has_key::<V>(s, k) && k != V::key_of(m) {
            let j = choose|j: int| 0 <= j < s.len() && #[trigger] V::key_of(s[j]) == k;
            assert(s[j] == s0[j]);
        }
    }
    assert forall|k: Seq<char>| k != V::key_of(m) implies #[trigger] seq_lookup::<V>(s, k)
        == seq_lookup::<V>(s0, k) by {
        if seq_has_key::<V>(s, k) {
            let j = choose|j: int| 0 <= j < s.len() && #[trigger] V::key_of(s[j]) == k;
            assert(j < s0.len());
            assert(s[j] == s0[j]);
            lemma_lookup_at::<V>(s, j);
            lemma_lookup_at::<V>(s0, j);
        }
    }
}

} // verus!
