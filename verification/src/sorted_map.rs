//! An ordered association of keys to values.
use vstd::prelude::*;
use vstd::string::*;

use crate::sharing::Replica;

verus! {

/// How two keys compare.
#[derive(Clone, Copy, PartialEq, Eq, Structural)]
pub enum Order {
    Less,
    Equal,
    Greater,
}

/// A key type with a strict total order on what its values stand for.
pub trait MapKey: Sized {
    /// What a key stands for; two keys are the same key when this is equal.
    type Key;

    /// What this key stands for.
    spec fn key(&self) -> Self::Key;

    /// The strict order.
    spec fn less(a: Self::Key, b: Self::Key) -> bool;

    /// No key is below itself.
    proof fn irreflexive(a: Self::Key)
        ensures
            !Self::less(a, a),
    ;

    /// The order is transitive.
    proof fn transitive(a: Self::Key, b: Self::Key, c: Self::Key)
        requires
            Self::less(a, b),
            Self::less(b, c),
        ensures
            Self::less(a, c),
    ;

    /// Compares two keys.
    fn compare(&self, other: &Self) -> (o: Order)
        ensures
            o == Order::Less ==> Self::less(self.key(), other.key()),
            o == Order::Equal ==> self.key() == other.key(),
            o == Order::Greater ==> Self::less(other.key(), self.key()),
    ;

    /// Another key that stands for the same.
    fn duplicate(&self) -> (k: Self)
        ensures
            k.key() == self.key(),
    ;
}

/// A map whose entries stand in the order of their keys.
pub struct SortedMap<K: MapKey, V> {
    entries: Vec<(K, V)>,
}

/// The entries are in strictly ascending order of their keys.
pub open spec fn ascending<K: MapKey, V>(entries: Seq<(K, V)>) -> bool {
    forall|i: int, j: int|
        #![trigger entries[i], entries[j]]
        0 <= i < j < entries.len() ==> K::less(entries[i].0.key(), entries[j].0.key())
}

/// Where `k` stands in the entries.
pub open spec fn is_at<K: MapKey, V>(entries: Seq<(K, V)>, k: K::Key, i: int) -> bool {
    0 <= i < entries.len() && entries[i].0.key() == k
}

/// The association that the entries make.
pub open spec fn association<K: MapKey, V>(entries: Seq<(K, V)>) -> Map<K::Key, V> {
    Map::new(
        |k: K::Key| exists|i: int| is_at(entries, k, i),
        |k: K::Key| entries[choose|i: int| is_at(entries, k, i)].1,
    )
}

proof fn lemma_distinct<K: MapKey, V>(entries: Seq<(K, V)>, i: int, j: int)
    requires
        ascending(entries),
        0 <= i < entries.len(),
        0 <= j < entries.len(),
        entries[i].0.key() == entries[j].0.key(),
    ensures
        i == j,
{
    K::irreflexive(entries[i].0.key());
    if i < j {
        assert(K::less(entries[i].0.key(), entries[j].0.key()));
    }
    if j < i {
        assert(K::less(entries[j].0.key(), entries[i].0.key()));
    }
}

/// Each entry is in the association, with its value.
pub proof fn lemma_entry<K: MapKey, V>(entries: Seq<(K, V)>, i: int)
    requires
        ascending(entries),
        0 <= i < entries.len(),
    ensures
        association(entries).contains_key(entries[i].0.key()),
        association(entries)[entries[i].0.key()] == entries[i].1,
{
    let k = entries[i].0.key();
    assert(is_at(entries, k, i));
    let j = choose|j: int| is_at(entries, k, j);
    lemma_distinct(entries, i, j);
}

/// Two ascending runs of entries with the same members make the same map.
proof fn lemma_domain_size<K: MapKey, V>(entries: Seq<(K, V)>)
    requires
        ascending(entries),
    ensures
        association(entries).dom().finite(),
        association(entries).len() == entries.len(),
    decreases entries.len(),
{
    if entries.len() == 0 {
        assert(association(entries) =~= Map::empty());
    } else {
        let front = entries.drop_last();
        let k = entries.last().0.key();
        assert(ascending(front)) by {
            assert forall|i: int, j: int|
                #![trigger front[i], front[j]]
                0 <= i < j < front.len() implies K::less(front[i].0.key(), front[j].0.key()) by {
                assert(front[i] == entries[i] && front[j] == entries[j]);
            }
        }
        lemma_domain_size(front);
        assert(!association(front).contains_key(k)) by {
            if association(front).contains_key(k) {
                let i = choose|i: int| is_at(front, k, i);
                assert(front[i] == entries[i]);
                lemma_distinct(entries, i, entries.len() - 1);
            }
        }
        assert(association(entries).dom() =~= association(front).dom().insert(k)) by {
            lemma_entry(entries, entries.len() - 1);
            assert forall|x: K::Key| #[trigger] association(front).contains_key(x) implies association(
                entries,
            ).contains_key(x) by {
                let i = choose|i: int| is_at(front, x, i);
                assert(is_at(entries, x, i));
            }
            assert forall|x: K::Key| #[trigger] association(entries).contains_key(x) && x
                != k implies association(front).contains_key(x) by {
                let i = choose|i: int| is_at(entries, x, i);
                assert(i != entries.len() - 1);
                assert(is_at(front, x, i));
            }
        }
    }
}

/// Putting an entry in its place is inserting into the association.
proof fn lemma_insert_at<K: MapKey, V>(entries: Seq<(K, V)>, at: int, k: K, v: V)
    requires
        ascending(entries),
        0 <= at <= entries.len(),
        forall|i: int| 0 <= i < at ==> K::less(#[trigger] entries[i].0.key(), k.key()),
        forall|i: int| at <= i < entries.len() ==> K::less(k.key(), #[trigger] entries[i].0.key()),
    ensures
        ascending(entries.insert(at, (k, v))),
        association(entries.insert(at, (k, v))) == association(entries).insert(k.key(), v),
        !association(entries).contains_key(k.key()),
{
    let out = entries.insert(at, (k, v));
    assert forall|i: int, j: int|
        #![trigger out[i], out[j]]
        0 <= i < j < out.len() implies K::less(out[i].0.key(), out[j].0.key()) by {
        let a = if i < at { i } else { i - 1 };
        let b = if j < at { j } else { j - 1 };
        if i != at && j != at {
            assert(out[i] == entries[a] && out[j] == entries[b]);
        } else if i == at {
            assert(out[j] == entries[b]);
            assert(K::less(k.key(), entries[b].0.key()));
        } else {
            assert(out[i] == entries[a]);
            assert(K::less(entries[a].0.key(), k.key()));
        }
    }
    assert(!association(entries).contains_key(k.key())) by {
        if association(entries).contains_key(k.key()) {
            let i = choose|i: int| is_at(entries, k.key(), i);
            K::irreflexive(k.key());
            assert(i < at ==> K::less(entries[i].0.key(), k.key()));
            assert(i >= at ==> K::less(k.key(), entries[i].0.key()));
        }
    }
    let want = association(entries).insert(k.key(), v);
    assert(out[at] == (k, v));
    lemma_entry(out, at);
    assert forall|x: K::Key| association(out).contains_key(x) == #[trigger] want.contains_key(x)
        && (want.contains_key(x) ==> association(out)[x] == want[x]) by {
        if x != k.key() {
            if association(entries).contains_key(x) {
                let i = choose|i: int| is_at(entries, x, i);
                let o = if i < at { i } else { i + 1 };
                assert(out[o] == entries[i]);
                lemma_entry(out, o);
                lemma_entry(entries, i);
            }
            if association(out).contains_key(x) {
                let o = choose|o: int| is_at(out, x, o);
                let i = if o < at { o } else { o - 1 };
                assert(out[o] == entries[i]);
                assert(is_at(entries, x, i));
            }
        }
    }
    assert(association(out) =~= want);
}

/// Replacing the value of an entry is inserting into the association.
proof fn lemma_update_at<K: MapKey, V>(entries: Seq<(K, V)>, at: int, v: V)
    requires
        ascending(entries),
        0 <= at < entries.len(),
    ensures
        ascending(entries.update(at, (entries[at].0, v))),
        association(entries.update(at, (entries[at].0, v))) == association(entries).insert(
            entries[at].0.key(),
            v,
        ),
{
    let out = entries.update(at, (entries[at].0, v));
    assert forall|i: int, j: int|
        #![trigger out[i], out[j]]
        0 <= i < j < out.len() implies K::less(out[i].0.key(), out[j].0.key()) by {
        assert(out[i].0 == entries[i].0 && out[j].0 == entries[j].0);
    }
    let want = association(entries).insert(entries[at].0.key(), v);
    assert forall|x: K::Key| association(out).contains_key(x) == #[trigger] want.contains_key(x)
        && (want.contains_key(x) ==> association(out)[x] == want[x]) by {
        lemma_entry(out, at);
        lemma_entry(entries, at);
        if association(entries).contains_key(x) {
            let i = choose|i: int| is_at(entries, x, i);
            assert(out[i].0 == entries[i].0);
            lemma_entry(out, i);
            lemma_entry(entries, i);
        }
        if association(out).contains_key(x) {
            let i = choose|i: int| is_at(out, x, i);
            assert(is_at(entries, x, i));
        }
    }
    assert(association(out) =~= want);
}

/// Taking an entry out is removing from the association.
proof fn lemma_remove_at<K: MapKey, V>(entries: Seq<(K, V)>, at: int)
    requires
        ascending(entries),
        0 <= at < entries.len(),
    ensures
        ascending(entries.remove(at)),
        association(entries.remove(at)) == association(entries).remove(entries[at].0.key()),
{
    let out = entries.remove(at);
    assert forall|i: int, j: int|
        #![trigger out[i], out[j]]
        0 <= i < j < out.len() implies K::less(out[i].0.key(), out[j].0.key()) by {
        let a = if i < at { i } else { i + 1 };
        let b = if j < at { j } else { j + 1 };
        assert(out[i] == entries[a] && out[j] == entries[b]);
    }
    let k = entries[at].0.key();
    let want = association(entries).remove(k);
    assert forall|x: K::Key| association(out).contains_key(x) == #[trigger] want.contains_key(x)
        && (want.contains_key(x) ==> association(out)[x] == want[x]) by {
        if association(entries).contains_key(x) && x != k {
            let i = choose|i: int| is_at(entries, x, i);
            let o = if i < at { i } else { i - 1 };
            assert(out[o] == entries[i]);
            lemma_entry(out, o);
            lemma_entry(entries, i);
        }
        if association(out).contains_key(x) {
            let o = choose|o: int| is_at(out, x, o);
            let i = if o < at { o } else { o + 1 };
            assert(out[o] == entries[i]);
            assert(is_at(entries, x, i));
            if x == k {
                lemma_distinct(entries, i, at);
            }
        }
    }
    assert(association(out) =~= want);
}

/// A test on entries.
pub trait Test<K: MapKey, V>: Sized {
    /// Whether an entry passes.
    spec fn accepts(&self, k: K::Key, v: V) -> bool;

    /// Tests an entry.
    fn check(&self, k: &K, v: &V) -> (b: bool)
        ensures
            b == self.accepts(k.key(), *v),
    ;
}

/// The entries of a map that a test accepts.
pub open spec fn kept<K, V>(m: Map<K, V>, keep: spec_fn(K, V) -> bool) -> Map<K, V> {
    Map::new(|k: K| m.contains_key(k) && keep(k, m[k]), |k: K| m[k])
}

impl<K: MapKey, V> View for SortedMap<K, V> {
    type V = Map<K::Key, V>;

    closed spec fn view(&self) -> Map<K::Key, V> {
        association(self.entries@)
    }
}

impl<K: MapKey, V> SortedMap<K, V> {
    #[verifier::type_invariant]
    spec fn is_ascending(self) -> bool {
        ascending(self.entries@)
    }

    /// The entries, in the order of their keys.
    pub closed spec fn sorted(&self) -> Seq<(K, V)> {
        self.entries@
    }

    /// Makes an empty map.
    pub fn new() -> (m: Self)
        ensures
            m@ == Map::<K::Key, V>::empty(),
    {
        let m = SortedMap { entries: Vec::new() };
        assert(m@ =~= Map::<K::Key, V>::empty());
        m
    }

    /// Number of entries. The order and the association say the same: `sorted`
    /// lists each entry once, keys ascending.
    pub fn len(&self) -> (n: usize)
        ensures
            n == self@.len(),
            ascending(self.sorted()),
            self@ == association(self.sorted()),
            n == self.sorted().len(),
            self@.dom().finite(),
    {
        proof {
            use_type_invariant(self);
            lemma_domain_size(self.entries@);
        }
        self.entries.len()
    }

    /// True if there are no entries.
    pub fn is_empty(&self) -> (b: bool)
        ensures
            b == (self@.len() == 0),
            b == (self@ == Map::<K::Key, V>::empty()),
    {
        proof {
            use_type_invariant(self);
            lemma_domain_size(self.entries@);
            if self@.len() == 0 {
                assert(self@ =~= Map::<K::Key, V>::empty());
            }
        }
        self.entries.len() == 0
    }

    /// Where the key is, or where it would go.
    fn locate(&self, k: &K) -> (r: (bool, usize))
        ensures
            r.0 ==> r.1 < self.entries@.len() && self.entries@[r.1 as int].0.key() == k.key(),
            !r.0 ==> {
                &&& r.1 <= self.entries@.len()
                &&& forall|i: int|
                    0 <= i < r.1 ==> K::less(#[trigger] self.entries@[i].0.key(), k.key())
                &&& forall|i: int|
                    r.1 <= i < self.entries@.len() ==> K::less(
                        k.key(),
                        #[trigger] self.entries@[i].0.key(),
                    )
            },
            r.0 == self@.contains_key(k.key()),
    {
        proof {
            use_type_invariant(self);
        }
        let mut low: usize = 0;
        let mut high: usize = self.entries.len();
        while low < high
            invariant
                ascending(self.entries@),
                low <= high <= self.entries@.len(),
                forall|i: int| 0 <= i < low ==> K::less(#[trigger] self.entries@[i].0.key(), k.key()),
                forall|i: int|
                    high <= i < self.entries@.len() ==> K::less(
                        k.key(),
                        #[trigger] self.entries@[i].0.key(),
                    ),
            decreases high - low,
        {
            let mid: usize = low + (high - low) / 2;
            let ghost at = self.entries@[mid as int].0.key();
            match self.entries[mid].0.compare(k) {
                Order::Equal => {
                    proof {
                        lemma_entry(self.entries@, mid as int);
                    }
                    return (true, mid);
                },
                Order::Less => {
                    proof {
                        assert forall|i: int| 0 <= i <= mid implies K::less(
                            #[trigger] self.entries@[i].0.key(),
                            k.key(),
                        ) by {
                            if i < mid {
                                assert(K::less(self.entries@[i].0.key(), self.entries@[mid as int].0.key()));
                                K::transitive(self.entries@[i].0.key(), at, k.key());
                            }
                        }
                    }
                    low = mid + 1;
                },
                Order::Greater => {
                    proof {
                        assert forall|i: int| mid <= i < self.entries@.len() implies K::less(
                            k.key(),
                            #[trigger] self.entries@[i].0.key(),
                        ) by {
                            if i > mid {
                                assert(K::less(self.entries@[mid as int].0.key(), self.entries@[i].0.key()));
                                K::transitive(k.key(), at, self.entries@[i].0.key());
                            }
                        }
                    }
                    high = mid;
                },
            }
        }
        proof {
            if self@.contains_key(k.key()) {
                let i = choose|i: int| is_at(self.entries@, k.key(), i);
                K::irreflexive(k.key());
                assert(i < low ==> K::less(self.entries@[i].0.key(), k.key()));
                assert(i >= low ==> K::less(k.key(), self.entries@[i].0.key()));
            }
        }
        (false, low)
    }

    /// Whether the key has an entry.
    pub fn contains(&self, k: &K) -> (b: bool)
        ensures
            b == self@.contains_key(k.key()),
    {
        self.locate(k).0
    }

    /// The value of the key.
    pub fn get(&self, k: &K) -> (v: Option<&V>)
        ensures
            v is Some <==> self@.contains_key(k.key()),
            v matches Some(v) ==> *v == self@[k.key()],
    {
        let (found, at) = self.locate(k);
        if found {
            proof {
                use_type_invariant(self);
                lemma_entry(self.entries@, at as int);
            }
            Some(&self.entries[at].1)
        } else {
            None
        }
    }

    /// Sets the value of the key, whether or not it had one; gives the value
    /// it had.
    pub fn insert(&mut self, k: K, v: V) -> (before: Option<V>)
        ensures
            final(self)@ == old(self)@.insert(k.key(), v),
            before is Some <==> old(self)@.contains_key(k.key()),
            before matches Some(b) ==> b == old(self)@[k.key()],
    {
        let (found, at) = self.locate(&k);
        proof {
            use_type_invariant(&*self);
        }
        let mut entries: Vec<(K, V)> = Vec::new();
        let ghost start = self.entries@;
        std::mem::swap(&mut self.entries, &mut entries);
        if found {
            proof {
                lemma_entry(start, at as int);
                lemma_update_at(start, at as int, v);
            }
            let ghost new = v;
            let mut v = v;
            std::mem::swap(&mut entries[at].1, &mut v);
            assert(entries@ =~= start.update(at as int, (start[at as int].0, new)));
            self.entries = entries;
            Some(v)
        } else {
            proof {
                lemma_insert_at(start, at as int, k, v);
            }
            entries.insert(at, (k, v));
            self.entries = entries;
            None
        }
    }

    /// Sets the value of the key where it has one; gives the value it had.
    pub fn insert_over(&mut self, k: &K, v: V) -> (before: Option<V>)
        ensures
            before is Some <==> old(self)@.contains_key(k.key()),
            before matches Some(b) ==> b == old(self)@[k.key()] && final(self)@ == old(
                self,
            )@.insert(k.key(), v),
            before is None ==> final(self)@ == old(self)@,
    {
        if self.contains(k) {
            self.insert(k.duplicate(), v)
        } else {
            None
        }
    }

    /// Another map with the same keys.
    pub fn copy_keys(&self) -> (m: SortedMap<K, ()>)
        ensures
            m@.dom() == self@.dom(),
    {
        proof {
            use_type_invariant(self);
        }
        let mut entries: Vec<(K, ())> = Vec::new();
        let mut i: usize = 0;
        while i < self.entries.len()
            invariant
                i <= self.entries@.len(),
                entries@.len() == i,
                forall|j: int|
                    0 <= j < i ==> (#[trigger] entries@[j]).0.key() == self.entries@[j].0.key(),
            decreases self.entries@.len() - i,
        {
            entries.push((self.entries[i].0.duplicate(), ()));
            i += 1;
        }
        proof {
            assert forall|a: int, b: int|
                #![trigger entries@[a], entries@[b]]
                0 <= a < b < entries@.len() implies K::less(
                entries@[a].0.key(),
                entries@[b].0.key(),
            ) by {
                assert(K::less(self.entries@[a].0.key(), self.entries@[b].0.key()));
            }
            assert forall|x: K::Key| association(entries@).contains_key(x) == #[trigger] association(
                self.entries@,
            ).contains_key(x) by {
                if association(entries@).contains_key(x) {
                    let j = choose|j: int| is_at(entries@, x, j);
                    assert(is_at(self.entries@, x, j));
                }
                if association(self.entries@).contains_key(x) {
                    let j = choose|j: int| is_at(self.entries@, x, j);
                    assert(entries@[j].0.key() == x);
                    assert(is_at(entries@, x, j));
                }
            }
            assert(association(entries@).dom() =~= self@.dom());
        }
        SortedMap { entries }
    }

    /// Another map that holds the same under the same keys.
    pub fn replica(&self) -> (m: SortedMap<K, V>) where V: Replica
        ensures
            m@.dom() == self@.dom(),
            forall|k: K::Key|
                self@.contains_key(k) ==> (#[trigger] self@[k]).agrees(&m@[k]),
    {
        proof {
            use_type_invariant(self);
        }
        let mut entries: Vec<(K, V)> = Vec::new();
        let mut i: usize = 0;
        while i < self.entries.len()
            invariant
                i <= self.entries@.len(),
                entries@.len() == i,
                forall|j: int|
                    0 <= j < i ==> (#[trigger] entries@[j]).0.key() == self.entries@[j].0.key()
                        && self.entries@[j].1.agrees(&entries@[j].1),
            decreases self.entries@.len() - i,
        {
            entries.push((self.entries[i].0.duplicate(), self.entries[i].1.replica()));
            i += 1;
        }
        proof {
            assert forall|a: int, b: int|
                #![trigger entries@[a], entries@[b]]
                0 <= a < b < entries@.len() implies K::less(
                entries@[a].0.key(),
                entries@[b].0.key(),
            ) by {
                assert(K::less(self.entries@[a].0.key(), self.entries@[b].0.key()));
            }
            assert forall|x: K::Key| association(entries@).contains_key(x) == #[trigger] association(
                self.entries@,
            ).contains_key(x) by {
                if association(entries@).contains_key(x) {
                    let j = choose|j: int| is_at(entries@, x, j);
                    assert(is_at(self.entries@, x, j));
                }
                if association(self.entries@).contains_key(x) {
                    let j = choose|j: int| is_at(self.entries@, x, j);
                    assert(entries@[j].0.key() == x);
                    assert(is_at(entries@, x, j));
                }
            }
            assert(association(entries@).dom() =~= self@.dom());
            assert forall|k: K::Key| self@.contains_key(k) implies (#[trigger] self@[k]).agrees(
                &association(entries@)[k],
            ) by {
                let j = choose|j: int| is_at(self.entries@, k, j);
                assert(entries@[j].0.key() == k);
                lemma_entry(self.entries@, j);
                lemma_entry(entries@, j);
            }
        }
        SortedMap { entries }
    }

    /// Takes the key out; gives the value it had.
    pub fn remove(&mut self, k: &K) -> (before: Option<V>)
        ensures
            final(self)@ == old(self)@.remove(k.key()),
            before is Some <==> old(self)@.contains_key(k.key()),
            before matches Some(b) ==> b == old(self)@[k.key()],
    {
        let (found, at) = self.locate(k);
        if found {
            Some(self.remove_at(at))
        } else {
            assert(self@.remove(k.key()) =~= self@);
            None
        }
    }

    /// Takes the entry at a place in the order out.
    pub fn remove_at(&mut self, at: usize) -> (v: V)
        requires
            at < old(self).sorted().len(),
        ensures
            final(self).sorted() == old(self).sorted().remove(at as int),
            old(self)@.contains_key(old(self).sorted()[at as int].0.key()),
            final(self)@ == old(self)@.remove(old(self).sorted()[at as int].0.key()),
            v == old(self)@[old(self).sorted()[at as int].0.key()],
    {
        proof {
            use_type_invariant(&*self);
        }
        let mut entries: Vec<(K, V)> = Vec::new();
        let ghost start = self.entries@;
        std::mem::swap(&mut self.entries, &mut entries);
        proof {
            lemma_entry(start, at as int);
            lemma_remove_at(start, at as int);
        }
        let (_, value) = entries.remove(at);
        self.entries = entries;
        value
    }

    /// The key and value at a place in the order.
    pub fn entry(&self, at: usize) -> (e: (&K, &V))
        requires
            at < self.sorted().len(),
        ensures
            *e.0 == self.sorted()[at as int].0,
            *e.1 == self.sorted()[at as int].1,
            self@.contains_key(e.0.key()),
            self@[e.0.key()] == *e.1,
    {
        proof {
            use_type_invariant(self);
            lemma_entry(self.entries@, at as int);
        }
        let e = &self.entries[at];
        (&e.0, &e.1)
    }

    /// Keeps the entries that a test accepts; counts those that it does not.
    pub fn retain<T: Test<K, V>>(&mut self, test: T) -> (dropped: usize)
        ensures
            final(self)@ == kept(old(self)@, |k: K::Key, v: V| test.accepts(k, v)),
            final(self)@.dom().finite(),
            old(self)@.dom().finite(),
            dropped == old(self)@.len() - final(self)@.len(),
    {
        proof {
            use_type_invariant(&*self);
        }
        let ghost keep = |k: K::Key, v: V| test.accepts(k, v);
        let ghost all = self.entries@;
        let total: usize = self.entries.len();
        let mut front: Vec<(K, V)> = Vec::new();
        std::mem::swap(&mut self.entries, &mut front);
        let mut back: Vec<(K, V)> = Vec::new();
        while front.len() > 0
            invariant
                front@.len() + back@.len() == all.len(),
                front@ =~= all.take(front@.len() as int),
                forall|i: int|
                    0 <= i < back@.len() ==> #[trigger] back@[i] == all[all.len() - 1 - i],
            decreases front@.len(),
        {
            match front.pop() {
                Some(entry) => {
                    back.push(entry);
                },
                None => {},
            }
        }
        let mut out: Vec<(K, V)> = Vec::new();
        let ghost mut done: int = 0;
        proof {
            assert(all.take(0) =~= Seq::<(K, V)>::empty());
            assert(association(out@) =~= kept(association(all.take(0)), keep));
        }
        while back.len() > 0
            invariant
                ascending(all),
                done + back@.len() == all.len(),
                0 <= done,
                keep == (|k: K::Key, v: V| test.accepts(k, v)),
                forall|i: int|
                    0 <= i < back@.len() ==> #[trigger] back@[i] == all[all.len() - 1 - i],
                ascending(out@),
                out@.len() <= done,
                forall|i: int, j: int|
                    #![trigger out@[i], all[j]]
                    0 <= i < out@.len() && done <= j < all.len() ==> K::less(
                        out@[i].0.key(),
                        all[j].0.key(),
                    ),
                association(out@) == kept(association(all.take(done)), keep),
            decreases back@.len(),
        {
            match back.pop() {
                Some(entry) => {
                    proof {
                        assert(entry == all[done]);
                        let seen = all.take(done);
                        assert forall|i: int, j: int|
                            #![trigger seen[i], seen[j]]
                            0 <= i < j < seen.len() implies K::less(seen[i].0.key(), seen[j].0.key()) by {
                            assert(seen[i] == all[i] && seen[j] == all[j]);
                        }
                        assert forall|i: int| 0 <= i < done implies K::less(
                            #[trigger] seen[i].0.key(),
                            entry.0.key(),
                        ) by {
                            assert(seen[i] == all[i]);
                            assert(K::less(all[i].0.key(), all[done].0.key()));
                        }
                        lemma_insert_at(seen, done, entry.0, entry.1);
                        assert(seen.insert(done, entry) =~= all.take(done + 1));
                    }
                    let ghost before = out@;
                    let good = test.check(&entry.0, &entry.1);
                    if good {
                        proof {
                            assert forall|i: int| 0 <= i < before.len() implies K::less(
                                #[trigger] before[i].0.key(),
                                entry.0.key(),
                            ) by {
                                assert(K::less(before[i].0.key(), all[done].0.key()));
                            }
                            lemma_insert_at(before, before.len() as int, entry.0, entry.1);
                            assert(before.insert(before.len() as int, entry) =~= before.push(entry));
                        }
                        out.push(entry);
                        proof {
                            assert forall|i: int, j: int|
                                #![trigger out@[i], all[j]]
                                0 <= i < out@.len() && done + 1 <= j < all.len() implies K::less(
                                out@[i].0.key(),
                                all[j].0.key(),
                            ) by {
                                if i < before.len() {
                                    assert(out@[i] == before[i]);
                                } else {
                                    assert(out@[i] == all[done]);
                                }
                            }
                        }
                    }
                    proof {
                        assert(association(out@) =~= kept(association(all.take(done + 1)), keep));
                        done = done + 1;
                    }
                },
                None => {},
            }
        }
        proof {
            assert(all.take(all.len() as int) =~= all);
            lemma_domain_size(all);
            lemma_domain_size(out@);
        }
        let dropped: usize = total - out.len();
        self.entries = out;
        dropped
    }

    /// The smallest key.
    pub fn first_key(&self) -> (k: Option<K>)
        ensures
            k is None <==> self@ == Map::<K::Key, V>::empty(),
            k matches Some(k) ==> {
                &&& self@.contains_key(k.key())
                &&& forall|x: K::Key|
                    #[trigger] self@.contains_key(x) && x != k.key() ==> K::less(k.key(), x)
            },
    {
        proof {
            use_type_invariant(self);
        }
        if self.entries.len() == 0 {
            assert(self@ =~= Map::<K::Key, V>::empty());
            None
        } else {
            proof {
                lemma_entry(self.entries@, 0);
                let k = self.entries@[0].0.key();
                assert forall|x: K::Key| #[trigger]
                    self@.contains_key(x) && x != k implies K::less(k, x) by {
                    let i = choose|i: int| is_at(self.entries@, x, i);
                    assert(K::less(self.entries@[0].0.key(), self.entries@[i].0.key()));
                }
            }
            Some(self.entries[0].0.duplicate())
        }
    }

    /// Drops every entry.
    pub fn clear(&mut self)
        ensures
            final(self)@ == Map::<K::Key, V>::empty(),
    {
        let entries: Vec<(K, V)> = Vec::new();
        self.entries = entries;
        assert(self@ =~= Map::<K::Key, V>::empty());
    }
}

impl<K: MapKey, V> Default for SortedMap<K, V> {
    fn default() -> (m: Self)
        ensures
            m@ == Map::<K::Key, V>::empty(),
    {
        SortedMap::new()
    }
}

impl MapKey for i32 {
    type Key = int;

    open spec fn key(&self) -> int {
        *self as int
    }

    open spec fn less(a: int, b: int) -> bool {
        a < b
    }

    proof fn irreflexive(a: int) {
    }

    proof fn transitive(a: int, b: int, c: int) {
    }

    fn compare(&self, other: &Self) -> (o: Order) {
        if *self < *other {
            Order::Less
        } else if *self == *other {
            Order::Equal
        } else {
            Order::Greater
        }
    }

    fn duplicate(&self) -> (k: Self)
        ensures
            k == *self,
    {
        *self
    }
}

impl MapKey for u128 {
    type Key = int;

    open spec fn key(&self) -> int {
        *self as int
    }

    open spec fn less(a: int, b: int) -> bool {
        a < b
    }

    proof fn irreflexive(a: int) {
    }

    proof fn transitive(a: int, b: int, c: int) {
    }

    fn compare(&self, other: &Self) -> (o: Order) {
        if *self < *other {
            Order::Less
        } else if *self == *other {
            Order::Equal
        } else {
            Order::Greater
        }
    }

    fn duplicate(&self) -> (k: Self)
        ensures
            k == *self,
    {
        *self
    }
}

impl MapKey for u64 {
    type Key = int;

    open spec fn key(&self) -> int {
        *self as int
    }

    open spec fn less(a: int, b: int) -> bool {
        a < b
    }

    proof fn irreflexive(a: int) {
    }

    proof fn transitive(a: int, b: int, c: int) {
    }

    fn compare(&self, other: &Self) -> (o: Order) {
        if *self < *other {
            Order::Less
        } else if *self == *other {
            Order::Equal
        } else {
            Order::Greater
        }
    }

    fn duplicate(&self) -> (k: Self)
        ensures
            k == *self,
    {
        *self
    }
}

impl MapKey for i16 {
    type Key = int;

    open spec fn key(&self) -> int {
        *self as int
    }

    open spec fn less(a: int, b: int) -> bool {
        a < b
    }

    proof fn irreflexive(a: int) {
    }

    proof fn transitive(a: int, b: int, c: int) {
    }

    fn compare(&self, other: &Self) -> (o: Order) {
        if *self < *other {
            Order::Less
        } else if *self == *other {
            Order::Equal
        } else {
            Order::Greater
        }
    }

    fn duplicate(&self) -> (k: Self)
        ensures
            k == *self,
    {
        *self
    }
}

impl MapKey for (i32, i32) {
    type Key = (int, int);

    open spec fn key(&self) -> (int, int) {
        (self.0 as int, self.1 as int)
    }

    open spec fn less(a: (int, int), b: (int, int)) -> bool {
        a.0 < b.0 || (a.0 == b.0 && a.1 < b.1)
    }

    proof fn irreflexive(a: (int, int)) {
    }

    proof fn transitive(a: (int, int), b: (int, int), c: (int, int)) {
    }

    fn compare(&self, other: &Self) -> (o: Order) {
        if self.0 < other.0 {
            Order::Less
        } else if self.0 > other.0 {
            Order::Greater
        } else {
            self.1.compare(&other.1)
        }
    }

    fn duplicate(&self) -> (k: Self)
        ensures
            k == *self,
    {
        (self.0, self.1)
    }
}

/// The two texts agree before `i`, and there `a` ends or has the smaller
/// character.
pub open spec fn splits_at(a: Seq<char>, b: Seq<char>, i: int) -> bool {
    &&& 0 <= i <= a.len()
    &&& i < b.len()
    &&& forall|j: int| 0 <= j < i ==> a[j] == b[j]
    &&& i == a.len() || (a[i] as int) < (b[i] as int)
}

/// Dictionary order of texts, by code point.
pub open spec fn text_less(a: Seq<char>, b: Seq<char>) -> bool {
    exists|i: int| splits_at(a, b, i)
}

impl MapKey for String {
    type Key = Seq<char>;

    open spec fn key(&self) -> Seq<char> {
        self@
    }

    open spec fn less(a: Seq<char>, b: Seq<char>) -> bool {
        text_less(a, b)
    }

    proof fn irreflexive(a: Seq<char>) {
    }

    proof fn transitive(a: Seq<char>, b: Seq<char>, c: Seq<char>) {
        let i = choose|i: int| splits_at(a, b, i);
        let j = choose|j: int| splits_at(b, c, j);
        let k = if i < j { i } else { j };
        assert(splits_at(a, c, k));
    }

    fn compare(&self, other: &Self) -> (o: Order) {
        compare_text(self.as_str(), other.as_str())
    }

    fn duplicate(&self) -> (k: Self)
        ensures
            k == *self,
    {
        self.clone()
    }
}

/// Compares two texts in dictionary order, by code point.
pub fn compare_text(a: &str, b: &str) -> (o: Order)
    ensures
        o == Order::Less ==> text_less(a@, b@),
        o == Order::Equal ==> a@ == b@,
        o == Order::Greater ==> text_less(b@, a@),
{
    let mut left = a.chars();
    let mut right = b.chars();
    let ghost mut i: int = 0;
    assert(a@.skip(0) =~= a@ && b@.skip(0) =~= b@);
    loop
        invariant
            0 <= i <= a@.len(),
            i <= b@.len(),
            vstd::std_specs::iter::IteratorSpec::remaining(&left) == a@.skip(i),
            vstd::std_specs::iter::IteratorSpec::remaining(&right) == b@.skip(i),
            forall|j: int| 0 <= j < i ==> a@[j] == b@[j],
        decreases a@.len() - i,
    {
        let x = left.next();
        let y = right.next();
        match (x, y) {
            (None, None) => {
                assert(a@ =~= b@);
                return Order::Equal;
            },
            (None, Some(_)) => {
                assert(splits_at(a@, b@, i));
                return Order::Less;
            },
            (Some(_), None) => {
                assert(splits_at(b@, a@, i));
                return Order::Greater;
            },
            (Some(x), Some(y)) => {
                assert(x == a@[i] && y == b@[i]);
                if x < y {
                    assert(splits_at(a@, b@, i));
                    return Order::Less;
                }
                if y < x {
                    assert(splits_at(b@, a@, i));
                    return Order::Greater;
                }
                proof {
                    assert(a@.skip(i).drop_first() =~= a@.skip(i + 1));
                    assert(b@.skip(i).drop_first() =~= b@.skip(i + 1));
                    i = i + 1;
                }
            },
        }
    }
}

} // verus!
