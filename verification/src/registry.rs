//! Tables keyed by names: the registry of nodes and the table of topic subscribers.
use vstd::prelude::*;

verus! {

/// A value that is identified by its name: two values with the same name stand for
/// the same key.
pub trait Named: Sized {
    /// The name, as characters.
    spec fn name(&self) -> Seq<char>;

    /// Whether the two values carry the same name.
    fn same_name(&self, other: &Self) -> (same: bool)
        ensures
            same == (self.name() == other.name()),
    ;

    /// A copy of the value, with the same name.
    fn copy_name(&self) -> (copy: Self)
        ensures
            copy.name() == self.name(),
    ;
}

/// The names of a sequence of keys.
pub open spec fn names<K: Named>(s: Seq<K>) -> Seq<Seq<char>> {
    s.map_values(|k: K| k.name())
}

/// `s` with every occurrence of `n` taken out, the rest in its order.
pub open spec fn without(s: Seq<Seq<char>>, n: Seq<char>) -> Seq<Seq<char>>
    decreases s.len(),
{
    if s.len() == 0 {
        s
    } else if s.last() == n {
        without(s.drop_last(), n)
    } else {
        without(s.drop_last(), n).push(s.last())
    }
}

/// `without` keeps exactly the elements different from `n`.
pub proof fn lemma_without_contains(s: Seq<Seq<char>>, n: Seq<char>, x: Seq<char>)
    ensures
        without(s, n).contains(x) <==> (s.contains(x) && x != n),
    decreases s.len(),
{
    if s.len() > 0 {
        lemma_without_contains(s.drop_last(), n, x);
        let r = without(s.drop_last(), n);
        if s.contains(x) && x != n {
            let i = choose|i: int| 0 <= i < s.len() && s[i] == x;
            if i < s.len() - 1 {
                assert(s.drop_last()[i] == x);
            }
        }
        if s.drop_last().contains(x) {
            let i = choose|i: int| 0 <= i < s.drop_last().len() && s.drop_last()[i] == x;
            assert(s[i] == x);
        }
        if s.last() != n {
            assert(r.push(s.last())[r.len() as int] == s.last());
            if r.push(s.last()).contains(x) {
                let i = choose|i: int| 0 <= i < r.len() + 1 && r.push(s.last())[i] == x;
                if i < r.len() {
                    assert(r[i] == x);
                }
            }
            if r.contains(x) {
                let i = choose|i: int| 0 <= i < r.len() && r[i] == x;
                assert(r.push(s.last())[i] == x);
            }
        }
    }
}

/// Taking `n` out keeps exactly the other elements, each where it stood relative to the
/// rest: the result is the sequence filtered by `x != n`.
pub proof fn lemma_without_is_filter(s: Seq<Seq<char>>, n: Seq<char>)
    ensures
        without(s, n) == s.filter(|x: Seq<char>| x != n),
    decreases s.len(),
{
    reveal(Seq::filter);
    if s.len() > 0 {
        lemma_without_is_filter(s.drop_last(), n);
    }
}

/// Taking `n` out of a sequence that holds it once removes that one element and closes
/// the gap: the elements before it and those after it stay in their order.
pub proof fn lemma_without_single(s: Seq<Seq<char>>, n: Seq<char>, i: int)
    requires
        0 <= i < s.len(),
        s[i] == n,
        s.no_duplicates(),
    ensures
        without(s, n) == s.subrange(0, i) + s.subrange(i + 1, s.len() as int),
{
    let a = s.subrange(0, i);
    let b = s.subrange(i + 1, s.len() as int);
    assert(!a.contains(n)) by {
        if a.contains(n) {
            let k = choose|k: int| 0 <= k < a.len() && a[k] == n;
            assert(s[k] == n);
        }
    }
    assert(!b.contains(n)) by {
        if b.contains(n) {
            let k = choose|k: int| 0 <= k < b.len() && b[k] == n;
            assert(s[i + 1 + k] == n);
        }
    }
    assert(s =~= a + seq![n] + b);
    reveal(Seq::filter);
    let f = |x: Seq<char>| x != n;
    Seq::filter_distributes_over_add(a + seq![n], b, f);
    Seq::filter_distributes_over_add(a, seq![n], f);
    lemma_without_is_filter(s, n);
    lemma_without_is_filter(a, n);
    lemma_without_is_filter(b, n);
    lemma_without_absent(a, n);
    lemma_without_absent(b, n);
    assert(seq![n].drop_last() =~= Seq::<Seq<char>>::empty());
    assert(seq![n].last() == n);
    lemma_without_is_filter(seq![n], n);
    assert(without(Seq::<Seq<char>>::empty(), n) =~= Seq::<Seq<char>>::empty());
    assert(seq![n].filter(f) =~= Seq::<Seq<char>>::empty());
    assert(without(s, n) =~= a + b);
}

/// A sequence without `n` is left as it is.
pub proof fn lemma_without_absent(s: Seq<Seq<char>>, n: Seq<char>)
    requires
        !s.contains(n),
    ensures
        without(s, n) == s,
    decreases s.len(),
{
    if s.len() > 0 {
        assert(!s.drop_last().contains(n)) by {
            if s.drop_last().contains(n) {
                let i = choose|i: int| 0 <= i < s.drop_last().len() && s.drop_last()[i] == n;
                assert(s[i] == n);
            }
        }
        lemma_without_absent(s.drop_last(), n);
        assert(s.last() != n) by {
            assert(s[s.len() - 1] == s.last());
        }
        assert(s.drop_last().push(s.last()) =~= s);
    }
}

/// Taking `n` out keeps a sequence free of duplicates.
pub proof fn lemma_without_no_duplicates(s: Seq<Seq<char>>, n: Seq<char>)
    requires
        s.no_duplicates(),
    ensures
        without(s, n).no_duplicates(),
    decreases s.len(),
{
    if s.len() > 0 {
        let d = s.drop_last();
        assert(d.no_duplicates()) by {
            assert forall|i: int, j: int| 0 <= i < d.len() && 0 <= j < d.len() && i != j implies d[i]
                != d[j] by {
                assert(d[i] == s[i] && d[j] == s[j]);
            }
        }
        lemma_without_no_duplicates(d, n);
        if s.last() != n {
            let r = without(d, n);
            lemma_without_contains(d, n, s.last());
            assert(!d.contains(s.last())) by {
                if d.contains(s.last()) {
                    let i = choose|i: int| 0 <= i < d.len() && d[i] == s.last();
                    assert(s[i] == s[s.len() - 1]);
                }
            }
            let p = r.push(s.last());
            assert forall|i: int, j: int| 0 <= i < p.len() && 0 <= j < p.len() && i != j implies p[i]
                != p[j] by {
                if i == r.len() {
                    assert(r[j] == p[j]);
                } else if j == r.len() {
                    assert(r[i] == p[i]);
                } else {
                    assert(r[i] == p[i] && r[j] == p[j]);
                }
            }
        }
    }
}

/// Taking out `n` after it was added to a sequence that did not hold it gives the
/// sequence back.
pub proof fn lemma_without_pushed(s: Seq<Seq<char>>, n: Seq<char>)
    requires
        !s.contains(n),
    ensures
        without(s.push(n), n) == s,
{
    assert(s.push(n).drop_last() =~= s);
    assert(s.push(n).last() == n);
    lemma_without_absent(s, n);
}

/// The names of keys with one more pushed.
proof fn lemma_names_push<K: Named>(s: Seq<K>, k: K)
    ensures
        names(s.push(k)) == names(s).push(k.name()),
{
    assert(names(s.push(k)) =~= names(s).push(k.name()));
}

/// The names of `s` that `keep` holds, in their order.
pub open spec fn kept_in(s: Seq<Seq<char>>, keep: Set<Seq<char>>) -> Seq<Seq<char>>
    decreases s.len(),
{
    if s.len() == 0 {
        s
    } else if keep.contains(s.last()) {
        kept_in(s.drop_last(), keep).push(s.last())
    } else {
        kept_in(s.drop_last(), keep)
    }
}

/// A delivery reaches exactly the subscribers that `keep` holds, each once when the
/// subscribers are distinct.
pub proof fn lemma_kept_in(s: Seq<Seq<char>>, keep: Set<Seq<char>>)
    ensures
        forall|x: Seq<char>| #[trigger] kept_in(s, keep).contains(x) <==> (s.contains(x) && keep.contains(x)),
        s.no_duplicates() ==> kept_in(s, keep).no_duplicates(),
    decreases s.len(),
{
    if s.len() > 0 {
        let d = s.drop_last();
        lemma_kept_in(d, keep);
        let r = kept_in(d, keep);
        assert forall|x: Seq<char>| #[trigger] kept_in(s, keep).contains(x) <==> (s.contains(x) && keep.contains(x)) by {
            if s.contains(x) {
                let i = choose|i: int| 0 <= i < s.len() && s[i] == x;
                if i < s.len() - 1 {
                    assert(d[i] == x);
                }
            }
            if d.contains(x) {
                let i = choose|i: int| 0 <= i < d.len() && d[i] == x;
                assert(s[i] == x);
            }
            if keep.contains(s.last()) {
                let p = r.push(s.last());
                assert(p[r.len() as int] == s.last());
                assert(s[s.len() - 1] == s.last());
                if p.contains(x) {
                    let i = choose|i: int| 0 <= i < p.len() && p[i] == x;
                    if i < r.len() {
                        assert(r[i] == x);
                    }
                }
                if r.contains(x) {
                    let i = choose|i: int| 0 <= i < r.len() && r[i] == x;
                    assert(p[i] == x);
                }
            }
        }
        if s.no_duplicates() {
            assert(d.no_duplicates()) by {
                assert forall|i: int, j: int| 0 <= i < d.len() && 0 <= j < d.len() && i != j implies d[i] != d[j] by {
                    assert(d[i] == s[i] && d[j] == s[j]);
                }
            }
            if keep.contains(s.last()) {
                assert(!d.contains(s.last())) by {
                    if d.contains(s.last()) {
                        let i = choose|i: int| 0 <= i < d.len() && d[i] == s.last();
                        assert(s[i] == s[s.len() - 1]);
                    }
                }
                let p = r.push(s.last());
                assert forall|a: int, b: int| 0 <= a < p.len() && 0 <= b < p.len() && a != b implies p[a] != p[b] by {
                    if a == r.len() {
                        assert(r[b] == p[b]);
                        assert(r.contains(r[b]));
                    } else if b == r.len() {
                        assert(r[a] == p[a]);
                        assert(r.contains(r[a]));
                    } else {
                        assert(r[a] == p[a] && r[b] == p[b]);
                    }
                }
            }
        }
    }
}

/// The next step of `kept_in` on a prefix.
pub proof fn lemma_kept_in_step(s: Seq<Seq<char>>, keep: Set<Seq<char>>, j: int)
    requires
        0 <= j < s.len(),
    ensures
        kept_in(s.take(j + 1), keep) == if keep.contains(s[j]) {
            kept_in(s.take(j), keep).push(s[j])
        } else {
            kept_in(s.take(j), keep)
        },
{
    assert(s.take(j + 1).drop_last() =~= s.take(j));
    assert(s.take(j + 1).last() == s[j]);
}

/// A registered node that subscribed to a topic is among those its broadcasts go to; once
/// it unsubscribed, it is not.
pub proof fn lemma_subscriber_receives(
    m: Map<Seq<char>, Seq<Seq<char>>>,
    t: Seq<char>,
    n: Seq<char>,
    registered: Set<Seq<char>>,
)
    requires
        registered.contains(n),
    ensures
        kept_in(subscribers_of(subscribed(m, t, n), t), registered).contains(n),
        !kept_in(subscribers_of(unsubscribed(m, t, n), t), registered).contains(n),
{
    lemma_subscribe_adds(m, t, n);
    lemma_unsubscribe_removes(m, t, n);
    lemma_kept_in(subscribers_of(subscribed(m, t, n), t), registered);
    lemma_kept_in(subscribers_of(unsubscribed(m, t, n), t), registered);
}

/// A registry of values under distinct names, kept in the order in which the names
/// were first registered.
pub struct Registry<K, V> {
    entries: Vec<(K, V)>,
}

impl<K: Named, V> Registry<K, V> {
    /// The registered names, in registration order.
    pub closed spec fn keys(&self) -> Seq<Seq<char>> {
        self.entries@.map_values(|e: (K, V)| e.0.name())
    }

    /// No name is registered twice.
    pub closed spec fn wf(&self) -> bool {
        self.keys().no_duplicates()
    }

    /// What is registered under each name.
    pub closed spec fn entries_map(&self) -> Map<Seq<char>, V> {
        Map::new(
            |k: Seq<char>| self.keys().contains(k),
            |k: Seq<char>| self.entries@[self.keys().index_of(k)].1,
        )
    }

    proof fn lemma_view_at(&self, i: int)
        requires
            self.wf(),
            0 <= i < self.entries@.len(),
        ensures
            self.entries_map().contains_key(self.entries@[i].0.name()),
            self.entries_map()[self.entries@[i].0.name()] == self.entries@[i].1,
    {
        let k = self.entries@[i].0.name();
        assert(self.keys()[i] == k);
        let j = self.keys().index_of(k);
        assert(self.keys()[j] == k);
    }

    /// The names that the map holds are the registered names.
    pub proof fn lemma_dom(&self)
        requires
            self.wf(),
        ensures
            forall|k: Seq<char>| #[trigger]
                self.entries_map().contains_key(k) <==> self.keys().contains(k),
            self.entries_map().dom().finite(),
            self.entries_map().dom().len() == self.keys().len(),
            self.keys().no_duplicates(),
    {
        assert(self.entries_map().dom() =~= self.keys().to_set());
        self.keys().unique_seq_to_set();
    }

    /// An empty registry.
    pub fn new() -> (r: Self)
        ensures
            r.wf(),
            r.entries_map() == Map::<Seq<char>, V>::empty(),
            r.keys() == Seq::<Seq<char>>::empty(),
    {
        let r = Registry { entries: Vec::new() };
        assert(r.keys() =~= Seq::<Seq<char>>::empty());
        assert(r.entries_map() =~= Map::<Seq<char>, V>::empty());
        r
    }

    /// The position of the entry registered under the name of `key`.
    fn find(&self, key: &K) -> (r: Option<usize>)
        requires
            self.wf(),
        ensures
            match r {
                Some(i) => i < self.entries@.len() && self.entries@[i as int].0.name() == key.name(),
                None => !self.keys().contains(key.name()),
            },
    {
        let n = self.entries.len();
        let mut i: usize = 0;
        while i < n
            invariant
                n == self.entries@.len(),
                i <= n,
                forall|j: int| 0 <= j < i ==> self.entries@[j].0.name() != key.name(),
            decreases n - i,
        {
            if self.entries[i].0.same_name(key) {
                return Some(i);
            }
            i = i + 1;
        }
        assert(!self.keys().contains(key.name())) by {
            if self.keys().contains(key.name()) {
                let j = choose|j: int| 0 <= j < self.keys().len() && self.keys()[j] == key.name();
                assert(self.entries@[j].0.name() == key.name());
            }
        }
        None
    }

    /// Registers `value` under the name of `key`, in place of what was registered
    /// under it before; a new name goes last.
    pub fn insert(&mut self, key: K, value: V)
        requires
            old(self).wf(),
        ensures
            final(self).wf(),
            final(self).entries_map() == old(self).entries_map().insert(key.name(), value),
            old(self).keys().contains(key.name()) ==> final(self).keys() == old(self).keys(),
            !old(self).keys().contains(key.name()) ==> final(self).keys() == old(self).keys().push(
                key.name(),
            ),
    {
        let ghost k = key.name();
        let ghost old_map = self.entries_map();
        match self.find(&key) {
            Some(i) => {
                proof {
                    old(self).lemma_view_at(i as int);
                }
                self.entries.set(i, (key, value));
                assert(self.keys() =~= old(self).keys());
                assert(self.keys()[i as int] == k);
                assert(self.wf());
                assert forall|j: int| 0 <= j < self.entries@.len() && j != i implies self.entries@[j]
                    == old(self).entries@[j] by {}
                assert(self.entries_map() =~= old_map.insert(k, value)) by {
                    assert forall|x: Seq<char>| #[trigger]
                        self.entries_map().contains_key(x) implies self.entries_map()[x]
                        == old_map.insert(k, value)[x] by {
                        let j = self.keys().index_of(x);
                        self.lemma_view_at(j);
                        if j != i {
                            old(self).lemma_view_at(j);
                        }
                    }
                }
            },
            None => {
                self.entries.push((key, value));
                let ghost last = self.entries@.len() - 1;
                assert(self.keys() =~= old(self).keys().push(k));
                assert(self.keys().no_duplicates()) by {
                    let ks = self.keys();
                    assert forall|a: int, b: int|
                        0 <= a < ks.len() && 0 <= b < ks.len() && a != b implies ks[a] != ks[b] by {
                        if a == last {
                            assert(old(self).keys()[b] == ks[b]);
                        } else if b == last {
                            assert(old(self).keys()[a] == ks[a]);
                        }
                    }
                }
                assert(self.entries_map() =~= old_map.insert(k, value)) by {
                    assert forall|x: Seq<char>| #[trigger]
                        self.entries_map().contains_key(x) implies self.entries_map()[x]
                        == old_map.insert(k, value)[x] by {
                        let j = self.keys().index_of(x);
                        self.lemma_view_at(j);
                        if j != last {
                            old(self).lemma_view_at(j);
                        }
                    }
                    assert forall|x: Seq<char>| #[trigger]
                        old_map.insert(k, value).contains_key(x) implies self.entries_map().contains_key(
                        x,
                    ) by {
                        if x != k {
                            let j = old(self).keys().index_of(x);
                            assert(self.keys()[j] == x);
                        } else {
                            assert(self.keys()[last] == x);
                        }
                    }
                }
            },
        }
    }

    /// The value registered under the name of `key`, if any.
    pub fn get(&self, key: &K) -> (r: Option<&V>)
        requires
            self.wf(),
        ensures
            self.entries_map().contains_key(key.name()) ==> r == Some(
                &self.entries_map()[key.name()],
            ),
            !self.entries_map().contains_key(key.name()) ==> r is None,
    {
        match self.find(key) {
            Some(i) => {
                proof {
                    self.lemma_view_at(i as int);
                }
                Some(&self.entries[i].1)
            },
            None => None,
        }
    }

    /// Whether something is registered under the name of `key`.
    pub fn contains(&self, key: &K) -> (r: bool)
        requires
            self.wf(),
        ensures
            r == self.entries_map().contains_key(key.name()),
    {
        let r = self.find(key);
        proof {
            if let Some(i) = r {
                self.lemma_view_at(i as int);
            }
        }
        r.is_some()
    }

    /// Copies of the registered keys, in registration order.
    pub fn keys_copy(&self) -> (r: Vec<K>)
        requires
            self.wf(),
        ensures
            names(r@) == self.keys(),
    {
        let mut r: Vec<K> = Vec::new();
        let n = self.entries.len();
        let mut i: usize = 0;
        while i < n
            invariant
                n == self.entries@.len(),
                i <= n,
                names(r@) == self.keys().take(i as int),
            decreases n - i,
        {
            let k = self.entries[i].0.copy_name();
            proof {
                lemma_names_push(r@, k);
            }
            r.push(k);
            assert(self.keys().take(i + 1) =~= self.keys().take(i as int).push(
                self.entries@[i as int].0.name(),
            ));
            i = i + 1;
        }
        assert(self.keys().take(n as int) =~= self.keys());
        r
    }
}

/// The subscribers of topic `t` under a table `m`: none where the table has no entry
/// for it.
pub open spec fn subscribers_of(m: Map<Seq<char>, Seq<Seq<char>>>, t: Seq<char>) -> Seq<
    Seq<char>,
> {
    if m.contains_key(t) {
        m[t]
    } else {
        Seq::empty()
    }
}

/// The table after `n` subscribes to `t`: the topic gets an entry, and `n` is added
/// at the end of its subscribers unless it is among them already.
pub open spec fn subscribed(m: Map<Seq<char>, Seq<Seq<char>>>, t: Seq<char>, n: Seq<char>) -> Map<
    Seq<char>,
    Seq<Seq<char>>,
> {
    let s = subscribers_of(m, t);
    m.insert(
        t,
        if s.contains(n) {
            s
        } else {
            s.push(n)
        },
    )
}

/// The table after `n` unsubscribes from `t`: where the topic has an entry, every
/// occurrence of `n` leaves it; a topic without an entry gets none.
pub open spec fn unsubscribed(m: Map<Seq<char>, Seq<Seq<char>>>, t: Seq<char>, n: Seq<char>) -> Map<
    Seq<char>,
    Seq<Seq<char>>,
> {
    if m.contains_key(t) {
        m.insert(t, without(m[t], n))
    } else {
        m
    }
}

/// Every list of subscribers in the table is free of duplicates.
pub open spec fn lists_distinct(m: Map<Seq<char>, Seq<Seq<char>>>) -> bool {
    forall|t: Seq<char>| #[trigger] m.contains_key(t) ==> m[t].no_duplicates()
}

/// Subscribing a second time changes nothing.
pub proof fn lemma_subscribe_idempotent(m: Map<Seq<char>, Seq<Seq<char>>>, t: Seq<char>, n: Seq<char>)
    ensures
        subscribed(subscribed(m, t, n), t, n) == subscribed(m, t, n),
{
    let s = subscribers_of(m, t);
    let once = subscribed(m, t, n);
    if !s.contains(n) {
        assert(s.push(n)[s.len() as int] == n);
    }
    assert(subscribers_of(once, t).contains(n));
    assert(subscribed(once, t, n) =~= once);
}

/// After a subscription the node is among the topic's subscribers, behind those that
/// were there before; the other topics keep theirs.
pub proof fn lemma_subscribe_adds(m: Map<Seq<char>, Seq<Seq<char>>>, t: Seq<char>, n: Seq<char>)
    ensures
        subscribers_of(subscribed(m, t, n), t).contains(n),
        subscribers_of(m, t).is_prefix_of(subscribers_of(subscribed(m, t, n), t)),
        forall|u: Seq<char>| u != t ==> #[trigger] subscribers_of(subscribed(m, t, n), u) == subscribers_of(m, u),
{
    let s = subscribers_of(m, t);
    if !s.contains(n) {
        assert(s.push(n)[s.len() as int] == n);
        assert(s.push(n).subrange(0, s.len() as int) =~= s);
    } else {
        assert(s.subrange(0, s.len() as int) =~= s);
    }
}

/// After an unsubscription the node is no longer among the topic's subscribers, the
/// others stay in their order, and the other topics keep theirs.
pub proof fn lemma_unsubscribe_removes(m: Map<Seq<char>, Seq<Seq<char>>>, t: Seq<char>, n: Seq<char>)
    ensures
        !subscribers_of(unsubscribed(m, t, n), t).contains(n),
        subscribers_of(unsubscribed(m, t, n), t) == without(subscribers_of(m, t), n),
        forall|x: Seq<char>| x != n ==> (#[trigger] subscribers_of(unsubscribed(m, t, n), t).contains(x)
            <==> subscribers_of(m, t).contains(x)),
        forall|u: Seq<char>| u != t ==> #[trigger] subscribers_of(unsubscribed(m, t, n), u) == subscribers_of(m, u),
{
    lemma_without_contains(subscribers_of(m, t), n, n);
    assert forall|x: Seq<char>| x != n implies (#[trigger] subscribers_of(unsubscribed(m, t, n), t).contains(x)
        <==> subscribers_of(m, t).contains(x)) by {
        lemma_without_contains(subscribers_of(m, t), n, x);
    }
    if !m.contains_key(t) {
        assert(without(Seq::<Seq<char>>::empty(), n) =~= Seq::<Seq<char>>::empty());
    }
}

/// Unsubscribing keeps the other subscribers of the topic in their subscription order:
/// the list becomes the old list filtered by `x != n`, and where `n` was subscribed, its
/// place closes up with the subscribers after it moving up by one.
pub proof fn lemma_unsubscribe_keeps_order(m: Map<Seq<char>, Seq<Seq<char>>>, t: Seq<char>, n: Seq<char>)
    requires
        lists_distinct(m),
    ensures
        subscribers_of(unsubscribed(m, t, n), t) == subscribers_of(m, t).filter(|x: Seq<char>| x != n),
        forall|i: int|
            0 <= i < subscribers_of(m, t).len() && #[trigger] subscribers_of(m, t)[i] == n ==> subscribers_of(
                unsubscribed(m, t, n),
                t,
            ) == subscribers_of(m, t).subrange(0, i) + subscribers_of(m, t).subrange(
                i + 1,
                subscribers_of(m, t).len() as int,
            ),
{
    lemma_unsubscribe_removes(m, t, n);
    let s = subscribers_of(m, t);
    lemma_without_is_filter(s, n);
    assert forall|i: int|
        0 <= i < s.len() && #[trigger] s[i] == n implies subscribers_of(unsubscribed(m, t, n), t) == s.subrange(
        0,
        i,
    ) + s.subrange(i + 1, s.len() as int) by {
        assert(m.contains_key(t));
        lemma_without_single(s, n, i);
    }
}

/// Unsubscribing a second time changes nothing.
pub proof fn lemma_unsubscribe_idempotent(m: Map<Seq<char>, Seq<Seq<char>>>, t: Seq<char>, n: Seq<char>)
    ensures
        unsubscribed(unsubscribed(m, t, n), t, n) == unsubscribed(m, t, n),
{
    if m.contains_key(t) {
        lemma_without_contains(m[t], n, n);
        lemma_without_absent(without(m[t], n), n);
        assert(unsubscribed(unsubscribed(m, t, n), t, n) =~= unsubscribed(m, t, n));
    }
}

/// Unsubscribing a node that subscribed to a topic it was not subscribed to gives every
/// topic its subscribers back; where the topic had an entry, the table is as before.
pub proof fn lemma_unsubscribe_undoes_subscribe(
    m: Map<Seq<char>, Seq<Seq<char>>>,
    t: Seq<char>,
    n: Seq<char>,
)
    requires
        !subscribers_of(m, t).contains(n),
    ensures
        forall|u: Seq<char>| #[trigger] subscribers_of(unsubscribed(subscribed(m, t, n), t, n), u) == subscribers_of(m, u),
        m.contains_key(t) ==> unsubscribed(subscribed(m, t, n), t, n) == m,
{
    let s = subscribers_of(m, t);
    lemma_without_pushed(s, n);
    let r = unsubscribed(subscribed(m, t, n), t, n);
    assert(r == m.insert(t, s));
    if m.contains_key(t) {
        assert(r =~= m);
    }
}

/// Subscribing and unsubscribing keep every list of subscribers free of duplicates.
pub proof fn lemma_distinct_kept(m: Map<Seq<char>, Seq<Seq<char>>>, t: Seq<char>, n: Seq<char>)
    requires
        lists_distinct(m),
    ensures
        lists_distinct(subscribed(m, t, n)),
        lists_distinct(unsubscribed(m, t, n)),
{
    let s = subscribers_of(m, t);
    assert(s.no_duplicates());
    if !s.contains(n) {
        let p = s.push(n);
        assert forall|a: int, b: int| 0 <= a < p.len() && 0 <= b < p.len() && a != b implies p[a] != p[b] by {
            if a == s.len() {
                assert(p[b] == s[b]);
                if s[b] == n {
                    assert(s.contains(n));
                }
            } else if b == s.len() {
                assert(p[a] == s[a]);
                if s[a] == n {
                    assert(s.contains(n));
                }
            }
        }
    }
    if m.contains_key(t) {
        lemma_without_no_duplicates(m[t], n);
    }
}

/// For each topic, the keys subscribed to it, in the order in which they subscribed.
pub struct SubscriberTable<T, K> {
    topics: Vec<T>,
    lists: Vec<Vec<K>>,
}

impl<T: Named, K: Named> SubscriberTable<T, K> {
    /// The topics that have an entry, in the order of their first subscription.
    pub closed spec fn topic_names(&self) -> Seq<Seq<char>> {
        names(self.topics@)
    }

    /// The two vectors line up, no topic has two entries and no list holds a key twice.
    pub closed spec fn wf(&self) -> bool {
        &&& self.topics@.len() == self.lists@.len()
        &&& self.topic_names().no_duplicates()
        &&& forall|i: int| 0 <= i < self.lists@.len() ==> #[trigger] names(self.lists@[i]@).no_duplicates()
    }

    /// The names subscribed to each topic that has an entry.
    pub closed spec fn table(&self) -> Map<Seq<char>, Seq<Seq<char>>> {
        Map::new(
            |t: Seq<char>| self.topic_names().contains(t),
            |t: Seq<char>| names(self.lists@[self.topic_names().index_of(t)]@),
        )
    }

    proof fn lemma_table_at(&self, i: int)
        requires
            self.wf(),
            0 <= i < self.topics@.len(),
        ensures
            self.table().contains_key(self.topics@[i].name()),
            self.table()[self.topics@[i].name()] == names(self.lists@[i]@),
    {
        let t = self.topics@[i].name();
        assert(self.topic_names()[i] == t);
        let j = self.topic_names().index_of(t);
        assert(self.topic_names()[j] == t);
    }

    /// Well-formed tables hold no list with a duplicate.
    pub proof fn lemma_lists_distinct(&self)
        requires
            self.wf(),
        ensures
            lists_distinct(self.table()),
    {
        assert forall|t: Seq<char>| #[trigger] self.table().contains_key(t) implies self.table()[t].no_duplicates() by {
            let j = self.topic_names().index_of(t);
            self.lemma_table_at(j);
        }
    }

    /// An empty table.
    pub fn new() -> (r: Self)
        ensures
            r.wf(),
            r.table() == Map::<Seq<char>, Seq<Seq<char>>>::empty(),
    {
        let r = SubscriberTable { topics: Vec::new(), lists: Vec::new() };
        assert(r.topic_names() =~= Seq::<Seq<char>>::empty());
        assert(r.table() =~= Map::<Seq<char>, Seq<Seq<char>>>::empty());
        r
    }

    fn find(&self, topic: &T) -> (r: Option<usize>)
        requires
            self.wf(),
        ensures
            match r {
                Some(i) => i < self.topics@.len() && self.topics@[i as int].name() == topic.name(),
                None => !self.table().contains_key(topic.name()),
            },
    {
        let n = self.topics.len();
        let mut i: usize = 0;
        while i < n
            invariant
                n == self.topics@.len(),
                i <= n,
                forall|j: int| 0 <= j < i ==> self.topics@[j].name() != topic.name(),
            decreases n - i,
        {
            if self.topics[i].same_name(topic) {
                return Some(i);
            }
            i = i + 1;
        }
        assert(!self.topic_names().contains(topic.name())) by {
            if self.topic_names().contains(topic.name()) {
                let j = choose|j: int|
                    0 <= j < self.topic_names().len() && self.topic_names()[j] == topic.name();
                assert(self.topics@[j].name() == topic.name());
            }
        }
        None
    }

    /// The table after list `i` was replaced by one with the names `s`.
    proof fn lemma_replace_list(&self, other: &Self, i: int, s: Seq<Seq<char>>)
        requires
            self.wf(),
            0 <= i < self.topics@.len(),
            other.topics@ == self.topics@,
            other.lists@.len() == self.lists@.len(),
            names(other.lists@[i]@) == s,
            forall|j: int| 0 <= j < self.lists@.len() && j != i ==> other.lists@[j] == self.lists@[j],
        ensures
            other.table() == self.table().insert(self.topics@[i].name(), s),
    {
        let t = self.topics@[i].name();
        assert(other.topic_names() == self.topic_names());
        assert forall|x: Seq<char>| #[trigger] other.table().contains_key(x) implies other.table()[x]
            == self.table().insert(t, s)[x] by {
            let j = other.topic_names().index_of(x);
            assert(other.topic_names()[j] == x);
            if j != i {
                self.lemma_table_at(j);
                assert(self.topic_names()[i] == t);
            } else {
                assert(self.topic_names()[i] == t);
            }
        }
        assert(self.table().contains_key(t)) by {
            self.lemma_table_at(i);
        }
        assert(other.table() =~= self.table().insert(t, s));
    }

    /// The position of the entry of `topic`, made where there is none: an empty list
    /// at the end.
    fn find_or_add(&mut self, topic: T) -> (r: usize)
        requires
            old(self).wf(),
        ensures
            final(self).wf(),
            r < final(self).topics@.len(),
            final(self).topics@[r as int].name() == topic.name(),
            final(self).table() == old(self).table().insert(
                topic.name(),
                subscribers_of(old(self).table(), topic.name()),
            ),
    {
        match self.find(&topic) {
            Some(i) => {
                proof {
                    self.lemma_table_at(i as int);
                    assert(self.table().insert(topic.name(), subscribers_of(self.table(), topic.name()))
                        =~= self.table());
                }
                i
            },
            None => {
                let ghost t = topic.name();
                let ghost old_table = self.table();
                self.topics.push(topic);
                self.lists.push(Vec::new());
                let last = self.topics.len() - 1;
                assert(self.topic_names() =~= old(self).topic_names().push(t)) by {
                    lemma_names_push(old(self).topics@, self.topics@[last as int]);
                }
                assert(self.wf()) by {
                    let ks = self.topic_names();
                    assert forall|a: int, b: int|
                        0 <= a < ks.len() && 0 <= b < ks.len() && a != b implies ks[a] != ks[b] by {
                        if a == last {
                            assert(old(self).topic_names()[b] == ks[b]);
                        } else if b == last {
                            assert(old(self).topic_names()[a] == ks[a]);
                        }
                    }
                    assert forall|i: int| 0 <= i < self.lists@.len() implies #[trigger] names(
                        self.lists@[i]@,
                    ).no_duplicates() by {
                        if i == last {
                            assert(names(self.lists@[i]@) =~= Seq::<Seq<char>>::empty());
                        } else {
                            assert(self.lists@[i] == old(self).lists@[i]);
                        }
                    }
                }
                assert(names(self.lists@[last as int]@) =~= Seq::<Seq<char>>::empty());
                assert(self.table() =~= old_table.insert(t, Seq::empty())) by {
                    assert forall|x: Seq<char>| #[trigger]
                        self.table().contains_key(x) implies self.table()[x] == old_table.insert(
                        t,
                        Seq::empty(),
                    )[x] by {
                        let j = self.topic_names().index_of(x);
                        self.lemma_table_at(j);
                        if j != last {
                            old(self).lemma_table_at(j);
                        }
                    }
                    assert forall|x: Seq<char>| #[trigger]
                        old_table.insert(t, Seq::empty()).contains_key(x) implies self.table().contains_key(
                        x,
                    ) by {
                        if x != t {
                            let j = old(self).topic_names().index_of(x);
                            assert(self.topic_names()[j] == x);
                        } else {
                            assert(self.topic_names()[last as int] == x);
                        }
                    }
                }
                last
            },
        }
    }

    /// Whether `list` holds a key with the name of `key`.
    fn list_contains(list: &Vec<K>, key: &K) -> (r: bool)
        ensures
            r == names(list@).contains(key.name()),
    {
        let n = list.len();
        let mut i: usize = 0;
        while i < n
            invariant
                n == list@.len(),
                i <= n,
                forall|j: int| 0 <= j < i ==> list@[j].name() != key.name(),
            decreases n - i,
        {
            if list[i].same_name(key) {
                assert(names(list@)[i as int] == key.name());
                return true;
            }
            i = i + 1;
        }
        assert(!names(list@).contains(key.name())) by {
            if names(list@).contains(key.name()) {
                let j = choose|j: int| 0 <= j < names(list@).len() && names(list@)[j] == key.name();
                assert(list@[j].name() == key.name());
            }
        }
        false
    }

    /// Subscribes `key` to `topic`: the topic gets an entry, and the key joins the end
    /// of its list unless a key with its name is there already.
    pub fn subscribe(&mut self, topic: T, key: &K)
        requires
            old(self).wf(),
        ensures
            final(self).wf(),
            final(self).table() == subscribed(old(self).table(), topic.name(), key.name()),
    {
        let ghost t = topic.name();
        let ghost n = key.name();
        let i = self.find_or_add(topic);
        let ghost mid = *self;
        let ghost s = subscribers_of(old(self).table(), t);
        proof {
            self.lemma_table_at(i as int);
        }
        if !Self::list_contains(&self.lists[i], key) {
            let mut list: Vec<K> = Vec::new();
            self.lists.set_and_swap(i, &mut list);
            let k = key.copy_name();
            proof {
                lemma_names_push(list@, k);
            }
            list.push(k);
            self.lists.set(i, list);
            assert(names(self.lists@[i as int]@).no_duplicates()) by {
                let p = names(self.lists@[i as int]@);
                let q = names(mid.lists@[i as int]@);
                assert(!q.contains(n));
                assert(mid.wf());
                assert(q.no_duplicates());
                assert(p =~= q.push(n));
                assert forall|a: int, b: int| 0 <= a < p.len() && 0 <= b < p.len() && a != b implies p[a]
                    != p[b] by {
                    if a == q.len() {
                        assert(p[a] == n);
                        assert(q[b] == p[b]);
                        if q[b] == n {
                            assert(q.contains(n));
                        }
                    } else if b == q.len() {
                        assert(p[b] == n);
                        assert(q[a] == p[a]);
                        if q[a] == n {
                            assert(q.contains(n));
                        }
                    } else {
                        assert(q[a] == p[a] && q[b] == p[b]);
                    }
                }
            }
            proof {
                mid.lemma_replace_list(self, i as int, s.push(n));
            }
            assert(self.wf()) by {
                assert(self.topic_names() == mid.topic_names());
                assert forall|j: int| 0 <= j < self.lists@.len() implies #[trigger] names(
                    self.lists@[j]@,
                ).no_duplicates() by {
                    if j != i {
                        assert(self.lists@[j] == mid.lists@[j]);
                    }
                }
            }
            assert(self.table() =~= subscribed(old(self).table(), t, n));
        } else {
            assert(mid.table() =~= subscribed(old(self).table(), t, n));
        }
    }

    /// Unsubscribes `key` from `topic`: where the topic has an entry, every key with the
    /// name of `key` leaves its list; a topic without an entry gets none.
    pub fn unsubscribe(&mut self, topic: &T, key: &K)
        requires
            old(self).wf(),
        ensures
            final(self).wf(),
            final(self).table() == unsubscribed(old(self).table(), topic.name(), key.name()),
            subscribers_of(final(self).table(), topic.name()) == subscribers_of(
                old(self).table(),
                topic.name(),
            ).filter(|x: Seq<char>| x != key.name()),
    {
        let ghost n = key.name();
        let ghost t = topic.name();
        let ghost m = old(self).table();
        proof {
            lemma_unsubscribe_removes(m, t, n);
            lemma_without_is_filter(subscribers_of(m, t), n);
        }
        match self.find(topic) {
            None => {},
            Some(i) => {
                proof {
                    self.lemma_table_at(i as int);
                }
                let mut list: Vec<K> = Vec::new();
                self.lists.set_and_swap(i, &mut list);
                let mut kept: Vec<K> = Vec::new();
                let len = list.len();
                let mut j: usize = 0;
                while j < len
                    invariant
                        len == list@.len(),
                        j <= len,
                        n == key.name(),
                        names(kept@) == without(names(list@).take(j as int), n),
                    decreases len - j,
                {
                    let ghost before = names(list@).take(j as int);
                    let ghost s = names(list@).take(j + 1);
                    assert(s.drop_last() =~= before);
                    assert(s.last() == list@[j as int].name());
                    assert(s.len() > 0);
                    assert(without(s, n) == if s.last() == n {
                        without(before, n)
                    } else {
                        without(before, n).push(s.last())
                    });
                    if !list[j].same_name(key) {
                        let k = list[j].copy_name();
                        proof {
                            lemma_names_push(kept@, k);
                        }
                        kept.push(k);
                    }
                    j = j + 1;
                }
                assert(names(list@).take(len as int) =~= names(list@));
                proof {
                    lemma_without_no_duplicates(names(list@), n);
                }
                self.lists.set(i, kept);
                proof {
                    old(self).lemma_replace_list(self, i as int, without(names(list@), n));
                }
                assert(self.wf()) by {
                    assert forall|x: int| 0 <= x < self.lists@.len() implies #[trigger] names(
                        self.lists@[x]@,
                    ).no_duplicates() by {
                        if x != i {
                            assert(self.lists@[x] == old(self).lists@[x]);
                        }
                    }
                }
            },
        }
        assert((|x: Seq<char>| x != n) =~= (|x: Seq<char>| x != key.name()));
    }

    /// Copies of the keys subscribed to `topic`, in the order of their subscription.
    pub fn subscribers(&self, topic: &T) -> (r: Vec<K>)
        requires
            self.wf(),
        ensures
            names(r@) == subscribers_of(self.table(), topic.name()),
    {
        let mut r: Vec<K> = Vec::new();
        match self.find(topic) {
            None => {
                assert(names(r@) =~= Seq::<Seq<char>>::empty());
            },
            Some(i) => {
                proof {
                    self.lemma_table_at(i as int);
                }
                let list = &self.lists[i];
                let n = list.len();
                let mut j: usize = 0;
                while j < n
                    invariant
                        n == list@.len(),
                        j <= n,
                        names(r@) == names(list@).take(j as int),
                    decreases n - j,
                {
                    let k = list[j].copy_name();
                    proof {
                        lemma_names_push(r@, k);
                    }
                    r.push(k);
                    assert(names(list@).take(j + 1) =~= names(list@).take(j as int).push(
                        list@[j as int].name(),
                    ));
                    j = j + 1;
                }
                assert(names(list@).take(n as int) =~= names(list@));
            },
        }
        r
    }
}

} // verus!
