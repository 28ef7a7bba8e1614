use vstd::prelude::*;

verus! {

/// A registry entry as the contracts see it: identity and session id.
pub type Entry = (Seq<char>, u64);

/// No identity has two entries.
pub open spec fn unique_keys(v: Seq<Entry>) -> bool {
    forall|i: int, j: int| 0 <= i < v.len() && 0 <= j < v.len() && i != j ==> v[i].0 != v[j].0
}

/// The identities of the entries, in order.
pub open spec fn keys(v: Seq<Entry>) -> Seq<Seq<char>> {
    v.map_values(|e: Entry| e.0)
}

/// Position of the last entry of identity `k`, or `-1` when it has none.
pub open spec fn key_index(v: Seq<Entry>, k: Seq<char>) -> int
    decreases v.len(),
{
    if v.len() == 0 {
        -1
    } else if v.last().0 == k {
        v.len() - 1
    } else {
        key_index(v.drop_last(), k)
    }
}

/// The entries once identity `k` has connected with session `h`: its
/// entry, if any, now names `h`; otherwise a new entry comes last.
pub open spec fn registered_with(v: Seq<Entry>, k: Seq<char>, h: u64) -> Seq<Entry> {
    let i = key_index(v, k);
    if i >= 0 {
        v.update(i, (k, h))
    } else {
        v.push((k, h))
    }
}

/// The entries once identity `k` has disconnected: its entry, if any, is
/// gone.
pub open spec fn unregistered(v: Seq<Entry>, k: Seq<char>) -> Seq<Entry> {
    let i = key_index(v, k);
    if i >= 0 {
        v.remove(i)
    } else {
        v
    }
}

/// `key_index` finds the entry of `k` exactly when there is one, and with
/// unique identities it is the only one.
pub proof fn lemma_key_index(v: Seq<Entry>, k: Seq<char>)
    ensures
        -1 <= key_index(v, k) < v.len(),
        key_index(v, k) >= 0 ==> v[key_index(v, k)].0 == k,
        key_index(v, k) == -1 ==> forall|i: int| 0 <= i < v.len() ==> v[i].0 != k,
        unique_keys(v) ==> forall|i: int| 0 <= i < v.len() && v[i].0 == k ==> key_index(v, k) == i,
    decreases v.len(),
{
    if v.len() > 0 {
        let w = v.drop_last();
        lemma_key_index(w, k);
        assert forall|i: int| 0 <= i < w.len() implies w[i] == v[i] by {}
        if v.last().0 != k {
            assert forall|i: int| 0 <= i < v.len() && v[i].0 == k implies i < w.len() by {}
            if unique_keys(v) {
                assert(unique_keys(w));
            }
        }
    }
}

/// Identity `k` has an entry.
pub open spec fn has_key(v: Seq<Entry>, k: Seq<char>) -> bool {
    exists|i: int| 0 <= i < v.len() && v[i].0 == k
}

/// The entries after each of `joined` has connected, in order.
pub open spec fn connect_all(v: Seq<Entry>, joined: Seq<Entry>) -> Seq<Entry>
    decreases joined.len(),
{
    if joined.len() == 0 {
        v
    } else {
        let e = joined.last();
        registered_with(connect_all(v, joined.drop_last()), e.0, e.1)
    }
}

/// The entries after each identity of `left` has disconnected, in order.
pub open spec fn disconnect_all(v: Seq<Entry>, left: Seq<Seq<char>>) -> Seq<Entry>
    decreases left.len(),
{
    if left.len() == 0 {
        v
    } else {
        unregistered(disconnect_all(v, left.drop_last()), left.last())
    }
}

/// Connecting identities that are all different, starting from no session,
/// gives one entry for each, in the order they connected.
proof fn lemma_connect_distinct(joined: Seq<Entry>)
    requires
        unique_keys(joined),
    ensures
        connect_all(Seq::empty(), joined) == joined,
    decreases joined.len(),
{
    if joined.len() > 0 {
        let w = joined.drop_last();
        assert(unique_keys(w));
        lemma_connect_distinct(w);
        lemma_key_index(w, joined.last().0);
        if key_index(w, joined.last().0) >= 0 {
            assert(joined[key_index(w, joined.last().0)].0 == joined[joined.len() - 1].0);
        }
        assert(w.push(joined.last()) =~= joined);
    }
}

/// Disconnecting an identity that has an entry removes exactly that entry.
proof fn lemma_unregister_present(v: Seq<Entry>, k: Seq<char>)
    requires
        unique_keys(v),
        has_key(v, k),
    ensures
        unregistered(v, k).len() == v.len() - 1,
        unique_keys(unregistered(v, k)),
        forall|k2: Seq<char>| #[trigger] has_key(unregistered(v, k), k2) <==> (has_key(v, k2) && k2 != k),
{
    lemma_key_index(v, k);
    let i = key_index(v, k);
    let r = unregistered(v, k);
    assert(i >= 0);
    assert(r == v.remove(i));
    assert forall|k2: Seq<char>| #[trigger] has_key(r, k2) <==> (has_key(v, k2) && k2 != k) by {
        if has_key(r, k2) {
            let j = choose|j: int| 0 <= j < r.len() && r[j].0 == k2;
            if j < i {
                assert(v[j].0 == k2);
            } else {
                assert(v[j + 1].0 == k2);
            }
        }
        if has_key(v, k2) && k2 != k {
            let j = choose|j: int| 0 <= j < v.len() && v[j].0 == k2;
            assert(j != i);
            if j < i {
                assert(r[j].0 == k2);
            } else {
                assert(r[j - 1].0 == k2);
            }
        }
    }
}

/// Disconnecting identities that are all different and all connected
/// removes one entry for each.
proof fn lemma_disconnect_distinct(v: Seq<Entry>, left: Seq<Seq<char>>)
    requires
        unique_keys(v),
        left.no_duplicates(),
        forall|i: int| 0 <= i < left.len() ==> has_key(v, #[trigger] left[i]),
    ensures
        disconnect_all(v, left).len() == v.len() - left.len(),
        unique_keys(disconnect_all(v, left)),
        forall|k: Seq<char>| #[trigger] has_key(disconnect_all(v, left), k) <==> (has_key(v, k) && !left.contains(k)),
    decreases left.len(),
{
    if left.len() > 0 {
        let w = left.drop_last();
        assert forall|i: int| 0 <= i < w.len() implies has_key(v, #[trigger] w[i]) by {
            assert(w[i] == left[i]);
        }
        lemma_disconnect_distinct(v, w);
        let before = disconnect_all(v, w);
        let k = left.last();
        assert(has_key(v, left[left.len() - 1]));
        assert(!w.contains(k)) by {
            if w.contains(k) {
                let j = choose|j: int| 0 <= j < w.len() && w[j] == k;
                assert(left[j] == left[left.len() - 1]);
            }
        }
        assert(has_key(before, k));
        lemma_unregister_present(before, k);
        assert forall|k2: Seq<char>| #[trigger] has_key(disconnect_all(v, left), k2) <==> (has_key(v, k2) && !left.contains(k2)) by {
            assert(left.contains(k2) <==> (w.contains(k2) || k2 == k)) by {
                if left.contains(k2) {
                    let j = choose|j: int| 0 <= j < left.len() && left[j] == k2;
                    if j < w.len() {
                        assert(w[j] == k2);
                    }
                }
                if w.contains(k2) {
                    let j = choose|j: int| 0 <= j < w.len() && w[j] == k2;
                    assert(left[j] == k2);
                }
                if k2 == k {
                    assert(left[left.len() - 1] == k2);
                }
            }
        }
    }
}

/// Starting with no session, once `joined` identities, all different, have
/// connected and then `left` of them, all different, have disconnected,
/// the registry holds `joined.len() - left.len()` sessions: the count that
/// the last connect or disconnect announces to every remaining session.
pub proof fn lemma_online_count(joined: Seq<Entry>, left: Seq<Seq<char>>)
    requires
        unique_keys(joined),
        left.no_duplicates(),
        forall|i: int| 0 <= i < left.len() ==> has_key(joined, #[trigger] left[i]),
    ensures
        disconnect_all(connect_all(Seq::empty(), joined), left).len() == joined.len() - left.len(),
{
    lemma_connect_distinct(joined);
    lemma_disconnect_distinct(joined, left);
}

/// The live sessions, one per identity.
pub struct Registry {
    entries: Vec<(String, u64)>,
}

impl View for Registry {
    type V = Seq<Entry>;

    closed spec fn view(&self) -> Seq<Entry> {
        self.entries@.map_values(|e: (String, u64)| (e.0@, e.1))
    }
}

impl Registry {
    /// Identities are unique.
    pub open spec fn wf(&self) -> bool {
        unique_keys(self@)
    }

    /// An empty registry.
    pub fn new() -> (r: Registry)
        ensures
            r@ == Seq::<Entry>::empty(),
            r.wf(),
    {
        let r = Registry { entries: Vec::new() };
        assert(r@ =~= Seq::<Entry>::empty());
        r
    }

    /// Number of live sessions.
    pub fn len(&self) -> (r: usize)
        ensures
            r == self@.len(),
    {
        self.entries.len()
    }

    /// Position of the entry of identity `key`, if any.
    fn find(&self, key: &String) -> (r: Option<usize>)
        requires
            self.wf(),
        ensures
            r is None ==> key_index(self@, key@) == -1,
            r matches Some(i) ==> i == key_index(self@, key@) && i < self@.len(),
    {
        proof {
            lemma_key_index(self@, key@);
        }
        let n = self.entries.len();
        for i in 0..n
            invariant
                n == self.entries@.len(),
                self@.len() == n,
                self.wf(),
                forall|j: int| 0 <= j < i ==> self@[j].0 != key@,
        {
            let found = self.entries[i].0 == *key;
            if found {
                proof {
                    lemma_key_index(self@, key@);
                }
                assert(self@[i as int].0 == key@);
                return Some(i);
            }
        }
        None
    }

    /// Registers session `session` for identity `key`, replacing an earlier
    /// session of the same identity.
    pub fn insert(&mut self, key: String, session: u64)
        requires
            old(self).wf(),
        ensures
            final(self)@ == registered_with(old(self)@, key@, session),
            final(self).wf(),
    {
        let ghost k = key@;
        proof {
            lemma_key_index(self@, k);
        }
        match self.find(&key) {
            Some(i) => {
                self.entries.set(i, (key, session));
                assert(self@ =~= old(self)@.update(i as int, (k, session)));
            },
            None => {
                self.entries.push((key, session));
                assert(self@ =~= old(self)@.push((k, session)));
            },
        }
    }

    /// Drops the session of identity `key`, if there is one.
    pub fn remove(&mut self, key: &String)
        requires
            old(self).wf(),
        ensures
            final(self)@ == unregistered(old(self)@, key@),
            final(self).wf(),
    {
        proof {
            lemma_key_index(self@, key@);
        }
        match self.find(key) {
            Some(i) => {
                self.entries.remove(i);
                assert(self@ =~= old(self)@.remove(i as int));
            },
            None => {},
        }
    }

    /// The session ids, in registry order.
    pub fn sessions(&self) -> (r: Vec<u64>)
        ensures
            r@ == self@.map_values(|e: Entry| e.1),
    {
        let mut out: Vec<u64> = Vec::new();
        let n = self.entries.len();
        for i in 0..n
            invariant
                n == self@.len(),
                out@ == self@.map_values(|e: Entry| e.1).subrange(0, i as int),
        {
            out.push(self.entries[i].1);
        }
        out
    }
}

} // verus!
