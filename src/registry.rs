//! The callback registry: host handlers bound to a (window, name) pair.
use vstd::prelude::*;

verus! {

/// A handler registered under a window and a name.
pub struct Registration<H> {
    pub window: i64,
    pub name: String,
    pub handler: H,
}

/// The key under which a registration is found.
pub open spec fn key_of<H>(e: Registration<H>) -> (i64, Seq<char>) {
    (e.window, e.name@)
}

/// The table that a sequence of registrations with distinct keys stands for.
pub open spec fn entries_map<H>(s: Seq<Registration<H>>) -> Map<(i64, Seq<char>), H>
    decreases s.len(),
{
    if s.len() == 0 {
        Map::empty()
    } else {
        entries_map(s.drop_last()).insert(key_of(s.last()), s.last().handler)
    }
}

pub open spec fn keys_unique<H>(s: Seq<Registration<H>>) -> bool {
    forall|i: int, j: int| 0 <= i < j < s.len() ==> key_of(s[i]) != key_of(s[j])
}

proof fn lemma_entries_map<H>(s: Seq<Registration<H>>, k: (i64, Seq<char>))
    requires
        keys_unique(s),
    ensures
        entries_map(s).contains_key(k) <==> exists|i: int| 0 <= i < s.len() && key_of(s[i]) == k,
        forall|i: int| 0 <= i < s.len() && key_of(s[i]) == k ==> entries_map(s)[k] == s[i].handler,
    decreases s.len(),
{
    if s.len() > 0 {
        let t = s.drop_last();
        assert(keys_unique(t));
        lemma_entries_map(t, k);
        if entries_map(s).contains_key(k) && key_of(s.last()) != k {
            let i = choose|i: int| 0 <= i < t.len() && key_of(t[i]) == k;
            assert(0 <= i < s.len() && key_of(s[i]) == k);
        }
        if exists|i: int| 0 <= i < s.len() && key_of(s[i]) == k {
            let i = choose|i: int| 0 <= i < s.len() && key_of(s[i]) == k;
            if i < s.len() - 1 {
                assert(key_of(t[i]) == k);
            }
        }
    }
}

/// A process-wide table of named host handlers, at most one per (window, name).
pub struct CallbackRegistry<H> {
    entries: Vec<Registration<H>>,
}

impl<H> CallbackRegistry<H> {
    /// The handlers by (window, name).
    pub closed spec fn view(&self) -> Map<(i64, Seq<char>), H> {
        entries_map(self.entries@)
    }

    pub closed spec fn wf(&self) -> bool {
        keys_unique(self.entries@)
    }

    /// An empty registry.
    pub fn new() -> (r: Self)
        ensures
            r.wf(),
            r.view() == Map::<(i64, Seq<char>), H>::empty(),
    {
        CallbackRegistry { entries: Vec::new() }
    }

    fn position(&self, window: i64, name: &String) -> (r: Option<usize>)
        requires
            self.wf(),
        ensures
            r matches Some(i) ==> i < self.entries@.len() && key_of(self.entries@[i as int]) == (
            window, name@),
            r is None ==> forall|i: int|
                0 <= i < self.entries@.len() ==> key_of(self.entries@[i]) != (window, name@),
    {
        let mut i: usize = 0;
        while i < self.entries.len()
            invariant
                i <= self.entries@.len(),
                forall|j: int| 0 <= j < i ==> key_of(self.entries@[j]) != (window, name@),
            decreases self.entries@.len() - i,
        {
            let e = &self.entries[i];
            if e.window == window && e.name == *name {
                return Some(i);
            }
            i = i + 1;
        }
        None
    }

    /// Binds `handler` to (`window`, `name`), in place of any handler bound there before.
    pub fn register(&mut self, window: i64, name: String, handler: H)
        requires
            old(self).wf(),
        ensures
            final(self).wf(),
            final(self).view() == old(self).view().insert((window, name@), handler),
    {
        let ghost k = (window, name@);
        let ghost s0 = self.entries@;
        match self.position(window, &name) {
            Some(i) => {
                self.entries.set(i, Registration { window, name, handler });
                let ghost s1 = self.entries@;
                assert(keys_unique(s1)) by {
                    assert forall|a: int, b: int| 0 <= a < b < s1.len() implies key_of(s1[a])
                        != key_of(s1[b]) by {
                        assert(key_of(s1[a]) == key_of(s0[a]));
                        assert(key_of(s1[b]) == key_of(s0[b]));
                    }
                }
                assert forall|k2: (i64, Seq<char>)| #[trigger]
                    entries_map(s1).contains_key(k2) == old(self).view().insert(
                        k, handler).contains_key(k2) && (entries_map(s1).contains_key(k2)
                        ==> entries_map(s1)[k2] == old(self).view().insert(k, handler)[k2]) by {
                    lemma_entries_map(s0, k2);
                    lemma_entries_map(s1, k2);
                    assert(key_of(s1[i as int]) == k);
                    if k2 != k && entries_map(s1).contains_key(k2) {
                        let j = choose|j: int| 0 <= j < s1.len() && key_of(s1[j]) == k2;
                        assert(key_of(s0[j]) == k2);
                    }
                    if k2 != k && entries_map(s0).contains_key(k2) {
                        let j = choose|j: int| 0 <= j < s0.len() && key_of(s0[j]) == k2;
                        assert(key_of(s1[j]) == k2);
                    }
                }
                assert(entries_map(s1) =~= old(self).view().insert(k, handler));
            },
            None => {
                self.entries.push(Registration { window, name, handler });
                let ghost s1 = self.entries@;
                assert(s1.drop_last() =~= s0);
                assert(keys_unique(s1)) by {
                    assert forall|a: int, b: int| 0 <= a < b < s1.len() implies key_of(s1[a])
                        != key_of(s1[b]) by {
                        if b < s0.len() {
                            assert(key_of(s1[a]) == key_of(s0[a]));
                            assert(key_of(s1[b]) == key_of(s0[b]));
                        } else {
                            assert(key_of(s1[a]) == key_of(s0[a]));
                        }
                    }
                }
            },
        }
    }

    /// The handler bound to (`window`, `name`), if any.
    pub fn lookup(&self, window: i64, name: &String) -> (r: Option<&H>)
        requires
            self.wf(),
        ensures
            r is None <==> !self.view().contains_key((window, name@)),
            r matches Some(h) ==> *h == self.view()[(window, name@)],
    {
        proof {
            lemma_entries_map(self.entries@, (window, name@));
        }
        match self.position(window, name) {
            Some(i) => Some(&self.entries[i].handler),
            None => None,
        }
    }

    /// Drops every handler of `window`, as when its webview is torn down.
    pub fn remove_window(&mut self, window: i64)
        requires
            old(self).wf(),
        ensures
            final(self).wf(),
            final(self).view() == old(self).view().restrict(
                Set::new(|k: (i64, Seq<char>)| k.0 != window),
            ),
    {
        let ghost s0 = self.entries@;
        let ghost mut idx: Seq<int> = Seq::empty();
        let mut kept: Vec<Registration<H>> = Vec::new();
        while self.entries.len() > 0
            invariant
                keys_unique(s0),
                self.entries@.len() <= s0.len(),
                self.entries@ == s0.take(self.entries@.len() as int),
                idx.len() == kept@.len(),
                forall|j: int|
                    0 <= j < idx.len() ==> self.entries@.len() <= #[trigger] idx[j] < s0.len()
                        && kept@[j] == s0[idx[j]] && s0[idx[j]].window != window,
                forall|a: int, b: int| 0 <= a < b < idx.len() ==> idx[a] > idx[b],
                forall|i: int|
                    self.entries@.len() <= i < s0.len() && s0[i].window != window ==> exists|
                        j: int,
                    | 0 <= j < idx.len() && idx[j] == i,
            decreases self.entries@.len(),
        {
            let ghost n = self.entries@.len();
            let e = self.entries.pop().unwrap();
            assert(e == s0[n - 1]);
            assert(self.entries@ =~= s0.take(n - 1));
            if e.window != window {
                kept.push(e);
                proof {
                    let ghost before = idx;
                    idx = idx.push(n - 1);
                    assert forall|i: int|
                        self.entries@.len() <= i < s0.len() && s0[i].window != window implies exists|
                            j: int,
                        | 0 <= j < idx.len() && idx[j] == i by {
                        if i == n - 1 {
                            assert(idx[idx.len() - 1] == i);
                        } else {
                            let j = choose|j: int| 0 <= j < before.len() && before[j] == i;
                            assert(idx[j] == before[j]);
                        }
                    }
                }
            }
        }
        let ghost k = kept@;
        assert(keys_unique(k)) by {
            assert forall|a: int, b: int| 0 <= a < b < k.len() implies key_of(k[a]) != key_of(
                k[b]) by {
                assert(idx[a] > idx[b]);
                assert(k[a] == s0[idx[a]]);
                assert(k[b] == s0[idx[b]]);
            }
        }
        let ghost m0 = entries_map(s0);
        let ghost keep = Set::new(|k2: (i64, Seq<char>)| k2.0 != window);
        assert forall|k2: (i64, Seq<char>)| #[trigger]
            entries_map(k).contains_key(k2) == m0.restrict(keep).contains_key(k2) && (
            entries_map(k).contains_key(k2) ==> entries_map(k)[k2] == m0.restrict(keep)[k2]) by {
            lemma_entries_map(s0, k2);
            lemma_entries_map(k, k2);
            if entries_map(k).contains_key(k2) {
                let j = choose|j: int| 0 <= j < k.len() && key_of(k[j]) == k2;
                assert(k[j] == s0[idx[j]]);
            }
            if m0.restrict(keep).contains_key(k2) {
                let i = choose|i: int| 0 <= i < s0.len() && key_of(s0[i]) == k2;
                let j = choose|j: int| 0 <= j < idx.len() && idx[j] == i;
                assert(k[j] == s0[i]);
            }
        }
        assert(entries_map(k) =~= m0.restrict(keep));
        self.entries = kept;
    }

    /// Whether a handler is bound to (`window`, `name`).
    pub fn is_registered(&self, window: i64, name: &String) -> (r: bool)
        requires
            self.wf(),
        ensures
            r == self.view().contains_key((window, name@)),
    {
        proof {
            lemma_entries_map(self.entries@, (window, name@));
        }
        self.position(window, name).is_some()
    }
}

} // verus!
