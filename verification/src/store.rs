//! The two in-memory stores: caller profiles and generated documents.
//!
//! Each store is a vector of `(String, value)` entries with pairwise distinct
//! keys, viewed as a `Map` from key characters to the value's view.

use vstd::prelude::*;

verus! {

/// The map described by an entry list, later entries winning.
pub open spec fn map_of<V: View>(s: Seq<(String, V)>) -> Map<Seq<char>, V::V>
    decreases s.len(),
{
    if s.len() == 0 {
        Map::empty()
    } else {
        map_of(s.drop_last()).insert(s.last().0@, s.last().1@)
    }
}

/// No two entries share a key.
pub open spec fn unique_keys<V: View>(s: Seq<(String, V)>) -> bool {
    forall|i: int, j: int| 0 <= i < j < s.len() ==> (#[trigger] s[i]).0@ != (#[trigger] s[j]).0@
}

/// The domain of `map_of` is exactly the key views of the entries.
pub proof fn lemma_map_of_domain<V: View>(s: Seq<(String, V)>, k: Seq<char>)
    ensures
        map_of(s).contains_key(k) <==> exists|i: int| 0 <= i < s.len() && (#[trigger] s[i]).0@ == k,
    decreases s.len(),
{
    if s.len() > 0 {
        lemma_map_of_domain(s.drop_last(), k);
        if map_of(s).contains_key(k) {
            if s.last().0@ == k {
                assert(s[s.len() - 1].0@ == k);
            } else {
                let i = choose|i: int| 0 <= i < s.drop_last().len() && (#[trigger] s.drop_last()[i]).0@ == k;
                assert(s[i].0@ == k);
            }
        }
        if exists|i: int| 0 <= i < s.len() && (#[trigger] s[i]).0@ == k {
            let i = choose|i: int| 0 <= i < s.len() && (#[trigger] s[i]).0@ == k;
            if i < s.len() - 1 {
                assert(s.drop_last()[i].0@ == k);
            }
        }
    }
}

/// With unique keys, the map sends each entry's key to that entry's value.
pub proof fn lemma_map_of_index<V: View>(s: Seq<(String, V)>, i: int)
    requires
        unique_keys(s),
        0 <= i < s.len(),
    ensures
        map_of(s).contains_key(s[i].0@),
        map_of(s)[s[i].0@] == s[i].1@,
    decreases s.len(),
{
    lemma_map_of_domain(s, s[i].0@);
    if i < s.len() - 1 {
        assert(unique_keys(s.drop_last())) by {
            assert(forall|x: int, y: int|
                0 <= x < y < s.drop_last().len() ==> (#[trigger] s.drop_last()[x]).0@ != (
                #[trigger] s.drop_last()[y]).0@);
        }
        assert(s.drop_last()[i] == s[i]);
        lemma_map_of_index(s.drop_last(), i);
        assert(s.last().0@ != s[i].0@);
    }
}

/// Updating the value at one entry updates the map at that entry's key.
pub proof fn lemma_map_of_update<V: View>(s: Seq<(String, V)>, i: int, key: String, v: V)
    requires
        unique_keys(s),
        0 <= i < s.len(),
        key@ == s[i].0@,
    ensures
        map_of(s.update(i, (key, v))) =~= map_of(s).insert(s[i].0@, v@),
        unique_keys(s.update(i, (key, v))),
    decreases s.len(),
{
    let t = s.update(i, (key, v));
    assert(unique_keys(t)) by {
        assert(forall|x: int, y: int|
            0 <= x < y < t.len() ==> (#[trigger] t[x]).0@ != (#[trigger] t[y]).0@) by {
            assert(forall|x: int| 0 <= x < t.len() && x != i ==> #[trigger] t[x] == s[x]);
        }
    }
    if i == s.len() - 1 {
        assert(t.drop_last() =~= s.drop_last());
    } else {
        assert(t.drop_last() =~= s.drop_last().update(i, (key, v)));
        assert(unique_keys(s.drop_last())) by {
            assert(forall|x: int, y: int|
                0 <= x < y < s.drop_last().len() ==> (#[trigger] s.drop_last()[x]).0@ != (
                #[trigger] s.drop_last()[y]).0@);
        }
        assert(s.drop_last()[i] == s[i]);
        lemma_map_of_update(s.drop_last(), i, key, v);
        assert(t.last() == s.last());
        assert(s.last().0@ != s[i].0@);
    }
}

/// Appending an entry inserts its pair into the map.
pub proof fn lemma_map_of_push<V: View>(s: Seq<(String, V)>, key: String, v: V)
    ensures
        map_of(s.push((key, v))) =~= map_of(s).insert(key@, v@),
{
    assert(s.push((key, v)).drop_last() =~= s);
}

/// Per-caller usage metadata.
#[derive(Debug)]
pub struct UserProfile {
    pub name: Option<String>,
    pub document_count: u32,
    pub last_active: u64,
}

/// The mathematical content of a profile.
pub struct ProfileView {
    pub name: Option<Seq<char>>,
    pub document_count: u32,
    pub last_active: u64,
}

impl View for UserProfile {
    type V = ProfileView;

    open spec fn view(&self) -> ProfileView {
        ProfileView {
            name: match self.name {
                Some(n) => Some(n@),
                None => None,
            },
            document_count: self.document_count,
            last_active: self.last_active,
        }
    }
}

impl Clone for UserProfile {
    fn clone(&self) -> (r: Self)
        ensures
            r@ == self@,
    {
        UserProfile {
            name: match &self.name {
                Some(n) => Some(n.clone()),
                None => None,
            },
            document_count: self.document_count,
            last_active: self.last_active,
        }
    }
}

/// The profile of a freshly created caller: no name, zero documents.
pub open spec fn fresh_profile(now: u64) -> ProfileView {
    ProfileView { name: None, document_count: 0, last_active: now }
}

/// The lazy-init rule: what the profile map looks like after an
/// authenticated interaction of `k` at `now` — created with no name and a
/// zero count if absent, other fields kept if present, last-active always
/// refreshed.
pub open spec fn touched(m: Map<Seq<char>, ProfileView>, k: Seq<char>, now: u64) -> Map<
    Seq<char>,
    ProfileView,
> {
    m.insert(
        k,
        ProfileView {
            name: if m.contains_key(k) {
                m[k].name
            } else {
                None
            },
            document_count: if m.contains_key(k) {
                m[k].document_count
            } else {
                0
            },
            last_active: now,
        },
    )
}

/// Law: a caller's first authenticated interaction creates exactly one
/// profile for it — the rest of the map is untouched — and that profile has
/// no name and a document count of zero.
pub proof fn lemma_first_touch_creates_fresh_profile(
    m: Map<Seq<char>, ProfileView>,
    k: Seq<char>,
    now: u64,
)
    requires
        !m.contains_key(k),
    ensures
        touched(m, k, now)[k] == fresh_profile(now),
        touched(m, k, now).dom() =~= m.dom().insert(k),
        forall|k2: Seq<char>|
            k2 != k && m.contains_key(k2) ==> #[trigger] touched(m, k, now)[k2] == m[k2],
{
}

/// Law: a `put` of a text under a key followed by a `get` of the same key
/// returns that text unchanged.
pub proof fn lemma_put_get_round_trip(docs: Map<Seq<char>, Seq<char>>, k: Seq<char>, text: Seq<char>)
    ensures
        docs.insert(k, text).contains_key(k),
        docs.insert(k, text)[k] == text,
{
}

/// Mapping from caller identity text to usage profile.
pub struct ProfileStore {
    entries: Vec<(String, UserProfile)>,
}

impl View for ProfileStore {
    type V = Map<Seq<char>, ProfileView>;

    closed spec fn view(&self) -> Map<Seq<char>, ProfileView> {
        map_of(self.entries@)
    }
}

impl ProfileStore {
    pub closed spec fn wf(&self) -> bool {
        unique_keys(self.entries@)
    }

    pub fn new() -> (r: Self)
        ensures
            r.wf(),
            r@ =~= Map::<Seq<char>, ProfileView>::empty(),
    {
        ProfileStore { entries: Vec::new() }
    }

    /// The index of the entry for `key`, if one exists.
    fn find(&self, key: &String) -> (r: Option<usize>)
        ensures
            match r {
                Some(i) => i < self.entries@.len() && self.entries@[i as int].0@ == key@,
                None => forall|j: int|
                    0 <= j < self.entries@.len() ==> (#[trigger] self.entries@[j]).0@ != key@,
            },
    {
        let mut i: usize = 0;
        while i < self.entries.len()
            invariant
                i <= self.entries@.len(),
                forall|j: int| 0 <= j < i ==> (#[trigger] self.entries@[j]).0@ != key@,
            decreases self.entries@.len() - i,
        {
            if self.entries[i].0 == *key {
                return Some(i);
            }
            i += 1;
        }
        None
    }

    /// The lazy-init step run on every authenticated interaction: creates the
    /// profile with no name and zero documents if absent, and refreshes the
    /// last-active time either way.
    pub fn touch(&mut self, key: &String, now: u64)
        requires
            old(self).wf(),
        ensures
            final(self).wf(),
            final(self)@ =~= old(self)@.insert(
                key@,
                ProfileView {
                    name: if old(self)@.contains_key(key@) {
                        old(self)@[key@].name
                    } else {
                        None
                    },
                    document_count: if old(self)@.contains_key(key@) {
                        old(self)@[key@].document_count
                    } else {
                        0
                    },
                    last_active: now,
                },
            ),
    {
        match self.find(key) {
            Some(i) => {
                proof {
                    lemma_map_of_index(self.entries@, i as int);
                }
                let updated = UserProfile {
                    name: match &self.entries[i].1.name {
                        Some(n) => Some(n.clone()),
                        None => None,
                    },
                    document_count: self.entries[i].1.document_count,
                    last_active: now,
                };
                proof {
                    lemma_map_of_update(self.entries@, i as int, *key, updated);
                }
                let k = key.clone();
                self.entries.set(i, (k, updated));
            },
            None => {
                proof {
                    lemma_map_of_domain(self.entries@, key@);
                }
                let created = UserProfile { name: None, document_count: 0, last_active: now };
                proof {
                    lemma_map_of_push(self.entries@, *key, created);
                }
                let k = key.clone();
                self.entries.push((k, created));
                assert(unique_keys(self.entries@)) by {
                    assert(forall|x: int|
                        0 <= x < self.entries@.len() - 1 ==> #[trigger] self.entries@[x] == old(
                            self,
                        ).entries@[x]);
                }
            },
        }
    }

    /// Adds one to the document count of an existing profile and refreshes
    /// its last-active time.
    pub fn increment_document_count(&mut self, key: &String, now: u64)
        requires
            old(self).wf(),
            old(self)@.contains_key(key@),
            old(self)@[key@].document_count < u32::MAX,
        ensures
            final(self).wf(),
            final(self)@ =~= old(self)@.insert(
                key@,
                ProfileView {
                    name: old(self)@[key@].name,
                    document_count: (old(self)@[key@].document_count + 1) as u32,
                    last_active: now,
                },
            ),
    {
        match self.find(key) {
            Some(i) => {
                proof {
                    lemma_map_of_index(self.entries@, i as int);
                }
                let updated = UserProfile {
                    name: match &self.entries[i].1.name {
                        Some(n) => Some(n.clone()),
                        None => None,
                    },
                    document_count: self.entries[i].1.document_count + 1,
                    last_active: now,
                };
                proof {
                    lemma_map_of_update(self.entries@, i as int, *key, updated);
                }
                let k = key.clone();
                self.entries.set(i, (k, updated));
            },
            None => {
                proof {
                    lemma_map_of_domain(self.entries@, key@);
                }
            },
        }
    }

    /// Creates the profile by the lazy-init rule if absent, then overwrites
    /// its name and refreshes its last-active time.
    pub fn set_name(&mut self, key: &String, name: String, now: u64)
        requires
            old(self).wf(),
        ensures
            final(self).wf(),
            final(self)@ =~= old(self)@.insert(
                key@,
                ProfileView {
                    name: Some(name@),
                    document_count: if old(self)@.contains_key(key@) {
                        old(self)@[key@].document_count
                    } else {
                        0
                    },
                    last_active: now,
                },
            ),
    {
        match self.find(key) {
            Some(i) => {
                proof {
                    lemma_map_of_index(self.entries@, i as int);
                }
                let updated = UserProfile {
                    name: Some(name),
                    document_count: self.entries[i].1.document_count,
                    last_active: now,
                };
                proof {
                    lemma_map_of_update(self.entries@, i as int, *key, updated);
                }
                let k = key.clone();
                self.entries.set(i, (k, updated));
            },
            None => {
                proof {
                    lemma_map_of_domain(self.entries@, key@);
                }
                let created = UserProfile { name: Some(name), document_count: 0, last_active: now };
                proof {
                    lemma_map_of_push(self.entries@, *key, created);
                }
                let k = key.clone();
                self.entries.push((k, created));
                assert(unique_keys(self.entries@)) by {
                    assert(forall|x: int|
                        0 <= x < self.entries@.len() - 1 ==> #[trigger] self.entries@[x] == old(
                            self,
                        ).entries@[x]);
                }
            },
        }
    }

    /// The stored profile, or nothing if the caller never interacted.
    pub fn get(&self, key: &String) -> (r: Option<UserProfile>)
        requires
            self.wf(),
        ensures
            match r {
                Some(p) => self@.contains_key(key@) && p@ == self@[key@],
                None => !self@.contains_key(key@),
            },
    {
        match self.find(key) {
            Some(i) => {
                proof {
                    lemma_map_of_index(self.entries@, i as int);
                }
                Some(self.entries[i].1.clone())
            },
            None => {
                proof {
                    lemma_map_of_domain(self.entries@, key@);
                }
                None
            },
        }
    }
}

/// Mapping from generated document key to document text; the store only
/// grows, and entries are never rewritten except on a key collision.
pub struct DocumentStore {
    entries: Vec<(String, String)>,
}

impl View for DocumentStore {
    type V = Map<Seq<char>, Seq<char>>;

    closed spec fn view(&self) -> Map<Seq<char>, Seq<char>> {
        map_of(self.entries@)
    }
}

impl DocumentStore {
    pub closed spec fn wf(&self) -> bool {
        unique_keys(self.entries@)
    }

    pub fn new() -> (r: Self)
        ensures
            r.wf(),
            r@ =~= Map::<Seq<char>, Seq<char>>::empty(),
    {
        DocumentStore { entries: Vec::new() }
    }

    fn find(&self, key: &String) -> (r: Option<usize>)
        ensures
            match r {
                Some(i) => i < self.entries@.len() && self.entries@[i as int].0@ == key@,
                None => forall|j: int|
                    0 <= j < self.entries@.len() ==> (#[trigger] self.entries@[j]).0@ != key@,
            },
    {
        let mut i: usize = 0;
        while i < self.entries.len()
            invariant
                i <= self.entries@.len(),
                forall|j: int| 0 <= j < i ==> (#[trigger] self.entries@[j]).0@ != key@,
            decreases self.entries@.len() - i,
        {
            if self.entries[i].0 == *key {
                return Some(i);
            }
            i += 1;
        }
        None
    }

    /// Inserts the text at `key`, overwriting whatever a colliding key held.
    pub fn put(&mut self, key: String, text: String)
        requires
            old(self).wf(),
        ensures
            final(self).wf(),
            final(self)@ =~= old(self)@.insert(key@, text@),
    {
        match self.find(&key) {
            Some(i) => {
                proof {
                    lemma_map_of_update(self.entries@, i as int, key, text);
                }
                self.entries.set(i, (key, text));
            },
            None => {
                proof {
                    lemma_map_of_push(self.entries@, key, text);
                }
                self.entries.push((key, text));
                assert(unique_keys(self.entries@)) by {
                    assert(forall|x: int|
                        0 <= x < self.entries@.len() - 1 ==> #[trigger] self.entries@[x] == old(
                            self,
                        ).entries@[x]);
                }
            },
        }
    }

    /// The stored text under `key`, or nothing.
    pub fn get(&self, key: &String) -> (r: Option<String>)
        requires
            self.wf(),
        ensures
            match r {
                Some(t) => self@.contains_key(key@) && t@ == self@[key@],
                None => !self@.contains_key(key@),
            },
    {
        match self.find(key) {
            Some(i) => {
                proof {
                    lemma_map_of_index(self.entries@, i as int);
                }
                Some(self.entries[i].1.clone())
            },
            None => {
                proof {
                    lemma_map_of_domain(self.entries@, key@);
                }
                None
            },
        }
    }

    /// Every stored pair whose key begins with `prefix`: exactly the map
    /// entries with that prefix, each once, in unspecified order.
    pub fn list_with_prefix(&self, prefix: &String) -> (r: Vec<(String, String)>)
        requires
            self.wf(),
        ensures
            forall|j: int|
                0 <= j < r@.len() ==> {
                    &&& prefix@.is_prefix_of((#[trigger] r@[j]).0@)
                    &&& self@.contains_key(r@[j].0@)
                    &&& r@[j].1@ == self@[r@[j].0@]
                },
            forall|k: Seq<char>|
                self@.contains_key(k) && prefix@.is_prefix_of(k) ==> exists|j: int|
                    0 <= j < r@.len() && (#[trigger] r@[j]).0@ == k,
            forall|j1: int, j2: int|
                0 <= j1 < j2 < r@.len() ==> (#[trigger] r@[j1]).0@ != (#[trigger] r@[j2]).0@,
    {
        let mut r: Vec<(String, String)> = Vec::new();
        let mut i: usize = 0;
        while i < self.entries.len()
            invariant
                self.wf(),
                i <= self.entries@.len(),
                forall|j: int|
                    0 <= j < r@.len() ==> exists|e: int|
                        0 <= e < i && (#[trigger] r@[j]).0@ == (#[trigger] self.entries@[e]).0@
                            && r@[j].1@ == self.entries@[e].1@,
                forall|j: int| 0 <= j < r@.len() ==> prefix@.is_prefix_of((#[trigger] r@[j]).0@),
                forall|e: int|
                    0 <= e < i && prefix@.is_prefix_of((#[trigger] self.entries@[e]).0@)
                        ==> exists|j: int|
                        0 <= j < r@.len() && (#[trigger] r@[j]).0@ == self.entries@[e].0@,
                forall|j1: int, j2: int|
                    0 <= j1 < j2 < r@.len() ==> (#[trigger] r@[j1]).0@ != (#[trigger] r@[j2]).0@,
            decreases self.entries@.len() - i,
        {
            let ghost io = i as int;
            let ghost old_r = r@;
            let matched = crate::text::str_starts_with(self.entries[i].0.as_str(), prefix.as_str());
            if matched {
                let k = self.entries[i].0.clone();
                let t = self.entries[i].1.clone();
                r.push((k, t));
            }
            i += 1;
            proof {
                if matched {
                    let n = old_r.len() as int;
                    assert(forall|j: int| 0 <= j < n ==> #[trigger] r@[j] == old_r[j]);
                    assert(r@[n].0@ == self.entries@[io].0@);
                    assert(r@[n].1@ == self.entries@[io].1@);
                    assert forall|j: int| 0 <= j < r@.len() implies exists|e: int|
                        0 <= e < i && ((#[trigger] r@[j]).0@ == (#[trigger] self.entries@[e]).0@
                            && r@[j].1@ == self.entries@[e].1@) by {
                        if j < n {
                            let e = choose|e: int|
                                0 <= e < io && (#[trigger] old_r[j]).0@ == (
                                #[trigger] self.entries@[e]).0@ && old_r[j].1@
                                    == self.entries@[e].1@;
                            assert(0 <= e < i && r@[j].0@ == self.entries@[e].0@ && r@[j].1@
                                == self.entries@[e].1@);
                        } else {
                            assert(0 <= io < i && r@[j].0@ == self.entries@[io].0@ && r@[j].1@
                                == self.entries@[io].1@);
                        }
                    }
                    assert forall|e: int|
                        0 <= e < i && prefix@.is_prefix_of(
                            (#[trigger] self.entries@[e]).0@,
                        ) implies exists|j: int|
                        0 <= j < r@.len() && (#[trigger] r@[j]).0@ == self.entries@[e].0@ by {
                        if e < io {
                            let j = choose|j: int|
                                0 <= j < n && (#[trigger] old_r[j]).0@ == self.entries@[e].0@;
                            assert(0 <= j < r@.len() && r@[j].0@ == self.entries@[e].0@);
                        } else {
                            assert(0 <= n < r@.len() && r@[n].0@ == self.entries@[e].0@);
                        }
                    }
                    assert forall|j1: int, j2: int| 0 <= j1 < j2 < r@.len() implies (
                    #[trigger] r@[j1]).0@ != (#[trigger] r@[j2]).0@ by {
                        if j2 == n {
                            let e = choose|e: int|
                                0 <= e < io && (#[trigger] old_r[j1]).0@ == (
                                #[trigger] self.entries@[e]).0@ && old_r[j1].1@
                                    == self.entries@[e].1@;
                            assert(self.entries@[e].0@ != self.entries@[io].0@);
                        }
                    }
                } else {
                    assert(!prefix@.is_prefix_of(self.entries@[io].0@));
                }
            }
        }
        proof {
            assert forall|j: int| 0 <= j < r@.len() implies self@.contains_key(
                (#[trigger] r@[j]).0@,
            ) && r@[j].1@ == self@[r@[j].0@] by {
                let e = choose|e: int|
                    0 <= e < self.entries@.len() && (#[trigger] r@[j]).0@ == (
                    #[trigger] self.entries@[e]).0@ && r@[j].1@ == self.entries@[e].1@;
                lemma_map_of_index(self.entries@, e);
            }
            assert forall|k: Seq<char>|
                self@.contains_key(k) && prefix@.is_prefix_of(k) implies exists|j: int|
                0 <= j < r@.len() && (#[trigger] r@[j]).0@ == k by {
                lemma_map_of_domain(self.entries@, k);
                let e = choose|e: int|
                    0 <= e < self.entries@.len() && (#[trigger] self.entries@[e]).0@ == k;
                assert(prefix@.is_prefix_of(self.entries@[e].0@));
            }
        }
        r
    }
}

} // verus!
