//! ID-keyed registries.
//!
//! Each library of the document (sources, geometries, cameras, skins,
//! animations, scenes) is a mapping from declared ID to shared entity,
//! built once during the parse and read-only afterward.  Inserting a
//! duplicate ID is a hard error, so lookup by key is unambiguous.

use vstd::prelude::*;

use crate::text::str_eq;

verus! {

/// The value under the first entry keyed `key`, if any.
pub open spec fn assoc_get<T>(s: Seq<(String, T)>, key: Seq<char>) -> Option<T>
    decreases s.len(),
{
    if s.len() == 0 {
        None
    } else if assoc_get(s.drop_last(), key) is Some {
        assoc_get(s.drop_last(), key)
    } else if s.last().0@ == key {
        Some(s.last().1)
    } else {
        None
    }
}

/// Whether no two entries of `s` share a key.
pub open spec fn keys_unique<T>(s: Seq<(String, T)>) -> bool {
    forall|i: int, j: int| 0 <= i < j < s.len() ==> s[i].0@ != s[j].0@
}

proof fn lemma_assoc_extends<T>(s: Seq<(String, T)>, key: Seq<char>, j: int)
    requires
        0 <= j <= s.len(),
        assoc_get(s.take(j), key) is Some,
    ensures
        assoc_get(s, key) == assoc_get(s.take(j), key),
    decreases s.len() - j,
{
    if j < s.len() {
        assert(s.take(j + 1).drop_last() =~= s.take(j));
        lemma_assoc_extends(s, key, j + 1);
    } else {
        assert(s.take(j) =~= s);
    }
}

/// A per-library mapping from declared ID to shared entity.  Built once,
/// read-only afterward; a duplicate ID is refused at insertion.
pub struct Registry<T> {
    pub entries: Vec<(String, T)>,
}

impl<T> Registry<T> {
    /// Whether no two entries share a key.
    pub open spec fn wf(&self) -> bool {
        keys_unique(self.entries@)
    }

    /// What the registry maps `key` to.
    pub open spec fn spec_get(&self, key: Seq<char>) -> Option<T> {
        assoc_get(self.entries@, key)
    }

    /// An empty registry.
    pub fn new() -> (r: Registry<T>)
        ensures
            r.entries@ == Seq::<(String, T)>::empty(),
            r.wf(),
    {
        Registry { entries: Vec::new() }
    }

    /// How many entries the registry holds.
    pub fn len(&self) -> (r: usize)
        ensures
            r == self.entries@.len(),
    {
        self.entries.len()
    }

    /// The entry at position `i`, in insertion order.
    pub fn entry_at(&self, i: usize) -> (r: &(String, T))
        requires
            i < self.entries@.len(),
        ensures
            *r == self.entries@[i as int],
    {
        &self.entries[i]
    }

    /// Looks the ID `id` up.
    pub fn get(&self, id: &str) -> (r: Option<&T>)
        ensures
            match r {
                Some(v) => self.spec_get(id@) == Some(*v),
                None => self.spec_get(id@) is None,
            },
    {
        let n = self.entries.len();
        let mut i: usize = 0;
        while i < n
            invariant
                n == self.entries@.len(),
                i <= n,
                assoc_get(self.entries@.take(i as int), id@) is None,
            decreases n - i,
        {
            proof {
                assert(self.entries@.take(i + 1).drop_last() =~= self.entries@.take(i as int));
            }
            if str_eq(self.entries[i].0.as_str(), id) {
                proof {
                    lemma_assoc_extends(self.entries@, id@, i + 1);
                }
                return Some(&self.entries[i].1);
            }
            i = i + 1;
        }
        proof {
            assert(self.entries@.take(n as int) =~= self.entries@);
        }
        None
    }

    /// Registers `v` under `id`; refuses an `id` that is already taken and
    /// leaves the registry unchanged in that case.
    pub fn insert(&mut self, id: String, v: T) -> (r: Result<(), ()>)
        ensures
            match r {
                Ok(()) => old(self).spec_get(id@) is None && final(self).entries@ == old(
                    self,
                ).entries@.push((id, v)),
                Err(()) => old(self).spec_get(id@) is Some && *final(self) == *old(self),
            },
            old(self).wf() ==> final(self).wf(),
    {
        let taken = matches!(self.get(id.as_str()), Some(_));
        if taken {
            return Err(());
        }
        proof {
            if old(self).wf() {
                lemma_assoc_in_range(self.entries@, id@);
            }
        }
        self.entries.push((id, v));
        Ok(())
    }
}

/// Whether every key resolution of `before` still holds in `after`:
/// registries only ever grow, so resolved references stay resolved.
pub open spec fn keys_stable<T>(before: Seq<(String, T)>, after: Seq<(String, T)>) -> bool {
    forall|key: Seq<char>|
        assoc_get(before, key) is Some ==> #[trigger] assoc_get(after, key) == assoc_get(
            before,
            key,
        )
}

/// Key stability composes.
pub proof fn lemma_keys_stable_trans<T>(
    a: Seq<(String, T)>,
    b: Seq<(String, T)>,
    c: Seq<(String, T)>,
)
    requires
        keys_stable(a, b),
        keys_stable(b, c),
    ensures
        keys_stable(a, c),
{
    assert forall|key: Seq<char>|
        assoc_get(a, key) is Some implies #[trigger] assoc_get(c, key) == assoc_get(a, key) by {
        assert(assoc_get(b, key) == assoc_get(a, key));
    }
}

/// Appending an entry keeps every existing resolution and makes a fresh
/// key resolve to the new value.
pub proof fn lemma_assoc_push<T>(s: Seq<(String, T)>, id: String, v: T)
    requires
        assoc_get(s, id@) is None,
    ensures
        assoc_get(s.push((id, v)), id@) == Some(v),
        keys_stable(s, s.push((id, v))),
{
    assert(s.push((id, v)).drop_last() =~= s);
    assert forall|key: Seq<char>|
        assoc_get(s, key) is Some implies #[trigger] assoc_get(s.push((id, v)), key) == assoc_get(
        s,
        key,
    ) by {}
}

/// One appended entry keeps every existing resolution.
pub proof fn lemma_keys_stable_grow<T>(before: Seq<(String, T)>, after: Seq<(String, T)>)
    requires
        after.len() == before.len() + 1,
        after.drop_last() == before,
    ensures
        keys_stable(before, after),
{
    assert forall|key: Seq<char>|
        assoc_get(before, key) is Some implies #[trigger] assoc_get(after, key) == assoc_get(
        before,
        key,
    ) by {}
}

/// When `key` resolves to a value, some entry carries exactly that key
/// and value.
pub proof fn lemma_assoc_some_exists<T>(s: Seq<(String, T)>, key: Seq<char>)
    requires
        assoc_get(s, key) is Some,
    ensures
        exists|i: int|
            0 <= i < s.len() && (#[trigger] s[i]).0@ == key && s[i].1 == assoc_get(s, key)->0,
    decreases s.len(),
{
    if s.len() > 0 {
        if assoc_get(s.drop_last(), key) is Some {
            lemma_assoc_some_exists(s.drop_last(), key);
            let i = choose|i: int|
                0 <= i < s.drop_last().len() && (#[trigger] s.drop_last()[i]).0@ == key
                    && s.drop_last()[i].1 == assoc_get(s.drop_last(), key)->0;
            assert(s[i].0@ == key && s[i].1 == assoc_get(s, key)->0);
        } else {
            assert(s[s.len() - 1].0@ == key && s[s.len() - 1].1 == assoc_get(s, key)->0);
        }
    }
}

/// When `key` resolves to nothing, no entry carries it.
pub(crate) proof fn lemma_assoc_in_range<T>(s: Seq<(String, T)>, key: Seq<char>)
    requires
        assoc_get(s, key) is None,
    ensures
        forall|i: int| 0 <= i < s.len() ==> s[i].0@ != key,
    decreases s.len(),
{
    if s.len() > 0 {
        lemma_assoc_in_range(s.drop_last(), key);
        assert(forall|i: int| 0 <= i < s.len() - 1 ==> s[i] == s.drop_last()[i]);
    }
}

} // verus!
