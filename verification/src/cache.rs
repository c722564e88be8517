//! The connection cache: at most one backend per project.
//!
//! A backend is made on the first access to a project and kept until the
//! project's credentials are saved anew. The cache never drops an entry on
//! its own account: a backend whose connection broke stays cached, and its
//! operations fail until the credentials are saved anew.

use vstd::prelude::*;
use vstd::string::*;
use crate::text::same_text;

verus! {

/// The backend that the first entry under `id` holds.
spec fn first_entry<B>(entries: Seq<(String, B)>, id: Seq<char>) -> Option<B>
    decreases entries.len(),
{
    if entries.len() == 0 {
        None
    } else if entries[0].0@ == id {
        Some(entries[0].1)
    } else {
        first_entry(entries.drop_first(), id)
    }
}

/// Where no entry before `at` is under `id`, the entry at `at` decides.
proof fn lemma_first_entry_at<B>(entries: Seq<(String, B)>, id: Seq<char>, at: int)
    requires
        0 <= at <= entries.len(),
        forall|k: int| 0 <= k < at ==> (#[trigger] entries[k]).0@ != id,
        at < entries.len() ==> entries[at].0@ == id,
    ensures
        at < entries.len() ==> first_entry(entries, id) == Some(entries[at].1),
        at == entries.len() ==> first_entry(entries, id) is None,
    decreases entries.len(),
{
    if entries.len() == 0 {
    } else if at == 0 {
    } else {
        assert(entries[0].0@ != id);
        let rest = entries.drop_first();
        assert forall|k: int| 0 <= k < at - 1 implies (#[trigger] rest[k]).0@ != id by {
            assert(rest[k] == entries[k + 1]);
        }
        lemma_first_entry_at(rest, id, at - 1);
    }
}

/// An entry added at the end is found only where none was found before.
proof fn lemma_first_entry_after_push<B>(
    entries: Seq<(String, B)>,
    added: (String, B),
    id: Seq<char>,
)
    ensures
        first_entry(entries.push(added), id) == if first_entry(entries, id) is Some {
            first_entry(entries, id)
        } else if added.0@ == id {
            Some(added.1)
        } else {
            None
        },
    decreases entries.len(),
{
    let grown = entries.push(added);
    if entries.len() == 0 {
        assert(grown.drop_first() =~= Seq::<(String, B)>::empty());
    } else {
        assert(grown[0] == entries[0]);
        assert(grown.drop_first() =~= entries.drop_first().push(added));
        lemma_first_entry_after_push(entries.drop_first(), added, id);
    }
}

/// Removing an entry leaves what is found under every other identifier.
proof fn lemma_first_entry_after_remove<B>(entries: Seq<(String, B)>, at: int, other: Seq<char>)
    requires
        0 <= at < entries.len(),
        entries[at].0@ != other,
    ensures
        first_entry(entries.remove(at), other) == first_entry(entries, other),
    decreases entries.len(),
{
    let shrunk = entries.remove(at);
    if at == 0 {
        assert(shrunk =~= entries.drop_first());
    } else {
        assert(shrunk[0] == entries[0]);
        assert(shrunk.drop_first() =~= entries.drop_first().remove(at - 1));
        lemma_first_entry_after_remove(entries.drop_first(), at - 1, other);
    }
}

/// Backends by project identifier. Each identifier has at most one entry.
pub struct ConnectionCache<B> {
    entries: Vec<(String, B)>,
}

impl<B> View for ConnectionCache<B> {
    type V = Map<Seq<char>, B>;

    /// The backend cached for each project that has one.
    closed spec fn view(&self) -> Map<Seq<char>, B> {
        Map::new(
            |id: Seq<char>| first_entry(self.entries@, id) is Some,
            |id: Seq<char>| first_entry(self.entries@, id)->0,
        )
    }
}

/// No two entries are under one identifier.
spec fn distinct_ids<B>(entries: Seq<(String, B)>) -> bool {
    forall|i: int, j: int|
        0 <= i < j < entries.len() ==> (#[trigger] entries[i]).0@ != (#[trigger] entries[j]).0@
}

impl<B> ConnectionCache<B> {
    /// Each identifier has at most one entry.
    #[verifier::type_invariant]
    spec fn one_entry_per_id(self) -> bool {
        distinct_ids(self.entries@)
    }

    /// An empty cache.
    pub fn new() -> (r: Self)
        ensures
            r@ == Map::<Seq<char>, B>::empty(),
    {
        let cache = ConnectionCache { entries: Vec::new() };
        assert(cache@ =~= Map::<Seq<char>, B>::empty());
        cache
    }

    /// The position of the entry under `id`, or the number of entries where
    /// there is none.
    fn position(&self, id: &str) -> (r: usize)
        ensures
            r <= self.entries@.len(),
            r < self.entries@.len() ==> self.entries@[r as int].0@ == id@ && first_entry(
                self.entries@,
                id@,
            ) == Some(self.entries@[r as int].1),
            r == self.entries@.len() ==> first_entry(self.entries@, id@) is None,
            forall|k: int|
                0 <= k < self.entries@.len() && k != r ==> (#[trigger] self.entries@[k]).0@ != id@,
    {
        proof {
            use_type_invariant(self);
        }
        let mut i: usize = 0;
        while i < self.entries.len()
            invariant
                i <= self.entries@.len(),
                distinct_ids(self.entries@),
                forall|k: int| 0 <= k < i ==> (#[trigger] self.entries@[k]).0@ != id@,
            decreases self.entries.len() - i,
        {
            if same_text(self.entries[i].0.as_str(), id) {
                proof {
                    lemma_first_entry_at(self.entries@, id@, i as int);
                    assert(distinct_ids(self.entries@));
                    assert forall|k: int| i < k < self.entries@.len() implies (
                    #[trigger] self.entries@[k]).0@ != id@ by {
                        assert(self.entries@[i as int].0@ != self.entries@[k].0@);
                    }
                }
                return i;
            }
            i += 1;
        }
        proof {
            lemma_first_entry_at(self.entries@, id@, i as int);
        }
        i
    }

    /// Decides whether a backend is cached for project `id`.
    pub fn contains(&self, id: &str) -> (r: bool)
        ensures
            r == self@.contains_key(id@),
    {
        self.position(id) < self.entries.len()
    }

    /// The backend cached for project `id`: a hit gives the instance that was
    /// inserted, a miss gives `None`.
    pub fn get(&self, id: &str) -> (r: Option<&B>)
        ensures
            match r {
                Some(b) => self@.contains_key(id@) && self@[id@] == *b,
                None => !self@.contains_key(id@),
            },
    {
        let at = self.position(id);
        if at < self.entries.len() {
            Some(&self.entries[at].1)
        } else {
            None
        }
    }

    /// Caches `backend` for project `id` unless one is cached already.
    ///
    /// Returns whether the backend was taken. The entry of every other
    /// project stays as it is, and so does that of `id` on a hit.
    pub fn insert(&mut self, id: &str, backend: B) -> (r: bool)
        ensures
            r == !old(self)@.contains_key(id@),
            final(self)@ == if r {
                old(self)@.insert(id@, backend)
            } else {
                old(self)@
            },
    {
        let at = self.position(id);
        if at < self.entries.len() {
            return false;
        }
        proof {
            use_type_invariant(&*self);
        }
        let ghost before = self.entries@;
        let ghost cached = self@;
        let added = (String::from_str(id), backend);
        let mut entries: Vec<(String, B)> = Vec::new();
        core::mem::swap(&mut self.entries, &mut entries);
        entries.push(added);
        core::mem::swap(&mut self.entries, &mut entries);
        proof {
            assert forall|other: Seq<char>|
                first_entry(self.entries@, other) == if first_entry(before, other) is Some {
                    first_entry(before, other)
                } else if other == id@ {
                    Some(backend)
                } else {
                    None
                } by {
                lemma_first_entry_after_push(before, added, other);
            }
            assert(self@ =~= cached.insert(id@, backend));
        }
        true
    }

    /// Drops what is cached for project `id`, so that the next access makes a
    /// backend anew.
    ///
    /// Returns whether anything was cached. The entry of every other project
    /// stays as it is.
    pub fn invalidate(&mut self, id: &str) -> (r: bool)
        ensures
            r == old(self)@.contains_key(id@),
            final(self)@ == old(self)@.remove(id@),
    {
        let at = self.position(id);
        if at >= self.entries.len() {
            assert(self@ =~= self@.remove(id@));
            return false;
        }
        proof {
            use_type_invariant(&*self);
        }
        let ghost before = self.entries@;
        let ghost cached = self@;
        let mut entries: Vec<(String, B)> = Vec::new();
        core::mem::swap(&mut self.entries, &mut entries);
        entries.remove(at);
        proof {
            assert forall|i: int, j: int| 0 <= i < j < entries@.len() implies (
            #[trigger] entries@[i]).0@ != (#[trigger] entries@[j]).0@ by {
                let x = if i < at {
                    i
                } else {
                    i + 1
                };
                let y = if j < at {
                    j
                } else {
                    j + 1
                };
                assert(entries@[i] == before[x]);
                assert(entries@[j] == before[y]);
            }
        }
        core::mem::swap(&mut self.entries, &mut entries);
        proof {
            let after = self.entries@;
            assert forall|k: int| 0 <= k < after.len() implies (#[trigger] after[k]).0@ != id@ by {
                if k < at {
                    assert(after[k] == before[k]);
                } else {
                    assert(after[k] == before[k + 1]);
                }
            }
            lemma_first_entry_at(after, id@, after.len() as int);
            assert forall|other: Seq<char>| other != id@ implies first_entry(after, other)
                == first_entry(before, other) by {
                lemma_first_entry_after_remove(before, at as int, other);
            }
            assert(self@ =~= cached.remove(id@));
        }
        true
    }
}

/// A project whose credentials were saved anew is connected anew: once its
/// entry is dropped, the next backend that is inserted for it is taken and is
/// the one that is found, and no other project's entry has changed.
pub proof fn lemma_invalidate_then_insert<B>(cached: Map<Seq<char>, B>, id: Seq<char>, backend: B)
    ensures
        !cached.remove(id).contains_key(id),
        cached.remove(id).insert(id, backend)[id] == backend,
        forall|other: Seq<char>|
            other != id ==> cached.remove(id).insert(id, backend).contains_key(other)
                == cached.contains_key(other),
        forall|other: Seq<char>|
            other != id && cached.contains_key(other) ==> cached.remove(id).insert(
                id,
                backend,
            )[other] == cached[other],
{
}

} // verus!
