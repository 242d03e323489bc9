//! The cache of the workflows defined in each repository.
use vstd::prelude::*;

use crate::github::WorkflowDetails;

verus! {

/// A repository, as the cache knows it.
#[derive(Debug, Hash, PartialEq, Eq)]
pub struct WorkflowCacheKey {
    pub repo: String,
    pub owner: String,
}

impl View for WorkflowCacheKey {
    type V = (Seq<char>, Seq<char>);

    open spec fn view(&self) -> (Seq<char>, Seq<char>) {
        (self.owner@, self.repo@)
    }
}

impl WorkflowCacheKey {
    pub fn new(owner: String, repo: String) -> (r: WorkflowCacheKey)
        ensures
            r.owner == owner,
            r.repo == repo,
    {
        WorkflowCacheKey { repo, owner }
    }

    /// Whether both keys name the same repository.
    pub fn same_as(&self, other: &WorkflowCacheKey) -> (r: bool)
        ensures
            r == (self@ == other@),
    {
        self.owner == other.owner && self.repo == other.repo
    }
}

/// The cache's contents after a fetch of `key` returned `workflows`: the first
/// value stored under a key stays for the cache's whole life.
pub open spec fn cache_after_store(
    cached: Map<(Seq<char>, Seq<char>), Seq<WorkflowDetails>>,
    key: (Seq<char>, Seq<char>),
    workflows: Seq<WorkflowDetails>,
) -> Map<(Seq<char>, Seq<char>), Seq<WorkflowDetails>> {
    if cached.contains_key(key) {
        cached
    } else {
        cached.insert(key, workflows)
    }
}

struct CacheEntry {
    key: WorkflowCacheKey,
    workflows: Vec<WorkflowDetails>,
}

/// The workflows of each repository looked up so far.
pub struct WorkflowCache {
    entries: Vec<CacheEntry>,
}

spec fn map_of(entries: Seq<CacheEntry>) -> Map<(Seq<char>, Seq<char>), Seq<WorkflowDetails>>
    decreases entries.len(),
{
    if entries.len() == 0 {
        Map::empty()
    } else {
        map_of(entries.drop_last()).insert(entries.last().key@, entries.last().workflows@)
    }
}

spec fn keys_unique(entries: Seq<CacheEntry>) -> bool {
    forall|i: int, j: int|
        0 <= i < entries.len() && 0 <= j < entries.len() && i != j ==> (#[trigger] entries[i]).key@
            != (#[trigger] entries[j]).key@
}

proof fn lemma_map_of(entries: Seq<CacheEntry>)
    requires
        keys_unique(entries),
    ensures
        forall|k: (Seq<char>, Seq<char>)|
            #[trigger] map_of(entries).contains_key(k) <==> exists|i: int|
                0 <= i < entries.len() && (#[trigger] entries[i]).key@ == k,
        forall|i: int|
            0 <= i < entries.len() ==> map_of(entries)[(#[trigger] entries[i]).key@]
                == entries[i].workflows@,
    decreases entries.len(),
{
    if entries.len() > 0 {
        let rest = entries.drop_last();
        assert forall|i: int, j: int|
            0 <= i < rest.len() && 0 <= j < rest.len() && i != j implies (#[trigger] rest[i]).key@
            != (#[trigger] rest[j]).key@ by {
            assert(rest[i] == entries[i] && rest[j] == entries[j]);
        }
        lemma_map_of(rest);
        let last = entries.len() - 1;
        assert(entries.last() == entries[last]);
        assert forall|k: (Seq<char>, Seq<char>)|
            #[trigger] map_of(entries).contains_key(k) implies exists|i: int|
                0 <= i < entries.len() && (#[trigger] entries[i]).key@ == k by {
            if k != entries[last].key@ {
                assert(map_of(rest).contains_key(k));
                let i = choose|i: int| 0 <= i < rest.len() && (#[trigger] rest[i]).key@ == k;
                assert(entries[i] == rest[i]);
            } else {
                assert(entries[last].key@ == k);
            }
        }
        assert forall|k: (Seq<char>, Seq<char>)|
            (exists|i: int| 0 <= i < entries.len() && (#[trigger] entries[i]).key@ == k) implies #[trigger] map_of(
            entries).contains_key(k) by {
            let i = choose|i: int| 0 <= i < entries.len() && (#[trigger] entries[i]).key@ == k;
            if i < last {
                assert(rest[i] == entries[i]);
            }
        }
        assert forall|i: int| 0 <= i < entries.len() implies map_of(entries)[(
        #[trigger] entries[i]).key@] == entries[i].workflows@ by {
            if i < last {
                assert(rest[i] == entries[i]);
                assert(entries[i].key@ != entries[last].key@);
            }
        }
    }
}

proof fn lemma_vec_clone_equal(v: Vec<WorkflowDetails>, c: Vec<WorkflowDetails>)
    requires
        c.len() == v.len(),
        forall|i| #![all_triggers] 0 <= i < v.len() ==> cloned::<WorkflowDetails>(v[i], c[i]),
        v@ =~= c@ ==> v@ == c@,
    ensures
        c@ == v@,
{
    assert forall|i| 0 <= i < v.len() implies c@[i] == v@[i] by {
        assert(cloned::<WorkflowDetails>(v[i], c[i]));
    }
    assert(v@ =~= c@);
}

impl WorkflowCache {
    #[verifier::type_invariant]
    spec fn unique(&self) -> bool {
        keys_unique(self.entries@)
    }

    /// The workflows cached for each repository.
    pub closed spec fn view(&self) -> Map<(Seq<char>, Seq<char>), Seq<WorkflowDetails>> {
        map_of(self.entries@)
    }

    /// A cache that holds nothing yet.
    pub fn new() -> (r: WorkflowCache)
        ensures
            r.view() == Map::<(Seq<char>, Seq<char>), Seq<WorkflowDetails>>::empty(),
    {
        WorkflowCache { entries: Vec::new() }
    }

    fn position(&self, key: &WorkflowCacheKey) -> (r: Option<usize>)
        ensures
            match r {
                Some(i) => i < self.entries@.len() && self.entries@[i as int].key@ == key@,
                None => forall|i: int|
                    0 <= i < self.entries@.len() ==> (#[trigger] self.entries@[i]).key@ != key@,
            },
    {
        let mut i: usize = 0;
        while i < self.entries.len()
            invariant
                i <= self.entries@.len(),
                forall|j: int| 0 <= j < i ==> (#[trigger] self.entries@[j]).key@ != key@,
            decreases self.entries@.len() - i,
        {
            if self.entries[i].key.same_as(key) {
                return Some(i);
            }
            i = i + 1;
        }
        None
    }

    /// The workflows cached for `key`, or `None` on a miss.
    pub fn lookup(&self, key: &WorkflowCacheKey) -> (r: Option<Vec<WorkflowDetails>>)
        ensures
            match r {
                Some(v) => self.view().contains_key(key@) && v@ == self.view()[key@],
                None => !self.view().contains_key(key@),
            },
    {
        proof {
            use_type_invariant(self);
            lemma_map_of(self.entries@);
        }
        match self.position(key) {
            Some(i) => {
                let v = self.entries[i].workflows.clone();
                proof {
                    lemma_vec_clone_equal(self.entries@[i as int].workflows, v);
                }
                Some(v)
            },
            None => None,
        }
    }

    /// Records what a fetch of `key` returned, unless a value is cached for it
    /// already, and hands back the value that the cache now holds for `key`.
    pub fn store(&mut self, key: WorkflowCacheKey, workflows: Vec<WorkflowDetails>) -> (r: Vec<
        WorkflowDetails,
    >)
        ensures
            final(self).view() == cache_after_store(old(self).view(), key@, workflows@),
            r@ == final(self).view()[key@],
    {
        proof {
            use_type_invariant(&*self);
            lemma_map_of(self.entries@);
        }
        match self.position(&key) {
            Some(i) => {
                let v = self.entries[i].workflows.clone();
                proof {
                    lemma_vec_clone_equal(self.entries@[i as int].workflows, v);
                }
                v
            },
            None => {
                let v = workflows.clone();
                proof {
                    lemma_vec_clone_equal(workflows, v);
                }
                let ghost before = self.entries@;
                let mut entries = Vec::new();
                std::mem::swap(&mut entries, &mut self.entries);
                entries.push(CacheEntry { key, workflows });
                proof {
                    assert(entries@.drop_last() =~= before);
                    assert forall|i: int, j: int|
                        0 <= i < entries@.len() && 0 <= j < entries@.len() && i != j implies (
                        #[trigger] entries@[i]).key@ != (#[trigger] entries@[j]).key@ by {
                        if i < before.len() && j < before.len() {
                            assert(entries@[i] == before[i] && entries@[j] == before[j]);
                        } else if i < before.len() {
                            assert(entries@[i] == before[i]);
                        } else {
                            assert(entries@[j] == before[j]);
                        }
                    }
                }
                *self = WorkflowCache { entries };
                v
            },
        }
    }
}

/// Once a fetch of a repository's workflows has been stored, every later
/// lookup of that repository finds that value, and storing another fetch of
/// it changes nothing: callers that take turns on the cache fetch each
/// repository once and all receive the first result.
pub proof fn lemma_one_fetch_per_key(
    cached: Map<(Seq<char>, Seq<char>), Seq<WorkflowDetails>>,
    key: (Seq<char>, Seq<char>),
    first: Seq<WorkflowDetails>,
    later: Seq<WorkflowDetails>,
)
    requires
        !cached.contains_key(key),
    ensures
        cache_after_store(cached, key, first).contains_key(key),
        cache_after_store(cached, key, first)[key] == first,
        cache_after_store(cache_after_store(cached, key, first), key, later) == cache_after_store(
            cached,
            key,
            first,
        ),
{
}

} // verus!
