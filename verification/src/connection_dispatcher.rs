//! The registry of upstream connections: at most one idle handle per target.
//!
//! A handle is lent out by removing it from the registry and comes back by
//! `release`. While it is lent, the registry holds nothing for its target, so
//! that no second request can be handed the same handle.
use crate::target::{is_well_formed, MalformedTarget, Target};
use vstd::prelude::*;
use vstd::string::StringExecFns;

verus! {

/// The map that a sequence of entries stands for. A later entry wins over an
/// earlier one with the same key.
pub open spec fn entries_map<H>(entries: Seq<(String, H)>) -> Map<Seq<char>, H>
    decreases entries.len(),
{
    if entries.len() == 0 {
        Map::empty()
    } else {
        entries_map(entries.drop_last()).insert(entries.last().0@, entries.last().1)
    }
}

/// Whether no key occurs in two entries.
pub open spec fn distinct_keys<H>(entries: Seq<(String, H)>) -> bool {
    forall|i: int, j: int|
        0 <= i < entries.len() && 0 <= j < entries.len() && i != j ==> entries[i].0@
            != entries[j].0@
}

/// The map of the entries holds exactly their keys, each with its handle.
proof fn lemma_entries_map<H>(entries: Seq<(String, H)>)
    requires
        distinct_keys(entries),
    ensures
        forall|k: Seq<char>| #[trigger]
            entries_map(entries).contains_key(k) <==> exists|i: int|
                0 <= i < entries.len() && entries[i].0@ == k,
        forall|i: int|
            0 <= i < entries.len() ==> entries_map(entries).contains_key(#[trigger] entries[i].0@)
                && entries_map(entries)[entries[i].0@] == entries[i].1,
    decreases entries.len(),
{
    if entries.len() > 0 {
        let front = entries.drop_last();
        let last = entries.last();
        assert(distinct_keys(front)) by {
            assert forall|i: int, j: int|
                0 <= i < front.len() && 0 <= j < front.len() && i != j implies front[i].0@
                != front[j].0@ by {}
        }
        lemma_entries_map(front);
        assert forall|k: Seq<char>| #[trigger]
            entries_map(entries).contains_key(k) <==> exists|i: int|
                0 <= i < entries.len() && entries[i].0@ == k by {
            if entries_map(entries).contains_key(k) {
                if k != last.0@ {
                    assert(entries_map(front).contains_key(k));
                }
            }
            if exists|i: int| 0 <= i < entries.len() && entries[i].0@ == k {
                let i = choose|i: int| 0 <= i < entries.len() && entries[i].0@ == k;
                if i < front.len() {
                    assert(front[i].0@ == k);
                }
            }
        }
        assert forall|i: int| 0 <= i < entries.len() implies entries_map(entries).contains_key(
            #[trigger] entries[i].0@,
        ) && entries_map(entries)[entries[i].0@] == entries[i].1 by {
            if i < front.len() {
                assert(front[i] == entries[i]);
            }
        }
    }
}

/// Removing one entry removes its key from the map and nothing else.
proof fn lemma_remove_entry<H>(entries: Seq<(String, H)>, at: int)
    requires
        distinct_keys(entries),
        0 <= at < entries.len(),
    ensures
        distinct_keys(entries.remove(at)),
        entries_map(entries.remove(at)) == entries_map(entries).remove(entries[at].0@),
{
    let rest = entries.remove(at);
    assert(distinct_keys(rest)) by {
        assert forall|i: int, j: int|
            0 <= i < rest.len() && 0 <= j < rest.len() && i != j implies rest[i].0@
            != rest[j].0@ by {}
    }
    lemma_entries_map(entries);
    lemma_entries_map(rest);
    let removed = entries_map(entries).remove(entries[at].0@);
    assert forall|k: Seq<char>| entries_map(rest).contains_key(k) <==> removed.contains_key(
        k,
    ) by {
        if removed.contains_key(k) {
            let i = choose|i: int| 0 <= i < entries.len() && entries[i].0@ == k;
            let ri = if i < at { i } else { i - 1 };
            assert(rest[ri] == entries[i]);
        }
    }
    assert forall|k: Seq<char>| entries_map(rest).contains_key(k) implies entries_map(rest)[k]
        == removed[k] by {}
}

/// Adding an entry with a new key keeps the keys distinct.
proof fn lemma_push_entry<H>(entries: Seq<(String, H)>, entry: (String, H))
    requires
        distinct_keys(entries),
        !entries_map(entries).contains_key(entry.0@),
    ensures
        distinct_keys(entries.push(entry)),
        entries_map(entries.push(entry)) == entries_map(entries).insert(entry.0@, entry.1),
{
    lemma_entries_map(entries);
    let more = entries.push(entry);
    assert(more.drop_last() =~= entries);
    assert forall|i: int, j: int|
        0 <= i < more.len() && 0 <= j < more.len() && i != j implies more[i].0@ != more[j].0@ by {}
}

/// What the registry answers to a request for a handle.
pub enum Upstream<H> {
    /// An idle handle was found. It has left the registry and belongs to the
    /// caller until it is released or dropped.
    Loaned(H),
    /// No handle is idle for the target: the caller opens a tunnel to it and
    /// makes a handle of its own.
    Creating(Target),
}

/// What a request for a handle does to the map of idle handles, and what it
/// answers: `None` for a malformed host, else whether a handle is lent.
pub open spec fn spec_acquire<H>(idle: Map<Seq<char>, H>, host: Seq<char>) -> (
    Map<Seq<char>, H>,
    Option<Option<H>>,
) {
    if !is_well_formed(host) {
        (idle, None)
    } else if idle.contains_key(host) {
        (idle.remove(host), Some(Some(idle[host])))
    } else {
        (idle, Some(None))
    }
}

/// The idle upstream handles, by the host that names their target.
pub struct ConnectionsDispatcher<H> {
    upstream_connections: Vec<(String, H)>,
}

impl<H> View for ConnectionsDispatcher<H> {
    type V = Map<Seq<char>, H>;

    closed spec fn view(&self) -> Map<Seq<char>, H> {
        entries_map(self.upstream_connections@)
    }
}

impl<H> ConnectionsDispatcher<H> {
    /// No host has two handles.
    #[verifier::type_invariant]
    spec fn keyed(self) -> bool {
        distinct_keys(self.upstream_connections@)
    }

    /// A registry without handles.
    pub fn new() -> (registry: Self)
        ensures
            registry@ == Map::<Seq<char>, H>::empty(),
    {
        ConnectionsDispatcher { upstream_connections: Vec::new() }
    }

    /// Where the handle of `target` lies, if there is one.
    fn position(&self, target: &str) -> (found: Option<usize>)
        ensures
            match found {
                Some(at) => at < self.upstream_connections@.len()
                    && self.upstream_connections@[at as int].0@ == target@,
                None => !self@.contains_key(target@),
            },
    {
        proof {
            use_type_invariant(self);
            lemma_entries_map(self.upstream_connections@);
        }
        let key = String::from_str(target);
        let count = self.upstream_connections.len();
        let mut i: usize = 0;
        while i < count
            invariant
                count == self.upstream_connections@.len(),
                i <= count,
                key@ == target@,
                forall|j: int| 0 <= j < i ==> self.upstream_connections@[j].0@ != target@,
            decreases count - i,
        {
            if self.upstream_connections[i].0 == key {
                return Some(i);
            }
            i = i + 1;
        }
        None
    }

    /// The number of idle handles.
    pub fn len(&self) -> (count: usize)
        ensures
            count == self@.dom().len(),
            self@.dom().finite(),
    {
        proof {
            use_type_invariant(self);
            lemma_entries_count(self.upstream_connections@);
        }
        self.upstream_connections.len()
    }

    /// Whether a handle is idle for `target`.
    pub fn contains(&self, target: &str) -> (idle: bool)
        ensures
            idle == self@.contains_key(target@),
    {
        proof {
            use_type_invariant(self);
            lemma_entries_map(self.upstream_connections@);
        }
        self.position(target).is_some()
    }

    /// Takes the handle of `target` out of the registry, if there is one.
    pub fn take(&mut self, target: &str) -> (taken: Option<H>)
        ensures
            final(self)@ == old(self)@.remove(target@),
            taken == if old(self)@.contains_key(target@) {
                Some(old(self)@[target@])
            } else {
                None
            },
    {
        proof {
            use_type_invariant(&*self);
            lemma_entries_map(self.upstream_connections@);
        }
        match self.position(target) {
            Some(at) => {
                let mut entries: Vec<(String, H)> = Vec::new();
                std::mem::swap(&mut entries, &mut self.upstream_connections);
                proof {
                    lemma_remove_entry(entries@, at as int);
                }
                let entry = entries.remove(at);
                self.upstream_connections = entries;
                Some(entry.1)
            },
            None => {
                None
            },
        }
    }

    /// Hands out the handle for the target that `target` names. An idle
    /// handle leaves the registry and is lent to the caller. Where none is
    /// idle the caller is told to make one. A host that names no target is
    /// refused, and the registry stays as it is.
    pub fn get_upstream_client(&mut self, target: &str) -> (answer: Result<
        Upstream<H>,
        MalformedTarget,
    >)
        ensures
            final(self)@ == spec_acquire(old(self)@, target@).0,
            match answer {
                Ok(Upstream::Loaned(handle)) => spec_acquire(old(self)@, target@).1 == Some(
                    Some(handle),
                ),
                Ok(Upstream::Creating(wanted)) => spec_acquire(old(self)@, target@).1 == Some(
                    None::<H>,
                ) && wanted.spec_key() == target@,
                Err(_) => spec_acquire(old(self)@, target@).1 is None,
            },
    {
        let wanted = match Target::parse(target) {
            Ok(wanted) => wanted,
            Err(malformed) => {
                return Err(malformed);
            },
        };
        match self.take(target) {
            Some(handle) => Ok(Upstream::Loaned(handle)),
            None => {
                Ok(Upstream::Creating(wanted))
            },
        }
    }

    /// Takes a handle back after a request went through it: it is idle for
    /// `target` from now on. A handle that was idle for the same target is
    /// replaced and dropped.
    pub fn release(&mut self, target: &str, handle: H)
        ensures
            final(self)@ == old(self)@.insert(target@, handle),
    {
        let replaced = self.take(target);
        let key = String::from_str(target);
        let mut entries: Vec<(String, H)> = Vec::new();
        proof {
            use_type_invariant(&*self);
        }
        std::mem::swap(&mut entries, &mut self.upstream_connections);
        proof {
            lemma_push_entry(entries@, (key, handle));
        }
        entries.push((key, handle));
        self.upstream_connections = entries;
    }

    /// Forgets the handle of `target`, if there is one: the next request for
    /// it has a new one made.
    pub fn report_broken_upstream_connection(&mut self, target: &str)
        ensures
            final(self)@ == old(self)@.remove(target@),
    {
        let broken = self.take(target);
    }
}

/// The map of entries with distinct keys has as many keys as there are
/// entries.
proof fn lemma_entries_count<H>(entries: Seq<(String, H)>)
    requires
        distinct_keys(entries),
    ensures
        entries_map(entries).dom().finite(),
        entries_map(entries).dom().len() == entries.len(),
    decreases entries.len(),
{
    if entries.len() > 0 {
        let front = entries.drop_last();
        assert(distinct_keys(front)) by {
            assert forall|i: int, j: int|
                0 <= i < front.len() && 0 <= j < front.len() && i != j implies front[i].0@
                != front[j].0@ by {}
        }
        lemma_entries_count(front);
        lemma_entries_map(front);
        assert(!entries_map(front).contains_key(entries.last().0@));
    }
}

/// A request on an empty registry has a handle made for every well-formed
/// host: nothing is there to lend, so the tunnel provider is asked, and the
/// registry stays empty.
pub proof fn lemma_empty_registry_creates<H>(host: Seq<char>)
    requires
        is_well_formed(host),
    ensures
        spec_acquire(Map::<Seq<char>, H>::empty(), host) == (
            Map::<Seq<char>, H>::empty(),
            Some(None::<H>),
        ),
{
}

/// After a handle was reported broken, the next request for its target has a
/// new one made: the broken handle is never lent again.
pub proof fn lemma_invalidated_is_created_anew<H>(idle: Map<Seq<char>, H>, host: Seq<char>)
    requires
        is_well_formed(host),
    ensures
        spec_acquire(idle.remove(host), host) == (idle.remove(host), Some(None::<H>)),
{
}

/// Reporting a handle broken twice is as good as once.
pub proof fn lemma_invalidate_is_idempotent<H>(idle: Map<Seq<char>, H>, host: Seq<char>)
    ensures
        idle.remove(host).remove(host) == idle.remove(host),
        !idle.remove(host).contains_key(host),
{
}

/// A handle that was released is the one that the next request for its
/// target is lent, and lending it leaves none behind for that target.
pub proof fn lemma_released_is_lent<H>(idle: Map<Seq<char>, H>, host: Seq<char>, handle: H)
    requires
        is_well_formed(host),
    ensures
        spec_acquire(idle.insert(host, handle), host).1 == Some(Some(handle)),
        !spec_acquire(idle.insert(host, handle), host).0.contains_key(host),
{
}

} // verus!
