use vstd::prelude::*;

use crate::bucket::BucketMetadata;

verus! {

/// Why a registry operation was refused; each carries the name asked for.
#[derive(Clone, Debug, PartialEq, Eq)]
pub enum RegistryError {
    NotFound(String),
    AlreadyExists(String),
}

impl RegistryError {
    pub open spec fn key(&self) -> String {
        match self {
            RegistryError::NotFound(k) => *k,
            RegistryError::AlreadyExists(k) => *k,
        }
    }
}

/// No two entries share a name.
pub open spec fn names_unique(s: Seq<BucketMetadata>) -> bool {
    forall|i: int, j: int|
        0 <= i < s.len() && 0 <= j < s.len() && i != j ==> s[i].name@ != s[j].name@
}

/// Some entry is called `name`.
pub open spec fn has_name(s: Seq<BucketMetadata>, name: Seq<char>) -> bool {
    exists|i: int| 0 <= i < s.len() && s[i].name@ == name
}

/// The position of the entry called `name` (meaningful where `has_name` holds).
pub open spec fn index_of(s: Seq<BucketMetadata>, name: Seq<char>) -> int {
    choose|i: int| 0 <= i < s.len() && s[i].name@ == name
}

/// The entry called `name`, if any.
pub open spec fn lookup(s: Seq<BucketMetadata>, name: Seq<char>) -> Option<BucketMetadata> {
    if has_name(s, name) {
        Some(s[index_of(s, name)])
    } else {
        None
    }
}

/// The entries after inserting `m`: appended, unless its name is taken.
pub open spec fn after_insert(s: Seq<BucketMetadata>, m: BucketMetadata) -> Seq<BucketMetadata> {
    if has_name(s, m.name@) {
        s
    } else {
        s.push(m)
    }
}

/// The entries after removing `name`: the rest keep their order.
pub open spec fn after_remove(s: Seq<BucketMetadata>, name: Seq<char>) -> Seq<BucketMetadata> {
    if has_name(s, name) {
        s.remove(index_of(s, name))
    } else {
        s
    }
}

/// The entries after the entry called `name` is replaced by `m`, in its place.
pub open spec fn after_replace(
    s: Seq<BucketMetadata>,
    name: Seq<char>,
    m: BucketMetadata,
) -> Seq<BucketMetadata> {
    if has_name(s, name) {
        s.update(index_of(s, name), m)
    } else {
        s
    }
}

/// `m` with its name replaced by `name`.
pub open spec fn with_name(m: BucketMetadata, name: String) -> BucketMetadata {
    BucketMetadata {
        name: name,
        created_at: m.created_at,
        updated_at: m.updated_at,
        quota_size: m.quota_size,
        retention: m.retention,
    }
}

/// `index_of` is the one position that holds `name`.
pub proof fn lemma_index_of_unique(s: Seq<BucketMetadata>, name: Seq<char>, i: int)
    requires
        names_unique(s),
        0 <= i < s.len(),
        s[i].name@ == name,
    ensures
        has_name(s, name),
        index_of(s, name) == i,
{
    assert(has_name(s, name));
    let j = index_of(s, name);
    assert(s[j].name@ == name);
}

/// One completed write to the registry.
pub enum RegistryWrite {
    Insert(BucketMetadata),
    Remove(String),
    /// The entry called by the name is replaced by the whole value.
    Replace(String, BucketMetadata),
}

/// The value a write publishes, if it publishes one.
pub open spec fn written(w: RegistryWrite) -> Option<BucketMetadata> {
    match w {
        RegistryWrite::Insert(m) => Some(m),
        RegistryWrite::Remove(_) => None,
        RegistryWrite::Replace(_, m) => Some(m),
    }
}

pub open spec fn apply_write(s: Seq<BucketMetadata>, w: RegistryWrite) -> Seq<BucketMetadata> {
    match w {
        RegistryWrite::Insert(m) => after_insert(s, m),
        RegistryWrite::Remove(n) => after_remove(s, n@),
        RegistryWrite::Replace(n, m) => after_replace(s, n@, m),
    }
}

/// The entries after the writes `ws`, applied in order to `s`.
pub open spec fn run_writes(s: Seq<BucketMetadata>, ws: Seq<RegistryWrite>) -> Seq<
    BucketMetadata,
>
    decreases ws.len(),
{
    if ws.len() == 0 {
        s
    } else {
        apply_write(run_writes(s, ws.drop_last()), ws.last())
    }
}

/// `m` stood in `s` at the start, or is the whole value of one of the writes.
pub open spec fn from_some_write(
    s: Seq<BucketMetadata>,
    ws: Seq<RegistryWrite>,
    m: BucketMetadata,
) -> bool {
    s.contains(m) || exists|k: int| 0 <= k < ws.len() && written(ws[k]) == Some(m)
}

/// No torn reads: after any sequence of writes, every entry that a reader can
/// see (and so every value that `list` and `get` hand out) is an entry that
/// was there at the start or the complete value published by one write.
pub proof fn lemma_no_torn_reads(s: Seq<BucketMetadata>, ws: Seq<RegistryWrite>)
    ensures
        forall|i: int|
            0 <= i < run_writes(s, ws).len() ==> from_some_write(s, ws, #[trigger] run_writes(
                s,
                ws,
            )[i]),
        forall|name: Seq<char>|
            #[trigger] lookup(run_writes(s, ws), name) is Some ==> from_some_write(
                s,
                ws,
                lookup(run_writes(s, ws), name)->Some_0,
            ),
    decreases ws.len(),
{
    if ws.len() > 0 {
        let prev = ws.drop_last();
        let before = run_writes(s, prev);
        lemma_no_torn_reads(s, prev);
        let after = run_writes(s, ws);
        assert forall|i: int| 0 <= i < after.len() implies from_some_write(s, ws, after[i]) by {
            let w = ws.last();
            let m = after[i];
            let src: int = match w {
                RegistryWrite::Insert(x) => if has_name(before, x.name@) || i < before.len() {
                    i
                } else {
                    -1
                },
                RegistryWrite::Remove(n) => if has_name(before, n@) && i >= index_of(
                    before,
                    n@,
                ) {
                    i + 1
                } else {
                    i
                },
                RegistryWrite::Replace(n, x) => if has_name(before, n@) && i == index_of(
                    before,
                    n@,
                ) {
                    -1
                } else {
                    i
                },
            };
            if src >= 0 {
                assert(m == before[src]);
                assert(from_some_write(s, prev, m));
                if !s.contains(m) {
                    let k = choose|k: int| 0 <= k < prev.len() && written(prev[k]) == Some(m);
                    assert(ws[k] == prev[k]);
                }
            } else {
                assert(written(ws[ws.len() - 1]) == Some(m));
            }
        }
        assert forall|name: Seq<char>| #[trigger]
            lookup(after, name) is Some implies from_some_write(s, ws, lookup(after, name)->Some_0) by {
            let j = index_of(after, name);
            assert(0 <= j < after.len() && after[j].name@ == name);
            assert(from_some_write(s, ws, after[j]));
        }
    }
}

/// A bucket just inserted is found under its name, exactly as inserted.
pub proof fn lemma_insert_then_get(s: Seq<BucketMetadata>, m: BucketMetadata)
    requires
        names_unique(s),
        !has_name(s, m.name@),
    ensures
        names_unique(after_insert(s, m)),
        lookup(after_insert(s, m), m.name@) == Some(m),
{
    let t = after_insert(s, m);
    assert(t == s.push(m));
    assert(names_unique(t)) by {
        assert forall|i: int, j: int|
            0 <= i < t.len() && 0 <= j < t.len() && i != j implies t[i].name@ != t[j].name@ by {
            if i < s.len() && j < s.len() {
                assert(t[i] == s[i] && t[j] == s[j]);
            } else if i < s.len() {
                assert(t[i] == s[i]);
            } else {
                assert(t[j] == s[j]);
            }
        }
    }
    lemma_index_of_unique(t, m.name@, s.len() as int);
}

/// The entries after inserting each of `ms` in turn into `s`.
pub open spec fn insert_all(s: Seq<BucketMetadata>, ms: Seq<BucketMetadata>) -> Seq<BucketMetadata>
    decreases ms.len(),
{
    if ms.len() == 0 {
        s
    } else {
        after_insert(insert_all(s, ms.drop_last()), ms.last())
    }
}

/// Inserting buckets of distinct names into an empty registry: every insert
/// finds its name free, and the registry then holds exactly those buckets,
/// each name once, in the order of insertion.
pub proof fn lemma_distinct_inserts(ms: Seq<BucketMetadata>)
    requires
        names_unique(ms),
    ensures
        forall|k: int|
            0 <= k < ms.len() ==> !has_name(
                #[trigger] insert_all(Seq::empty(), ms.take(k)),
                ms[k].name@,
            ),
        insert_all(Seq::empty(), ms) == ms,
        names_unique(insert_all(Seq::empty(), ms)),
    decreases ms.len(),
{
    if ms.len() > 0 {
        let prev = ms.drop_last();
        assert(names_unique(prev)) by {
            assert forall|i: int, j: int|
                0 <= i < prev.len() && 0 <= j < prev.len() && i != j implies prev[i].name@
                    != prev[j].name@ by {
                assert(prev[i] == ms[i] && prev[j] == ms[j]);
            }
        }
        lemma_distinct_inserts(prev);
        let last = ms.last();
        assert(!has_name(prev, last.name@)) by {
            if has_name(prev, last.name@) {
                let i = choose|i: int| 0 <= i < prev.len() && prev[i].name@ == last.name@;
                assert(prev[i] == ms[i]);
            }
        }
        assert(insert_all(Seq::empty(), ms) =~= ms);
        assert forall|k: int|
            0 <= k < ms.len() implies !has_name(
            #[trigger] insert_all(Seq::empty(), ms.take(k)),
            ms[k].name@,
        ) by {
            if k < prev.len() {
                assert(ms.take(k) =~= prev.take(k));
                assert(ms[k] == prev[k]);
            } else {
                assert(ms.take(k) =~= prev);
            }
        }
    }
}

/// The directory of all buckets, in the order in which they were inserted.
pub struct Registry {
    entries: Vec<BucketMetadata>,
}

impl View for Registry {
    type V = Seq<BucketMetadata>;

    closed spec fn view(&self) -> Seq<BucketMetadata> {
        self.entries@
    }
}

impl Registry {
    /// Names are unique.
    pub open spec fn wf(&self) -> bool {
        names_unique(self@)
    }

    pub fn new() -> (r: Registry)
        ensures
            r.wf(),
            r@ == Seq::<BucketMetadata>::empty(),
    {
        Registry { entries: Vec::new() }
    }

    pub fn len(&self) -> (r: usize)
        ensures
            r == self@.len(),
    {
        self.entries.len()
    }

    /// The position of the entry called `name`.
    fn find(&self, name: &String) -> (r: Option<usize>)
        requires
            self.wf(),
        ensures
            r matches Some(i) ==> i < self@.len() && index_of(self@, name@) == i,
            r is Some <==> has_name(self@, name@),
    {
        let mut i: usize = 0;
        while i < self.entries.len()
            invariant
                i <= self@.len(),
                self.wf(),
                forall|k: int| 0 <= k < i ==> self@[k].name@ != name@,
            decreases self@.len() - i,
        {
            if self.entries[i].name == *name {
                proof {
                    lemma_index_of_unique(self@, name@, i as int);
                }
                return Some(i);
            }
            i = i + 1;
        }
        None
    }

    /// A copy of every entry, in insertion order.
    pub fn list(&self) -> (r: Vec<BucketMetadata>)
        ensures
            r@ == self@,
    {
        let mut out: Vec<BucketMetadata> = Vec::new();
        let mut i: usize = 0;
        while i < self.entries.len()
            invariant
                i <= self@.len(),
                out@ == self@.subrange(0, i as int),
            decreases self@.len() - i,
        {
            out.push(self.entries[i].duplicate());
            i = i + 1;
            assert(out@ =~= self@.subrange(0, i as int));
        }
        assert(out@ =~= self@);
        out
    }

    /// A copy of the entry called `name`.
    pub fn get(&self, name: &str) -> (r: Result<BucketMetadata, RegistryError>)
        requires
            self.wf(),
        ensures
            r is Ok <==> has_name(self@, name@),
            r matches Ok(m) ==> lookup(self@, name@) == Some(m),
            r matches Err(e) ==> e is NotFound && e.key()@ == name@,
    {
        let key = name.to_owned();
        match self.find(&key) {
            Some(i) => Ok(self.entries[i].duplicate()),
            None => Err(RegistryError::NotFound(key)),
        }
    }

    /// Adds `meta` under its name, unless that name is taken.
    pub fn insert(&mut self, meta: BucketMetadata) -> (r: Result<(), RegistryError>)
        requires
            old(self).wf(),
        ensures
            final(self).wf(),
            final(self)@ == after_insert(old(self)@, meta),
            r is Err <==> has_name(old(self)@, meta.name@),
            r matches Err(e) ==> e is AlreadyExists && e.key()@ == meta.name@,
    {
        match self.find(&meta.name) {
            Some(_) => Err(RegistryError::AlreadyExists(meta.name)),
            None => {
                self.entries.push(meta);
                Ok(())
            },
        }
    }

    /// Takes out the entry called `name`.
    pub fn remove(&mut self, name: &str) -> (r: Result<(), RegistryError>)
        requires
            old(self).wf(),
        ensures
            final(self).wf(),
            final(self)@ == after_remove(old(self)@, name@),
            r is Err <==> !has_name(old(self)@, name@),
            r matches Err(e) ==> e is NotFound && e.key()@ == name@,
    {
        let key = name.to_owned();
        match self.find(&key) {
            Some(i) => {
                self.entries.remove(i);
                assert forall|a: int, b: int|
                    0 <= a < self@.len() && 0 <= b < self@.len() && a != b implies self@[a].name@
                        != self@[b].name@ by {
                    let oa = if a < i { a } else { a + 1 };
                    let ob = if b < i { b } else { b + 1 };
                    assert(self@[a] == old(self)@[oa]);
                    assert(self@[b] == old(self)@[ob]);
                }
                Ok(())
            },
            None => Err(RegistryError::NotFound(key)),
        }
    }

    /// Replaces the entry called `name` by what `mutator` makes of a copy of
    /// it; the entry keeps its name and its place.
    pub fn update<F: Fn(BucketMetadata) -> BucketMetadata>(&mut self, name: &str, mutator: F) -> (r:
        Result<(), RegistryError>)
        requires
            old(self).wf(),
            forall|m: BucketMetadata| mutator.requires((m,)),
        ensures
            final(self).wf(),
            r is Err <==> !has_name(old(self)@, name@),
            r matches Err(e) ==> e is NotFound && e.key()@ == name@,
            r is Err ==> final(self)@ == old(self)@,
            r is Ok ==> exists|n: BucketMetadata|
                #![trigger mutator.ensures((old(self)@[index_of(old(self)@, name@)],), n)]
                mutator.ensures((old(self)@[index_of(old(self)@, name@)],), n) && final(self)@
                    == after_replace(
                    old(self)@,
                    name@,
                    with_name(n, old(self)@[index_of(old(self)@, name@)].name),
                ),
    {
        let key = name.to_owned();
        match self.find(&key) {
            Some(i) => {
                let changed = mutator(self.entries[i].duplicate());
                let stored = BucketMetadata {
                    name: self.entries[i].name.clone(),
                    created_at: changed.created_at,
                    updated_at: changed.updated_at,
                    quota_size: changed.quota_size,
                    retention: changed.retention,
                };
                proof {
                    assert(stored == with_name(changed, old(self)@[i as int].name));
                }
                self.entries.set(i, stored);
                assert(self@ == after_replace(old(self)@, name@, with_name(changed, old(self)@[i as int].name)));
                assert(forall|a: int| 0 <= a < self@.len() ==> self@[a].name@ == old(self)@[a].name@);
                Ok(())
            },
            None => Err(RegistryError::NotFound(key)),
        }
    }
}

} // verus!
