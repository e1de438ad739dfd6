//! The attribute cache: records kept under the path of their file, so that no
//! file is read for its attributes twice.
//!
//! The cache holds its entries in the order in which they came. A path is
//! never held twice, and no entry is ever dropped or replaced.

use vstd::prelude::*;
use crate::sort::{items_of, sort, sorted_seq, strip_keys, Keyed};
use crate::text::texts;

verus! {

/// Records by the path of their file.
pub struct CacheData<T> {
    data: Vec<(String, T)>,
}

/// Whether `path` is among `paths`.
pub open spec fn listed(paths: Seq<Seq<char>>, path: Seq<char>) -> bool {
    exists|i: int| 0 <= i < paths.len() && paths[i] == path
}

/// The paths of `paths` that are not among `keys`, each once, in the order of
/// their first appearance: the files that have to be read.
pub open spec fn missing_from(keys: Seq<Seq<char>>, paths: Seq<Seq<char>>) -> Seq<Seq<char>>
    decreases paths.len(),
{
    if paths.len() == 0 {
        Seq::empty()
    } else {
        let front = missing_from(keys, paths.drop_last());
        if listed(keys, paths.last()) || listed(front, paths.last()) {
            front
        } else {
            front.push(paths.last())
        }
    }
}

/// No path is listed twice.
pub open spec fn all_distinct(paths: Seq<Seq<char>>) -> bool {
    forall|i: int, j: int| 0 <= i < j < paths.len() ==> paths[i] != paths[j]
}

/// What is missing is listed once, is asked for, and is not cached; and every
/// path that is asked for is cached or missing.
pub proof fn lemma_missing_from(keys: Seq<Seq<char>>, paths: Seq<Seq<char>>)
    ensures
        all_distinct(missing_from(keys, paths)),
        forall|p: Seq<char>|
            listed(missing_from(keys, paths), p) <==> listed(paths, p) && !listed(keys, p),
    decreases paths.len(),
{
    let out = missing_from(keys, paths);
    if paths.len() > 0 {
        let front = missing_from(keys, paths.drop_last());
        let last = paths.last();
        lemma_missing_from(keys, paths.drop_last());
        assert forall|p: Seq<char>| listed(out, p) <==> listed(paths, p) && !listed(keys, p) by {
            if listed(paths, p) {
                let i = choose|i: int| 0 <= i < paths.len() && paths[i] == p;
                if i < paths.len() - 1 {
                    assert(paths.drop_last()[i] == p);
                }
            }
            if listed(paths.drop_last(), p) {
                let i = choose|i: int| 0 <= i < paths.drop_last().len() && paths.drop_last()[i] == p;
                assert(paths[i] == p);
            }
            assert(paths[paths.len() - 1] == last);
            if listed(front, p) {
                let i = choose|i: int| 0 <= i < front.len() && front[i] == p;
                if out != front {
                    assert(out[i] == p);
                }
            }
            if listed(out, p) {
                let i = choose|i: int| 0 <= i < out.len() && out[i] == p;
                if out != front && i < front.len() {
                    assert(front[i] == p);
                }
            }
            if out != front {
                assert(out[out.len() - 1] == last);
            }
        }
        if out != front {
            assert forall|i: int, j: int| 0 <= i < j < out.len() implies out[i] != out[j] by {
                if j < front.len() {
                    assert(front[i] != front[j]);
                } else {
                    assert(front[i] == out[i]);
                }
            }
        }
    }
}

/// With every path cached, nothing is missing: a second run over the same
/// files reads none of them.
pub proof fn lemma_warm_cache_misses_nothing(keys: Seq<Seq<char>>, paths: Seq<Seq<char>>)
    requires
        forall|i: int| 0 <= i < paths.len() ==> listed(keys, #[trigger] paths[i]),
    ensures
        missing_from(keys, paths) == Seq::<Seq<char>>::empty(),
    decreases paths.len(),
{
    if paths.len() > 0 {
        assert forall|i: int| 0 <= i < paths.drop_last().len() implies listed(
            keys,
            #[trigger] paths.drop_last()[i],
        ) by {
            assert(paths.drop_last()[i] == paths[i]);
        }
        lemma_warm_cache_misses_nothing(keys, paths.drop_last());
        assert(listed(keys, paths[paths.len() - 1]));
    }
}

/// Once the missing paths have been added to the cached ones, every path that
/// was asked for is cached, and a second run has nothing left to read.
pub proof fn lemma_second_run_is_idle(keys: Seq<Seq<char>>, paths: Seq<Seq<char>>)
    ensures
        missing_from(keys + missing_from(keys, paths), paths) == Seq::<Seq<char>>::empty(),
{
    let fresh = missing_from(keys, paths);
    let warm = keys + fresh;
    lemma_missing_from(keys, paths);
    assert forall|i: int| 0 <= i < paths.len() implies listed(warm, #[trigger] paths[i]) by {
        let p = paths[i];
        assert(listed(paths, p));
        if listed(keys, p) {
            let k = choose|k: int| 0 <= k < keys.len() && keys[k] == p;
            assert(warm[k] == p);
        } else {
            assert(listed(fresh, p));
            let k = choose|k: int| 0 <= k < fresh.len() && fresh[k] == p;
            assert(warm[keys.len() + k] == p);
        }
    }
    lemma_warm_cache_misses_nothing(warm, paths);
}

impl<T> CacheData<T> {
    /// The invariant of the cache: no path is held twice.
    pub closed spec fn wf(self) -> bool {
        forall|i: int, j: int| 0 <= i < j < self.data@.len() ==> self.data@[i].0@ != self.data@[j].0@
    }

    /// In a cache that keeps its invariant the paths are distinct.
    pub proof fn lemma_paths_distinct(self)
        requires
            self.wf(),
        ensures
            all_distinct(self.keys()),
    {
        assert forall|i: int, j: int| 0 <= i < j < self.keys().len() implies self.keys()[i] != self.keys()[j] by {
            assert(self.keys()[i] == self.data@[i].0@ && self.keys()[j] == self.data@[j].0@);
        }
    }

    /// The entries, path and record, in the order in which they came.
    pub closed spec fn entries(self) -> Seq<(Seq<char>, T)> {
        Seq::new(self.data@.len(), |i: int| (self.data@[i].0@, self.data@[i].1))
    }

    /// The cached paths, in the order in which they came.
    pub open spec fn keys(self) -> Seq<Seq<char>> {
        Seq::new(self.entries().len(), |i: int| self.entries()[i].0)
    }

    /// The cached records, in the order in which they came.
    pub open spec fn records(self) -> Seq<T> {
        Seq::new(self.entries().len(), |i: int| self.entries()[i].1)
    }

    /// Whether there is a record for `path`.
    pub open spec fn has(self, path: Seq<char>) -> bool {
        listed(self.keys(), path)
    }

    /// A cache without entries.
    pub fn new() -> (out: Self)
        ensures
            out.wf(),
            out.entries() == Seq::<(Seq<char>, T)>::empty(),
    {
        let out = CacheData { data: Vec::new() };
        assert(out.entries() =~= Seq::<(Seq<char>, T)>::empty());
        out
    }

    /// The cache of a snapshot whose entries come in no particular order:
    /// they are taken in by the order of their paths, so that the cache is
    /// the same however they come. Of entries with one path the first in that
    /// order stays.
    pub fn from_snapshot(pairs: Vec<(String, T)>) -> (out: Self)
        ensures
            out.wf(),
            out.entries() == absorbed(Seq::empty(), cached(by_path(pairs@))),
    {
        broadcast use vstd::std_specs::vec::axiom_spec_into_iter;

        let ghost all = pairs@;
        let mut keyed: Vec<Keyed<String, (String, T)>> = Vec::new();
        for pair in it: pairs.into_iter()
            invariant
                it.seq() == all,
                keyed.len() == it.index(),
                forall|j: int| 0 <= j < it.index() ==> keyed@[j] == keyed_by_path(all)[j],
        {
            let key = pair.0.clone();
            keyed.push(Keyed { key, item: pair });
        }
        assert(keyed@ =~= keyed_by_path(all));
        sort(&mut keyed);
        let mut out = CacheData::new();
        out.absorb(strip_keys(keyed));
        out
    }

    /// The number of entries.
    pub fn len(&self) -> (n: usize)
        ensures
            n == self.entries().len(),
    {
        self.data.len()
    }

    /// Where the record for `path` lies, if there is one.
    fn position(&self, path: &str) -> (r: Option<usize>)
        ensures
            r matches Some(i) ==> i < self.data@.len() && self.data@[i as int].0@ == path@,
            r is None ==> !self.has(path@),
    {
        let mut i: usize = 0;
        while i < self.data.len()
            invariant
                i <= self.data@.len(),
                forall|j: int| 0 <= j < i ==> self.data@[j].0@ != path@,
            decreases self.data@.len() - i,
        {
            if crate::text::same_text(
                &crate::text::chars_of(self.data[i].0.as_str()),
                &crate::text::chars_of(path),
            ) {
                return Some(i);
            }
            i += 1;
        }
        None
    }

    /// Whether there is a record for `path`.
    pub fn contains_key(&self, path: &str) -> (r: bool)
        ensures
            r == self.has(path@),
    {
        match self.position(path) {
            Some(i) => {
                assert(self.keys()[i as int] == path@);
                true
            },
            None => false,
        }
    }

    /// The record for `path`, if there is one.
    pub fn get(&self, path: &str) -> (r: Option<&T>)
        ensures
            r is Some <==> self.has(path@),
            r matches Some(record) ==> exists|i: int|
                0 <= i < self.entries().len() && self.entries()[i] == (path@, *record),
    {
        match self.position(path) {
            Some(i) => {
                assert(self.keys()[i as int] == path@);
                assert(self.entries()[i as int] == (path@, self.data@[i as int].1));
                Some(&self.data[i].1)
            },
            None => None,
        }
    }

    /// Keeps `record` under `path`, unless the path has a record already: the
    /// record that came first stays. Returns whether the record was taken in.
    pub fn insert_new(&mut self, path: String, record: T) -> (added: bool)
        requires
            old(self).wf(),
        ensures
            final(self).wf(),
            added == !old(self).has(path@),
            final(self).entries() == if added {
                old(self).entries().push((path@, record))
            } else {
                old(self).entries()
            },
    {
        match self.position(path.as_str()) {
            Some(i) => {
                assert(self.keys()[i as int] == path@);
                false
            },
            None => {
                let ghost before = self.entries();
                assert forall|j: int| 0 <= j < self.data@.len() implies self.data@[j].0@ != path@ by {
                    assert(self.keys()[j] == self.data@[j].0@);
                }
                self.data.push((path, record));
                assert(self.entries() =~= before.push((path@, record)));
                true
            },
        }
    }

    /// Takes in each of `fresh` whose path has no record yet, in their order.
    pub fn absorb(&mut self, fresh: Vec<(String, T)>)
        requires
            old(self).wf(),
        ensures
            final(self).wf(),
            final(self).entries() == absorbed(old(self).entries(), cached(fresh@)),
    {
        broadcast use vstd::std_specs::vec::axiom_spec_into_iter;

        let ghost start = self.entries();
        let ghost all = cached(fresh@);
        assert(all.take(0) =~= Seq::<(Seq<char>, T)>::empty());
        for pair in it: fresh.into_iter()
            invariant
                it.seq() == fresh@,
                all == cached(fresh@),
                self.wf(),
                self.entries() == absorbed(start, all.take(it.index())),
        {
            proof {
                assert(all.take(it.index() + 1).drop_last() =~= all.take(it.index()));
                assert(all[it.index()] == (pair.0@, pair.1));
                assert(paths_of(self.entries()) =~= self.keys());
            }
            let (path, record) = pair;
            self.insert_new(path, record);
        }
        assert(all.take(all.len() as int) =~= all);
    }

    /// The paths of `paths` that have no record, each once, in the order of
    /// their first appearance.
    pub fn missing(&self, paths: &Vec<String>) -> (out: Vec<String>)
        ensures
            texts(out@) == missing_from(self.keys(), texts(paths@)),
    {
        let mut out: Vec<String> = Vec::new();
        let ghost all = texts(paths@);
        let mut i: usize = 0;
        assert(all.take(0) =~= Seq::<Seq<char>>::empty());
        assert(texts(out@) =~= Seq::<Seq<char>>::empty());
        while i < paths.len()
            invariant
                i <= paths.len(),
                all == texts(paths@),
                texts(out@) == missing_from(self.keys(), all.take(i as int)),
            decreases paths.len() - i,
        {
            proof {
                assert(all.take(i + 1).drop_last() =~= all.take(i as int));
                assert(all.take(i + 1).last() == paths@[i as int]@);
            }
            let path = &paths[i];
            if !self.contains_key(path.as_str()) && !holds_text(&out, path.as_str()) {
                let ghost done = texts(out@);
                out.push(path.clone());
                assert(texts(out@) =~= done.push(path@));
            }
            i += 1;
        }
        assert(all.take(i as int) =~= all);
        out
    }

    /// The records, in the order in which they came.
    pub fn into_values(self) -> (out: Vec<T>)
        ensures
            out@ == self.records(),
    {
        broadcast use vstd::std_specs::vec::axiom_spec_into_iter;

        let ghost all = self.records();
        let ghost pairs = self.data@;
        let mut out: Vec<T> = Vec::new();
        for pair in it: self.data.into_iter()
            invariant
                it.seq() == pairs,
                out.len() == it.index(),
                forall|j: int| 0 <= j < it.index() ==> out@[j] == pairs[j].1,
        {
            out.push(pair.1);
        }
        assert(out@ =~= all);
        out
    }

    /// The entries, in the order in which they came.
    pub fn into_entries(self) -> (out: Vec<(String, T)>)
        ensures
            cached(out@) == self.entries(),
    {
        assert(cached(self.data@) =~= self.entries());
        self.data
    }
}

/// Pairs of a path and a record, each with its path as key.
pub open spec fn keyed_by_path<T>(pairs: Seq<(String, T)>) -> Seq<Keyed<String, (String, T)>> {
    Seq::new(pairs.len(), |i: int| Keyed { key: pairs[i].0, item: pairs[i] })
}

/// Pairs of a path and a record in the lexicographic order of their paths;
/// pairs with one path keep their order.
pub open spec fn by_path<T>(pairs: Seq<(String, T)>) -> Seq<(String, T)> {
    items_of(sorted_seq(keyed_by_path(pairs)))
}

/// Pairs of a path and a record as entries: each path as its text.
pub open spec fn cached<T>(pairs: Seq<(String, T)>) -> Seq<(Seq<char>, T)> {
    Seq::new(pairs.len(), |i: int| (pairs[i].0@, pairs[i].1))
}

/// The paths of a sequence of entries.
pub open spec fn paths_of<T>(entries: Seq<(Seq<char>, T)>) -> Seq<Seq<char>> {
    Seq::new(entries.len(), |i: int| entries[i].0)
}

/// The entries after each of `fresh` has been taken in, in order, where its
/// path had no entry yet.
pub open spec fn absorbed<T>(entries: Seq<(Seq<char>, T)>, fresh: Seq<(Seq<char>, T)>) -> Seq<
    (Seq<char>, T),
>
    decreases fresh.len(),
{
    if fresh.len() == 0 {
        entries
    } else {
        let front = absorbed(entries, fresh.drop_last());
        if listed(paths_of(front), fresh.last().0) {
            front
        } else {
            front.push(fresh.last())
        }
    }
}

/// The cache only grows. Whatever it takes in, the entries that were there
/// stay where they were and as they were, and the cache then knows exactly
/// the paths that it knew and the paths that came.
pub proof fn lemma_absorbed_grows<T>(entries: Seq<(Seq<char>, T)>, fresh: Seq<(Seq<char>, T)>)
    ensures
        absorbed(entries, fresh).len() >= entries.len(),
        absorbed(entries, fresh).take(entries.len() as int) == entries,
        forall|p: Seq<char>|
            listed(paths_of(absorbed(entries, fresh)), p) <==> listed(paths_of(entries), p) || listed(
                paths_of(fresh),
                p,
            ),
    decreases fresh.len(),
{
    let out = absorbed(entries, fresh);
    if fresh.len() == 0 {
        assert(out.take(entries.len() as int) =~= entries);
    } else {
        let front = fresh.drop_last();
        let last = fresh.last();
        let mid = absorbed(entries, front);
        lemma_absorbed_grows(entries, front);
        assert(out.take(entries.len() as int) =~= mid.take(entries.len() as int));
        assert forall|p: Seq<char>|
            listed(paths_of(out), p) <==> listed(paths_of(entries), p) || listed(paths_of(fresh), p) by {
            assert(paths_of(fresh)[fresh.len() - 1] == last.0);
            if listed(paths_of(front), p) {
                let k = choose|k: int| 0 <= k < paths_of(front).len() && paths_of(front)[k] == p;
                assert(paths_of(fresh)[k] == p);
            }
            if listed(paths_of(fresh), p) {
                let k = choose|k: int| 0 <= k < paths_of(fresh).len() && paths_of(fresh)[k] == p;
                if k < front.len() {
                    assert(paths_of(front)[k] == p);
                }
            }
            if listed(paths_of(mid), p) {
                let k = choose|k: int| 0 <= k < paths_of(mid).len() && paths_of(mid)[k] == p;
                if out != mid {
                    assert(paths_of(out)[k] == p);
                }
            }
            if listed(paths_of(out), p) {
                let k = choose|k: int| 0 <= k < paths_of(out).len() && paths_of(out)[k] == p;
                if out != mid && k < mid.len() {
                    assert(paths_of(mid)[k] == p);
                }
            }
            if out != mid {
                assert(paths_of(out)[out.len() - 1] == last.0);
            }
        }
    }
}

/// Entries with new and distinct paths are all taken in, in their order, and
/// what was there stays as it was.
pub proof fn lemma_absorbed_fresh<T>(entries: Seq<(Seq<char>, T)>, fresh: Seq<(Seq<char>, T)>)
    requires
        all_distinct(paths_of(fresh)),
        forall|i: int| 0 <= i < fresh.len() ==> !listed(paths_of(entries), #[trigger] paths_of(fresh)[i]),
    ensures
        absorbed(entries, fresh) == entries + fresh,
    decreases fresh.len(),
{
    if fresh.len() == 0 {
        assert(entries + fresh =~= entries);
    } else {
        let front = fresh.drop_last();
        let last = fresh.last();
        assert(paths_of(front) =~= paths_of(fresh).drop_last());
        assert forall|i: int| 0 <= i < front.len() implies !listed(
            paths_of(entries),
            #[trigger] paths_of(front)[i],
        ) by {
            assert(paths_of(front)[i] == paths_of(fresh)[i]);
        }
        lemma_absorbed_fresh(entries, front);
        let so_far = entries + front;
        if listed(paths_of(so_far), last.0) {
            let k = choose|k: int| 0 <= k < paths_of(so_far).len() && paths_of(so_far)[k] == last.0;
            if k < entries.len() {
                assert(paths_of(entries)[k] == last.0);
                assert(paths_of(fresh)[fresh.len() - 1] == last.0);
            } else {
                assert(paths_of(fresh)[k - entries.len()] == last.0);
                assert(paths_of(fresh)[fresh.len() - 1] == last.0);
            }
        }
        assert(so_far.push(last) =~= entries + fresh);
    }
}

/// A run over known files changes nothing. Let the cache take in a record
/// for each path that was missing. Then every entry that was there is still
/// there, nothing is missing any more, and a second run, which has nothing to
/// take in, leaves the cache as it is.
pub proof fn lemma_rerun_changes_nothing<T>(
    entries: Seq<(Seq<char>, T)>,
    paths: Seq<Seq<char>>,
    fresh: Seq<(Seq<char>, T)>,
)
    requires
        paths_of(fresh) == missing_from(paths_of(entries), paths),
    ensures
        absorbed(entries, fresh) == entries + fresh,
        missing_from(paths_of(absorbed(entries, fresh)), paths) == Seq::<Seq<char>>::empty(),
        absorbed(absorbed(entries, fresh), Seq::empty()) == absorbed(entries, fresh),
{
    let keys = paths_of(entries);
    lemma_missing_from(keys, paths);
    assert forall|i: int| 0 <= i < fresh.len() implies !listed(keys, #[trigger] paths_of(fresh)[i]) by {
        assert(listed(paths_of(fresh), paths_of(fresh)[i]));
    }
    lemma_absorbed_fresh(entries, fresh);
    assert(paths_of(entries + fresh) =~= keys + missing_from(keys, paths));
    lemma_second_run_is_idle(keys, paths);
}

/// Whether `path` is among the strings of `list`.
pub fn holds_text(list: &Vec<String>, path: &str) -> (r: bool)
    ensures
        r == listed(texts(list@), path@),
{
    let wanted = crate::text::chars_of(path);
    let mut i: usize = 0;
    while i < list.len()
        invariant
            i <= list.len(),
            wanted@ == path@,
            forall|j: int| 0 <= j < i ==> texts(list@)[j] != path@,
        decreases list.len() - i,
    {
        if crate::text::same_text(&crate::text::chars_of(list[i].as_str()), &wanted) {
            assert(texts(list@)[i as int] == path@);
            return true;
        }
        i += 1;
    }
    false
}

} // verus!
