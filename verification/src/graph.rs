//! The graph of a package's modules: one record for each module, keyed by
//! the module's path.
use vstd::prelude::*;
use crate::error::{MergeError, MergeErrorView};
use crate::filter::is_ignored;
use crate::item::{ItemView, SourceItem, items_view};
use crate::paths::{child_path, root_path};

verus! {

/// What is known of one module.
#[derive(Debug, PartialEq, Eq)]
pub struct ModuleInfo {
    /// The module's items, without those that are test-only. Module
    /// declarations stand as they were written.
    pub content: Vec<SourceItem>,
    /// The file that the items were read from.
    pub file_path: String,
    /// That file relative to the package's source directory, if it lies
    /// under it.
    pub rel_path: Option<String>,
}

/// What a [`ModuleInfo`] holds.
pub ghost struct InfoView {
    pub content: Seq<ItemView>,
    pub file_path: Seq<char>,
    pub rel_path: Option<Seq<char>>,
}

impl DeepView for ModuleInfo {
    type V = InfoView;

    open spec fn deep_view(&self) -> InfoView {
        InfoView {
            content: items_view(self.content@),
            file_path: self.file_path@,
            rel_path: self.rel_path.deep_view(),
        }
    }
}

/// One record of a graph with its key.
pub ghost struct EntryView {
    pub path: Seq<char>,
    pub info: InfoView,
}

/// The index of the first record from `from` on that is keyed by `path`.
pub open spec fn position_from(entries: Seq<EntryView>, path: Seq<char>, from: int) -> Option<int>
    decreases entries.len() - from,
{
    if from < 0 || from >= entries.len() {
        None
    } else if entries[from].path == path {
        Some(from)
    } else {
        position_from(entries, path, from + 1)
    }
}

/// The index of the record keyed by `path`.
pub open spec fn position_of(entries: Seq<EntryView>, path: Seq<char>) -> Option<int> {
    position_from(entries, path, 0)
}

/// Some record is keyed by `path`.
pub open spec fn has_path(entries: Seq<EntryView>, path: Seq<char>) -> bool {
    position_of(entries, path) is Some
}

/// The record keyed by `path`.
pub open spec fn record_of(entries: Seq<EntryView>, path: Seq<char>) -> Option<InfoView> {
    match position_of(entries, path) {
        Some(i) => Some(entries[i].info),
        None => None,
    }
}

/// No two records have the same key.
pub open spec fn distinct_paths(entries: Seq<EntryView>) -> bool {
    forall|i: int, j: int|
        0 <= i < j < entries.len() ==> (#[trigger] entries[i]).path != (#[trigger] entries[j]).path
}

/// No record holds a test-only item among its own items.
pub open spec fn filtered(entries: Seq<EntryView>) -> bool {
    forall|i: int, k: int|
        0 <= i < entries.len() && 0 <= k < entries[i].info.content.len() ==> !is_ignored(
            #[trigger] entries[i].info.content[k],
        )
}

/// The module that a declaration of `name` in the module at `mod_path`
/// stands for has a record. A declaration never stands for the root.
pub open spec fn resolves(entries: Seq<EntryView>, mod_path: Seq<char>, name: Seq<char>) -> bool {
    child_path(mod_path, name) != root_path() && has_path(entries, child_path(mod_path, name))
}

/// Every module that is declared among the items of a record has a record
/// of its own.
pub open spec fn complete(entries: Seq<EntryView>) -> bool {
    forall|a: int, k: int|
        0 <= a < entries.len() && 0 <= k < entries[a].info.content.len() && (
        #[trigger] entries[a].info.content[k]) is Module ==> resolves(
            entries,
            entries[a].path,
            entries[a].info.content[k]->Module_name,
        )
}

/// The records after one more is added under `path`. A path that is taken
/// already is refused: a record is never replaced.
pub open spec fn inserted(entries: Seq<EntryView>, path: Seq<char>, info: InfoView) -> Result<
    Seq<EntryView>,
    MergeErrorView,
> {
    if has_path(entries, path) {
        Err(MergeErrorView::PathCollision { path })
    } else {
        Ok(entries.push(EntryView { path, info }))
    }
}

/// What `position_from` finds is a record with the key, and no record
/// between `from` and it has the key.
pub proof fn lemma_position_from(entries: Seq<EntryView>, path: Seq<char>, from: int)
    requires
        0 <= from,
    ensures
        match position_from(entries, path, from) {
            Some(i) => from <= i < entries.len() && entries[i].path == path && forall|j: int|
                from <= j < i ==> (#[trigger] entries[j]).path != path,
            None => forall|j: int| from <= j < entries.len() ==> (#[trigger] entries[j]).path != path,
        },
    decreases entries.len() - from,
{
    if from < entries.len() && entries[from].path != path {
        lemma_position_from(entries, path, from + 1);
    }
}

/// A key is in the graph exactly when some record has it.
pub proof fn lemma_has_path(entries: Seq<EntryView>, path: Seq<char>)
    ensures
        has_path(entries, path) <==> exists|j: int|
            0 <= j < entries.len() && (#[trigger] entries[j]).path == path,
{
    lemma_position_from(entries, path, 0);
}

/// The modules of a package, each under its path, in the order in which they
/// were registered. A path is registered once.
#[derive(Debug, PartialEq, Eq)]
pub struct ModuleGraph {
    paths: Vec<String>,
    infos: Vec<ModuleInfo>,
}

impl ModuleGraph {
    /// The records, in the order in which they were registered.
    pub closed spec fn view(&self) -> Seq<EntryView> {
        Seq::new(
            self.paths@.len(),
            |i: int| EntryView { path: self.paths@[i]@, info: self.infos@[i].deep_view() },
        )
    }

    /// Every record has a key, and no key occurs twice.
    pub closed spec fn well_formed(&self) -> bool {
        &&& self.paths@.len() == self.infos@.len()
        &&& distinct_paths(self@)
    }

    /// In a well-formed graph no key occurs twice.
    pub proof fn lemma_distinct(&self)
        requires
            self.well_formed(),
        ensures
            distinct_paths(self@),
    {
    }

    /// A graph without records.
    pub fn new() -> (g: ModuleGraph)
        ensures
            g@ == Seq::<EntryView>::empty(),
            g.well_formed(),
    {
        let g = ModuleGraph { paths: Vec::new(), infos: Vec::new() };
        assert(g@ =~= Seq::<EntryView>::empty());
        g
    }

    /// The number of records.
    pub fn len(&self) -> (n: usize)
        requires
            self.well_formed(),
        ensures
            n == self@.len(),
    {
        self.paths.len()
    }

    /// The index of the record keyed by `path`.
    fn find(&self, path: &str) -> (r: Option<usize>)
        requires
            self.well_formed(),
        ensures
            match r {
                Some(i) => position_of(self@, path@) == Some(i as int) && i < self.paths@.len(),
                None => position_of(self@, path@) is None,
            },
    {
        let key = path.to_owned();
        let mut i: usize = 0;
        while i < self.paths.len()
            invariant
                i <= self.paths@.len(),
                self.paths@.len() == self.infos@.len(),
                key@ == path@,
                position_of(self@, path@) == position_from(self@, path@, i as int),
            decreases self.paths@.len() - i,
        {
            if self.paths[i] == key {
                return Some(i);
            }
            i = i + 1;
        }
        None
    }

    /// Whether a module is registered under `path`.
    pub fn contains_key(&self, path: &str) -> (r: bool)
        requires
            self.well_formed(),
        ensures
            r == has_path(self@, path@),
    {
        self.find(path).is_some()
    }

    /// The record registered under `path`.
    pub fn get(&self, path: &str) -> (r: Option<&ModuleInfo>)
        requires
            self.well_formed(),
        ensures
            r.deep_view() == record_of(self@, path@),
    {
        match self.find(path) {
            Some(i) => Some(&self.infos[i]),
            None => None,
        }
    }

    /// The key of the record at `index`, in the order of registration.
    pub fn key_at(&self, index: usize) -> (r: &String)
        requires
            self.well_formed(),
            index < self@.len(),
        ensures
            r@ == self@[index as int].path,
    {
        &self.paths[index]
    }

    /// Drops the records that were registered after the first `len`.
    pub fn truncate(&mut self, len: usize)
        requires
            old(self).well_formed(),
            len <= old(self)@.len(),
        ensures
            final(self).well_formed(),
            final(self)@ == old(self)@.take(len as int),
    {
        let ghost before = self@;
        self.paths.truncate(len);
        self.infos.truncate(len);
        proof {
            assert(self@ =~= before.take(len as int));
            assert forall|i: int, j: int| 0 <= i < j < self@.len() implies (#[trigger] self@[i]).path
                != (#[trigger] self@[j]).path by {
                assert(self@[i] == before[i] && self@[j] == before[j]);
            }
        }
    }

    /// Registers a module under `path`. Fails, and leaves the graph as it
    /// was, if a module is registered under that path already.
    pub fn insert(&mut self, path: String, info: ModuleInfo) -> (r: Result<(), MergeError>)
        requires
            old(self).well_formed(),
        ensures
            final(self).well_formed(),
            match r {
                Ok(()) => inserted(old(self)@, path@, info.deep_view()) == Ok::<
                    Seq<EntryView>,
                    MergeErrorView,
                >(final(self)@),
                Err(e) => inserted(old(self)@, path@, info.deep_view()) == Err::<
                    Seq<EntryView>,
                    MergeErrorView,
                >(e.deep_view()) && final(self)@ == old(self)@,
            },
    {
        if self.contains_key(path.as_str()) {
            return Err(MergeError::PathCollision { path });
        }
        proof {
            lemma_has_path(self@, path@);
        }
        let ghost before = self@;
        let ghost entry = EntryView { path: path@, info: info.deep_view() };
        self.paths.push(path);
        self.infos.push(info);
        proof {
            assert(self@ =~= before.push(entry));
        }
        Ok(())
    }
}

} // verus!
