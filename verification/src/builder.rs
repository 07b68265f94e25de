//! Builds the module graph of a package from its parsed files.
//!
//! The files are walked from the root file down. Each module declaration
//! that is not test-only is followed: into its body when the body is written
//! in place, and otherwise into the file that the declaration stands for,
//! which is looked for in three places in a fixed order. Every module that
//! is reached is registered under its path once all modules declared in it
//! have been registered.
use vstd::prelude::*;
use crate::build_laws::{lemma_built, lemma_built_is_complete};
use crate::error::{MergeError, MergeErrorView};
use crate::filter::{is_ignored, is_ignored_item, keep_items, kept_items,
    lemma_kept_items_are_not_ignored};
use crate::graph::{EntryView, InfoView, ModuleGraph, ModuleInfo, complete, filtered, has_path,
    inserted};
use crate::item::{ItemView, SourceItem, item_view, items_view};
use crate::paths::{candidate_files, child_path, child_path_of, is_root_path, join_path, joined,
    last_name, last_name_of, module_file_candidates, nested_path, nested_path_of, relative_path,
    relative_to, root_path};

verus! {

/// A file of a package after parsing: its items, or why it could not be
/// parsed.
#[derive(Debug, PartialEq, Eq)]
pub struct ParsedFile {
    pub path: String,
    pub items: Result<Vec<SourceItem>, String>,
}

/// The files of a package, parsed, with the directory that holds its root
/// file.
#[derive(Debug, PartialEq, Eq)]
pub struct Package {
    pub src_dir: String,
    pub files: Vec<ParsedFile>,
}

/// What a [`ParsedFile`] holds.
pub ghost struct FileView {
    pub path: Seq<char>,
    pub items: Result<Seq<ItemView>, Seq<char>>,
}

/// What a [`Package`] holds.
pub ghost struct PackageView {
    pub src_dir: Seq<char>,
    pub files: Seq<FileView>,
}

impl DeepView for ParsedFile {
    type V = FileView;

    open spec fn deep_view(&self) -> FileView {
        FileView {
            path: self.path@,
            items: match self.items {
                Ok(items) => Ok(items_view(items@)),
                Err(message) => Err(message@),
            },
        }
    }
}

impl DeepView for Package {
    type V = PackageView;

    open spec fn deep_view(&self) -> PackageView {
        PackageView { src_dir: self.src_dir@, files: self.files.deep_view() }
    }
}

/// The index of the first file from `from` on whose path is `path`.
pub open spec fn file_position_from(files: Seq<FileView>, path: Seq<char>, from: int) -> Option<
    int,
>
    decreases files.len() - from,
{
    if from < 0 || from >= files.len() {
        None
    } else if files[from].path == path {
        Some(from)
    } else {
        file_position_from(files, path, from + 1)
    }
}

/// The index of the file whose path is `path`.
pub open spec fn file_position(files: Seq<FileView>, path: Seq<char>) -> Option<int> {
    file_position_from(files, path, 0)
}

/// The package holds a file with this path.
pub open spec fn file_exists(files: Seq<FileView>, path: Seq<char>) -> bool {
    file_position(files, path) is Some
}

/// The first of the places where the file of the module `name` is looked
/// for that holds a file.
pub open spec fn resolved_file(
    files: Seq<FileView>,
    file_path: Seq<char>,
    parent_name: Seq<char>,
    name: Seq<char>,
) -> Option<Seq<char>> {
    let places = module_file_candidates(file_path, parent_name, name);
    if file_exists(files, places[0]) {
        Some(places[0])
    } else if file_exists(files, places[1]) {
        Some(places[1])
    } else if file_exists(files, places[2]) {
        Some(places[2])
    } else {
        None
    }
}

/// The name of the directory that may hold the files of the modules that
/// the module at `mod_path` declares: the module's own name. For the
/// root, which has no name, it is the name of the declared module.
pub open spec fn owner_name(mod_path: Seq<char>, name: Seq<char>) -> Seq<char> {
    if mod_path == root_path() {
        name
    } else {
        last_name(mod_path)
    }
}

/// The path under which a module named `name` is registered when it is
/// declared in the module at `mod_path`. Among the items of a file a
/// module of the root goes by its bare name; inside a body written in place
/// the two are always joined.
pub open spec fn declared_path(mod_path: Seq<char>, name: Seq<char>, nested: bool) -> Seq<
    char,
> {
    if nested {
        nested_path(mod_path, name)
    } else {
        child_path(mod_path, name)
    }
}

/// The record of a module whose items are `items`, read from `file_path`.
pub open spec fn info_of(src_dir: Seq<char>, items: Seq<ItemView>, file_path: Seq<char>)
    -> InfoView {
    InfoView {
        content: kept_items(items),
        file_path,
        rel_path: relative_to(src_dir, file_path),
    }
}

/// How many of the first `n` files of the package are not on the chain. A
/// walk steps only into a file that is not on the chain, which then joins
/// it, so this number goes down with every step: that is why a walk ends.
pub open spec fn unwalked(files: Seq<FileView>, chain: Seq<Seq<char>>, n: int) -> nat
    decreases n,
{
    if n <= 0 {
        0
    } else if chain.contains(files[n - 1].path) {
        unwalked(files, chain, n - 1)
    } else {
        unwalked(files, chain, n - 1) + 1
    }
}

/// With one more file on the chain no more files are off it, and fewer are
/// if that file is one of the first `n` and was off the chain.
pub proof fn lemma_unwalked_shrinks(
    files: Seq<FileView>,
    chain: Seq<Seq<char>>,
    file: Seq<char>,
    n: int,
)
    requires
        0 <= n <= files.len(),
    ensures
        unwalked(files, chain.push(file), n) <= unwalked(files, chain, n),
        !chain.contains(file) && (exists|i: int| 0 <= i < n && (#[trigger] files[i]).path == file)
            ==> unwalked(files, chain.push(file), n) < unwalked(files, chain, n),
    decreases n,
{
    if n > 0 {
        lemma_unwalked_shrinks(files, chain, file, n - 1);
        let longer = chain.push(file);
        let path = files[n - 1].path;
        assert(longer[longer.len() - 1] == file);
        if chain.contains(path) {
            let k = choose|k: int| 0 <= k < chain.len() && chain[k] == path;
            assert(longer[k] == path);
        }
        if !chain.contains(file) && exists|i: int|
            0 <= i < n && (#[trigger] files[i]).path == file {
            if path != file {
                let i = choose|i: int| 0 <= i < n && (#[trigger] files[i]).path == file;
                assert(0 <= i < n - 1);
            }
        }
    }
}

/// Stepping into a file of the package that is not on the chain leaves
/// fewer files off the chain.
pub proof fn lemma_new_file_shrinks_the_walk(
    files: Seq<FileView>,
    chain: Seq<Seq<char>>,
    file: Seq<char>,
)
    requires
        file_exists(files, file),
        !chain.contains(file),
    ensures
        unwalked(files, chain.push(file), files.len() as int) < unwalked(
            files,
            chain,
            files.len() as int,
        ),
{
    crate::build_laws::lemma_file_position(files, file, 0);
    let i = file_position(files, file).unwrap();
    assert(files[i].path == file);
    lemma_unwalked_shrinks(files, chain, file, files.len() as int);
}

/// The graph after item `i` of the module at `mod_path` has been dealt with,
/// starting from the records `entries`.
///
/// A test-only item, and an item that is no module declaration, registers
/// nothing. A module with a body in place is registered with that body, in
/// the same file. A module without one is registered with the items of its
/// file, which joins the `chain` of files that are being walked; this fails
/// if no file is found, if the file is on the chain already, or if the file
/// could not be parsed.
pub open spec fn item_registered(
    package: PackageView,
    items: Seq<ItemView>,
    i: int,
    file_path: Seq<char>,
    mod_path: Seq<char>,
    nested: bool,
    entries: Seq<EntryView>,
    chain: Seq<Seq<char>>,
) -> Result<Seq<EntryView>, MergeErrorView>
    decreases unwalked(package.files, chain, package.files.len() as int), items, items.len() - i, 0int,
{
    if i < 0 || i >= items.len() || is_ignored(items[i]) {
        Ok(entries)
    } else {
        match items[i] {
            ItemView::Verbatim { .. } => Ok(entries),
            ItemView::Module { name, body: Some(body), .. } => registered(
                package,
                body,
                0,
                file_path,
                declared_path(mod_path, name, nested),
                true,
                entries,
                chain,
            ),
            ItemView::Module { name, body: None, .. } => {
                match resolved_file(package.files, file_path, owner_name(mod_path, name), name) {
                    None => Err(MergeErrorView::ModuleFileNotFound { module: name }),
                    Some(file) => {
                        if chain.contains(file) {
                            Err(
                                MergeErrorView::ModuleCycle {
                                    path: declared_path(mod_path, name, nested),
                                    file,
                                },
                            )
                        } else {
                            match package.files[file_position(package.files, file).unwrap()].items {
                                Err(message) => Err(MergeErrorView::ParseFailure { file, message }),
                                Ok(file_items) => {
                                    proof {
                                        lemma_new_file_shrinks_the_walk(package.files, chain, file);
                                    }
                                    registered(
                                    package,
                                    file_items,
                                    0,
                                    file,
                                        declared_path(mod_path, name, nested),
                                        false,
                                        entries,
                                        chain.push(file),
                                    )
                                },
                            }
                        }
                    },
                }
            },
        }
    }
}

/// The graph after the module at `mod_path`, whose items are `items`, and
/// every module below it have been registered, starting from the records
/// `entries` and from item `i`.
///
/// Items are dealt with in order, as [`item_registered`] says, and the
/// first failure ends the walk. When all items are done the module itself is
/// registered, which fails if its path is taken.
pub open spec fn registered(
    package: PackageView,
    items: Seq<ItemView>,
    i: int,
    file_path: Seq<char>,
    mod_path: Seq<char>,
    nested: bool,
    entries: Seq<EntryView>,
    chain: Seq<Seq<char>>,
) -> Result<Seq<EntryView>, MergeErrorView>
    decreases unwalked(package.files, chain, package.files.len() as int), items, items.len() - i, 1int,
{
    if i < 0 || i >= items.len() {
        inserted(entries, mod_path, info_of(package.src_dir, items, file_path))
    } else {
        match item_registered(package, items, i, file_path, mod_path, nested, entries, chain) {
            Ok(next) => registered(
                package,
                items,
                i + 1,
                file_path,
                mod_path,
                nested,
                next,
                chain,
            ),
            Err(e) => Err(e),
        }
    }
}

/// What a registration reports: the graph it left behind, or its error.
pub open spec fn outcome(r: Result<(), MergeError>, after: Seq<EntryView>) -> Result<
    Seq<EntryView>,
    MergeErrorView,
> {
    match r {
        Ok(()) => Ok(after),
        Err(e) => Err(e.deep_view()),
    }
}

impl Package {
    /// The index of the file whose path is `path`.
    pub fn find_file(&self, path: &str) -> (r: Option<usize>)
        ensures
            match r {
                Some(i) => file_position(self.deep_view().files, path@) == Some(i as int) && i
                    < self.files.len(),
                None => file_position(self.deep_view().files, path@) is None,
            },
    {
        let key = path.to_owned();
        let mut i: usize = 0;
        while i < self.files.len()
            invariant
                i <= self.files.len(),
                key@ == path@,
                file_position(self.deep_view().files, path@) == file_position_from(
                    self.deep_view().files,
                    path@,
                    i as int,
                ),
            decreases self.files.len() - i,
        {
            if self.files[i].path == key {
                return Some(i);
            }
            i = i + 1;
        }
        None
    }

    /// The file of the module `name`, declared in the file `file_path`
    /// inside a module whose own name is `parent_name`: its index and its
    /// path.
    pub fn resolve_module_file(&self, file_path: &str, parent_name: &str, name: &str) -> (r:
        Option<(usize, String)>)
        ensures
            match r {
                Some((i, file)) => resolved_file(
                    self.deep_view().files,
                    file_path@,
                    parent_name@,
                    name@,
                ) == Some(file@) && file_position(self.deep_view().files, file@) == Some(i as int)
                    && i < self.files.len(),
                None => resolved_file(self.deep_view().files, file_path@, parent_name@, name@)
                    is None,
            },
    {
        let mut places = candidate_files(file_path, parent_name, name);
        let ghost all = module_file_candidates(file_path@, parent_name@, name@);
        assert(places.deep_view().len() == 3);
        assert(places.deep_view()[0] == places@[0]@);
        assert(places.deep_view()[1] == places@[1]@);
        assert(places.deep_view()[2] == places@[2]@);
        let third = places.pop().unwrap();
        let second = places.pop().unwrap();
        let first = places.pop().unwrap();
        assert(first@ == all[0] && second@ == all[1] && third@ == all[2]);
        match self.find_file(first.as_str()) {
            Some(i) => {
                return Some((i, first));
            },
            None => {},
        }
        match self.find_file(second.as_str()) {
            Some(i) => {
                return Some((i, second));
            },
            None => {},
        }
        match self.find_file(third.as_str()) {
            Some(i) => Some((i, third)),
            None => None,
        }
    }
}

/// The name of the directory that may hold the files of the modules that
/// the module at `mod_path` declares.
pub fn owner_name_of(mod_path: &str, name: &str) -> (r: String)
    ensures
        r@ == owner_name(mod_path@, name@),
{
    if is_root_path(mod_path) {
        name.to_owned()
    } else {
        last_name_of(mod_path)
    }
}

/// The path under which a module named `name` is registered.
pub fn declared_path_of(mod_path: &str, name: &str, nested: bool) -> (r: String)
    ensures
        r@ == declared_path(mod_path@, name@, nested),
{
    if nested {
        nested_path_of(mod_path, name)
    } else {
        child_path_of(mod_path, name)
    }
}

/// Tests whether a file is on the chain of files that are being walked.
pub fn is_on_chain(chain: &Vec<String>, file: &String) -> (r: bool)
    ensures
        r == chain.deep_view().contains(file@),
{
    let mut k: usize = 0;
    while k < chain.len()
        invariant
            k <= chain.len(),
            forall|j: int| 0 <= j < k ==> chain.deep_view()[j] != file@,
        decreases chain.len() - k,
    {
        assert(chain.deep_view()[k as int] == chain@[k as int]@);
        if chain[k] == *file {
            return true;
        }
        k = k + 1;
    }
    false
}

/// The chain with one more file at its end.
pub fn extended_chain(chain: &Vec<String>, file: &String) -> (r: Vec<String>)
    ensures
        r.deep_view() == chain.deep_view().push(file@),
        r.len() == chain.len() + 1,
{
    let mut r: Vec<String> = Vec::new();
    let mut k: usize = 0;
    while k < chain.len()
        invariant
            k <= chain.len(),
            r.len() == k,
            forall|j: int| 0 <= j < k ==> r@[j]@ == chain@[j]@,
        decreases chain.len() - k,
    {
        r.push(chain[k].clone());
        k = k + 1;
    }
    r.push(file.clone());
    assert(r.deep_view() =~= chain.deep_view().push(file@));
    r
}

/// Registers the module at `mod_path`, whose items are `items`, and every
/// module below it. `nested` says that the items are a body written in
/// place rather than the items of a file; `chain` names the files that are
/// being walked, the file of the items last. If the registration fails, the
/// graph is left as it was: nothing of a module is kept unless all of it
/// was registered.
pub fn register_items(
    package: &Package,
    items: &Vec<SourceItem>,
    file_path: &str,
    mod_path: &str,
    nested: bool,
    graph: &mut ModuleGraph,
    chain: &Vec<String>,
) -> (r: Result<(), MergeError>)
    requires
        old(graph).well_formed(),
    ensures
        final(graph).well_formed(),
        old(graph)@.is_prefix_of(final(graph)@),
        filtered(old(graph)@) ==> filtered(final(graph)@),
        r is Err ==> final(graph)@ == old(graph)@,
        registered(
            package.deep_view(),
            items_view(items@),
            0,
            file_path@,
            mod_path@,
            nested,
            old(graph)@,
            chain.deep_view(),
        ) == outcome(r, final(graph)@),
    decreases unwalked(package.deep_view().files, chain.deep_view(), package.files.len() as int), items,
{
    let ghost start = graph@;
    let start_len = graph.len();
    let ghost pkg = package.deep_view();
    let ghost all = items_view(items@);
    let mut i: usize = 0;
    while i < items.len()
        invariant
            i <= items.len(),
            graph.well_formed(),
            start == old(graph)@,
            start_len == start.len(),
            start.is_prefix_of(graph@),
            filtered(start) ==> filtered(graph@),
            pkg == package.deep_view(),
            all == items_view(items@),
            registered(pkg, all, 0, file_path@, mod_path@, nested, start, chain.deep_view())
                == registered(
                pkg,
                all,
                i as int,
                file_path@,
                mod_path@,
                nested,
                graph@,
                chain.deep_view(),
            ),
        decreases items.len() - i,
    {
        let ghost before = graph@;
        assert(all[i as int] == item_view(items@[i as int]));
        proof {
            reveal_with_fuel(registered, 2);
        }
        if !is_ignored_item(&items[i]) {
            match &items[i] {
                SourceItem::Verbatim { .. } => {},
                SourceItem::Module { name, attrs: _, body } => {
                    let sub = declared_path_of(mod_path, name.as_str(), nested);
                    match body {
                        Some(inner) => {
                            match register_items(
                                package,
                                inner,
                                file_path,
                                sub.as_str(),
                                true,
                                graph,
                                chain,
                            ) {
                                Ok(()) => {},
                                Err(e) => {
                                    graph.truncate(start_len);
                                    assert(graph@ =~= start);
                                    return Err(e);
                                },
                            }
                        },
                        None => {
                            let owner = owner_name_of(mod_path, name.as_str());
                            match package.resolve_module_file(
                                file_path,
                                owner.as_str(),
                                name.as_str(),
                            ) {
                                None => {
                                    graph.truncate(start_len);
                                    assert(graph@ =~= start);
                                    return Err(
                                        MergeError::ModuleFileNotFound { module: name.clone() },
                                    );
                                },
                                Some((index, file)) => {
                                    if is_on_chain(chain, &file) {
                                        graph.truncate(start_len);
                                        assert(graph@ =~= start);
                                        return Err(MergeError::ModuleCycle { path: sub, file });
                                    }
                                    let longer = extended_chain(chain, &file);
                                    proof {
                                        lemma_new_file_shrinks_the_walk(
                                            package.deep_view().files,
                                            chain.deep_view(),
                                            file@,
                                        );
                                    }
                                    assert(package.deep_view().files[index as int]
                                        == package.files@[index as int].deep_view());
                                    match &package.files[index].items {
                                        Err(message) => {
                                            graph.truncate(start_len);
                                            assert(graph@ =~= start);
                                            return Err(
                                                MergeError::ParseFailure {
                                                    file,
                                                    message: message.clone(),
                                                },
                                            );
                                        },
                                        Ok(file_items) => {
                                            match register_items(
                                                package,
                                                file_items,
                                                file.as_str(),
                                                sub.as_str(),
                                                false,
                                                graph,
                                                &longer,
                                            ) {
                                                Ok(()) => {},
                                                Err(e) => {
                                                    graph.truncate(start_len);
                                                    assert(graph@ =~= start);
                                                    return Err(e);
                                                },
                                            }
                                        },
                                    }
                                },
                            }
                        },
                    }
                },
            }
        }
        i = i + 1;
    }
    let info = ModuleInfo {
        content: keep_items(items),
        file_path: file_path.to_owned(),
        rel_path: relative_path(package.src_dir.as_str(), file_path),
    };
    let ghost before = graph@;
    assert(info.deep_view() == info_of(pkg.src_dir, all, file_path@));
    let r = graph.insert(mod_path.to_owned(), info);
    proof {
        lemma_kept_items_are_not_ignored(all);
        if r is Ok {
            assert(graph@ == before.push(
                EntryView { path: mod_path@, info: info_of(pkg.src_dir, all, file_path@) },
            ));
            if filtered(before) {
                assert forall|a: int, k: int|
                    0 <= a < graph@.len() && 0 <= k < graph@[a].info.content.len() implies !is_ignored(
                    #[trigger] graph@[a].info.content[k],
                ) by {
                    if a < before.len() {
                        assert(graph@[a] == before[a]);
                    }
                }
            }
        }
    }
    if r.is_err() {
        graph.truncate(start_len);
        assert(graph@ =~= start);
    }
    r
}

/// The graph after the file `file_path` has been registered as the module at
/// `mod_path`, with every module below it. Fails if the package has no such
/// file or if the file could not be parsed.
pub open spec fn file_registered(
    package: PackageView,
    file_path: Seq<char>,
    mod_path: Seq<char>,
    entries: Seq<EntryView>,
) -> Result<Seq<EntryView>, MergeErrorView> {
    match file_position(package.files, file_path) {
        None => Err(MergeErrorView::ModuleFileNotFound { module: mod_path }),
        Some(index) => match package.files[index].items {
            Err(message) => Err(MergeErrorView::ParseFailure { file: file_path, message }),
            Ok(items) => registered(
                package,
                items,
                0,
                file_path,
                mod_path,
                false,
                entries,
                seq![file_path],
            ),
        },
    }
}

/// The root file of a package: `lib.rs` in its source directory or, if
/// there is none, `main.rs`.
pub open spec fn root_file(package: PackageView) -> Option<Seq<char>> {
    let lib = joined(package.src_dir, seq!['l', 'i', 'b', '.', 'r', 's']);
    let main = joined(package.src_dir, seq!['m', 'a', 'i', 'n', '.', 'r', 's']);
    if file_exists(package.files, lib) {
        Some(lib)
    } else if file_exists(package.files, main) {
        Some(main)
    } else {
        None
    }
}

/// The module graph of a package: what registering its root file as the
/// root module gives, starting from no records.
pub open spec fn built(package: PackageView) -> Result<Seq<EntryView>, MergeErrorView> {
    match root_file(package) {
        None => Err(MergeErrorView::ManifestEntryMissing),
        Some(file) => file_registered(package, file, root_path(), Seq::empty()),
    }
}

/// Registers the file `file_path` as the module at `mod_path`, with every
/// module below it. If that fails, the graph is left as it was.
pub fn parse_file_and_submodules(
    file_path: &str,
    mod_path: &str,
    graph: &mut ModuleGraph,
    package: &Package,
) -> (r: Result<(), MergeError>)
    requires
        old(graph).well_formed(),
    ensures
        final(graph).well_formed(),
        old(graph)@.is_prefix_of(final(graph)@),
        filtered(old(graph)@) ==> filtered(final(graph)@),
        r is Err ==> final(graph)@ == old(graph)@,
        file_registered(package.deep_view(), file_path@, mod_path@, old(graph)@) == outcome(
            r,
            final(graph)@,
        ),
{
    match package.find_file(file_path) {
        None => Err(MergeError::ModuleFileNotFound { module: mod_path.to_owned() }),
        Some(index) => {
            assert(package.deep_view().files[index as int] == package.files@[index as int].deep_view());
            match &package.files[index].items {
                Err(message) => Err(
                    MergeError::ParseFailure { file: file_path.to_owned(), message: message.clone() },
                ),
                Ok(items) => {
                    let mut chain: Vec<String> = Vec::new();
                    chain.push(file_path.to_owned());
                    assert(chain.deep_view() =~= seq![file_path@]);
                    register_items(package, items, file_path, mod_path, false, graph, &chain)
                },
            }
        },
    }
}

/// Registers a module whose body `items` is written in place in the file
/// `file_path`, under `mod_path`, with every module below it. If that fails,
/// the graph is left as it was.
pub fn parse_module_items(
    items: &Vec<SourceItem>,
    file_path: &str,
    mod_path: &str,
    graph: &mut ModuleGraph,
    package: &Package,
) -> (r: Result<(), MergeError>)
    requires
        old(graph).well_formed(),
    ensures
        final(graph).well_formed(),
        old(graph)@.is_prefix_of(final(graph)@),
        filtered(old(graph)@) ==> filtered(final(graph)@),
        r is Err ==> final(graph)@ == old(graph)@,
        registered(
            package.deep_view(),
            items_view(items@),
            0,
            file_path@,
            mod_path@,
            true,
            old(graph)@,
            seq![file_path@],
        ) == outcome(r, final(graph)@),
{
    let mut chain: Vec<String> = Vec::new();
    chain.push(file_path.to_owned());
    assert(chain.deep_view() =~= seq![file_path@]);
    register_items(package, items, file_path, mod_path, true, graph, &chain)
}

impl Package {
    /// The root file of the package.
    pub fn find_root_file(&self) -> (r: Option<String>)
        ensures
            r.deep_view() == root_file(self.deep_view()),
    {
        proof {
            reveal_strlit("lib.rs");
            reveal_strlit("main.rs");
            assert("lib.rs"@ =~= seq!['l', 'i', 'b', '.', 'r', 's']);
            assert("main.rs"@ =~= seq!['m', 'a', 'i', 'n', '.', 'r', 's']);
        }
        let lib = join_path(self.src_dir.as_str(), "lib.rs");
        if self.find_file(lib.as_str()).is_some() {
            return Some(lib);
        }
        let main = join_path(self.src_dir.as_str(), "main.rs");
        if self.find_file(main.as_str()).is_some() {
            return Some(main);
        }
        None
    }
}

/// Builds the module graph of a package.
pub fn build_graph(package: &Package) -> (r: Result<ModuleGraph, MergeError>)
    ensures
        match r {
            Ok(graph) => built(package.deep_view()) == Ok::<Seq<EntryView>, MergeErrorView>(
                graph@,
            ) && graph.well_formed() && filtered(graph@) && complete(graph@) && has_path(
                graph@,
                root_path(),
            ),
            Err(e) => built(package.deep_view()) == Err::<Seq<EntryView>, MergeErrorView>(
                e.deep_view(),
            ),
        },
{
    let mut graph = ModuleGraph::new();
    match package.find_root_file() {
        None => Err(MergeError::ManifestEntryMissing),
        Some(file) => {
            proof {
                reveal_strlit("crate");
                assert("crate"@ =~= root_path());
                lemma_built(package.deep_view());
                lemma_built_is_complete(package.deep_view());
            }
            match parse_file_and_submodules(file.as_str(), "crate", &mut graph, package) {
                Ok(()) => Ok(graph),
                Err(e) => Err(e),
            }
        },
    }
}

} // verus!
