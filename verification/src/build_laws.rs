//! What holds of every graph that is built.
//!
//! A graph that was built holds the root module, has no key twice, holds no
//! test-only item among the items of a record, and holds a record for every
//! module that one of its records declares. A module file that is missing
//! fails the build, and a module that declares two modules without modules
//! of their own is registered as exactly three records.
use vstd::prelude::*;
use crate::builder::{FileView, PackageView, built, declared_path, file_position,
    file_position_from, info_of, item_registered, lemma_new_file_shrinks_the_walk, owner_name,
    registered, resolved_file, root_file, unwalked};
use crate::error::MergeErrorView;
use crate::filter::{is_ignored, kept_items, lemma_kept_items_are_not_ignored};
use crate::graph::{EntryView, complete, distinct_paths, filtered, has_path, inserted,
    lemma_has_path, resolves};
use crate::item::ItemView;
use crate::paths::{child_path, nested_path, path_separator, root_path};

verus! {

/// What holds of the graph `after` that a registration succeeded with, when
/// it started from the records `entries`: the records it started from are
/// kept, no key comes to occur twice, and no record comes to hold a
/// test-only item among its own items.
pub open spec fn extends_soundly(entries: Seq<EntryView>, after: Seq<EntryView>) -> bool {
    &&& entries.is_prefix_of(after)
    &&& distinct_paths(entries) ==> distinct_paths(after)
    &&& filtered(entries) ==> filtered(after)
}

/// Dealing with one item extends the graph soundly or fails, and the
/// failure is never that of a missing root file.
pub proof fn lemma_item_registered(
    package: PackageView,
    items: Seq<ItemView>,
    i: int,
    file_path: Seq<char>,
    mod_path: Seq<char>,
    nested: bool,
    entries: Seq<EntryView>,
    chain: Seq<Seq<char>>,
)
    ensures
        match item_registered(package, items, i, file_path, mod_path, nested, entries, chain) {
            Ok(after) => extends_soundly(entries, after),
            Err(e) => e !is ManifestEntryMissing,
        },
    decreases unwalked(package.files, chain, package.files.len() as int), items, items.len() - i, 0int,
{
    if i < 0 || i >= items.len() || is_ignored(items[i]) {
    } else {
        match items[i] {
            ItemView::Verbatim { .. } => {},
            ItemView::Module { name, body: Some(body), .. } => {
                lemma_registered(
                    package,
                    body,
                    0,
                    file_path,
                    declared_path(mod_path, name, nested),
                    true,
                    entries,
                    chain,
                );
            },
            ItemView::Module { name, body: None, .. } => {
                match resolved_file(package.files, file_path, owner_name(mod_path, name), name) {
                    None => {},
                    Some(file) => {
                        if !chain.contains(file) {
                            match package.files[file_position(package.files, file).unwrap()].items {
                                Err(_) => {},
                                Ok(file_items) => {
                                    lemma_new_file_shrinks_the_walk(package.files, chain, file);
                                    lemma_registered(
                                        package,
                                        file_items,
                                        0,
                                        file,
                                        declared_path(mod_path, name, nested),
                                        false,
                                        entries,
                                        chain.push(file),
                                    );
                                },
                            }
                        }
                    },
                }
            },
        }
    }
}

/// A registration that succeeds extends the graph soundly and ends with
/// the record of the module it was asked to register. One that fails never
/// fails for a missing root file.
pub proof fn lemma_registered(
    package: PackageView,
    items: Seq<ItemView>,
    i: int,
    file_path: Seq<char>,
    mod_path: Seq<char>,
    nested: bool,
    entries: Seq<EntryView>,
    chain: Seq<Seq<char>>,
)
    ensures
        match registered(package, items, i, file_path, mod_path, nested, entries, chain) {
            Ok(after) => extends_soundly(entries, after) && after.len() > entries.len()
                && after.last() == (EntryView {
                path: mod_path,
                info: info_of(package.src_dir, items, file_path),
            }),
            Err(e) => e !is ManifestEntryMissing,
        },
    decreases unwalked(package.files, chain, package.files.len() as int), items, items.len() - i, 1int,
{
    if i < 0 || i >= items.len() {
        let info = info_of(package.src_dir, items, file_path);
        if !has_path(entries, mod_path) {
            let after = entries.push(EntryView { path: mod_path, info });
            lemma_has_path(entries, mod_path);
            lemma_kept_items_are_not_ignored(items);
            if filtered(entries) {
                assert forall|a: int, k: int|
                    0 <= a < after.len() && 0 <= k < after[a].info.content.len() implies !is_ignored(
                    #[trigger] after[a].info.content[k],
                ) by {
                    if a < entries.len() {
                        assert(after[a] == entries[a]);
                    }
                }
            }
        }
    } else {
        lemma_item_registered(package, items, i, file_path, mod_path, nested, entries, chain);
        match item_registered(package, items, i, file_path, mod_path, nested, entries, chain) {
            Ok(next) => {
                lemma_registered(package, items, i + 1, file_path, mod_path, nested, next, chain);
            },
            Err(_) => {},
        }
    }
}

/// A graph that was built holds the root module, has no key twice and no
/// test-only item among the items of a record. A build fails for a missing
/// root file exactly when the source directory holds none.
pub proof fn lemma_built(package: PackageView)
    ensures
        match built(package) {
            Ok(entries) => has_path(entries, root_path()) && distinct_paths(entries) && filtered(
                entries,
            ),
            Err(e) => e is ManifestEntryMissing <==> root_file(package) is None,
        },
{
    match root_file(package) {
        None => {},
        Some(file) => match file_position(package.files, file) {
            None => {},
            Some(index) => match package.files[index].items {
                Err(_) => {},
                Ok(items) => {
                    lemma_registered(
                        package,
                        items,
                        0,
                        file,
                        root_path(),
                        false,
                        Seq::empty(),
                        seq![file],
                    );
                    match built(package) {
                        Ok(entries) => {
                            lemma_has_path(entries, root_path());
                            assert(entries[entries.len() - 1].path == root_path());
                        },
                        Err(_) => {},
                    }
                },
            },
        },
    }
}

/// What `file_position_from` finds is a file with the path, and if it finds
/// none, no file from `from` on has the path.
pub proof fn lemma_file_position(files: Seq<FileView>, path: Seq<char>, from: int)
    requires
        0 <= from,
    ensures
        match file_position_from(files, path, from) {
            Some(i) => from <= i < files.len() && files[i].path == path,
            None => forall|j: int| from <= j < files.len() ==> (#[trigger] files[j]).path != path,
        },
    decreases files.len() - from,
{
    if from < files.len() && files[from].path != path {
        lemma_file_position(files, path, from + 1);
    }
}

/// A key that a graph holds is held by every graph that extends it.
pub proof fn lemma_prefix_keeps_paths(
    entries: Seq<EntryView>,
    after: Seq<EntryView>,
    path: Seq<char>,
)
    requires
        entries.is_prefix_of(after),
        has_path(entries, path),
    ensures
        has_path(after, path),
{
    lemma_has_path(entries, path);
    lemma_has_path(after, path);
    let j = choose|j: int| 0 <= j < entries.len() && (#[trigger] entries[j]).path == path;
    assert(after[j] == entries[j]);
}

/// Every module that is declared among the items of a module, and is not
/// test-only, is registered with it, under the path that the declaration
/// gives it: whether its body is written in place or read from a file.
pub proof fn lemma_declared_module_is_registered(
    package: PackageView,
    items: Seq<ItemView>,
    i: int,
    j: int,
    file_path: Seq<char>,
    mod_path: Seq<char>,
    nested: bool,
    entries: Seq<EntryView>,
    chain: Seq<Seq<char>>,
)
    requires
        0 <= j <= i < items.len(),
        !is_ignored(items[i]),
        items[i] is Module,
    ensures
        registered(package, items, j, file_path, mod_path, nested, entries, chain) matches Ok(after)
            ==> has_path(after, declared_path(mod_path, items[i]->Module_name, nested)),
    decreases i - j,
{
    reveal_with_fuel(registered, 2);
    let child = declared_path(mod_path, items[i]->Module_name, nested);
    match item_registered(package, items, j, file_path, mod_path, nested, entries, chain) {
        Ok(next) => {
            lemma_registered(package, items, j + 1, file_path, mod_path, nested, next, chain);
            if j < i {
                lemma_declared_module_is_registered(
                    package,
                    items,
                    i,
                    j + 1,
                    file_path,
                    mod_path,
                    nested,
                    next,
                    chain,
                );
            } else {
                match items[i] {
                    ItemView::Module { body: Some(body), .. } => {
                        lemma_registered(package, body, 0, file_path, child, true, entries, chain);
                    },
                    ItemView::Module { name, body: None, .. } => {
                        let file = resolved_file(
                            package.files,
                            file_path,
                            owner_name(mod_path, name),
                            name,
                        ).unwrap();
                        lemma_registered(
                            package,
                            package.files[file_position(package.files, file).unwrap()].items->Ok_0,
                            0,
                            file,
                            child,
                            false,
                            entries,
                            chain.push(file),
                        );
                    },
                    ItemView::Verbatim { .. } => {},
                }
                lemma_has_path(next, child);
                assert(next[next.len() - 1].path == child);
                match registered(package, items, j + 1, file_path, mod_path, nested, next, chain) {
                    Ok(after) => {
                        lemma_prefix_keeps_paths(next, after, child);
                    },
                    Err(_) => {},
                }
            }
        },
        Err(_) => {},
    }
}

/// The modules declared by the items before `i`, unless test-only, have
/// records under the paths that their declarations give them.
pub open spec fn declared_before(
    entries: Seq<EntryView>,
    items: Seq<ItemView>,
    i: int,
    mod_path: Seq<char>,
    nested: bool,
) -> bool {
    forall|k: int|
        0 <= k < i && !is_ignored(#[trigger] items[k]) && items[k] is Module ==> has_path(
            entries,
            declared_path(mod_path, items[k]->Module_name, nested),
        )
}

/// Two names joined by `::` are never the path of the root.
pub proof fn lemma_nested_path_is_not_root(parent: Seq<char>, name: Seq<char>)
    ensures
        nested_path(parent, name) != root_path(),
{
    let joined = nested_path(parent, name);
    let root = root_path();
    if joined == root {
        let at = parent.len() as int;
        assert(joined.len() == parent.len() + 2 + name.len());
        assert(joined[at] == path_separator()[0]);
        assert(root.len() == 5);
        assert(root[0] == 'c' && root[1] == 'r' && root[2] == 'a' && root[3] == 't' && root[4]
            == 'e');
    }
}

/// Once the path of a module is taken, registering the module fails.
pub proof fn lemma_taken_path_fails(
    package: PackageView,
    items: Seq<ItemView>,
    i: int,
    file_path: Seq<char>,
    mod_path: Seq<char>,
    nested: bool,
    entries: Seq<EntryView>,
    chain: Seq<Seq<char>>,
)
    requires
        has_path(entries, mod_path),
    ensures
        registered(package, items, i, file_path, mod_path, nested, entries, chain) is Err,
    decreases items.len() - i,
{
    if 0 <= i < items.len() {
        lemma_item_registered(package, items, i, file_path, mod_path, nested, entries, chain);
        match item_registered(package, items, i, file_path, mod_path, nested, entries, chain) {
            Ok(next) => {
                lemma_prefix_keeps_paths(entries, next, mod_path);
                lemma_taken_path_fails(
                    package,
                    items,
                    i + 1,
                    file_path,
                    mod_path,
                    nested,
                    next,
                    chain,
                );
            },
            Err(_) => {},
        }
    }
}

/// A registration that succeeds leaves no declaration behind without a
/// record: if every module declared in the records it started from has a
/// record, the same holds of the records it ends with.
///
/// The one registration this is not said of is that of a body written in
/// place under the path of the root, which no walk from a root file makes
/// and succeeds.
pub proof fn lemma_registered_is_complete(
    package: PackageView,
    items: Seq<ItemView>,
    i: int,
    file_path: Seq<char>,
    mod_path: Seq<char>,
    nested: bool,
    entries: Seq<EntryView>,
    chain: Seq<Seq<char>>,
)
    requires
        !(nested && mod_path == root_path()),
        0 <= i <= items.len(),
        complete(entries),
        declared_before(entries, items, i, mod_path, nested),
    ensures
        registered(package, items, i, file_path, mod_path, nested, entries, chain) matches Ok(after)
            ==> complete(after),
    decreases unwalked(package.files, chain, package.files.len() as int), items, items.len() - i,
{
    reveal_with_fuel(registered, 2);
    if i == items.len() {
        if !has_path(entries, mod_path) {
            let info = info_of(package.src_dir, items, file_path);
            let after = entries.push(EntryView { path: mod_path, info });
            lemma_kept_items_are_not_ignored(items);
            assert forall|a: int, k: int|
                0 <= a < after.len() && 0 <= k < after[a].info.content.len() && (
                #[trigger] after[a].info.content[k]) is Module implies resolves(
                after,
                after[a].path,
                after[a].info.content[k]->Module_name,
            ) by {
                let name = after[a].info.content[k]->Module_name;
                let child = child_path(after[a].path, name);
                if a < entries.len() {
                    assert(after[a] == entries[a]);
                    assert(resolves(entries, entries[a].path, entries[a].info.content[k]->Module_name));
                } else {
                    let item = kept_items(items)[k];
                    assert(items.contains(item));
                    let m = choose|m: int| 0 <= m < items.len() && items[m] == item;
                    assert(!is_ignored(items[m]) && items[m] is Module);
                    assert(has_path(entries, declared_path(mod_path, name, nested)));
                    if mod_path != root_path() {
                        lemma_nested_path_is_not_root(mod_path, name);
                    }
                }
                lemma_prefix_keeps_paths(entries, after, child);
            }
        }
    } else {
        lemma_item_registered(package, items, i, file_path, mod_path, nested, entries, chain);
        match item_registered(package, items, i, file_path, mod_path, nested, entries, chain) {
            Err(_) => {},
            Ok(next) => {
                if !is_ignored(items[i]) && items[i] is Module {
                    let name = items[i]->Module_name;
                    let sub = declared_path(mod_path, name, nested);
                    if nested || mod_path != root_path() {
                        lemma_nested_path_is_not_root(mod_path, name);
                    }
                    match items[i] {
                        ItemView::Module { body: Some(body), .. } => {
                            lemma_registered(package, body, 0, file_path, sub, true, entries, chain);
                            if sub != root_path() {
                                lemma_registered_is_complete(
                                    package,
                                    body,
                                    0,
                                    file_path,
                                    sub,
                                    true,
                                    entries,
                                    chain,
                                );
                            }
                        },
                        ItemView::Module { body: None, .. } => {
                            let file = resolved_file(
                                package.files,
                                file_path,
                                owner_name(mod_path, name),
                                name,
                            ).unwrap();
                            let file_items = package.files[file_position(
                                package.files,
                                file,
                            ).unwrap()].items->Ok_0;
                            lemma_registered(
                                package,
                                file_items,
                                0,
                                file,
                                sub,
                                false,
                                entries,
                                chain.push(file),
                            );
                            lemma_new_file_shrinks_the_walk(package.files, chain, file);
                            lemma_registered_is_complete(
                                package,
                                file_items,
                                0,
                                file,
                                sub,
                                false,
                                entries,
                                chain.push(file),
                            );
                        },
                        ItemView::Verbatim { .. } => {},
                    }
                    lemma_has_path(next, sub);
                    assert(next[next.len() - 1].path == sub);
                    if sub == root_path() {
                        lemma_taken_path_fails(
                            package,
                            items,
                            i + 1,
                            file_path,
                            mod_path,
                            nested,
                            next,
                            chain,
                        );
                    }
                }
                if registered(package, items, i + 1, file_path, mod_path, nested, next, chain) is Ok {
                    assert forall|k: int|
                        0 <= k < i + 1 && !is_ignored(#[trigger] items[k])
                            && items[k] is Module implies has_path(
                        next,
                        declared_path(mod_path, items[k]->Module_name, nested),
                    ) by {
                        if k < i {
                            lemma_prefix_keeps_paths(
                                entries,
                                next,
                                declared_path(mod_path, items[k]->Module_name, nested),
                            );
                        }
                    }
                    lemma_registered_is_complete(
                        package,
                        items,
                        i + 1,
                        file_path,
                        mod_path,
                        nested,
                        next,
                        chain,
                    );
                }
            },
        }
    }
}

/// In a graph that was built, every module that is declared among the
/// items of a record has a record of its own: no declaration that the
/// graph holds is left unresolved.
pub proof fn lemma_built_is_complete(package: PackageView)
    ensures
        built(package) matches Ok(entries) ==> complete(entries),
{
    match root_file(package) {
        None => {},
        Some(file) => match file_position(package.files, file) {
            None => {},
            Some(index) => match package.files[index].items {
                Err(_) => {},
                Ok(items) => {
                    lemma_registered_is_complete(
                        package,
                        items,
                        0,
                        file,
                        root_path(),
                        false,
                        Seq::empty(),
                        seq![file],
                    );
                },
            },
        },
    }
}

/// Item `i` declares a module without a body, is not test-only, and none of
/// the places where the module's file is looked for holds a file.
pub open spec fn declares_missing_file(
    package: PackageView,
    items: Seq<ItemView>,
    i: int,
    file_path: Seq<char>,
    mod_path: Seq<char>,
) -> bool {
    &&& 0 <= i < items.len()
    &&& !is_ignored(items[i])
    &&& items[i] matches ItemView::Module { name, body: None, .. }
    &&& resolved_file(package.files, file_path, owner_name(mod_path, name), name) is None
}

/// Item `j` registers nothing: it is test-only or is no module declaration.
pub open spec fn registers_nothing(items: Seq<ItemView>, j: int) -> bool {
    is_ignored(items[j]) || items[j] is Verbatim
}

/// A module declared without a body whose file is missing makes the
/// registration of the declaring module fail, wherever among the items the
/// declaration stands and whatever was registered before. If no item before
/// it declares a module that is followed, the failure names the module.
pub proof fn lemma_missing_file_fails(
    package: PackageView,
    items: Seq<ItemView>,
    i: int,
    j: int,
    file_path: Seq<char>,
    mod_path: Seq<char>,
    nested: bool,
    entries: Seq<EntryView>,
    chain: Seq<Seq<char>>,
)
    requires
        declares_missing_file(package, items, i, file_path, mod_path),
        0 <= j <= i,
    ensures
        registered(package, items, j, file_path, mod_path, nested, entries, chain) is Err,
        (forall|k: int| j <= k < i ==> registers_nothing(items, k)) ==> registered(
            package,
            items,
            j,
            file_path,
            mod_path,
            nested,
            entries,
            chain,
        ) == Err::<Seq<EntryView>, MergeErrorView>(
            MergeErrorView::ModuleFileNotFound { module: items[i]->Module_name },
        ),
    decreases i - j,
{
    reveal_with_fuel(registered, 2);
    if j < i {
        if forall|k: int| j <= k < i ==> registers_nothing(items, k) {
            assert(registers_nothing(items, j));
            assert(item_registered(package, items, j, file_path, mod_path, nested, entries, chain)
                == Ok::<Seq<EntryView>, MergeErrorView>(entries));
        }
        match item_registered(package, items, j, file_path, mod_path, nested, entries, chain) {
            Ok(next) => {
                lemma_missing_file_fails(
                    package,
                    items,
                    i,
                    j + 1,
                    file_path,
                    mod_path,
                    nested,
                    next,
                    chain,
                );
            },
            Err(_) => {},
        }
    }
}

/// If the root file of a package declares a module without a body, the
/// declaration is not test-only and the module's file is missing, no graph
/// is built.
pub proof fn lemma_built_fails_on_missing_file(package: PackageView, i: int)
    requires
        root_file(package) matches Some(file) && package.files[file_position(
            package.files,
            file,
        ).unwrap()].items matches Ok(items) && declares_missing_file(
            package,
            items,
            i,
            file,
            root_path(),
        ),
    ensures
        built(package) is Err,
{
    let file = root_file(package).unwrap();
    let items = package.files[file_position(package.files, file).unwrap()].items->Ok_0;
    lemma_missing_file_fails(
        package,
        items,
        i,
        0,
        file,
        root_path(),
        false,
        Seq::empty(),
        seq![file],
    );
}

/// None of the items declares a module that is followed.
pub open spec fn all_register_nothing(items: Seq<ItemView>) -> bool {
    forall|k: int| 0 <= k < items.len() ==> registers_nothing(items, k)
}

/// The record of the module that item `i` declares, if that module is
/// followed and declares no module that is followed in its turn: a module
/// with such a body written in place, or a module whose file is found, is
/// not being walked, was parsed and holds such items.
pub open spec fn leaf_record(
    package: PackageView,
    items: Seq<ItemView>,
    i: int,
    file_path: Seq<char>,
    mod_path: Seq<char>,
    nested: bool,
    chain: Seq<Seq<char>>,
) -> Option<EntryView> {
    if i < 0 || i >= items.len() || is_ignored(items[i]) {
        None
    } else {
        match items[i] {
            ItemView::Verbatim { .. } => None,
            ItemView::Module { name, body: Some(body), .. } => if all_register_nothing(body) {
                Some(
                    EntryView {
                        path: declared_path(mod_path, name, nested),
                        info: info_of(package.src_dir, body, file_path),
                    },
                )
            } else {
                None
            },
            ItemView::Module { name, body: None, .. } => match resolved_file(
                package.files,
                file_path,
                owner_name(mod_path, name),
                name,
            ) {
                None => None,
                Some(file) => match package.files[file_position(package.files, file).unwrap()].items {
                    Ok(file_items) => if !chain.contains(file) && all_register_nothing(file_items) {
                        Some(
                            EntryView {
                                path: declared_path(mod_path, name, nested),
                                info: info_of(package.src_dir, file_items, file),
                            },
                        )
                    } else {
                        None
                    },
                    Err(_) => None,
                },
            },
        }
    }
}

/// Items that register nothing can be passed over: the walk from item `i`
/// is the walk from item `j` if no item between them declares a module
/// that is followed.
pub proof fn lemma_passing_over(
    package: PackageView,
    items: Seq<ItemView>,
    i: int,
    j: int,
    file_path: Seq<char>,
    mod_path: Seq<char>,
    nested: bool,
    entries: Seq<EntryView>,
    chain: Seq<Seq<char>>,
)
    requires
        0 <= i <= j <= items.len(),
        forall|k: int| i <= k < j ==> registers_nothing(items, k),
    ensures
        registered(package, items, i, file_path, mod_path, nested, entries, chain) == registered(
            package,
            items,
            j,
            file_path,
            mod_path,
            nested,
            entries,
            chain,
        ),
    decreases j - i,
{
    reveal_with_fuel(registered, 2);
    if i < j {
        assert(registers_nothing(items, i));
        lemma_passing_over(package, items, i + 1, j, file_path, mod_path, nested, entries, chain);
    }
}

/// A module that declares no module that is followed is registered by
/// itself: it adds its own record, or fails because its path is taken.
pub proof fn lemma_module_without_modules(
    package: PackageView,
    items: Seq<ItemView>,
    file_path: Seq<char>,
    mod_path: Seq<char>,
    nested: bool,
    entries: Seq<EntryView>,
    chain: Seq<Seq<char>>,
)
    requires
        all_register_nothing(items),
    ensures
        registered(package, items, 0, file_path, mod_path, nested, entries, chain) == inserted(
            entries,
            mod_path,
            info_of(package.src_dir, items, file_path),
        ),
{
    lemma_passing_over(
        package,
        items,
        0,
        items.len() as int,
        file_path,
        mod_path,
        nested,
        entries,
        chain,
    );
}

/// Dealing with an item that declares a module without modules of its own
/// adds that module's record, or fails because the module's path is taken.
pub proof fn lemma_leaf_module(
    package: PackageView,
    items: Seq<ItemView>,
    i: int,
    file_path: Seq<char>,
    mod_path: Seq<char>,
    nested: bool,
    entries: Seq<EntryView>,
    chain: Seq<Seq<char>>,
)
    requires
        leaf_record(package, items, i, file_path, mod_path, nested, chain) is Some,
    ensures
        item_registered(package, items, i, file_path, mod_path, nested, entries, chain) == inserted(
            entries,
            leaf_record(package, items, i, file_path, mod_path, nested, chain).unwrap().path,
            leaf_record(package, items, i, file_path, mod_path, nested, chain).unwrap().info,
        ),
{
    reveal_with_fuel(registered, 2);
    match items[i] {
        ItemView::Verbatim { .. } => {},
        ItemView::Module { name, body: Some(body), .. } => {
            lemma_module_without_modules(
                package,
                body,
                file_path,
                declared_path(mod_path, name, nested),
                true,
                entries,
                chain,
            );
        },
        ItemView::Module { name, body: None, .. } => {
            let file = resolved_file(
                package.files,
                file_path,
                owner_name(mod_path, name),
                name,
            ).unwrap();
            let file_items = package.files[file_position(package.files, file).unwrap()].items->Ok_0;
            lemma_module_without_modules(
                package,
                file_items,
                file,
                declared_path(mod_path, name, nested),
                false,
                entries,
                chain.push(file),
            );
        },
    }
}

/// A module that declares two modules, each without modules of its own,
/// is registered as three records: the two modules in the order of their
/// declarations, each under the path that its declaration gives it, and
/// then the module itself. It makes no difference whether a body is
/// written in place or read from a file, nor what other items stand
/// around the two declarations, as long as none of them declares a module
/// that is followed and the three paths differ.
pub proof fn lemma_two_modules_give_two_records(
    package: PackageView,
    items: Seq<ItemView>,
    a: int,
    b: int,
    file_path: Seq<char>,
    mod_path: Seq<char>,
    nested: bool,
    chain: Seq<Seq<char>>,
)
    requires
        0 <= a < b < items.len(),
        leaf_record(package, items, a, file_path, mod_path, nested, chain) is Some,
        leaf_record(package, items, b, file_path, mod_path, nested, chain) is Some,
        forall|k: int| 0 <= k < items.len() && k != a && k != b ==> registers_nothing(items, k),
        leaf_record(package, items, a, file_path, mod_path, nested, chain).unwrap().path
            != leaf_record(package, items, b, file_path, mod_path, nested, chain).unwrap().path,
        leaf_record(package, items, a, file_path, mod_path, nested, chain).unwrap().path
            != mod_path,
        leaf_record(package, items, b, file_path, mod_path, nested, chain).unwrap().path
            != mod_path,
    ensures
        registered(package, items, 0, file_path, mod_path, nested, Seq::empty(), chain) == Ok::<
            Seq<EntryView>,
            MergeErrorView,
        >(
            seq![
                leaf_record(package, items, a, file_path, mod_path, nested, chain).unwrap(),
                leaf_record(package, items, b, file_path, mod_path, nested, chain).unwrap(),
                EntryView { path: mod_path, info: info_of(package.src_dir, items, file_path) },
            ],
        ),
{
    reveal_with_fuel(registered, 2);
    let first = leaf_record(package, items, a, file_path, mod_path, nested, chain).unwrap();
    let second = leaf_record(package, items, b, file_path, mod_path, nested, chain).unwrap();
    let own = EntryView { path: mod_path, info: info_of(package.src_dir, items, file_path) };
    let none = Seq::<EntryView>::empty();
    let one = seq![first];
    let two = seq![first, second];
    lemma_has_path(none, first.path);
    lemma_has_path(one, second.path);
    lemma_has_path(two, mod_path);
    assert(none.push(first) =~= one);
    assert(one.push(second) =~= two);
    assert(two.push(own) =~= seq![first, second, own]);
    lemma_passing_over(package, items, 0, a, file_path, mod_path, nested, none, chain);
    lemma_leaf_module(package, items, a, file_path, mod_path, nested, none, chain);
    lemma_passing_over(package, items, a + 1, b, file_path, mod_path, nested, one, chain);
    lemma_leaf_module(package, items, b, file_path, mod_path, nested, one, chain);
    lemma_passing_over(
        package,
        items,
        b + 1,
        items.len() as int,
        file_path,
        mod_path,
        nested,
        two,
        chain,
    );
}

/// A root file that declares two modules, each without modules of its own,
/// gives a graph of exactly three records: the two modules, each under its
/// bare name, and the root.
pub proof fn lemma_built_with_two_modules(package: PackageView, a: int, b: int)
    requires
        root_file(package) matches Some(file) && package.files[file_position(
            package.files,
            file,
        ).unwrap()].items matches Ok(items) && 0 <= a < b < items.len() && leaf_record(
            package,
            items,
            a,
            file,
            root_path(),
            false,
            seq![file],
        ) is Some && leaf_record(package, items, b, file, root_path(), false, seq![file]) is Some
            && (forall|k: int|
            0 <= k < items.len() && k != a && k != b ==> registers_nothing(items, k))
            && items[a]->Module_name != items[b]->Module_name && items[a]->Module_name
            != root_path() && items[b]->Module_name != root_path(),
    ensures
        built(package) matches Ok(entries) && entries.len() == 3 && entries[0].path == ({
            let file = root_file(package).unwrap();
            package.files[file_position(package.files, file).unwrap()].items->Ok_0[a]->Module_name
        }) && entries[1].path == ({
            let file = root_file(package).unwrap();
            package.files[file_position(package.files, file).unwrap()].items->Ok_0[b]->Module_name
        }) && entries[2].path == root_path(),
{
    let file = root_file(package).unwrap();
    let items = package.files[file_position(package.files, file).unwrap()].items->Ok_0;
    lemma_two_modules_give_two_records(package, items, a, b, file, root_path(), false, seq![file]);
}

} // verus!
