//! Expands a module graph into one nested stream of items.
//!
//! The walk starts at the root module. Items are taken in the order in which
//! they were declared. An item that is no module declaration is copied. A
//! module declaration is replaced by a block that holds the expansion of the
//! module it names, or by a bare declaration if nothing is known of that
//! module. Where a block begins a new file, the block opens with a marker
//! that names the file.
use vstd::prelude::*;
use crate::error::{MergeError, MergeErrorView};
use crate::filter::{cfg_attrs, extract_cfg_attrs, is_ignored, is_ignored_item, kept_items,
    lemma_kept_items_empty, lemma_kept_items_front};
use crate::graph::{EntryView, InfoView, ModuleGraph, ModuleInfo, lemma_position_from,
    position_of, record_of, resolves};
use crate::item::{Attr, AttrView, ItemView, SourceItem, item_view, items_view};
use crate::paths::{child_path, child_path_of, file_name, file_name_of, is_root_path, root_path};

verus! {

/// An element of the expanded stream.
#[derive(Debug, PartialEq, Eq)]
pub enum Emitted {
    /// What follows, up to the end of the enclosing block, was read from
    /// `file`.
    Marker { file: String },
    /// An item, as source text.
    Verbatim { text: String },
    /// A module with the `cfg` attributes of its declaration. `body` is
    /// `None` for a bare declaration.
    Module { name: String, attrs: Vec<String>, body: Option<Vec<Emitted>> },
}

/// What an [`Emitted`] holds.
pub ghost enum EmittedView {
    Marker { file: Seq<char> },
    Verbatim { text: Seq<char> },
    Module { name: Seq<char>, attrs: Seq<Seq<char>>, body: Option<Seq<EmittedView>> },
}

/// What an element of the stream holds, nested blocks included.
pub open spec fn emitted_view(e: Emitted) -> EmittedView
    decreases e,
{
    match e {
        Emitted::Marker { file } => EmittedView::Marker { file: file@ },
        Emitted::Verbatim { text } => EmittedView::Verbatim { text: text@ },
        Emitted::Module { name, attrs, body } => EmittedView::Module {
            name: name@,
            attrs: attrs.deep_view(),
            body: match body {
                Some(b) => Some(stream_view(b@)),
                None => None,
            },
        },
    }
}

/// What a stream holds.
pub open spec fn stream_view(stream: Seq<Emitted>) -> Seq<EmittedView>
    decreases stream,
{
    Seq::new(
        stream.len(),
        |i: int|
            if 0 <= i < stream.len() {
                emitted_view(stream[i])
            } else {
                arbitrary()
            },
    )
}

impl DeepView for Emitted {
    type V = EmittedView;

    open spec fn deep_view(&self) -> EmittedView {
        emitted_view(*self)
    }
}

/// The text that stands in when a file has no name.
pub open spec fn unnamed_file() -> Seq<char> {
    seq!['u', 'n', 'k', 'n', 'o', 'w', 'n', '.', 'r', 's']
}

/// How the file of a module is named in a marker: by its path relative to
/// the source directory or, if it does not lie under that directory, by its
/// bare file name.
pub open spec fn label_of(info: InfoView) -> Seq<char> {
    match info.rel_path {
        Some(rel) => rel,
        None => if file_name(info.file_path).len() > 0 {
            file_name(info.file_path)
        } else {
            unnamed_file()
        },
    }
}

/// The text of an attribute, as a function to map by.
pub open spec fn attr_text() -> spec_fn(AttrView) -> Seq<char> {
    |a: AttrView| a.text
}

/// The texts of the `cfg` attributes among `attrs`, in order.
pub open spec fn cfg_texts(attrs: Seq<AttrView>) -> Seq<Seq<char>> {
    cfg_attrs(attrs).map_values(attr_text())
}

/// The longest key of a graph.
pub open spec fn longest_path(entries: Seq<EntryView>) -> nat
    decreases entries.len(),
{
    if entries.len() == 0 {
        0
    } else {
        let rest = longest_path(entries.drop_last());
        if entries.last().path.len() > rest {
            entries.last().path.len()
        } else {
            rest
        }
    }
}

/// How far a module path is, at most, from the longest key of the graph.
/// The expansion of a module only ever enters modules of a smaller rank,
/// which is why it ends.
pub open spec fn rank(entries: Seq<EntryView>, mod_path: Seq<char>) -> int {
    if mod_path == root_path() {
        longest_path(entries) as int + 1
    } else {
        longest_path(entries) - mod_path.len()
    }
}

/// No key is longer than the longest.
pub proof fn lemma_longest_path(entries: Seq<EntryView>, k: int)
    requires
        0 <= k < entries.len(),
    ensures
        entries[k].path.len() <= longest_path(entries),
    decreases entries.len(),
{
    if k < entries.len() - 1 {
        lemma_longest_path(entries.drop_last(), k);
    }
}

/// A module that is declared in `mod_path` and has a record, and that is
/// not the root, has a smaller rank than `mod_path`.
pub proof fn lemma_child_rank(entries: Seq<EntryView>, mod_path: Seq<char>, name: Seq<char>)
    requires
        record_of(entries, child_path(mod_path, name)) is Some,
        child_path(mod_path, name) != root_path(),
    ensures
        0 <= rank(entries, child_path(mod_path, name)) < rank(entries, mod_path),
{
    let child = child_path(mod_path, name);
    lemma_position_from(entries, child, 0);
    lemma_longest_path(entries, position_of(entries, child).unwrap());
}

/// The record that a declaration of `name` in `mod_path` stands for. A
/// declaration never stands for the root.
pub open spec fn child_record(entries: Seq<EntryView>, mod_path: Seq<char>, name: Seq<char>)
    -> Option<InfoView> {
    if resolves(entries, mod_path, name) {
        record_of(entries, child_path(mod_path, name))
    } else {
        None
    }
}

/// The marker that opens a block, if the block begins a new file: none if
/// the module's file is the one that is being written out already.
pub open spec fn opening_marker(label: Seq<char>, current_file: Seq<char>) -> Seq<EmittedView> {
    if label == current_file {
        Seq::empty()
    } else {
        seq![EmittedView::Marker { file: label }]
    }
}

/// What item `i` of the module at `mod_path` expands to, while the file
/// `current_file` is being written out: nothing for a test-only item, else
/// one element.
///
/// A module declaration becomes a module with the `cfg` attributes of the
/// declaration. If the declared module has a record, its block holds the
/// marker of its file, unless that is `current_file`, and then the
/// expansion of its items. If it has none, the block is empty. An empty
/// block of a module that was declared without a body is left out, which
/// makes the module a bare declaration.
pub open spec fn item_expanded(
    entries: Seq<EntryView>,
    items: Seq<ItemView>,
    i: int,
    mod_path: Seq<char>,
    current_file: Seq<char>,
) -> Seq<EmittedView>
    decreases rank(entries, mod_path), items.len() - i, 0int,
{
    if i < 0 || i >= items.len() || is_ignored(items[i]) {
        Seq::empty()
    } else {
        match items[i] {
            ItemView::Verbatim { text, .. } => seq![EmittedView::Verbatim { text }],
            ItemView::Module { name, attrs, body } => {
                let block = match child_record(entries, mod_path, name) {
                    Some(info) => {
                        proof {
                            lemma_child_rank(entries, mod_path, name);
                        }
                        opening_marker(label_of(info), current_file) + expanded(
                            entries,
                            info.content,
                            0,
                            child_path(mod_path, name),
                            label_of(info),
                        )
                    },
                    None => Seq::empty(),
                };
                seq![
                    EmittedView::Module {
                        name,
                        attrs: cfg_texts(attrs),
                        body: if block.len() == 0 && body is None {
                            None
                        } else {
                            Some(block)
                        },
                    },
                ]
            },
        }
    }
}

/// What the items of the module at `mod_path` expand to, from item `i` on:
/// the expansions of the items, in order.
pub open spec fn expanded(
    entries: Seq<EntryView>,
    items: Seq<ItemView>,
    i: int,
    mod_path: Seq<char>,
    current_file: Seq<char>,
) -> Seq<EmittedView>
    decreases rank(entries, mod_path), items.len() - i, 1int,
{
    if i < 0 || i >= items.len() {
        Seq::empty()
    } else {
        item_expanded(entries, items, i, mod_path, current_file) + expanded(
            entries,
            items,
            i + 1,
            mod_path,
            current_file,
        )
    }
}

/// The view of a stream grows with the stream.
pub proof fn lemma_stream_view_push(stream: Seq<Emitted>, e: Emitted)
    ensures
        stream_view(stream.push(e)) == stream_view(stream).push(emitted_view(e)),
{
    assert(stream_view(stream.push(e)) =~= stream_view(stream).push(emitted_view(e)));
}

/// The view of two streams in a row is their views in a row.
pub proof fn lemma_stream_view_add(a: Seq<Emitted>, b: Seq<Emitted>)
    ensures
        stream_view(a + b) == stream_view(a) + stream_view(b),
{
    assert(stream_view(a + b) =~= stream_view(a) + stream_view(b));
}

impl ModuleInfo {
    /// How the module's file is named in a marker.
    pub fn label(&self) -> (r: String)
        ensures
            r@ == label_of(self.deep_view()),
    {
        match &self.rel_path {
            Some(rel) => rel.clone(),
            None => {
                let name = file_name_of(self.file_path.as_str());
                if name.as_str().unicode_len() > 0 {
                    name
                } else {
                    proof {
                        reveal_strlit("unknown.rs");
                        assert("unknown.rs"@ =~= unnamed_file());
                    }
                    "unknown.rs".to_owned()
                }
            },
        }
    }
}

/// The texts of the `cfg` attributes among `attrs`, in order.
pub fn cfg_texts_of(attrs: &Vec<Attr>) -> (r: Vec<String>)
    ensures
        r.deep_view() == cfg_texts(attrs.deep_view()),
{
    let kept = extract_cfg_attrs(attrs);
    let mut r: Vec<String> = Vec::new();
    let mut i: usize = 0;
    while i < kept.len()
        invariant
            i <= kept.len(),
            r.len() == i,
            forall|j: int| 0 <= j < i ==> r@[j]@ == kept@[j].deep_view().text,
        decreases kept.len() - i,
    {
        r.push(kept[i].text.clone());
        i = i + 1;
    }
    assert(r.deep_view() =~= kept.deep_view().map_values(attr_text()));
    r
}

/// Expands the items of the module at `mod_path`, while the file
/// `current_file` is being written out.
pub fn expand_items(
    graph: &ModuleGraph,
    items: &Vec<SourceItem>,
    mod_path: &str,
    current_file: &str,
) -> (out: Vec<Emitted>)
    requires
        graph.well_formed(),
    ensures
        stream_view(out@) == expanded(graph@, items_view(items@), 0, mod_path@, current_file@),
    decreases rank(graph@, mod_path@),
{
    let ghost all = items_view(items@);
    let mut out: Vec<Emitted> = Vec::new();
    let mut i: usize = 0;
    proof {
        assert(stream_view(out@) + expanded(graph@, all, 0, mod_path@, current_file@) =~= expanded(
            graph@,
            all,
            0,
            mod_path@,
            current_file@,
        ));
    }
    while i < items.len()
        invariant
            i <= items.len(),
            graph.well_formed(),
            all == items_view(items@),
            stream_view(out@) + expanded(graph@, all, i as int, mod_path@, current_file@)
                == expanded(graph@, all, 0, mod_path@, current_file@),
        decreases items.len() - i,
    {
        let ghost before = out@;
        let ghost here = item_expanded(graph@, all, i as int, mod_path@, current_file@);
        assert(all[i as int] == item_view(items@[i as int]));
        if !is_ignored_item(&items[i]) {
            match &items[i] {
                SourceItem::Verbatim { attrs: _, text } => {
                    let e = Emitted::Verbatim { text: text.clone() };
                    proof {
                        lemma_stream_view_push(out@, e);
                    }
                    out.push(e);
                },
                SourceItem::Module { name, attrs, body } => {
                    let child = child_path_of(mod_path, name.as_str());
                    let mut block: Vec<Emitted> = Vec::new();
                    assert(stream_view(block@) =~= Seq::<EmittedView>::empty());
                    if !is_root_path(child.as_str()) {
                        match graph.get(child.as_str()) {
                            Some(info) => {
                                proof {
                                    lemma_child_rank(graph@, mod_path@, name@);
                                }
                                let label = info.label();
                                if !crate::text::str_eq(label.as_str(), current_file) {
                                    let marker = Emitted::Marker { file: label.clone() };
                                    proof {
                                        lemma_stream_view_push(block@, marker);
                                    }
                                    block.push(marker);
                                }
                                let mut inner = expand_items(
                                    graph,
                                    &info.content,
                                    child.as_str(),
                                    label.as_str(),
                                );
                                proof {
                                    lemma_stream_view_add(block@, inner@);
                                    assert(stream_view(block@) =~= opening_marker(
                                        label@,
                                        current_file@,
                                    ));
                                }
                                block.append(&mut inner);
                            },
                            None => {},
                        }
                    }
                    let no_block = block.len() == 0 && body.is_none();
                    let e = Emitted::Module {
                        name: name.clone(),
                        attrs: cfg_texts_of(attrs),
                        body: if no_block {
                            None
                        } else {
                            Some(block)
                        },
                    };
                    proof {
                        lemma_stream_view_push(out@, e);
                        assert(seq![emitted_view(e)] =~= here);
                    }
                    out.push(e);
                },
            }
        }
        proof {
            assert(stream_view(out@) =~= stream_view(before) + here);
            assert((stream_view(before) + here) + expanded(
                graph@,
                all,
                i + 1,
                mod_path@,
                current_file@,
            ) =~= stream_view(before) + (here + expanded(
                graph@,
                all,
                i + 1,
                mod_path@,
                current_file@,
            )));
        }
        i = i + 1;
    }
    proof {
        assert(stream_view(out@) + Seq::<EmittedView>::empty() =~= stream_view(out@));
    }
    out
}

/// What the module at `mod_path` contributes to a block that is opened in
/// the file `parent_file`: the expansion of its items, or nothing if the
/// module has no record.
pub open spec fn module_content(
    entries: Seq<EntryView>,
    mod_path: Seq<char>,
    parent_file: Seq<char>,
) -> Seq<EmittedView> {
    match record_of(entries, mod_path) {
        Some(info) => expanded(entries, info.content, 0, mod_path, parent_file),
        None => Seq::empty(),
    }
}

/// The stream of the module at `mod_path` when it is written out on its
/// own: the marker of its file, whatever came before, and then the
/// expansion of its items. Nothing if the module has no record.
pub open spec fn module_stream(entries: Seq<EntryView>, mod_path: Seq<char>) -> Seq<EmittedView> {
    match record_of(entries, mod_path) {
        Some(info) => seq![EmittedView::Marker { file: label_of(info) }] + expanded(
            entries,
            info.content,
            0,
            mod_path,
            label_of(info),
        ),
        None => Seq::empty(),
    }
}

/// The stream of a whole package: that of its root module. There is none
/// if the graph does not hold the root.
pub open spec fn merged(entries: Seq<EntryView>) -> Result<Seq<EmittedView>, MergeErrorView> {
    match record_of(entries, root_path()) {
        Some(_) => Ok(module_stream(entries, root_path())),
        None => Err(MergeErrorView::ManifestEntryMissing),
    }
}

/// Appends to `output` what the module at `mod_path` contributes to a block
/// that is opened in the file `parent_file_path`.
pub fn process_module_content(
    mod_path: &str,
    graph: &ModuleGraph,
    output: &mut Vec<Emitted>,
    parent_file_path: &str,
)
    requires
        graph.well_formed(),
    ensures
        stream_view(final(output)@) == stream_view(old(output)@) + module_content(
            graph@,
            mod_path@,
            parent_file_path@,
        ),
{
    match graph.get(mod_path) {
        Some(info) => {
            let mut inner = expand_items(graph, &info.content, mod_path, parent_file_path);
            proof {
                lemma_stream_view_add(output@, inner@);
            }
            output.append(&mut inner);
        },
        None => {
            assert(stream_view(output@) + Seq::<EmittedView>::empty() =~= stream_view(output@));
        },
    }
}

/// Appends to `output` the stream of the module at `mod_path`, written out
/// on its own.
pub fn process_module(mod_path: &str, graph: &ModuleGraph, output: &mut Vec<Emitted>)
    requires
        graph.well_formed(),
    ensures
        stream_view(final(output)@) == stream_view(old(output)@) + module_stream(
            graph@,
            mod_path@,
        ),
{
    match graph.get(mod_path) {
        Some(info) => {
            let label = info.label();
            let marker = Emitted::Marker { file: label.clone() };
            let ghost before = output@;
            proof {
                lemma_stream_view_push(output@, marker);
            }
            output.push(marker);
            process_module_content(mod_path, graph, output, label.as_str());
            proof {
                assert(stream_view(output@) =~= stream_view(before) + module_stream(
                    graph@,
                    mod_path@,
                ));
            }
        },
        None => {
            assert(stream_view(output@) + Seq::<EmittedView>::empty() =~= stream_view(output@));
        },
    }
}

/// Expands a module graph from its root into one stream. Fails if, and
/// only if, the graph does not hold the root module.
pub fn process_package(graph: &ModuleGraph) -> (r: Result<Vec<Emitted>, MergeError>)
    requires
        graph.well_formed(),
    ensures
        match r {
            Ok(stream) => merged(graph@) == Ok::<Seq<EmittedView>, MergeErrorView>(
                stream_view(stream@),
            ),
            Err(e) => merged(graph@) == Err::<Seq<EmittedView>, MergeErrorView>(e.deep_view()),
        },
{
    proof {
        reveal_strlit("crate");
        assert("crate"@ =~= root_path());
    }
    if !graph.contains_key("crate") {
        return Err(MergeError::ManifestEntryMissing);
    }
    let mut output: Vec<Emitted> = Vec::new();
    assert(stream_view(output@) =~= Seq::<EmittedView>::empty());
    process_module("crate", graph, &mut output);
    assert(stream_view(output@) =~= module_stream(graph@, root_path()));
    Ok(output)
}

/// What an element of a module is, without what is inside it: an item with
/// its text, a module with its name, or a marker.
pub ghost enum Heading {
    Item { text: Seq<char> },
    Module { name: Seq<char> },
    Marker,
}

/// The heading of a declared item.
pub open spec fn item_heading() -> spec_fn(ItemView) -> Heading {
    |item: ItemView|
        match item {
            ItemView::Verbatim { text, .. } => Heading::Item { text },
            ItemView::Module { name, .. } => Heading::Module { name },
        }
}

/// The heading of an element of the stream.
pub open spec fn emitted_heading() -> spec_fn(EmittedView) -> Heading {
    |e: EmittedView|
        match e {
            EmittedView::Verbatim { text } => Heading::Item { text },
            EmittedView::Module { name, .. } => Heading::Module { name },
            EmittedView::Marker { .. } => Heading::Marker,
        }
}

/// Expansion keeps the order of declaration. Whatever the graph, the module
/// and the file: the elements that the items of a module expand to are, one
/// for one and in the same order, the items that are not test-only, each
/// item with its text and each module under its name. Since every block of
/// the stream is such an expansion behind at most one marker, this holds at
/// every depth.
pub proof fn lemma_expansion_keeps_order(
    entries: Seq<EntryView>,
    items: Seq<ItemView>,
    i: int,
    mod_path: Seq<char>,
    current_file: Seq<char>,
)
    requires
        0 <= i <= items.len(),
    ensures
        expanded(entries, items, i, mod_path, current_file).map_values(emitted_heading())
            == kept_items(items.skip(i)).map_values(item_heading()),
    decreases items.len() - i,
{
    let rest = items.skip(i);
    if i == items.len() {
        lemma_kept_items_empty();
        assert(rest =~= Seq::<ItemView>::empty());
        assert(expanded(entries, items, i, mod_path, current_file).map_values(emitted_heading())
            =~= kept_items(rest).map_values(item_heading()));
    } else {
        lemma_expansion_keeps_order(entries, items, i + 1, mod_path, current_file);
        lemma_kept_items_front(rest);
        assert(rest.skip(1) =~= items.skip(i + 1));
        assert(rest[0] == items[i]);
        let head = item_expanded(entries, items, i, mod_path, current_file);
        let tail = expanded(entries, items, i + 1, mod_path, current_file);
        assert((head + tail).map_values(emitted_heading()) =~= head.map_values(emitted_heading())
            + tail.map_values(emitted_heading()));
        if is_ignored(items[i]) {
            assert(head.map_values(emitted_heading()) + tail.map_values(emitted_heading())
                =~= tail.map_values(emitted_heading()));
        } else {
            let kept_tail = kept_items(items.skip(i + 1));
            assert((seq![items[i]] + kept_tail).map_values(item_heading()) =~= seq![
                item_heading()(items[i]),
            ] + kept_tail.map_values(item_heading()));
            assert(head.map_values(emitted_heading()) =~= seq![item_heading()(items[i])]);
        }
    }
}

/// The items of a module never expand to a marker: a marker stands only
/// where a block or the whole stream begins.
pub proof fn lemma_markers_only_open_blocks(
    entries: Seq<EntryView>,
    items: Seq<ItemView>,
    mod_path: Seq<char>,
    current_file: Seq<char>,
    k: int,
)
    requires
        0 <= k < expanded(entries, items, 0, mod_path, current_file).len(),
    ensures
        !(expanded(entries, items, 0, mod_path, current_file)[k] is Marker),
{
    lemma_expansion_keeps_order(entries, items, 0, mod_path, current_file);
    let stream = expanded(entries, items, 0, mod_path, current_file);
    let kept = kept_items(items.skip(0));
    let left = stream.map_values(emitted_heading());
    let right = kept.map_values(item_heading());
    assert(left.len() == stream.len() && right.len() == kept.len());
    assert(left[k] == emitted_heading()(stream[k]));
    assert(right[k] == item_heading()(kept[k]));
    assert(!(right[k] is Marker));
}

/// The stream of a package opens with the marker of the root file, and
/// behind it the items of the root module follow in the order in which
/// they were declared.
pub proof fn lemma_merged_keeps_order(entries: Seq<EntryView>)
    ensures
        merged(entries) matches Ok(stream) ==> record_of(entries, root_path()) matches Some(root)
            && stream.len() > 0 && stream[0] == (EmittedView::Marker { file: label_of(root) })
            && stream.skip(1).map_values(emitted_heading()) == kept_items(
            root.content,
        ).map_values(item_heading()),
{
    match record_of(entries, root_path()) {
        Some(root) => {
            lemma_expansion_keeps_order(entries, root.content, 0, root_path(), label_of(root));
            let stream = module_stream(entries, root_path());
            assert(stream.skip(1) =~= expanded(
                entries,
                root.content,
                0,
                root_path(),
                label_of(root),
            ));
            assert(root.content.skip(0) =~= root.content);
        },
        None => {},
    }
}

} // verus!
