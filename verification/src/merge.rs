//! The steps of a merge put together: from the files of a package to the
//! merged text that is handed to a formatter.
use vstd::prelude::*;
use crate::build_laws::{lemma_built, lemma_file_position};
use crate::builder::{FileView, Package, PackageView, ParsedFile, build_graph, built, file_exists,
    file_position_from};
use crate::error::{MergeError, MergeErrorView};
use crate::expand::{merged, process_package};
use crate::graph::{EntryView, ModuleGraph, complete, filtered, has_path};
use crate::paths::{joined, root_path};
use crate::render::{render, rendered};
use crate::syntax::{parse_source, source_items};

verus! {

/// A file of a package as it was read: its path and its text.
#[derive(Debug, PartialEq, Eq)]
pub struct SourceFile {
    pub path: String,
    pub text: String,
}

/// What a [`SourceFile`] holds.
pub ghost struct SourceFileView {
    pub path: Seq<char>,
    pub text: Seq<char>,
}

impl DeepView for SourceFile {
    type V = SourceFileView;

    open spec fn deep_view(&self) -> SourceFileView {
        SourceFileView { path: self.path@, text: self.text@ }
    }
}

/// The package that parsing gives for the files `files` of the source
/// directory `src_dir`: file by file the same path, with the items that
/// the file's text stands for, or the parser's message.
pub open spec fn parsed(src_dir: Seq<char>, files: Seq<SourceFileView>) -> PackageView {
    PackageView {
        src_dir,
        files: Seq::new(
            files.len(),
            |i: int| FileView { path: files[i].path, items: source_items(files[i].text) },
        ),
    }
}

/// Some file of `files` has the path `path`.
pub open spec fn has_file(files: Seq<SourceFileView>, path: Seq<char>) -> bool {
    exists|i: int| 0 <= i < files.len() && (#[trigger] files[i]).path == path
}

/// The source directory holds a root file: `lib.rs` or `main.rs`.
pub open spec fn has_root_file(src_dir: Seq<char>, files: Seq<SourceFileView>) -> bool {
    has_file(files, joined(src_dir, seq!['l', 'i', 'b', '.', 'r', 's'])) || has_file(
        files,
        joined(src_dir, seq!['m', 'a', 'i', 'n', '.', 'r', 's']),
    )
}

/// The merged text of a package, before it is formatted: its graph,
/// expanded from the root and written out.
pub open spec fn merged_text(package: PackageView) -> Result<Seq<char>, MergeErrorView> {
    match built(package) {
        Err(e) => Err(e),
        Ok(entries) => match merged(entries) {
            Err(e) => Err(e),
            Ok(stream) => Ok(rendered(stream)),
        },
    }
}

/// What a step that gives a graph reports: the graph's records, or its
/// error.
pub open spec fn graph_outcome(r: Result<ModuleGraph, MergeError>) -> Result<
    Seq<EntryView>,
    MergeErrorView,
> {
    match r {
        Ok(graph) => Ok(graph@),
        Err(e) => Err(e.deep_view()),
    }
}

/// What a step that gives a text reports: the text, or its error.
pub open spec fn text_outcome(r: Result<String, MergeError>) -> Result<Seq<char>, MergeErrorView> {
    match r {
        Ok(text) => Ok(text@),
        Err(e) => Err(e.deep_view()),
    }
}

/// A parsed package holds a file exactly when the files it was parsed from
/// hold one with that path.
pub proof fn lemma_parse_keeps_files(
    src_dir: Seq<char>,
    files: Seq<SourceFileView>,
    path: Seq<char>,
)
    ensures
        file_exists(parsed(src_dir, files).files, path) == has_file(files, path),
{
    let package = parsed(src_dir, files);
    lemma_file_position(package.files, path, 0);
    if file_exists(package.files, path) {
        let i = file_position_from(package.files, path, 0).unwrap();
        assert(package.files[i].path == files[i].path);
    }
    if has_file(files, path) {
        let i = choose|i: int| 0 <= i < files.len() && (#[trigger] files[i]).path == path;
        assert(package.files[i].path == path);
    }
}

/// Merging a package fails for a missing root file exactly when the source
/// directory holds neither `lib.rs` nor `main.rs`.
pub proof fn lemma_root_file_is_needed(src_dir: Seq<char>, files: Seq<SourceFileView>)
    ensures
        built(parsed(src_dir, files)) matches Err(MergeErrorView::ManifestEntryMissing)
            <==> !has_root_file(src_dir, files),
        merged_text(parsed(src_dir, files)) matches Err(MergeErrorView::ManifestEntryMissing)
            <==> !has_root_file(src_dir, files),
{
    lemma_parse_keeps_files(src_dir, files, joined(src_dir, seq!['l', 'i', 'b', '.', 'r', 's']));
    lemma_parse_keeps_files(
        src_dir,
        files,
        joined(src_dir, seq!['m', 'a', 'i', 'n', '.', 'r', 's']),
    );
    lemma_built(parsed(src_dir, files));
}

/// Parses the files of a package. A file that `syn` does not accept is kept
/// with the parser's message; it only matters if the merge reaches it.
pub fn parse_sources(src_dir: &str, files: &Vec<SourceFile>) -> (package: Package)
    ensures
        package.deep_view() == parsed(src_dir@, files.deep_view()),
{
    let mut done: Vec<ParsedFile> = Vec::new();
    let mut i: usize = 0;
    while i < files.len()
        invariant
            i <= files.len(),
            done.len() == i,
            forall|j: int|
                0 <= j < i ==> (#[trigger] done@[j]).deep_view() == (FileView {
                    path: files@[j].path@,
                    items: source_items(files@[j].text@),
                }),
        decreases files.len() - i,
    {
        let items = parse_source(files[i].text.as_str());
        done.push(ParsedFile { path: files[i].path.clone(), items });
        i = i + 1;
    }
    let package = Package { src_dir: src_dir.to_owned(), files: done };
    proof {
        let want = parsed(src_dir@, files.deep_view());
        assert forall|j: int| 0 <= j < files.len() implies package.deep_view().files[j]
            == want.files[j] by {
            assert(package.deep_view().files[j] == done@[j].deep_view());
            assert(files.deep_view()[j] == files@[j].deep_view());
        }
        assert(package.deep_view().files =~= want.files);
    }
    package
}

/// Builds the module graph of the package whose files are `files` and whose
/// root file lies in `src_dir`: the graph of the package that parsing the
/// files gives.
pub fn parse_module_structure(src_dir: &str, files: &Vec<SourceFile>) -> (r: Result<
    ModuleGraph,
    MergeError,
>)
    ensures
        built(parsed(src_dir@, files.deep_view())) == graph_outcome(r),
        r matches Ok(graph) ==> graph.well_formed() && filtered(graph@) && complete(graph@)
            && has_path(graph@, root_path()),
{
    let package = parse_sources(src_dir, files);
    build_graph(&package)
}

/// Merges a parsed package into one text, ready for a formatter.
pub fn merge_parsed(package: &Package) -> (r: Result<String, MergeError>)
    ensures
        merged_text(package.deep_view()) == text_outcome(r),
{
    match build_graph(package) {
        Err(e) => Err(e),
        Ok(graph) => match process_package(&graph) {
            Err(e) => Err(e),
            Ok(stream) => Ok(render(&stream)),
        },
    }
}

/// Merges the package whose files are `files` and whose root file lies in
/// `src_dir` into one text, ready for a formatter: the merged text of the
/// package that parsing the files gives.
pub fn merge_package(src_dir: &str, files: &Vec<SourceFile>) -> (r: Result<String, MergeError>)
    ensures
        merged_text(parsed(src_dir@, files.deep_view())) == text_outcome(r),
{
    let package = parse_sources(src_dir, files);
    merge_parsed(&package)
}

} // verus!
