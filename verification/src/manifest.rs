//! What a package manifest says of the packages to merge.
//!
//! The manifest is read with `toml`. Of all that it holds, merging looks at
//! the package's name, at a source directory that the package may name in
//! place of `src`, and, in a workspace, at the list of members.
use vstd::prelude::*;
use crate::paths::{create_output_file, join_path, joined, output_file};
use crate::text::{chars_of, push_str, string_of};

verus! {

/// The message with which `toml::from_str` refuses a text as a TOML
/// document; `None` if it accepts the text.
pub uninterp spec fn toml_error(text: Seq<char>) -> Option<Seq<char>>;

/// Whether the TOML document `text` has an entry under `key` at its top,
/// as `toml::Value::get` tells. False for a text that is no TOML document.
pub uninterp spec fn toml_has(text: Seq<char>, key: Seq<char>) -> bool;

/// The string under `key` in the table `table` of the TOML document `text`,
/// as `toml::Value::get` and `toml::Value::as_str` give it. `None` if the
/// text is no TOML document, if there is no such table or entry, or if the
/// entry is no string.
pub uninterp spec fn toml_text(text: Seq<char>, table: Seq<char>, key: Seq<char>) -> Option<
    Seq<char>,
>;

/// The elements of the array under `key` in the table `table` of the TOML
/// document `text`, as `toml::Value::get` and `toml::Value::as_array` give
/// them, each as `toml::Value::as_str` gives it: `None` for an element that
/// is no string. `None` as a whole if the text is no TOML document, if
/// there is no such table or entry, or if the entry is no array.
pub uninterp spec fn toml_texts(text: Seq<char>, table: Seq<char>, key: Seq<char>) -> Option<
    Seq<Option<Seq<char>>>,
>;

/// `toml::from_str` into a `toml::Value`: the error's message, through its
/// `Display` impl, if the text is refused. The result depends on the text
/// alone.
#[verifier::external_body]
fn read_toml_error(text: &str) -> (r: Option<String>)
    ensures
        r.deep_view() == toml_error(text@),
{
    toml::from_str::<toml::Value>(text).err().map(|e| e.to_string())
}

/// `toml::from_str` into a `toml::Value`, then `toml::Value::get` with a
/// key: whether there is an entry. The result depends on the two texts
/// alone.
#[verifier::external_body]
fn read_toml_has(text: &str, key: &str) -> (r: bool)
    ensures
        r == toml_has(text@, key@),
{
    match toml::from_str::<toml::Value>(text) {
        Ok(root) => root.get(key).is_some(),
        Err(_) => false,
    }
}

/// `toml::from_str` into a `toml::Value`, then `toml::Value::get` with the
/// table's key and with the entry's, then `toml::Value::as_str`. The result
/// depends on the three texts alone.
#[verifier::external_body]
fn read_toml_text(text: &str, table: &str, key: &str) -> (r: Option<String>)
    ensures
        r.deep_view() == toml_text(text@, table@, key@),
{
    let root = toml::from_str::<toml::Value>(text).ok()?;
    root.get(table)?.get(key)?.as_str().map(|entry| entry.to_string())
}

/// `toml::from_str` into a `toml::Value`, then `toml::Value::get` with the
/// table's key and with the entry's, then `toml::Value::as_array`, and
/// `toml::Value::as_str` on each element. The result depends on the three
/// texts alone.
#[verifier::external_body]
fn read_toml_texts(text: &str, table: &str, key: &str) -> (r: Option<Vec<Option<String>>>)
    ensures
        r.deep_view() == toml_texts(text@, table@, key@),
{
    let root = toml::from_str::<toml::Value>(text).ok()?;
    let array = root.get(table)?.get(key)?.as_array()?;
    Some(array.iter().map(|element| element.as_str().map(|entry| entry.to_string())).collect())
}

/// What is read of the `workspace` table of a manifest.
#[derive(Debug, PartialEq, Eq)]
pub struct Workspace {
    /// The elements of `members`, if it is an array; an element that is no
    /// string is `None`.
    pub members: Option<Vec<Option<String>>>,
}

/// What is read of a manifest.
#[derive(Debug, PartialEq, Eq)]
pub struct Manifest {
    /// `package.name`, if it is a string.
    pub package_name: Option<String>,
    /// `package.src`, if it is a string.
    pub package_src: Option<String>,
    /// The `workspace` table, if the manifest has one.
    pub workspace: Option<Workspace>,
}

/// Why nothing can be done with a manifest.
#[derive(Debug, PartialEq, Eq)]
pub enum ManifestError {
    /// The text is not valid TOML.
    Invalid { message: String },
    /// The workspace has no array of members.
    MembersMissing,
    /// The member at `index` is no string.
    MemberNotText { index: usize },
    /// The manifest names no package.
    PackageNameMissing,
    /// The manifest is that of a workspace, and no package was asked for.
    WorkspaceNeedsPackage { members: Vec<String> },
}

/// What a [`Workspace`] holds.
pub ghost struct WorkspaceView {
    pub members: Option<Seq<Option<Seq<char>>>>,
}

/// What a [`Manifest`] holds.
pub ghost struct ManifestView {
    pub package_name: Option<Seq<char>>,
    pub package_src: Option<Seq<char>>,
    pub workspace: Option<WorkspaceView>,
}

/// What a [`ManifestError`] holds.
pub ghost enum ManifestErrorView {
    Invalid { message: Seq<char> },
    MembersMissing,
    MemberNotText { index: int },
    PackageNameMissing,
    WorkspaceNeedsPackage { members: Seq<Seq<char>> },
}

impl DeepView for Workspace {
    type V = WorkspaceView;

    open spec fn deep_view(&self) -> WorkspaceView {
        WorkspaceView { members: self.members.deep_view() }
    }
}

impl DeepView for Manifest {
    type V = ManifestView;

    open spec fn deep_view(&self) -> ManifestView {
        ManifestView {
            package_name: self.package_name.deep_view(),
            package_src: self.package_src.deep_view(),
            workspace: self.workspace.deep_view(),
        }
    }
}

impl DeepView for ManifestError {
    type V = ManifestErrorView;

    open spec fn deep_view(&self) -> ManifestErrorView {
        match self {
            ManifestError::Invalid { message } => ManifestErrorView::Invalid { message: message@ },
            ManifestError::MembersMissing => ManifestErrorView::MembersMissing,
            ManifestError::MemberNotText { index } => ManifestErrorView::MemberNotText {
                index: *index as int,
            },
            ManifestError::PackageNameMissing => ManifestErrorView::PackageNameMissing,
            ManifestError::WorkspaceNeedsPackage { members } =>
                ManifestErrorView::WorkspaceNeedsPackage { members: members.deep_view() },
        }
    }
}

/// What a manifest says, or why nothing can be read from it: the package's
/// name and source directory are the strings `name` and `src` of the table
/// `package`, and the workspace, if the document has an entry `workspace`,
/// holds the elements of its array `members`.
pub open spec fn manifest_of(text: Seq<char>) -> Result<ManifestView, ManifestErrorView> {
    match toml_error(text) {
        Some(message) => Err(ManifestErrorView::Invalid { message }),
        None => Ok(
            ManifestView {
                package_name: toml_text(text, "package"@, "name"@),
                package_src: toml_text(text, "package"@, "src"@),
                workspace: if toml_has(text, "workspace"@) {
                    Some(WorkspaceView { members: toml_texts(text, "workspace"@, "members"@) })
                } else {
                    None
                },
            },
        ),
    }
}

/// What reading a manifest reports.
pub open spec fn manifest_outcome(r: Result<Manifest, ManifestError>) -> Result<
    ManifestView,
    ManifestErrorView,
> {
    match r {
        Ok(manifest) => Ok(manifest.deep_view()),
        Err(e) => Err(e.deep_view()),
    }
}

/// The string under `key` in the table `table` of a manifest.
fn text_entry(text: &str, table: &str, key: &str) -> (r: Option<String>)
    ensures
        r.deep_view() == toml_text(text@, table@, key@),
{
    read_toml_text(text, table, key)
}

/// What is read of the `workspace` table of a manifest.
fn read_workspace(text: &str) -> (r: Workspace)
    ensures
        r.deep_view() == (WorkspaceView { members: toml_texts(text@, "workspace"@, "members"@) }),
{
    Workspace { members: read_toml_texts(text, "workspace", "members") }
}

/// Reads a manifest. Fails, with the parser's message, exactly when the
/// text is not valid TOML.
pub fn read_manifest(text: &str) -> (r: Result<Manifest, ManifestError>)
    ensures
        manifest_outcome(r) == manifest_of(text@),
{
    match read_toml_error(text) {
        Some(message) => Err(ManifestError::Invalid { message }),
        None => {
            let workspace = if read_toml_has(text, "workspace") {
                Some(read_workspace(text))
            } else {
                None
            };
            Ok(
                Manifest {
                    package_name: text_entry(text, "package", "name"),
                    package_src: text_entry(text, "package", "src"),
                    workspace,
                },
            )
        },
    }
}

/// The directory that holds the sources of the package at `package_path`:
/// the one that the manifest names, or `src`.
pub open spec fn source_dir(package_path: Seq<char>, manifest: ManifestView) -> Seq<char> {
    match manifest.package_src {
        Some(src) => joined(package_path, src),
        None => joined(package_path, "src"@),
    }
}

/// The directory that holds the sources of the package at `package_path`.
pub fn find_src_dir(package_path: &str, manifest: &Manifest) -> (r: String)
    ensures
        r@ == source_dir(package_path@, manifest.deep_view()),
{
    match &manifest.package_src {
        Some(src) => join_path(package_path, src.as_str()),
        None => join_path(package_path, "src"),
    }
}

/// The members of a workspace from index `i` on, as names. Fails at the
/// first member that is no string.
pub open spec fn names_from(members: Seq<Option<Seq<char>>>, i: int) -> Result<
    Seq<Seq<char>>,
    ManifestErrorView,
>
    decreases members.len() - i,
{
    if i < 0 || i >= members.len() {
        Ok(Seq::empty())
    } else {
        match members[i] {
            None => Err(ManifestErrorView::MemberNotText { index: i }),
            Some(name) => match names_from(members, i + 1) {
                Ok(rest) => Ok(seq![name] + rest),
                Err(e) => Err(e),
            },
        }
    }
}

/// The names of the members of a workspace. Fails if the workspace has no
/// array of members or if a member is no string.
pub open spec fn member_names(workspace: WorkspaceView) -> Result<
    Seq<Seq<char>>,
    ManifestErrorView,
> {
    match workspace.members {
        None => Err(ManifestErrorView::MembersMissing),
        Some(members) => names_from(members, 0),
    }
}

/// What a step that gives names reports.
pub open spec fn names_outcome(r: Result<Vec<String>, ManifestError>) -> Result<
    Seq<Seq<char>>,
    ManifestErrorView,
> {
    match r {
        Ok(names) => Ok(names.deep_view()),
        Err(e) => Err(e.deep_view()),
    }
}

/// If every member up to `n` is a string, the names from `i` on are those
/// up to `n` followed by the names from `n` on.
proof fn lemma_names_from_split(members: Seq<Option<Seq<char>>>, i: int, n: int)
    requires
        0 <= i <= n <= members.len(),
        forall|k: int| i <= k < n ==> (#[trigger] members[k]) is Some,
    ensures
        names_from(members, i) == match names_from(members, n) {
            Ok(rest) => Ok::<Seq<Seq<char>>, ManifestErrorView>(
                Seq::new((n - i) as nat, |k: int| members[i + k].unwrap()) + rest,
            ),
            Err(e) => Err(e),
        },
    decreases n - i,
{
    if i < n {
        lemma_names_from_split(members, i + 1, n);
        match names_from(members, n) {
            Ok(rest) => {
                assert(seq![members[i].unwrap()] + (Seq::new(
                    (n - (i + 1)) as nat,
                    |k: int| members[i + 1 + k].unwrap(),
                ) + rest) =~= Seq::new((n - i) as nat, |k: int| members[i + k].unwrap()) + rest);
            },
            Err(_) => {},
        }
    } else {
        match names_from(members, n) {
            Ok(rest) => {
                assert(Seq::new(0nat, |k: int| members[i + k].unwrap()) + rest =~= rest);
            },
            Err(_) => {},
        }
    }
}

/// The names of the members of a workspace.
pub fn member_names_of(workspace: &Workspace) -> (r: Result<Vec<String>, ManifestError>)
    ensures
        names_outcome(r) == member_names(workspace.deep_view()),
{
    match &workspace.members {
        None => Err(ManifestError::MembersMissing),
        Some(members) => {
            let ghost all = members.deep_view();
            let mut names: Vec<String> = Vec::new();
            let mut i: usize = 0;
            while i < members.len()
                invariant
                    i <= members.len(),
                    all == members.deep_view(),
                    workspace.deep_view().members == Some(all),
                    names.len() == i,
                    forall|k: int|
                        0 <= k < i ==> (#[trigger] all[k]) is Some && all[k].unwrap() == names@[k]@,
                decreases members.len() - i,
            {
                assert(all[i as int] == members@[i as int].deep_view());
                match &members[i] {
                    Some(name) => {
                        names.push(name.clone());
                    },
                    None => {
                        proof {
                            lemma_names_from_split(all, 0, i as int);
                        }
                        return Err(ManifestError::MemberNotText { index: i });
                    },
                }
                i = i + 1;
            }
            proof {
                lemma_names_from_split(all, 0, members.len() as int);
                assert(names.deep_view() =~= Seq::new(
                    members.len() as nat,
                    |k: int| all[0 + k].unwrap(),
                ) + Seq::<Seq<char>>::empty());
            }
            Ok(names)
        },
    }
}

/// The package to merge, with the directory that holds it, when the
/// command is run in `current_dir`.
///
/// A package that is asked for by name lies in the directory of that name.
/// Otherwise the manifest decides: that of a package names the package,
/// which lies in `current_dir`; that of a workspace names none, and the
/// failure lists the members to choose from.
pub open spec fn chosen_package(
    current_dir: Seq<char>,
    package_name: Option<Seq<char>>,
    manifest: ManifestView,
) -> Result<(Seq<char>, Seq<char>), ManifestErrorView> {
    match package_name {
        Some(name) => Ok((name, joined(current_dir, name))),
        None => match manifest.workspace {
            Some(workspace) => match member_names(workspace) {
                Ok(members) => Err(ManifestErrorView::WorkspaceNeedsPackage { members }),
                Err(e) => Err(e),
            },
            None => match manifest.package_name {
                Some(name) => Ok((name, current_dir)),
                None => Err(ManifestErrorView::PackageNameMissing),
            },
        },
    }
}

/// What a step that gives a package reports.
pub open spec fn package_outcome(r: Result<(String, String), ManifestError>) -> Result<
    (Seq<char>, Seq<char>),
    ManifestErrorView,
> {
    match r {
        Ok((name, path)) => Ok((name@, path@)),
        Err(e) => Err(e.deep_view()),
    }
}

/// Decides which package to merge and where it lies.
pub fn determine_package(
    current_dir: &str,
    package_name: &Option<String>,
    manifest: &Manifest,
) -> (r: Result<(String, String), ManifestError>)
    ensures
        package_outcome(r) == chosen_package(
            current_dir@,
            package_name.deep_view(),
            manifest.deep_view(),
        ),
{
    match package_name {
        Some(name) => Ok((name.clone(), join_path(current_dir, name.as_str()))),
        None => match &manifest.workspace {
            Some(workspace) => match member_names_of(workspace) {
                Ok(members) => Err(ManifestError::WorkspaceNeedsPackage { members }),
                Err(e) => Err(e),
            },
            None => match &manifest.package_name {
                Some(name) => Ok((name.clone(), current_dir.to_owned())),
                None => Err(ManifestError::PackageNameMissing),
            },
        },
    }
}

/// One package to merge.
#[derive(Debug, PartialEq, Eq)]
pub struct PackageJob {
    pub name: String,
    /// The directory that holds the package.
    pub path: String,
    /// Where to write the merged text, if that was fixed.
    pub output_path: Option<String>,
}

/// What a [`PackageJob`] holds.
pub ghost struct JobView {
    pub name: Seq<char>,
    pub path: Seq<char>,
    pub output_path: Option<Seq<char>>,
}

impl DeepView for PackageJob {
    type V = JobView;

    open spec fn deep_view(&self) -> JobView {
        JobView { name: self.name@, path: self.path@, output_path: self.output_path.deep_view() }
    }
}

/// A member's name with every `/` turned into `_`, so that it can name a
/// file.
pub open spec fn flat_name(name: Seq<char>) -> Seq<char> {
    Seq::new(
        name.len(),
        |i: int|
            if name[i] == '/' {
                '_'
            } else {
                name[i]
            },
    )
}

/// The job of merging the workspace member `name`: the member lies in the
/// directory of its name under `workspace_root` and, if an output directory
/// is given, is written to a file of its own in it.
pub open spec fn member_job(
    workspace_root: Seq<char>,
    name: Seq<char>,
    output_dir: Option<Seq<char>>,
) -> JobView {
    JobView {
        name,
        path: joined(workspace_root, name),
        output_path: match output_dir {
            Some(dir) => Some(output_file(dir, flat_name(name))),
            None => None,
        },
    }
}

/// The jobs of merging every package that the manifest at `workspace_root`
/// stands for: the members of a workspace or, for the manifest of a
/// package, that package alone, written to `output_path` as it is.
pub open spec fn planned_jobs(
    workspace_root: Seq<char>,
    manifest: ManifestView,
    output_path: Option<Seq<char>>,
) -> Result<Seq<JobView>, ManifestErrorView> {
    match manifest.workspace {
        Some(workspace) => match member_names(workspace) {
            Ok(names) => Ok(
                Seq::new(names.len(), |i: int| member_job(workspace_root, names[i], output_path)),
            ),
            Err(e) => Err(e),
        },
        None => match chosen_package(workspace_root, None, manifest) {
            Ok((name, path)) => Ok(seq![JobView { name, path, output_path }]),
            Err(e) => Err(e),
        },
    }
}

/// What a step that gives jobs reports.
pub open spec fn jobs_outcome(r: Result<Vec<PackageJob>, ManifestError>) -> Result<
    Seq<JobView>,
    ManifestErrorView,
> {
    match r {
        Ok(jobs) => Ok(jobs.deep_view()),
        Err(e) => Err(e.deep_view()),
    }
}

/// A member's name with every `/` turned into `_`.
pub fn flat_name_of(name: &str) -> (r: String)
    ensures
        r@ == flat_name(name@),
{
    let chars = chars_of(name);
    let mut out: Vec<char> = Vec::new();
    let mut i: usize = 0;
    while i < chars.len()
        invariant
            i <= chars.len(),
            out.len() == i,
            forall|k: int| 0 <= k < i ==> out@[k] == flat_name(chars@)[k],
        decreases chars.len() - i,
    {
        if chars[i] == '/' {
            out.push('_');
        } else {
            out.push(chars[i]);
        }
        i = i + 1;
    }
    assert(out@ =~= flat_name(chars@));
    string_of(&out)
}

/// A copy of an optional text.
fn copy_of(text: &Option<String>) -> (r: Option<String>)
    ensures
        r.deep_view() == text.deep_view(),
{
    match text {
        Some(t) => Some(t.clone()),
        None => None,
    }
}

/// Plans the merging of every package that a manifest stands for.
pub fn plan_packages(workspace_root: &str, manifest: &Manifest, output_path: &Option<String>) -> (r:
    Result<Vec<PackageJob>, ManifestError>)
    ensures
        jobs_outcome(r) == planned_jobs(
            workspace_root@,
            manifest.deep_view(),
            output_path.deep_view(),
        ),
{
    match &manifest.workspace {
        Some(workspace) => match member_names_of(workspace) {
            Err(e) => Err(e),
            Ok(names) => {
                let mut jobs: Vec<PackageJob> = Vec::new();
                let mut i: usize = 0;
                while i < names.len()
                    invariant
                        i <= names.len(),
                        jobs.len() == i,
                        forall|k: int|
                            0 <= k < i ==> (#[trigger] jobs@[k]).deep_view() == member_job(
                                workspace_root@,
                                names@[k]@,
                                output_path.deep_view(),
                            ),
                    decreases names.len() - i,
                {
                    let name = &names[i];
                    let output = match output_path {
                        Some(dir) => Some(
                            create_output_file(dir.as_str(), flat_name_of(name.as_str()).as_str()),
                        ),
                        None => None,
                    };
                    jobs.push(
                        PackageJob {
                            name: name.clone(),
                            path: join_path(workspace_root, name.as_str()),
                            output_path: output,
                        },
                    );
                    i = i + 1;
                }
                proof {
                    assert(jobs.deep_view() =~= Seq::new(
                        names.deep_view().len(),
                        |k: int|
                            member_job(workspace_root@, names.deep_view()[k], output_path.deep_view()),
                    ));
                }
                Ok(jobs)
            },
        },
        None => match determine_package(workspace_root, &None, manifest) {
            Err(e) => Err(e),
            Ok((name, path)) => {
                let mut jobs: Vec<PackageJob> = Vec::new();
                jobs.push(PackageJob { name, path, output_path: copy_of(output_path) });
                assert(jobs.deep_view() =~= seq![jobs@[0].deep_view()]);
                Ok(jobs)
            },
        },
    }
}

/// Where the merged text of a package is written when the command is run
/// in `current_dir`: to the path that was fixed or, if none was, to the
/// package's file in `target/rustmerge`.
pub open spec fn output_path_for(
    fixed: Option<Seq<char>>,
    current_dir: Seq<char>,
    package_name: Seq<char>,
) -> Seq<char> {
    match fixed {
        Some(path) => path,
        None => output_file(joined(joined(current_dir, "target"@), "rustmerge"@), package_name),
    }
}

/// Where the merged text of a package is written.
pub fn output_path_of(fixed: &Option<String>, current_dir: &str, package_name: &str) -> (r: String)
    ensures
        r@ == output_path_for(fixed.deep_view(), current_dir@, package_name@),
{
    match fixed {
        Some(path) => path.clone(),
        None => {
            let target = join_path(current_dir, "target");
            let dir = join_path(target.as_str(), "rustmerge");
            create_output_file(dir.as_str(), package_name)
        },
    }
}

/// The message of an error.
pub open spec fn manifest_message(e: ManifestErrorView) -> Seq<char> {
    match e {
        ManifestErrorView::Invalid { message } => "Failed to read the manifest: "@ + message,
        ManifestErrorView::MembersMissing => "Failed to get workspace members"@,
        ManifestErrorView::MemberNotText { .. } => "A workspace member is not a string"@,
        ManifestErrorView::PackageNameMissing => "Failed to determine package name"@,
        ManifestErrorView::WorkspaceNeedsPackage { .. } =>
            "This is a workspace. Please run the command again with the package name."@,
    }
}

impl ManifestError {
    /// The message of the error.
    pub fn message(&self) -> (r: String)
        ensures
            r@ == manifest_message(self.deep_view()),
    {
        let mut out: Vec<char> = Vec::new();
        match self {
            ManifestError::Invalid { message } => {
                push_str(&mut out, "Failed to read the manifest: ");
                push_str(&mut out, message.as_str());
            },
            ManifestError::MembersMissing => {
                push_str(&mut out, "Failed to get workspace members");
            },
            ManifestError::MemberNotText { .. } => {
                push_str(&mut out, "A workspace member is not a string");
            },
            ManifestError::PackageNameMissing => {
                push_str(&mut out, "Failed to determine package name");
            },
            ManifestError::WorkspaceNeedsPackage { .. } => {
                push_str(
                    &mut out,
                    "This is a workspace. Please run the command again with the package name.",
                );
            },
        }
        assert(out@ =~= manifest_message(self.deep_view()));
        string_of(&out)
    }
}

} // verus!
