//! The engine behind a git-backed store: projects as trees of one
//! repository, history as its commits.

use vstd::prelude::*;
use vstd::string::StringExecFns;
use crate::error::StoreError;
use crate::store::{CommitInfo, LogResult};
use crate::project::{
    is_program_token, program_git, program_token, ArchiveEntry, ArchiveEntryContents, Program,
    ProjectID, RawArchive, RawProject,
};

verus! {

/// `gix::Repository`: a handle on one repository. Nothing inside it is read
/// but through the functions below.
#[verifier::external_type_specification]
#[verifier::external_body]
pub struct ExRepository(gix::Repository);

/// `gix::Error`: what the repository reports when a call fails.
#[verifier::external_type_specification]
#[verifier::external_body]
pub struct ExGitError(gix::Error);

/// `gix::object::tree::Editor`: a tree that is being edited.
#[verifier::external_type_specification]
#[verifier::external_body]
pub struct ExEditor<'a>(gix::object::tree::Editor<'a>);

/// `gix::revision::Walk`: a walk over the ancestry of a commit.
#[verifier::external_type_specification]
#[verifier::external_body]
pub struct ExWalk<'a>(gix::revision::Walk<'a>);

/// `gix::revision::walk::Info`: one commit of a walk.
#[verifier::external_type_specification]
#[verifier::external_body]
pub struct ExWalkInfo<'a>(gix::revision::walk::Info<'a>);

/// One entry of a tree object: its name, whether it is a tree itself, and
/// the id of the object it points to.
#[derive(Debug)]
pub struct TreeItem {
    pub name: String,
    pub is_tree: bool,
    pub id: Vec<u8>,
}

/// The value of a tree entry.
pub struct ItemView {
    pub name: Seq<char>,
    pub is_tree: bool,
    pub id: Seq<u8>,
}

impl View for TreeItem {
    type V = ItemView;

    open spec fn view(&self) -> ItemView {
        ItemView { name: self.name@, is_tree: self.is_tree, id: self.id@ }
    }
}

/// The values of a list of tree entries, in order.
pub open spec fn items_view(items: Seq<TreeItem>) -> Seq<ItemView> {
    items.map_values(|t: TreeItem| t@)
}

/// Where HEAD stands: whether its branch has a commit yet, and the full name
/// of that branch (none when HEAD is detached).
#[derive(Debug)]
pub struct HeadState {
    pub unborn: bool,
    pub referent: Option<String>,
}

/// `gix::discover`: opens the repository that holds `path`. Nothing is
/// claimed of the outcome.
#[verifier::external_body]
fn git_discover(path: &str) -> (res: Result<gix::Repository, gix::Error>) {
    gix::discover(path)
}

/// `gix::init_bare`: creates a bare repository at `path`. Nothing is
/// claimed of the outcome.
#[verifier::external_body]
fn git_init_bare(path: &str) -> (res: Result<gix::Repository, gix::Error>) {
    gix::init_bare(path)
}

/// `Display` of `gix::Error`: the error's text.
#[verifier::external_body]
fn git_error_text(e: &gix::Error) -> (s: String) {
    e.to_string()
}

/// `Repository::head`, read through `Head::is_unborn` and
/// `Head::referent_name`. Nothing is claimed of the outcome.
#[verifier::external_body]
fn git_head(repo: &gix::Repository) -> (res: Result<HeadState, gix::Error>) {
    let head = repo.head()?;
    Ok(HeadState {
        unborn: head.is_unborn(),
        referent: head.referent_name().map(|n| n.as_bstr().to_string()),
    })
}

/// `Repository::head_commit`: the id of the commit that HEAD points to.
#[verifier::external_body]
fn git_head_commit(repo: &gix::Repository) -> (res: Result<Vec<u8>, gix::Error>) {
    Ok(repo.head_commit()?.id.as_bytes().to_vec())
}

/// `Repository::empty_tree`: the id of the tree without entries.
#[verifier::external_body]
fn git_empty_tree(repo: &gix::Repository) -> (id: Vec<u8>) {
    repo.empty_tree().id.as_bytes().to_vec()
}

/// `Repository::find_tree` and `Tree::iter`: the entries of the tree `id`,
/// in the tree's order, each name as text (bytes that are no UTF-8 are
/// replaced). Nothing is claimed of the outcome.
#[verifier::external_body]
fn git_tree_items(repo: &gix::Repository, id: &[u8]) -> (res: Result<Vec<TreeItem>, gix::Error>) {
    let tree = repo.find_tree(gix::ObjectId::try_from(id)?)?;
    tree.iter().map(|e| {
        let e = e?;
        Ok(TreeItem {
            name: e.filename().to_string(),
            is_tree: e.mode().is_tree(),
            id: e.oid().as_bytes().to_vec(),
        })
    }).collect()
}

/// `Repository::find_commit` and `Commit::tree_id`: the id of the tree of
/// the commit `id`. Nothing is claimed of the outcome.
#[verifier::external_body]
fn git_commit_tree(repo: &gix::Repository, id: &[u8]) -> (res: Result<Vec<u8>, gix::Error>) {
    let commit = repo.find_commit(gix::ObjectId::try_from(id)?)?;
    Ok(commit.tree_id()?.as_bytes().to_vec())
}

/// `Repository::find_commit` and `Commit::parent_ids`: the ids of the
/// parents of the commit `id`, first parent first. Nothing is claimed of
/// the outcome.
#[verifier::external_body]
fn git_commit_parents(repo: &gix::Repository, id: &[u8]) -> (res: Result<
    Vec<Vec<u8>>,
    gix::Error,
>) {
    let commit = repo.find_commit(gix::ObjectId::try_from(id)?)?;
    Ok(commit.parent_ids().map(|p| p.as_bytes().to_vec()).collect())
}

/// `Repository::find_blob`: the bytes of the blob `id`. Nothing is claimed
/// of the outcome.
#[verifier::external_body]
fn git_read_blob(repo: &gix::Repository, id: &[u8]) -> (res: Result<Vec<u8>, gix::Error>) {
    Ok(repo.find_blob(gix::ObjectId::try_from(id)?)?.detach().data)
}

/// `Repository::write_blob`: stores `data` as a blob and gives its id.
/// Nothing is claimed of the outcome.
#[verifier::external_body]
fn git_write_blob(repo: &gix::Repository, data: &[u8]) -> (res: Result<Vec<u8>, gix::Error>) {
    Ok(repo.write_blob(data)?.as_bytes().to_vec())
}

/// `Repository::find_tree` and `Tree::lookup_entry_by_path`: the entry at
/// `path` below the tree `id`, if there is one. Nothing is claimed of the
/// outcome.
#[verifier::external_body]
fn git_lookup(repo: &gix::Repository, id: &[u8], path: &str) -> (res: Result<
    Option<TreeItem>,
    gix::Error,
>) {
    let tree = repo.find_tree(gix::ObjectId::try_from(id)?)?;
    Ok(tree.lookup_entry_by_path(path)?.map(|e| TreeItem {
        name: e.filename().to_string(),
        is_tree: e.mode().is_tree(),
        id: e.oid().as_bytes().to_vec(),
    }))
}

/// `Repository::edit_tree`: an editor that starts from the tree `id`.
/// Nothing is claimed of the outcome.
#[verifier::external_body]
fn git_edit_tree<'a>(repo: &'a gix::Repository, id: &[u8]) -> (res: Result<
    gix::object::tree::Editor<'a>,
    gix::Error,
>) {
    repo.edit_tree(gix::ObjectId::try_from(id)?)
}

/// `Editor::upsert`: puts the object `id` at `path`, as a tree or as a
/// blob, in place of what was there. Nothing is claimed of the outcome.
#[verifier::external_body]
fn git_upsert(editor: &mut gix::object::tree::Editor<'_>, path: &str, is_tree: bool, id: &[u8]) -> (res:
    Result<(), gix::Error>) {
    let kind = if is_tree { gix::objs::tree::EntryKind::Tree } else { gix::objs::tree::EntryKind::Blob };
    editor.upsert(path, kind, gix::ObjectId::try_from(id)?)?;
    Ok(())
}

/// `Editor::remove`: takes the entry at `path` away; a missing entry is no
/// error. Nothing is claimed of the outcome.
#[verifier::external_body]
fn git_remove(editor: &mut gix::object::tree::Editor<'_>, path: &str) -> (res: Result<
    (),
    gix::Error,
>) {
    editor.remove(path)?;
    Ok(())
}

/// `Editor::write`: stores the edited trees and gives the id of the root
/// tree. Nothing is claimed of the outcome.
#[verifier::external_body]
fn git_write_tree(editor: &mut gix::object::tree::Editor<'_>) -> (res: Result<
    Vec<u8>,
    gix::Error,
>) {
    Ok(editor.write()?.as_bytes().to_vec())
}

/// `Repository::commit`: creates a commit of `tree` with `message` and the
/// given parent, and points `reference` at it. Nothing is claimed of the
/// outcome.
#[verifier::external_body]
fn git_commit(
    repo: &gix::Repository,
    reference: &str,
    message: &str,
    tree: &[u8],
    parent: Option<&Vec<u8>>,
) -> (res: Result<Vec<u8>, gix::Error>) {
    let tree = gix::ObjectId::try_from(tree)?;
    let parent = parent.map(|p| gix::ObjectId::try_from(p.as_slice())).transpose()?;
    Ok(repo.commit(reference, message, tree, parent)?.as_bytes().to_vec())
}

/// A store kept in one git repository.
pub struct GitStore {
    r: gix::Repository,
}

/// A project together with the id of its tree in one commit.
#[derive(Debug)]
pub struct VersionedProjectID {
    pub id: Vec<u8>,
    pub proj_id: ProjectID,
}

/// The value of a versioned project: its key and the id of its tree.
pub struct Versioned {
    pub key: (Program, Seq<char>),
    pub id: Seq<u8>,
}

impl View for VersionedProjectID {
    type V = Versioned;

    open spec fn view(&self) -> Versioned {
        Versioned { key: self.proj_id@, id: self.id@ }
    }
}

/// The values of a list of versioned projects, in order.
pub open spec fn versions_view(v: Seq<VersionedProjectID>) -> Seq<Versioned> {
    v.map_values(|x: VersionedProjectID| x@)
}

/// The deepest nesting of trees that is read back from a store.
pub const MAX_DEPTH: usize = 512;

/// Turns the repository's error into the store's, keeping a success as it is.
fn lift<T>(r: Result<T, gix::Error>) -> (res: Result<T, StoreError>)
    ensures
        r is Ok <==> res is Ok,
        r is Ok ==> res->Ok_0 == r->Ok_0,
        res is Err ==> res->Err_0 is Backend,
{
    match r {
        Ok(v) => Ok(v),
        Err(e) => Err(StoreError::Backend(git_error_text(&e))),
    }
}

/// Whether two object ids are the same.
pub fn same_id(a: &Vec<u8>, b: &Vec<u8>) -> (res: bool)
    ensures
        res == (a@ == b@),
{
    if a.len() != b.len() {
        return false;
    }
    let mut i: usize = 0;
    while i < a.len()
        invariant
            a.len() == b.len(),
            i <= a.len(),
            forall|j: int| 0 <= j < i ==> a@[j] == b@[j],
        decreases a.len() - i,
    {
        if a[i] != b[i] {
            return false;
        }
        i += 1;
    }
    assert(a@ =~= b@);
    true
}

/// A root entry that a store may hold: a tree named by a program token.
pub open spec fn is_program_dir(item: ItemView) -> bool {
    item.is_tree && is_program_token(item.name)
}

/// Every root entry is a program directory.
pub open spec fn valid_root(items: Seq<ItemView>) -> bool {
    forall|i: int| 0 <= i < items.len() ==> is_program_dir(#[trigger] items[i])
}

/// Checks the entries of a store's root tree.
///
/// A root may hold program directories only. The first entry that is none
/// makes the store invalid, and the error carries that entry's name.
pub fn validate_tree(items: &Vec<TreeItem>) -> (res: Result<(), StoreError>)
    ensures
        res is Ok <==> valid_root(items_view(items@)),
        res is Err ==> exists|i: int|
            0 <= i < items@.len() && !is_program_dir(#[trigger] items@[i]@) && valid_root(
                items_view(items@.take(i)),
            ) && (res->Err_0 matches StoreError::ForeignEntry(n) && n@ == items@[i].name@),
{
    let mut i: usize = 0;
    while i < items.len()
        invariant
            i <= items.len(),
            valid_root(items_view(items@.take(i as int))),
        decreases items.len() - i,
    {
        let item = &items[i];
        let ok = item.is_tree && program_git(item.name.as_str()).is_ok();
        if !ok {
            assert(!is_program_dir(items@[i as int]@));
            assert(!is_program_dir(items_view(items@)[i as int]));
            return Err(StoreError::ForeignEntry(item.name.clone()));
        }
        proof {
            let a = items_view(items@.take(i as int));
            let b = items_view(items@.take(i + 1));
            assert forall|j: int| 0 <= j < b.len() implies is_program_dir(#[trigger] b[j]) by {
                if j < i {
                    assert(b[j] == a[j]);
                }
            }
        }
        i += 1;
    }
    assert(items@.take(i as int) =~= items@);
    Ok(())
}

/// The entries of one program's directory as versioned projects, one for
/// one and in order.
pub fn project_entries(program: Program, items: &Vec<TreeItem>) -> (res: Vec<VersionedProjectID>)
    ensures
        res@.len() == items@.len(),
        forall|i: int|
            0 <= i < items@.len() ==> (#[trigger] res@[i])@ == (Versioned {
                key: (program, items@[i].name@),
                id: items@[i].id@,
            }),
{
    let mut res: Vec<VersionedProjectID> = Vec::new();
    let mut i: usize = 0;
    while i < items.len()
        invariant
            i <= items.len(),
            res@.len() == i,
            forall|j: int|
                0 <= j < i ==> (#[trigger] res@[j])@ == (Versioned {
                    key: (program, items@[j].name@),
                    id: items@[j].id@,
                }),
        decreases items.len() - i,
    {
        let item = &items[i];
        res.push(
            VersionedProjectID {
                id: item.id.clone(),
                proj_id: ProjectID { program, name: item.name.clone() },
            },
        );
        i += 1;
    }
    res
}

/// The program that a token names.
pub open spec fn token_program(name: Seq<char>) -> Program {
    if name == program_token(Program::Mindstorms) {
        Program::Mindstorms
    } else {
        Program::Spike
    }
}

/// The program directories among the first `n` entries of a root tree: for
/// each tree, in order, the program that it is named after and its id.
/// Entries that are no trees are passed over; nothing where a tree names no
/// program.
pub open spec fn dirs_of(root: Seq<TreeItem>, n: nat) -> Option<Seq<(Program, Seq<u8>)>>
    decreases n,
{
    if n == 0 || n > root.len() {
        Some(Seq::empty())
    } else {
        match dirs_of(root, (n - 1) as nat) {
            None => None,
            Some(prev) => if !root[n - 1].is_tree {
                Some(prev)
            } else if is_program_token(root[n - 1].name@) {
                Some(prev.push((token_program(root[n - 1].name@), root[n - 1].id@)))
            } else {
                None
            },
        }
    }
}

/// `name` is the name of the first tree of the root that names no program.
pub open spec fn is_first_foreign(root: Seq<TreeItem>, name: Seq<char>) -> bool {
    exists|i: int|
        0 <= i < root.len() && dirs_of(root, i as nat) is Some && (#[trigger] root[i]).is_tree
            && !is_program_token(root[i].name@) && root[i].name@ == name
}

/// Some directory of the list belongs to `program`.
pub open spec fn has_dir(dirs: Seq<(Program, Seq<u8>)>, program: Program) -> bool {
    exists|j: int| 0 <= j < dirs.len() && (#[trigger] dirs[j]).0 == program
}

/// The values of a list of program directories.
pub open spec fn dirs_view(dirs: Seq<(Program, Vec<u8>)>) -> Seq<(Program, Seq<u8>)> {
    dirs.map_values(|d: (Program, Vec<u8>)| (d.0, d.1@))
}

/// Where a root has its list of directories, every tree of it names a
/// program.
pub proof fn lemma_dirs_name_programs(root: Seq<TreeItem>, n: nat)
    requires
        n <= root.len(),
        dirs_of(root, n) is Some,
    ensures
        forall|i: int|
            0 <= i < n && (#[trigger] root[i]).is_tree ==> is_program_token(root[i].name@),
    decreases n,
{
    if n > 0 {
        lemma_dirs_name_programs(root, (n - 1) as nat);
    }
}

/// Once a tree names no program, the root has no list of directories.
proof fn lemma_dirs_fail(root: Seq<TreeItem>, i: nat, n: nat)
    requires
        i <= n <= root.len(),
        dirs_of(root, i) is None,
    ensures
        dirs_of(root, n) is None,
    decreases n,
{
    if i < n {
        lemma_dirs_fail(root, i, (n - 1) as nat);
    }
}

/// The program directories of a root tree: the program and the tree id of
/// each tree, in order. The first tree that names no program is the error.
pub fn program_dirs(root: &Vec<TreeItem>) -> (res: Result<Vec<(Program, Vec<u8>)>, StoreError>)
    ensures
        res is Ok <==> dirs_of(root@, root@.len()) is Some,
        res is Ok ==> dirs_view(res->Ok_0@) == dirs_of(root@, root@.len())->Some_0,
        res is Err ==> res->Err_0 is InvalidProgram && is_first_foreign(
            root@,
            res->Err_0->InvalidProgram_0@,
        ),
{
    let mut dirs: Vec<(Program, Vec<u8>)> = Vec::new();
    let mut i: usize = 0;
    assert(dirs_view(dirs@) =~= Seq::empty());
    while i < root.len()
        invariant
            i <= root.len(),
            dirs_of(root@, i as nat) == Some(dirs_view(dirs@)),
        decreases root.len() - i,
    {
        let item = &root[i];
        if item.is_tree {
            match program_git(item.name.as_str()) {
                Ok(program) => {
                    let ghost before = dirs_view(dirs@);
                    proof {
                        crate::project::lemma_program_tokens();
                    }
                    assert(program == token_program(item.name@));
                    dirs.push((program, item.id.clone()));
                    assert(dirs_view(dirs@) =~= before.push((program, item.id@)));
                },
                Err(e) => {
                    proof {
                        assert(dirs_of(root@, (i + 1) as nat) is None);
                        lemma_dirs_fail(root@, (i + 1) as nat, root@.len());
                    }
                    return Err(StoreError::InvalidProgram(e.name));
                },
            }
        }
        i += 1;
    }
    Ok(dirs)
}

/// The entries of one program's directory as versioned projects.
pub open spec fn entries_of(program: Program, items: Seq<TreeItem>) -> Seq<Versioned> {
    items.map_values(|t: TreeItem| Versioned { key: (program, t.name@), id: t.id@ })
}

/// The projects of the first `n` program directories, from the entries of
/// each: every entry is one project of the directory's program, and the
/// directories follow each other in order.
pub open spec fn all_entries(listed: Seq<(Program, Vec<TreeItem>)>, n: nat) -> Seq<Versioned>
    decreases n,
{
    if n == 0 || n > listed.len() {
        Seq::empty()
    } else {
        all_entries(listed, (n - 1) as nat) + entries_of(listed[n - 1].0, listed[n - 1].1@)
    }
}

/// Each of the projects belongs to the program of one of the directories.
proof fn lemma_entry_program(listed: Seq<(Program, Vec<TreeItem>)>, n: nat, k: int)
    requires
        n <= listed.len(),
        0 <= k < all_entries(listed, n).len(),
    ensures
        exists|at: int|
            0 <= at < n && all_entries(listed, n)[k].key.0 == (#[trigger] listed[at]).0,
    decreases n,
{
    if n > 0 {
        let before = all_entries(listed, (n - 1) as nat);
        if k < before.len() {
            lemma_entry_program(listed, (n - 1) as nat, k);
            let at = choose|at: int|
                0 <= at < n - 1 && before[k].key.0 == (#[trigger] listed[at]).0;
            assert(listed[at].0 == all_entries(listed, n)[k].key.0);
        } else {
            assert(all_entries(listed, n)[k].key.0 == listed[n - 1].0);
        }
    }
}

/// The projects of the program directories, from the entries of each.
pub fn projects_of(listed: &Vec<(Program, Vec<TreeItem>)>) -> (res: Vec<VersionedProjectID>)
    ensures
        versions_view(res@) == all_entries(listed@, listed@.len()),
{
    let mut res: Vec<VersionedProjectID> = Vec::new();
    let mut i: usize = 0;
    assert(versions_view(res@) =~= Seq::empty());
    while i < listed.len()
        invariant
            i <= listed.len(),
            versions_view(res@) == all_entries(listed@, i as nat),
        decreases listed.len() - i,
    {
        let ghost before = versions_view(res@);
        let mut found = project_entries(listed[i].0, &listed[i].1);
        assert(versions_view(found@) =~= entries_of(listed@[i as int].0, listed@[i as int].1@));
        res.append(&mut found);
        assert(versions_view(res@) =~= before + entries_of(
            listed@[i as int].0,
            listed@[i as int].1@,
        ));
        i += 1;
    }
    res
}

/// Some entry of `s` has this key and this id.
pub open spec fn has_version(s: Seq<Versioned>, v: Versioned) -> bool {
    exists|j: int| 0 <= j < s.len() && #[trigger] s[j] == v
}

/// Some entry of `s` has this key.
pub open spec fn has_key(s: Seq<Versioned>, key: (Program, Seq<char>)) -> bool {
    exists|j: int| 0 <= j < s.len() && (#[trigger] s[j]).key == key
}

/// The keys among the first `n` entries of `old` that `new` does not hold
/// with the same id, in order.
pub open spec fn changed_or_removed(old: Seq<Versioned>, new: Seq<Versioned>, n: nat) -> Seq<
    (Program, Seq<char>),
>
    decreases n,
{
    if n == 0 || n > old.len() {
        Seq::empty()
    } else {
        let rest = changed_or_removed(old, new, (n - 1) as nat);
        if has_version(new, old[n - 1]) {
            rest
        } else {
            rest.push(old[n - 1].key)
        }
    }
}

/// The keys among the first `n` entries of `new` that `old` does not hold
/// at all, in order.
pub open spec fn added(old: Seq<Versioned>, new: Seq<Versioned>, n: nat) -> Seq<
    (Program, Seq<char>),
>
    decreases n,
{
    if n == 0 || n > new.len() {
        Seq::empty()
    } else {
        let rest = added(old, new, (n - 1) as nat);
        if has_key(old, new[n - 1].key) {
            rest
        } else {
            rest.push(new[n - 1].key)
        }
    }
}

/// The projects that differ between a commit and its parent: first those of
/// the parent that changed or are gone, then those that are new.
pub open spec fn changes(new: Seq<Versioned>, old: Seq<Versioned>) -> Seq<(Program, Seq<char>)> {
    changed_or_removed(old, new, old.len()) + added(old, new, new.len())
}

/// The projects that a commit changed, from the number of its parents, the
/// projects that it holds and those that its parent holds: none for a
/// merge, the difference to the parent where there is one parent, and
/// every project of the commit where there is none.
pub open spec fn commit_changes(parents: nat, new: Seq<Versioned>, old: Seq<Versioned>) -> Seq<
    (Program, Seq<char>),
> {
    if parents >= 2 {
        Seq::empty()
    } else if parents == 1 {
        changes(new, old)
    } else {
        new.map_values(|v: Versioned| v.key)
    }
}

/// The keys of a list of projects, in order.
pub open spec fn keys_view(v: Seq<ProjectID>) -> Seq<(Program, Seq<char>)> {
    v.map_values(|x: ProjectID| x@)
}

/// No two entries of `s` have the same key.
pub open spec fn unique_keys(s: Seq<Versioned>) -> bool {
    forall|i: int, j: int|
        0 <= i < s.len() && 0 <= j < s.len() && i != j ==> (#[trigger] s[i]).key != (
        #[trigger] s[j]).key
}

/// The tree id that `s` holds for a key, if it holds the key.
pub open spec fn version_of(s: Seq<Versioned>, key: (Program, Seq<char>)) -> Option<Seq<u8>> {
    if has_key(s, key) {
        Some(s[choose|j: int| 0 <= j < s.len() && (#[trigger] s[j]).key == key].id)
    } else {
        None
    }
}

proof fn lemma_changed_or_removed(old: Seq<Versioned>, new: Seq<Versioned>, n: nat, key: (
    Program,
    Seq<char>,
))
    requires
        n <= old.len(),
    ensures
        changed_or_removed(old, new, n).contains(key) <==> exists|i: int|
            0 <= i < n && (#[trigger] old[i]).key == key && !has_version(new, old[i]),
    decreases n,
{
    if n > 0 {
        let rest = changed_or_removed(old, new, (n - 1) as nat);
        lemma_changed_or_removed(old, new, (n - 1) as nat, key);
        let last = old[n - 1];
        if has_version(new, last) {
            if exists|i: int| 0 <= i < n && (#[trigger] old[i]).key == key && !has_version(new, old[i]) {
                let i = choose|i: int|
                    0 <= i < n && (#[trigger] old[i]).key == key && !has_version(new, old[i]);
                assert(i < n - 1);
            }
        } else {
            let all = rest.push(last.key);
            if all.contains(key) {
                let k = choose|k: int| 0 <= k < all.len() && all[k] == key;
                if k < rest.len() {
                    assert(rest[k] == key);
                    assert(rest.contains(key));
                } else {
                    assert(old[n - 1].key == key);
                }
            }
            if exists|i: int| 0 <= i < n && (#[trigger] old[i]).key == key && !has_version(new, old[i]) {
                let i = choose|i: int|
                    0 <= i < n && (#[trigger] old[i]).key == key && !has_version(new, old[i]);
                if i < n - 1 {
                    assert(rest.contains(key));
                    let k = choose|k: int| 0 <= k < rest.len() && rest[k] == key;
                    assert(all[k] == key);
                } else {
                    assert(all[rest.len() as int] == key);
                }
            }
        }
    } else {
        assert(!changed_or_removed(old, new, n).contains(key));
    }
}

proof fn lemma_added(old: Seq<Versioned>, new: Seq<Versioned>, n: nat, key: (Program, Seq<char>))
    requires
        n <= new.len(),
    ensures
        added(old, new, n).contains(key) <==> !has_key(old, key) && exists|i: int|
            0 <= i < n && (#[trigger] new[i]).key == key,
    decreases n,
{
    if n > 0 {
        let rest = added(old, new, (n - 1) as nat);
        lemma_added(old, new, (n - 1) as nat, key);
        let last = new[n - 1];
        if has_key(old, last.key) {
            if !has_key(old, key) && exists|i: int| 0 <= i < n && (#[trigger] new[i]).key == key {
                let i = choose|i: int| 0 <= i < n && (#[trigger] new[i]).key == key;
                assert(i < n - 1);
            }
        } else {
            let all = rest.push(last.key);
            if all.contains(key) {
                let k = choose|k: int| 0 <= k < all.len() && all[k] == key;
                if k < rest.len() {
                    assert(rest[k] == key);
                    assert(rest.contains(key));
                } else {
                    assert(new[n - 1].key == key);
                }
            }
            if !has_key(old, key) && exists|i: int| 0 <= i < n && (#[trigger] new[i]).key == key {
                let i = choose|i: int| 0 <= i < n && (#[trigger] new[i]).key == key;
                if i < n - 1 {
                    assert(rest.contains(key));
                    let k = choose|k: int| 0 <= k < rest.len() && rest[k] == key;
                    assert(all[k] == key);
                } else {
                    assert(all[rest.len() as int] == key);
                }
            }
        }
    } else {
        assert(!added(old, new, n).contains(key));
    }
}

/// A project is among the changes of a commit exactly when the parent holds
/// it and the commit does not hold it with the same tree id, or the commit
/// holds it and the parent does not.
pub proof fn lemma_changes_membership(new: Seq<Versioned>, old: Seq<Versioned>, key: (
    Program,
    Seq<char>,
))
    ensures
        changes(new, old).contains(key) <==> (exists|i: int|
            0 <= i < old.len() && (#[trigger] old[i]).key == key && !has_version(new, old[i])) || (
        has_key(new, key) && !has_key(old, key)),
{
    let a = changed_or_removed(old, new, old.len());
    let b = added(old, new, new.len());
    lemma_changed_or_removed(old, new, old.len(), key);
    lemma_added(old, new, new.len(), key);
    if (a + b).contains(key) {
        let k = choose|k: int| 0 <= k < (a + b).len() && (a + b)[k] == key;
        if k < a.len() {
            assert(a[k] == key);
            assert(a.contains(key));
        } else {
            assert(b[k - a.len()] == key);
            assert(b.contains(key));
        }
    }
    if a.contains(key) {
        let k = choose|k: int| 0 <= k < a.len() && a[k] == key;
        assert((a + b)[k] == key);
    }
    if b.contains(key) {
        let k = choose|k: int| 0 <= k < b.len() && b[k] == key;
        assert((a + b)[a.len() + k] == key);
    }
}

/// Where no project occurs twice in a commit, a project is among the
/// changes exactly when the commit and its parent differ on it: it is in
/// one of them only, or its tree id is not the same in both.
pub proof fn lemma_changes_differ(new: Seq<Versioned>, old: Seq<Versioned>, key: (
    Program,
    Seq<char>,
))
    requires
        unique_keys(new),
        unique_keys(old),
    ensures
        changes(new, old).contains(key) <==> version_of(new, key) != version_of(old, key),
{
    lemma_changes_membership(new, old, key);
    if has_key(old, key) {
        let i = choose|i: int| 0 <= i < old.len() && (#[trigger] old[i]).key == key;
        if has_key(new, key) {
            let j = choose|j: int| 0 <= j < new.len() && (#[trigger] new[j]).key == key;
            if has_version(new, old[i]) {
                let j2 = choose|j2: int| 0 <= j2 < new.len() && #[trigger] new[j2] == old[i];
                assert(new[j2].key == key);
                assert(j2 == j);
                assert forall|i2: int|
                    0 <= i2 < old.len() && (#[trigger] old[i2]).key == key implies has_version(
                    new,
                    old[i2],
                ) by {
                    assert(i2 == i);
                }
            } else {
                if new[j].id == old[i].id {
                    assert(new[j] == old[i]);
                }
            }
        } else {
            if has_version(new, old[i]) {
                let j2 = choose|j2: int| 0 <= j2 < new.len() && #[trigger] new[j2] == old[i];
                assert(new[j2].key == key);
            }
        }
    }
}

/// A commit that holds what its parent holds changes nothing.
pub proof fn lemma_no_changes(s: Seq<Versioned>)
    ensures
        changes(s, s) == Seq::<(Program, Seq<char>)>::empty(),
{
    assert forall|key: (Program, Seq<char>)| !changes(s, s).contains(key) by {
        lemma_changes_membership(s, s, key);
        if exists|i: int| 0 <= i < s.len() && (#[trigger] s[i]).key == key && !has_version(s, s[i]) {
            let i = choose|i: int|
                0 <= i < s.len() && (#[trigger] s[i]).key == key && !has_version(s, s[i]);
            assert(s[i] == s[i]);
        }
    }
    if changes(s, s).len() > 0 {
        assert(changes(s, s).contains(changes(s, s)[0]));
    }
    assert(changes(s, s) =~= Seq::empty());
}

/// Against a parent that holds nothing, every project of the commit is a
/// change.
pub proof fn lemma_all_added(new: Seq<Versioned>, key: (Program, Seq<char>))
    ensures
        changes(new, Seq::empty()).contains(key) <==> has_key(new, key),
{
    lemma_changes_membership(new, Seq::empty(), key);
}

fn holds_version(s: &Vec<VersionedProjectID>, v: &VersionedProjectID) -> (res: bool)
    ensures
        res == has_version(versions_view(s@), v@),
{
    let mut j: usize = 0;
    while j < s.len()
        invariant
            j <= s.len(),
            forall|k: int| 0 <= k < j ==> versions_view(s@)[k] != v@,
        decreases s.len() - j,
    {
        if s[j].proj_id.same(&v.proj_id) && same_id(&s[j].id, &v.id) {
            assert(versions_view(s@)[j as int] == v@);
            return true;
        }
        j += 1;
    }
    false
}

fn holds_key(s: &Vec<VersionedProjectID>, key: &ProjectID) -> (res: bool)
    ensures
        res == has_key(versions_view(s@), key@),
{
    let mut j: usize = 0;
    while j < s.len()
        invariant
            j <= s.len(),
            forall|k: int| 0 <= k < j ==> versions_view(s@)[k].key != key@,
        decreases s.len() - j,
    {
        if s[j].proj_id.same(key) {
            assert(versions_view(s@)[j as int].key == key@);
            return true;
        }
        j += 1;
    }
    false
}

/// Compares the projects of a commit with those of its parent.
///
/// A project of the parent is reported when the commit does not hold it
/// with the same tree id (it changed or was removed); a project of the
/// commit is reported when the parent does not hold it (it was added).
pub fn changed_projects(new: &Vec<VersionedProjectID>, old: &Vec<VersionedProjectID>) -> (res: Vec<
    ProjectID,
>)
    ensures
        keys_view(res@) == changes(versions_view(new@), versions_view(old@)),
{
    let ghost n = versions_view(new@);
    let ghost o = versions_view(old@);
    let mut res: Vec<ProjectID> = Vec::new();
    let mut i: usize = 0;
    while i < old.len()
        invariant
            i <= old.len(),
            n == versions_view(new@),
            o == versions_view(old@),
            keys_view(res@) == changed_or_removed(o, n, i as nat),
        decreases old.len() - i,
    {
        let known = holds_version(new, &old[i]);
        if !known {
            res.push(old[i].proj_id.clone());
            assert(keys_view(res@) =~= changed_or_removed(o, n, i as nat).push(o[i as int].key));
        }
        i += 1;
    }
    let ghost first = keys_view(res@);
    let mut k: usize = 0;
    while k < new.len()
        invariant
            k <= new.len(),
            n == versions_view(new@),
            o == versions_view(old@),
            keys_view(res@) == first + added(o, n, k as nat),
        decreases new.len() - k,
    {
        let known = holds_key(old, &new[k].proj_id);
        if !known {
            let ghost before = keys_view(res@);
            res.push(new[k].proj_id.clone());
            assert(keys_view(res@) =~= before.push(n[k as int].key));
            assert(before.push(n[k as int].key) =~= first + added(o, n, k as nat).push(
                n[k as int].key,
            ));
        }
        k += 1;
    }
    res
}

/// What a commit itself says: when it was authored, its shortened id and
/// the first line of its message (or why that line cannot be had).
#[derive(Debug)]
pub struct CommitSummary {
    pub seconds: i64,
    pub short_hash: String,
    pub title: Result<Vec<u8>, String>,
}

/// `Repository::find_commit`, read through `Commit::author`,
/// `SignatureRef::time`, `Id::shorten_or_id` and `Commit::message`. Nothing
/// is claimed of the outcome.
#[verifier::external_body]
fn git_commit_summary(repo: &gix::Repository, id: &[u8]) -> (res: Result<
    CommitSummary,
    gix::Error,
>) {
    let commit = repo.find_commit(gix::ObjectId::try_from(id)?)?;
    Ok(CommitSummary {
        seconds: commit.author()?.time()?.seconds,
        short_hash: commit.id().shorten_or_id().to_string(),
        title: commit.message().map(|m| m.title.to_vec()).map_err(|e| e.to_string()),
    })
}

/// `Clone` of `gix::Repository` and `Repository::object_cache_size`: a
/// second handle on the same repository, with an object cache of `bytes`
/// bytes.
#[verifier::external_body]
fn git_with_cache(repo: &gix::Repository, bytes: usize) -> (res: gix::Repository) {
    let mut r = repo.clone();
    r.object_cache_size(Some(bytes));
    r
}

/// `Repository::rev_walk`, sorted by commit time, newest first: a walk over
/// the ancestry of `tip`. Nothing is claimed of the outcome.
#[verifier::external_body]
fn git_walk<'a>(repo: &'a gix::Repository, tip: &[u8]) -> (res: Result<
    gix::revision::Walk<'a>,
    gix::Error,
>) {
    let tip = gix::ObjectId::try_from(tip)?;
    repo.rev_walk(Some(tip)).sorting(
        gix::revision::walk::Sorting::ByCommitTime(Default::default()),
    ).all()
}

/// `Iterator::next` of `gix::revision::Walk`: the id of the next commit of
/// the walk, if there is one. Nothing is claimed of the outcome.
#[verifier::external_body]
fn git_walk_next(walk: &mut gix::revision::Walk<'_>) -> (res: Option<Result<Vec<u8>, gix::Error>>) {
    walk.next().map(|r| r.map(|info| info.id.as_bytes().to_vec()))
}

/// `String::from_utf8`: the text that `bytes` encode, if they are valid
/// UTF-8; else the text of the decoding error.
#[verifier::external_body]
fn utf8_text(bytes: Vec<u8>) -> (res: Result<String, String>)
    ensures
        res is Ok <==> vstd::utf8::valid_utf8(bytes@),
        res is Ok ==> res->Ok_0@ == vstd::utf8::decode_utf8(bytes@),
{
    String::from_utf8(bytes).map_err(|e| e.utf8_error().to_string())
}

/// The first line of a commit's message as text. Where it cannot be had,
/// the text says why.
pub fn title_text(title: Result<Vec<u8>, String>) -> (s: String)
    ensures
        title is Ok && vstd::utf8::valid_utf8(title->Ok_0@) ==> s@ == vstd::utf8::decode_utf8(
            title->Ok_0@,
        ),
        title is Ok && !vstd::utf8::valid_utf8(title->Ok_0@) ==> s@.subrange(
            0,
            "error parsing commit message: "@.len() as int,
        ) == "error parsing commit message: "@,
        title is Err ==> s@ == "error getting commit message: "@ + title->Err_0@,
{
    match title {
        Ok(bytes) => match utf8_text(bytes) {
            Ok(s) => s,
            Err(e) => {
                let s = String::from_str("error parsing commit message: ").concat(e.as_str());
                assert(s@.subrange(0, "error parsing commit message: "@.len() as int)
                    =~= "error parsing commit message: "@);
                s
            },
        },
        Err(e) => String::from_str("error getting commit message: ").concat(e.as_str()),
    }
}

/// How a write changes a store's tree.
#[derive(Clone, Copy, Debug, PartialEq, Eq, Structural)]
pub enum Edit {
    /// Projects are put into the tree.
    Upsert,
    /// A project is taken out of the tree.
    Remove,
}

/// The report of a write: whether the root tree came out different decides
/// between the two texts of each kind of edit.
pub open spec fn outcome_text(edit: Edit, changed: bool) -> Seq<char> {
    match (edit, changed) {
        (Edit::Upsert, true) => "added"@,
        (Edit::Upsert, false) => "already up to date"@,
        (Edit::Remove, true) => "removed"@,
        (Edit::Remove, false) => "not tracked"@,
    }
}

/// The report of a write.
pub fn outcome(edit: Edit, changed: bool) -> (s: &'static str)
    ensures
        s@ == outcome_text(edit, changed),
{
    match edit {
        Edit::Upsert => if changed {
            "added"
        } else {
            "already up to date"
        },
        Edit::Remove => if changed {
            "removed"
        } else {
            "not tracked"
        },
    }
}

/// A blob to be stored: its path below the project's tree and its bytes.
#[derive(Debug)]
pub struct BlobPath<'a> {
    pub path: String,
    pub data: &'a Vec<u8>,
}

impl<'a> View for BlobPath<'a> {
    type V = (Seq<char>, Seq<u8>);

    open spec fn view(&self) -> (Seq<char>, Seq<u8>) {
        (self.path@, self.data@)
    }
}

/// The values of a list of blobs, in order.
pub open spec fn blobs_view(v: Seq<BlobPath<'_>>) -> Seq<(Seq<char>, Seq<u8>)> {
    v.map_values(|b: BlobPath<'_>| b@)
}

/// The blobs of the first `n` entries of an archive, each with its path
/// below `prefix`: a member that holds bytes is one blob at `prefix` and its
/// name; a nested archive gives the blobs of its members below `prefix`,
/// its name and a `/`.
pub open spec fn blobs_of_first(arch: RawArchive, n: nat, prefix: Seq<char>) -> Seq<
    (Seq<char>, Seq<u8>),
>
    decreases arch, n,
{
    if n == 0 || n > arch.entries.len() {
        Seq::empty()
    } else {
        blobs_of_first(arch, (n - 1) as nat, prefix) + blobs_of_entry(
            arch.entries[n - 1],
            prefix,
        )
    }
}

/// The blobs of one entry of an archive.
pub open spec fn blobs_of_entry(e: ArchiveEntry, prefix: Seq<char>) -> Seq<(Seq<char>, Seq<u8>)>
    decreases e,
{
    match e.contents {
        ArchiveEntryContents::Data(d) => seq![(prefix + e.name@, d@)],
        ArchiveEntryContents::Archive(a) => blobs_of_first(
            a,
            a.entries.len() as nat,
            prefix + e.name@ + "/"@,
        ),
    }
}

/// The blobs of a whole archive below `prefix`.
pub open spec fn blobs_of(arch: RawArchive, prefix: Seq<char>) -> Seq<(Seq<char>, Seq<u8>)> {
    blobs_of_first(arch, arch.entries.len() as nat, prefix)
}

/// Appends the blobs of an archive to `out`.
pub fn append_archive<'a>(out: &mut Vec<BlobPath<'a>>, arch: &'a RawArchive, prefix: &str)
    ensures
        blobs_view(final(out)@) == blobs_view(old(out)@) + blobs_of(*arch, prefix@),
    decreases arch,
{
    let ghost start = blobs_view(out@);
    let mut i: usize = 0;
    while i < arch.entries.len()
        invariant
            i <= arch.entries.len(),
            blobs_view(out@) == start + blobs_of_first(*arch, i as nat, prefix@),
        decreases arch.entries.len() - i,
    {
        append_archive_entry(out, &arch.entries[i], prefix);
        assert(blobs_view(out@) =~= start + blobs_of_first(*arch, (i + 1) as nat, prefix@));
        i += 1;
    }
}

/// Appends the blobs of one entry of an archive to `out`.
pub fn append_archive_entry<'a>(out: &mut Vec<BlobPath<'a>>, e: &'a ArchiveEntry, prefix: &str)
    ensures
        blobs_view(final(out)@) == blobs_view(old(out)@) + blobs_of_entry(*e, prefix@),
    decreases e,
{
    let path = String::from_str(prefix).concat(e.name.as_str());
    match &e.contents {
        ArchiveEntryContents::Data(data) => {
            let ghost before = blobs_view(out@);
            out.push(BlobPath { path, data });
            assert(blobs_view(out@) =~= before + seq![(prefix@ + e.name@, data@)]);
        },
        ArchiveEntryContents::Archive(arch) => {
            let subdir = path.concat("/");
            append_archive(out, arch, subdir.as_str());
        },
    }
}

/// What the head commit alone decides of the history since `since`: a head
/// that is older is the whole answer; else the commits have to be walked.
pub fn window_start(head: CommitInfo, since: i64) -> (res: Option<LogResult>)
    ensures
        head.date < since ==> res == Some(LogResult::Older(head)),
        head.date >= since ==> res is None,
{
    if head.date < since {
        Some(LogResult::Older(head))
    } else {
        None
    }
}

/// The first line of a commit's message as text, for a title that could be
/// had and is valid UTF-8; else the text that says what went wrong begins
/// with the words for it.
pub open spec fn is_title_text(title: Result<Vec<u8>, String>, s: Seq<char>) -> bool {
    &&& title is Ok && vstd::utf8::valid_utf8(title->Ok_0@) ==> s == vstd::utf8::decode_utf8(
        title->Ok_0@,
    )
    &&& title is Ok && !vstd::utf8::valid_utf8(title->Ok_0@) ==> s.subrange(
        0,
        "error parsing commit message: "@.len() as int,
    ) == "error parsing commit message: "@
    &&& title is Err ==> s == "error getting commit message: "@ + title->Err_0@
}

/// What is known of a commit, from what the commit itself says and the
/// projects that it changed: the shortened id and the time are the
/// summary's, the message is the summary's title as text.
pub fn commit_info_of(summary: CommitSummary, changed_projects: Vec<ProjectID>) -> (res: CommitInfo)
    ensures
        res.hash == summary.short_hash,
        res.date == summary.seconds,
        is_title_text(summary.title, res.message@),
        res.changed_projects == changed_projects,
{
    let message = title_text(summary.title);
    CommitInfo { hash: summary.short_hash, date: summary.seconds, message, changed_projects }
}

/// One step of reading the history: a commit that is not older than
/// `since` joins the commits read so far and the walk goes on; an older one
/// ends the walk and is left out.
pub fn log_step(acc: &mut Vec<CommitInfo>, info: CommitInfo, since: i64) -> (go_on: bool)
    ensures
        go_on == (info.date >= since),
        go_on ==> final(acc)@ == old(acc)@.push(info),
        !go_on ==> final(acc)@ == old(acc)@,
{
    if info.date < since {
        false
    } else {
        acc.push(info);
        true
    }
}

/// The shape of a tree read back from a store: an archive has one member
/// for each tree entry, under the entry's name, nested where the entry is a
/// tree and bytes where it is a blob.
pub open spec fn mirrors(arch: RawArchive, items: Seq<TreeItem>) -> bool {
    &&& arch.entries@.len() == items.len()
    &&& forall|i: int|
        0 <= i < items.len() ==> {
            &&& (#[trigger] arch.entries@[i]).name@ == items[i].name@
            &&& arch.entries@[i].contents is Archive == items[i].is_tree
        }
}

/// An archive nests archives at most `depth` levels deep.
pub open spec fn within_depth(arch: RawArchive, depth: nat) -> bool
    decreases arch,
{
    forall|i: int|
        0 <= i < arch.entries.len() ==> match (#[trigger] arch.entries[i]).contents {
            ArchiveEntryContents::Data(_) => true,
            ArchiveEntryContents::Archive(a) => depth > 0 && within_depth(a, (depth - 1) as nat),
        }
}

/// A member nests archives at most `depth - 1` levels below itself.
pub open spec fn entry_within(e: ArchiveEntry, depth: nat) -> bool {
    match e.contents {
        ArchiveEntryContents::Data(_) => true,
        ArchiveEntryContents::Archive(a) => depth > 0 && within_depth(a, (depth - 1) as nat),
    }
}

/// A failure while a store is opened: the repository's own, or a foreign
/// entry at its root.
pub open spec fn open_failure(e: StoreError) -> bool {
    e is Backend || e is ForeignEntry
}

/// A failure while projects are listed or compared: the repository's own,
/// or a directory that names no program.
pub open spec fn list_failure(e: StoreError) -> bool {
    e is Backend || e is InvalidProgram
}

/// A failure while a project is read back: the repository's own, or a tree
/// nested too deeply.
pub open spec fn read_failure(e: StoreError) -> bool {
    e is Backend || e is TooDeep
}

/// A failure while a store is written: the repository's own, or a HEAD
/// that names no branch.
pub open spec fn write_failure(e: StoreError) -> bool {
    e is Backend || e is InvalidHeadRef
}

/// Opens the repository that holds `path` as a store. It fails where no
/// repository can be opened and where the repository is no valid store.
pub fn open(path: &str) -> (res: Result<GitStore, StoreError>)
    ensures
        res is Err ==> open_failure(res->Err_0),
{
    let r = lift(git_discover(path))?;
    GitStore::new(r)
}

/// Creates a bare repository at `path` and opens it as a store.
pub fn create(path: &str) -> (res: Result<GitStore, StoreError>)
    ensures
        res is Err ==> open_failure(res->Err_0),
{
    let r = lift(git_init_bare(path))?;
    GitStore::new(r)
}

/// Checks that the repository can serve as a store: it has no commit yet,
/// or the root tree of its head commit holds program directories only.
fn validate(r: &gix::Repository) -> (res: Result<(), StoreError>)
    ensures
        res is Err ==> open_failure(res->Err_0),
{
    let head = lift(git_head(r))?;
    validate_at(r, &head)
}

/// Checks that the repository can serve as a store, given where HEAD
/// stands: a repository without a commit is valid as it is; else the root
/// tree of the head commit must hold program directories only.
pub fn validate_at(r: &gix::Repository, head: &HeadState) -> (res: Result<(), StoreError>)
    ensures
        head.unborn ==> res is Ok,
        res is Err ==> open_failure(res->Err_0),
{
    if head.unborn {
        return Ok(());
    }
    let commit = lift(git_head_commit(r))?;
    let tree = lift(git_commit_tree(r, commit.as_slice()))?;
    let items = lift(git_tree_items(r, tree.as_slice()))?;
    validate_tree(&items)
}

impl GitStore {
    /// A store on a repository that passes validation.
    fn new(r: gix::Repository) -> (res: Result<Self, StoreError>)
        ensures
            res is Err ==> open_failure(res->Err_0),
    {
        validate(&r)?;
        Ok(GitStore { r })
    }

    /// A second handle on the same repository that caches the objects it
    /// reads.
    fn clone_with_cache(&self) -> (res: Self) {
        GitStore { r: git_with_cache(&self.r, 1024 * 1024) }
    }

    /// The path of a project inside the store.
    pub fn path_for(id: &ProjectID) -> (s: String)
        ensures
            s@ == crate::project::project_path(id@),
    {
        id.store_path()
    }

    /// The projects of the head commit; none while the store has no commit.
    pub fn project_ids(&self) -> (res: Result<Vec<ProjectID>, StoreError>)
        ensures
            res is Err ==> list_failure(res->Err_0),
    {
        let head = lift(git_head(&self.r))?;
        self.project_ids_at(&head)
    }

    /// The projects of the head commit, given where HEAD stands: none
    /// while the store has no commit.
    pub fn project_ids_at(&self, head: &HeadState) -> (res: Result<Vec<ProjectID>, StoreError>)
        ensures
            head.unborn ==> res is Ok && res->Ok_0@.len() == 0,
            res is Err ==> list_failure(res->Err_0),
    {
        if head.unborn {
            return Ok(Vec::new());
        }
        let commit = lift(git_head_commit(&self.r))?;
        self.project_ids_from_commit(&commit)
    }

    fn project_ids_from_commit(&self, commit: &Vec<u8>) -> (res: Result<
        Vec<ProjectID>,
        StoreError,
    >)
        ensures
            res is Err ==> list_failure(res->Err_0),
    {
        let versioned = self.versioned_project_ids_from_commit(commit)?;
        Ok(project_keys(versioned))
    }

    fn versioned_project_ids_from_commit(&self, commit: &Vec<u8>) -> (res: Result<
        Vec<VersionedProjectID>,
        StoreError,
    >)
        ensures
            res is Err ==> list_failure(res->Err_0),
    {
        let tree = lift(git_commit_tree(&self.r, commit.as_slice()))?;
        let root = lift(git_tree_items(&self.r, tree.as_slice()))?;
        self.versioned_project_ids_in(&root)
    }

    /// The projects below the entries of a root tree, two levels deep and
    /// no deeper: each entry of each tree of the root is one project of the
    /// program that the tree is named after. Entries of the root that are
    /// no trees are passed over; a tree that names no program is an error,
    /// found before any directory is read.
    pub fn versioned_project_ids_in(&self, root: &Vec<TreeItem>) -> (res: Result<
        Vec<VersionedProjectID>,
        StoreError,
    >)
        ensures
            dirs_of(root@, root@.len()) is None <==> res is Err && res->Err_0 is InvalidProgram,
            res is Err && res->Err_0 is InvalidProgram ==> is_first_foreign(
                root@,
                res->Err_0->InvalidProgram_0@,
            ),
            dirs_of(root@, root@.len()) == Some(Seq::<(Program, Seq<u8>)>::empty()) ==> res is Ok
                && res->Ok_0@.len() == 0,
            res is Ok ==> dirs_of(root@, root@.len()) is Some && forall|k: int|
                0 <= k < res->Ok_0@.len() ==> has_dir(
                    dirs_of(root@, root@.len())->Some_0,
                    (#[trigger] res->Ok_0@[k]).proj_id.program,
                ),
            res is Err ==> list_failure(res->Err_0),
    {
        let dirs = program_dirs(root)?;
        let ghost wanted = dirs_of(root@, root@.len())->Some_0;
        let mut listed: Vec<(Program, Vec<TreeItem>)> = Vec::new();
        let mut j: usize = 0;
        while j < dirs.len()
            invariant
                j <= dirs.len(),
                listed@.len() == j,
                dirs_view(dirs@) == wanted,
                dirs_of(root@, root@.len()) == Some(wanted),
                forall|k: int| 0 <= k < j ==> (#[trigger] listed@[k]).0 == dirs@[k].0,
            decreases dirs.len() - j,
        {
            assert(wanted.len() == dirs@.len());
            let entries = lift(git_tree_items(&self.r, dirs[j].1.as_slice()))?;
            listed.push((dirs[j].0, entries));
            j += 1;
        }
        let res = projects_of(&listed);
        assert(versions_view(res@).len() == res@.len());
        assert(wanted.len() == dirs@.len());
        assert forall|k: int| 0 <= k < res@.len() implies has_dir(
            wanted,
            (#[trigger] res@[k]).proj_id.program,
        ) by {
            lemma_entry_program(listed@, listed@.len(), k);
            let at = choose|at: int|
                0 <= at < listed@.len() && all_entries(listed@, listed@.len())[k].key.0
                    == (#[trigger] listed@[at]).0;
            assert(versions_view(res@)[k] == res@[k]@);
            assert(wanted[at] == (dirs@[at].0, dirs@[at].1@));
        }
        Ok(res)
    }

    /// The project as the head commit holds it; none where the store has no
    /// head commit or the commit does not hold the project.
    pub fn read_project(&self, id: &ProjectID) -> (res: Result<Option<RawProject>, StoreError>)
        ensures
            res is Ok && res->Ok_0 is Some ==> within_depth(
                res->Ok_0->Some_0.archive,
                MAX_DEPTH as nat,
            ),
            res is Err ==> read_failure(res->Err_0),
    {
        match git_head(&self.r) {
            Err(_) => Ok(None),
            Ok(head) => self.read_project_at(&head, id),
        }
    }

    /// The project as the head commit holds it, given where HEAD stands: a
    /// store without a commit holds no project, which is no error.
    pub fn read_project_at(&self, head: &HeadState, id: &ProjectID) -> (res: Result<
        Option<RawProject>,
        StoreError,
    >)
        ensures
            head.unborn ==> res is Ok && res->Ok_0 is None,
            res is Ok && res->Ok_0 is Some ==> within_depth(
                res->Ok_0->Some_0.archive,
                MAX_DEPTH as nat,
            ),
            res is Err ==> read_failure(res->Err_0),
    {
        if head.unborn {
            return Ok(None);
        }
        match git_head_commit(&self.r) {
            Err(_) => Ok(None),
            Ok(commit) => {
                let tree = lift(git_commit_tree(&self.r, commit.as_slice()))?;
                let path = Self::path_for(id);
                let found = lift(git_lookup(&self.r, tree.as_slice(), path.as_str()))?;
                self.read_found(found)
            },
        }
    }

    /// The project at the entry that was found at its path: none where
    /// nothing was found, else the archive rebuilt from the entry's tree.
    pub fn read_found(&self, found: Option<TreeItem>) -> (res: Result<
        Option<RawProject>,
        StoreError,
    >)
        ensures
            found is None ==> res is Ok && res->Ok_0 is None,
            found is Some && res is Ok ==> res->Ok_0 is Some && within_depth(
                res->Ok_0->Some_0.archive,
                MAX_DEPTH as nat,
            ),
            res is Err ==> read_failure(res->Err_0),
    {
        match found {
            None => Ok(None),
            Some(e) => {
                let items = lift(git_tree_items(&self.r, e.id.as_slice()))?;
                let archive = self.tree_to_archive(&items, MAX_DEPTH)?;
                Ok(Some(RawProject { archive }))
            },
        }
    }

    /// Rebuilds an archive from the entries of a tree, reading at most
    /// `depth` levels of nested trees below it.
    pub fn tree_to_archive(&self, items: &Vec<TreeItem>, depth: usize) -> (res: Result<
        RawArchive,
        StoreError,
    >)
        ensures
            res is Ok ==> mirrors(res->Ok_0, items@),
            res is Ok ==> within_depth(res->Ok_0, depth as nat),
            items@.len() == 0 ==> res is Ok,
            res is Err && res->Err_0 is TooDeep ==> exists|i: int|
                0 <= i < items@.len() && (#[trigger] items@[i]).is_tree,
            res is Err ==> read_failure(res->Err_0),
        decreases depth, 1int,
    {
        let mut entries: Vec<ArchiveEntry> = Vec::new();
        let mut i: usize = 0;
        while i < items.len()
            invariant
                i <= items.len(),
                entries@.len() == i,
                forall|j: int|
                    0 <= j < i ==> {
                        &&& (#[trigger] entries@[j]).name@ == items@[j].name@
                        &&& entries@[j].contents is Archive == items@[j].is_tree
                    },
                forall|j: int| 0 <= j < i ==> entry_within(#[trigger] entries@[j], depth as nat),
            decreases items.len() - i,
        {
            let entry = self.tree_entry_to_archive_entry(&items[i], depth)?;
            entries.push(entry);
            i += 1;
        }
        let res = RawArchive { entries };
        assert forall|j: int| 0 <= j < res.entries.len() implies match (
        #[trigger] res.entries[j]).contents {
            ArchiveEntryContents::Data(_) => true,
            ArchiveEntryContents::Archive(a) => depth > 0 && within_depth(
                a,
                (depth as nat - 1) as nat,
            ),
        } by {
            assert(entry_within(res.entries@[j], depth as nat));
        }
        Ok(res)
    }

    /// Rebuilds one member of an archive from a tree entry: a tree becomes
    /// a nested archive, a blob becomes its bytes.
    pub fn tree_entry_to_archive_entry(&self, item: &TreeItem, depth: usize) -> (res: Result<
        ArchiveEntry,
        StoreError,
    >)
        ensures
            res is Ok ==> res->Ok_0.name@ == item.name@ && (res->Ok_0.contents is Archive
                == item.is_tree),
            res is Ok ==> entry_within(res->Ok_0, depth as nat),
            item.is_tree && depth == 0 ==> res is Err && res->Err_0 is TooDeep,
            res is Err && res->Err_0 is TooDeep ==> item.is_tree,
            res is Err ==> read_failure(res->Err_0),
        decreases depth, 0int,
    {
        let name = item.name.clone();
        let contents = if item.is_tree {
            if depth == 0 {
                return Err(StoreError::TooDeep);
            }
            let items = lift(git_tree_items(&self.r, item.id.as_slice()))?;
            ArchiveEntryContents::Archive(self.tree_to_archive(&items, depth - 1)?)
        } else {
            ArchiveEntryContents::Data(lift(git_read_blob(&self.r, item.id.as_slice()))?)
        };
        Ok(ArchiveEntry { name, contents })
    }
}

impl GitStore {
    /// Stores the blobs of a project and builds its tree; gives the tree's
    /// id.
    fn create_proj_tree(&self, proj: &RawProject) -> (res: Result<Vec<u8>, StoreError>)
        ensures
            res is Err ==> res->Err_0 is Backend,
    {
        let empty = git_empty_tree(&self.r);
        let mut new_tree = lift(git_edit_tree(&self.r, empty.as_slice()))?;
        let mut blobs: Vec<BlobPath<'_>> = Vec::new();
        append_archive(&mut blobs, &proj.archive, "");
        let mut i: usize = 0;
        while i < blobs.len()
            invariant
                i <= blobs.len(),
            decreases blobs.len() - i,
        {
            let blob_id = lift(git_write_blob(&self.r, blobs[i].data.as_slice()))?;
            lift(git_upsert(&mut new_tree, blobs[i].path.as_str(), false, blob_id.as_slice()))?;
            i += 1;
        }
        lift(git_write_tree(&mut new_tree))
    }

    /// Where a write starts from: the branch that HEAD names, the root tree
    /// of the head commit (the empty tree while there is no commit), and
    /// the head commit, if there is one.
    fn write_base(&self) -> (res: Result<(String, Vec<u8>, Option<Vec<u8>>), StoreError>)
        ensures
            res is Err ==> write_failure(res->Err_0),
    {
        let head = lift(git_head(&self.r))?;
        self.base_at(head)
    }

    /// Where a write starts from, given where HEAD stands. A HEAD that
    /// names no branch cannot be written to. While the branch has no
    /// commit, the write starts from the empty tree and has no parent;
    /// else it starts from the tree of the head commit, which is its
    /// parent.
    pub fn base_at(&self, head: HeadState) -> (res: Result<
        (String, Vec<u8>, Option<Vec<u8>>),
        StoreError,
    >)
        ensures
            head.referent is None <==> res is Err && res->Err_0 is InvalidHeadRef,
            head.referent is Some && head.unborn ==> res is Ok,
            res is Ok ==> head.referent is Some && res->Ok_0.0 == head.referent->Some_0
                && res->Ok_0.2 is None == head.unborn,
            res is Err ==> write_failure(res->Err_0),
    {
        let head_ref = match head.referent {
            Some(name) => name,
            None => {
                return Err(StoreError::InvalidHeadRef);
            },
        };
        if head.unborn {
            Ok((head_ref, git_empty_tree(&self.r), None))
        } else {
            let commit = lift(git_head_commit(&self.r))?;
            let tree = lift(git_commit_tree(&self.r, commit.as_slice()))?;
            Ok((head_ref, tree, Some(commit)))
        }
    }

    /// Ends a write. Where the new root tree is the old one, nothing is
    /// committed and the write reports that nothing changed. Else a commit
    /// of the new tree, with the head commit as its only parent, becomes
    /// the branch's head.
    pub fn conclude(
        &self,
        edit: Edit,
        head_ref: &str,
        message: &str,
        current_tree: &Vec<u8>,
        new_root_tree: &Vec<u8>,
        parent: Option<&Vec<u8>>,
    ) -> (res: Result<&'static str, StoreError>)
        ensures
            current_tree@ == new_root_tree@ ==> res is Ok,
            res is Ok ==> res->Ok_0@ == outcome_text(edit, current_tree@ != new_root_tree@),
            res is Err ==> res->Err_0 is Backend,
    {
        if !same_id(current_tree, new_root_tree) {
            lift(git_commit(&self.r, head_ref, message, new_root_tree.as_slice(), parent))?;
            Ok(outcome(edit, true))
        } else {
            Ok(outcome(edit, false))
        }
    }

    /// Puts each of the projects into the store, in place of what the store
    /// held of it, and commits the result with `message`.
    ///
    /// Reports `added` where a commit was made and `already up to date`
    /// where the store held all of it already.
    pub fn commit(&self, projects: &Vec<(ProjectID, RawProject)>, message: &str) -> (res: Result<
        &'static str,
        StoreError,
    >)
        ensures
            res is Ok ==> res->Ok_0@ == outcome_text(Edit::Upsert, true) || res->Ok_0@
                == outcome_text(Edit::Upsert, false),
            res is Err ==> write_failure(res->Err_0),
    {
        let (head_ref, current_tree, parent) = self.write_base()?;
        let mut new_root_tree = lift(git_edit_tree(&self.r, current_tree.as_slice()))?;
        let mut i: usize = 0;
        while i < projects.len()
            invariant
                i <= projects.len(),
            decreases projects.len() - i,
        {
            let proj_tree = self.create_proj_tree(&projects[i].1)?;
            let path = Self::path_for(&projects[i].0);
            lift(git_upsert(&mut new_root_tree, path.as_str(), true, proj_tree.as_slice()))?;
            i += 1;
        }
        let new_root_tree_id = lift(git_write_tree(&mut new_root_tree))?;
        self.conclude(
            Edit::Upsert,
            head_ref.as_str(),
            message,
            &current_tree,
            &new_root_tree_id,
            parent.as_ref(),
        )
    }

    /// Takes a project out of the store and commits the result with
    /// `message`.
    ///
    /// Reports `removed` where a commit was made and `not tracked` where
    /// the store did not hold the project.
    pub fn untrack(&self, id: &ProjectID, message: &str) -> (res: Result<&'static str, StoreError>)
        ensures
            res is Ok ==> res->Ok_0@ == outcome_text(Edit::Remove, true) || res->Ok_0@
                == outcome_text(Edit::Remove, false),
            res is Err ==> write_failure(res->Err_0),
    {
        let (head_ref, current_tree, parent) = self.write_base()?;
        let mut new_root_tree = lift(git_edit_tree(&self.r, current_tree.as_slice()))?;
        let path = Self::path_for(id);
        lift(git_remove(&mut new_root_tree, path.as_str()))?;
        let new_root_tree_id = lift(git_write_tree(&mut new_root_tree))?;
        self.conclude(
            Edit::Remove,
            head_ref.as_str(),
            message,
            &current_tree,
            &new_root_tree_id,
            parent.as_ref(),
        )
    }

    /// The history since `since`, a time in seconds since the Unix epoch.
    ///
    /// Where even the head commit is older, only that commit is reported.
    /// Else the commits come newest first, up to the first one that is
    /// older than `since`.
    pub fn log(&self, since: i64) -> (res: Result<LogResult, StoreError>)
        ensures
            res is Ok && res->Ok_0 is Older ==> res->Ok_0->Older_0.date < since,
            res is Ok && res->Ok_0 is Commits ==> forall|i: int|
                0 <= i < res->Ok_0->Commits_0@.len() ==> (#[trigger] res->Ok_0->Commits_0@[i]).date
                    >= since,
            res is Err ==> list_failure(res->Err_0),
    {
        let head = lift(git_head(&self.r))?;
        self.log_at(&head, since)
    }

    /// The history since `since`, given where HEAD stands. A store without
    /// a commit reports just that, whatever `since` is; a store with
    /// commits reports its newest commit where that one is older than
    /// `since`, else the commits that are not older.
    pub fn log_at(&self, head: &HeadState, since: i64) -> (res: Result<LogResult, StoreError>)
        ensures
            head.unborn ==> res is Ok && res->Ok_0 is Unborn,
            res is Ok ==> res->Ok_0 is Unborn == head.unborn,
            res is Ok && res->Ok_0 is Older ==> res->Ok_0->Older_0.date < since,
            res is Ok && res->Ok_0 is Commits ==> forall|i: int|
                0 <= i < res->Ok_0->Commits_0@.len() ==> (#[trigger] res->Ok_0->Commits_0@[i]).date
                    >= since,
            res is Err ==> list_failure(res->Err_0),
    {
        if head.unborn {
            return Ok(LogResult::Unborn);
        }
        let head_commit = lift(git_head_commit(&self.r))?;
        let head_commit_info = self.commit_info(&head_commit)?;
        match window_start(head_commit_info, since) {
            Some(older) => {
                return Ok(older);
            },
            None => {},
        }
        let with_cache = self.clone_with_cache();
        let tip = lift(git_head_commit(&with_cache.r))?;
        let mut walk = lift(git_walk(&with_cache.r, tip.as_slice()))?;
        let mut res: Vec<CommitInfo> = Vec::new();
        while res.len() < usize::MAX
            invariant
                !head.unborn,
                forall|i: int| 0 <= i < res@.len() ==> (#[trigger] res@[i]).date >= since,
            decreases usize::MAX - res.len(),
        {
            let commit = match git_walk_next(&mut walk) {
                None => {
                    break ;
                },
                Some(next) => lift(next)?,
            };
            let commit_info = with_cache.commit_info(&commit)?;
            if !log_step(&mut res, commit_info, since) {
                break ;
            }
        }
        Ok(LogResult::Commits(res))
    }

    /// What is known of one commit: its summary and the projects that
    /// differ from its parent.
    fn commit_info(&self, commit: &Vec<u8>) -> (res: Result<CommitInfo, StoreError>)
        ensures
            res is Err ==> list_failure(res->Err_0),
    {
        let summary = lift(git_commit_summary(&self.r, commit.as_slice()))?;
        let changed_projects = self.get_changes(commit)?;
        Ok(commit_info_of(summary, changed_projects))
    }

    fn get_changes(&self, commit: &Vec<u8>) -> (res: Result<Vec<ProjectID>, StoreError>)
        ensures
            res is Err ==> list_failure(res->Err_0),
    {
        let parents = lift(git_commit_parents(&self.r, commit.as_slice()))?;
        self.changes_from(commit, &parents)
    }

    /// The projects that a commit changed, given its parents: none for a
    /// merge, the difference to the parent where there is one parent, and
    /// every project of the commit where there is none.
    pub fn changes_from(&self, commit: &Vec<u8>, parents: &Vec<Vec<u8>>) -> (res: Result<
        Vec<ProjectID>,
        StoreError,
    >)
        ensures
            parents@.len() >= 2 ==> res is Ok && res->Ok_0@.len() == 0,
            res is Err ==> list_failure(res->Err_0),
    {
        let none: Vec<VersionedProjectID> = Vec::new();
        if parents.len() >= 2 {
            let res = changes_given(parents.len(), &none, &none);
            assert(keys_view(res@).len() == 0);
            Ok(res)
        } else if parents.len() == 1 {
            self.get_changes2(commit, &parents[0])
        } else {
            let new = self.versioned_project_ids_from_commit(commit)?;
            Ok(changes_given(0, &new, &none))
        }
    }

    fn get_changes2(&self, new_commit: &Vec<u8>, old_commit: &Vec<u8>) -> (res: Result<
        Vec<ProjectID>,
        StoreError,
    >)
        ensures
            res is Err ==> list_failure(res->Err_0),
    {
        let new = self.versioned_project_ids_from_commit(new_commit)?;
        let old = self.versioned_project_ids_from_commit(old_commit)?;
        Ok(changes_given(1, &new, &old))
    }
}

/// The projects that a commit changed, from the number of its parents, the
/// projects that it holds and those that its parent holds.
pub fn changes_given(
    parents: usize,
    new: &Vec<VersionedProjectID>,
    old: &Vec<VersionedProjectID>,
) -> (res: Vec<ProjectID>)
    ensures
        keys_view(res@) == commit_changes(
            parents as nat,
            versions_view(new@),
            versions_view(old@),
        ),
{
    if parents >= 2 {
        let res: Vec<ProjectID> = Vec::new();
        assert(keys_view(res@) =~= Seq::empty());
        res
    } else if parents == 1 {
        changed_projects(new, old)
    } else {
        let mut res: Vec<ProjectID> = Vec::new();
        let mut i: usize = 0;
        while i < new.len()
            invariant
                i <= new.len(),
                res@.len() == i,
                forall|j: int| 0 <= j < i ==> (#[trigger] res@[j])@ == new@[j]@.key,
            decreases new.len() - i,
        {
            res.push(new[i].proj_id.clone());
            i += 1;
        }
        assert(keys_view(res@) =~= versions_view(new@).map_values(|v: Versioned| v.key));
        res
    }
}

/// The projects of a list of versioned projects, in order.
pub fn project_keys(versioned: Vec<VersionedProjectID>) -> (res: Vec<ProjectID>)
    ensures
        res@.len() == versioned@.len(),
        forall|i: int| 0 <= i < res@.len() ==> (#[trigger] res@[i])@ == versioned@[i]@.key,
{
    let mut versioned = versioned;
    let ghost all = versioned@;
    let mut res: Vec<ProjectID> = Vec::new();
    let mut i: usize = 0;
    while i < versioned.len()
        invariant
            i <= versioned.len(),
            versioned@ == all,
            res@.len() == i,
            forall|j: int| 0 <= j < i ==> (#[trigger] res@[j])@ == all[j]@.key,
        decreases versioned.len() - i,
    {
        res.push(versioned[i].proj_id.clone());
        i += 1;
    }
    res
}

} // verus!
