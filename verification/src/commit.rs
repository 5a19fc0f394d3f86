//! Commits the local copies of projects to every open store.

use vstd::prelude::*;
use crate::archive::ReadError;
use crate::config::StoreConfig;
use crate::project::{Program, ProjectID, RawProject, Tree};
use crate::store::git::{keys_view, outcome_text, write_failure, Edit};
use crate::store::Store;

verus! {

/// What reading the local copy of a project gave: the project, nothing
/// where its file is not there, or the error.
pub type LocalCopy = Result<Option<RawProject>, ReadError>;

/// What a commit to many stores came to.
#[derive(Debug)]
pub struct CommitResult {
    /// The projects whose file is not there locally.
    pub missing_projects: Vec<ProjectID>,
    /// The projects whose file could not be read, each with the error.
    pub project_read_errors: Vec<(ProjectID, ReadError)>,
    /// What each store reported, in the order of the stores.
    pub store_results: Vec<(StoreConfig, crate::store::CommitResult)>,
}

/// The projects among the first `n` whose local copy is not there.
pub open spec fn missing_of(reads: Seq<(ProjectID, LocalCopy)>, n: nat) -> Seq<
    (Program, Seq<char>),
>
    decreases n,
{
    if n == 0 || n > reads.len() {
        Seq::empty()
    } else {
        let rest = missing_of(reads, (n - 1) as nat);
        match reads[n - 1].1 {
            Ok(None) => rest.push(reads[n - 1].0@),
            _ => rest,
        }
    }
}

/// The projects among the first `n` whose local copy could not be read,
/// each with the error of reading it.
pub open spec fn unreadable_of(reads: Seq<(ProjectID, LocalCopy)>, n: nat) -> Seq<
    ((Program, Seq<char>), ReadError),
>
    decreases n,
{
    if n == 0 || n > reads.len() {
        Seq::empty()
    } else {
        let rest = unreadable_of(reads, (n - 1) as nat);
        match reads[n - 1].1 {
            Err(e) => rest.push((reads[n - 1].0@, e)),
            _ => rest,
        }
    }
}

/// The projects among the first `n` whose local copy is there, each with
/// its content.
pub open spec fn found_of(reads: Seq<(ProjectID, LocalCopy)>, n: nat) -> Seq<
    ((Program, Seq<char>), Tree),
>
    decreases n,
{
    if n == 0 || n > reads.len() {
        Seq::empty()
    } else {
        let rest = found_of(reads, (n - 1) as nat);
        match reads[n - 1].1 {
            Ok(Some(p)) => rest.push((reads[n - 1].0@, p@)),
            _ => rest,
        }
    }
}

/// The values of a list of read errors: each project with its error.
pub open spec fn errors_view(errs: Seq<(ProjectID, ReadError)>) -> Seq<
    ((Program, Seq<char>), ReadError),
> {
    errs.map_values(|e: (ProjectID, ReadError)| (e.0@, e.1))
}

/// The keys and contents of a list of projects.
pub open spec fn contents_view(projects: Seq<(ProjectID, RawProject)>) -> Seq<
    ((Program, Seq<char>), Tree),
> {
    projects.map_values(|p: (ProjectID, RawProject)| (p.0@, p.1@))
}

/// The elements of a list, last first.
pub fn reversed<T>(v: Vec<T>) -> (res: Vec<T>)
    ensures
        res@ == v@.reverse(),
{
    let ghost all = v@;
    let mut v = v;
    let mut res: Vec<T> = Vec::new();
    while v.len() > 0
        invariant
            v@.len() + res@.len() == all.len(),
            v@ == all.take(v@.len() as int),
            forall|k: int| 0 <= k < res@.len() ==> res@[k] == all[all.len() - 1 - k],
        decreases v.len(),
    {
        let x = v.pop().unwrap();
        res.push(x);
    }
    assert(res@ =~= all.reverse());
    res
}

/// The three lists that the local copies fall into.
pub struct Sorted {
    pub found: Vec<(ProjectID, RawProject)>,
    pub missing: Vec<ProjectID>,
    pub unreadable: Vec<(ProjectID, ReadError)>,
}

/// Sorts the local copies: those that are there, those that are not, and
/// those that could not be read. Each list keeps the order of `reads`.
pub fn sort_reads(reads: Vec<(ProjectID, LocalCopy)>) -> (res: Sorted)
    ensures
        contents_view(res.found@) == found_of(reads@, reads@.len()),
        keys_view(res.missing@) == missing_of(reads@, reads@.len()),
        errors_view(res.unreadable@) == unreadable_of(reads@, reads@.len()),
{
    let ghost all = reads@;
    let n = reads.len();
    let mut rest = reversed(reads);
    let mut found: Vec<(ProjectID, RawProject)> = Vec::new();
    let mut missing: Vec<ProjectID> = Vec::new();
    let mut unreadable: Vec<(ProjectID, ReadError)> = Vec::new();
    let mut i: usize = 0;
    while i < n
        invariant
            i <= n,
            n == all.len(),
            rest@ == all.reverse().take(n - i),
            contents_view(found@) == found_of(all, i as nat),
            keys_view(missing@) == missing_of(all, i as nat),
            errors_view(unreadable@) == unreadable_of(all, i as nat),
        decreases n - i,
    {
        let ghost f = contents_view(found@);
        let ghost m = keys_view(missing@);
        let ghost u = errors_view(unreadable@);
        let (proj_id, read) = rest.pop().unwrap();
        assert((proj_id, read) == all[i as int]);
        assert(rest@ =~= all.reverse().take(n - (i + 1)));
        match read {
            Ok(Some(raw_project)) => {
                found.push((proj_id, raw_project));
                assert(contents_view(found@) =~= f.push((proj_id@, raw_project@)));
            },
            Ok(None) => {
                missing.push(proj_id);
                assert(keys_view(missing@) =~= m.push(proj_id@));
            },
            Err(e) => {
                unreadable.push((proj_id, e));
                assert(errors_view(unreadable@) =~= u.push((proj_id@, e)));
            },
        };
        i += 1;
    }
    Sorted { found, missing, unreadable }
}

/// Commits the local copies that are there to every store, with `message`.
///
/// A project that is not there locally, or cannot be read, is reported and
/// does not stop the others. Every store is tried, whatever the stores
/// before it reported.
pub fn commit(stores: &Vec<(StoreConfig, Store)>, projects: Vec<(ProjectID, LocalCopy)>, message: &str) -> (res:
    CommitResult)
    ensures
        keys_view(res.missing_projects@) == missing_of(projects@, projects@.len()),
        errors_view(res.project_read_errors@) == unreadable_of(projects@, projects@.len()),
        res.store_results@.len() == stores@.len(),
        forall|i: int|
            0 <= i < stores@.len() ==> {
                &&& (#[trigger] res.store_results@[i]).0@ == stores@[i].0@
                &&& res.store_results@[i].1 is Ok ==> {
                    ||| res.store_results@[i].1->Ok_0@ == outcome_text(Edit::Upsert, true)
                    ||| res.store_results@[i].1->Ok_0@ == outcome_text(Edit::Upsert, false)
                }
                &&& res.store_results@[i].1 is Err ==> write_failure(
                    res.store_results@[i].1->Err_0,
                )
            },
{
    let sorted = sort_reads(projects);
    let projects_to_commit = sorted.found;
    let mut store_results: Vec<(StoreConfig, crate::store::CommitResult)> = Vec::new();
    let mut i: usize = 0;
    while i < stores.len()
        invariant
            i <= stores.len(),
            store_results@.len() == i,
            forall|j: int|
                0 <= j < i ==> {
                    &&& (#[trigger] store_results@[j]).0@ == stores@[j].0@
                    &&& store_results@[j].1 is Ok ==> {
                        ||| store_results@[j].1->Ok_0@ == outcome_text(Edit::Upsert, true)
                        ||| store_results@[j].1->Ok_0@ == outcome_text(Edit::Upsert, false)
                    }
                    &&& store_results@[j].1 is Err ==> write_failure(store_results@[j].1->Err_0)
                },
        decreases stores.len() - i,
    {
        let result = stores[i].1.commit(&projects_to_commit, message);
        store_results.push((stores[i].0.clone(), result));
        i += 1;
    }
    CommitResult {
        missing_projects: sorted.missing,
        project_read_errors: sorted.unreadable,
        store_results,
    }
}

} // verus!
