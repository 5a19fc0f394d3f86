//! Starts tracking a project: its local copy is committed to every
//! configured store.

use vstd::prelude::*;
use vstd::string::StringExecFns;
use crate::archive::ReadError;
use crate::commit::{reversed, LocalCopy};
use crate::config::{Config, StoreConfig};
use crate::error::StoreError;
use crate::project::{project_label, Program, ProjectID, RawProject};
use crate::store::git::{outcome_text, write_failure, Edit};
use crate::store::{
    configs_of, failed_configs, is_split, lemma_split_len, open_all, opened_configs,
    store_failure, Store, StoreErrors,
};

verus! {

/// What one store reported of tracking a project.
pub type StoreTrackResult = Result<&'static str, StoreError>;

/// What tracking a project came to.
#[derive(Debug)]
pub struct TrackResult {
    pub id: ProjectID,
    /// What each configured store reported: first the stores that could not
    /// be opened, then the others.
    pub store_results: Vec<(StoreConfig, StoreTrackResult)>,
}

/// Why a project cannot be tracked.
#[derive(Debug)]
pub enum TrackError {
    /// The project's file is not there.
    NotFound(String),
    /// The project's file cannot be read.
    Read(ReadError),
}

/// The text of a failure to track a project.
pub open spec fn track_error_text(e: TrackError) -> Seq<char> {
    match e {
        TrackError::NotFound(name) => "Project file not found: "@ + name@,
        TrackError::Read(r) => crate::archive::read_error_text(r),
    }
}

impl TrackError {
    /// The text shown to the user.
    pub fn message(&self) -> (s: String)
        ensures
            s@ == track_error_text(*self),
    {
        match self {
            TrackError::NotFound(name) => String::from_str("Project file not found: ").concat(
                name.as_str(),
            ),
            TrackError::Read(e) => e.message(),
        }
    }
}

/// The configurations of a list of results.
pub open spec fn result_configs(results: Seq<(StoreConfig, StoreTrackResult)>) -> Seq<
    (Seq<char>, Seq<char>),
> {
    results.map_values(|r: (StoreConfig, StoreTrackResult)| r.0@)
}

/// Every configured store has its result, once: the first `k` results are
/// the errors of the stores that could not be opened, the others belong to
/// the stores that were opened; both parts keep the order of the
/// configuration.
pub open spec fn fans_out(
    stores: Seq<StoreConfig>,
    results: Seq<(StoreConfig, StoreTrackResult)>,
    k: int,
) -> bool {
    &&& 0 <= k <= results.len()
    &&& results.len() == stores.len()
    &&& is_split(
        configs_of(stores),
        result_configs(results.subrange(k, results.len() as int)),
        result_configs(results.subrange(0, k)),
    )
    &&& forall|i: int| 0 <= i < k ==> (#[trigger] results[i]).1 is Err
}

/// The message of the commit that starts tracking a project.
pub fn track_message(id: &ProjectID) -> (s: String)
    ensures
        s@ == "Start tracking "@ + project_label(id@),
{
    String::from_str("Start tracking ").concat(id.label().as_str())
}

/// The results of the stores that could not be opened: each error beside
/// its store, in order.
pub fn errors_first(store_errs: StoreErrors) -> (res: Vec<(StoreConfig, StoreTrackResult)>)
    ensures
        res@.len() == store_errs@.len(),
        result_configs(res@) == failed_configs(store_errs@),
        forall|i: int|
            0 <= i < res@.len() ==> (#[trigger] res@[i]).1 is Err && res@[i].1->Err_0
                == store_errs@[i].1,
{
    let ghost all = store_errs@;
    let n = store_errs.len();
    let mut rest = reversed(store_errs);
    let mut res: Vec<(StoreConfig, StoreTrackResult)> = Vec::new();
    let mut i: usize = 0;
    while i < n
        invariant
            i <= n,
            n == all.len(),
            rest@ == all.reverse().take(n - i),
            res@.len() == i,
            forall|j: int| 0 <= j < i ==> (#[trigger] res@[j]).0@ == all[j].0@,
            forall|j: int|
                0 <= j < i ==> (#[trigger] res@[j]).1 is Err && res@[j].1->Err_0 == all[j].1,
        decreases n - i,
    {
        let (st, err) = rest.pop().unwrap();
        assert((st, err) == all[i as int]);
        assert(rest@ =~= all.reverse().take(n - (i + 1)));
        res.push((st, Err(err)));
        i += 1;
    }
    assert(result_configs(res@) =~= failed_configs(all));
    res
}

/// What is written to each store: projects that are put into it, or a
/// project that is taken out of it.
pub enum Change<'a> {
    Put(&'a Vec<(ProjectID, RawProject)>),
    Take(&'a ProjectID),
}

impl<'a> Change<'a> {
    /// The kind of edit that this change is.
    pub open spec fn edit(&self) -> Edit {
        match self {
            Change::Put(_) => Edit::Upsert,
            Change::Take(_) => Edit::Remove,
        }
    }
}

/// A store's result is one of the two texts of the edit, or a failure to
/// open the store or to write to it.
pub open spec fn reports(result: StoreTrackResult, edit: Edit) -> bool {
    &&& result is Ok ==> result->Ok_0@ == outcome_text(edit, true) || result->Ok_0@
        == outcome_text(edit, false)
    &&& result is Err ==> store_failure(result->Err_0) || write_failure(result->Err_0)
}

/// Writes a change to every store that opened and gives each store's
/// result after the errors of the stores that did not open. A store's
/// failure is its result and does not stop the stores after it.
pub fn fan_out(
    scs: &Vec<StoreConfig>,
    change: &Change<'_>,
    message: &str,
) -> (res: Vec<(StoreConfig, StoreTrackResult)>)
    ensures
        exists|k: int| fans_out(scs@, res@, k),
        forall|i: int| 0 <= i < res@.len() ==> reports((#[trigger] res@[i]).1, change.edit()),
{
    let (stores, store_errs) = open_all(scs);
    let ghost failed = failed_configs(store_errs@);
    let ghost opened = opened_configs(stores@);
    let mut store_results = errors_first(store_errs);
    let k = store_results.len();
    let mut j: usize = 0;
    assert(store_results@.subrange(0, k as int) =~= store_results@);
    assert(result_configs(store_results@.subrange(k as int, k as int)) =~= opened.take(0));
    while j < stores.len()
        invariant
            j <= stores.len(),
            opened == opened_configs(stores@),
            store_results@.len() == k + j,
            result_configs(store_results@.subrange(0, k as int)) == failed,
            result_configs(store_results@.subrange(k as int, k + j)) == opened.take(j as int),
            forall|i: int| 0 <= i < k ==> (#[trigger] store_results@[i]).1 is Err,
            forall|i: int|
                0 <= i < store_results@.len() ==> reports(
                    (#[trigger] store_results@[i]).1,
                    change.edit(),
                ),
        decreases stores.len() - j,
    {
        let ghost before = store_results@;
        let result = match change {
            Change::Put(update) => stores[j].1.commit(update, message),
            Change::Take(id) => stores[j].1.untrack(id, message),
        };
        store_results.push((stores[j].0.clone(), result));
        assert(store_results@.subrange(0, k as int) =~= before.subrange(0, k as int));
        assert(result_configs(store_results@.subrange(k as int, k + j + 1)) =~= opened.take(
            j + 1,
        )) by {
            let now = result_configs(store_results@.subrange(k as int, k + j + 1));
            let was = result_configs(before.subrange(k as int, k + j));
            assert(now.len() == j + 1);
            assert forall|i: int| 0 <= i < j + 1 implies now[i] == opened.take(j + 1)[i] by {
                if i < j {
                    assert(now[i] == was[i]);
                }
            }
        }
        j += 1;
    }
    proof {
        assert(opened.take(stores@.len() as int) =~= opened);
        assert(store_results@.subrange(k as int, store_results@.len() as int)
            =~= store_results@.subrange(k as int, k + j));
        lemma_split_len(configs_of(scs@), opened, failed);
        assert(fans_out(scs@, store_results@, k as int));
    }
    store_results
}

/// Starts tracking the project `file_name` of `prog`.
///
/// `local` is what reading the project's file gave. A file that is not
/// there, or cannot be read, is an error: nothing is opened then. Else
/// every configured store is opened and the project is committed to each
/// that opens; a store's failure is its result and does not stop the
/// others.
pub fn track(cfg: Config, prog: Program, file_name: &str, local: LocalCopy) -> (res: Result<
    TrackResult,
    TrackError,
>)
    ensures
        local is Err ==> res is Err && res->Err_0 is Read && res->Err_0->Read_0 == local->Err_0,
        local is Ok && local->Ok_0 is None ==> res is Err && res->Err_0 is NotFound
            && res->Err_0->NotFound_0@ == file_name@,
        local is Ok && local->Ok_0 is Some ==> res is Ok,
        res is Ok ==> {
            &&& res->Ok_0.id@ == (prog, file_name@)
            &&& exists|k: int| fans_out(cfg.stores@, res->Ok_0.store_results@, k)
            &&& forall|i: int|
                0 <= i < res->Ok_0.store_results@.len() ==> reports(
                    (#[trigger] res->Ok_0.store_results@[i]).1,
                    Edit::Upsert,
                )
        },
{
    let id = ProjectID::new(prog, file_name);
    let archive = match local {
        Err(e) => {
            return Err(TrackError::Read(e));
        },
        Ok(None) => {
            return Err(TrackError::NotFound(String::from_str(file_name)));
        },
        Ok(Some(archive)) => archive,
    };
    let mut update: Vec<(ProjectID, RawProject)> = Vec::new();
    update.push((id.clone(), archive));
    let commit_message = track_message(&id);
    let store_results = fan_out(&cfg.stores, &Change::Put(&update), commit_message.as_str());
    let res = TrackResult { id, store_results };
    proof {
        let k = choose|k: int| fans_out(cfg.stores@, res.store_results@, k);
        assert(fans_out(cfg.stores@, res.store_results@, k));
    }
    Ok(res)
}

} // verus!
