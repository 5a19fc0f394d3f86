//! Stops tracking a project: it is taken out of every configured store.

use vstd::prelude::*;
use vstd::string::StringExecFns;
use crate::config::{Config, StoreConfig};
use crate::error::StoreError;
use crate::project::{project_label, Program, ProjectID};
use crate::store::git::Edit;
use crate::track::{fan_out, fans_out, reports, Change};

verus! {

/// What one store reported of untracking a project.
pub type StoreUntrackResult = Result<&'static str, StoreError>;

/// What untracking a project came to.
#[derive(Debug)]
pub struct UntrackResult {
    pub id: ProjectID,
    /// What each configured store reported: first the stores that could not
    /// be opened, then the others.
    pub store_results: Vec<(StoreConfig, StoreUntrackResult)>,
}

/// The message of the commit that stops tracking a project.
pub fn untrack_message(id: &ProjectID) -> (s: String)
    ensures
        s@ == "Stop tracking "@ + project_label(id@),
{
    String::from_str("Stop tracking ").concat(id.label().as_str())
}

/// Stops tracking the project `file_name` of `prog`.
///
/// Every configured store is opened and the project is taken out of each
/// that opens; a store's failure is its result and does not stop the
/// others. The local file is not read.
pub fn untrack(cfg: Config, prog: Program, file_name: &str) -> (res: Result<
    UntrackResult,
    StoreError,
>)
    ensures
        res is Ok,
        res->Ok_0.id@ == (prog, file_name@),
        exists|k: int| fans_out(cfg.stores@, res->Ok_0.store_results@, k),
        forall|i: int|
            0 <= i < res->Ok_0.store_results@.len() ==> reports(
                (#[trigger] res->Ok_0.store_results@[i]).1,
                Edit::Remove,
            ),
{
    let id = ProjectID::new(prog, file_name);
    let commit_message = untrack_message(&id);
    let store_results = fan_out(&cfg.stores, &Change::Take(&id), commit_message.as_str());
    let res = UntrackResult { id, store_results };
    proof {
        let k = choose|k: int| fans_out(cfg.stores@, res.store_results@, k);
        assert(fans_out(cfg.stores@, res.store_results@, k));
    }
    Ok(res)
}

} // verus!
