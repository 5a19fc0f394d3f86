//! What the watcher of the project files does on each event: which
//! projects to commit, and when to stop.

use vstd::prelude::*;
use crate::project::{Program, ProjectID};
use crate::store::git::keys_view;
use crate::store::insert_unique;

verus! {

/// What happened while the project files are watched.
#[derive(Debug)]
pub enum WatchEvent {
    /// The files at these paths changed.
    Changed(Vec<String>),
    /// The watcher reported an error.
    Failed(String),
    /// The user asked the program to stop.
    Shutdown,
}

/// What to do on an event.
#[derive(Debug)]
pub enum WatchAction {
    /// Commit these projects to every store, and go on; `unknown` holds the
    /// changed paths that belong to no watched project.
    Commit { projects: Vec<ProjectID>, unknown: Vec<String> },
    /// Show the error, and go on.
    Report(String),
    /// Commit every watched project to every store, and stop.
    Finish { projects: Vec<ProjectID> },
}

/// The message of a commit made by the watcher.
pub open spec fn auto_commit_message() -> Seq<char> {
    "Update tracked projects via auto-commit"@
}

/// The message of a commit made by the watcher.
pub fn commit_message() -> (s: &'static str)
    ensures
        s@ == auto_commit_message(),
{
    "Update tracked projects via auto-commit"
}

/// A watched file: its path and its project.
pub type Watched = (String, ProjectID);

/// The paths and projects of the watched files.
pub open spec fn watched_view(w: Seq<Watched>) -> Seq<(Seq<char>, (Program, Seq<char>))> {
    w.map_values(|x: Watched| (x.0@, x.1@))
}

/// The texts of a list of paths.
pub open spec fn paths_view(p: Seq<String>) -> Seq<Seq<char>> {
    p.map_values(|x: String| x@)
}

/// The project of the first of the first `n` watched files that has this
/// path.
pub open spec fn project_at(
    watched: Seq<(Seq<char>, (Program, Seq<char>))>,
    path: Seq<char>,
    n: nat,
) -> Option<(Program, Seq<char>)>
    decreases n,
{
    if n == 0 || n > watched.len() {
        None
    } else {
        match project_at(watched, path, (n - 1) as nat) {
            Some(k) => Some(k),
            None => if watched[n - 1].0 == path {
                Some(watched[n - 1].1)
            } else {
                None
            },
        }
    }
}

/// The project of a path, if the path is watched.
pub open spec fn project_of(
    watched: Seq<(Seq<char>, (Program, Seq<char>))>,
    path: Seq<char>,
) -> Option<(Program, Seq<char>)> {
    project_at(watched, path, watched.len())
}

/// The projects of the first `n` changed paths, each once, in the order in
/// which they first occur.
pub open spec fn changed_of(
    watched: Seq<(Seq<char>, (Program, Seq<char>))>,
    paths: Seq<Seq<char>>,
    n: nat,
) -> Seq<(Program, Seq<char>)>
    decreases n,
{
    if n == 0 || n > paths.len() {
        Seq::empty()
    } else {
        let rest = changed_of(watched, paths, (n - 1) as nat);
        match project_of(watched, paths[n - 1]) {
            Some(k) => if rest.contains(k) {
                rest
            } else {
                rest.push(k)
            },
            None => rest,
        }
    }
}

/// Those of the first `n` changed paths that are not watched.
pub open spec fn unknown_of(
    watched: Seq<(Seq<char>, (Program, Seq<char>))>,
    paths: Seq<Seq<char>>,
    n: nat,
) -> Seq<Seq<char>>
    decreases n,
{
    if n == 0 || n > paths.len() {
        Seq::empty()
    } else {
        let rest = unknown_of(watched, paths, (n - 1) as nat);
        match project_of(watched, paths[n - 1]) {
            Some(_) => rest,
            None => rest.push(paths[n - 1]),
        }
    }
}

/// No project occurs twice among the changed ones.
pub proof fn lemma_changed_once(
    watched: Seq<(Seq<char>, (Program, Seq<char>))>,
    paths: Seq<Seq<char>>,
    n: nat,
)
    ensures
        changed_of(watched, paths, n).no_duplicates(),
    decreases n,
{
    if n == 0 || n > paths.len() {
    } else {
        lemma_changed_once(watched, paths, (n - 1) as nat);
    }
}

proof fn lemma_project_found(
    watched: Seq<(Seq<char>, (Program, Seq<char>))>,
    path: Seq<char>,
    i: nat,
    n: nat,
)
    requires
        i <= n <= watched.len(),
        project_at(watched, path, i) is Some,
    ensures
        project_at(watched, path, n) == project_at(watched, path, i),
    decreases n,
{
    if i < n {
        lemma_project_found(watched, path, i, (n - 1) as nat);
    }
}

/// The project that a path belongs to, if the path is watched.
pub fn lookup<'a>(watched: &'a Vec<Watched>, path: &String) -> (res: Option<&'a ProjectID>)
    ensures
        res is Some == project_of(watched_view(watched@), path@) is Some,
        res is Some ==> res->Some_0@ == project_of(watched_view(watched@), path@)->Some_0,
{
    let ghost w = watched_view(watched@);
    let mut i: usize = 0;
    while i < watched.len()
        invariant
            i <= watched.len(),
            w == watched_view(watched@),
            project_at(w, path@, i as nat) is None,
        decreases watched.len() - i,
    {
        if watched[i].0 == *path {
            proof {
                assert(w[i as int] == (watched@[i as int].0@, watched@[i as int].1@));
                assert(project_at(w, path@, (i + 1) as nat) == Some(watched@[i as int].1@));
                lemma_project_found(w, path@, (i + 1) as nat, w.len());
            }
            return Some(&watched[i].1);
        }
        i += 1;
    }
    None
}

/// Every watched project, in the order of the watched files.
pub fn all_watched(watched: &Vec<Watched>) -> (res: Vec<ProjectID>)
    ensures
        res@.len() == watched@.len(),
        forall|i: int| 0 <= i < res@.len() ==> (#[trigger] res@[i])@ == watched@[i].1@,
{
    let mut res: Vec<ProjectID> = Vec::new();
    let mut i: usize = 0;
    while i < watched.len()
        invariant
            i <= watched.len(),
            res@.len() == i,
            forall|j: int| 0 <= j < i ==> (#[trigger] res@[j])@ == watched@[j].1@,
        decreases watched.len() - i,
    {
        res.push(watched[i].1.clone());
        i += 1;
    }
    res
}

/// What to do on an event.
///
/// Changed files lead to one commit of their projects, each project once;
/// an error is shown; a shutdown leads to a last commit of every watched
/// project.
pub fn on_event(watched: &Vec<Watched>, event: WatchEvent) -> (action: WatchAction)
    ensures
        event is Failed ==> action is Report && action->Report_0 == event->Failed_0,
        event is Shutdown ==> action is Finish && action->Finish_projects@.len()
            == watched@.len() && forall|i: int|
            0 <= i < watched@.len() ==> (#[trigger] action->Finish_projects@[i])@
                == watched@[i].1@,
        event is Changed ==> action is Commit && keys_view(action->Commit_projects@)
            == changed_of(
            watched_view(watched@),
            paths_view(event->Changed_0@),
            event->Changed_0@.len(),
        ) && paths_view(action->Commit_unknown@) == unknown_of(
            watched_view(watched@),
            paths_view(event->Changed_0@),
            event->Changed_0@.len(),
        ),
{
    match event {
        WatchEvent::Failed(e) => WatchAction::Report(e),
        WatchEvent::Shutdown => WatchAction::Finish { projects: all_watched(watched) },
        WatchEvent::Changed(paths) => {
            let ghost w = watched_view(watched@);
            let ghost p = paths_view(paths@);
            let mut projects: Vec<ProjectID> = Vec::new();
            let mut unknown: Vec<String> = Vec::new();
            let mut i: usize = 0;
            assert(keys_view(projects@) =~= Seq::empty());
            assert(paths_view(unknown@) =~= Seq::empty());
            while i < paths.len()
                invariant
                    i <= paths.len(),
                    w == watched_view(watched@),
                    p == paths_view(paths@),
                    keys_view(projects@) == changed_of(w, p, i as nat),
                    paths_view(unknown@) == unknown_of(w, p, i as nat),
                decreases paths.len() - i,
            {
                proof {
                    lemma_changed_once(w, p, i as nat);
                    assert(p[i as int] == paths@[i as int]@);
                }
                match lookup(watched, &paths[i]) {
                    Some(id) => insert_unique(&mut projects, id.clone()),
                    None => {
                        let ghost before = paths_view(unknown@);
                        unknown.push(paths[i].clone());
                        assert(paths_view(unknown@) =~= before.push(paths@[i as int]@));
                    },
                }
                i += 1;
            }
            WatchAction::Commit { projects, unknown }
        },
    }
}

} // verus!
