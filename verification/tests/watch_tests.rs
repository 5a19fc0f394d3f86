use mind_meld::project::{Program, ProjectID};
use mind_meld::watch::{all_watched, commit_message, lookup, on_event, WatchAction, WatchEvent};

fn watched() -> Vec<(String, ProjectID)> {
    vec![
        ("/s/a.llsp3".to_string(), ProjectID::new(Program::Spike, "a.llsp3")),
        ("/m/b.lms".to_string(), ProjectID::new(Program::Mindstorms, "b.lms")),
        ("/s/c.llsp3".to_string(), ProjectID::new(Program::Spike, "c.llsp3")),
    ]
}

fn labels(ids: &[ProjectID]) -> Vec<String> {
    ids.iter().map(|id| id.label()).collect()
}

#[test]
fn changed_files_lead_to_one_commit_of_their_projects() {
    let paths = ["/s/c.llsp3", "/tmp/other", "/s/a.llsp3", "/s/c.llsp3", "/s/A.llsp3"];
    let event = WatchEvent::Changed(paths.iter().map(|p| p.to_string()).collect());
    match on_event(&watched(), event) {
        WatchAction::Commit { projects, unknown } => {
            assert_eq!(labels(&projects), vec!["spike: c.llsp3", "spike: a.llsp3"]);
            assert_eq!(unknown, vec!["/tmp/other", "/s/A.llsp3"]);
        }
        other => panic!("{other:?}"),
    }
}

#[test]
fn no_changed_file_leads_to_a_commit_of_nothing() {
    match on_event(&watched(), WatchEvent::Changed(Vec::new())) {
        WatchAction::Commit { projects, unknown } => {
            assert!(projects.is_empty());
            assert!(unknown.is_empty());
        }
        other => panic!("{other:?}"),
    }
}

#[test]
fn shutdown_leads_to_a_last_commit_of_everything() {
    match on_event(&watched(), WatchEvent::Shutdown) {
        WatchAction::Finish { projects } => {
            assert_eq!(
                labels(&projects),
                vec!["spike: a.llsp3", "mindstorms: b.lms", "spike: c.llsp3"]
            );
        }
        other => panic!("{other:?}"),
    }
    assert_eq!(all_watched(&watched()).len(), 3);
}

#[test]
fn watch_error_is_shown() {
    match on_event(&watched(), WatchEvent::Failed("too many watches".to_string())) {
        WatchAction::Report(text) => assert_eq!(text, "too many watches"),
        other => panic!("{other:?}"),
    }
}

#[test]
fn watched_path_has_its_project() {
    let w = watched();
    assert_eq!(lookup(&w, &"/m/b.lms".to_string()).unwrap().label(), "mindstorms: b.lms");
    assert!(lookup(&w, &"/m/b".to_string()).is_none());
    assert_eq!(commit_message(), "Update tracked projects via auto-commit");
}
