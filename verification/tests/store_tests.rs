use mind_meld::config::{Config, StoreConfig};
use mind_meld::error::StoreError;
use mind_meld::project::{
    ArchiveEntry, ArchiveEntryContents, Program, ProjectID, RawArchive, RawProject,
};
use mind_meld::store::{self, LogResult, Store};
use mind_meld::track::track;
use mind_meld::untrack::untrack;

fn data(name: &str, bytes: &[u8]) -> ArchiveEntry {
    ArchiveEntry { name: name.to_string(), contents: ArchiveEntryContents::Data(bytes.to_vec()) }
}

fn nested(name: &str, entries: Vec<ArchiveEntry>) -> ArchiveEntry {
    ArchiveEntry {
        name: name.to_string(),
        contents: ArchiveEntryContents::Archive(RawArchive { entries }),
    }
}

fn project(marker: &[u8]) -> RawProject {
    RawProject {
        archive: RawArchive {
            entries: vec![
                data("icon.svg", b"<svg/>"),
                data("info.json", marker),
                nested("scratch.sb3", vec![data("project.json", b"{}"), data("sound.mp3", &[0xff, 0xfb])]),
            ],
        },
    }
}

fn init_repo(path: &std::path::Path) {
    gix::init_bare(path).unwrap();
    let mut config = tempfile::NamedTempFile::new_in(path).unwrap();
    std::io::Write::write_all(
        &mut config,
        b"[core]\n\trepositoryformatversion = 0\n\tbare = true\n[user]\n\tname = Tester\n\temail = tester@example.com\n",
    )
    .unwrap();
    config.persist(path.join("config")).unwrap();
}

fn new_store(dir: &tempfile::TempDir, name: &str) -> Store {
    let path = dir.path().join(name);
    if !path.exists() {
        init_repo(&path);
    }
    store::create("git", path.to_str().unwrap()).unwrap()
}

fn now() -> i64 {
    std::time::SystemTime::now().duration_since(std::time::UNIX_EPOCH).unwrap().as_secs() as i64
}

fn commits(store: &Store, since: i64) -> Vec<mind_meld::store::CommitInfo> {
    match store.log(since).unwrap() {
        LogResult::Commits(c) => c,
        other => panic!("expected commits, got {other:?}"),
    }
}

fn names(ids: &[ProjectID]) -> Vec<String> {
    ids.iter().map(|id| id.label()).collect()
}

#[test]
fn commit_twice_is_idempotent() {
    let dir = tempfile::tempdir().unwrap();
    let store = new_store(&dir, "repo");
    let id = ProjectID::new(Program::Spike, "a.llsp3");
    let projects = vec![(id.clone(), project(b"one"))];
    assert_eq!(store.commit(&projects, "first").unwrap(), "added");
    let before = commits(&store, 0);
    assert_eq!(store.commit(&projects, "second").unwrap(), "already up to date");
    let after = commits(&store, 0);
    assert_eq!(before.len(), 1);
    assert_eq!(after.len(), 1);
    assert_eq!(before[0].hash, after[0].hash);
    assert_eq!(after[0].message, "first");
}

#[test]
fn commit_of_nothing_is_no_commit() {
    let dir = tempfile::tempdir().unwrap();
    let store = new_store(&dir, "repo");
    assert_eq!(store.commit(&Vec::new(), "nothing").unwrap(), "already up to date");
    assert!(matches!(store.log(0).unwrap(), LogResult::Unborn));
}

#[test]
fn read_project_gives_back_what_was_committed() {
    let dir = tempfile::tempdir().unwrap();
    let store = new_store(&dir, "repo");
    let id = ProjectID::new(Program::Mindstorms, "Project 1.lms");
    let wanted = project(b"{\"type\":\"python\"}");
    assert_eq!(store.commit(&vec![(id.clone(), project(b"{\"type\":\"python\"}"))], "m").unwrap(), "added");
    let back = store.read_project(&id).unwrap().expect("the project is there");
    assert_eq!(format!("{:?}", back), format!("{:?}", wanted));
    assert_eq!(back.hash(), wanted.hash());
}

#[test]
fn read_project_of_unknown_project_is_none() {
    let dir = tempfile::tempdir().unwrap();
    let store = new_store(&dir, "repo");
    let id = ProjectID::new(Program::Spike, "a.llsp3");
    assert!(store.read_project(&id).unwrap().is_none());
    store.commit(&vec![(id.clone(), project(b"x"))], "m").unwrap();
    let other = ProjectID::new(Program::Mindstorms, "a.llsp3");
    assert!(store.read_project(&other).unwrap().is_none());
}

#[test]
fn project_ids_lists_two_levels() {
    let dir = tempfile::tempdir().unwrap();
    let store = new_store(&dir, "repo");
    assert!(store.project_ids().unwrap().is_empty());
    let a = ProjectID::new(Program::Spike, "a.llsp3");
    let b = ProjectID::new(Program::Mindstorms, "b.lms");
    store.commit(&vec![(a.clone(), project(b"a")), (b.clone(), project(b"b"))], "m").unwrap();
    let ids = store.project_ids().unwrap();
    assert_eq!(names(&ids), vec!["mindstorms: b.lms", "spike: a.llsp3"]);
}

#[test]
fn log_reports_changed_projects() {
    let dir = tempfile::tempdir().unwrap();
    let store = new_store(&dir, "repo");
    let a = ProjectID::new(Program::Spike, "a.llsp3");
    let b = ProjectID::new(Program::Spike, "b.llsp3");
    assert_eq!(store.commit(&vec![(a.clone(), project(b"a"))], "add a").unwrap(), "added");
    assert_eq!(
        store.commit(&vec![(a.clone(), project(b"a")), (b.clone(), project(b"b"))], "add b").unwrap(),
        "added"
    );
    assert_eq!(store.untrack(&a, "remove a").unwrap(), "removed");
    let log = commits(&store, 0);
    assert_eq!(log.len(), 3);
    let mut seen: Vec<(String, Vec<String>)> =
        log.iter().map(|c| (c.message.clone(), names(&c.changed_projects))).collect();
    seen.sort();
    assert_eq!(
        seen,
        vec![
            ("add a".to_string(), vec!["spike: a.llsp3".to_string()]),
            ("add b".to_string(), vec!["spike: b.llsp3".to_string()]),
            ("remove a".to_string(), vec!["spike: a.llsp3".to_string()]),
        ]
    );
    assert_eq!(log[0].message, "remove a");
    assert_eq!(names(&store.project_ids().unwrap()), vec!["spike: b.llsp3"]);
}

#[test]
fn log_reports_a_changed_content() {
    let dir = tempfile::tempdir().unwrap();
    let store = new_store(&dir, "repo");
    let a = ProjectID::new(Program::Spike, "a.llsp3");
    let b = ProjectID::new(Program::Mindstorms, "b.lms");
    store.commit(&vec![(a.clone(), project(b"a")), (b.clone(), project(b"b"))], "both").unwrap();
    assert_eq!(store.commit(&vec![(b.clone(), project(b"b2"))], "edit b").unwrap(), "added");
    let log = commits(&store, 0);
    assert_eq!(log.len(), 2);
    assert_eq!(log[0].message, "edit b");
    assert_eq!(names(&log[0].changed_projects), vec!["mindstorms: b.lms"]);
    assert_eq!(names(&log[1].changed_projects), vec!["mindstorms: b.lms", "spike: a.llsp3"]);
}

#[test]
fn untrack_of_unknown_project_is_no_commit() {
    let dir = tempfile::tempdir().unwrap();
    let store = new_store(&dir, "repo");
    let a = ProjectID::new(Program::Spike, "a.llsp3");
    assert_eq!(store.untrack(&a, "never there").unwrap(), "not tracked");
    assert!(matches!(store.log(0).unwrap(), LogResult::Unborn));
    let b = ProjectID::new(Program::Spike, "b.llsp3");
    store.commit(&vec![(b.clone(), project(b"b"))], "add b").unwrap();
    assert_eq!(store.untrack(&a, "still not there").unwrap(), "not tracked");
    assert_eq!(commits(&store, 0).len(), 1);
}

#[test]
fn log_of_empty_store_is_unborn() {
    let dir = tempfile::tempdir().unwrap();
    let store = new_store(&dir, "repo");
    assert!(matches!(store.log(now() - 86400).unwrap(), LogResult::Unborn));
}

#[test]
fn log_of_old_commit_names_the_newest() {
    let dir = tempfile::tempdir().unwrap();
    let store = new_store(&dir, "repo");
    let a = ProjectID::new(Program::Spike, "a.llsp3");
    store.commit(&vec![(a.clone(), project(b"a"))], "add a").unwrap();
    match store.log(now() + 3600).unwrap() {
        LogResult::Older(newest) => {
            assert_eq!(newest.message, "add a");
            assert_eq!(names(&newest.changed_projects), vec!["spike: a.llsp3"]);
            assert!(newest.date < now() + 3600);
        }
        other => panic!("expected the newest commit, got {other:?}"),
    }
}

#[test]
fn log_stops_at_the_cutoff() {
    let dir = tempfile::tempdir().unwrap();
    let store = new_store(&dir, "repo");
    let a = ProjectID::new(Program::Spike, "a.llsp3");
    store.commit(&vec![(a.clone(), project(b"1"))], "first").unwrap();
    let first = commits(&store, 0)[0].date;
    let wait = std::time::Instant::now();
    while now() <= first + 1 {
        assert!(wait.elapsed().as_secs() < 10);
    }
    let store = store::open(&store.config()).unwrap();
    store.commit(&vec![(a.clone(), project(b"2"))], "second").unwrap();
    store.commit(&vec![(a.clone(), project(b"3"))], "third").unwrap();
    let all = commits(&store, first);
    assert_eq!(all.len(), 3);
    let recent = commits(&store, first + 1);
    let messages: Vec<&str> = recent.iter().map(|c| c.message.as_str()).collect();
    assert_eq!(messages, vec!["third", "second"]);
    assert!(recent.iter().all(|c| c.date >= first + 1));
}

#[test]
fn create_opens_an_existing_store() {
    let dir = tempfile::tempdir().unwrap();
    let a = ProjectID::new(Program::Spike, "a.llsp3");
    {
        let store = new_store(&dir, "repo");
        store.commit(&vec![(a.clone(), project(b"a"))], "add a").unwrap();
    }
    let again = new_store(&dir, "repo");
    assert_eq!(names(&again.project_ids().unwrap()), vec!["spike: a.llsp3"]);
    let opened = store::open(&again.config()).unwrap();
    assert!(opened.read_project(&a).unwrap().is_some());
}

#[test]
fn open_fails_where_nothing_is() {
    let dir = tempfile::tempdir().unwrap();
    let cfg = StoreConfig {
        path: dir.path().join("missing").to_str().unwrap().to_string(),
        store_type: "git".to_string(),
    };
    let err = store::open(&cfg).err().unwrap();
    assert!(matches!(err, StoreError::Backend(_)));
    let err = store::open(&StoreConfig { path: String::new(), store_type: "git".to_string() }).err().unwrap();
    assert!(matches!(err, StoreError::InvalidPath(_)));
    let err = store::open(&StoreConfig { path: cfg.path.clone(), store_type: "".to_string() }).err().unwrap();
    assert!(matches!(&err, StoreError::InvalidStoreType(t) if t.is_empty()));
}

#[test]
fn unknown_store_type_is_refused() {
    let dir = tempfile::tempdir().unwrap();
    let path = dir.path().join("repo");
    let err = store::create("svn", path.to_str().unwrap()).err().unwrap();
    assert!(matches!(&err, StoreError::InvalidStoreType(t) if t == "svn"));
    assert_eq!(err.message(), "invalid store type: svn");
    assert!(matches!(store::store_type("git"), Ok(store::StoreType::Git)));
    assert!(store::store_type("Git").is_err());
}

fn foreign_repo(dir: &tempfile::TempDir, name: &str, entry: &str, as_tree: bool) -> StoreConfig {
    let path = dir.path().join(name);
    let mut repo = gix::init_bare(&path).unwrap();
    repo.committer_or_set_generic_fallback().unwrap();
    let blob = repo.write_blob(b"hello").unwrap().detach();
    let mut editor = repo.edit_tree(gix::ObjectId::empty_tree(gix::hash::Kind::Sha1)).unwrap();
    let at = if as_tree { format!("{entry}/file") } else { entry.to_string() };
    editor.upsert(at, gix::objs::tree::EntryKind::Blob, blob).unwrap();
    let tree = editor.write().unwrap().detach();
    let who = gix::actor::SignatureRef { name: "t".into(), email: "t@example.com".into(), time: "0 +0000" };
    repo.commit_as(who, who, "HEAD", "foreign", tree, Vec::<gix::ObjectId>::new()).unwrap();
    StoreConfig { path: path.to_str().unwrap().to_string(), store_type: "git".to_string() }
}

#[test]
fn foreign_root_entry_is_refused() {
    let dir = tempfile::tempdir().unwrap();
    let cfg = foreign_repo(&dir, "blob", "README.md", false);
    let err = store::open(&cfg).err().unwrap();
    assert!(matches!(&err, StoreError::ForeignEntry(n) if n == "README.md"));
    assert!(err.message().contains("README.md"));

    let cfg = foreign_repo(&dir, "tree", "src", true);
    let err = store::open(&cfg).err().unwrap();
    assert!(matches!(&err, StoreError::ForeignEntry(n) if n == "src"));
    let err = store::create("git", &cfg.path).err().unwrap();
    assert!(matches!(&err, StoreError::ForeignEntry(n) if n == "src"));
    assert!(!store::may_create(&err));
    assert!(store::may_create(&StoreError::Backend("nothing there".to_string())));
}

#[test]
fn program_directories_at_the_root_are_accepted() {
    let dir = tempfile::tempdir().unwrap();
    let cfg = foreign_repo(&dir, "ok", "spike", true);
    let store = store::open(&cfg).unwrap();
    assert_eq!(names(&store.project_ids().unwrap()), vec!["spike: file"]);
}

fn config_of(paths: Vec<String>) -> Config {
    Config {
        stores: paths.into_iter().map(|path| StoreConfig { path, store_type: "git".to_string() }).collect(),
        mindstorms_path: None,
        spike_path: None,
        config_path: None,
    }
}

#[test]
fn track_reports_each_store() {
    let dir = tempfile::tempdir().unwrap();
    let good = new_store(&dir, "good").config();
    let bad = dir.path().join("missing").to_str().unwrap().to_string();
    let res = track(
        config_of(vec![good.path.clone(), bad.clone()]),
        Program::Spike,
        "a.llsp3",
        Ok(Some(project(b"a"))),
    )
    .unwrap();
    assert_eq!(res.id.label(), "spike: a.llsp3");
    assert_eq!(res.store_results.len(), 2);
    assert_eq!(res.store_results[0].0.path, bad);
    assert!(res.store_results[0].1.is_err());
    assert_eq!(res.store_results[1].0.path, good.path);
    assert_eq!(*res.store_results[1].1.as_ref().unwrap(), "added");
    let store = store::open(&good).unwrap();
    assert!(store.read_project(&res.id).unwrap().is_some());
    let log = commits(&store, 0);
    assert_eq!(log[0].message, "Start tracking spike: a.llsp3");
}

#[test]
fn track_needs_the_local_file() {
    let dir = tempfile::tempdir().unwrap();
    let good = new_store(&dir, "good").config();
    let err = track(config_of(vec![good.path.clone()]), Program::Spike, "a.llsp3", Ok(None)).err().unwrap();
    assert_eq!(err.message(), "Project file not found: a.llsp3");
    let store = store::open(&good).unwrap();
    assert!(matches!(store.log(0).unwrap(), LogResult::Unborn));
}

#[test]
fn untrack_reports_each_store() {
    let dir = tempfile::tempdir().unwrap();
    let good = new_store(&dir, "good").config();
    let empty = new_store(&dir, "empty").config();
    let bad = dir.path().join("missing").to_str().unwrap().to_string();
    track(config_of(vec![good.path.clone()]), Program::Mindstorms, "b.lms", Ok(Some(project(b"b")))).unwrap();
    let res = untrack(
        config_of(vec![bad.clone(), good.path.clone(), empty.path.clone()]),
        Program::Mindstorms,
        "b.lms",
    )
    .unwrap();
    assert_eq!(res.store_results.len(), 3);
    assert_eq!(res.store_results[0].0.path, bad);
    assert!(res.store_results[0].1.is_err());
    assert_eq!(*res.store_results[1].1.as_ref().unwrap(), "removed");
    assert_eq!(*res.store_results[2].1.as_ref().unwrap(), "not tracked");
    let store = store::open(&good).unwrap();
    assert!(store.read_project(&res.id).unwrap().is_none());
    assert_eq!(commits(&store, 0)[0].message, "Stop tracking mindstorms: b.lms");
}

#[test]
fn open_all_keeps_every_store() {
    let dir = tempfile::tempdir().unwrap();
    let one = new_store(&dir, "one").config();
    let two = new_store(&dir, "two").config();
    let bad = StoreConfig { path: dir.path().join("missing").to_str().unwrap().to_string(), store_type: "git".to_string() };
    let odd = StoreConfig { path: one.path.clone(), store_type: "hg".to_string() };
    let (ok, errs) = store::open_all(&vec![one.clone(), bad.clone(), two.clone(), odd.clone()]);
    let opened: Vec<&str> = ok.iter().map(|(c, _)| c.path.as_str()).collect();
    assert_eq!(opened, vec![one.path.as_str(), two.path.as_str()]);
    assert_eq!(errs.len(), 2);
    assert_eq!(errs[0].0.path, bad.path);
    assert_eq!(errs[1].0.store_type, "hg");
    assert_eq!(errs[1].1.message(), "invalid store type: hg");
}

#[test]
fn all_project_ids_holds_each_project_once() {
    let dir = tempfile::tempdir().unwrap();
    let one = new_store(&dir, "one");
    let two = new_store(&dir, "two");
    let a = ProjectID::new(Program::Spike, "a.llsp3");
    let b = ProjectID::new(Program::Spike, "b.llsp3");
    one.commit(&vec![(a.clone(), project(b"a"))], "a").unwrap();
    two.commit(&vec![(a.clone(), project(b"other")), (b.clone(), project(b"b"))], "ab").unwrap();
    let stores = vec![(one.config(), one), (two.config(), two)];
    let (ids, errs) = store::all_project_ids(&stores);
    assert!(errs.is_empty());
    let mut found = names(&ids);
    found.sort();
    assert_eq!(found, vec!["spike: a.llsp3", "spike: b.llsp3"]);
}

#[test]
fn paths_match_after_making_them_absolute() {
    assert!(store::paths_match("some/dir", "some/dir/"));
    assert!(store::paths_match("some//dir", "some/dir"));
    assert!(!store::paths_match("some/dir", "some/other"));
    assert!(!store::paths_match("", ""));
    let here = std::path::absolute("x").unwrap();
    assert!(store::paths_match("x", here.to_str().unwrap()));
}

#[test]
fn store_label_shows_path_and_type() {
    let cfg = StoreConfig { path: "a \"b\"".to_string(), store_type: "git".to_string() };
    assert_eq!(cfg.label(), "\"a \\\"b\\\"\" (git)");
}

fn tower(levels: usize) -> RawProject {
    let mut archive = RawArchive { entries: vec![data("leaf", b"x")] };
    for _ in 0..levels {
        archive = RawArchive { entries: vec![nested("n", archive.entries)] };
    }
    RawProject { archive }
}

fn height(archive: &RawArchive) -> usize {
    match archive.entries.first().map(|e| &e.contents) {
        Some(ArchiveEntryContents::Archive(inner)) => 1 + height(inner),
        _ => 0,
    }
}

#[test]
fn trees_are_read_down_to_the_depth_limit() {
    let dir = tempfile::tempdir().unwrap();
    let store = new_store(&dir, "repo");
    let fits = ProjectID::new(Program::Spike, "fits");
    let deep = ProjectID::new(Program::Spike, "deep");
    let limit = mind_meld::store::git::MAX_DEPTH;
    store.commit(&vec![(fits.clone(), tower(limit)), (deep.clone(), tower(limit + 1))], "towers").unwrap();
    let back = store.read_project(&fits).unwrap().unwrap();
    assert_eq!(height(&back.archive), limit);
    let err = store.read_project(&deep).err().unwrap();
    assert!(matches!(err, StoreError::TooDeep));
}

#[test]
fn empty_path_is_refused() {
    let err = store::create("git", "").err().unwrap();
    assert!(matches!(err, StoreError::InvalidPath(_)));
    assert!(err.message().starts_with("invalid path: "));
}

#[test]
fn detached_head_is_refused_on_writes() {
    let dir = tempfile::tempdir().unwrap();
    let store = new_store(&dir, "repo");
    let a = ProjectID::new(Program::Spike, "a.llsp3");
    store.commit(&vec![(a.clone(), project(b"a"))], "add a").unwrap();
    let repo = gix::open(store.config().path).unwrap();
    let head = repo.head_commit().unwrap().id;
    repo.edit_reference(gix::refs::transaction::RefEdit {
        change: gix::refs::transaction::Change::Update {
            log: Default::default(),
            expected: gix::refs::transaction::PreviousValue::Any,
            new: gix::refs::Target::Object(head),
        },
        name: "HEAD".try_into().unwrap(),
        deref: false,
    })
    .unwrap();
    let err = store.commit(&vec![(a.clone(), project(b"b"))], "edit a").err().unwrap();
    assert!(matches!(err, StoreError::InvalidHeadRef));
    assert_eq!(err.message(), "invalid head ref");
    assert!(matches!(store.untrack(&a, "remove a"), Err(StoreError::InvalidHeadRef)));
    assert!(store.read_project(&a).unwrap().is_some());
}

#[test]
fn foreign_directory_in_the_history_fails_the_log() {
    let dir = tempfile::tempdir().unwrap();
    let cfg = foreign_repo(&dir, "repo", "src", true);
    let repo = gix::open(&cfg.path).unwrap();
    let first = repo.head_commit().unwrap();
    let blob = repo.write_blob(b"hello").unwrap().detach();
    let mut editor = repo.edit_tree(first.tree_id().unwrap().detach()).unwrap();
    editor.remove("src").unwrap();
    editor.upsert("spike/a", gix::objs::tree::EntryKind::Blob, blob).unwrap();
    let tree = editor.write().unwrap().detach();
    let who = gix::actor::SignatureRef { name: "t".into(), email: "t@example.com".into(), time: "10 +0000" };
    repo.commit_as(who, who, "HEAD", "clean up", tree, vec![first.id]).unwrap();
    let store = store::open(&cfg).unwrap();
    assert_eq!(names(&store.project_ids().unwrap()), vec!["spike: a"]);
    let err = store.log(0).err().unwrap();
    assert!(matches!(&err, StoreError::InvalidProgram(n) if n == "src"));
    assert_eq!(err.message(), "invalid program src");
}

#[test]
fn create_makes_a_store_where_none_is() {
    let dir = tempfile::tempdir().unwrap();
    let path = dir.path().join("fresh");
    let store = store::create("git", path.to_str().unwrap()).unwrap();
    assert!(store.project_ids().unwrap().is_empty());
    assert!(matches!(store.log(0).unwrap(), LogResult::Unborn));
    assert!(store.read_project(&ProjectID::new(Program::Spike, "a")).unwrap().is_none());
    assert_eq!(store.commit(&Vec::new(), "nothing").unwrap(), "already up to date");
    let again = store::open(&store.config()).unwrap();
    assert!(again.project_ids().unwrap().is_empty());
}
