use mind_meld::local::{all_projects, projects};
use mind_meld::archive::ReadError;
use mind_meld::commit::{commit, reversed, sort_reads};
use mind_meld::config::{config_path, get_config_path, Config, StoreConfig};
use mind_meld::dirs::{Dirs, Platform};
use mind_meld::project::{
    all_programs, dir, ArchiveEntry, ArchiveEntryContents, Program, ProjectID, RawArchive,
    RawProject,
};
use mind_meld::store;

fn init_repo(path: &std::path::Path) {
    gix::init_bare(path).unwrap();
    let mut config = tempfile::NamedTempFile::new_in(path).unwrap();
    std::io::Write::write_all(
        &mut config,
        b"[core]\n\trepositoryformatversion = 0\n\tbare = true\n[user]\n\tname = Tester\n\temail = tester@example.com\n",
    )
    .unwrap();
    config.persist(path.join("config")).unwrap();
}

fn project(marker: &[u8]) -> RawProject {
    RawProject {
        archive: RawArchive {
            entries: vec![ArchiveEntry {
                name: "main.py".to_string(),
                contents: ArchiveEntryContents::Data(marker.to_vec()),
            }],
        },
    }
}

fn config(mindstorms: Option<&str>, spike: Option<&str>) -> Config {
    Config {
        stores: Vec::new(),
        mindstorms_path: mindstorms.map(str::to_string),
        spike_path: spike.map(str::to_string),
        config_path: None,
    }
}

#[test]
fn default_config_is_empty() {
    let cfg = Config::default();
    assert!(cfg.stores.is_empty());
    assert_eq!(cfg.mindstorms_path, None);
    assert_eq!(cfg.spike_path, None);
    assert_eq!(cfg.config_path, None);
}

#[test]
fn config_file_is_the_one_asked_for_or_the_default() {
    assert_eq!(get_config_path(Some("my.toml"), Some("/cfg".to_string())).unwrap(), "my.toml");
    assert_eq!(get_config_path(Some("my.toml"), None).unwrap(), "my.toml");
    assert_eq!(get_config_path(None, Some("/cfg".to_string())).unwrap(), "/cfg/mind-meld.toml");
    assert_eq!(get_config_path(None, None).err().unwrap(), "No config dir found");
    assert_eq!(config_path(Some("/home/u/.config".to_string())).unwrap(), "/home/u/.config/mind-meld.toml");
    assert_eq!(config_path(None), None);
}

#[test]
fn dirs_come_from_the_config_first() {
    let dirs = Dirs::new(&config(Some("/m"), Some("/s")), Platform::MacOs, None).unwrap();
    assert_eq!(dirs.mindstorms, "/m");
    assert_eq!(dirs.spike, "/s");
    let dirs = Dirs::new(&config(None, Some("/s")), Platform::MacOs, Some("/Users/u")).unwrap();
    assert_eq!(
        dirs.mindstorms,
        "/Users/u/Library/Containers/com.lego.retail.mindstorms.robotinventor/Data/Documents/LEGO MINDSTORMS"
    );
    assert_eq!(dirs.spike, "/s");
}

#[test]
fn dirs_default_below_the_home_directory() {
    let dirs = Dirs::new(&config(None, None), Platform::MacOs, Some("/Users/u")).unwrap();
    assert_eq!(
        dirs.spike,
        "/Users/u/Library/Containers/com.lego.education.spikenext/Data/Documents/LEGO Education SPIKE"
    );
    let dirs = Dirs::new(&config(None, None), Platform::Windows, Some("C:/Users/u")).unwrap();
    assert_eq!(dirs.mindstorms, "C:/Users/u/Documents/LEGO MINDSTORMS");
    assert_eq!(dirs.spike, "C:/Users/u/Documents/LEGO MINDSTORMS");
}

#[test]
fn dirs_need_a_home_directory_for_defaults() {
    let err = Dirs::new(&config(Some("/m"), None), Platform::Windows, None).err().unwrap();
    assert_eq!(err, "could not determine home directory");
    assert!(Dirs::new(&config(None, Some("/s")), Platform::MacOs, None).is_err());
}

#[test]
fn programs_and_their_directories() {
    let dirs = Dirs { mindstorms: "/m".to_string(), spike: "/s".to_string() };
    let all = all_programs(&dirs);
    assert_eq!(all.len(), 2);
    assert_eq!(all[0], (Program::Mindstorms, &"/m".to_string()));
    assert_eq!(all[1], (Program::Spike, &"/s".to_string()));
    assert_eq!(dir(Program::Spike, &dirs), "/s");
    assert_eq!(dir(Program::Mindstorms, &dirs), "/m");
    assert_eq!(ProjectID::new(Program::Spike, "a b.llsp3").path(&dirs), "/s/a b.llsp3");
    assert_eq!(Program::Mindstorms.as_str(), "mindstorms");
    assert_eq!(Program::Spike.as_str(), "spike");
}

#[test]
fn project_ids_compare_by_program_and_name() {
    let a = ProjectID::new(Program::Spike, "a");
    assert!(a == a.clone());
    assert!(a.same(&ProjectID::new(Program::Spike, "a")));
    assert!(a != ProjectID::new(Program::Mindstorms, "a"));
    assert!(!a.same(&ProjectID::new(Program::Spike, "b")));
}

#[test]
fn local_projects_are_listed_by_program() {
    let m = vec!["one.lms".to_string(), "two.lms".to_string()];
    let s = vec!["three.llsp3".to_string()];
    let labels: Vec<String> = all_projects(&m, &s).iter().map(|id| id.label()).collect();
    assert_eq!(labels, vec!["mindstorms: one.lms", "mindstorms: two.lms", "spike: three.llsp3"]);
    assert!(all_projects(&Vec::new(), &Vec::new()).is_empty());
    assert_eq!(projects(Program::Spike, &s)[0].store_path(), "spike/three.llsp3");
}

#[test]
fn reversed_turns_a_list_round() {
    assert_eq!(reversed(vec![1, 2, 3]), vec![3, 2, 1]);
    assert_eq!(reversed(Vec::<u8>::new()), Vec::<u8>::new());
}

#[test]
fn local_copies_fall_into_three_lists() {
    let id = |n: &str| ProjectID::new(Program::Spike, n);
    let sorted = sort_reads(vec![
        (id("gone1"), Ok(None)),
        (id("here1"), Ok(Some(project(b"1")))),
        (id("bad"), Err(ReadError::Io("no".to_string()))),
        (id("here2"), Ok(Some(project(b"2")))),
        (id("gone2"), Ok(None)),
    ]);
    let found: Vec<&str> = sorted.found.iter().map(|p| p.0.name.as_str()).collect();
    let missing: Vec<&str> = sorted.missing.iter().map(|p| p.name.as_str()).collect();
    let unreadable: Vec<&str> = sorted.unreadable.iter().map(|p| p.0.name.as_str()).collect();
    assert_eq!(found, vec!["here1", "here2"]);
    assert_eq!(missing, vec!["gone1", "gone2"]);
    assert_eq!(unreadable, vec!["bad"]);
    assert_eq!(sorted.unreadable[0].1.message(), "no");
    assert!(matches!(&sorted.unreadable[0].1, ReadError::Io(m) if m == "no"));
}

#[test]
fn commit_goes_to_every_store() {
    let dir = tempfile::tempdir().unwrap();
    let open = |name: &str| {
        let path = dir.path().join(name);
        if !path.exists() {
            init_repo(&path);
        }
        store::create("git", path.to_str().unwrap()).unwrap()
    };
    let one = open("one");
    let two = open("two");
    let a = ProjectID::new(Program::Spike, "a.llsp3");
    two.commit(&vec![(a.clone(), project(b"a"))], "before").unwrap();
    let stores = vec![(one.config(), one), (two.config(), two)];
    let reads = vec![
        (a.clone(), Ok(Some(project(b"a")))),
        (ProjectID::new(Program::Spike, "gone.llsp3"), Ok(None)),
        (ProjectID::new(Program::Mindstorms, "bad.lms"), Err(ReadError::Io("unreadable".to_string()))),
    ];
    let res = commit(&stores, reads, "Update tracked projects");
    assert_eq!(res.missing_projects.len(), 1);
    assert_eq!(res.missing_projects[0].label(), "spike: gone.llsp3");
    assert_eq!(res.project_read_errors.len(), 1);
    assert_eq!(res.project_read_errors[0].0.label(), "mindstorms: bad.lms");
    assert_eq!(res.project_read_errors[0].1.message(), "unreadable");
    assert_eq!(res.store_results.len(), 2);
    assert_eq!(res.store_results[0].0.path, stores[0].0.path);
    assert_eq!(*res.store_results[0].1.as_ref().unwrap(), "added");
    assert_eq!(res.store_results[1].0.path, stores[1].0.path);
    assert_eq!(*res.store_results[1].1.as_ref().unwrap(), "already up to date");
    assert!(stores[0].1.read_project(&a).unwrap().is_some());
}

#[test]
fn store_config_copies_are_equal() {
    let cfg = StoreConfig { path: "p".to_string(), store_type: "git".to_string() };
    let copy = cfg.clone();
    assert_eq!(copy.path, "p");
    assert_eq!(copy.store_type, "git");
}

#[test]
fn flags_choose_the_program() {
    assert_eq!(mind_meld::cli::program_choice(true, false), Some(Program::Spike));
    assert_eq!(mind_meld::cli::program_choice(false, true), Some(Program::Mindstorms));
    assert_eq!(mind_meld::cli::program_choice(true, true), None);
    assert_eq!(mind_meld::cli::program_choice(false, false), None);
}

#[test]
fn untracked_projects_are_the_local_ones_that_no_store_holds() {
    let id = |n: &str| ProjectID::new(Program::Spike, n);
    let local = vec![id("a"), id("b"), ProjectID::new(Program::Mindstorms, "a"), id("c")];
    let stored = vec![id("c"), id("a"), id("gone")];
    let left: Vec<String> =
        mind_meld::status::untracked(&local, &stored).iter().map(|p| p.label()).collect();
    assert_eq!(left, vec!["spike: b", "mindstorms: a"]);
    assert!(mind_meld::status::holds(&stored, &id("gone")));
    assert!(!mind_meld::status::holds(&stored, &id("b")));
}

#[test]
fn the_store_to_work_on() {
    let cfg = |p: &str| StoreConfig { path: p.to_string(), store_type: "git".to_string() };
    let none: Vec<StoreConfig> = Vec::new();
    assert!(matches!(store::get_single_store(&none, None), Err(store::SelectError::NoStores)));
    assert!(matches!(store::get_single_store(&none, Some("x")), Err(store::SelectError::NoStores)));
    let one = vec![cfg("repos/one")];
    assert!(matches!(store::get_single_store(&one, None), Ok(0)));
    let two = vec![cfg("repos/one"), cfg("repos/two")];
    assert!(matches!(store::get_single_store(&two, None), Err(store::SelectError::Ambiguous)));
    assert!(matches!(store::get_single_store(&two, Some("repos/two/")), Ok(1)));
    assert!(matches!(
        store::get_single_store(&two, Some("repos/three")),
        Err(store::SelectError::NotFound(p)) if p == "repos/three"
    ));
    assert_eq!(store::find_store(&two, "repos//two"), Some(1));
    assert_eq!(store::find_store(&two, "repos"), None);
}

#[test]
fn stores_at_a_path_are_taken_out() {
    let cfg = |p: &str| StoreConfig { path: p.to_string(), store_type: "git".to_string() };
    let (kept, removed) =
        store::remove_stores(vec![cfg("a"), cfg("b"), cfg("./a"), cfg("c"), cfg("a/")], "a");
    let paths = |v: &Vec<StoreConfig>| v.iter().map(|c| c.path.clone()).collect::<Vec<_>>();
    assert_eq!(paths(&kept), vec!["b", "c"]);
    assert_eq!(paths(&removed), vec!["a", "./a", "a/"]);
}
