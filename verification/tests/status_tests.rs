use mind_meld::archive::ReadError;
use mind_meld::project::{
    ArchiveEntry, ArchiveEntryContents, Program, ProjectID, RawArchive, RawProject,
};
use mind_meld::status::{compare, get_status, in_sync, summary, Status};
use mind_meld::store;

fn init_repo(path: &std::path::Path) {
    gix::init_bare(path).unwrap();
    let mut config = tempfile::NamedTempFile::new_in(path).unwrap();
    std::io::Write::write_all(
        &mut config,
        b"[core]\n\trepositoryformatversion = 0\n\tbare = true\n[user]\n\tname = Tester\n\temail = tester@example.com\n",
    )
    .unwrap();
    config.persist(path.join("config")).unwrap();
}

fn data(name: &str, bytes: &[u8]) -> ArchiveEntry {
    ArchiveEntry { name: name.to_string(), contents: ArchiveEntryContents::Data(bytes.to_vec()) }
}

fn nested(name: &str, entries: Vec<ArchiveEntry>) -> ArchiveEntry {
    ArchiveEntry {
        name: name.to_string(),
        contents: ArchiveEntryContents::Archive(RawArchive { entries }),
    }
}

fn project(entries: Vec<ArchiveEntry>) -> RawProject {
    RawProject { archive: RawArchive { entries } }
}

#[test]
fn hash_has_the_expected_values() {
    assert_eq!(project(vec![]).hash(), 12638153115695167455);
    assert_eq!(project(vec![data("a", &[1, 2])]).hash(), 12626788938376343791);
    assert_eq!(
        project(vec![data("a", &[1, 2]), nested("scratch.sb3", vec![data("p", b"{}")])]).hash(),
        16432114376255987902
    );
}

#[test]
fn hash_tells_nested_from_bytes() {
    assert_eq!(project(vec![nested("scratch.sb3", vec![])]).hash(), 3280758884423167004);
    assert_eq!(project(vec![data("scratch.sb3", b"")]).hash(), 3281715459539521349);
}

#[test]
fn hash_depends_on_names_order_and_contents() {
    let base = project(vec![data("a", b"1"), data("b", b"2")]).hash();
    assert_eq!(base, project(vec![data("a", b"1"), data("b", b"2")]).hash());
    assert_ne!(base, project(vec![data("b", b"2"), data("a", b"1")]).hash());
    assert_ne!(base, project(vec![data("a", b"1"), data("c", b"2")]).hash());
    assert_ne!(base, project(vec![data("a", b"1"), data("b", b"3")]).hash());
    assert_ne!(base, project(vec![data("a", b"1")]).hash());
}

#[test]
fn in_sync_needs_a_copy_with_the_same_hash() {
    let local = project(vec![data("a", b"1")]);
    let hash = local.hash();
    assert!(in_sync(hash, &Ok(Some(project(vec![data("a", b"1")])))));
    assert!(!in_sync(hash, &Ok(Some(project(vec![data("a", b"2")])))));
    assert!(!in_sync(hash, &Ok(None)));
    assert!(!in_sync(hash, &Err(mind_meld::error::StoreError::InvalidHeadRef)));
}

#[test]
fn summary_of_no_difference() {
    assert!(matches!(summary(vec![]), Status::NoDifferences));
    assert!(matches!(summary(vec![0, 2]), Status::Differences(d) if d == vec![0, 2]));
}

#[test]
fn status_compares_every_store() {
    let dir = tempfile::tempdir().unwrap();
    let open = |name: &str| {
        let path = dir.path().join(name);
        if !path.exists() {
            init_repo(&path);
        }
        store::create("git", path.to_str().unwrap()).unwrap()
    };
    let id = ProjectID::new(Program::Spike, "a.llsp3");
    let same = open("same");
    same.commit(&vec![(id.clone(), project(vec![data("a", b"1")]))], "m").unwrap();
    let stale = open("stale");
    stale.commit(&vec![(id.clone(), project(vec![data("a", b"0")]))], "m").unwrap();
    let empty = open("empty");
    let stores = vec![stale, same, empty];

    let status = get_status(&id, &stores, Ok(Some(project(vec![data("a", b"1")])))).unwrap();
    assert!(matches!(status, Status::Differences(d) if d == vec![0, 2]));

    let one = vec![open("same")];
    let status = get_status(&id, &one, Ok(Some(project(vec![data("a", b"1")])))).unwrap();
    assert!(matches!(status, Status::NoDifferences));

    assert!(matches!(get_status(&id, &stores, Ok(None)).unwrap(), Status::LocalMissing));
    let err = get_status(&id, &stores, Err(ReadError::Io("broken".to_string()))).err().unwrap();
    assert_eq!(err.message(), "broken");
    let none: Vec<store::Store> = Vec::new();
    let status = get_status(&id, &none, Ok(Some(project(vec![])))).unwrap();
    assert!(matches!(status, Status::NoDifferences));
}

#[test]
fn copies_are_compared_with_the_local_one() {
    let local = project(vec![data("a", &[1])]);
    let hash = local.hash();
    let same = || Ok(Some(project(vec![data("a", &[1])])));
    let other = || Ok(Some(project(vec![data("a", &[2])])));
    let failed = || Err(mind_meld::error::StoreError::Backend("unreadable".to_string()));
    assert!(matches!(compare(hash, &vec![]), Status::NoDifferences));
    assert!(matches!(compare(hash, &vec![same(), same()]), Status::NoDifferences));
    assert!(matches!(compare(hash, &vec![Ok(None)]), Status::Differences(d) if d == vec![0]));
    assert!(matches!(
        compare(hash, &vec![same(), Ok(None), same(), other(), failed()]),
        Status::Differences(d) if d == vec![1, 3, 4]
    ));
}

#[test]
fn store_without_a_copy_is_out_of_sync() {
    let dir = tempfile::tempdir().unwrap();
    let path = dir.path().join("empty");
    let stores = vec![store::create("git", path.to_str().unwrap()).unwrap()];
    let id = ProjectID::new(Program::Spike, "a");
    let status = get_status(&id, &stores, Ok(Some(project(vec![data("a", &[1])])))).unwrap();
    assert!(matches!(status, Status::Differences(d) if d == vec![0]));
}
