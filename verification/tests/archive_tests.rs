use mind_meld::archive::{read, ArchiveError, ReadError, MAX_NESTING};
use mind_meld::project::{ArchiveEntry, ArchiveEntryContents, RawArchive};
use std::io::Write;

fn container(members: &[(&str, &[u8])]) -> Vec<u8> {
    let mut writer = zip::ZipWriter::new(std::io::Cursor::new(Vec::new()));
    for (name, bytes) in members {
        writer.start_file(*name, zip::write::SimpleFileOptions::default()).unwrap();
        writer.write_all(bytes).unwrap();
    }
    writer.finish().unwrap().into_inner()
}

fn bytes_of(entry: &ArchiveEntry) -> &[u8] {
    match &entry.contents {
        ArchiveEntryContents::Data(d) => d,
        ArchiveEntryContents::Archive(_) => panic!("{} is nested", entry.name),
    }
}

fn members_of(entry: &ArchiveEntry) -> &RawArchive {
    match &entry.contents {
        ArchiveEntryContents::Archive(a) => a,
        ArchiveEntryContents::Data(_) => panic!("{} holds bytes", entry.name),
    }
}

#[test]
fn container_is_decoded_in_member_order() {
    let bytes = container(&[("z.txt", b"last first"), ("a.txt", b""), ("m.bin", &[0, 1, 2, 255])]);
    let archive = RawArchive::read(bytes, 0).unwrap();
    let names: Vec<&str> = archive.entries.iter().map(|e| e.name.as_str()).collect();
    assert_eq!(names, vec!["z.txt", "a.txt", "m.bin"]);
    assert_eq!(bytes_of(&archive.entries[0]), b"last first");
    assert_eq!(bytes_of(&archive.entries[1]), b"");
    assert_eq!(bytes_of(&archive.entries[2]), &[0, 1, 2, 255]);
}

#[test]
fn nested_container_is_decoded() {
    let inner = container(&[("project.json", b"{\"targets\":[]}"), ("1.svg", b"<svg/>")]);
    let outer = container(&[("icon.svg", b"<svg/>"), ("scratch.sb3", &inner), ("other.sb3", &inner)]);
    let project = read(Ok(Some(outer))).unwrap().unwrap();
    let entries = &project.archive.entries;
    assert_eq!(entries.len(), 3);
    assert_eq!(bytes_of(&entries[0]), b"<svg/>");
    let nested = members_of(&entries[1]);
    assert_eq!(nested.entries.len(), 2);
    assert_eq!(nested.entries[0].name, "project.json");
    assert_eq!(bytes_of(&nested.entries[0]), b"{\"targets\":[]}");
    assert_eq!(nested.entries[1].name, "1.svg");
    assert_eq!(bytes_of(&entries[2]), inner.as_slice());
}

#[test]
fn empty_container_has_no_members() {
    let archive = RawArchive::read(container(&[]), 3).unwrap();
    assert!(archive.entries.is_empty());
}

#[test]
fn bytes_that_are_no_container_are_refused() {
    let err = RawArchive::read(b"not a container".to_vec(), MAX_NESTING).err().unwrap();
    assert!(matches!(err, ArchiveError::Container(_)));
    assert!(!err.message().is_empty());
    let err = read(Ok(Some(Vec::new()))).err().unwrap();
    assert!(matches!(err, ReadError::Archive(ArchiveError::Container(_))));
}

#[test]
fn nested_member_that_is_no_container_is_refused() {
    let outer = container(&[("a.txt", b"fine"), ("scratch.sb3", b"no container")]);
    assert!(matches!(RawArchive::read(outer, 5), Err(ArchiveError::Container(_))));
}

#[test]
fn nesting_beyond_the_depth_is_refused() {
    let level2 = container(&[("deep.txt", b"x")]);
    let level1 = container(&[("scratch.sb3", &level2)]);
    let level0 = container(&[("scratch.sb3", &level1)]);
    let err = RawArchive::read(level0.clone(), 1).err().unwrap();
    assert!(matches!(err, ArchiveError::TooDeep));
    assert_eq!(err.message(), "containers are nested too deeply");
    let archive = RawArchive::read(level0, 2).unwrap();
    let inner = members_of(&members_of(&archive.entries[0]).entries[0]);
    assert_eq!(bytes_of(&inner.entries[0]), b"x");
}

#[test]
fn entry_keeps_bytes_unless_it_is_the_nested_container() {
    let entry = ArchiveEntry::new("scratch.sb2".to_string(), vec![1, 2, 3], 0).unwrap();
    assert_eq!(entry.name, "scratch.sb2");
    assert_eq!(bytes_of(&entry), &[1, 2, 3]);
    let inner = container(&[("x", b"y")]);
    let entry = ArchiveEntry::new("scratch.sb3".to_string(), inner.clone(), 1).unwrap();
    assert_eq!(members_of(&entry).entries[0].name, "x");
    assert!(matches!(
        ArchiveEntry::new("scratch.sb3".to_string(), inner, 0),
        Err(ArchiveError::TooDeep)
    ));
}

#[test]
fn missing_file_is_no_error() {
    assert!(read(Ok(None)).unwrap().is_none());
}

#[test]
fn unreadable_file_is_an_error() {
    let err = read(Err("permission denied".to_string())).err().unwrap();
    assert!(matches!(&err, ReadError::Io(m) if m == "permission denied"));
    assert_eq!(err.message(), "permission denied");
}

#[test]
fn failures_to_read_have_their_text() {
    assert_eq!(ReadError::Archive(ArchiveError::TooDeep).message(), "containers are nested too deeply");
    assert_eq!(ReadError::Archive(ArchiveError::Container("bad zip".to_string())).message(), "bad zip");
    let err = mind_meld::track::TrackError::Read(ReadError::Io("denied".to_string()));
    assert_eq!(err.message(), "denied");
    let err = mind_meld::track::TrackError::Read(ReadError::Archive(ArchiveError::TooDeep));
    assert_eq!(err.message(), "containers are nested too deeply");
}
