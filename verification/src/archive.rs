//! Decodes the container of a project file into its tree of members.

use vstd::prelude::*;
use vstd::string::StringExecFns;
use crate::project::{
    ArchiveEntry, ArchiveEntryContents, Node, RawArchive, RawProject, Tree,
};

verus! {

/// `zip::ZipArchive`: an opened container.
#[verifier::external_type_specification]
#[verifier::external_body]
#[verifier::reject_recursive_types(R)]
pub struct ExZipArchive<R>(zip::ZipArchive<R>);

/// `std::io::Cursor`: the reader over the bytes of a container.
#[verifier::external_type_specification]
#[verifier::external_body]
#[verifier::reject_recursive_types(T)]
pub struct ExCursor<T>(std::io::Cursor<T>);

/// `zip::result::ZipError`: why a container or a member cannot be read.
#[verifier::external_type_specification]
#[verifier::external_body]
pub struct ExZipError(zip::result::ZipError);

/// A member of a container as it can be read: its name and its bytes, or
/// nothing where the member cannot be read.
pub type Member = Option<(Seq<char>, Seq<u8>)>;

/// The members that `zip::ZipArchive::new` finds in `bytes`, in the
/// container's order; nothing where the bytes are no container.
pub uninterp spec fn container_of(bytes: Seq<u8>) -> Option<Seq<Member>>;

/// The members of an opened container.
pub uninterp spec fn members(archive: zip::ZipArchive<std::io::Cursor<Vec<u8>>>) -> Seq<Member>;

/// `zip::ZipArchive::new` on a cursor over `bytes`: opens the bytes as a
/// container. It succeeds exactly where the bytes are a container, and the
/// opened container holds the members of the bytes.
#[verifier::external_body]
fn open_container(bytes: Vec<u8>) -> (res: Result<
    zip::ZipArchive<std::io::Cursor<Vec<u8>>>,
    zip::result::ZipError,
>)
    ensures
        res is Ok <==> container_of(bytes@) is Some,
        res is Ok ==> members(res->Ok_0) == container_of(bytes@)->Some_0,
{
    zip::ZipArchive::new(std::io::Cursor::new(bytes))
}

/// `ZipArchive::len`: the number of members.
#[verifier::external_body]
fn member_count(archive: &zip::ZipArchive<std::io::Cursor<Vec<u8>>>) -> (n: usize)
    ensures
        n == members(*archive).len(),
{
    archive.len()
}

/// `ZipArchive::by_index`, read to its end, with `ZipFile::name`: the name
/// and the bytes of the member at `index`. It succeeds exactly where that
/// member can be read, and leaves the container's members as they are.
#[verifier::external_body]
fn read_member(archive: &mut zip::ZipArchive<std::io::Cursor<Vec<u8>>>, index: usize) -> (res:
    Result<(String, Vec<u8>), zip::result::ZipError>)
    requires
        index < members(*old(archive)).len(),
    ensures
        members(*final(archive)) == members(*old(archive)),
        res is Ok <==> members(*old(archive))[index as int] is Some,
        res is Ok ==> (res->Ok_0.0@, res->Ok_0.1@) == members(*old(archive))[index as int]->Some_0,
{
    let mut file = archive.by_index(index)?;
    let mut buf = Vec::new();
    std::io::Read::read_to_end(&mut file, &mut buf)?;
    let name = file.name()?.into_owned();
    Ok((name, buf))
}

/// `Display` of `zip::result::ZipError`: the error's text.
#[verifier::external_body]
fn container_error_text(e: &zip::result::ZipError) -> (s: String) {
    e.to_string()
}

/// Why a container could not be decoded.
#[derive(Debug)]
pub enum ArchiveError {
    /// The bytes are no container, or a member of it cannot be read.
    Container(String),
    /// Containers are nested deeper than is decoded.
    TooDeep,
}

/// The text of a failure to decode.
pub open spec fn archive_error_text(e: ArchiveError) -> Seq<char> {
    match e {
        ArchiveError::Container(m) => m@,
        ArchiveError::TooDeep => "containers are nested too deeply"@,
    }
}

impl ArchiveError {
    /// The text shown to the user.
    pub fn message(&self) -> (s: String)
        ensures
            s@ == archive_error_text(*self),
    {
        match self {
            ArchiveError::Container(m) => m.clone(),
            ArchiveError::TooDeep => String::from_str("containers are nested too deeply"),
        }
    }
}

impl Clone for ArchiveError {
    fn clone(&self) -> (res: Self)
        ensures
            res is TooDeep == self is TooDeep,
            self is Container ==> res is Container && res->Container_0@ == self->Container_0@,
    {
        match self {
            ArchiveError::Container(m) => ArchiveError::Container(m.clone()),
            ArchiveError::TooDeep => ArchiveError::TooDeep,
        }
    }
}

/// Why the local copy of a project could not be had.
#[derive(Debug)]
pub enum ReadError {
    /// The file is there and cannot be read.
    Io(String),
    /// The file is no container that can be decoded.
    Archive(ArchiveError),
}

/// The text of a failure to read the local copy.
pub open spec fn read_error_text(e: ReadError) -> Seq<char> {
    match e {
        ReadError::Io(m) => m@,
        ReadError::Archive(a) => archive_error_text(a),
    }
}

impl ReadError {
    /// The text shown to the user.
    pub fn message(&self) -> (s: String)
        ensures
            s@ == read_error_text(*self),
    {
        match self {
            ReadError::Io(m) => m.clone(),
            ReadError::Archive(e) => e.message(),
        }
    }
}

impl Clone for ReadError {
    fn clone(&self) -> (res: Self)
        ensures
            res is Io == self is Io,
            self is Io ==> res->Io_0@ == self->Io_0@,
    {
        match self {
            ReadError::Io(m) => ReadError::Io(m.clone()),
            ReadError::Archive(e) => ReadError::Archive(e.clone()),
        }
    }
}

/// The deepest nesting of containers that is decoded: a project's container
/// is at depth 0.
pub const MAX_NESTING: usize = 64;

/// The name of the member that is itself a container.
pub open spec fn is_nested(name: Seq<char>) -> bool {
    name == "scratch.sb3"@
}

/// The tree of the container in `bytes`, nested containers decoded down to
/// `depth` levels below it. Nothing where the bytes are no container, a
/// member cannot be read, or the nesting goes deeper.
pub open spec fn decode(bytes: Seq<u8>, depth: nat) -> Option<Tree>
    decreases depth, 2nat, 0nat,
{
    match container_of(bytes) {
        None => None,
        Some(ms) => decode_first(ms, ms.len(), depth),
    }
}

/// The tree of the first `n` members of a container.
pub open spec fn decode_first(ms: Seq<Member>, n: nat, depth: nat) -> Option<Tree>
    decreases depth, 1nat, n,
{
    if n == 0 || n > ms.len() {
        Some(Seq::empty())
    } else {
        match (decode_first(ms, (n - 1) as nat, depth), ms[n - 1]) {
            (Some(prev), Some(m)) => match decode_member(m.0, m.1, depth) {
                Some(node) => Some(prev.push((m.0, node))),
                None => None,
            },
            _ => None,
        }
    }
}

/// The contents of one member: the member named as the nested container is
/// decoded as a container, every other member is its bytes.
pub open spec fn decode_member(name: Seq<char>, data: Seq<u8>, depth: nat) -> Option<Node>
    decreases depth, 0nat, 0nat,
{
    if is_nested(name) {
        if depth == 0 {
            None
        } else {
            match decode(data, (depth - 1) as nat) {
                Some(t) => Some(Node::Archive(t)),
                None => None,
            }
        }
    } else {
        Some(Node::Data(data))
    }
}

/// In a decoded tree, the members that are nested containers are exactly
/// those named as the nested container, at every level.
pub open spec fn marks_nested(tree: Tree) -> bool
    decreases tree,
{
    forall|i: int|
        0 <= i < tree.len() ==> match (#[trigger] tree[i]).1 {
            Node::Data(_) => !is_nested(tree[i].0),
            Node::Archive(t) => is_nested(tree[i].0) && marks_nested(t),
        }
}

/// What is decoded from the first members of a container marks its nested
/// containers.
proof fn lemma_decode_first_marks(ms: Seq<Member>, n: nat, depth: nat)
    requires
        decode_first(ms, n, depth) is Some,
    ensures
        marks_nested(decode_first(ms, n, depth)->Some_0),
    decreases depth, 1nat, n,
{
    if n == 0 || n > ms.len() {
    } else {
        lemma_decode_first_marks(ms, (n - 1) as nat, depth);
        let prev = decode_first(ms, (n - 1) as nat, depth)->Some_0;
        let m = ms[n - 1]->Some_0;
        let node = decode_member(m.0, m.1, depth)->Some_0;
        let tree = prev.push((m.0, node));
        if is_nested(m.0) {
            lemma_decode_marks(m.1, (depth - 1) as nat);
        }
        assert forall|i: int| 0 <= i < tree.len() implies match (#[trigger] tree[i]).1 {
            Node::Data(_) => !is_nested(tree[i].0),
            Node::Archive(t) => is_nested(tree[i].0) && marks_nested(t),
        } by {
            if i < prev.len() {
                assert(tree[i] == prev[i]);
            }
        }
    }
}

/// A decoded tree marks its nested containers: a member is a nested
/// container exactly when it has the name of one.
pub proof fn lemma_decode_marks(bytes: Seq<u8>, depth: nat)
    requires
        decode(bytes, depth) is Some,
    ensures
        marks_nested(decode(bytes, depth)->Some_0),
    decreases depth, 2nat, 0nat,
{
    let ms = container_of(bytes)->Some_0;
    lemma_decode_first_marks(ms, ms.len(), depth);
}

/// Once a member fails, the container fails.
proof fn lemma_decode_first_fails(ms: Seq<Member>, i: nat, n: nat, depth: nat)
    requires
        i <= n <= ms.len(),
        decode_first(ms, i, depth) is None,
    ensures
        decode_first(ms, n, depth) is None,
    decreases n,
{
    if i < n {
        lemma_decode_first_fails(ms, i, (n - 1) as nat, depth);
    }
}

/// The values of a list of entries, in order.
pub open spec fn entries_model(entries: Seq<ArchiveEntry>) -> Tree {
    Seq::new(entries.len(), |i: int| entries[i].model())
}

fn container_error(e: zip::result::ZipError) -> (res: ArchiveError)
    ensures
        res is Container,
{
    ArchiveError::Container(container_error_text(&e))
}

impl RawArchive {
    /// Decodes a container, nested containers down to `depth` levels below
    /// it.
    pub fn read(bytes: Vec<u8>, depth: usize) -> (res: Result<RawArchive, ArchiveError>)
        ensures
            res is Ok <==> decode(bytes@, depth as nat) is Some,
            res is Ok ==> res->Ok_0@ == decode(bytes@, depth as nat)->Some_0,
            res is Ok ==> marks_nested(res->Ok_0@),
        decreases depth, 1nat,
    {
        proof {
            if decode(bytes@, depth as nat) is Some {
                lemma_decode_marks(bytes@, depth as nat);
            }
        }
        let ghost input = bytes@;
        let mut archive = match open_container(bytes) {
            Ok(a) => a,
            Err(e) => {
                return Err(container_error(e));
            },
        };
        let n = member_count(&archive);
        let ghost ms = members(archive);
        let mut entries: Vec<ArchiveEntry> = Vec::new();
        let mut i: usize = 0;
        assert(entries_model(entries@) =~= Seq::empty());
        while i < n
            invariant
                members(archive) == ms,
                container_of(input) == Some(ms),
                input == bytes@,
                n == ms.len(),
                i <= n,
                entries@.len() == i,
                decode_first(ms, i as nat, depth as nat) == Some(entries_model(entries@)),
            decreases n - i,
        {
            let ghost before = entries_model(entries@);
            let (name, buf) = match read_member(&mut archive, i) {
                Ok(m) => m,
                Err(e) => {
                    proof {
                        assert(decode_first(ms, (i + 1) as nat, depth as nat) is None);
                        lemma_decode_first_fails(ms, (i + 1) as nat, n as nat, depth as nat);
                    }
                    return Err(container_error(e));
                },
            };
            let ghost member = (name@, buf@);
            let entry = match ArchiveEntry::new(name, buf, depth) {
                Ok(entry) => entry,
                Err(e) => {
                    proof {
                        assert(decode_first(ms, (i + 1) as nat, depth as nat) is None);
                        lemma_decode_first_fails(ms, (i + 1) as nat, n as nat, depth as nat);
                    }
                    return Err(e);
                },
            };
            entries.push(entry);
            assert(entries_model(entries@) =~= before.push((member.0, entry.contents.model())));
            i += 1;
        }
        let res = RawArchive { entries };
        assert(res@ =~= entries_model(res.entries@));
        Ok(res)
    }
}

impl ArchiveEntry {
    /// One member of a container from its name and bytes. The member named
    /// as the nested container is decoded, down to `depth - 1` levels below
    /// it; any other member keeps its bytes.
    pub fn new(name: String, buf: Vec<u8>, depth: usize) -> (res: Result<ArchiveEntry, ArchiveError>)
        ensures
            res is Ok <==> decode_member(name@, buf@, depth as nat) is Some,
            res is Ok ==> res->Ok_0.name@ == name@ && res->Ok_0.contents.model() == decode_member(
                name@,
                buf@,
                depth as nat,
            )->Some_0,
            !is_nested(name@) ==> res is Ok && res->Ok_0.contents == ArchiveEntryContents::Data(
                buf,
            ),
            is_nested(name@) && depth == 0 ==> res is Err && res->Err_0 is TooDeep,
        decreases depth, 0nat,
    {
        let contents = if name == String::from_str("scratch.sb3") {
            if depth == 0 {
                return Err(ArchiveError::TooDeep);
            }
            ArchiveEntryContents::Archive(RawArchive::read(buf, depth - 1)?)
        } else {
            ArchiveEntryContents::Data(buf)
        };
        Ok(ArchiveEntry { name, contents })
    }
}

/// The local copy of a project from what reading its file gave: the bytes
/// of the file, nothing where the file does not exist, or the text of the
/// error.
///
/// A file that does not exist is no error: the project is absent. The bytes
/// of a file that exists are decoded as a container; bytes that cannot be
/// decoded are an error.
pub fn read(file: Result<Option<Vec<u8>>, String>) -> (res: Result<Option<RawProject>, ReadError>)
    ensures
        file is Err ==> res is Err && res->Err_0 is Io && res->Err_0->Io_0 == file->Err_0,
        file is Ok && file->Ok_0 is None ==> res is Ok && res->Ok_0 is None,
        file is Ok && file->Ok_0 is Some ==> {
            let tree = decode(file->Ok_0->Some_0@, MAX_NESTING as nat);
            &&& res is Ok <==> tree is Some
            &&& res is Ok ==> res->Ok_0 is Some && res->Ok_0->Some_0@ == tree->Some_0
            &&& res is Ok ==> marks_nested(res->Ok_0->Some_0@)
            &&& res is Err ==> res->Err_0 is Archive
        },
{
    match file {
        Err(e) => Err(ReadError::Io(e)),
        Ok(None) => Ok(None),
        Ok(Some(bytes)) => match RawArchive::read(bytes, MAX_NESTING) {
            Ok(archive) => Ok(Some(RawProject { archive })),
            Err(e) => Err(ReadError::Archive(e)),
        },
    }
}

} // verus!
