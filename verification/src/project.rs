//! The project data model: programs, project identifiers and the decoded
//! archive tree of a project file.

use vstd::prelude::*;
use vstd::string::{StrSliceExecFns, StringExecFns};
use crate::dirs::Dirs;

verus! {

/// One of the two applications whose project files are tracked.
#[derive(Clone, Copy, Debug, PartialEq, Eq, Hash, Structural)]
pub enum Program {
    Mindstorms,
    Spike,
}

/// The lowercase token of a program: its name in the configuration and the
/// top-level path segment of its projects inside a store.
pub open spec fn program_token(p: Program) -> Seq<char> {
    match p {
        Program::Mindstorms => "mindstorms"@,
        Program::Spike => "spike"@,
    }
}

/// `name` is one of the two program tokens.
pub open spec fn is_program_token(name: Seq<char>) -> bool {
    name == program_token(Program::Mindstorms) || name == program_token(Program::Spike)
}

/// The two tokens are different strings, and none of them holds a `/`.
pub proof fn lemma_program_tokens()
    ensures
        program_token(Program::Mindstorms) != program_token(Program::Spike),
        program_token(Program::Mindstorms).len() == 10,
        program_token(Program::Spike).len() == 5,
        !program_token(Program::Mindstorms).contains('/'),
        !program_token(Program::Spike).contains('/'),
{
    reveal_strlit("mindstorms");
    reveal_strlit("spike");
    assert(program_token(Program::Mindstorms).len() == 10);
    assert(program_token(Program::Spike).len() == 5);
}

/// A token names one program only.
pub proof fn lemma_program_token_injective(p: Program, q: Program)
    ensures
        program_token(p) == program_token(q) <==> p == q,
{
    lemma_program_tokens();
}

impl Program {
    /// The program's token.
    pub fn as_str(&self) -> (s: &'static str)
        ensures
            s@ == program_token(*self),
    {
        match self {
            Program::Mindstorms => "mindstorms",
            Program::Spike => "spike",
        }
    }
}

/// Both programs, each with its base directory, Mindstorms first.
pub fn all_programs(dirs: &Dirs) -> (res: Vec<(Program, &String)>)
    ensures
        res@.len() == 2,
        res@[0] == (Program::Mindstorms, &dirs.mindstorms),
        res@[1] == (Program::Spike, &dirs.spike),
{
    let mut res: Vec<(Program, &String)> = Vec::new();
    res.push((Program::Mindstorms, &dirs.mindstorms));
    res.push((Program::Spike, &dirs.spike));
    res
}

/// The base directory of one program.
pub fn dir(prog: Program, dirs: &Dirs) -> (res: &String)
    ensures
        res == (match prog {
            Program::Mindstorms => &dirs.mindstorms,
            Program::Spike => &dirs.spike,
        }),
{
    match prog {
        Program::Mindstorms => &dirs.mindstorms,
        Program::Spike => &dirs.spike,
    }
}

/// Why a name is no program.
#[derive(Debug)]
pub struct InvalidProgram {
    pub name: String,
}

impl InvalidProgram {
    /// The text shown to the user.
    pub fn message(&self) -> (s: String)
        ensures
            s@ == "invalid program "@ + self.name@,
    {
        String::from_str("invalid program ").concat(self.name.as_str())
    }
}

/// The program that a top-level directory name of a store stands for.
///
/// Succeeds on the two tokens exactly; any other name comes back in the
/// error.
pub fn program_git(name: &str) -> (res: Result<Program, InvalidProgram>)
    ensures
        name@ == program_token(Program::Mindstorms) ==> res == Ok::<
            Program,
            InvalidProgram,
        >(Program::Mindstorms),
        name@ == program_token(Program::Spike) ==> res == Ok::<Program, InvalidProgram>(
            Program::Spike,
        ),
        !is_program_token(name@) ==> res is Err && res->Err_0.name@ == name@,
        res is Ok <==> is_program_token(name@),
        res is Ok ==> program_token(res->Ok_0) == name@,
{
    proof {
        lemma_program_tokens();
    }
    let owned = String::from_str(name);
    if owned == String::from_str(Program::Mindstorms.as_str()) {
        Ok(Program::Mindstorms)
    } else if owned == String::from_str(Program::Spike.as_str()) {
        Ok(Program::Spike)
    } else {
        Err(InvalidProgram { name: owned })
    }
}

/// A project: the program it belongs to and its file name.
///
/// The name is the exact on-disk file name. It is also a path segment inside
/// a store, so it should hold no path separator.
#[derive(Debug, Hash)]
pub struct ProjectID {
    pub program: Program,
    pub name: String,
}

impl View for ProjectID {
    type V = (Program, Seq<char>);

    open spec fn view(&self) -> (Program, Seq<char>) {
        (self.program, self.name@)
    }
}

impl PartialEq for ProjectID {
    fn eq(&self, other: &Self) -> (res: bool) {
        self.program == other.program && self.name == other.name
    }
}

impl vstd::std_specs::cmp::PartialEqSpecImpl for ProjectID {
    open spec fn obeys_eq_spec() -> bool {
        true
    }

    open spec fn eq_spec(&self, other: &Self) -> bool {
        self.program == other.program && self.name@ == other.name@
    }
}

impl Eq for ProjectID {

}

impl Clone for ProjectID {
    fn clone(&self) -> (res: Self)
        ensures
            res@ == self@,
    {
        ProjectID { program: self.program, name: self.name.clone() }
    }
}

/// `{token}: {name}`, the way a project is shown to the user.
pub open spec fn project_label(id: (Program, Seq<char>)) -> Seq<char> {
    program_token(id.0) + ": "@ + id.1
}

/// `{token}/{name}`, the path of a project inside a store.
pub open spec fn project_path(id: (Program, Seq<char>)) -> Seq<char> {
    program_token(id.0) + "/"@ + id.1
}

/// A name that can be a path segment: it holds no `/`.
pub open spec fn is_segment(name: Seq<char>) -> bool {
    !name.contains('/')
}

impl ProjectID {
    /// The name is one path segment, as a file's name is.
    pub open spec fn well_formed(&self) -> bool {
        is_segment(self.name@)
    }

    /// Whether the name is one path segment.
    pub fn is_well_formed(&self) -> (res: bool)
        ensures
            res == self.well_formed(),
    {
        let name = self.name.as_str();
        let n = name.unicode_len();
        let mut i: usize = 0;
        while i < n
            invariant
                i <= n,
                n == name@.len(),
                name@ == self.name@,
                forall|j: int| 0 <= j < i ==> name@[j] != '/',
            decreases n - i,
        {
            if name.get_char(i) == '/' {
                return false;
            }
            i += 1;
        }
        true
    }

    pub fn new(program: Program, name: &str) -> (res: Self)
        ensures
            res@ == (program, name@),
    {
        ProjectID { program, name: String::from_str(name) }
    }

    /// Whether two identifiers name the same project.
    pub fn same(&self, other: &ProjectID) -> (res: bool)
        ensures
            res == (self@ == other@),
    {
        self.program == other.program && self.name == other.name
    }

    /// The text shown to the user for this project.
    pub fn label(&self) -> (s: String)
        ensures
            s@ == project_label(self@),
    {
        String::from_str(self.program.as_str()).concat(": ").concat(self.name.as_str())
    }

    /// The path of this project inside a store.
    pub fn store_path(&self) -> (s: String)
        ensures
            s@ == project_path(self@),
    {
        String::from_str(self.program.as_str()).concat("/").concat(self.name.as_str())
    }

    /// The path of this project's file below its program's base directory.
    pub fn path(&self, dirs: &Dirs) -> (s: String)
        ensures
            s@ == dir_of(self.program, *dirs) + "/"@ + self.name@,
    {
        dir(self.program, dirs).clone().concat("/").concat(self.name.as_str())
    }
}

/// The base directory that `dirs` holds for a program.
pub open spec fn dir_of(prog: Program, dirs: Dirs) -> Seq<char> {
    match prog {
        Program::Mindstorms => dirs.mindstorms@,
        Program::Spike => dirs.spike@,
    }
}

/// Two projects have the same path in a store only if they are the same
/// project.
pub proof fn lemma_project_path_injective(a: (Program, Seq<char>), b: (Program, Seq<char>))
    requires
        project_path(a) == project_path(b),
    ensures
        a == b,
{
    lemma_program_tokens();
    reveal_strlit("/");
    let pa = project_path(a);
    let pb = project_path(b);
    let ta = program_token(a.0);
    let tb = program_token(b.0);
    assert(pa[ta.len() as int] == '/');
    assert(pb[tb.len() as int] == '/');
    if a.0 != b.0 {
        // the shorter token ends where the longer one still runs
        reveal_strlit("mindstorms");
        reveal_strlit("spike");
        assert(program_token(Program::Mindstorms)[5] == 't');
        if a.0 == Program::Spike {
            assert(pa[5] == '/');
            assert(pb[5] == tb[5]);
        } else {
            assert(pb[5] == '/');
            assert(pa[5] == ta[5]);
        }
        assert(false);
    }
    let k = ta.len() + 1;
    assert(a.1 =~= pa.subrange(k as int, pa.len() as int));
    assert(b.1 =~= pb.subrange(k as int, pb.len() as int));
}

/// The decoded content of one project file.
#[derive(Debug)]
pub struct RawProject {
    /// The members of the project's container.
    pub archive: RawArchive,
}

/// The members of a container, in the container's own order.
#[derive(Debug)]
pub struct RawArchive {
    pub entries: Vec<ArchiveEntry>,
}

/// One member of a container.
#[derive(Debug)]
pub struct ArchiveEntry {
    pub name: String,
    pub contents: ArchiveEntryContents,
}

/// What a member holds: bytes, or the members of a nested container.
#[derive(Debug)]
pub enum ArchiveEntryContents {
    Data(Vec<u8>),
    Archive(RawArchive),
}

/// The mathematical value of a member's contents.
pub enum Node {
    Data(Seq<u8>),
    Archive(Seq<(Seq<char>, Node)>),
}

/// The mathematical value of an archive: its members' names and contents,
/// in order.
pub type Tree = Seq<(Seq<char>, Node)>;

impl RawArchive {
    pub open spec fn model(&self) -> Tree
        decreases self,
    {
        Seq::new(
            self.entries.len() as nat,
            |i: int|
                if 0 <= i < self.entries.len() {
                    (self.entries[i].name@, self.entries[i].contents.model())
                } else {
                    (Seq::empty(), Node::Data(Seq::empty()))
                },
        )
    }
}

impl ArchiveEntryContents {
    pub open spec fn model(&self) -> Node
        decreases self,
    {
        match self {
            ArchiveEntryContents::Data(d) => Node::Data(d@),
            ArchiveEntryContents::Archive(a) => Node::Archive(a.model()),
        }
    }
}

impl ArchiveEntry {
    pub open spec fn model(&self) -> (Seq<char>, Node) {
        (self.name@, self.contents.model())
    }
}

impl View for RawArchive {
    type V = Tree;

    open spec fn view(&self) -> Tree {
        self.model()
    }
}

impl View for RawProject {
    type V = Tree;

    open spec fn view(&self) -> Tree {
        self.archive.model()
    }
}

} // verus!
