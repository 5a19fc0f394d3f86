//! Compares the local copy of a project with the copies that the stores
//! hold.

use vstd::prelude::*;
use crate::archive::ReadError;
use crate::error::StoreError;
use crate::project::{
    ArchiveEntry, ArchiveEntryContents, Node, Program, ProjectID, RawArchive, RawProject, Tree,
};
use crate::store::git::keys_view;
use crate::store::Store;

verus! {

/// The state of a project against the stores.
#[derive(Debug)]
pub enum Status {
    /// Every store holds the project as it is locally.
    NoDifferences,
    /// The project's file is not there locally.
    LocalMissing,
    /// The stores at these positions do not hold the project as it is
    /// locally.
    Differences(Vec<usize>),
}

/// The start value of the content hash.
pub const HASH_START: u64 = 0xcbf29ce484222325;

/// The multiplier of the content hash.
pub const HASH_PRIME: u64 = 0x100000001b3;

/// One step of the content hash: the value is mixed in with exclusive or,
/// then the hash is multiplied, modulo 2^64.
pub open spec fn mix(h: u64, v: u64) -> u64 {
    (((h ^ v) as int * HASH_PRIME as int) % 0x1_0000_0000_0000_0000) as u64
}

/// The hash after the bytes of `bytes`, one step each.
pub open spec fn mix_bytes(h: u64, bytes: Seq<u8>) -> u64
    decreases bytes.len(),
{
    if bytes.len() == 0 {
        h
    } else {
        mix(mix_bytes(h, bytes.drop_last()), bytes.last() as u64)
    }
}

/// The hash after the first `n` members of an archive: for each member the
/// length and the bytes of its name, then its contents.
pub open spec fn hash_members(tree: Tree, n: nat, h: u64) -> u64
    decreases tree, n,
{
    if n == 0 || n > tree.len() {
        h
    } else {
        let h1 = hash_members(tree, (n - 1) as nat, h);
        let name = vstd::utf8::encode_utf8(tree[n - 1].0);
        hash_node(tree[n - 1].1, mix_bytes(mix(h1, name.len() as u64), name))
    }
}

/// The hash after a member's contents: a tag, the length, and the bytes or
/// the nested members.
pub open spec fn hash_node(node: Node, h: u64) -> u64
    decreases node,
{
    match node {
        Node::Data(d) => mix_bytes(mix(mix(h, 0), d.len() as u64), d),
        Node::Archive(t) => hash_members(t, t.len(), mix(mix(h, 1), t.len() as u64)),
    }
}

/// The content hash of a decoded archive. It depends on the members' names,
/// order and contents only, not on how the container was encoded.
pub open spec fn content_hash(tree: Tree) -> u64 {
    hash_members(tree, tree.len(), mix(HASH_START, tree.len() as u64))
}

fn mix_in(h: u64, v: u64) -> (res: u64)
    ensures
        res == mix(h, v),
{
    let wide: u128 = (h ^ v) as u128 * (HASH_PRIME as u128);
    (wide % 0x1_0000_0000_0000_0000u128) as u64
}

fn mix_in_bytes(h: u64, bytes: &[u8]) -> (res: u64)
    ensures
        res == mix_bytes(h, bytes@),
{
    let mut res = h;
    let mut i: usize = 0;
    while i < bytes.len()
        invariant
            i <= bytes.len(),
            res == mix_bytes(h, bytes@.take(i as int)),
        decreases bytes.len() - i,
    {
        assert(bytes@.take(i + 1).drop_last() =~= bytes@.take(i as int));
        res = mix_in(res, bytes[i] as u64);
        i += 1;
    }
    assert(bytes@.take(i as int) =~= bytes@);
    res
}

fn hash_archive(arch: &RawArchive, h: u64) -> (res: u64)
    ensures
        res == hash_members(arch@, arch@.len(), h),
    decreases arch,
{
    let mut res = h;
    let mut i: usize = 0;
    while i < arch.entries.len()
        invariant
            i <= arch.entries.len(),
            arch@.len() == arch.entries.len(),
            res == hash_members(arch@, i as nat, h),
        decreases arch.entries.len() - i,
    {
        let e = &arch.entries[i];
        assert(arch@[i as int] == (e.name@, e.contents.model()));
        let name = e.name.as_str().as_bytes();
        let h1 = mix_in_bytes(mix_in(res, name.len() as u64), name);
        res = hash_contents(&e.contents, h1);
        i += 1;
    }
    res
}

fn hash_contents(contents: &ArchiveEntryContents, h: u64) -> (res: u64)
    ensures
        res == hash_node(contents.model(), h),
    decreases contents,
{
    match contents {
        ArchiveEntryContents::Data(d) => mix_in_bytes(
            mix_in(mix_in(h, 0), d.len() as u64),
            d.as_slice(),
        ),
        ArchiveEntryContents::Archive(a) => hash_archive(
            a,
            mix_in(mix_in(h, 1), a.entries.len() as u64),
        ),
    }
}

impl RawProject {
    /// The content hash of the project.
    pub fn hash(&self) -> (res: u64)
        ensures
            res == content_hash(self@),
    {
        hash_archive(&self.archive, mix_in(HASH_START, self.archive.entries.len() as u64))
    }
}

/// Whether a store's copy, as far as it could be read, is the local copy:
/// it was read, it is there, and it has the local copy's hash.
pub open spec fn holds_copy(local_hash: u64, copy: Result<Option<RawProject>, StoreError>) -> bool {
    copy is Ok && copy->Ok_0 is Some && content_hash(copy->Ok_0->Some_0@) == local_hash
}

/// Whether a store's copy is the local copy.
pub fn in_sync(local_hash: u64, copy: &Result<Option<RawProject>, StoreError>) -> (res: bool)
    ensures
        res == holds_copy(local_hash, *copy),
{
    match copy {
        Err(_) => false,
        Ok(None) => false,
        Ok(Some(st_proj)) => st_proj.hash() == local_hash,
    }
}

/// What to report of a project, given the positions of the stores that are
/// out of sync.
pub fn summary(diff: Vec<usize>) -> (res: Status)
    ensures
        diff@.len() == 0 ==> res is NoDifferences,
        diff@.len() > 0 ==> res is Differences && res->Differences_0 == diff,
{
    if diff.len() == 0 {
        Status::NoDifferences
    } else {
        Status::Differences(diff)
    }
}

/// The positions, in order, of those of the first `n` copies that are not
/// the local copy.
pub open spec fn out_of_sync(
    local_hash: u64,
    copies: Seq<Result<Option<RawProject>, StoreError>>,
    n: nat,
) -> Seq<usize>
    decreases n,
{
    if n == 0 || n > copies.len() {
        Seq::empty()
    } else {
        let rest = out_of_sync(local_hash, copies, (n - 1) as nat);
        if holds_copy(local_hash, copies[n - 1]) {
            rest
        } else {
            rest.push((n - 1) as usize)
        }
    }
}

/// The state of a project whose local copy has the hash `local_hash`,
/// against the copy that each store gave: no differences where every copy
/// is the local one; else the positions of the copies that are not, in
/// order. A copy that could not be read, or is not there, is none.
pub fn compare(local_hash: u64, copies: &Vec<Result<Option<RawProject>, StoreError>>) -> (res:
    Status)
    ensures
        res is NoDifferences <==> forall|i: int|
            0 <= i < copies@.len() ==> holds_copy(local_hash, #[trigger] copies@[i]),
        res is Differences ==> res->Differences_0@ == out_of_sync(
            local_hash,
            copies@,
            copies@.len(),
        ),
        res is Differences ==> {
            let d = res->Differences_0@;
            &&& 0 < d.len() <= copies@.len()
            &&& forall|k: int| 0 <= k < d.len() ==> 0 <= #[trigger] d[k] < copies@.len()
            &&& forall|k: int, l: int| 0 <= k < l < d.len() ==> d[k] < d[l]
        },
        !(res is LocalMissing),
{
    let mut diff: Vec<usize> = Vec::new();
    let mut i: usize = 0;
    while i < copies.len()
        invariant
            i <= copies.len(),
            diff@ == out_of_sync(local_hash, copies@, i as nat),
            diff@.len() == 0 <==> forall|j: int|
                0 <= j < i ==> holds_copy(local_hash, #[trigger] copies@[j]),
            diff@.len() <= i,
            forall|k: int| 0 <= k < diff@.len() ==> 0 <= #[trigger] diff@[k] < i,
            forall|k: int, l: int| 0 <= k < l < diff@.len() ==> diff@[k] < diff@[l],
        decreases copies.len() - i,
    {
        if !in_sync(local_hash, &copies[i]) {
            diff.push(i);
            assert(!holds_copy(local_hash, copies@[i as int]));
        }
        i += 1;
    }
    summary(diff)
}

/// The copy of a project that each store gives, in the order of the
/// stores.
pub fn read_copies(proj: &ProjectID, stores: &Vec<Store>) -> (res: Vec<
    Result<Option<RawProject>, StoreError>,
>)
    ensures
        res@.len() == stores@.len(),
{
    let mut copies: Vec<Result<Option<RawProject>, StoreError>> = Vec::new();
    let mut i: usize = 0;
    while i < stores.len()
        invariant
            i <= stores.len(),
            copies@.len() == i,
        decreases stores.len() - i,
    {
        copies.push(stores[i].read_project(proj));
        i += 1;
    }
    copies
}

/// Compares the local copy of a project with the copy in each store.
///
/// `local` is what reading the project's file gave: the decoded project,
/// nothing where the file is not there, or the error. Where the local copy
/// is there, every store is asked for its copy, and the copies are
/// compared with the local one: a store is out of sync where it cannot be
/// read, does not hold the project, or holds it with another content hash.
pub fn get_status(proj: &ProjectID, stores: &Vec<Store>, local: Result<Option<RawProject>, ReadError>) -> (res:
    Result<Status, ReadError>)
    ensures
        local is Err ==> res is Err && res->Err_0 == local->Err_0,
        local is Ok && local->Ok_0 is None ==> res is Ok && res->Ok_0 is LocalMissing,
        local is Ok && local->Ok_0 is Some ==> res is Ok && !(res->Ok_0 is LocalMissing),
        local is Ok && local->Ok_0 is Some && stores@.len() == 0 ==> res->Ok_0 is NoDifferences,
        res is Ok && res->Ok_0 is Differences ==> {
            let d = res->Ok_0->Differences_0@;
            &&& 0 < d.len() <= stores@.len()
            &&& forall|k: int| 0 <= k < d.len() ==> 0 <= #[trigger] d[k] < stores@.len()
            &&& forall|k: int, l: int| 0 <= k < l < d.len() ==> d[k] < d[l]
        },
{
    let local = match local {
        Ok(Some(project)) => project,
        Ok(None) => {
            return Ok(Status::LocalMissing);
        },
        Err(e) => {
            return Err(e);
        },
    };
    let copies = read_copies(proj, stores);
    Ok(compare(local.hash(), &copies))
}

/// The projects among the first `n` local ones that no store tracks.
pub open spec fn untracked_of(
    local: Seq<(Program, Seq<char>)>,
    stored: Seq<(Program, Seq<char>)>,
    n: nat,
) -> Seq<(Program, Seq<char>)>
    decreases n,
{
    if n == 0 || n > local.len() {
        Seq::empty()
    } else {
        let rest = untracked_of(local, stored, (n - 1) as nat);
        if stored.contains(local[n - 1]) {
            rest
        } else {
            rest.push(local[n - 1])
        }
    }
}

/// Whether a list of projects holds this one.
pub fn holds(ids: &Vec<ProjectID>, id: &ProjectID) -> (res: bool)
    ensures
        res == keys_view(ids@).contains(id@),
{
    let mut j: usize = 0;
    while j < ids.len()
        invariant
            j <= ids.len(),
            forall|k: int| 0 <= k < j ==> keys_view(ids@)[k] != id@,
        decreases ids.len() - j,
    {
        if ids[j].same(id) {
            assert(keys_view(ids@)[j as int] == id@);
            return true;
        }
        j += 1;
    }
    false
}

/// The local projects that no store tracks, in their order.
pub fn untracked(local: &Vec<ProjectID>, stored: &Vec<ProjectID>) -> (res: Vec<ProjectID>)
    ensures
        keys_view(res@) == untracked_of(keys_view(local@), keys_view(stored@), local@.len()),
{
    let mut res: Vec<ProjectID> = Vec::new();
    let mut i: usize = 0;
    while i < local.len()
        invariant
            i <= local.len(),
            keys_view(res@) == untracked_of(keys_view(local@), keys_view(stored@), i as nat),
        decreases local.len() - i,
    {
        if !holds(stored, &local[i]) {
            let ghost before = keys_view(res@);
            res.push(local[i].clone());
            assert(keys_view(res@) =~= before.push(local@[i as int]@));
        }
        i += 1;
    }
    res
}

} // verus!
