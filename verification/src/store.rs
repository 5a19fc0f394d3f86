//! Stores: versioned destinations that hold the tracked projects.
//!
//! A store is opened from its configuration, a path and a type token. The
//! operations on many stores never stop at one store's failure: each error
//! is kept beside the configuration of the store that it came from.

use vstd::prelude::*;
use vstd::string::{StrSliceExecFns, StringExecFns};
use crate::config::StoreConfig;
use crate::error::StoreError;
use crate::project::{Program, ProjectID, RawProject};
use crate::store::git::{
    keys_view, list_failure, open_failure, outcome_text, read_failure, within_depth,
    write_failure, Edit, GitStore, MAX_DEPTH,
};

pub mod git;

verus! {

/// What is known of one commit of a store.
#[derive(Debug)]
pub struct CommitInfo {
    /// The commit's id, shortened.
    pub hash: String,
    /// When the commit was authored, in seconds since the Unix epoch.
    pub date: i64,
    /// The first line of the commit's message.
    pub message: String,
    /// The projects that differ from the parent commit.
    pub changed_projects: Vec<ProjectID>,
}

/// The history of a store since a point in time.
#[derive(Debug)]
pub enum LogResult {
    /// The store has no commit yet.
    Unborn,
    /// No commit is recent enough; this is the newest one.
    Older(CommitInfo),
    /// The commits since the cutoff, newest first.
    Commits(Vec<CommitInfo>),
}

/// The kinds of store.
#[derive(Clone, Copy, Debug, PartialEq, Eq, Structural)]
pub enum StoreType {
    Git,
}

/// The token of a kind of store.
pub open spec fn store_type_token(t: StoreType) -> Seq<char> {
    match t {
        StoreType::Git => "git"@,
    }
}

/// A store of one kind, opened.
pub enum StoreInstance {
    Git(GitStore),
}

/// An opened store and the absolute path it was opened at.
pub struct Store {
    path: String,
    inst: StoreInstance,
}

/// The errors of an operation on many stores, each with the store's
/// configuration.
pub type StoreErrors = Vec<(StoreConfig, StoreError)>;

/// What one store reports of a write: a text, or the error.
pub type CommitResult = Result<&'static str, StoreError>;

/// The kind of store that a token stands for. Only `git` is known; any
/// other token comes back in the error.
pub fn store_type(t: &str) -> (res: Result<StoreType, StoreError>)
    ensures
        t@ == store_type_token(StoreType::Git) ==> res is Ok && res->Ok_0 == StoreType::Git,
        t@ != store_type_token(StoreType::Git) ==> res is Err && res->Err_0 is InvalidStoreType
            && res->Err_0->InvalidStoreType_0@ == t@,
{
    let owned = String::from_str(t);
    if owned == String::from_str("git") {
        Ok(StoreType::Git)
    } else {
        Err(StoreError::InvalidStoreType(owned))
    }
}

/// `std::path::absolute`: `path` made absolute against the current
/// directory, as text. Nothing is claimed of the outcome, which depends on
/// the process.
#[verifier::external_body]
fn absolute(path: &str) -> (res: Result<String, String>) {
    match std::path::absolute(path) {
        Ok(p) => Ok(p.to_string_lossy().into_owned()),
        Err(e) => Err(e.to_string()),
    }
}

/// `path` made absolute; a path that cannot be made absolute is an invalid
/// path.
fn absolute_path(path: &str) -> (res: Result<String, StoreError>)
    ensures
        res is Err ==> res->Err_0 is InvalidPath,
{
    match absolute(path) {
        Ok(p) => Ok(p),
        Err(e) => Err(StoreError::InvalidPath(e)),
    }
}

/// A failure to open or make a store from its type and path: an unknown
/// type, a path that cannot be made absolute, or a failure of the store
/// itself.
pub open spec fn store_failure(e: StoreError) -> bool {
    e is InvalidStoreType || e is InvalidPath || open_failure(e)
}

/// Opens the store of type `t` at `path`, or makes a new one where there is
/// none. An unknown type is refused before anything is looked at, and only
/// an unknown type is refused as one.
pub fn create(t: &str, path: &str) -> (res: Result<Store, StoreError>)
    ensures
        t@ != store_type_token(StoreType::Git) <==> res is Err && res->Err_0 is InvalidStoreType,
        res is Err && res->Err_0 is InvalidStoreType ==> res->Err_0->InvalidStoreType_0@ == t@,
        res is Err ==> store_failure(res->Err_0),
        res is Ok ==> res->Ok_0.kind() == StoreType::Git,
{
    let t = store_type(t)?;
    let path = absolute_path(path)?;
    let inst = t.create(path.as_str())?;
    Ok(Store { inst, path })
}

/// Opens the store that a configuration names. An unknown type is refused
/// before anything is looked at, and only an unknown type is refused as
/// one; else the store must be there and valid.
pub fn open(st: &StoreConfig) -> (res: Result<Store, StoreError>)
    ensures
        st.store_type@ != store_type_token(StoreType::Git) <==> res is Err && res->Err_0
            is InvalidStoreType,
        res is Err && res->Err_0 is InvalidStoreType ==> res->Err_0->InvalidStoreType_0@
            == st.store_type@,
        res is Err ==> store_failure(res->Err_0),
        res is Ok ==> res->Ok_0.kind() == StoreType::Git,
{
    let t = store_type(st.store_type.as_str())?;
    let path = absolute_path(st.path.as_str())?;
    let inst = t.open(path.as_str())?;
    Ok(Store { inst, path })
}

/// `all` dealt out to `a` and `b`: each element of `all` is in one of the
/// two, and both keep the order of `all`.
pub open spec fn is_split<T>(all: Seq<T>, a: Seq<T>, b: Seq<T>) -> bool
    decreases all.len(),
{
    if all.len() == 0 {
        a.len() == 0 && b.len() == 0
    } else {
        ||| (a.len() > 0 && a.last() == all.last() && is_split(all.drop_last(), a.drop_last(), b))
        ||| (b.len() > 0 && b.last() == all.last() && is_split(all.drop_last(), a, b.drop_last()))
    }
}

/// Two lists that `all` was dealt out to hold as many elements as `all`.
pub proof fn lemma_split_len<T>(all: Seq<T>, a: Seq<T>, b: Seq<T>)
    requires
        is_split(all, a, b),
    ensures
        a.len() + b.len() == all.len(),
    decreases all.len(),
{
    if all.len() > 0 {
        if a.len() > 0 && a.last() == all.last() && is_split(all.drop_last(), a.drop_last(), b) {
            lemma_split_len(all.drop_last(), a.drop_last(), b);
        } else {
            lemma_split_len(all.drop_last(), a, b.drop_last());
        }
    }
}

/// The configurations of a list of configured stores.
pub open spec fn configs_of(scs: Seq<StoreConfig>) -> Seq<(Seq<char>, Seq<char>)> {
    scs.map_values(|c: StoreConfig| c@)
}

/// The configurations of a list of opened stores.
pub open spec fn opened_configs(ok: Seq<(StoreConfig, Store)>) -> Seq<(Seq<char>, Seq<char>)> {
    ok.map_values(|p: (StoreConfig, Store)| p.0@)
}

/// The configurations of a list of errors.
pub open spec fn failed_configs(errs: Seq<(StoreConfig, StoreError)>) -> Seq<
    (Seq<char>, Seq<char>),
> {
    errs.map_values(|p: (StoreConfig, StoreError)| p.0@)
}

/// Opens every store of the list. A store that cannot be opened does not
/// stop the others: each configuration comes back once, with its store or
/// with its error, in the order of the list.
pub fn open_all(scs: &Vec<StoreConfig>) -> (res: (Vec<(StoreConfig, Store)>, StoreErrors))
    ensures
        is_split(configs_of(scs@), opened_configs(res.0@), failed_configs(res.1@)),
        res.0@.len() + res.1@.len() == scs@.len(),
        forall|i: int|
            0 <= i < res.0@.len() ==> (#[trigger] res.0@[i]).0.store_type@ == store_type_token(
                StoreType::Git,
            ),
        forall|i: int|
            0 <= i < res.1@.len() ==> store_failure((#[trigger] res.1@[i]).1) && (res.1@[i].1
                is InvalidStoreType <==> res.1@[i].0.store_type@ != store_type_token(
                StoreType::Git,
            )),
{
    let mut ok: Vec<(StoreConfig, Store)> = Vec::new();
    let mut errs: StoreErrors = Vec::new();
    let mut i: usize = 0;
    assert(configs_of(scs@).take(0) =~= Seq::empty());
    while i < scs.len()
        invariant
            i <= scs.len(),
            is_split(configs_of(scs@).take(i as int), opened_configs(ok@), failed_configs(errs@)),
            forall|j: int|
                0 <= j < ok@.len() ==> (#[trigger] ok@[j]).0.store_type@ == store_type_token(
                    StoreType::Git,
                ),
            forall|j: int|
                0 <= j < errs@.len() ==> store_failure((#[trigger] errs@[j]).1) && (errs@[j].1
                    is InvalidStoreType <==> errs@[j].0.store_type@ != store_type_token(
                    StoreType::Git,
                )),
        decreases scs.len() - i,
    {
        let st = &scs[i];
        let ghost all = configs_of(scs@).take(i as int);
        let ghost next = configs_of(scs@).take(i + 1);
        let ghost a = opened_configs(ok@);
        let ghost b = failed_configs(errs@);
        assert(next.drop_last() =~= all);
        assert(next.last() == st@);
        match open(st) {
            Ok(s) => {
                ok.push((st.clone(), s));
                assert(opened_configs(ok@).drop_last() =~= a);
                assert(opened_configs(ok@).last() == st@);
            },
            Err(e) => {
                errs.push((st.clone(), e));
                assert(failed_configs(errs@).drop_last() =~= b);
                assert(failed_configs(errs@).last() == st@);
            },
        };
        i += 1;
    }
    assert(configs_of(scs@).take(i as int) =~= configs_of(scs@));
    proof {
        lemma_split_len(configs_of(scs@), opened_configs(ok@), failed_configs(errs@));
    }
    (ok, errs)
}

/// Puts a project into a list that holds no project twice: a project that
/// the list holds already leaves it as it is.
pub fn insert_unique(set: &mut Vec<ProjectID>, id: ProjectID)
    requires
        keys_view(old(set)@).no_duplicates(),
    ensures
        keys_view(final(set)@).no_duplicates(),
        keys_view(old(set)@).contains(id@) ==> keys_view(final(set)@) == keys_view(old(set)@),
        !keys_view(old(set)@).contains(id@) ==> keys_view(final(set)@) == keys_view(
            old(set)@,
        ).push(id@),
{
    let ghost before = keys_view(set@);
    let mut j: usize = 0;
    while j < set.len()
        invariant
            j <= set.len(),
            keys_view(set@) == before,
            before.no_duplicates(),
            forall|k: int| 0 <= k < j ==> before[k] != id@,
        decreases set.len() - j,
    {
        if set[j].same(&id) {
            assert(before[j as int] == id@);
            return ;
        }
        j += 1;
    }
    set.push(id);
    assert(keys_view(set@) =~= before.push(id@));
}

/// What listing the projects of one store gave, beside the store's
/// configuration.
pub type Listing = (StoreConfig, Result<Vec<ProjectID>, StoreError>);

/// One of the first `n` listings is there and holds this project.
pub open spec fn listed_in(listed: Seq<Listing>, n: nat, key: (Program, Seq<char>)) -> bool {
    exists|i: int|
        0 <= i < n && (#[trigger] listed[i]).1 is Ok && keys_view(listed[i].1->Ok_0@).contains(
            key,
        )
}

/// The failures among the first `n` listings, each with the store's
/// configuration, in order.
pub open spec fn failures_of(listed: Seq<Listing>, n: nat) -> Seq<
    ((Seq<char>, Seq<char>), StoreError),
>
    decreases n,
{
    if n == 0 || n > listed.len() {
        Seq::empty()
    } else {
        let rest = failures_of(listed, (n - 1) as nat);
        match listed[n - 1].1 {
            Ok(_) => rest,
            Err(e) => rest.push((listed[n - 1].0@, e)),
        }
    }
}

/// The values of a list of failures.
pub open spec fn failures_view(errs: Seq<(StoreConfig, StoreError)>) -> Seq<
    ((Seq<char>, Seq<char>), StoreError),
> {
    errs.map_values(|e: (StoreConfig, StoreError)| (e.0@, e.1))
}

proof fn lemma_push_contains<T>(s: Seq<T>, x: T, k: T)
    ensures
        s.push(x).contains(k) <==> s.contains(k) || k == x,
{
    if s.contains(k) {
        let i = choose|i: int| 0 <= i < s.len() && s[i] == k;
        assert(s.push(x)[i] == k);
    }
    if k == x {
        assert(s.push(x)[s.len() as int] == k);
    }
    if s.push(x).contains(k) {
        let i = choose|i: int| 0 <= i < s.push(x).len() && s.push(x)[i] == k;
        if i < s.len() {
            assert(s[i] == k);
        }
    }
}

proof fn lemma_take_contains<T>(s: Seq<T>, j: int, k: T)
    requires
        0 <= j < s.len(),
    ensures
        s.take(j + 1).contains(k) <==> s.take(j).contains(k) || s[j] == k,
{
    assert(s.take(j + 1) =~= s.take(j).push(s[j]));
    lemma_push_contains(s.take(j), s[j], k);
}

proof fn lemma_listed_step(listed: Seq<Listing>, n: nat, key: (Program, Seq<char>))
    requires
        0 < n <= listed.len(),
    ensures
        listed_in(listed, n, key) <==> listed_in(listed, (n - 1) as nat, key) || (listed[n
            - 1].1 is Ok && keys_view(listed[n - 1].1->Ok_0@).contains(key)),
{
    if listed_in(listed, n, key) {
        let i = choose|i: int|
            0 <= i < n && (#[trigger] listed[i]).1 is Ok && keys_view(
                listed[i].1->Ok_0@,
            ).contains(key);
        if i < n - 1 {
            assert(listed_in(listed, (n - 1) as nat, key));
        }
    }
    if listed_in(listed, (n - 1) as nat, key) {
        let i = choose|i: int|
            0 <= i < n - 1 && (#[trigger] listed[i]).1 is Ok && keys_view(
                listed[i].1->Ok_0@,
            ).contains(key);
        assert(listed[i].1 is Ok);
    }
    if listed[n - 1].1 is Ok && keys_view(listed[n - 1].1->Ok_0@).contains(key) {
        assert(listed[n - 1].1 is Ok);
    }
}

/// Each failure is the failure of one of the listings.
proof fn lemma_failures_listed(listed: Seq<Listing>, n: nat, k: int)
    requires
        n <= listed.len(),
        0 <= k < failures_of(listed, n).len(),
    ensures
        exists|i: int|
            0 <= i < n && (#[trigger] listed[i]).1 is Err && failures_of(listed, n)[k] == (
                listed[i].0@,
                listed[i].1->Err_0,
            ),
    decreases n,
{
    if n > 0 {
        let rest = failures_of(listed, (n - 1) as nat);
        if k < rest.len() {
            lemma_failures_listed(listed, (n - 1) as nat, k);
            let i = choose|i: int|
                0 <= i < n - 1 && (#[trigger] listed[i]).1 is Err && rest[k] == (
                    listed[i].0@,
                    listed[i].1->Err_0,
                );
            assert(listed[i].1 is Err);
        } else {
            assert(listed[n - 1].1 is Err);
        }
    }
}

proof fn lemma_failures_len(listed: Seq<Listing>, n: nat)
    ensures
        failures_of(listed, n).len() <= n,
    decreases n,
{
    if n > 0 && n <= listed.len() {
        lemma_failures_len(listed, (n - 1) as nat);
    }
}

/// The projects of all the listings that are there, each project once, and
/// the failures, each with its store's configuration, in order.
pub fn union_of(listed: &Vec<Listing>) -> (res: (Vec<ProjectID>, StoreErrors))
    ensures
        keys_view(res.0@).no_duplicates(),
        forall|key: (Program, Seq<char>)|
            keys_view(res.0@).contains(key) <==> listed_in(listed@, listed@.len(), key),
        failures_view(res.1@) == failures_of(listed@, listed@.len()),
{
    let mut res: Vec<ProjectID> = Vec::new();
    let mut errs: StoreErrors = Vec::new();
    let mut i: usize = 0;
    assert(failures_view(errs@) =~= Seq::empty());
    while i < listed.len()
        invariant
            i <= listed.len(),
            keys_view(res@).no_duplicates(),
            forall|key: (Program, Seq<char>)|
                keys_view(res@).contains(key) <==> listed_in(listed@, i as nat, key),
            failures_view(errs@) == failures_of(listed@, i as nat),
        decreases listed.len() - i,
    {
        match &listed[i].1 {
            Ok(ids) => {
                let mut j: usize = 0;
                assert(keys_view(ids@).take(0) =~= Seq::empty());
                while j < ids.len()
                    invariant
                        i < listed.len(),
                        listed@[i as int].1 == Ok::<Vec<ProjectID>, StoreError>(*ids),
                        j <= ids.len(),
                        keys_view(res@).no_duplicates(),
                        forall|key: (Program, Seq<char>)|
                            keys_view(res@).contains(key) <==> listed_in(
                                listed@,
                                i as nat,
                                key,
                            ) || keys_view(ids@).take(j as int).contains(key),
                    decreases ids.len() - j,
                {
                    let ghost before = keys_view(res@);
                    let id = ids[j].clone();
                    insert_unique(&mut res, id);
                    assert forall|key: (Program, Seq<char>)|
                        keys_view(res@).contains(key) <==> listed_in(listed@, i as nat, key)
                            || keys_view(ids@).take(j + 1).contains(key) by {
                        lemma_push_contains(before, id@, key);
                        lemma_take_contains(keys_view(ids@), j as int, key);
                    }
                    j += 1;
                }
                assert(keys_view(ids@).take(ids@.len() as int) =~= keys_view(ids@));
                assert forall|key: (Program, Seq<char>)|
                    keys_view(res@).contains(key) <==> listed_in(
                        listed@,
                        (i + 1) as nat,
                        key,
                    ) by {
                    lemma_listed_step(listed@, (i + 1) as nat, key);
                }
            },
            Err(e) => {
                let ghost before = failures_view(errs@);
                errs.push((listed[i].0.clone(), e.clone()));
                assert(failures_view(errs@) =~= before.push((listed@[i as int].0@, *e)));
                assert forall|key: (Program, Seq<char>)|
                    keys_view(res@).contains(key) <==> listed_in(
                        listed@,
                        (i + 1) as nat,
                        key,
                    ) by {
                    lemma_listed_step(listed@, (i + 1) as nat, key);
                }
            },
        };
        i += 1;
    }
    (res, errs)
}

/// What listing the projects of each store gives, beside the store's
/// configuration, in the order of the stores.
pub fn list_all(stores: &Vec<(StoreConfig, Store)>) -> (res: Vec<Listing>)
    ensures
        res@.len() == stores@.len(),
        forall|i: int| 0 <= i < stores@.len() ==> (#[trigger] res@[i]).0@ == stores@[i].0@,
        forall|i: int|
            0 <= i < res@.len() && (#[trigger] res@[i]).1 is Err ==> list_failure(
                res@[i].1->Err_0,
            ),
{
    let mut listed: Vec<Listing> = Vec::new();
    let mut i: usize = 0;
    while i < stores.len()
        invariant
            i <= stores.len(),
            listed@.len() == i,
            forall|j: int| 0 <= j < i ==> (#[trigger] listed@[j]).0@ == stores@[j].0@,
            forall|j: int|
                0 <= j < i && (#[trigger] listed@[j]).1 is Err ==> list_failure(
                    listed@[j].1->Err_0,
                ),
        decreases stores.len() - i,
    {
        listed.push((stores[i].0.clone(), stores[i].1.project_ids()));
        i += 1;
    }
    listed
}

/// The configurations of a list of listings.
pub open spec fn listed_configs(listed: Seq<Listing>) -> Seq<(Seq<char>, Seq<char>)> {
    listed.map_values(|l: Listing| l.0@)
}

/// The projects that any of the stores holds, each once. Every store is
/// asked; a store that cannot be read does not stop the others: its error
/// comes back with its configuration.
///
/// Whatever the stores give, there is one listing for each store, beside
/// the store's configuration and in the order of the stores: the projects
/// are the union of the listings that are there, and the errors are the
/// failures of the others, in order.
pub fn all_project_ids(stores: &Vec<(StoreConfig, Store)>) -> (res: (Vec<ProjectID>, StoreErrors))
    ensures
        keys_view(res.0@).no_duplicates(),
        res.1@.len() <= stores@.len(),
        stores@.len() == 0 ==> res.0@.len() == 0 && res.1@.len() == 0,
        exists|listed: Seq<Listing>|
            {
                &&& #[trigger] listed_configs(listed) == opened_configs(stores@)
                &&& forall|key: (Program, Seq<char>)|
                    keys_view(res.0@).contains(key) <==> listed_in(listed, listed.len(), key)
                &&& failures_view(res.1@) == failures_of(listed, listed.len())
            },
        forall|i: int| 0 <= i < res.1@.len() ==> list_failure((#[trigger] res.1@[i]).1),
{
    let listed = list_all(stores);
    let res = union_of(&listed);
    proof {
        lemma_failures_len(listed@, listed@.len());
        if stores@.len() == 0 && res.0@.len() > 0 {
            assert(keys_view(res.0@).contains(keys_view(res.0@)[0]));
        }
        assert(listed_configs(listed@) =~= opened_configs(stores@));
        assert forall|i: int| 0 <= i < res.1@.len() implies list_failure(
            (#[trigger] res.1@[i]).1,
        ) by {
            lemma_failures_listed(listed@, listed@.len(), i);
            assert(failures_view(res.1@)[i].1 == res.1@[i].1);
        }
    }
    res
}

/// Whether a failure to open a store says that no store is there, so that
/// a new one may be made. A repository that holds foreign entries is
/// there, and is no store.
pub fn may_create(e: &StoreError) -> (res: bool)
    ensures
        res == !(e is ForeignEntry),
{
    match e {
        StoreError::ForeignEntry(_) => false,
        _ => true,
    }
}

impl StoreType {
    /// Opens the store at `p`, or makes a new one where none can be opened.
    /// A repository with foreign entries at its root is refused as it is
    /// when opened.
    pub fn create(&self, p: &str) -> (res: Result<StoreInstance, StoreError>)
        ensures
            res is Ok ==> res->Ok_0.kind() == *self,
            res is Err ==> open_failure(res->Err_0),
    {
        match self {
            StoreType::Git => Self::create_after(git::open(p), p),
        }
    }

    /// What making a store at `p` comes to, given how opening went: a
    /// store that opened is the store; a repository that is there and
    /// holds foreign entries is refused with the error of opening; only
    /// where nothing could be opened is a new repository made.
    pub fn create_after(opened: Result<GitStore, StoreError>, p: &str) -> (res: Result<
        StoreInstance,
        StoreError,
    >)
        ensures
            opened is Ok ==> res == Ok::<StoreInstance, StoreError>(
                StoreInstance::Git(opened->Ok_0),
            ),
            opened is Err && opened->Err_0 is ForeignEntry ==> res is Err && res->Err_0
                == opened->Err_0,
            res is Ok ==> res->Ok_0.kind() == StoreType::Git,
            res is Err ==> open_failure(res->Err_0),
    {
        match opened {
            Ok(s) => Ok(StoreInstance::Git(s)),
            Err(e) => if may_create(&e) {
                Ok(StoreInstance::Git(git::create(p)?))
            } else {
                Err(e)
            },
        }
    }

    /// Opens the store at `p`, which must be there and valid.
    pub fn open(&self, p: &str) -> (res: Result<StoreInstance, StoreError>)
        ensures
            res is Ok ==> res->Ok_0.kind() == *self,
            res is Err ==> open_failure(res->Err_0),
    {
        match self {
            StoreType::Git => Ok(StoreInstance::Git(git::open(p)?)),
        }
    }

    /// The token of this kind of store.
    pub fn as_str(&self) -> (s: &'static str)
        ensures
            s@ == store_type_token(*self),
    {
        match self {
            StoreType::Git => "git",
        }
    }
}

impl StoreInstance {
    pub open spec fn kind(&self) -> StoreType {
        match self {
            StoreInstance::Git(_) => StoreType::Git,
        }
    }

    /// The kind of this store.
    pub fn store_type(&self) -> (t: StoreType)
        ensures
            t == self.kind(),
    {
        match self {
            StoreInstance::Git(_) => StoreType::Git,
        }
    }

    /// The projects that the store holds now.
    pub fn project_ids(&self) -> (res: Result<Vec<ProjectID>, StoreError>)
        ensures
            res is Err ==> list_failure(res->Err_0),
    {
        match self {
            StoreInstance::Git(s) => s.project_ids(),
        }
    }

    pub fn commit(&self, projects: &Vec<(ProjectID, RawProject)>, message: &str) -> (res:
        CommitResult)
        ensures
            res is Ok ==> res->Ok_0@ == outcome_text(Edit::Upsert, true) || res->Ok_0@
                == outcome_text(Edit::Upsert, false),
            res is Err ==> write_failure(res->Err_0),
    {
        match self {
            StoreInstance::Git(s) => s.commit(projects, message),
        }
    }

    /// The project as the store holds it now, if it holds it.
    pub fn read_project(&self, id: &ProjectID) -> (res: Result<Option<RawProject>, StoreError>)
        ensures
            res is Ok && res->Ok_0 is Some ==> within_depth(
                res->Ok_0->Some_0.archive,
                MAX_DEPTH as nat,
            ),
            res is Err ==> read_failure(res->Err_0),
    {
        match self {
            StoreInstance::Git(s) => s.read_project(id),
        }
    }

    pub fn untrack(&self, id: &ProjectID, message: &str) -> (res: CommitResult)
        ensures
            res is Ok ==> res->Ok_0@ == outcome_text(Edit::Remove, true) || res->Ok_0@
                == outcome_text(Edit::Remove, false),
            res is Err ==> write_failure(res->Err_0),
    {
        match self {
            StoreInstance::Git(s) => s.untrack(id, message),
        }
    }

    pub fn log(&self, since: i64) -> (res: Result<LogResult, StoreError>)
        ensures
            res is Ok && res->Ok_0 is Older ==> res->Ok_0->Older_0.date < since,
            res is Ok && res->Ok_0 is Commits ==> forall|i: int|
                0 <= i < res->Ok_0->Commits_0@.len() ==> (#[trigger] res->Ok_0->Commits_0@[i]).date
                    >= since,
            res is Err ==> list_failure(res->Err_0),
    {
        match self {
            StoreInstance::Git(s) => s.log(since),
        }
    }
}

impl Store {
    /// The kind of this store.
    pub closed spec fn kind(&self) -> StoreType {
        self.inst.kind()
    }

    /// The absolute path that the store was opened at.
    pub closed spec fn location(&self) -> Seq<char> {
        self.path@
    }

    /// The projects that the store holds now.
    pub fn project_ids(&self) -> (res: Result<Vec<ProjectID>, StoreError>)
        ensures
            res is Err ==> list_failure(res->Err_0),
    {
        self.inst.project_ids()
    }

    /// The project as the store holds it now, if it holds it.
    pub fn read_project(&self, id: &ProjectID) -> (res: Result<Option<RawProject>, StoreError>)
        ensures
            res is Ok && res->Ok_0 is Some ==> within_depth(
                res->Ok_0->Some_0.archive,
                MAX_DEPTH as nat,
            ),
            res is Err ==> read_failure(res->Err_0),
    {
        self.inst.read_project(id)
    }

    /// Puts the projects into the store. Reports `added`, or `already up to
    /// date` where nothing changed.
    pub fn commit(&self, projects: &Vec<(ProjectID, RawProject)>, message: &str) -> (res:
        CommitResult)
        ensures
            res is Ok ==> res->Ok_0@ == outcome_text(Edit::Upsert, true) || res->Ok_0@
                == outcome_text(Edit::Upsert, false),
            res is Err ==> write_failure(res->Err_0),
    {
        self.inst.commit(projects, message)
    }

    /// Takes the project out of the store. Reports `removed`, or `not
    /// tracked` where the store did not hold it.
    pub fn untrack(&self, id: &ProjectID, message: &str) -> (res: CommitResult)
        ensures
            res is Ok ==> res->Ok_0@ == outcome_text(Edit::Remove, true) || res->Ok_0@
                == outcome_text(Edit::Remove, false),
            res is Err ==> write_failure(res->Err_0),
    {
        self.inst.untrack(id, message)
    }

    /// The commits since `since`, in seconds since the Unix epoch.
    pub fn log(&self, since: i64) -> (res: Result<LogResult, StoreError>)
        ensures
            res is Ok && res->Ok_0 is Older ==> res->Ok_0->Older_0.date < since,
            res is Ok && res->Ok_0 is Commits ==> forall|i: int|
                0 <= i < res->Ok_0->Commits_0@.len() ==> (#[trigger] res->Ok_0->Commits_0@[i]).date
                    >= since,
            res is Err ==> list_failure(res->Err_0),
    {
        self.inst.log(since)
    }

    /// The configuration that opens this store again.
    pub fn config(&self) -> (c: StoreConfig)
        ensures
            c@ == (self.location(), store_type_token(self.kind())),
    {
        StoreConfig {
            path: self.path.clone(),
            store_type: String::from_str(self.inst.store_type().as_str()),
        }
    }

    /// The text shown to the user for this store.
    pub fn label(&self) -> (s: String)
        ensures
            s@ == crate::config::store_label((self.location(), store_type_token(self.kind()))),
    {
        self.config().label()
    }
}

/// Why no store can be chosen.
#[derive(Debug)]
pub enum SelectError {
    /// No store is configured.
    NoStores,
    /// No configured store is at this path.
    NotFound(String),
    /// Several stores are configured and none was asked for.
    Ambiguous,
}

/// The store to work on, given how many stores there are, the path that
/// was asked for and the position of the first store at that path: the
/// store at the path, or the only store where none is asked for.
pub fn single_store(count: usize, wanted: Option<&str>, found: Option<usize>) -> (res: Result<
    usize,
    SelectError,
>)
    ensures
        count == 0 ==> res is Err && res->Err_0 is NoStores,
        count > 0 && wanted is Some && found is Some ==> res is Ok && res->Ok_0 == found->Some_0,
        count > 0 && wanted is Some && found is None ==> res is Err && res->Err_0 is NotFound
            && res->Err_0->NotFound_0@ == wanted->Some_0@,
        count == 1 && wanted is None ==> res is Ok && res->Ok_0 == 0,
        count > 1 && wanted is None ==> res is Err && res->Err_0 is Ambiguous,
{
    if count == 0 {
        return Err(SelectError::NoStores);
    }
    match wanted {
        Some(path) => match found {
            Some(at) => Ok(at),
            None => Err(SelectError::NotFound(String::from_str(path))),
        },
        None => if count == 1 {
            Ok(0)
        } else {
            Err(SelectError::Ambiguous)
        },
    }
}

/// The store to work on: the first one at the path asked for, or the only
/// one where none is asked for. Gives its position among the stores.
pub fn get_single_store(stores: &Vec<StoreConfig>, wanted: Option<&str>) -> (res: Result<
    usize,
    SelectError,
>)
    ensures
        stores@.len() == 0 ==> res is Err && res->Err_0 is NoStores,
        res is Ok ==> res->Ok_0 < stores@.len(),
        stores@.len() > 0 && wanted is None ==> (if stores@.len() == 1 {
            res is Ok && res->Ok_0 == 0
        } else {
            res is Err && res->Err_0 is Ambiguous
        }),
        stores@.len() > 0 && wanted is Some ==> res is Ok || (res->Err_0 is NotFound
            && res->Err_0->NotFound_0@ == wanted->Some_0@),
{
    let found = match wanted {
        Some(path) => find_store(stores, path),
        None => None,
    };
    single_store(stores.len(), wanted, found)
}

/// The store at position `i` is at the wanted place.
pub open spec fn is_at(
    paths: Seq<Result<String, String>>,
    wanted: Result<String, String>,
    i: int,
) -> bool {
    0 <= i < paths.len() && same_place(paths[i], wanted)
}

/// Those of the first `n` stores that are not at the wanted place, in
/// order.
pub open spec fn kept_of(
    configs: Seq<(Seq<char>, Seq<char>)>,
    paths: Seq<Result<String, String>>,
    wanted: Result<String, String>,
    n: nat,
) -> Seq<(Seq<char>, Seq<char>)>
    decreases n,
{
    if n == 0 || n > configs.len() {
        Seq::empty()
    } else {
        let rest = kept_of(configs, paths, wanted, (n - 1) as nat);
        if is_at(paths, wanted, n - 1) {
            rest
        } else {
            rest.push(configs[n - 1])
        }
    }
}

/// Those of the first `n` stores that are at the wanted place, in order.
pub open spec fn removed_of(
    configs: Seq<(Seq<char>, Seq<char>)>,
    paths: Seq<Result<String, String>>,
    wanted: Result<String, String>,
    n: nat,
) -> Seq<(Seq<char>, Seq<char>)>
    decreases n,
{
    if n == 0 || n > configs.len() {
        Seq::empty()
    } else {
        let rest = removed_of(configs, paths, wanted, (n - 1) as nat);
        if is_at(paths, wanted, n - 1) {
            rest.push(configs[n - 1])
        } else {
            rest
        }
    }
}

/// Deals the stores out by their absolute paths: those that are not at the
/// wanted place stay, those that are at it are taken out; both keep their
/// order.
pub fn split_stores(
    stores: Vec<StoreConfig>,
    paths: &Vec<Result<String, String>>,
    wanted: &Result<String, String>,
) -> (res: (Vec<StoreConfig>, Vec<StoreConfig>))
    ensures
        configs_of(res.0@) == kept_of(configs_of(stores@), paths@, *wanted, stores@.len()),
        configs_of(res.1@) == removed_of(configs_of(stores@), paths@, *wanted, stores@.len()),
        is_split(configs_of(stores@), configs_of(res.0@), configs_of(res.1@)),
        res.0@.len() + res.1@.len() == stores@.len(),
{
    let ghost all = stores@;
    let ghost cfgs = configs_of(all);
    let n = stores.len();
    let mut rest = crate::commit::reversed(stores);
    let mut kept: Vec<StoreConfig> = Vec::new();
    let mut removed: Vec<StoreConfig> = Vec::new();
    let mut i: usize = 0;
    assert(cfgs.take(0) =~= Seq::empty());
    assert(configs_of(kept@) =~= Seq::empty());
    assert(configs_of(removed@) =~= Seq::empty());
    while i < n
        invariant
            i <= n,
            n == all.len(),
            cfgs == configs_of(all),
            rest@ == all.reverse().take(n - i),
            is_split(cfgs.take(i as int), configs_of(kept@), configs_of(removed@)),
            configs_of(kept@) == kept_of(cfgs, paths@, *wanted, i as nat),
            configs_of(removed@) == removed_of(cfgs, paths@, *wanted, i as nat),
        decreases n - i,
    {
        let ghost a = configs_of(kept@);
        let ghost b = configs_of(removed@);
        let ghost next = cfgs.take(i + 1);
        let st = rest.pop().unwrap();
        assert(st == all[i as int]);
        assert(rest@ =~= all.reverse().take(n - (i + 1)));
        assert(next.drop_last() =~= cfgs.take(i as int));
        assert(next.last() == st@);
        assert(cfgs[i as int] == st@);
        if i < paths.len() && same_path(&paths[i], wanted) {
            removed.push(st);
            assert(configs_of(removed@) =~= b.push(st@));
            assert(configs_of(removed@).drop_last() =~= b);
            assert(configs_of(removed@).last() == st@);
        } else {
            kept.push(st);
            assert(configs_of(kept@) =~= a.push(st@));
            assert(configs_of(kept@).drop_last() =~= a);
            assert(configs_of(kept@).last() == st@);
        }
        i += 1;
    }
    assert(cfgs.take(n as int) =~= cfgs);
    proof {
        lemma_split_len(cfgs, configs_of(kept@), configs_of(removed@));
    }
    (kept, removed)
}

/// The stores that stay when the stores at `path` are taken out of the
/// configuration, and the stores that are taken out; both in order.
pub fn remove_stores(stores: Vec<StoreConfig>, path: &str) -> (res: (Vec<StoreConfig>, Vec<StoreConfig>))
    ensures
        is_split(configs_of(stores@), configs_of(res.0@), configs_of(res.1@)),
        res.0@.len() + res.1@.len() == stores@.len(),
{
    let paths = absolute_paths(&stores);
    let wanted = absolute(path);
    split_stores(stores, &paths, &wanted)
}

/// A path without the separators at its end.
pub open spec fn trimmed(p: Seq<char>) -> Seq<char>
    decreases p.len(),
{
    if p.len() > 0 && p.last() == '/' {
        trimmed(p.drop_last())
    } else {
        p
    }
}

/// A path without the separators at its end.
pub fn trim_end(p: &str) -> (res: &str)
    ensures
        res@ == trimmed(p@),
{
    let mut n = p.unicode_len();
    assert(p@.take(n as int) =~= p@);
    while n > 0 && p.get_char(n - 1) == '/'
        invariant
            n <= p@.len(),
            trimmed(p@) == trimmed(p@.take(n as int)),
        decreases n,
    {
        assert(p@.take(n as int).drop_last() =~= p@.take(n - 1));
        n -= 1;
    }
    let res = p.substring_char(0, n);
    assert(res@ =~= p@.take(n as int));
    res
}

/// Two absolute paths, as far as each could be had, are the same place:
/// they are the same text, but for separators at the end.
pub open spec fn same_place(p1: Result<String, String>, p2: Result<String, String>) -> bool {
    p1 is Ok && p2 is Ok && trimmed(p1->Ok_0@) == trimmed(p2->Ok_0@)
}

/// The position of the first of the paths that is the wanted place.
pub fn first_match(paths: &Vec<Result<String, String>>, wanted: &Result<String, String>) -> (res:
    Option<usize>)
    ensures
        res is Some ==> res->Some_0 < paths@.len() && same_place(
            paths@[res->Some_0 as int],
            *wanted,
        ),
        res is Some ==> forall|j: int| 0 <= j < res->Some_0 ==> !same_place(paths@[j], *wanted),
        res is None ==> forall|j: int| 0 <= j < paths@.len() ==> !same_place(paths@[j], *wanted),
{
    let mut i: usize = 0;
    while i < paths.len()
        invariant
            i <= paths.len(),
            forall|j: int| 0 <= j < i ==> !same_place(paths@[j], *wanted),
        decreases paths.len() - i,
    {
        if same_path(&paths[i], wanted) {
            return Some(i);
        }
        i += 1;
    }
    None
}

/// The path of each store, made absolute as far as it can be.
pub fn absolute_paths(stores: &Vec<StoreConfig>) -> (res: Vec<Result<String, String>>)
    ensures
        res@.len() == stores@.len(),
{
    let mut res: Vec<Result<String, String>> = Vec::new();
    let mut i: usize = 0;
    while i < stores.len()
        invariant
            i <= stores.len(),
            res@.len() == i,
        decreases stores.len() - i,
    {
        res.push(absolute(stores[i].path.as_str()));
        i += 1;
    }
    res
}

/// Whether a store at `path` is configured already; gives the first one.
/// Where no store is configured, there is none.
pub fn find_store(stores: &Vec<StoreConfig>, path: &str) -> (res: Option<usize>)
    ensures
        res is Some ==> res->Some_0 < stores@.len(),
        stores@.len() == 0 ==> res is None,
{
    let wanted = absolute(path);
    first_match(&absolute_paths(stores), &wanted)
}

/// Whether two absolute paths, as far as each could be had, are the same.
pub fn same_path(p1: &Result<String, String>, p2: &Result<String, String>) -> (res: bool)
    ensures
        res == same_place(*p1, *p2),
{
    match (p1, p2) {
        (Ok(a), Ok(b)) => String::from_str(trim_end(a.as_str())) == String::from_str(
            trim_end(b.as_str()),
        ),
        _ => false,
    }
}

/// Whether two paths name the same place once both are made absolute. Paths
/// that cannot be made absolute match nothing.
pub fn paths_match(p1: &str, p2: &str) -> (res: bool) {
    same_path(&absolute(p1), &absolute(p2))
}

} // verus!
