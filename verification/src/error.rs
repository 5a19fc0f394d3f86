//! The errors that a store reports.

use vstd::prelude::*;
use vstd::string::StringExecFns;

verus! {

/// Why an operation on a store failed.
#[derive(Debug)]
pub enum StoreError {
    /// The store type is not one of the known tokens.
    InvalidStoreType(String),
    /// A directory at the top of a store's tree names no program.
    InvalidProgram(String),
    /// The root tree holds an entry that is no program directory.
    ForeignEntry(String),
    /// HEAD points at a commit directly, not at a branch.
    InvalidHeadRef,
    /// The path of the store cannot be made absolute.
    InvalidPath(String),
    /// A tree is nested deeper than a store is read.
    TooDeep,
    /// The repository reported an error of its own.
    Backend(String),
}

pub open spec fn error_text(e: StoreError) -> Seq<char> {
    match e {
        StoreError::InvalidStoreType(t) => "invalid store type: "@ + t@,
        StoreError::InvalidProgram(n) => "invalid program "@ + n@,
        StoreError::ForeignEntry(n) => "repository can not be used for mind-meld, it has extra entries like "@
            + n@,
        StoreError::InvalidHeadRef => "invalid head ref"@,
        StoreError::InvalidPath(p) => "invalid path: "@ + p@,
        StoreError::TooDeep => "tree is nested too deeply"@,
        StoreError::Backend(m) => m@,
    }
}

impl Clone for StoreError {
    fn clone(&self) -> (res: Self)
        ensures
            res == *self,
    {
        match self {
            StoreError::InvalidStoreType(t) => StoreError::InvalidStoreType(t.clone()),
            StoreError::InvalidProgram(n) => StoreError::InvalidProgram(n.clone()),
            StoreError::ForeignEntry(n) => StoreError::ForeignEntry(n.clone()),
            StoreError::InvalidHeadRef => StoreError::InvalidHeadRef,
            StoreError::InvalidPath(p) => StoreError::InvalidPath(p.clone()),
            StoreError::TooDeep => StoreError::TooDeep,
            StoreError::Backend(m) => StoreError::Backend(m.clone()),
        }
    }
}

impl StoreError {
    /// The text shown to the user.
    pub fn message(&self) -> (s: String)
        ensures
            s@ == error_text(*self),
    {
        match self {
            StoreError::InvalidStoreType(t) => String::from_str("invalid store type: ").concat(
                t.as_str(),
            ),
            StoreError::InvalidProgram(n) => String::from_str("invalid program ").concat(
                n.as_str(),
            ),
            StoreError::ForeignEntry(n) => String::from_str(
                "repository can not be used for mind-meld, it has extra entries like ",
            ).concat(n.as_str()),
            StoreError::InvalidHeadRef => String::from_str("invalid head ref"),
            StoreError::InvalidPath(p) => String::from_str("invalid path: ").concat(p.as_str()),
            StoreError::TooDeep => String::from_str("tree is nested too deeply"),
            StoreError::Backend(m) => m.clone(),
        }
    }
}

} // verus!
