//! Plain record types mirroring what the upstream mining engine hands out,
//! together with their mathematical views.

use vstd::prelude::*;

verus! {

/// Programming-language classification attached to commits and file paths.
#[derive(Clone, Copy, PartialEq, Eq, Structural, Debug)]
pub enum Language {
    C,
    Cpp,
    Java,
    JavaScript,
    Python,
    Ruby,
    Other,
}

/// A file location within a repository, with the language its extension
/// suggests, if any could be derived.
pub struct PathRecord {
    pub location: String,
    pub language: Option<Language>,
}

/// One file-level modification within a commit. A change without a snapshot
/// id stands for a deletion or an untracked content state and is never
/// exported.
pub struct ChangeRecord {
    pub path: Option<PathRecord>,
    pub snapshot_id: Option<u64>,
}

/// One recorded change-set in a project's history. Every field except the
/// hash may be absent in the upstream data.
pub struct CommitRecord {
    pub hash: String,
    pub author_timestamp: Option<i64>,
    pub languages: Option<Vec<Language>>,
    pub change_count: Option<usize>,
    pub changes: Option<Vec<ChangeRecord>>,
}

/// Mathematical view of a `PathRecord`.
#[verifier::ext_equal]
pub ghost struct PathView {
    pub location: Seq<char>,
    pub language: Option<Language>,
}

/// Mathematical view of a `ChangeRecord`.
#[verifier::ext_equal]
pub ghost struct ChangeView {
    pub path: Option<PathView>,
    pub snapshot_id: Option<u64>,
}

/// Mathematical view of a `CommitRecord`.
#[verifier::ext_equal]
pub ghost struct CommitView {
    pub hash: Seq<char>,
    pub author_timestamp: Option<i64>,
    pub languages: Option<Seq<Language>>,
    pub change_count: Option<usize>,
    pub changes: Option<Seq<ChangeView>>,
}

impl View for PathRecord {
    type V = PathView;

    open spec fn view(&self) -> PathView {
        PathView { location: self.location@, language: self.language }
    }
}

impl View for ChangeRecord {
    type V = ChangeView;

    open spec fn view(&self) -> ChangeView {
        ChangeView {
            path: match self.path {
                Some(p) => Some(p@),
                None => None,
            },
            snapshot_id: self.snapshot_id,
        }
    }
}

impl View for CommitRecord {
    type V = CommitView;

    open spec fn view(&self) -> CommitView {
        CommitView {
            hash: self.hash@,
            author_timestamp: self.author_timestamp,
            languages: match self.languages {
                Some(ls) => Some(ls@),
                None => None,
            },
            change_count: self.change_count,
            changes: match self.changes {
                Some(cs) => Some(cs@.map_values(|c: ChangeRecord| c@)),
                None => None,
            },
        }
    }
}

/// The changes recorded for a commit; a commit with no recorded change list
/// contributes the empty sequence.
pub open spec fn changes_of(c: CommitView) -> Seq<ChangeView> {
    match c.changes {
        Some(cs) => cs,
        None => Seq::empty(),
    }
}

/// The original file location of a change; a change whose path cannot be
/// resolved is given the empty location rather than failing.
pub open spec fn location_of(c: ChangeView) -> Seq<char> {
    match c.path {
        Some(p) => p.location,
        None => Seq::empty(),
    }
}

} // verus!
