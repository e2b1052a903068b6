//! Predicate evaluation over commit and change records.
//!
//! Absent fields never raise an error: an equality or membership predicate
//! over a missing field is false, and a record with an unknown timestamp is
//! never before any cutoff. Conjunction is sequential filtering: a record
//! passes a list of predicates when it matches each one.

use vstd::prelude::*;

use crate::records::{ChangeRecord, ChangeView, CommitRecord, CommitView, Language};

verus! {

/// A predicate over one commit record.
#[derive(Clone, Copy, PartialEq, Eq, Structural, Debug)]
pub enum CommitPredicate {
    /// The author timestamp is known and strictly before the cutoff.
    AuthoredBefore(i64),
    /// The commit's language set is known and contains the language.
    LanguagesContain(Language),
}

/// A predicate over one change record.
#[derive(Clone, Copy, PartialEq, Eq, Structural, Debug)]
pub enum ChangePredicate {
    /// The change's path resolves and its derived language is the one given.
    PathLanguageIs(Language),
    /// The change references a content snapshot.
    HasSnapshot,
}

/// What it means for a commit to match a predicate.
pub open spec fn spec_commit_matches(c: CommitView, p: CommitPredicate) -> bool {
    match p {
        CommitPredicate::AuthoredBefore(cutoff) => match c.author_timestamp {
            Some(t) => t < cutoff,
            None => false,
        },
        CommitPredicate::LanguagesContain(l) => match c.languages {
            Some(ls) => ls.contains(l),
            None => false,
        },
    }
}

/// What it means for a change to match a predicate.
pub open spec fn spec_change_matches(c: ChangeView, p: ChangePredicate) -> bool {
    match p {
        ChangePredicate::PathLanguageIs(l) => match c.path {
            Some(path) => path.language == Some(l),
            None => false,
        },
        ChangePredicate::HasSnapshot => c.snapshot_id is Some,
    }
}

/// Whether a commit matches every predicate in a list.
pub open spec fn spec_commit_matches_all(c: CommitView, ps: Seq<CommitPredicate>) -> bool {
    forall|i: int| 0 <= i < ps.len() ==> spec_commit_matches(c, #[trigger] ps[i])
}

/// Whether a change matches every predicate in a list.
pub open spec fn spec_change_matches_all(c: ChangeView, ps: Seq<ChangePredicate>) -> bool {
    forall|i: int| 0 <= i < ps.len() ==> spec_change_matches(c, #[trigger] ps[i])
}

/// Whether a slice of languages contains the language `l`.
fn languages_contain(ls: &Vec<Language>, l: Language) -> (r: bool)
    ensures
        r == ls@.contains(l),
{
    let mut i: usize = 0;
    while i < ls.len()
        invariant
            i <= ls@.len(),
            forall|k: int| 0 <= k < i ==> ls@[k] != l,
        decreases ls@.len() - i,
    {
        if ls[i] == l {
            return true;
        }
        i = i + 1;
    }
    false
}

/// Evaluates one predicate against one commit; never fails, whatever fields
/// are absent.
pub fn commit_matches(c: &CommitRecord, p: CommitPredicate) -> (r: bool)
    ensures
        r == spec_commit_matches(c@, p),
{
    match p {
        CommitPredicate::AuthoredBefore(cutoff) => match c.author_timestamp {
            Some(t) => t < cutoff,
            None => false,
        },
        CommitPredicate::LanguagesContain(l) => match &c.languages {
            Some(ls) => languages_contain(ls, l),
            None => false,
        },
    }
}

/// Evaluates one predicate against one change; never fails, whatever fields
/// are absent.
pub fn change_matches(c: &ChangeRecord, p: ChangePredicate) -> (r: bool)
    ensures
        r == spec_change_matches(c@, p),
{
    match p {
        ChangePredicate::PathLanguageIs(l) => match &c.path {
            Some(path) => match path.language {
                Some(pl) => pl == l,
                None => false,
            },
            None => false,
        },
        ChangePredicate::HasSnapshot => c.snapshot_id.is_some(),
    }
}

/// Sequentially filters one commit through a list of predicates, as an AND.
pub fn commit_matches_all(c: &CommitRecord, ps: &Vec<CommitPredicate>) -> (r: bool)
    ensures
        r == spec_commit_matches_all(c@, ps@),
{
    let mut i: usize = 0;
    while i < ps.len()
        invariant
            i <= ps@.len(),
            forall|k: int| 0 <= k < i ==> spec_commit_matches(c@, #[trigger] ps@[k]),
        decreases ps@.len() - i,
    {
        if !commit_matches(c, ps[i]) {
            return false;
        }
        i = i + 1;
    }
    true
}

/// Sequentially filters one change through a list of predicates, as an AND.
pub fn change_matches_all(c: &ChangeRecord, ps: &Vec<ChangePredicate>) -> (r: bool)
    ensures
        r == spec_change_matches_all(c@, ps@),
{
    let mut i: usize = 0;
    while i < ps.len()
        invariant
            i <= ps@.len(),
            forall|k: int| 0 <= k < i ==> spec_change_matches(c@, #[trigger] ps@[k]),
        decreases ps@.len() - i,
    {
        if !change_matches(c, ps[i]) {
            return false;
        }
        i = i + 1;
    }
    true
}

/// The commit-level filter of an extraction job: authored strictly before
/// the cutoff and touching the language.
pub open spec fn spec_commit_passes(c: CommitView, cutoff: i64, lang: Language) -> bool {
    spec_commit_matches(c, CommitPredicate::AuthoredBefore(cutoff))
        && spec_commit_matches(c, CommitPredicate::LanguagesContain(lang))
}

/// The change-level filter of an extraction job: the changed file is
/// classified as the language and a content snapshot exists for it.
pub open spec fn spec_change_qualifies(c: ChangeView, lang: Language) -> bool {
    spec_change_matches(c, ChangePredicate::PathLanguageIs(lang))
        && spec_change_matches(c, ChangePredicate::HasSnapshot)
}

/// The commit-level filter is sequential filtering by a predicate list:
/// a commit passes exactly when it matches the timestamp predicate and
/// then the language predicate, so call sites can compose the same filter
/// from predicate values without rewriting.
pub proof fn lemma_commit_filter_composes(c: CommitView, cutoff: i64, lang: Language)
    ensures
        spec_commit_passes(c, cutoff, lang) == spec_commit_matches_all(
            c,
            seq![
                CommitPredicate::AuthoredBefore(cutoff),
                CommitPredicate::LanguagesContain(lang),
            ],
        ),
{
    let ps = seq![
        CommitPredicate::AuthoredBefore(cutoff),
        CommitPredicate::LanguagesContain(lang),
    ];
    assert(ps[0] == CommitPredicate::AuthoredBefore(cutoff));
    assert(ps[1] == CommitPredicate::LanguagesContain(lang));
}

/// The change-level filter is sequential filtering by a predicate list:
/// a change qualifies exactly when it matches the path-language predicate
/// and then the snapshot-existence predicate.
pub proof fn lemma_change_filter_composes(c: ChangeView, lang: Language)
    ensures
        spec_change_qualifies(c, lang) == spec_change_matches_all(
            c,
            seq![ChangePredicate::PathLanguageIs(lang), ChangePredicate::HasSnapshot],
        ),
{
    let ps = seq![ChangePredicate::PathLanguageIs(lang), ChangePredicate::HasSnapshot];
    assert(ps[0] == ChangePredicate::PathLanguageIs(lang));
    assert(ps[1] == ChangePredicate::HasSnapshot);
}

/// Whether a commit passes the job's commit-level filter.
pub fn commit_passes(c: &CommitRecord, cutoff: i64, lang: Language) -> (r: bool)
    ensures
        r == spec_commit_passes(c@, cutoff, lang),
{
    commit_matches(c, CommitPredicate::AuthoredBefore(cutoff))
        && commit_matches(c, CommitPredicate::LanguagesContain(lang))
}

/// Whether a change passes the job's change-level filter.
pub fn change_qualifies(c: &ChangeRecord, lang: Language) -> (r: bool)
    ensures
        r == spec_change_qualifies(c@, lang),
{
    change_matches(c, ChangePredicate::PathLanguageIs(lang))
        && change_matches(c, ChangePredicate::HasSnapshot)
}

} // verus!
