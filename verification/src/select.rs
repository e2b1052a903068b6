//! The stream transformer: filtering a commit stream and flattening it into
//! the stream of qualifying changes, in the order the upstream engine
//! delivers them.

use vstd::prelude::*;

use crate::predicate::{change_qualifies, commit_passes, spec_change_qualifies, spec_commit_passes};
use crate::records::{ChangeView, CommitRecord, CommitView, Language};

verus! {

/// The changes a single commit contributes to an extraction job: none when
/// the commit fails the commit-level filter, otherwise its qualifying
/// changes in their recorded order.
pub open spec fn commit_contribution(c: CommitView, cutoff: i64, lang: Language) -> Seq<
    ChangeView,
> {
    if spec_commit_passes(c, cutoff, lang) {
        crate::records::changes_of(c).filter(|ch: ChangeView| spec_change_qualifies(ch, lang))
    } else {
        Seq::empty()
    }
}

/// The whole selected change stream of a job: each commit's contribution,
/// concatenated in commit traversal order.
pub open spec fn selected_changes(commits: Seq<CommitView>, cutoff: i64, lang: Language) -> Seq<
    ChangeView,
>
    decreases commits.len(),
{
    if commits.len() == 0 {
        Seq::empty()
    } else {
        selected_changes(commits.drop_last(), cutoff, lang) + commit_contribution(
            commits.last(),
            cutoff,
            lang,
        )
    }
}

/// A commit that fails the commit-level filter contributes no changes at
/// all: none of its changes can reach the exporter or the mapping table.
pub proof fn lemma_excluded_commit_contributes_nothing(
    c: CommitView,
    cutoff: i64,
    lang: Language,
)
    requires
        !spec_commit_passes(c, cutoff, lang),
    ensures
        commit_contribution(c, cutoff, lang) == Seq::<ChangeView>::empty(),
{
}

/// A commit whose author timestamp is at or after the cutoff, or unknown,
/// is excluded entirely: no change of it reaches the exporter or the
/// mapping table, whatever its languages.
pub proof fn lemma_late_commit_contributes_nothing(c: CommitView, cutoff: i64, lang: Language)
    requires
        match c.author_timestamp {
            Some(t) => t >= cutoff,
            None => true,
        },
    ensures
        commit_contribution(c, cutoff, lang) == Seq::<ChangeView>::empty(),
{
}

/// A commit that passes the commit-level filter contributes exactly its
/// qualifying changes, each occurrence once, in their recorded order.
pub proof fn lemma_included_commit_contributes_filter(c: CommitView, cutoff: i64, lang: Language)
    requires
        spec_commit_passes(c, cutoff, lang),
    ensures
        commit_contribution(c, cutoff, lang) == crate::records::changes_of(c).filter(
            |ch: ChangeView| spec_change_qualifies(ch, lang),
        ),
{
}

/// Appending one commit to the stream appends exactly that commit's
/// contribution to the selected changes: traversal order is preserved and
/// no buffering or reordering happens.
pub proof fn lemma_selected_changes_push(
    commits: Seq<CommitView>,
    c: CommitView,
    cutoff: i64,
    lang: Language,
)
    ensures
        selected_changes(commits.push(c), cutoff, lang) == selected_changes(commits, cutoff, lang)
            + commit_contribution(c, cutoff, lang),
{
    assert(commits.push(c).drop_last() =~= commits);
    assert(commits.push(c).last() == c);
}

/// Every qualifying change of a passing commit is selected.
pub proof fn lemma_qualifying_change_selected(c: CommitView, i: int, cutoff: i64, lang: Language)
    requires
        spec_commit_passes(c, cutoff, lang),
        0 <= i < crate::records::changes_of(c).len(),
        spec_change_qualifies(crate::records::changes_of(c)[i], lang),
    ensures
        commit_contribution(c, cutoff, lang).contains(crate::records::changes_of(c)[i]),
{
    broadcast use vstd::seq_lib::group_filter_ensures;

}

/// Every selected change passes the change-level filter; in particular it
/// carries a resolvable snapshot id.
pub proof fn lemma_selected_changes_qualify(commits: Seq<CommitView>, cutoff: i64, lang: Language)
    ensures
        forall|i: int|
            0 <= i < selected_changes(commits, cutoff, lang).len() ==> spec_change_qualifies(
                #[trigger] selected_changes(commits, cutoff, lang)[i],
                lang,
            ),
    decreases commits.len(),
{
    broadcast use vstd::seq_lib::group_filter_ensures;

    if commits.len() > 0 {
        lemma_selected_changes_qualify(commits.drop_last(), cutoff, lang);
        let pre = selected_changes(commits.drop_last(), cutoff, lang);
        let tail_changes = commit_contribution(commits.last(), cutoff, lang);
        assert forall|i: int|
            0 <= i < selected_changes(commits, cutoff, lang).len() implies spec_change_qualifies(
            selected_changes(commits, cutoff, lang)[i],
            lang,
        ) by {
            if i < pre.len() {
                assert(selected_changes(commits, cutoff, lang)[i] == pre[i]);
            } else {
                assert(selected_changes(commits, cutoff, lang)[i] == tail_changes[i - pre.len()]);
                if spec_commit_passes(commits.last(), cutoff, lang) {
                    assert(spec_change_qualifies(
                        crate::records::changes_of(commits.last()).filter(
                            |ch: ChangeView| spec_change_qualifies(ch, lang),
                        )[i - pre.len()],
                        lang,
                    ));
                }
            }
        }
    }
}

/// Selects the qualifying changes of one commit, as indexes into its change
/// list: the empty list when the commit fails the commit-level filter,
/// otherwise the positions of its qualifying changes in increasing order.
pub fn select_commit_change_indexes(c: &CommitRecord, cutoff: i64, lang: Language) -> (idx: Vec<
    usize,
>)
    ensures
        forall|k: int| 0 <= k < idx@.len() ==> idx@[k] < crate::records::changes_of(c@).len(),
        idx@.map_values(|i: usize| crate::records::changes_of(c@)[i as int])
            == commit_contribution(c@, cutoff, lang),
        forall|k1: int, k2: int| 0 <= k1 < k2 < idx@.len() ==> idx@[k1] < idx@[k2],
{
    broadcast use vstd::seq_lib::group_filter_ensures;

    let mut idx: Vec<usize> = Vec::new();
    if !commit_passes(c, cutoff, lang) {
        assert(idx@.map_values(|i: usize| crate::records::changes_of(c@)[i as int]) =~= Seq::<
            ChangeView,
        >::empty());
        return idx;
    }
    match &c.changes {
        None => {
            assert(idx@.map_values(|i: usize| crate::records::changes_of(c@)[i as int]) =~= Seq::<
                ChangeView,
            >::empty());
            assert(crate::records::changes_of(c@).filter(
                |ch: ChangeView| spec_change_qualifies(ch, lang),
            ) =~= Seq::<ChangeView>::empty());
            idx
        },
        Some(changes) => {
            let ghost all: Seq<ChangeView> = crate::records::changes_of(c@);
            let mut j: usize = 0;
            while j < changes.len()
                invariant
                    j <= changes@.len(),
                    all == changes@.map_values(|ch: crate::records::ChangeRecord| ch@),
                    all.len() == changes@.len(),
                    forall|k: int| 0 <= k < idx@.len() ==> idx@[k] < j,
                    forall|k1: int, k2: int| 0 <= k1 < k2 < idx@.len() ==> idx@[k1] < idx@[k2],
                    idx@.map_values(|i: usize| all[i as int]) == all.take(j as int).filter(
                        |ch: ChangeView| spec_change_qualifies(ch, lang),
                    ),
                decreases changes@.len() - j,
            {
                proof {
                    assert(all.take(j + 1) =~= all.take(j as int).push(all[j as int]));
                    all.take(j as int).lemma_filter_push(
                        all[j as int],
                        |ch: ChangeView| spec_change_qualifies(ch, lang),
                    );
                }
                if change_qualifies(&changes[j], lang) {
                    idx.push(j);
                    assert(idx@.map_values(|i: usize| all[i as int]) =~= idx@.drop_last()
                        .map_values(|i: usize| all[i as int]).push(all[j as int]));
                }
                j = j + 1;
            }
            assert(all.take(changes@.len() as int) =~= all);
            idx
        },
    }
}

} // verus!
