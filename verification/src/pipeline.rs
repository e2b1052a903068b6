//! The pipeline driver: one named extraction job, wired end to end.
//!
//! The driver pulls the commit stream through the predicate evaluator and
//! the stream transformer, feeds every selected change to the exporter,
//! and hands back the job's plan: which snapshot ids to write, in
//! first-seen order, and the full mapping table, in arrival order. The
//! caller owns the output directory, performs the writes, and serializes
//! the table.

use vstd::prelude::*;

use crate::export::{
    empty_exporter, lemma_count_with_snapshot_all, lemma_export_all_dedup, lemma_export_all_push,
    lemma_export_all_row_count, lemma_export_all_rows_exact, spec_export_all, spec_row, Exporter,
    ExporterView, MappingRow,
};
use crate::predicate::{
    change_qualifies, commit_passes, spec_change_qualifies, spec_commit_matches, CommitPredicate,
};
use crate::records::{ChangeRecord, ChangeView, CommitRecord, CommitView, Language};
use crate::select::{
    commit_contribution, lemma_selected_changes_push, lemma_selected_changes_qualify,
    selected_changes,
};

verus! {

/// Everything one job run asks of its caller: the snapshot ids whose
/// content must be fetched and written, each exactly once, in first-seen
/// order, and the mapping table rows, one per selected change, in arrival
/// order.
pub struct JobPlan {
    pub writes: Vec<u64>,
    pub rows: Vec<MappingRow>,
}

/// The views of a sequence of commit records.
pub open spec fn views_of(commits: Seq<CommitRecord>) -> Seq<CommitView> {
    commits.map_values(|c: CommitRecord| c@)
}

/// The exporter state a job run ends in: every selected change exported,
/// in stream order, starting from the empty run.
pub open spec fn spec_run(commits: Seq<CommitView>, cutoff: i64, lang: Language) -> ExporterView {
    spec_export_all(empty_exporter(), selected_changes(commits, cutoff, lang))
}

/// Runs one extraction job over a commit stream: keeps the commits
/// authored strictly before the cutoff whose language set contains the
/// language, flattens them into their changes, keeps the changes of that
/// language with a resolvable snapshot id, and exports those in stream
/// order with content-addressed deduplication.
pub fn run_job(commits: &Vec<CommitRecord>, cutoff: i64, lang: Language) -> (plan: JobPlan)
    ensures
        plan.writes@ == spec_run(views_of(commits@), cutoff, lang).seen,
        plan.rows@.map_values(|m: MappingRow| m@) == spec_run(views_of(commits@), cutoff, lang).rows,
{
    let ghost cviews: Seq<CommitView> = views_of(commits@);
    let mut exporter = Exporter::new();
    let mut i: usize = 0;
    while i < commits.len()
        invariant
            i <= commits@.len(),
            cviews == views_of(commits@),
            cviews.len() == commits@.len(),
            exporter@ == spec_export_all(
                empty_exporter(),
                selected_changes(cviews.take(i as int), cutoff, lang),
            ),
        decreases commits@.len() - i,
    {
        let ghost sel_here: Seq<ChangeView> = selected_changes(cviews.take(i as int), cutoff, lang);
        let commit = &commits[i];
        assert(commit@ == cviews[i as int]);
        if commit_passes(commit, cutoff, lang) {
            match &commit.changes {
                None => {
                    proof {
                        assert(commit_contribution(cviews[i as int], cutoff, lang) =~= Seq::<
                            ChangeView,
                        >::empty());
                        assert(sel_here + commit_contribution(cviews[i as int], cutoff, lang)
                            =~= sel_here);
                    }
                },
                Some(changes) => {
                    let ghost all: Seq<ChangeView> = crate::records::changes_of(commit@);
                    let mut j: usize = 0;
                    while j < changes.len()
                        invariant
                            j <= changes@.len(),
                            all == changes@.map_values(|ch: ChangeRecord| ch@),
                            all.len() == changes@.len(),
                            exporter@ == spec_export_all(
                                empty_exporter(),
                                sel_here + all.take(j as int).filter(
                                    |ch: ChangeView| spec_change_qualifies(ch, lang),
                                ),
                            ),
                        decreases changes@.len() - j,
                    {
                        let ghost before: Seq<ChangeView> = sel_here + all.take(j as int).filter(
                            |ch: ChangeView| spec_change_qualifies(ch, lang),
                        );
                        proof {
                            assert(all.take(j + 1) =~= all.take(j as int).push(all[j as int]));
                            all.take(j as int).lemma_filter_push(
                                all[j as int],
                                |ch: ChangeView| spec_change_qualifies(ch, lang),
                            );
                        }
                        if change_qualifies(&changes[j], lang) {
                            let _ = exporter.export(&changes[j]);
                            proof {
                                assert(sel_here + all.take(j + 1).filter(
                                    |ch: ChangeView| spec_change_qualifies(ch, lang),
                                ) =~= before.push(all[j as int]));
                                lemma_export_all_push(empty_exporter(), before, all[j as int]);
                            }
                        }
                        j = j + 1;
                    }
                    proof {
                        assert(all.take(changes@.len() as int) =~= all);
                        assert(commit_contribution(cviews[i as int], cutoff, lang) == all.filter(
                            |ch: ChangeView| spec_change_qualifies(ch, lang),
                        ));
                    }
                },
            }
        } else {
            proof {
                assert(sel_here + commit_contribution(cviews[i as int], cutoff, lang) =~= sel_here);
            }
        }
        proof {
            assert(cviews.take(i + 1) =~= cviews.take(i as int).push(cviews[i as int]));
            lemma_selected_changes_push(cviews.take(i as int), cviews[i as int], cutoff, lang);
        }
        i = i + 1;
    }
    proof {
        assert(cviews.take(commits@.len() as int) =~= cviews);
    }
    let parts = exporter.into_parts();
    JobPlan { writes: parts.0, rows: parts.1 }
}

/// Idempotence of a job run: the plan is a function of the input stream
/// and the job's predicates alone, so two runs over the same commits
/// produce the same writes and the same mapping rows.
pub proof fn lemma_job_deterministic(
    commits: Seq<CommitView>,
    cutoff: i64,
    lang: Language,
    first: ExporterView,
    second: ExporterView,
)
    requires
        first == spec_run(commits, cutoff, lang),
        second == spec_run(commits, cutoff, lang),
    ensures
        first == second,
{
}

/// Dedup correctness of a whole job: the content files written are
/// pairwise distinct; an id is written exactly when some selected change
/// carries it; and the mapping table holds one row per selected change,
/// independent of deduplication.
pub proof fn lemma_job_dedup(commits: Seq<CommitView>, cutoff: i64, lang: Language)
    ensures
        spec_run(commits, cutoff, lang).seen.no_duplicates(),
        forall|id: u64|
            #[trigger] spec_run(commits, cutoff, lang).seen.contains(id) <==> exists|i: int|
                0 <= i < selected_changes(commits, cutoff, lang).len()
                    && #[trigger] selected_changes(commits, cutoff, lang)[i].snapshot_id == Some(
                    id,
                ),
        spec_run(commits, cutoff, lang).rows.len() == selected_changes(
            commits,
            cutoff,
            lang,
        ).len(),
{
    let sel = selected_changes(commits, cutoff, lang);
    lemma_export_all_dedup(empty_exporter(), sel);
    lemma_export_all_row_count(empty_exporter(), sel);
    lemma_selected_changes_qualify(commits, cutoff, lang);
    lemma_count_with_snapshot_all(sel);
}

/// The mapping table of a whole job, row by row: exactly one row per
/// selected change, in stream order, each relating the change's snapshot
/// id to its original location.
pub proof fn lemma_job_rows_exact(commits: Seq<CommitView>, cutoff: i64, lang: Language)
    ensures
        spec_run(commits, cutoff, lang).rows == selected_changes(commits, cutoff, lang).map_values(
            |c: ChangeView| spec_row(c),
        ),
{
    let sel = selected_changes(commits, cutoff, lang);
    lemma_selected_changes_qualify(commits, cutoff, lang);
    lemma_export_all_rows_exact(empty_exporter(), sel);
    assert(empty_exporter().rows + sel.map_values(|c: ChangeView| spec_row(c)) =~= sel.map_values(
        |c: ChangeView| spec_row(c),
    ));
}

/// One line of the per-commit diagnostic report: what the job's two
/// commit-level predicates see, with absent fields substituted the way the
/// filters treat them.
pub struct CommitDebugRow {
    pub hash: String,
    pub change_count: usize,
    pub touches_language: bool,
    pub author_timestamp: Option<i64>,
    pub cutoff: i64,
    pub before_cutoff: bool,
}

/// Computes the diagnostic row of one commit: its hash, its change count
/// with zero substituted when unknown, and how the job's language and
/// timestamp predicates judge it.
pub fn commit_debug_row(c: &CommitRecord, cutoff: i64, lang: Language) -> (row: CommitDebugRow)
    ensures
        row.hash@ == c@.hash,
        row.change_count == (match c@.change_count {
            Some(n) => n,
            None => 0,
        }),
        row.touches_language == spec_commit_matches(
            c@,
            CommitPredicate::LanguagesContain(lang),
        ),
        row.author_timestamp == c@.author_timestamp,
        row.cutoff == cutoff,
        row.before_cutoff == spec_commit_matches(c@, CommitPredicate::AuthoredBefore(cutoff)),
{
    let hash = c.hash.clone();
    let change_count: usize = match c.change_count {
        Some(n) => n,
        None => 0,
    };
    let touches_language = crate::predicate::commit_matches(
        c,
        CommitPredicate::LanguagesContain(lang),
    );
    let before_cutoff = crate::predicate::commit_matches(
        c,
        CommitPredicate::AuthoredBefore(cutoff),
    );
    CommitDebugRow {
        hash,
        change_count,
        touches_language,
        author_timestamp: c.author_timestamp,
        cutoff,
        before_cutoff,
    }
}

} // verus!
