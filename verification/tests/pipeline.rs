use snapshot_export::export::Exporter;
use snapshot_export::pipeline::{commit_debug_row, run_job};
use snapshot_export::predicate::{
    change_matches, change_matches_all, commit_matches, commit_matches_all, ChangePredicate,
    CommitPredicate,
};
use snapshot_export::records::{ChangeRecord, CommitRecord, Language, PathRecord};
use snapshot_export::select::select_commit_change_indexes;
use snapshot_export::timestamp::month_start_timestamp;

fn path(location: &str, language: Option<Language>) -> PathRecord {
    PathRecord {
        location: location.to_string(),
        language,
    }
}

fn change(location: &str, language: Option<Language>, snapshot_id: Option<u64>) -> ChangeRecord {
    ChangeRecord {
        path: Some(path(location, language)),
        snapshot_id,
    }
}

fn commit(
    hash: &str,
    author_timestamp: Option<i64>,
    languages: Option<Vec<Language>>,
    changes: Option<Vec<ChangeRecord>>,
) -> CommitRecord {
    let change_count = changes.as_ref().map(|cs| cs.len());
    CommitRecord {
        hash: hash.to_string(),
        author_timestamp,
        languages,
        change_count,
        changes,
    }
}

fn dec_2008() -> i64 {
    month_start_timestamp(2008, 12)
}

#[test]
fn scenario_commit_before_cutoff_is_exported() {
    // A Python commit from May 2007 with one change to main.py, snapshot 1:
    // the snapshot is written once and one mapping row records its path.
    let commits = vec![commit(
        "c1",
        Some(month_start_timestamp(2007, 5)),
        Some(vec![Language::Python]),
        Some(vec![change("main.py", Some(Language::Python), Some(1))]),
    )];
    let plan = run_job(&commits, dec_2008(), Language::Python);
    assert_eq!(plan.writes, vec![1]);
    assert_eq!(plan.rows.len(), 1);
    assert_eq!(plan.rows[0].snapshot_id, 1);
    assert_eq!(plan.rows[0].location, "main.py");
}

#[test]
fn scenario_commit_at_cutoff_is_excluded() {
    // A Python commit from January 2009 fails the timestamp predicate and
    // contributes nothing, whatever its changes look like.
    let commits = vec![commit(
        "c1",
        Some(month_start_timestamp(2009, 1)),
        Some(vec![Language::Python]),
        Some(vec![change("main.py", Some(Language::Python), Some(1))]),
    )];
    let plan = run_job(&commits, dec_2008(), Language::Python);
    assert!(plan.writes.is_empty());
    assert!(plan.rows.is_empty());
}

#[test]
fn scenario_shared_snapshot_written_once() {
    // Two changes in different commits both point to snapshot 2: one file,
    // two mapping rows, each with its own path.
    let commits = vec![
        commit(
            "c1",
            Some(month_start_timestamp(2007, 5)),
            Some(vec![Language::Python]),
            Some(vec![change("a/one.py", Some(Language::Python), Some(2))]),
        ),
        commit(
            "c2",
            Some(month_start_timestamp(2008, 3)),
            Some(vec![Language::Python]),
            Some(vec![change("b/two.py", Some(Language::Python), Some(2))]),
        ),
    ];
    let plan = run_job(&commits, dec_2008(), Language::Python);
    assert_eq!(plan.writes, vec![2]);
    assert_eq!(plan.rows.len(), 2);
    assert_eq!(plan.rows[0].snapshot_id, 2);
    assert_eq!(plan.rows[0].location, "a/one.py");
    assert_eq!(plan.rows[1].snapshot_id, 2);
    assert_eq!(plan.rows[1].location, "b/two.py");
}

#[test]
fn scenario_change_without_snapshot_contributes_nothing() {
    // A change with no snapshot id yields zero rows and zero files.
    let commits = vec![commit(
        "c1",
        Some(month_start_timestamp(2007, 5)),
        Some(vec![Language::Python]),
        Some(vec![change("gone.py", Some(Language::Python), None)]),
    )];
    let plan = run_job(&commits, dec_2008(), Language::Python);
    assert!(plan.writes.is_empty());
    assert!(plan.rows.is_empty());
}

#[test]
fn dedup_within_one_commit() {
    let commits = vec![commit(
        "c1",
        Some(month_start_timestamp(2007, 5)),
        Some(vec![Language::Python]),
        Some(vec![
            change("x.py", Some(Language::Python), Some(7)),
            change("copy_of_x.py", Some(Language::Python), Some(7)),
        ]),
    )];
    let plan = run_job(&commits, dec_2008(), Language::Python);
    assert_eq!(plan.writes, vec![7]);
    assert_eq!(plan.rows.len(), 2);
    assert_eq!(plan.rows[0].location, "x.py");
    assert_eq!(plan.rows[1].location, "copy_of_x.py");
}

#[test]
fn job_runs_are_idempotent() {
    // The same job against the same input produces the same writes and the
    // same rows, in the same order.
    let commits = vec![
        commit(
            "c1",
            Some(month_start_timestamp(2007, 5)),
            Some(vec![Language::Python, Language::C]),
            Some(vec![
                change("x.py", Some(Language::Python), Some(7)),
                change("y.c", Some(Language::C), Some(8)),
                change("z.py", Some(Language::Python), Some(9)),
            ]),
        ),
        commit(
            "c2",
            Some(month_start_timestamp(2008, 11)),
            Some(vec![Language::Python]),
            Some(vec![change("x.py", Some(Language::Python), Some(7))]),
        ),
    ];
    let first = run_job(&commits, dec_2008(), Language::Python);
    let second = run_job(&commits, dec_2008(), Language::Python);
    assert_eq!(first.writes, second.writes);
    assert_eq!(first.rows.len(), second.rows.len());
    for (a, b) in first.rows.iter().zip(second.rows.iter()) {
        assert_eq!(a.snapshot_id, b.snapshot_id);
        assert_eq!(a.location, b.location);
    }
    assert_eq!(first.writes, vec![7, 9]);
    assert_eq!(first.rows.len(), 3);
}

#[test]
fn commit_order_and_change_order_are_kept() {
    let commits = vec![
        commit(
            "c1",
            Some(month_start_timestamp(2006, 1)),
            Some(vec![Language::Python]),
            Some(vec![
                change("b.py", Some(Language::Python), Some(5)),
                change("a.py", Some(Language::Python), Some(4)),
            ]),
        ),
        commit(
            "c2",
            Some(month_start_timestamp(2006, 2)),
            Some(vec![Language::Python]),
            Some(vec![change("c.py", Some(Language::Python), Some(3))]),
        ),
    ];
    let plan = run_job(&commits, dec_2008(), Language::Python);
    assert_eq!(plan.writes, vec![5, 4, 3]);
    let locations: Vec<&str> = plan.rows.iter().map(|r| r.location.as_str()).collect();
    assert_eq!(locations, vec!["b.py", "a.py", "c.py"]);
}

#[test]
fn commit_without_timestamp_is_excluded() {
    // A commit with no author timestamp is never "before" any cutoff.
    let commits = vec![commit(
        "c1",
        None,
        Some(vec![Language::Python]),
        Some(vec![change("main.py", Some(Language::Python), Some(1))]),
    )];
    let plan = run_job(&commits, dec_2008(), Language::Python);
    assert!(plan.writes.is_empty());
    assert!(plan.rows.is_empty());
}

#[test]
fn commit_without_languages_is_excluded() {
    let commits = vec![commit(
        "c1",
        Some(month_start_timestamp(2007, 5)),
        None,
        Some(vec![change("main.py", Some(Language::Python), Some(1))]),
    )];
    let plan = run_job(&commits, dec_2008(), Language::Python);
    assert!(plan.rows.is_empty());
}

#[test]
fn commit_without_changes_contributes_nothing() {
    let commits = vec![commit(
        "c1",
        Some(month_start_timestamp(2007, 5)),
        Some(vec![Language::Python]),
        None,
    )];
    let plan = run_job(&commits, dec_2008(), Language::Python);
    assert!(plan.writes.is_empty());
    assert!(plan.rows.is_empty());
}

#[test]
fn change_of_another_language_is_excluded() {
    let commits = vec![commit(
        "c1",
        Some(month_start_timestamp(2007, 5)),
        Some(vec![Language::Python, Language::C]),
        Some(vec![
            change("main.c", Some(Language::C), Some(1)),
            change("util.py", Some(Language::Python), Some(2)),
            change("README", None, Some(3)),
        ]),
    )];
    let plan = run_job(&commits, dec_2008(), Language::Python);
    assert_eq!(plan.writes, vec![2]);
    assert_eq!(plan.rows.len(), 1);
    assert_eq!(plan.rows[0].location, "util.py");
}

#[test]
fn exporter_substitutes_empty_location() {
    // A change whose path cannot be resolved still maps its snapshot id,
    // with the empty string as its location.
    let mut exporter = Exporter::new();
    let ch = ChangeRecord {
        path: None,
        snapshot_id: Some(11),
    };
    let step = exporter.export(&ch).expect("snapshot id is present");
    assert_eq!(step.snapshot_id, 11);
    assert!(step.write_content);
    let rows = exporter.rows();
    assert_eq!(rows.len(), 1);
    assert_eq!(rows[0].snapshot_id, 11);
    assert_eq!(rows[0].location, "");
}

#[test]
fn exporter_skips_changes_without_snapshot() {
    let mut exporter = Exporter::new();
    let ch = ChangeRecord {
        path: Some(path("main.py", Some(Language::Python))),
        snapshot_id: None,
    };
    assert!(exporter.export(&ch).is_none());
    assert!(exporter.rows().is_empty());
    assert!(exporter.written_ids().is_empty());
}

#[test]
fn exporter_reports_repeat_ids_without_rewriting() {
    let mut exporter = Exporter::new();
    let first = exporter
        .export(&change("a.py", Some(Language::Python), Some(5)))
        .unwrap();
    let second = exporter
        .export(&change("b.py", Some(Language::Python), Some(5)))
        .unwrap();
    assert!(first.write_content);
    assert!(!second.write_content);
    assert!(exporter.has_written(5));
    assert!(!exporter.has_written(6));
    assert_eq!(exporter.written_ids(), &vec![5]);
    assert_eq!(exporter.rows().len(), 2);
}

#[test]
fn predicates_judge_single_records() {
    let c = commit(
        "c1",
        Some(month_start_timestamp(2007, 5)),
        Some(vec![Language::Python]),
        None,
    );
    assert!(commit_matches(&c, CommitPredicate::AuthoredBefore(dec_2008())));
    assert!(!commit_matches(
        &c,
        CommitPredicate::AuthoredBefore(month_start_timestamp(2007, 5))
    ));
    assert!(commit_matches(
        &c,
        CommitPredicate::LanguagesContain(Language::Python)
    ));
    assert!(!commit_matches(
        &c,
        CommitPredicate::LanguagesContain(Language::Ruby)
    ));
    let ch = change("main.py", Some(Language::Python), Some(1));
    assert!(change_matches(
        &ch,
        ChangePredicate::PathLanguageIs(Language::Python)
    ));
    assert!(!change_matches(
        &ch,
        ChangePredicate::PathLanguageIs(Language::C)
    ));
    assert!(change_matches(&ch, ChangePredicate::HasSnapshot));
}

#[test]
fn predicate_lists_compose_as_and() {
    let c = commit(
        "c1",
        Some(month_start_timestamp(2007, 5)),
        Some(vec![Language::Python]),
        None,
    );
    let both = vec![
        CommitPredicate::AuthoredBefore(dec_2008()),
        CommitPredicate::LanguagesContain(Language::Python),
    ];
    let failing = vec![
        CommitPredicate::AuthoredBefore(dec_2008()),
        CommitPredicate::LanguagesContain(Language::Ruby),
    ];
    assert!(commit_matches_all(&c, &both));
    assert!(!commit_matches_all(&c, &failing));
    assert!(commit_matches_all(&c, &Vec::new()));

    let ch = change("main.py", Some(Language::Python), None);
    let wants_snapshot = vec![
        ChangePredicate::PathLanguageIs(Language::Python),
        ChangePredicate::HasSnapshot,
    ];
    assert!(!change_matches_all(&ch, &wants_snapshot));
    assert!(change_matches_all(
        &ch,
        &vec![ChangePredicate::PathLanguageIs(Language::Python)]
    ));
}

#[test]
fn selecting_indexes_of_one_commit() {
    let c = commit(
        "c1",
        Some(month_start_timestamp(2007, 5)),
        Some(vec![Language::Python, Language::C]),
        Some(vec![
            change("a.py", Some(Language::Python), Some(1)),
            change("b.c", Some(Language::C), Some(2)),
            change("c.py", Some(Language::Python), None),
            change("d.py", Some(Language::Python), Some(3)),
        ]),
    );
    let idx = select_commit_change_indexes(&c, dec_2008(), Language::Python);
    assert_eq!(idx, vec![0, 3]);
}

#[test]
fn selecting_indexes_of_an_excluded_commit() {
    let c = commit(
        "c1",
        Some(month_start_timestamp(2009, 6)),
        Some(vec![Language::Python]),
        Some(vec![change("a.py", Some(Language::Python), Some(1))]),
    );
    let idx = select_commit_change_indexes(&c, dec_2008(), Language::Python);
    assert!(idx.is_empty());
}

#[test]
fn debug_row_reports_what_the_filters_see() {
    let c = commit(
        "c1",
        Some(month_start_timestamp(2007, 5)),
        Some(vec![Language::Python]),
        Some(vec![change("a.py", Some(Language::Python), Some(1))]),
    );
    let row = commit_debug_row(&c, dec_2008(), Language::Python);
    assert_eq!(row.hash, "c1");
    assert_eq!(row.change_count, 1);
    assert!(row.touches_language);
    assert_eq!(row.author_timestamp, Some(month_start_timestamp(2007, 5)));
    assert_eq!(row.cutoff, dec_2008());
    assert!(row.before_cutoff);

    let bare = CommitRecord {
        hash: "c2".to_string(),
        author_timestamp: None,
        languages: None,
        change_count: None,
        changes: None,
    };
    let row = commit_debug_row(&bare, dec_2008(), Language::Python);
    assert_eq!(row.hash, "c2");
    assert_eq!(row.change_count, 0);
    assert!(!row.touches_language);
    assert_eq!(row.author_timestamp, None);
    assert!(!row.before_cutoff);
}
