use rustsync::runner::{
    finalize_move_action, is_aborted, notice_body, notice_status, notice_title, plan_snapshot_mode,
    set_abort_flag, clear_abort_flag, skip_channel, AbortFlags, FinalizeAction, Step, StepKind,
    SyncRun,
};
use rustsync::sync::{
    compare_entries_live, compare_with_snapshot, compute_fingerprint, snapshot_rows, FileEntry,
    Snapshot, SyncOperation,
};

fn file(path: &str, size: i64, modified: Option<i64>) -> FileEntry {
    FileEntry {
        path: path.to_string(),
        name: path.rsplit('/').next().unwrap().to_string(),
        is_dir: false,
        size,
        modified,
        fingerprint: None,
    }
}

fn dir(path: &str) -> FileEntry {
    FileEntry {
        path: path.to_string(),
        name: path.rsplit('/').next().unwrap().to_string(),
        is_dir: true,
        size: 4096,
        modified: Some(1),
        fingerprint: None,
    }
}

fn copy(p: &str, size: i64) -> SyncOperation {
    SyncOperation::Copy { src: p.to_string(), dst: p.to_string(), size }
}

#[test]
fn fingerprint_is_size_dir_and_mtime() {
    assert_eq!(compute_fingerprint(&file("a", 12, Some(34))), "12:false:34");
    assert_eq!(compute_fingerprint(&file("a", -1, None)), "-1:false:0");
    assert_eq!(compute_fingerprint(&dir("d")), "4096:true:1");
}

#[test]
fn live_copy_mode_copies_new_and_changed_files() {
    let src = vec![dir("d"), file("d/a", 1, Some(5)), file("b", 2, Some(6)), file("c", 3, Some(7))];
    let dst = vec![dir("d"), file("d/a", 1, Some(5)), file("b", 9, Some(6)), file("old", 1, None)];
    let ops = compare_entries_live(&src, &dst, 0);
    assert_eq!(ops, vec![copy("b", 2), copy("c", 3)]);
}

#[test]
fn live_copy_mode_copies_missing_directory_with_size_zero() {
    let src = vec![dir("new")];
    let ops = compare_entries_live(&src, &[], 0);
    assert_eq!(ops, vec![copy("new", 0)]);
}

#[test]
fn live_full_sync_deletes_target_only_entries() {
    let src = vec![file("keep", 1, Some(1))];
    let dst = vec![file("keep", 1, Some(1)), file("gone", 5, None), dir("gdir")];
    let ops = compare_entries_live(&src, &dst, 1);
    assert_eq!(
        ops,
        vec![
            SyncOperation::Delete { path: "gone".to_string(), is_dir: false },
            SyncOperation::Delete { path: "gdir".to_string(), is_dir: true },
        ]
    );
}

#[test]
fn live_move_mode_moves_files_but_not_directories() {
    let src = vec![dir("d"), file("d/x", 7, Some(2))];
    let ops = compare_entries_live(&src, &[], 2);
    assert_eq!(
        ops,
        vec![SyncOperation::Move { src: "d/x".to_string(), dst: "d/x".to_string(), size: 7 }]
    );
}

#[test]
fn live_plan_of_identical_trees_is_empty() {
    let tree = vec![dir("d"), file("d/a", 1, Some(5)), file("b", 2, None)];
    for method in 0..3 {
        assert!(compare_entries_live(&tree, &tree, method).is_empty());
    }
}

#[test]
fn snapshot_of_unchanged_source_is_quiet() {
    let src = vec![dir("d"), file("d/a", 1, Some(5)), file("b", 2, None)];
    let snap = Snapshot::from_rows(snapshot_rows(&src));
    assert_eq!(snap.len(), 3);
    for method in 0..3 {
        assert!(compare_with_snapshot(&src, &snap, method).is_empty());
    }
}

#[test]
fn saved_snapshot_reads_back_one_row_per_entry() {
    let src = vec![dir("d"), file("d/a", 1, Some(5)), file("b", 2, None)];
    let rows = snapshot_rows(&src);
    assert_eq!(rows.len(), 3);
    assert_eq!((rows[0].path.as_str(), rows[0].is_dir, rows[0].size, rows[0].fingerprint.is_none()), ("d", true, None, true));
    assert_eq!((rows[1].path.as_str(), rows[1].size), ("d/a", Some(1)));
    assert_eq!(rows[1].fingerprint, Some(compute_fingerprint(&src[1])));
    assert_eq!(Snapshot::from_rows(rows).len(), 3);
}

#[test]
fn snapshot_mode_transfers_changed_and_new_files() {
    let before = vec![file("a", 1, Some(5)), file("b", 2, Some(5)), file("gone", 3, None)];
    let snap = Snapshot::from_rows(snapshot_rows(&before));
    let now = vec![file("a", 1, Some(5)), file("b", 2, Some(6)), file("c", 4, None)];
    assert_eq!(compare_with_snapshot(&now, &snap, 0), vec![copy("b", 2), copy("c", 4)]);
    let full = compare_with_snapshot(&now, &snap, 1);
    assert_eq!(
        full,
        vec![
            copy("b", 2),
            copy("c", 4),
            SyncOperation::Delete { path: "gone".to_string(), is_dir: false }
        ]
    );
}

#[test]
fn first_snapshot_run_compares_against_empty_target() {
    let src = vec![dir("d"), file("d/a", 1, Some(5))];
    let ops = plan_snapshot_mode(&src, None, 0);
    assert_eq!(ops, vec![copy("d", 0), copy("d/a", 1)]);
}

#[test]
fn abort_flags_are_per_job() {
    let mut flags = AbortFlags::new();
    set_abort_flag(&mut flags, 7);
    assert!(is_aborted(&flags, 7));
    assert!(!is_aborted(&flags, 8));
    clear_abort_flag(&mut flags, 7);
    assert!(!is_aborted(&flags, 7));
}

#[test]
fn run_deletes_on_first_root_only_and_counts() {
    let ops = vec![
        copy("a", 1),
        SyncOperation::Delete { path: "x".to_string(), is_dir: false },
    ];
    let roots = vec!["/r1".to_string(), "/r2".to_string()];
    let mut run = SyncRun::new(1, 0, false, roots, ops, vec![]);
    let mut kinds = vec![];
    loop {
        match run.next(false) {
            Step::Finished => break,
            Step::Do { kind, root, op } => {
                kinds.push((kind, root, op));
                run.report(true);
            }
        }
    }
    assert_eq!(
        kinds,
        vec![
            (StepKind::Execute, 0, 0),
            (StepKind::Execute, 0, 1),
            (StepKind::Execute, 1, 0),
            (StepKind::RecordDone, 1, 1),
        ]
    );
    let s = run.finish(false);
    assert_eq!((s.total, s.success, s.failed, s.status), (4, 4, 0, 2));
    assert!(!s.finalize_move && !s.save_snapshot);
}

#[test]
fn move_run_finalizes_only_after_clean_run() {
    let ops = vec![SyncOperation::Move { src: "m".to_string(), dst: "m".to_string(), size: 3 }];
    let mut run = SyncRun::new(2, 0, false, vec!["/t".to_string()], ops.clone(), vec![]);
    match run.next(false) {
        Step::Do { kind, .. } => assert_eq!(kind, StepKind::CopyForMove),
        Step::Finished => panic!("a step was expected"),
    }
    run.report(true);
    assert!(matches!(run.next(false), Step::Finished));
    let s = run.finish(false);
    assert!(s.finalize_move);
    assert_eq!(run.moved(), &vec![("m".to_string(), 3i64)]);

    let mut failing = SyncRun::new(2, 0, false, vec!["/t".to_string()], ops, vec![]);
    let _ = failing.next(false);
    failing.report(false);
    let s = failing.finish(false);
    assert!(!s.finalize_move);
    assert_eq!((s.success, s.failed, s.status), (0, 1, 6));
}

#[test]
fn aborted_run_stops_and_saves_nothing() {
    let ops = vec![copy("a", 1), copy("b", 1)];
    let mut run = SyncRun::new(0, 1, false, vec!["/t".to_string()], ops, vec![]);
    let _ = run.next(false);
    run.report(true);
    assert!(matches!(run.next(true), Step::Finished));
    assert!(matches!(run.next(false), Step::Finished));
    let s = run.finish(true);
    assert_eq!((s.total, s.success, s.failed), (2, 1, 0));
    assert!(!s.save_snapshot);
}

#[test]
fn snapshot_run_skips_files_in_failed_directories() {
    let ops = vec![copy("d/a", 1), copy("e/b", 1)];
    let mut run = SyncRun::new(0, 1, false, vec!["/t".to_string()], ops, vec!["d".to_string()]);
    assert!(matches!(run.next(false), Step::Do { kind: StepKind::SkipFailedDir, .. }));
    assert!(matches!(run.next(false), Step::Do { kind: StepKind::Execute, .. }));
    run.report(true);
    let s = run.finish(false);
    assert_eq!((s.success, s.failed, s.status), (1, 0, 2));
    assert!(s.save_snapshot);
}

#[test]
fn full_sync_with_size_filter_clears_target_only_directories() {
    let ops = vec![SyncOperation::Delete { path: "d".to_string(), is_dir: true }];
    let mut run = SyncRun::new(1, 0, true, vec!["/t".to_string()], ops, vec![]);
    assert!(matches!(run.next(false), Step::Do { kind: StepKind::ClearTargetOnlyDir, .. }));
}

#[test]
fn finalize_move_checks_source_before_removing() {
    assert_eq!(finalize_move_action(false, None, 3), FinalizeAction::AlreadyGone);
    assert_eq!(finalize_move_action(true, None, 3), FinalizeAction::Unreadable);
    assert_eq!(finalize_move_action(true, Some(4), 3), FinalizeAction::Changed);
    assert_eq!(finalize_move_action(true, Some(3), 3), FinalizeAction::Remove);
}

#[test]
fn completion_notice_texts() {
    assert_eq!(notice_status(0, 0, 0), "无需同步");
    assert_eq!(notice_status(3, 3, 0), "成功");
    assert_eq!(notice_status(3, 1, 2), "部分失败");
    assert_eq!(notice_status(3, 0, 3), "失败");
    assert_eq!(notice_title(Some("备份"), "成功"), "备份: 成功");
    assert_eq!(notice_title(Some(""), "成功"), "RustSync: 成功");
    assert_eq!(notice_title(None, "失败"), "RustSync: 失败");
    assert_eq!(
        notice_body("/src", "/a:/b", 4, 3, 1),
        "来源: /src\n目标: /a、/b\n总数: 4  成功: 3  失败: 1"
    );
}

#[test]
fn empty_runs_may_skip_channels() {
    assert!(skip_channel(0, 0, true));
    assert!(!skip_channel(0, 0, false));
    assert!(!skip_channel(1, 0, true));
}
