use celesta::history::EditHistory;

fn edit(history: &mut EditHistory<i64>, project: &mut i64, value: i64) {
    let before = *project;
    let revision = history.current_revision();
    *project = value;
    history.record_mutation(before, revision, value);
}

fn changed(history: &EditHistory<i64>, project: i64) -> bool {
    history.group_snapshot().is_some_and(|snapshot| *snapshot != project)
}

fn undo(history: &mut EditHistory<i64>, project: &mut i64) -> bool {
    let group_changed = changed(history, *project);
    match history.undo(group_changed, *project) {
        None => false,
        Some(entry) => {
            *project = entry.before.project;
            history.finish_undo(entry);
            true
        }
    }
}

fn redo(history: &mut EditHistory<i64>, project: &mut i64) -> bool {
    let group_changed = changed(history, *project);
    match history.redo(group_changed, *project) {
        None => false,
        Some(entry) => {
            *project = entry.after.project;
            history.finish_redo(entry);
            true
        }
    }
}

#[test]
fn history_undo_redo_tracks_revisions_and_discards_redo_branches() {
    let mut history = EditHistory::new();
    let mut project = 0_i64;
    assert!(!history.is_dirty(false));
    assert!(!history.can_undo(false));

    edit(&mut history, &mut project, 30);
    assert!(history.is_dirty(false));
    assert!(history.can_undo(false));
    assert_eq!(history.current_revision(), 1);

    assert!(undo(&mut history, &mut project));
    assert!(!history.is_dirty(false));
    assert!(history.can_redo());
    assert_eq!(project, 0);
    assert_eq!(history.current_revision(), 0);

    assert!(redo(&mut history, &mut project));
    assert!(history.is_dirty(false));
    assert_eq!(project, 30);
    assert_eq!(history.current_revision(), 1);

    assert!(undo(&mut history, &mut project));
    edit(&mut history, &mut project, 60);
    assert!(!history.can_redo());
    assert_eq!(project, 60);
    assert_eq!(history.current_revision(), 2);
}

#[test]
fn history_coalesces_a_live_drag_into_one_entry() {
    let mut history = EditHistory::new();
    let mut project = 0_i64;

    history.begin_group(project);
    edit(&mut history, &mut project, 10);
    edit(&mut history, &mut project, 20);
    edit(&mut history, &mut project, 30);
    assert!(history.is_dirty(changed(&history, project)));
    assert!(history.can_undo(changed(&history, project)));
    assert!(!history.can_redo());
    assert!(history.commit_group(changed(&history, project), project));

    assert!(undo(&mut history, &mut project));
    assert_eq!(project, 0);
    assert!(!undo(&mut history, &mut project));
}

#[test]
fn history_group_without_change_leaves_no_entry() {
    let mut history = EditHistory::new();
    let mut project = 5_i64;
    history.begin_group(project);
    edit(&mut history, &mut project, 7);
    edit(&mut history, &mut project, 5);
    assert!(!history.is_dirty(changed(&history, project)));
    assert!(!history.commit_group(changed(&history, project), project));
    assert!(!history.can_undo(false));
    assert!(!history.commit_group(false, project));
}

#[test]
fn history_undo_commits_a_live_group_first() {
    let mut history = EditHistory::new();
    let mut project = 1_i64;
    history.begin_group(project);
    edit(&mut history, &mut project, 9);
    assert!(undo(&mut history, &mut project));
    assert_eq!(project, 1);
    assert!(redo(&mut history, &mut project));
    assert_eq!(project, 9);
}

#[test]
fn history_saved_revision_is_clean_again_after_undo_and_redo() {
    let mut history = EditHistory::new();
    let mut project = 0_i64;
    edit(&mut history, &mut project, 1);
    history.mark_saved();
    assert!(!history.is_dirty(false));

    edit(&mut history, &mut project, 2);
    assert!(history.is_dirty(false));
    assert!(undo(&mut history, &mut project));
    assert!(!history.is_dirty(false));
    assert!(undo(&mut history, &mut project));
    assert!(history.is_dirty(false));
    assert!(redo(&mut history, &mut project));
    assert!(!history.is_dirty(false));
    assert_eq!(project, 1);
}
