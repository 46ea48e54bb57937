use oculus::models::{RawComment, RawDevlog, RawProject, SlackProfile};
use oculus::shells::ShellHistoryEntry;
use oculus::store::MirrorStore;

fn project(id: i64, title: &str) -> RawProject {
    RawProject {
        id,
        title: title.to_string(),
        description: Some(format!("about {title}")),
        readme_link: None,
        slack_id: "U1".to_string(),
        created_at: "2024-01-01T00:00:00Z".to_string(),
        updated_at: "2024-01-01T00:00:00Z".to_string(),
    }
}

fn devlog(id: i64, project_id: i64) -> RawDevlog {
    RawDevlog {
        id,
        text: "made progress".to_string(),
        project_id,
        slack_id: "U1".to_string(),
        created_at: "2024-01-01T00:00:00Z".to_string(),
        updated_at: "2024-01-01T00:00:00Z".to_string(),
    }
}

fn comment(devlog_id: i64, slack_id: &str) -> RawComment {
    RawComment {
        text: "nice".to_string(),
        devlog_id,
        slack_id: slack_id.to_string(),
        created_at: "2024-01-01T00:00:00Z".to_string(),
    }
}

fn entry(recorded_at: i64, shells_then: i32, diff: i32) -> ShellHistoryEntry {
    ShellHistoryEntry { recorded_at, shells_then, shell_diff: diff, shells: shells_then + diff }
}

#[test]
fn cold_backfill_mirrors_every_table() {
    let mut store = MirrorStore::new();
    for p in [project(1, "one"), project(2, "two"), project(3, "three")] {
        store.upsert_project(&p, 100, 100);
    }
    store.insert_devlog_new(&devlog(10, 1), 100, 100);
    store.insert_devlog_new(&devlog(11, 2), 100, 100);
    store.insert_comment_new(&comment(10, "U2"), 100);
    store.upsert_user_placeholder(&"U1".to_string());
    assert_eq!(store.projects.len(), 3);
    assert_eq!(store.devlogs.len(), 2);
    assert_eq!(store.comments.len(), 1);
    assert_eq!(store.users.len(), 1);
    assert_eq!(store.users[0].pfp_url, "notfound");
    assert!(store.users[0].current_shells.is_none());
    assert_eq!(store.shell_history.len(), 0);
}

#[test]
fn project_reads_back_with_its_columns() {
    let mut store = MirrorStore::new();
    let p = project(7, "lighthouse");
    store.insert_project_new(&p, 111, 222);
    let row = store.get_project(7).unwrap();
    assert_eq!(row.title, "lighthouse");
    assert_eq!(row.description.as_deref(), Some("about lighthouse"));
    assert_eq!(row.slack_id, "U1");
    assert_eq!(row.created_at, 111);
    assert_eq!(row.updated_at, 222);
    assert!(row.has_embedding);
    assert!(store.get_project(8).is_none());
}

#[test]
fn devlog_without_parent_is_skipped_quietly() {
    let mut store = MirrorStore::new();
    let stored = store.insert_devlog_new(&devlog(9, 999), 100, 100);
    assert!(!stored);
    assert_eq!(store.devlogs.len(), 0);
}

#[test]
fn comment_without_parent_is_skipped_quietly() {
    let mut store = MirrorStore::new();
    let stored = store.insert_comment_new(&comment(9, "U2"), 100);
    assert!(!stored);
    assert_eq!(store.comments.len(), 0);
}

#[test]
fn repeated_inserts_change_nothing() {
    let mut store = MirrorStore::new();
    let p = project(1, "one");
    store.insert_project_new(&p, 100, 100);
    store.insert_devlog_new(&devlog(10, 1), 100, 100);
    store.insert_comment_new(&comment(10, "U2"), 100);
    store.append_history(&"U1".to_string(), entry(5, 0, 3));
    let before = (
        store.projects.len(),
        store.devlogs.len(),
        store.comments.len(),
        store.shell_history.len(),
    );
    store.insert_project_new(&p, 100, 100);
    store.insert_devlog_new(&devlog(10, 1), 100, 100);
    store.insert_comment_new(&comment(10, "U2"), 100);
    store.append_history(&"U1".to_string(), entry(5, 0, 3));
    let after = (
        store.projects.len(),
        store.devlogs.len(),
        store.comments.len(),
        store.shell_history.len(),
    );
    assert_eq!(before, after);
}

#[test]
fn backfill_upsert_updates_conflicting_project() {
    let mut store = MirrorStore::new();
    let mut p = project(1, "old title");
    store.upsert_project(&p, 100, 100);
    p.title = "new title".to_string();
    p.description = None;
    store.upsert_project(&p, 500, 500);
    let row = store.get_project(1).unwrap();
    assert_eq!(row.title, "new title");
    // a missing new description keeps the stored one
    assert_eq!(row.description.as_deref(), Some("about old title"));
    assert_eq!(row.created_at, 100);
    assert_eq!(row.updated_at, 500);
    assert_eq!(store.projects.len(), 1);
}

#[test]
fn leaderboard_upsert_only_fires_on_changed_shells() {
    let mut store = MirrorStore::new();
    let uid = "U9".to_string();
    assert!(store.upsert_user_leaderboard(&uid, &Some("kai".to_string()), 10));
    assert_eq!(store.users[0].current_shells, Some(10));
    assert_eq!(store.users[0].username.as_deref(), Some("kai"));
    // same total: untouched even with a new name
    assert!(!store.upsert_user_leaderboard(&uid, &Some("other".to_string()), 10));
    assert_eq!(store.users[0].username.as_deref(), Some("kai"));
    // changed total: shells rewritten, absent name keeps the old one
    assert!(store.upsert_user_leaderboard(&uid, &None, 12));
    assert_eq!(store.users[0].current_shells, Some(12));
    assert_eq!(store.users[0].username.as_deref(), Some("kai"));
}

#[test]
fn history_append_is_idempotent_per_key() {
    let mut store = MirrorStore::new();
    let uid = "U1".to_string();
    store.append_history(&uid, entry(5, 0, 3));
    store.append_history(&uid, entry(5, 7, 9));
    assert_eq!(store.shell_history.len(), 1);
    assert_eq!(store.shell_history[0].entry.shell_diff, 3);
    store.append_history(&uid, entry(6, 3, 1));
    assert_eq!(store.shell_history.len(), 2);
}

#[test]
fn trust_and_profile_updates_touch_only_known_users() {
    let mut store = MirrorStore::new();
    let uid = "U1".to_string();
    store.update_user_trust(&uid, &"blue".to_string(), 4);
    assert_eq!(store.users.len(), 0);
    store.upsert_user_placeholder(&uid);
    store.update_user_trust(&uid, &"blue".to_string(), 4);
    assert_eq!(store.users[0].trust_level.as_deref(), Some("blue"));
    assert_eq!(store.users[0].trust_value, Some(4));
    let profile = SlackProfile {
        display_name: Some("kai".to_string()),
        real_name: None,
        image_24: Some("u24".to_string()),
        image_32: None,
        image_48: None,
        image_72: None,
        image_192: Some("u192".to_string()),
        image_512: None,
    };
    store.update_user_profile(&uid, &"kai".to_string(), &"u192".to_string(), &profile);
    assert_eq!(store.users[0].username.as_deref(), Some("kai"));
    assert_eq!(store.users[0].pfp_url, "u192");
    assert_eq!(store.users[0].image_24.as_deref(), Some("u24"));
    assert_eq!(store.users[0].image_512, None);
    // trust survives the profile update
    assert_eq!(store.users[0].trust_value, Some(4));
}

#[test]
fn orphan_sweep_cleans_children_of_deleted_rows() {
    let mut store = MirrorStore::new();
    store.insert_project_new(&project(1, "one"), 100, 100);
    store.insert_project_new(&project(2, "two"), 100, 100);
    store.insert_devlog_new(&devlog(10, 1), 100, 100);
    store.insert_devlog_new(&devlog(11, 2), 100, 100);
    store.insert_comment_new(&comment(10, "U2"), 100);
    store.upsert_user_placeholder(&"U1".to_string());
    store.append_history(&"U1".to_string(), entry(5, 0, 3));
    store.append_history(&"GHOST".to_string(), entry(5, 0, 3));

    store.delete_project(1);
    assert!(store.get_project(1).is_none());
    assert_eq!(store.devlogs.len(), 2);

    store.cleanup_orphaned_data();
    // the comment still had its devlog when comments were swept
    assert_eq!(store.comments.len(), 1);
    // the devlog of the deleted project is gone
    assert_eq!(store.devlogs.len(), 1);
    assert_eq!(store.devlogs[0].id, 11);
    // the history row of an unknown user is gone
    assert_eq!(store.shell_history.len(), 1);
    assert_eq!(store.shell_history[0].slack_id, "U1");

    store.cleanup_orphaned_data();
    // the second sweep removes the comment orphaned by the first
    assert_eq!(store.comments.len(), 0);
}

#[test]
fn delete_devlog_removes_only_that_row() {
    let mut store = MirrorStore::new();
    store.insert_project_new(&project(1, "one"), 100, 100);
    store.insert_devlog_new(&devlog(10, 1), 100, 100);
    store.insert_devlog_new(&devlog(11, 1), 100, 100);
    store.delete_devlog(10);
    assert_eq!(store.devlogs.len(), 1);
    assert_eq!(store.devlogs[0].id, 11);
}
