//! Tests of the posted-URL ledger: round trips, idempotent recording,
//! retention trimming, and the maintenance commands.

use skywrite::commands::CommandError;
use skywrite::commands::DatabaseCommandBase;
use skywrite::commands::DatabaseSubcommand;
use skywrite::commands::ExportPostsCommand;
use skywrite::commands::InsertPostsCommand;
use skywrite::commands::RemovePostsCommand;
use skywrite::Database;
use skywrite::DatabaseError;

fn url(i: usize) -> String {
    format!("https://example.com/news/{}", i)
}

#[test]
fn record_then_has() {
    let mut db = Database::new();
    let u = url(1);
    assert!(!db.has_posted_url(&u));
    assert!(db.add_posted_url(&u).is_ok());
    assert!(db.has_posted_url(&u));
}

#[test]
fn remove_then_not_has() {
    let mut db = Database::new();
    let u = url(1);
    assert!(db.add_posted_url(&u).is_ok());
    assert!(db.remove_posted_url(&u));
    assert!(!db.has_posted_url(&u));
    assert_eq!(db.count(), 0);
}

#[test]
fn record_twice_is_idempotent() {
    let mut db = Database::new();
    let u = url(1);
    assert!(db.add_posted_url(&u).is_ok());
    let second = db.add_posted_url(&u);
    assert_eq!(second, Err(DatabaseError::DuplicateKey));
    assert_eq!(db.count(), 1);
    assert!(db.has_posted_url(&u));
}

#[test]
fn remove_absent_is_noop() {
    let mut db = Database::new();
    assert!(db.add_posted_url(&url(1)).is_ok());
    assert!(!db.remove_posted_url(&url(2)));
    assert_eq!(db.count(), 1);
}

#[test]
fn trim_keeps_most_recent() {
    let mut db = Database::new();
    for i in 0..5 {
        assert!(db.add_posted_url(&url(i)).is_ok());
    }
    db.trim(3);
    assert_eq!(db.count(), 3);
    assert!(!db.has_posted_url(&url(0)));
    assert!(!db.has_posted_url(&url(1)));
    assert!(db.has_posted_url(&url(2)));
    assert!(db.has_posted_url(&url(3)));
    assert!(db.has_posted_url(&url(4)));
    let all = db.get_all_post_urls().unwrap();
    assert_eq!(all, vec![url(2), url(3), url(4)]);
}

#[test]
fn trim_with_room_changes_nothing() {
    let mut db = Database::new();
    for i in 0..4 {
        assert!(db.add_posted_url(&url(i)).is_ok());
    }
    db.trim(10);
    assert_eq!(db.count(), 4);
    assert!(db.has_posted_url(&url(0)));
}

#[test]
fn retention_pass_drops_ten_oldest_of_25010() {
    let urls: Vec<String> = (0..25010).map(url).collect();
    let mut db = Database::from_urls(urls);
    db.remove_old_stored_posts();
    assert_eq!(db.count(), 25000);
    for i in 0..10 {
        assert!(!db.has_posted_url(&url(i)));
    }
    assert!(db.has_posted_url(&url(10)));
    assert!(db.has_posted_url(&url(25009)));
    let all = db.get_all_post_urls().unwrap();
    assert_eq!(all.first().unwrap(), &url(10));
    assert_eq!(all.last().unwrap(), &url(25009));
}

#[test]
fn export_of_empty_ledger_reports_error() {
    let db = Database::new();
    assert!(db.get_all_post_urls().is_none());
    let result = ExportPostsCommand.run(&db);
    assert_eq!(result, Err(CommandError::NoStoredPosts));
}

#[test]
fn export_joins_with_commas() {
    let mut db = Database::new();
    for i in 0..3 {
        assert!(db.add_posted_url(&url(i)).is_ok());
    }
    let line = ExportPostsCommand.run(&db).unwrap();
    assert_eq!(
        line,
        "https://example.com/news/0,https://example.com/news/1,https://example.com/news/2"
    );
}

#[test]
fn insert_posts_skips_known_and_repeated_urls() {
    let mut db = Database::new();
    assert!(db.add_posted_url(&url(7)).is_ok());
    let cmd = InsertPostsCommand { posts: vec![url(7), url(8), url(8), url(9)] };
    cmd.run(&mut db);
    assert_eq!(db.count(), 3);
    let again = InsertPostsCommand { posts: vec![url(7), url(8), url(9)] };
    again.run(&mut db);
    assert_eq!(db.count(), 3);
    assert_eq!(db.get_all_post_urls().unwrap(), vec![url(7), url(8), url(9)]);
}

#[test]
fn remove_posts_drops_present_and_ignores_absent() {
    let mut db = Database::new();
    for i in 0..3 {
        assert!(db.add_posted_url(&url(i)).is_ok());
    }
    let cmd = RemovePostsCommand { posts: vec![url(1), url(5)] };
    cmd.run(&mut db);
    assert_eq!(db.count(), 2);
    assert!(db.has_posted_url(&url(0)));
    assert!(!db.has_posted_url(&url(1)));
    assert!(db.has_posted_url(&url(2)));
}

#[test]
fn command_base_dispatches_export() {
    let mut db = Database::new();
    assert!(db.add_posted_url(&url(1)).is_ok());
    let base = DatabaseCommandBase { subcommand: DatabaseSubcommand::ExportPosts(ExportPostsCommand) };
    let out = base.run(&mut db).unwrap();
    assert_eq!(out, Some("https://example.com/news/1".to_string()));
}

#[test]
fn command_base_dispatches_insert() {
    let mut db = Database::new();
    let base = DatabaseCommandBase {
        subcommand: DatabaseSubcommand::InsertPost(InsertPostsCommand { posts: vec![url(4)] }),
    };
    let out = base.run(&mut db).unwrap();
    assert_eq!(out, None);
    assert!(db.has_posted_url(&url(4)));
}
