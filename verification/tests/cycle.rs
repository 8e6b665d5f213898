//! Tests of the polling cycle: a full happy cycle, the fetch-failure
//! skip, and the fail-loud publish failure that leaves earlier records
//! in place and later candidates unrecorded.

use skywrite::fetcher::NikkiNewsPost;
use skywrite::start::CycleAction;
use skywrite::start::CycleEvent;
use skywrite::start::CyclePhase;
use skywrite::start::PollingCycle;
use skywrite::start::StartCommand;
use skywrite::Database;

fn news(i: u64) -> NikkiNewsPost {
    NikkiNewsPost {
        url: format!("https://example.com/news/{}", i),
        title: format!("Item {}", i),
        publish_time: 1000 + i as i64,
        cover: format!("https://example.com/{}.png", i),
        summary: format!("summary {}", i),
    }
}

fn config() -> StartCommand {
    StartCommand {
        service: "https://bsky.social".to_string(),
        identifier: "bot@example.com".to_string(),
        password: "app-password".to_string(),
        run_interval_seconds: 300,
        news_backdate_hours: 3,
        disable_post_comments: true,
        news_locale: "en".to_string(),
        post_languages: vec!["en".to_string()],
    }
}

#[test]
fn backdate_hours_become_seconds() {
    assert_eq!(config().backdate_seconds(), 3 * 3600);
}

#[test]
fn cycle_happy_path_publishes_records_trims_and_sleeps() {
    let mut cycle = config().make_cycle();
    let mut db = Database::new();
    assert_eq!(cycle.phase(), CyclePhase::Syncing);

    let action = cycle.step(CycleEvent::SessionSynced, 0);
    assert!(matches!(action, CycleAction::FetchNews));

    let action = cycle.step(CycleEvent::FetchSucceeded(vec![news(1)]), 0);
    match action {
        CycleAction::Publish(post) => {
            assert_eq!(post.text, "Item 1 - https://example.com/news/1");
            assert_eq!(post.created_at, 1001);
            assert_eq!(post.languages, vec!["en".to_string()]);
            let embed = post.embed.unwrap();
            assert_eq!(embed.uri, "https://example.com/news/1");
            assert_eq!(embed.description, "summary 1");
        }
        other => panic!("expected a publish action, got {:?}", action_name(&other)),
    }

    let action = cycle.step(CycleEvent::PublishSucceeded, 0);
    match action {
        CycleAction::Record(url) => {
            assert_eq!(url, "https://example.com/news/1");
            assert!(db.add_posted_url(&url).is_ok());
        }
        other => panic!("expected a record action, got {:?}", action_name(&other)),
    }

    let action = cycle.step(CycleEvent::Recorded, 0);
    assert!(matches!(action, CycleAction::Trim));
    db.remove_old_stored_posts();

    let action = cycle.step(CycleEvent::Trimmed, 0);
    assert!(matches!(action, CycleAction::Sleep(300)));

    let action = cycle.step(CycleEvent::SleepFinished, 0);
    assert!(matches!(action, CycleAction::SyncSession));
    assert_eq!(cycle.phase(), CyclePhase::Syncing);
    assert!(db.has_posted_url(&"https://example.com/news/1".to_string()));
}

#[test]
fn cycle_fetch_failure_skips_to_sleep() {
    let mut cycle = config().make_cycle();
    let action = cycle.step(CycleEvent::SessionSynced, 0);
    assert!(matches!(action, CycleAction::FetchNews));
    let action = cycle.step(CycleEvent::FetchFailed, 0);
    assert!(matches!(action, CycleAction::Sleep(300)));
    assert_eq!(cycle.phase(), CyclePhase::Sleeping);
}

#[test]
fn cycle_empty_fetch_still_trims() {
    let mut cycle = config().make_cycle();
    let _ = cycle.step(CycleEvent::SessionSynced, 0);
    let action = cycle.step(CycleEvent::FetchSucceeded(vec![]), 0);
    assert!(matches!(action, CycleAction::Trim));
}

#[test]
fn cycle_session_failure_stops_the_loop() {
    let mut cycle = config().make_cycle();
    let action = cycle.step(CycleEvent::SessionFailed, 0);
    assert!(matches!(action, CycleAction::Stop));
    assert_eq!(cycle.phase(), CyclePhase::Stopped);
}

#[test]
fn cycle_publish_failure_keeps_earlier_records_only() {
    // Three candidates; the second publish fails. The first URL is in
    // the ledger, the second and third are not, and the loop stops.
    let mut cycle = config().make_cycle();
    let mut db = Database::new();
    let _ = cycle.step(CycleEvent::SessionSynced, 0);

    let action = cycle.step(CycleEvent::FetchSucceeded(vec![news(1), news(2), news(3)]), 0);
    assert!(matches!(action, CycleAction::Publish(_)));

    let action = cycle.step(CycleEvent::PublishSucceeded, 0);
    match action {
        CycleAction::Record(url) => {
            assert!(db.add_posted_url(&url).is_ok());
        }
        other => panic!("expected a record action, got {:?}", action_name(&other)),
    }

    let action = cycle.step(CycleEvent::Recorded, 0);
    match action {
        CycleAction::Publish(post) => {
            assert_eq!(post.text, "Item 2 - https://example.com/news/2");
        }
        other => panic!("expected a publish action, got {:?}", action_name(&other)),
    }

    let action = cycle.step(CycleEvent::PublishFailed, 0);
    assert!(matches!(action, CycleAction::Stop));
    assert_eq!(cycle.phase(), CyclePhase::Stopped);

    assert!(db.has_posted_url(&"https://example.com/news/1".to_string()));
    assert!(!db.has_posted_url(&"https://example.com/news/2".to_string()));
    assert!(!db.has_posted_url(&"https://example.com/news/3".to_string()));
    assert_eq!(db.count(), 1);
}

fn action_name(action: &CycleAction) -> &'static str {
    match action {
        CycleAction::SyncSession => "sync-session",
        CycleAction::FetchNews => "fetch-news",
        CycleAction::Publish(_) => "publish",
        CycleAction::Record(_) => "record",
        CycleAction::Trim => "trim",
        CycleAction::Sleep(_) => "sleep",
        CycleAction::Stop => "stop",
    }
}
