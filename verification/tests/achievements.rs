use nes_ui::achievements::achievement_warning_heading;
use std::collections::{HashSet, VecDeque};

use nes_ui::achievements::{
    achievement_unlock_baseline, is_achievement_client_warning, is_achievement_warning_title,
    is_archived_achievement_warning, push_achievement_activity, register_achievement_unlock,
    Achievement, AchievementBucket,
};
use nes_ui::achievements_ui::{
    achievement_badge_url, achievement_group_heading, achievement_group_shown, achievement_view, archive_view,
    hardcore_status_text, AchievementFilter,
};
use nes_ui::archive::UnlockEntry;
use nes_ui::session::{
    achievement_session_start, sign_in_request_status, BadgeRequests, SessionStart,
    signed_in_status, AchievementEvent, AchievementEventKind, AchievementReaction,
    AchievementSession, GameInfo,
};

fn unsupported_entries_are_warnings() {
    let warning = Achievement {
        id: 123,
        points: 0,
        unlocked: true,
        bucket: AchievementBucket::Unsupported,
        title: "Unsupported Game Version".into(),
        description: "This version has not been tested".into(),
        measured_progress: String::new(),
        badge_url: String::new(),
        badge_locked_url: String::new(),
    };
    assert!(is_achievement_client_warning(&warning));

    let archived = UnlockEntry {
        game_id: 1,
        achievement_id: 123,
        game_title: "Game".into(),
        title: warning.title,
        description: warning.description,
        points: 0,
        badge_url: String::new(),
        unlocked_at: 0,
    };
    assert!(is_archived_achievement_warning(&archived));
}

#[test]
fn achievements_ui_unsupported_ra_entries_are_warnings_not_achievements() {
    unsupported_entries_are_warnings();
}

#[test]
fn app_unsupported_ra_entries_are_warnings_not_achievements() {
    unsupported_entries_are_warnings();
}

fn achievement(id: u32, unlocked: bool, bucket: AchievementBucket) -> Achievement {
    Achievement {
        id,
        points: 5,
        unlocked,
        bucket,
        title: format!("Achievement {id}"),
        description: String::new(),
        measured_progress: String::new(),
        badge_url: String::new(),
        badge_locked_url: String::new(),
    }
}

fn baseline_suppresses_replays() {
    let rows = [
        achievement(1, true, AchievementBucket::Unlocked),
        achievement(2, true, AchievementBucket::Unlocked),
        achievement(3, false, AchievementBucket::Unofficial),
        achievement(0, true, AchievementBucket::Unsupported),
    ];
    let (mut known, mastered) = achievement_unlock_baseline(&rows);
    assert_eq!(known, HashSet::from([1, 2]));
    assert!(mastered);
    assert_eq!(
        register_achievement_unlock(&mut known, 1, false),
        (false, false),
        "a reboot replay is suppressed by default"
    );
    assert_eq!(
        register_achievement_unlock(&mut known, 1, true),
        (false, true),
        "the saved preference can opt back into replay popups"
    );
    assert_eq!(
        register_achievement_unlock(&mut known, 4, false),
        (true, true),
        "a newly earned achievement always produces a notification"
    );
}

#[test]
fn achievements_ui_achievement_baseline_suppresses_completed_unlock_replays() {
    baseline_suppresses_replays();
}

#[test]
fn app_achievement_baseline_suppresses_completed_unlock_replays() {
    baseline_suppresses_replays();
}

#[test]
fn warning_titles_ignore_ascii_case() {
    assert!(is_achievement_warning_title("Warning: Unknown Emulator"));
    assert!(is_achievement_warning_title("WARNING:"));
    assert!(is_achievement_warning_title("unsupported game version"));
    assert!(!is_achievement_warning_title("Unsupported Game Version!"));
    assert!(!is_achievement_warning_title("Warn"));
    assert!(!is_achievement_warning_title("Wärning: x"));
    assert!(!is_achievement_warning_title(""));
}

#[test]
fn a_set_without_core_achievements_is_not_mastered() {
    let rows = [achievement(3, true, AchievementBucket::Unofficial)];
    let (known, mastered) = achievement_unlock_baseline(&rows);
    assert_eq!(known, HashSet::from([3]));
    assert!(!mastered);
    let rows = [
        achievement(1, true, AchievementBucket::Unlocked),
        achievement(2, false, AchievementBucket::Locked),
    ];
    assert!(!achievement_unlock_baseline(&rows).1);
}

#[test]
fn the_activity_feed_keeps_eight_lines_newest_first() {
    let mut feed = VecDeque::new();
    for i in 0..10 {
        push_achievement_activity(&mut feed, format!("line {i}"));
    }
    assert_eq!(feed.len(), 8);
    assert_eq!(feed[0], "line 9");
    assert_eq!(feed[7], "line 2");
}

fn event(kind: AchievementEventKind, result: i32, id: u32, title: &str, message: &str) -> AchievementEvent {
    AchievementEvent {
        kind,
        result,
        id,
        points: 10,
        title: title.into(),
        message: message.into(),
    }
}

#[test]
fn unlock_events_notify_and_archive_first_unlocks() {
    let mut session = AchievementSession::new();
    let mut rows = vec![achievement(7, false, AchievementBucket::Locked)];
    rows[0].description = "Beat the boss".into();
    rows[0].badge_url = "https://media.example/7.png".into();
    let game = GameInfo {
        id: 42,
        title: "Game".into(),
    };
    let reaction = session.handle_achievement_event(
        &event(AchievementEventKind::Achievement, 0, 7, "Boss", "fallback"),
        &rows,
        Some(&game),
        false,
    );
    match reaction {
        AchievementReaction::Unlocked {
            toast,
            archive,
            activity,
        } => {
            assert_eq!(toast.title, "Boss");
            assert_eq!(toast.description, "Beat the boss");
            assert_eq!(toast.badge_url, "https://media.example/7.png");
            assert_eq!(activity, "Unlocked: Boss (+10 points)");
            let entry = archive.unwrap();
            assert_eq!(entry.game_id, 42);
            assert_eq!(entry.achievement_id, 7);
            assert_eq!(entry.game_title, "Game");
            assert_eq!(entry.unlocked_at, 0);
        }
        other => panic!("unexpected {other:?}"),
    }
    let again = session.handle_achievement_event(
        &event(AchievementEventKind::Achievement, 0, 7, "Boss", ""),
        &rows,
        Some(&game),
        false,
    );
    assert!(matches!(again, AchievementReaction::Suppressed));
    let replay = session.handle_achievement_event(
        &event(AchievementEventKind::Achievement, 0, 7, "Boss", ""),
        &rows,
        Some(&game),
        true,
    );
    assert!(matches!(replay, AchievementReaction::Unlocked { archive: None, .. }));
    let warning = session.handle_achievement_event(
        &event(AchievementEventKind::Achievement, 0, 0, "Warning: Unknown Emulator", ""),
        &rows,
        Some(&game),
        false,
    );
    match warning {
        AchievementReaction::Warning { status } => assert_eq!(status, "Warning: Unknown Emulator"),
        other => panic!("unexpected {other:?}"),
    }
}

#[test]
fn session_events_give_status_texts() {
    let mut session = AchievementSession::new();
    let rows = vec![
        achievement(1, true, AchievementBucket::Unlocked),
        achievement(2, true, AchievementBucket::Unlocked),
    ];
    let game = GameInfo {
        id: 1,
        title: "Mario".into(),
    };
    assert!(matches!(
        session.handle_achievement_event(&event(AchievementEventKind::Login, 0, 0, "", ""), &rows, None, false),
        AchievementReaction::SignedIn
    ));
    match session.handle_achievement_event(&event(AchievementEventKind::Login, 1, 0, "", "bad token"), &rows, None, false) {
        AchievementReaction::SignInFailed { status } => {
            assert_eq!(status, "RetroAchievements sign-in failed: bad token")
        }
        other => panic!("unexpected {other:?}"),
    }
    match session.handle_achievement_event(&event(AchievementEventKind::GameLoad, 0, 0, "", ""), &rows, Some(&game), false) {
        AchievementReaction::SetLoaded { status } => assert_eq!(status, "Achievements loaded: Mario (hardcore)"),
        other => panic!("unexpected {other:?}"),
    }
    assert!(session.game_mastered);
    assert_eq!(session.known_unlocked, HashSet::from([1, 2]));
    match session.handle_achievement_event(&event(AchievementEventKind::GameLoad, 1, 0, "", ""), &rows, None, false) {
        AchievementReaction::SetNotLoaded { status } => {
            assert_eq!(status, "No RetroAchievements set was found for this ROM")
        }
        other => panic!("unexpected {other:?}"),
    }
    assert!(matches!(
        session.handle_achievement_event(&event(AchievementEventKind::GameCompleted, 0, 0, "", ""), &rows, None, false),
        AchievementReaction::Mastered { activity: None }
    ));
    match session.handle_achievement_event(&event(AchievementEventKind::GameCompleted, 0, 0, "", ""), &rows, None, true) {
        AchievementReaction::Mastered { activity: Some(text) } => {
            assert_eq!(text, "Game mastered — all core achievements unlocked")
        }
        other => panic!("unexpected {other:?}"),
    }
    match session.handle_achievement_event(&event(AchievementEventKind::ServerError, 0, 0, "Server", "timeout"), &rows, None, false) {
        AchievementReaction::Notice { text } => assert_eq!(text.as_deref(), Some("Server: timeout")),
        other => panic!("unexpected {other:?}"),
    }
    assert!(matches!(
        session.handle_achievement_event(&event(AchievementEventKind::Disconnected, 0, 0, "", ""), &rows, None, false),
        AchievementReaction::Notice { text: None }
    ));
    match session.handle_achievement_event(&event(AchievementEventKind::Reset, 0, 0, "", ""), &rows, None, false) {
        AchievementReaction::ResetRequested { status } => {
            assert_eq!(status, "Reset for RetroAchievements hardcore mode")
        }
        other => panic!("unexpected {other:?}"),
    }
    assert!(matches!(
        session.handle_achievement_event(&event(AchievementEventKind::Unknown, 0, 0, "", ""), &rows, None, false),
        AchievementReaction::Ignored
    ));
    assert_eq!(signed_in_status(Some(&"Ada".to_string())), "Signed in to RetroAchievements as Ada");
    assert_eq!(signed_in_status(None), "Signed in to RetroAchievements");
    session.forget_set();
    assert!(session.known_unlocked.is_empty() && !session.game_mastered);
}

#[test]
fn warning_banners_get_readable_headings() {
    assert_eq!(achievement_warning_heading("Warning: Unknown Emulator"), "Emulator verification required");
    assert_eq!(achievement_warning_heading("WARNING:unknown emulator  "), "Emulator verification required");
    assert_eq!(achievement_warning_heading("Warning:   "), "RetroAchievements warning");
    assert_eq!(achievement_warning_heading("Warning: Hardcore disabled"), "Hardcore disabled");
    assert_eq!(achievement_warning_heading("Unsupported Game Version"), "Unsupported Game Version");
}

#[test]
fn achievement_mode_starts_by_signing_in_with_stored_credentials() {
    assert_eq!(achievement_session_start(true, "", ""), SessionStart::LoadGame);
    assert_eq!(achievement_session_start(false, "  ", "token"), SessionStart::AskForSignIn);
    assert_eq!(achievement_session_start(false, "ada", " "), SessionStart::AskForSignIn);
    assert_eq!(
        achievement_session_start(false, " ada ", "\ttoken\n"),
        SessionStart::SignIn {
            username: "ada".into(),
            token: "token".into()
        }
    );
    assert_eq!(sign_in_request_status(None), "Signing in to RetroAchievements…");
    assert_eq!(
        sign_in_request_status(Some(&"offline".to_string())),
        "RetroAchievements sign-in failed: offline"
    );
}

#[test]
fn each_badge_is_requested_once() {
    let mut requests = BadgeRequests::new();
    let url = "https://media.example/1.png".to_string();
    assert!(!requests.ensure_achievement_badge(&String::new(), false));
    assert!(!requests.ensure_achievement_badge(&url, true));
    assert!(requests.ensure_achievement_badge(&url, false));
    assert!(!requests.ensure_achievement_badge(&url, false));
    assert!(requests.ensure_achievement_badge(&"https://media.example/2.png".to_string(), false));
}

fn scored(id: u32, unlocked: bool, points: u32, title: &str) -> Achievement {
    let mut row = achievement(id, unlocked, AchievementBucket::Locked);
    row.points = points;
    row.title = title.into();
    row
}

#[test]
fn the_window_lists_unlocked_achievements_first_and_sets_warnings_apart() {
    let rows = vec![
        scored(1, false, 5, "A"),
        scored(2, true, 10, "B"),
        scored(3, false, 25, "Warning: Unknown Emulator"),
        scored(4, true, 3, "D"),
        scored(0, true, 50, "Zero"),
        scored(6, false, 7, "F"),
    ];
    let view = achievement_view(&rows);
    assert_eq!(view.warnings, vec![2, 4]);
    assert_eq!(view.rows, vec![1, 3, 0, 5]);
    assert_eq!(view.unlocked, 2);
    assert_eq!(view.earned_points, 13);
    assert_eq!(view.total_points, 25);
}

#[test]
fn an_empty_set_has_nothing_to_show() {
    let view = achievement_view(&Vec::new());
    assert!(view.warnings.is_empty() && view.rows.is_empty());
    assert_eq!((view.unlocked, view.earned_points, view.total_points), (0, 0, 0));
}

#[test]
fn badges_follow_the_unlock_state() {
    let mut row = achievement(1, false, AchievementBucket::Locked);
    row.badge_url = "color.png".into();
    row.badge_locked_url = "grey.png".into();
    assert_eq!(achievement_badge_url(&row), "grey.png");
    row.unlocked = true;
    assert_eq!(achievement_badge_url(&row), "color.png");
}

#[test]
fn hardcore_status_reads_the_client_state() {
    assert_eq!(hardcore_status_text(true, true, true), "HARDCORE UNAVAILABLE");
    assert_eq!(hardcore_status_text(false, true, true), "HARDCORE ACTIVE");
    assert_eq!(hardcore_status_text(false, true, false), "HARDCORE READY");
    assert_eq!(hardcore_status_text(false, false, true), "OFFLINE");
}

#[test]
fn filters_pick_the_groups() {
    assert!(achievement_group_shown(AchievementFilter::All, true));
    assert!(achievement_group_shown(AchievementFilter::All, false));
    assert!(!achievement_group_shown(AchievementFilter::Locked, true));
    assert!(achievement_group_shown(AchievementFilter::Locked, false));
    assert!(achievement_group_shown(AchievementFilter::Unlocked, true));
    assert!(!achievement_group_shown(AchievementFilter::Unlocked, false));
    assert_eq!(achievement_group_heading(true, 12), "UNLOCKED  12");
    assert_eq!(achievement_group_heading(false, 0), "LOCKED  0");
}

#[test]
fn the_archive_panel_skips_recorded_warnings() {
    let entry = |achievement_id: u32, title: &str, points: u32| UnlockEntry {
        game_id: 1,
        achievement_id,
        game_title: "Game".into(),
        title: title.into(),
        description: String::new(),
        points,
        badge_url: String::new(),
        unlocked_at: 0,
    };
    let entries = vec![
        entry(5, "First", 10),
        entry(0, "Zero", 99),
        entry(6, "WARNING: old client", 7),
        entry(7, "Second", 25),
    ];
    let view = archive_view(&entries);
    assert_eq!(view.shown, vec![0, 3]);
    assert_eq!(view.points, 35);
}
