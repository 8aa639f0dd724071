use nes_ui::archive::{Archive, UnlockEntry, ARCHIVE_VERSION, MAX_ARCHIVE_ENTRIES};

fn entry(game_id: u32, achievement_id: u32, title: &str, unlocked_at: i64) -> UnlockEntry {
    UnlockEntry {
        game_id,
        achievement_id,
        title: title.into(),
        unlocked_at,
        ..Default::default()
    }
}

#[test]
fn duplicate_unlocks_replace_the_old_archive_entry() {
    let mut archive = Archive::default();
    let first = UnlockEntry {
        game_id: 1,
        achievement_id: 2,
        title: "First title".into(),
        ..Default::default()
    };
    archive.entries.push(first);
    let replacement = UnlockEntry {
        game_id: 1,
        achievement_id: 2,
        title: "Updated title".into(),
        unlocked_at: 10,
        ..Default::default()
    };
    archive.entries.retain(|existing| {
        existing.game_id != replacement.game_id
            || existing.achievement_id != replacement.achievement_id
    });
    archive.entries.insert(0, replacement);
    assert_eq!(archive.entries.len(), 1);
    assert_eq!(archive.entries[0].title, "Updated title");
}

#[test]
fn recording_a_duplicate_unlock_replaces_the_old_entry() {
    let mut archive = Archive::default();
    archive.record_at(entry(1, 2, "First title", 5), 100);
    archive.record_at(entry(1, 3, "Other", 6), 100);
    archive.record_at(entry(1, 2, "Updated title", 10), 100);
    assert_eq!(archive.entries.len(), 2);
    assert_eq!(archive.entries[0].title, "Updated title");
    assert_eq!(archive.entries[0].unlocked_at, 10);
    assert_eq!(archive.entries[1].title, "Other");
    assert_eq!(archive.format_version(), ARCHIVE_VERSION);
}

#[test]
fn unstamped_unlocks_take_the_given_time() {
    let mut archive = Archive::default();
    archive.record_at(entry(4, 5, "Late", 0), 1_700_000_000);
    assert_eq!(archive.entries[0].unlocked_at, 1_700_000_000);
}

#[test]
fn record_stamps_unstamped_unlocks_with_the_clock() {
    let mut archive = Archive::fresh();
    archive.record(entry(4, 5, "Now", 0));
    assert!(archive.entries[0].unlocked_at > 1_600_000_000);
    archive.record(entry(4, 6, "Kept", 42));
    assert_eq!(archive.entries[0].unlocked_at, 42);
}

#[test]
fn the_archive_keeps_only_the_newest_entries() {
    let mut archive = Archive::default();
    for id in 0..(MAX_ARCHIVE_ENTRIES as u32 + 3) {
        archive.record_at(entry(1, id, "x", 1), 0);
    }
    assert_eq!(archive.entries.len(), MAX_ARCHIVE_ENTRIES);
    assert_eq!(archive.entries[0].achievement_id, MAX_ARCHIVE_ENTRIES as u32 + 2);
    assert_eq!(archive.entries[MAX_ARCHIVE_ENTRIES - 1].achievement_id, 3);
}

#[test]
fn a_default_archive_is_empty_at_version_zero() {
    let archive = Archive::default();
    assert!(archive.entries.is_empty());
    assert_eq!(archive.format_version(), 0);
    let rebuilt = Archive::from_parts(7, vec![entry(1, 1, "a", 1)]);
    assert_eq!(rebuilt.format_version(), 7);
    assert_eq!(rebuilt.entries.len(), 1);
}

#[test]
fn recording_the_same_unlock_twice_is_recording_it_once() {
    let mut once = Archive::default();
    once.record_at(entry(1, 3, "Other", 6), 100);
    let mut twice = Archive::default();
    twice.record_at(entry(1, 3, "Other", 6), 100);
    once.record_at(entry(1, 2, "Title", 10), 100);
    twice.record_at(entry(1, 2, "Title", 10), 100);
    twice.record_at(entry(1, 2, "Title", 10), 100);
    let titles = |archive: &Archive| archive.entries.iter().map(|e| e.title.clone()).collect::<Vec<_>>();
    assert_eq!(titles(&once), titles(&twice));
    assert_eq!(titles(&twice), vec!["Title".to_string(), "Other".to_string()]);
}
