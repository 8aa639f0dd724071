use std::collections::{HashSet, VecDeque};

use vstd::prelude::*;

use crate::archive::UnlockEntry;
use crate::cheats::{trim_text, trimmed};

verus! {

broadcast use vstd::std_specs::hash::group_hash_axioms;

/// Where RetroAchievements files an achievement of the loaded set.
#[derive(Debug, Clone, Copy, PartialEq, Eq, Structural)]
pub enum AchievementBucket {
    Unknown,
    Locked,
    Unlocked,
    Unsupported,
    Unofficial,
    RecentlyUnlocked,
    ActiveChallenge,
    AlmostThere,
    Unsynced,
}

/// One row of the loaded achievement set.
#[derive(Debug)]
pub struct Achievement {
    pub id: u32,
    pub points: u32,
    pub unlocked: bool,
    pub bucket: AchievementBucket,
    pub title: String,
    pub description: String,
    /// The client's text for progress toward the achievement, empty when none.
    pub measured_progress: String,
    pub badge_url: String,
    pub badge_locked_url: String,
}

/// `c` with ASCII capitals made small.
pub open spec fn ascii_lower(c: char) -> char {
    if 'A' <= c <= 'Z' {
        ((c as u32) + 32) as char
    } else {
        c
    }
}

/// Whether `s` begins with `lower`, ignoring ASCII case (`lower` has no capitals).
pub open spec fn starts_ignoring_case(s: Seq<char>, lower: Seq<char>) -> bool {
    s.len() >= lower.len() && forall|i: int| 0 <= i < lower.len() ==> ascii_lower(s[i]) == lower[i]
}

/// Whether a RetroAchievements title is a client warning rather than an
/// achievement: it begins with "Warning:" or reads "Unsupported Game Version",
/// in any ASCII case.
pub open spec fn warning_title(title: Seq<char>) -> bool {
    starts_ignoring_case(title, "warning:"@) || (title.len() == "unsupported game version"@.len()
        && starts_ignoring_case(title, "unsupported game version"@))
}

/// Whether a row of the set is a warning from the client rather than an achievement.
pub open spec fn client_warning(a: Achievement) -> bool {
    a.bucket == AchievementBucket::Unsupported || a.id == 0 || warning_title(a.title@)
}

fn to_ascii_lower(c: char) -> (lower: char)
    ensures
        lower == ascii_lower(c),
{
    if 'A' <= c && c <= 'Z' {
        ((c as u8) + 32) as char
    } else {
        c
    }
}

fn starts_with_ignoring_case(s: &str, lower: &str) -> (b: bool)
    ensures
        b == starts_ignoring_case(s@, lower@),
{
    let n = s.unicode_len();
    let m = lower.unicode_len();
    if n < m {
        return false;
    }
    let mut i: usize = 0;
    while i < m
        invariant
            n == s@.len(),
            m == lower@.len(),
            m <= n,
            i <= m,
            forall|j: int| 0 <= j < i ==> ascii_lower(s@[j]) == lower@[j],
        decreases m - i,
    {
        if to_ascii_lower(s.get_char(i)) != lower.get_char(i) {
            return false;
        }
        i += 1;
    }
    true
}

/// Whether a title marks a client warning ("Warning: …" or "Unsupported Game
/// Version", ignoring ASCII case).
pub fn is_achievement_warning_title(title: &str) -> (warning: bool)
    ensures
        warning == warning_title(title@),
{
    if starts_with_ignoring_case(title, "warning:") {
        return true;
    }
    title.unicode_len() == "unsupported game version".unicode_len() && starts_with_ignoring_case(
        title,
        "unsupported game version",
    )
}

/// Whether a row of the achievement set is a client warning.
pub fn is_achievement_client_warning(achievement: &Achievement) -> (warning: bool)
    ensures
        warning == client_warning(*achievement),
{
    achievement.bucket == AchievementBucket::Unsupported || achievement.id == 0 || is_achievement_warning_title(
        achievement.title.as_str(),
    )
}

/// Whether an archived unlock is a client warning that was recorded by mistake.
pub fn is_archived_achievement_warning(entry: &UnlockEntry) -> (warning: bool)
    ensures
        warning == (entry.achievement_id == 0 || warning_title(entry.title@)),
{
    entry.achievement_id == 0 || is_achievement_warning_title(entry.title.as_str())
}

/// The heading of a warning banner: the title without its "Warning:" prefix and
/// surrounding white space, with an explanation for the unknown-emulator warning
/// and a generic heading for an empty title.
pub open spec fn warning_heading_text(title: Seq<char>) -> Seq<char> {
    let rest = if starts_ignoring_case(title, "warning:"@) { title.skip("warning:"@.len() as int) } else { title };
    let core = trimmed(rest);
    if core.len() == "unknown emulator"@.len() && starts_ignoring_case(core, "unknown emulator"@) {
        "Emulator verification required"@
    } else if core.len() == 0 {
        "RetroAchievements warning"@
    } else {
        core
    }
}

/// The heading shown above a RetroAchievements warning.
pub fn achievement_warning_heading(title: &str) -> (heading: String)
    ensures
        heading@ == warning_heading_text(title@),
{
    let rest = if starts_with_ignoring_case(title, "warning:") {
        title.substring_char("warning:".unicode_len(), title.unicode_len())
    } else {
        title
    };
    let core = trim_text(rest);
    if core.unicode_len() == "unknown emulator".unicode_len() && starts_with_ignoring_case(core, "unknown emulator") {
        String::from_str("Emulator verification required")
    } else if core.unicode_len() == 0 {
        String::from_str("RetroAchievements warning")
    } else {
        String::from_str(core)
    }
}

/// A core achievement: a real achievement that is not in the unofficial set.
pub open spec fn core_achievement(a: Achievement) -> bool {
    !client_warning(a) && a.bucket != AchievementBucket::Unofficial
}

/// The IDs of the real achievements that are already unlocked.
pub open spec fn unlocked_ids(rows: Seq<Achievement>) -> Set<u32> {
    Set::new(|id: u32| exists|i: int| 0 <= i < rows.len() && !client_warning(rows[i]) && rows[i].unlocked && rows[i].id == id)
}

/// Whether the set has core achievements and all of them are unlocked.
pub open spec fn set_mastered(rows: Seq<Achievement>) -> bool {
    (exists|i: int| 0 <= i < rows.len() && core_achievement(rows[i]))
        && forall|i: int| 0 <= i < rows.len() && core_achievement(rows[i]) ==> rows[i].unlocked
}

/// What is already earned when a set loads: the unlocked real achievements, and
/// whether the game is mastered, so that replays of old unlocks can be told apart.
pub fn achievement_unlock_baseline(achievements: &[Achievement]) -> (baseline: (HashSet<u32>, bool))
    ensures
        baseline.0@ == unlocked_ids(achievements@),
        baseline.1 == set_mastered(achievements@),
{
    let mut known: HashSet<u32> = HashSet::new();
    let mut core_count: usize = 0;
    let mut core_unlocked: usize = 0;
    let mut i: usize = 0;
    while i < achievements.len()
        invariant
            i <= achievements@.len(),
            core_unlocked <= core_count <= i,
            known@ == Set::new(|id: u32| exists|j: int| 0 <= j < i && !client_warning(achievements@[j]) && achievements@[j].unlocked
                && achievements@[j].id == id),
            (core_count > 0) == exists|j: int| 0 <= j < i && core_achievement(achievements@[j]),
            (core_unlocked == core_count) == forall|j: int| 0 <= j < i && core_achievement(achievements@[j]) ==> achievements@[j].unlocked,
        decreases achievements@.len() - i,
    {
        let a = &achievements[i];
        let ghost before = known@;
        if !is_achievement_client_warning(a) {
            if a.unlocked {
                known.insert(a.id);
            }
            if a.bucket != AchievementBucket::Unofficial {
                core_count += 1;
                if a.unlocked {
                    core_unlocked += 1;
                }
            }
        }
        proof {
            assert(known@ =~= Set::new(|id: u32| exists|j: int| 0 <= j < i + 1 && !client_warning(achievements@[j])
                && achievements@[j].unlocked && achievements@[j].id == id)) by {
                assert forall|id: u32| known@.contains(id) == (exists|j: int| 0 <= j < i + 1 && !client_warning(achievements@[j])
                    && achievements@[j].unlocked && achievements@[j].id == id) by {
                    if exists|j: int| 0 <= j < i + 1 && !client_warning(achievements@[j]) && achievements@[j].unlocked
                        && achievements@[j].id == id {
                        let j = choose|j: int| 0 <= j < i + 1 && !client_warning(achievements@[j]) && achievements@[j].unlocked
                            && achievements@[j].id == id;
                        if j < i {
                            assert(before.contains(id));
                        }
                    }
                }
            }
            if core_achievement(achievements@[i as int]) && !achievements@[i as int].unlocked {
                assert(!(forall|j: int| 0 <= j < i + 1 && core_achievement(achievements@[j]) ==> achievements@[j].unlocked));
            }
        }
        i += 1;
    }
    proof {
        assert(known@ =~= unlocked_ids(achievements@));
    }
    (known, core_count != 0 && core_unlocked == core_count)
}

/// Notes that achievement `achievement_id` was just reported unlocked. Gives
/// whether it is a first unlock, and whether to show a notification: always for
/// a first unlock, and for a replay only when replays are shown.
pub fn register_achievement_unlock(known_unlocked: &mut HashSet<u32>, achievement_id: u32, show_replayed: bool) -> (outcome: (bool, bool))
    ensures
        final(known_unlocked)@ == old(known_unlocked)@.insert(achievement_id),
        outcome.0 == !old(known_unlocked)@.contains(achievement_id),
        outcome.1 == (outcome.0 || show_replayed),
{
    let first_unlock = known_unlocked.insert(achievement_id);
    (first_unlock, first_unlock || show_replayed)
}

/// Law: reporting the same unlock again is never a first unlock, and shows a
/// notification only when replays are shown.
pub proof fn lemma_replayed_unlock_is_not_first(known: Set<u32>, achievement_id: u32, show_replayed: bool, first: bool, show: bool)
    requires
        known.contains(achievement_id),
        first == !known.contains(achievement_id),
        show == (first || show_replayed),
    ensures
        !first,
        show == show_replayed,
{
}

/// Number of lines kept in the achievement activity feed.
pub const ACTIVITY_FEED_LENGTH: usize = 8;

/// Puts `item` on top of the activity feed, keeping its newest lines.
pub fn push_achievement_activity(feed: &mut VecDeque<String>, item: String)
    ensures
        final(feed)@ == if old(feed)@.len() + 1 <= ACTIVITY_FEED_LENGTH {
            seq![item] + old(feed)@
        } else {
            (seq![item] + old(feed)@).take(ACTIVITY_FEED_LENGTH as int)
        },
{
    let ghost before = feed@;
    feed.push_front(item);
    assert(feed@ =~= seq![item] + before);
    feed.truncate(ACTIVITY_FEED_LENGTH);
}

} // verus!
