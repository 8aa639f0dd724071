use vstd::prelude::*;

use crate::achievements::{client_warning, is_achievement_client_warning, is_archived_achievement_warning, warning_title, Achievement};
use crate::archive::UnlockEntry;
use crate::text::{append_decimal, decimal};

verus! {

/// The indices below `n` of the items that `keep` selects, in order.
pub open spec fn indices_where<T>(items: Seq<T>, n: int, keep: spec_fn(T) -> bool) -> Seq<usize>
    decreases n,
{
    if n <= 0 {
        Seq::empty()
    } else {
        let earlier = indices_where(items, n - 1, keep);
        if keep(items[n - 1]) {
            earlier.push((n - 1) as usize)
        } else {
            earlier
        }
    }
}

/// The sum of `value` over the items at `indices`.
pub open spec fn total_of<T>(items: Seq<T>, indices: Seq<usize>, value: spec_fn(T) -> int) -> int
    decreases indices.len(),
{
    if indices.len() == 0 {
        0
    } else {
        total_of(items, indices.drop_last(), value) + value(items[indices.last() as int])
    }
}

/// Rows of the set that are client warnings.
pub open spec fn warning_row() -> spec_fn(Achievement) -> bool {
    |a: Achievement| client_warning(a)
}

/// Rows of the set that are real achievements.
pub open spec fn achievement_row() -> spec_fn(Achievement) -> bool {
    |a: Achievement| !client_warning(a)
}

/// Real achievements that are unlocked.
pub open spec fn unlocked_row() -> spec_fn(Achievement) -> bool {
    |a: Achievement| !client_warning(a) && a.unlocked
}

/// Real achievements that are still locked.
pub open spec fn locked_row() -> spec_fn(Achievement) -> bool {
    |a: Achievement| !client_warning(a) && !a.unlocked
}

/// The points of an achievement.
pub open spec fn achievement_points() -> spec_fn(Achievement) -> int {
    |a: Achievement| a.points as int
}

/// Archived unlocks that are real achievements rather than recorded warnings.
pub open spec fn archived_unlock() -> spec_fn(UnlockEntry) -> bool {
    |e: UnlockEntry| !(e.achievement_id == 0 || warning_title(e.title@))
}

/// The points of an archived unlock.
pub open spec fn unlock_points() -> spec_fn(UnlockEntry) -> int {
    |e: UnlockEntry| e.points as int
}

/// Law: a prefix of the selected items has no larger total than all of them,
/// for a value that is never negative.
pub proof fn lemma_total_grows<T>(items: Seq<T>, i: int, n: int, keep: spec_fn(T) -> bool, value: spec_fn(T) -> int)
    requires
        0 <= i <= n,
        forall|x: T| #[trigger] value(x) >= 0,
    ensures
        total_of(items, indices_where(items, i, keep), value) <= total_of(items, indices_where(items, n, keep), value),
    decreases n,
{
    if i < n {
        lemma_total_grows(items, i, n - 1, keep, value);
        let earlier = indices_where(items, n - 1, keep);
        if keep(items[n - 1]) {
            assert(earlier.push((n - 1) as usize).drop_last() == earlier);
            assert(value(items[n - 1]) >= 0);
        }
    }
}

/// Law: selecting fewer items never gives a larger total, for a value that is
/// never negative.
pub proof fn lemma_total_of_subset<T>(
    items: Seq<T>,
    n: int,
    fewer: spec_fn(T) -> bool,
    more: spec_fn(T) -> bool,
    value: spec_fn(T) -> int,
)
    requires
        forall|x: T| #[trigger] fewer(x) ==> more(x),
        forall|x: T| #[trigger] value(x) >= 0,
    ensures
        total_of(items, indices_where(items, n, fewer), value) <= total_of(items, indices_where(items, n, more), value),
    decreases n,
{
    if n > 0 {
        lemma_total_of_subset(items, n - 1, fewer, more, value);
        let a = indices_where(items, n - 1, fewer);
        let b = indices_where(items, n - 1, more);
        if fewer(items[n - 1]) {
            assert(a.push((n - 1) as usize).drop_last() == a);
        }
        if more(items[n - 1]) {
            assert(b.push((n - 1) as usize).drop_last() == b);
            assert(value(items[n - 1]) >= 0);
        }
    }
}

/// What the achievements window shows of the loaded set: the client warnings,
/// the real achievements with the unlocked ones first (each group in set
/// order), how many are unlocked, and the points earned and available. The
/// vectors hold indices into the set.
pub struct AchievementView {
    pub warnings: Vec<usize>,
    pub rows: Vec<usize>,
    pub unlocked: usize,
    pub earned_points: u32,
    pub total_points: u32,
}

/// Sorts the loaded set for the achievements window. The points of the real
/// achievements must fit a `u32`, as their sum is one.
pub fn achievement_view(achievements: &Vec<Achievement>) -> (view: AchievementView)
    requires
        total_of(achievements@, indices_where(achievements@, achievements@.len() as int, achievement_row()), achievement_points())
            <= u32::MAX,
    ensures
        view.warnings@ == indices_where(achievements@, achievements@.len() as int, warning_row()),
        view.rows@ == indices_where(achievements@, achievements@.len() as int, unlocked_row()) + indices_where(
            achievements@,
            achievements@.len() as int,
            locked_row(),
        ),
        view.unlocked == indices_where(achievements@, achievements@.len() as int, unlocked_row()).len(),
        view.earned_points == total_of(
            achievements@,
            indices_where(achievements@, achievements@.len() as int, unlocked_row()),
            achievement_points(),
        ),
        view.total_points == total_of(
            achievements@,
            indices_where(achievements@, achievements@.len() as int, achievement_row()),
            achievement_points(),
        ),
{
    let ghost items = achievements@;
    let ghost n = items.len() as int;
    let mut warnings: Vec<usize> = Vec::new();
    let mut rows: Vec<usize> = Vec::new();
    let mut earned: u32 = 0;
    let mut total: u32 = 0;
    let mut i: usize = 0;
    while i < achievements.len()
        invariant
            items == achievements@,
            n == items.len(),
            i <= n,
            total_of(items, indices_where(items, n, achievement_row()), achievement_points()) <= u32::MAX,
            warnings@ == indices_where(items, i as int, warning_row()),
            rows@ == indices_where(items, i as int, unlocked_row()),
            earned == total_of(items, indices_where(items, i as int, unlocked_row()), achievement_points()),
            total == total_of(items, indices_where(items, i as int, achievement_row()), achievement_points()),
        decreases n - i,
    {
        let ghost next = (i + 1) as int;
        proof {
            lemma_total_grows(items, next, n, achievement_row(), achievement_points());
            lemma_total_of_subset(items, next, unlocked_row(), achievement_row(), achievement_points());
            let s = indices_where(items, i as int, achievement_row());
            let u = indices_where(items, i as int, unlocked_row());
            assert(s.push(i).drop_last() == s);
            assert(u.push(i).drop_last() == u);
        }
        let warning = is_achievement_client_warning(&achievements[i]);
        if warning {
            warnings.push(i);
        } else {
            total = total + achievements[i].points;
            if achievements[i].unlocked {
                rows.push(i);
                earned = earned + achievements[i].points;
            }
        }
        i += 1;
    }
    let unlocked = rows.len();
    let ghost first = rows@;
    let mut j: usize = 0;
    while j < achievements.len()
        invariant
            items == achievements@,
            n == items.len(),
            j <= n,
            first == indices_where(items, n, unlocked_row()),
            rows@ == first + indices_where(items, j as int, locked_row()),
        decreases n - j,
    {
        if !achievements[j].unlocked && !is_achievement_client_warning(&achievements[j]) {
            rows.push(j);
        }
        j += 1;
    }
    AchievementView { warnings, rows, unlocked, earned_points: earned, total_points: total }
}

/// The badge to show for an achievement: its colour badge once unlocked, the
/// grey one before.
pub fn achievement_badge_url(achievement: &Achievement) -> (url: &String)
    ensures
        url@ == if achievement.unlocked { achievement.badge_url@ } else { achievement.badge_locked_url@ },
{
    if achievement.unlocked {
        &achievement.badge_url
    } else {
        &achievement.badge_locked_url
    }
}

/// The hardcore status shown at the top of the achievements window.
pub open spec fn hardcore_status_spec(has_warnings: bool, hardcore: bool, game_loaded: bool) -> Seq<char> {
    if has_warnings {
        "HARDCORE UNAVAILABLE"@
    } else if hardcore && game_loaded {
        "HARDCORE ACTIVE"@
    } else if hardcore {
        "HARDCORE READY"@
    } else {
        "OFFLINE"@
    }
}

/// The hardcore status: unavailable while the client warns, active with a game
/// loaded in hardcore mode, ready in hardcore mode without one, else offline.
pub fn hardcore_status_text(has_warnings: bool, hardcore: bool, game_loaded: bool) -> (text: &'static str)
    ensures
        text@ == hardcore_status_spec(has_warnings, hardcore, game_loaded),
{
    if has_warnings {
        "HARDCORE UNAVAILABLE"
    } else if hardcore && game_loaded {
        "HARDCORE ACTIVE"
    } else if hardcore {
        "HARDCORE READY"
    } else {
        "OFFLINE"
    }
}

/// Which achievements the window lists.
#[derive(Debug, Clone, Copy, PartialEq, Eq, Structural)]
pub enum AchievementFilter {
    All,
    Locked,
    Unlocked,
}

/// Whether the unlocked group (`unlocked_group`) or the locked one is listed
/// under `filter`.
pub fn achievement_group_shown(filter: AchievementFilter, unlocked_group: bool) -> (shown: bool)
    ensures
        shown == match filter {
            AchievementFilter::All => true,
            AchievementFilter::Locked => !unlocked_group,
            AchievementFilter::Unlocked => unlocked_group,
        },
{
    match filter {
        AchievementFilter::All => true,
        AchievementFilter::Locked => !unlocked_group,
        AchievementFilter::Unlocked => unlocked_group,
    }
}

/// The heading of a group of achievements, "UNLOCKED  n" or "LOCKED  n".
pub fn achievement_group_heading(unlocked_group: bool, count: usize) -> (heading: String)
    ensures
        heading@ == (if unlocked_group { "UNLOCKED  "@ } else { "LOCKED  "@ }) + decimal(count as nat),
{
    let mut heading = if unlocked_group {
        String::from_str("UNLOCKED  ")
    } else {
        String::from_str("LOCKED  ")
    };
    append_decimal(&mut heading, count as u64);
    heading
}

/// What the archive panel shows: the archived unlocks that are real
/// achievements, as indices in archive order, and their points.
pub struct ArchiveView {
    pub shown: Vec<usize>,
    pub points: u32,
}

/// Picks the archived unlocks to list. Their points must fit a `u32`, as their
/// sum is one.
pub fn archive_view(entries: &Vec<UnlockEntry>) -> (view: ArchiveView)
    requires
        total_of(entries@, indices_where(entries@, entries@.len() as int, archived_unlock()), unlock_points()) <= u32::MAX,
    ensures
        view.shown@ == indices_where(entries@, entries@.len() as int, archived_unlock()),
        view.points == total_of(entries@, view.shown@, unlock_points()),
{
    let ghost items = entries@;
    let ghost n = items.len() as int;
    let mut shown: Vec<usize> = Vec::new();
    let mut points: u32 = 0;
    let mut i: usize = 0;
    while i < entries.len()
        invariant
            items == entries@,
            n == items.len(),
            i <= n,
            total_of(items, indices_where(items, n, archived_unlock()), unlock_points()) <= u32::MAX,
            shown@ == indices_where(items, i as int, archived_unlock()),
            points == total_of(items, shown@, unlock_points()),
        decreases n - i,
    {
        proof {
            lemma_total_grows(items, (i + 1) as int, n, archived_unlock(), unlock_points());
            assert(shown@.push(i).drop_last() == shown@);
        }
        if !is_archived_achievement_warning(&entries[i]) {
            shown.push(i);
            points = points + entries[i].points;
        }
        i += 1;
    }
    ArchiveView { shown, points }
}

/// The proleptic Gregorian year, month (1 to 12) and day of the month of the
/// day `days` days after 1 January 1970, for days from 1970 on.
pub open spec fn civil_date(days: int) -> (int, int, int) {
    let z = days + 719468;
    let era = z / 146097;
    let doe = z - era * 146097;
    let yoe = (doe - doe / 1460 + doe / 36524 - doe / 146096) / 365;
    let doy = doe - (365 * yoe + yoe / 4 - yoe / 100);
    let mp = (5 * doy + 2) / 153;
    let day = doy - (153 * mp + 2) / 5 + 1;
    let month = if mp < 10 { mp + 3 } else { mp - 9 };
    let year = yoe + era * 400;
    (if month <= 2 { year + 1 } else { year }, month, day)
}

/// The English three-letter name of month `month` (1 to 12).
pub open spec fn month_abbreviation(month: int) -> Seq<char> {
    if month == 1 {
        "Jan"@
    } else if month == 2 {
        "Feb"@
    } else if month == 3 {
        "Mar"@
    } else if month == 4 {
        "Apr"@
    } else if month == 5 {
        "May"@
    } else if month == 6 {
        "Jun"@
    } else if month == 7 {
        "Jul"@
    } else if month == 8 {
        "Aug"@
    } else if month == 9 {
        "Sep"@
    } else if month == 10 {
        "Oct"@
    } else if month == 11 {
        "Nov"@
    } else {
        "Dec"@
    }
}

/// `n` (below 100) as two digits, with a leading zero below 10.
pub open spec fn two_digits(n: nat) -> Seq<char> {
    if n < 10 { "0"@ + decimal(n) } else { decimal(n) }
}

/// The wall-clock time `seconds` seconds after midnight, 1 January 1970 (from
/// 1970 to 9999), written as the pattern "%b %-d, %Y · %-I:%M %p" writes it,
/// e.g. "Mar 4, 2025 · 9:05 PM".
pub open spec fn clock_text(seconds: int) -> Seq<char> {
    let (year, month, day) = civil_date(seconds / 86400);
    let in_day = seconds % 86400;
    let hour = in_day / 3600;
    let minute = in_day % 3600 / 60;
    let hour12 = if hour % 12 == 0 { 12 } else { hour % 12 };
    month_abbreviation(month) + " "@ + decimal(day as nat) + ", "@ + decimal(year as nat) + " · "@
        + decimal(hour12 as nat) + ":"@ + two_digits(minute as nat) + " "@ + if hour < 12 {
        "AM"@
    } else {
        "PM"@
    }
}

/// Whether `text` is the clock text of the Unix time `seconds` in some time zone:
/// the time shifted by an offset of less than a day either way.
pub open spec fn local_clock_text(text: Seq<char>, seconds: int) -> bool {
    exists|offset: int| -86400 < offset && offset < 86400 && text == #[trigger] clock_text(seconds + offset)
}

/// Unix times from this one on are at least a day after 1970 began.
pub const CLOCK_TEXT_START: i64 = 86400;

/// Unix times before this one are at least a day before 10000 began.
pub const CLOCK_TEXT_END: i64 = 253402214400;

fn month_abbreviation_text(month: u64) -> (text: &'static str)
    requires
        1 <= month <= 12,
    ensures
        text@ == month_abbreviation(month as int),
{
    match month {
        1 => "Jan",
        2 => "Feb",
        3 => "Mar",
        4 => "Apr",
        5 => "May",
        6 => "Jun",
        7 => "Jul",
        8 => "Aug",
        9 => "Sep",
        10 => "Oct",
        11 => "Nov",
        _ => "Dec",
    }
}

/// The Unix time `seconds` in UTC, written as `clock_text` describes, e.g.
/// "Mar 4, 2025 · 9:05 PM".
pub fn utc_clock_text(seconds: i64) -> (text: String)
    requires
        CLOCK_TEXT_START <= seconds < CLOCK_TEXT_END,
    ensures
        text@ == clock_text(seconds as int),
{
    let s = seconds as u64;
    let days = s / 86400;
    let z = days + 719468;
    let era = z / 146097;
    let doe = z - era * 146097;
    let yoe = (doe - doe / 1460 + doe / 36524 - doe / 146096) / 365;
    let doy = doe - (365 * yoe + yoe / 4 - yoe / 100);
    let mp = (5 * doy + 2) / 153;
    let day = doy - (153 * mp + 2) / 5 + 1;
    let month = if mp < 10 { mp + 3 } else { mp - 9 };
    let base_year = yoe + era * 400;
    let year = if month <= 2 { base_year + 1 } else { base_year };
    let in_day = s % 86400;
    let hour = in_day / 3600;
    let minute = in_day % 3600 / 60;
    let hour12 = if hour % 12 == 0 { 12 } else { hour % 12 };
    proof {
        assert(civil_date(seconds as int / 86400) == (year as int, month as int, day as int));
        assert(seconds as int % 86400 == in_day as int);
    }
    let mut text = String::from_str(month_abbreviation_text(month));
    text.append(" ");
    append_decimal(&mut text, day);
    text.append(", ");
    append_decimal(&mut text, year);
    text.append(" · ");
    append_decimal(&mut text, hour12);
    text.append(":");
    let ghost before_minute = text@;
    if minute < 10 {
        text.append("0");
    }
    append_decimal(&mut text, minute);
    proof {
        assert(text@ == before_minute + two_digits(minute as nat));
    }
    let ghost before_half = text@;
    if hour < 12 {
        text.append(" AM");
        proof {
            reveal_strlit(" AM");
            reveal_strlit(" ");
            reveal_strlit("AM");
            assert(text@ =~= before_half + " "@ + "AM"@);
        }
    } else {
        text.append(" PM");
        proof {
            reveal_strlit(" PM");
            reveal_strlit(" ");
            reveal_strlit("PM");
            assert(text@ =~= before_half + " "@ + "PM"@);
        }
    }
    text
}

/// Unix times this far from 1970, in seconds, lie within chrono's calendar
/// (years -262,143 to 262,142) on either side.
pub const CALENDAR_SECONDS: i64 = 8_000_000_000_000;

/// Unix times at least this far from 1970, in seconds, lie beyond chrono's
/// calendar on either side.
pub const BEYOND_CALENDAR_SECONDS: i64 = 9_000_000_000_000;

/// The local date and time of the Unix time `unlocked_at`, as
/// "Mar 4, 2025 · 9:05 PM", from `chrono::DateTime::from_timestamp`, moved to
/// `chrono::Local` and formatted. Claims that a time within `CALENDAR_SECONDS`
/// of 1970 has a text, that one `BEYOND_CALENDAR_SECONDS` or more away has none
/// (`from_timestamp` gives `None` off its calendar), and that a text, which
/// holds the '·' of the pattern, is never "Unknown time". For a time from
/// `CLOCK_TEXT_START` to `CLOCK_TEXT_END` it claims the text: the pattern
/// applied to the local wall-clock time, which is the time shifted by the local
/// offset, and chrono keeps every offset under a day (`FixedOffset`). Which
/// offset applies depends on the machine's time zone and is not stated.
#[verifier::external_body]
fn local_unlock_time(unlocked_at: i64) -> (text: Option<String>)
    ensures
        -CALENDAR_SECONDS <= unlocked_at <= CALENDAR_SECONDS ==> text is Some,
        CLOCK_TEXT_START <= unlocked_at < CLOCK_TEXT_END ==> text is Some && local_clock_text(
            text.unwrap()@,
            unlocked_at as int,
        ),
        unlocked_at >= BEYOND_CALENDAR_SECONDS || unlocked_at <= -BEYOND_CALENDAR_SECONDS ==> text is None,
        text is Some ==> text.unwrap()@ != "Unknown time"@,
{
    chrono::DateTime::from_timestamp(unlocked_at, 0)
        .map(|time| time.with_timezone(&chrono::Local).format("%b %-d, %Y · %-I:%M %p").to_string())
}

/// The formatted time, or "Unknown time" when there is none.
pub open spec fn unlock_time_text(formatted: Option<String>) -> Seq<char> {
    match formatted {
        Some(t) => t@,
        None => "Unknown time"@,
    }
}

/// The text for an unlock time: the formatted time, or "Unknown time" when the
/// time could not be placed on the calendar.
pub fn unlock_time_or_unknown(formatted: Option<String>) -> (text: String)
    ensures
        text@ == unlock_time_text(formatted),
{
    match formatted {
        Some(t) => t,
        None => String::from_str("Unknown time"),
    }
}

/// The local date and time of an archived unlock, e.g. "Mar 4, 2025 · 9:05 PM",
/// or "Unknown time" for a time off chrono's calendar. The text is the clock
/// text of the unlock time itself, shifted by the machine's local offset (less
/// than a day either way).
pub fn format_unlock_time(unlocked_at: i64) -> (text: String)
    ensures
        CLOCK_TEXT_START <= unlocked_at < CLOCK_TEXT_END ==> local_clock_text(text@, unlocked_at as int),
        -CALENDAR_SECONDS <= unlocked_at <= CALENDAR_SECONDS ==> text@ != "Unknown time"@,
        unlocked_at >= BEYOND_CALENDAR_SECONDS || unlocked_at <= -BEYOND_CALENDAR_SECONDS ==> text@
            == "Unknown time"@,
        exists|formatted: Option<String>| text@ == #[trigger] unlock_time_text(formatted),
{
    let formatted = local_unlock_time(unlocked_at);
    let text = unlock_time_or_unknown(formatted);
    proof {
        reveal_strlit("Unknown time");
    }
    text
}

} // verus!
