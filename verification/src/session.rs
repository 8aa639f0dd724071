use std::collections::HashSet;

use vstd::prelude::*;

use crate::achievements::{
    achievement_unlock_baseline, client_warning, is_achievement_client_warning, is_achievement_warning_title,
    register_achievement_unlock, set_mastered, unlocked_ids, warning_title, Achievement,
};
use crate::archive::UnlockEntry;
use crate::cheats::{trim_text, trimmed};
use crate::text::{append_decimal, decimal};

verus! {

broadcast use vstd::std_specs::hash::group_hash_axioms;

/// The kind of an event reported by the achievement client.
#[derive(Debug, Clone, Copy, PartialEq, Eq, Structural)]
pub enum AchievementEventKind {
    Login,
    GameLoad,
    Achievement,
    GameCompleted,
    Reset,
    Disconnected,
    Reconnected,
    Leaderboard,
    ServerError,
    Unknown,
}

/// An event reported by the achievement client.
#[derive(Debug)]
pub struct AchievementEvent {
    pub kind: AchievementEventKind,
    /// 0 for success.
    pub result: i32,
    pub id: u32,
    pub points: u32,
    pub title: String,
    pub message: String,
}

/// The game whose achievement set is loaded.
#[derive(Debug)]
pub struct GameInfo {
    pub id: u32,
    pub title: String,
}

/// A popup announcing an unlock.
#[derive(Debug)]
pub struct AchievementToast {
    pub title: String,
    pub description: String,
    pub points: u32,
    pub badge_url: String,
}

/// What the front end must do about one client event.
#[derive(Debug)]
pub enum AchievementReaction {
    /// Sign-in worked: forget the typed password, store the user's token and
    /// load the current game's set.
    SignedIn,
    /// Sign-in failed: forget the stored token and show the status.
    SignInFailed { status: String },
    /// The set loaded; the unlock baseline has been taken from it.
    SetLoaded { status: String },
    /// No set could be loaded.
    SetNotLoaded { status: String },
    /// A warning row came in through the unlock channel: only show the status.
    Warning { status: String },
    /// An unlock that is a replay and replays are not shown.
    Suppressed,
    /// Show the toast, request its badge, archive the entry if any, and add the
    /// activity line (also the status).
    Unlocked { toast: AchievementToast, archive: Option<UnlockEntry>, activity: String },
    /// The game was mastered: add the activity line (also the status), if any.
    Mastered { activity: Option<String> },
    /// Hardcore mode asks for a reset: reset, drop the toasts, show the status.
    ResetRequested { status: String },
    /// A connection or leaderboard notice: add it to the activity and the status, if any.
    Notice { text: Option<String> },
    /// Nothing to do.
    Ignored,
}

/// What the achievement mode remembers of the loaded set between events.
pub struct AchievementSession {
    pub known_unlocked: HashSet<u32>,
    pub game_mastered: bool,
}

/// The status text a reaction carries (empty for reactions without one).
pub open spec fn reaction_status(reaction: AchievementReaction) -> Seq<char> {
    match reaction {
        AchievementReaction::SignInFailed { status } => status@,
        AchievementReaction::SetLoaded { status } => status@,
        AchievementReaction::SetNotLoaded { status } => status@,
        AchievementReaction::Warning { status } => status@,
        AchievementReaction::ResetRequested { status } => status@,
        _ => Seq::empty(),
    }
}

/// The optional activity line a mastery or notice reaction carries.
pub open spec fn reaction_line(reaction: AchievementReaction) -> Option<Seq<char>> {
    match reaction {
        AchievementReaction::Mastered { activity } => match activity {
            Some(t) => Some(t@),
            None => None,
        },
        AchievementReaction::Notice { text } => match text {
            Some(t) => Some(t@),
            None => None,
        },
        _ => None,
    }
}

/// The first row of `rows` with ID `id`, if any.
pub open spec fn first_row_with_id(rows: Seq<Achievement>, id: u32) -> Option<Achievement> {
    if exists|i: int| 0 <= i < rows.len() && rows[i].id == id {
        let i = choose|i: int| 0 <= i < rows.len() && rows[i].id == id && forall|j: int| 0 <= j < i ==> rows[j].id != id;
        Some(rows[i])
    } else {
        None
    }
}

/// `first` when it is not empty, otherwise `second`.
pub open spec fn non_empty_or(first: Seq<char>, second: Seq<char>) -> Seq<char> {
    if first.len() > 0 { first } else { second }
}

/// The status after a failed sign-in.
pub open spec fn sign_in_failed_text(message: Seq<char>) -> Seq<char> {
    if message.len() == 0 {
        "RetroAchievements sign-in failed"@
    } else {
        "RetroAchievements sign-in failed: "@ + message
    }
}

/// The status after a set loaded.
pub open spec fn set_loaded_text(game: Option<Seq<char>>) -> Seq<char> {
    match game {
        Some(title) => "Achievements loaded: "@ + title + " (hardcore)"@,
        None => "Achievement set loaded (hardcore)"@,
    }
}

/// The status after a set failed to load.
pub open spec fn set_not_loaded_text(message: Seq<char>) -> Seq<char> {
    if message.len() == 0 {
        "No RetroAchievements set was found for this ROM"@
    } else {
        "Achievement set not loaded: "@ + message
    }
}

/// The activity line for an unlock.
pub open spec fn unlock_text(title: Seq<char>, points: u32) -> Seq<char> {
    "Unlocked: "@ + title + " (+"@ + decimal(points as nat) + " points)"@
}

/// The activity line when the game is mastered.
pub open spec fn mastered_text() -> Seq<char> {
    "Game mastered — all core achievements unlocked"@
}

/// Whether `kind` is a connection, leaderboard or server notice.
pub open spec fn is_notice_kind(kind: AchievementEventKind) -> bool {
    kind == AchievementEventKind::Disconnected || kind == AchievementEventKind::Reconnected
        || kind == AchievementEventKind::Leaderboard || kind == AchievementEventKind::ServerError
}

/// Law: the line for a notice shows what the client said: the title alone when
/// there is no message, the message alone when there is no title, and
/// "title: message" when there are both; it is empty only when both are.
pub proof fn lemma_notice_shows_title_and_message(title: Seq<char>, message: Seq<char>)
    ensures
        message.len() == 0 ==> notice_text(title, message) == title,
        message.len() > 0 && title.len() == 0 ==> notice_text(title, message) == message,
        message.len() > 0 && title.len() > 0 ==> notice_text(title, message) == title + ": "@ + message,
        (notice_text(title, message).len() == 0) == (title.len() == 0 && message.len() == 0),
{
    if message.len() > 0 && title.len() > 0 {
        assert((title + ": "@ + message).len() > 0);
    }
}

/// The activity line for a connection or leaderboard notice.
pub open spec fn notice_text(title: Seq<char>, message: Seq<char>) -> Seq<char> {
    if message.len() == 0 {
        title
    } else if title.len() == 0 {
        message
    } else {
        title + ": "@ + message
    }
}

/// The status after sign-in, naming the user when known.
pub open spec fn signed_in_text(display_name: Option<Seq<char>>) -> Seq<char> {
    match display_name {
        Some(name) => "Signed in to RetroAchievements as "@ + name,
        None => "Signed in to RetroAchievements"@,
    }
}

fn prefixed_or(fallback: &str, prefix: &str, detail: &String) -> (text: String)
    ensures
        text@ == if detail@.len() == 0 { fallback@ } else { prefix@ + detail@ },
{
    if detail.as_str().unicode_len() == 0 {
        String::from_str(fallback)
    } else {
        let mut s = String::from_str(prefix);
        s.append(detail.as_str());
        s
    }
}

/// The status after sign-in.
pub fn signed_in_status(display_name: Option<&String>) -> (status: String)
    ensures
        status@ == signed_in_text(
            match display_name {
                Some(name) => Some(name@),
                None => None,
            },
        ),
{
    match display_name {
        Some(name) => {
            let mut s = String::from_str("Signed in to RetroAchievements as ");
            s.append(name.as_str());
            s
        },
        None => String::from_str("Signed in to RetroAchievements"),
    }
}

fn find_row(rows: &Vec<Achievement>, id: u32) -> (index: Option<usize>)
    ensures
        index matches Some(i) ==> i < rows@.len() && first_row_with_id(rows@, id) == Some(rows@[i as int]),
        index is None ==> first_row_with_id(rows@, id) is None,
{
    let mut i: usize = 0;
    while i < rows.len()
        invariant
            i <= rows@.len(),
            forall|j: int| 0 <= j < i ==> rows@[j].id != id,
        decreases rows@.len() - i,
    {
        if rows[i].id == id {
            let ghost k = choose|k: int| 0 <= k < rows@.len() && rows@[k].id == id && forall|j: int| 0 <= j < k ==> rows@[j].id != id;
            proof {
                if k < i {
                    assert(rows@[k].id != id);
                } else if k > i {
                    assert(rows@[i as int].id != id);
                }
            }
            return Some(i);
        }
        i += 1;
    }
    None
}

/// Whether an unlock event is really a client warning.
pub open spec fn unlock_is_warning(event: AchievementEvent, rows: Seq<Achievement>) -> bool {
    event.id == 0 || warning_title(event.title@) || (first_row_with_id(rows, event.id) matches Some(d) && client_warning(d))
}

/// `reaction` announces the unlock of `event`: toast, activity line, and an
/// archive entry exactly for a first unlock in a known game.
pub open spec fn unlock_notification(
    reaction: AchievementReaction,
    event: AchievementEvent,
    rows: Seq<Achievement>,
    game: Option<&GameInfo>,
    first: bool,
) -> bool {
    let details = first_row_with_id(rows, event.id);
    let description = match details {
        Some(d) => non_empty_or(d.description@, event.message@),
        None => event.message@,
    };
    let badge = match details {
        Some(d) => d.badge_url@,
        None => Seq::<char>::empty(),
    };
    match reaction {
        AchievementReaction::Unlocked { toast, archive, activity } => {
            &&& toast.title@ == event.title@
            &&& toast.description@ == description
            &&& toast.points == event.points
            &&& toast.badge_url@ == badge
            &&& activity@ == unlock_text(event.title@, event.points)
            &&& match archive {
                Some(entry) => first && match game {
                    Some(g) => entry.game_id == g.id && entry.achievement_id == event.id && entry.game_title@ == g.title@
                        && entry.title@ == event.title@ && entry.description@ == description && entry.points == event.points
                        && entry.badge_url@ == badge && entry.unlocked_at == 0,
                    None => false,
                },
                None => !(first && game is Some),
            }
        },
        _ => false,
    }
}

impl AchievementSession {
    /// A session with no set loaded.
    pub fn new() -> (session: Self)
        ensures
            session.known_unlocked@ == Set::<u32>::empty(),
            !session.game_mastered,
    {
        AchievementSession { known_unlocked: HashSet::new(), game_mastered: false }
    }

    /// Forgets what was earned in the previous set, before another set loads.
    pub fn forget_set(&mut self)
        ensures
            final(self).known_unlocked@ == Set::<u32>::empty(),
            !final(self).game_mastered,
    {
        self.known_unlocked = HashSet::new();
        self.game_mastered = false;
    }

    fn react_to_unlock(&mut self, event: &AchievementEvent, rows: &Vec<Achievement>, game: Option<&GameInfo>, show_replayed: bool) -> (reaction: AchievementReaction)
        ensures
            unlock_is_warning(*event, rows@) ==> {
                &&& reaction is Warning
                &&& reaction_status(reaction) == non_empty_or(event.message@, event.title@)
                &&& final(self).known_unlocked@ == old(self).known_unlocked@
            },
            !unlock_is_warning(*event, rows@) ==> {
                let first = !old(self).known_unlocked@.contains(event.id);
                &&& final(self).known_unlocked@ == old(self).known_unlocked@.insert(event.id)
                &&& !(first || show_replayed) ==> reaction is Suppressed
                &&& (first || show_replayed) ==> unlock_notification(reaction, *event, rows@, game, first)
            },
            final(self).game_mastered == old(self).game_mastered,
    {
        let row = find_row(rows, event.id);
        let row_warning = match row {
            Some(i) => is_achievement_client_warning(&rows[i]),
            None => false,
        };
        if event.id == 0 || is_achievement_warning_title(event.title.as_str()) || row_warning {
            let status = if event.message.as_str().unicode_len() == 0 {
                event.title.clone()
            } else {
                event.message.clone()
            };
            return AchievementReaction::Warning { status };
        }
        let (first_unlock, show_notification) = register_achievement_unlock(&mut self.known_unlocked, event.id, show_replayed);
        if !show_notification {
            return AchievementReaction::Suppressed;
        }
        let description = match row {
            Some(i) => if rows[i].description.as_str().unicode_len() > 0 {
                rows[i].description.clone()
            } else {
                event.message.clone()
            },
            None => event.message.clone(),
        };
        let badge_url = match row {
            Some(i) => rows[i].badge_url.clone(),
            None => String::new(),
        };
        let archive = if first_unlock {
            match game {
                Some(g) => Some(
                    UnlockEntry {
                        game_id: g.id,
                        achievement_id: event.id,
                        game_title: g.title.clone(),
                        title: event.title.clone(),
                        description: description.clone(),
                        points: event.points,
                        badge_url: badge_url.clone(),
                        unlocked_at: 0,
                    },
                ),
                None => None,
            }
        } else {
            None
        };
        let mut activity = String::from_str("Unlocked: ");
        activity.append(event.title.as_str());
        activity.append(" (+");
        append_decimal(&mut activity, event.points as u64);
        activity.append(" points)");
        assert(activity@ =~= unlock_text(event.title@, event.points));
        let toast = AchievementToast { title: event.title.clone(), description, points: event.points, badge_url };
        AchievementReaction::Unlocked { toast, archive, activity }
    }

    /// Decides what one client event means for the front end and updates what
    /// the session remembers. `rows` and `game` are the client's current set and
    /// game; `show_replayed` is the preference for showing replayed unlocks.
    pub fn handle_achievement_event(
        &mut self,
        event: &AchievementEvent,
        rows: &Vec<Achievement>,
        game: Option<&GameInfo>,
        show_replayed: bool,
    ) -> (reaction: AchievementReaction)
        ensures
            event.kind == AchievementEventKind::Login && event.result == 0 ==> reaction is SignedIn,
            event.kind == AchievementEventKind::Login && event.result != 0 ==> reaction is SignInFailed
                && reaction_status(reaction) == sign_in_failed_text(event.message@),
            event.kind == AchievementEventKind::GameLoad && event.result == 0 ==> reaction is SetLoaded
                && reaction_status(reaction) == set_loaded_text(
                match game {
                    Some(g) => Some(g.title@),
                    None => None,
                },
            ) && final(self).known_unlocked@ == unlocked_ids(rows@) && final(self).game_mastered == set_mastered(rows@),
            event.kind == AchievementEventKind::GameLoad && event.result != 0 ==> reaction is SetNotLoaded
                && reaction_status(reaction) == set_not_loaded_text(event.message@),
            event.kind == AchievementEventKind::Achievement && unlock_is_warning(*event, rows@) ==> reaction is Warning
                && reaction_status(reaction) == non_empty_or(event.message@, event.title@),
            event.kind == AchievementEventKind::Achievement && !unlock_is_warning(*event, rows@)
                ==> final(self).known_unlocked@ == old(self).known_unlocked@.insert(event.id),
            event.kind == AchievementEventKind::Achievement && !unlock_is_warning(*event, rows@)
                && old(self).known_unlocked@.contains(event.id) && !show_replayed ==> reaction is Suppressed,
            event.kind == AchievementEventKind::Achievement && !unlock_is_warning(*event, rows@)
                && !(old(self).known_unlocked@.contains(event.id) && !show_replayed) ==> unlock_notification(
                reaction,
                *event,
                rows@,
                game,
                !old(self).known_unlocked@.contains(event.id),
            ),
            event.kind == AchievementEventKind::GameCompleted ==> final(self).game_mastered && reaction is Mastered
                && reaction_line(reaction) == if old(self).game_mastered && !show_replayed {
                None
            } else {
                Some(mastered_text())
            },
            event.kind == AchievementEventKind::Reset ==> reaction is ResetRequested && reaction_status(reaction)
                == "Reset for RetroAchievements hardcore mode"@,
            event.kind == AchievementEventKind::Disconnected || event.kind == AchievementEventKind::Reconnected
                || event.kind == AchievementEventKind::Leaderboard || event.kind == AchievementEventKind::ServerError
                ==> reaction is Notice && reaction_line(reaction) == if notice_text(event.title@, event.message@).len() == 0 {
                None
            } else {
                Some(notice_text(event.title@, event.message@))
            },
            is_notice_kind(event.kind) && event.message@.len() == 0 && event.title@.len() > 0 ==> reaction_line(reaction)
                == Some(event.title@),
            is_notice_kind(event.kind) && event.message@.len() > 0 && event.title@.len() == 0 ==> reaction_line(reaction)
                == Some(event.message@),
            is_notice_kind(event.kind) && event.message@.len() > 0 && event.title@.len() > 0 ==> reaction_line(reaction)
                == Some(event.title@ + ": "@ + event.message@),
            is_notice_kind(event.kind) && event.message@.len() == 0 && event.title@.len() == 0 ==> reaction_line(reaction)
                is None,
            event.kind == AchievementEventKind::Unknown ==> reaction is Ignored,
            event.kind != AchievementEventKind::GameLoad && event.kind != AchievementEventKind::Achievement
                ==> final(self).known_unlocked@ == old(self).known_unlocked@,
            event.kind != AchievementEventKind::GameLoad && event.kind != AchievementEventKind::GameCompleted
                ==> final(self).game_mastered == old(self).game_mastered,
    {
        match event.kind {
            AchievementEventKind::Login => {
                if event.result == 0 {
                    AchievementReaction::SignedIn
                } else {
                    AchievementReaction::SignInFailed {
                        status: prefixed_or("RetroAchievements sign-in failed", "RetroAchievements sign-in failed: ", &event.message),
                    }
                }
            },
            AchievementEventKind::GameLoad => {
                if event.result == 0 {
                    let (known, mastered) = achievement_unlock_baseline(rows.as_slice());
                    self.known_unlocked = known;
                    self.game_mastered = mastered;
                    let status = match game {
                        Some(g) => {
                            let mut s = String::from_str("Achievements loaded: ");
                            s.append(g.title.as_str());
                            s.append(" (hardcore)");
                            s
                        },
                        None => String::from_str("Achievement set loaded (hardcore)"),
                    };
                    AchievementReaction::SetLoaded { status }
                } else {
                    AchievementReaction::SetNotLoaded {
                        status: prefixed_or(
                            "No RetroAchievements set was found for this ROM",
                            "Achievement set not loaded: ",
                            &event.message,
                        ),
                    }
                }
            },
            AchievementEventKind::Achievement => self.react_to_unlock(event, rows, game, show_replayed),
            AchievementEventKind::GameCompleted => {
                let already_mastered = self.game_mastered;
                self.game_mastered = true;
                if already_mastered && !show_replayed {
                    AchievementReaction::Mastered { activity: None }
                } else {
                    AchievementReaction::Mastered {
                        activity: Some(String::from_str("Game mastered — all core achievements unlocked")),
                    }
                }
            },
            AchievementEventKind::Reset => AchievementReaction::ResetRequested {
                status: String::from_str("Reset for RetroAchievements hardcore mode"),
            },
            AchievementEventKind::Unknown => AchievementReaction::Ignored,
            _ => {
                let text = if event.message.as_str().unicode_len() == 0 {
                    event.title.clone()
                } else if event.title.as_str().unicode_len() == 0 {
                    event.message.clone()
                } else {
                    let mut s = event.title.clone();
                    s.append(": ");
                    s.append(event.message.as_str());
                    s
                };
                if text.as_str().unicode_len() == 0 {
                    AchievementReaction::Notice { text: None }
                } else {
                    AchievementReaction::Notice { text: Some(text) }
                }
            },
        }
    }
}

/// How to start achievement mode.
#[derive(Debug, PartialEq, Eq)]
pub enum SessionStart {
    /// A user is signed in already: load the current game's set.
    LoadGame,
    /// No stored credentials: ask the user to sign in.
    AskForSignIn,
    /// Sign in with the stored user name and token (both trimmed).
    SignIn { username: String, token: String },
}

/// The status shown when achievement mode starts without stored credentials.
pub open spec fn ask_for_sign_in_text() -> Seq<char> {
    "Achievement mode enabled — sign in to RetroAchievements"@
}

/// Decides how achievement mode starts: with the signed-in user, by asking for a
/// sign-in when the stored user name or token is blank, or by signing in with them.
pub fn achievement_session_start(signed_in: bool, username: &str, token: &str) -> (start: SessionStart)
    ensures
        signed_in ==> start == SessionStart::LoadGame,
        !signed_in && (trimmed(username@).len() == 0 || trimmed(token@).len() == 0) ==> start == SessionStart::AskForSignIn,
        !signed_in && trimmed(username@).len() > 0 && trimmed(token@).len() > 0 ==> (start matches SessionStart::SignIn { username: u, token: t }
            && u@ == trimmed(username@) && t@ == trimmed(token@)),
{
    if signed_in {
        return SessionStart::LoadGame;
    }
    let username = trim_text(username);
    let token = trim_text(token);
    if username.unicode_len() == 0 || token.unicode_len() == 0 {
        return SessionStart::AskForSignIn;
    }
    SessionStart::SignIn { username: String::from_str(username), token: String::from_str(token) }
}

/// The status after asking the client to sign in: in progress, or the client's error.
pub fn sign_in_request_status(error: Option<&String>) -> (status: String)
    ensures
        status@ == match error {
            Some(e) => "RetroAchievements sign-in failed: "@ + e@,
            None => "Signing in to RetroAchievements…"@,
        },
{
    match error {
        Some(e) => {
            let mut s = String::from_str("RetroAchievements sign-in failed: ");
            s.append(e.as_str());
            s
        },
        None => String::from_str("Signing in to RetroAchievements…"),
    }
}

/// The badge addresses already asked for, each once.
pub struct BadgeRequests {
    requested: Vec<String>,
}

/// Whether `url` is among `requested`.
pub open spec fn badge_requested(requested: Seq<String>, url: Seq<char>) -> bool {
    exists|i: int| 0 <= i < requested.len() && requested[i]@ == url
}

impl BadgeRequests {
    /// The badge addresses asked for so far.
    pub closed spec fn urls(&self) -> Set<Seq<char>> {
        Set::new(|u: Seq<char>| badge_requested(self.requested@, u))
    }

    /// Nothing asked for yet.
    pub fn new() -> (requests: Self)
        ensures
            requests.urls() == Set::<Seq<char>>::empty(),
    {
        let requests = BadgeRequests { requested: Vec::new() };
        assert(requests.urls() =~= Set::<Seq<char>>::empty());
        requests
    }

    /// Decides whether to download the badge at `url`: only a non-empty address
    /// whose texture is not loaded and that was not asked for before. Such an
    /// address is remembered as asked for.
    pub fn ensure_achievement_badge(&mut self, url: &String, loaded: bool) -> (request: bool)
        ensures
            request == (url@.len() > 0 && !loaded && !old(self).urls().contains(url@)),
            final(self).urls() == if url@.len() > 0 && !loaded {
                old(self).urls().insert(url@)
            } else {
                old(self).urls()
            },
    {
        if url.as_str().unicode_len() == 0 || loaded {
            return false;
        }
        let mut i: usize = 0;
        while i < self.requested.len()
            invariant
                i <= self.requested@.len(),
                self.requested@ == old(self).requested@,
                forall|j: int| 0 <= j < i ==> self.requested@[j]@ != url@,
            decreases self.requested@.len() - i,
        {
            if self.requested[i] == *url {
                proof {
                    assert(self.urls().contains(url@));
                    assert(self.urls().insert(url@) =~= self.urls());
                }
                return false;
            }
            i += 1;
        }
        let ghost before = self.requested@;
        self.requested.push(url.clone());
        proof {
            assert forall|u: Seq<char>| badge_requested(self.requested@, u) == (badge_requested(before, u) || u == url@) by {
                if badge_requested(before, u) {
                    let k = choose|k: int| 0 <= k < before.len() && before[k]@ == u;
                    assert(self.requested@[k] == before[k]);
                }
                if u == url@ {
                    assert(self.requested@[before.len() as int]@ == u);
                }
                if badge_requested(self.requested@, u) && u != url@ {
                    let k = choose|k: int| 0 <= k < self.requested@.len() && self.requested@[k]@ == u;
                    assert(k < before.len());
                    assert(before[k] == self.requested@[k]);
                }
            }
            assert(before == old(self).requested@);
            assert forall|u: Seq<char>| self.urls().contains(u) == old(self).urls().insert(url@).contains(u) by {
                assert(self.urls().contains(u) == badge_requested(self.requested@, u));
                assert(old(self).urls().contains(u) == badge_requested(before, u));
            }
            assert(self.urls() =~= old(self).urls().insert(url@));
        }
        true
    }
}

} // verus!
