use vstd::prelude::*;

verus! {

/// Format version written with every archive.
pub const ARCHIVE_VERSION: u32 = 1;

/// The archive keeps at most this many unlocks, newest first.
pub const MAX_ARCHIVE_ENTRIES: usize = 500;

/// One achievement unlock remembered across sessions.
#[derive(Debug, Clone)]
pub struct UnlockEntry {
    pub game_id: u32,
    pub achievement_id: u32,
    pub game_title: String,
    pub title: String,
    pub description: String,
    pub points: u32,
    pub badge_url: String,
    /// Seconds since the Unix epoch; 0 means "not stamped yet".
    pub unlocked_at: i64,
}

impl Default for UnlockEntry {
    fn default() -> (entry: Self)
        ensures
            entry.game_id == 0,
            entry.achievement_id == 0,
            entry.game_title@ == Seq::<char>::empty(),
            entry.title@ == Seq::<char>::empty(),
            entry.description@ == Seq::<char>::empty(),
            entry.points == 0,
            entry.badge_url@ == Seq::<char>::empty(),
            entry.unlocked_at == 0,
    {
        UnlockEntry {
            game_id: 0,
            achievement_id: 0,
            game_title: String::new(),
            title: String::new(),
            description: String::new(),
            points: 0,
            badge_url: String::new(),
            unlocked_at: 0,
        }
    }
}

/// Two entries describe the same achievement of the same game.
pub open spec fn same_unlock(a: UnlockEntry, b: UnlockEntry) -> bool {
    a.game_id == b.game_id && a.achievement_id == b.achievement_id
}

/// The entries of `s` that describe another achievement than `e`, in their order.
pub open spec fn other_unlocks(s: Seq<UnlockEntry>, e: UnlockEntry) -> Seq<UnlockEntry>
    decreases s.len(),
{
    if s.len() == 0 {
        Seq::empty()
    } else {
        let rest = other_unlocks(s.drop_last(), e);
        if same_unlock(s.last(), e) {
            rest
        } else {
            rest.push(s.last())
        }
    }
}

/// `e` with its timestamp filled in from `now` when it had none.
pub open spec fn stamped(e: UnlockEntry, now: i64) -> UnlockEntry {
    UnlockEntry { unlocked_at: if e.unlocked_at == 0 { now } else { e.unlocked_at }, ..e }
}

/// The archive entries after recording `e`: `e` first, then the older entries of
/// other achievements in their order, cut to the archive's capacity.
pub open spec fn recorded(s: Seq<UnlockEntry>, e: UnlockEntry) -> Seq<UnlockEntry> {
    let all = seq![e] + other_unlocks(s, e);
    if all.len() <= MAX_ARCHIVE_ENTRIES {
        all
    } else {
        all.take(MAX_ARCHIVE_ENTRIES as int)
    }
}

/// No achievement of a game is recorded twice.
pub open spec fn unlocks_unique(s: Seq<UnlockEntry>) -> bool {
    forall|i: int, j: int| 0 <= i < s.len() && 0 <= j < s.len() && i != j ==> !same_unlock(s[i], s[j])
}

/// Every entry kept by `other_unlocks` is an entry of `s` of another achievement,
/// and `other_unlocks` is no longer than `s`.
pub proof fn lemma_other_unlocks_from(s: Seq<UnlockEntry>, e: UnlockEntry)
    ensures
        other_unlocks(s, e).len() <= s.len(),
        forall|i: int| 0 <= i < other_unlocks(s, e).len() ==> !same_unlock(#[trigger] other_unlocks(s, e)[i], e),
        forall|i: int| 0 <= i < other_unlocks(s, e).len() ==> s.contains(#[trigger] other_unlocks(s, e)[i]),
    decreases s.len(),
{
    if s.len() > 0 {
        lemma_other_unlocks_from(s.drop_last(), e);
        let rest = other_unlocks(s.drop_last(), e);
        assert forall|i: int| 0 <= i < other_unlocks(s, e).len() implies s.contains(#[trigger] other_unlocks(s, e)[i]) by {
            if i < rest.len() {
                let k = choose|k: int| 0 <= k < s.drop_last().len() && s.drop_last()[k] == rest[i];
                assert(s[k] == rest[i]);
            } else {
                assert(s[s.len() - 1] == s.last());
            }
        }
    }
}

/// Keeping other unlocks preserves uniqueness: `other_unlocks(s, e)` lists entries of
/// `s` in their order, so two of them at different places came from different places of `s`.
pub proof fn lemma_other_unlocks_unique(s: Seq<UnlockEntry>, e: UnlockEntry)
    requires
        unlocks_unique(s),
    ensures
        unlocks_unique(other_unlocks(s, e)),
    decreases s.len(),
{
    if s.len() > 0 {
        let init = s.drop_last();
        assert(unlocks_unique(init)) by {
            assert forall|i: int, j: int| 0 <= i < init.len() && 0 <= j < init.len() && i != j implies !same_unlock(init[i], init[j]) by {
                assert(init[i] == s[i] && init[j] == s[j]);
            }
        }
        lemma_other_unlocks_unique(init, e);
        lemma_other_unlocks_from(init, e);
        let rest = other_unlocks(init, e);
        if !same_unlock(s.last(), e) {
            let out = rest.push(s.last());
            assert forall|i: int, j: int| 0 <= i < out.len() && 0 <= j < out.len() && i != j implies !same_unlock(out[i], out[j]) by {
                if i < rest.len() && j < rest.len() {
                    assert(out[i] == rest[i] && out[j] == rest[j]);
                } else if i < rest.len() {
                    assert(init.contains(rest[i]));
                    let k = choose|k: int| 0 <= k < init.len() && init[k] == rest[i];
                    assert(s[k] == init[k]);
                    assert(s[s.len() - 1] == s.last());
                } else {
                    assert(init.contains(rest[j]));
                    let k = choose|k: int| 0 <= k < init.len() && init[k] == rest[j];
                    assert(s[k] == init[k]);
                    assert(s[s.len() - 1] == s.last());
                }
            }
        }
    }
}

/// Recording an unlock puts it first, leaves no other entry of the same
/// achievement, keeps the capacity, and keeps an archive free of duplicates.
pub proof fn lemma_recorded_shape(s: Seq<UnlockEntry>, e: UnlockEntry)
    ensures
        recorded(s, e).len() >= 1,
        recorded(s, e)[0] == e,
        recorded(s, e).len() <= MAX_ARCHIVE_ENTRIES,
        forall|i: int| 1 <= i < recorded(s, e).len() ==> !same_unlock(#[trigger] recorded(s, e)[i], e),
        unlocks_unique(s) ==> unlocks_unique(recorded(s, e)),
{
    lemma_other_unlocks_from(s, e);
    let rest = other_unlocks(s, e);
    let all = seq![e] + rest;
    assert forall|i: int| 1 <= i < all.len() implies !same_unlock(#[trigger] all[i], e) by {
        assert(all[i] == rest[i - 1]);
    }
    if unlocks_unique(s) {
        lemma_other_unlocks_unique(s, e);
        assert(unlocks_unique(all)) by {
            assert forall|i: int, j: int| 0 <= i < all.len() && 0 <= j < all.len() && i != j implies !same_unlock(all[i], all[j]) by {
                if i > 0 && j > 0 {
                    assert(all[i] == rest[i - 1] && all[j] == rest[j - 1]);
                }
            }
        }
        let out = recorded(s, e);
        assert forall|i: int, j: int| 0 <= i < out.len() && 0 <= j < out.len() && i != j implies !same_unlock(out[i], out[j]) by {
            assert(out[i] == all[i] && out[j] == all[j]);
        }
    }
    let out = recorded(s, e);
    assert forall|i: int| 1 <= i < out.len() implies !same_unlock(#[trigger] out[i], e) by {
        assert(out[i] == all[i]);
    }
}

/// Law: recording an achievement twice leaves a single entry for it, the later one.
pub proof fn lemma_record_replaces_earlier_unlock(s: Seq<UnlockEntry>, first: UnlockEntry, second: UnlockEntry)
    requires
        same_unlock(first, second),
    ensures
        recorded(recorded(s, first), second)[0] == second,
        forall|i: int| 1 <= i < recorded(recorded(s, first), second).len()
            ==> !same_unlock(#[trigger] recorded(recorded(s, first), second)[i], first),
{
    lemma_recorded_shape(recorded(s, first), second);
}

/// Entries of other achievements than `e` are all kept.
pub proof fn lemma_other_unlocks_keeps_others(t: Seq<UnlockEntry>, e: UnlockEntry)
    requires
        forall|i: int| 0 <= i < t.len() ==> !same_unlock(#[trigger] t[i], e),
    ensures
        other_unlocks(t, e) == t,
    decreases t.len(),
{
    if t.len() > 0 {
        lemma_other_unlocks_keeps_others(t.drop_last(), e);
        assert(t.drop_last().push(t.last()) =~= t);
    }
}

/// An entry of the same achievement in front is dropped along with the others.
pub proof fn lemma_other_unlocks_skips_front(x: UnlockEntry, t: Seq<UnlockEntry>, e: UnlockEntry)
    requires
        same_unlock(x, e),
    ensures
        other_unlocks(seq![x] + t, e) == other_unlocks(t, e),
    decreases t.len(),
{
    if t.len() == 0 {
        let one = seq![x] + t;
        assert(one.drop_last() =~= Seq::<UnlockEntry>::empty());
        assert(one.last() == x);
        assert(other_unlocks(one.drop_last(), e) == Seq::<UnlockEntry>::empty());
        assert(other_unlocks(t, e) == Seq::<UnlockEntry>::empty());
    } else {
        lemma_other_unlocks_skips_front(x, t.drop_last(), e);
        assert((seq![x] + t).drop_last() =~= seq![x] + t.drop_last());
        assert((seq![x] + t).last() == t.last());
    }
}

/// Law: recording the same unlock twice leaves the archive as recording it once.
pub proof fn lemma_record_idempotent(s: Seq<UnlockEntry>, e: UnlockEntry)
    ensures
        recorded(recorded(s, e), e) == recorded(s, e),
{
    let r = recorded(s, e);
    lemma_recorded_shape(s, e);
    assert(r =~= seq![r[0]] + r.drop_first());
    lemma_other_unlocks_skips_front(r[0], r.drop_first(), e);
    assert forall|i: int| 0 <= i < r.drop_first().len() implies !same_unlock(#[trigger] r.drop_first()[i], e) by {
        assert(r.drop_first()[i] == r[i + 1]);
    }
    lemma_other_unlocks_keeps_others(r.drop_first(), e);
    assert(seq![e] + other_unlocks(r, e) =~= r);
}

/// The unlock archive: version and entries, newest first.
pub struct Archive {
    /// The format version the archive was read with or last written at.
    pub version: u32,
    /// The recorded unlocks, newest first.
    pub entries: Vec<UnlockEntry>,
}

impl Default for Archive {
    fn default() -> (archive: Self)
        ensures
            archive.version() == 0,
            archive.unlocks() == Seq::<UnlockEntry>::empty(),
    {
        Archive { version: 0, entries: Vec::new() }
    }
}

/// The time of day in whole seconds since the Unix epoch, from
/// `SystemTime::now` (0 when the clock reads before the epoch). It depends on
/// the clock, so nothing is promised of it.
#[verifier::external_body]
fn current_unix_seconds() -> i64 {
    std::time::SystemTime::now()
        .duration_since(std::time::UNIX_EPOCH)
        .unwrap_or_default()
        .as_secs() as i64
}

impl Archive {
    /// The format version the archive was read with or last written at.
    pub open spec fn version(&self) -> u32 {
        self.version
    }

    /// The recorded unlocks, newest first.
    pub open spec fn unlocks(&self) -> Seq<UnlockEntry> {
        self.entries@
    }

    /// An archive with the given version and entries, as read back from storage.
    pub fn from_parts(version: u32, entries: Vec<UnlockEntry>) -> (archive: Self)
        ensures
            archive.version() == version,
            archive.unlocks() == entries@,
    {
        Archive { version, entries }
    }

    /// A fresh archive at the current format version with no entries.
    pub fn fresh() -> (archive: Self)
        ensures
            archive.version() == ARCHIVE_VERSION,
            archive.unlocks() == Seq::<UnlockEntry>::empty(),
    {
        Archive { version: ARCHIVE_VERSION, entries: Vec::new() }
    }

    /// The stored format version.
    pub fn format_version(&self) -> (v: u32)
        ensures
            v == self.version(),
    {
        self.version
    }

    /// Records `entry`, stamped with `now` when it carries no timestamp: the entry
    /// goes first, any earlier entry of the same achievement is dropped, and the
    /// archive is cut to its capacity.
    pub fn record_at(&mut self, entry: UnlockEntry, now: i64)
        ensures
            final(self).unlocks() == recorded(old(self).unlocks(), stamped(entry, now)),
            final(self).version() == ARCHIVE_VERSION,
    {
        let ghost unstamped = entry;
        let mut entry = entry;
        if entry.unlocked_at == 0 {
            entry.unlocked_at = now;
        }
        let ghost e = entry;
        assert(e == stamped(unstamped, now));
        let mut previous: Vec<UnlockEntry> = Vec::new();
        std::mem::swap(&mut previous, &mut self.entries);
        let ghost prev = previous@;
        let mut kept: Vec<UnlockEntry> = Vec::new();
        for item in iter: previous.into_iter()
            invariant
                iter.seq() == prev,
                kept@ == other_unlocks(prev.take(iter.index() as int), e),
                e == entry,
        {
            assert(prev.take(iter.index() + 1).drop_last() =~= prev.take(iter.index() as int));
            if item.game_id != entry.game_id || item.achievement_id != entry.achievement_id {
                kept.push(item);
            }
        }
        assert(prev.take(prev.len() as int) =~= prev);
        kept.insert(0, entry);
        kept.truncate(MAX_ARCHIVE_ENTRIES);
        self.entries = kept;
        self.version = ARCHIVE_VERSION;
    }

    /// Records `entry` as `record_at` does, stamping an entry without a timestamp
    /// with the current time of day in Unix seconds.
    pub fn record(&mut self, entry: UnlockEntry)
        ensures
            entry.unlocked_at != 0 ==> final(self).unlocks() == recorded(old(self).unlocks(), entry),
            exists|now: i64| final(self).unlocks() == recorded(old(self).unlocks(), #[trigger] stamped(entry, now)),
            final(self).version() == ARCHIVE_VERSION,
    {
        let now = if entry.unlocked_at == 0 {
            current_unix_seconds()
        } else {
            0
        };
        self.record_at(entry, now);
        assert(entry.unlocked_at != 0 ==> stamped(entry, now) == entry);
    }
}

} // verus!
