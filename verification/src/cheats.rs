use vstd::prelude::*;

use crate::text::{append_decimal, append_hex_fixed, decimal, hex_fixed, push_char};

verus! {

/// An address space the memory viewer can show.
#[derive(Debug, Clone, Copy, PartialEq, Eq)]
pub enum MemorySpace {
    CpuBus,
    CpuRam,
    PpuNametable,
    Palette,
    Oam,
    PrgRom,
    Chr,
}

/// The viewer's name for an address space.
pub open spec fn memory_space_name(space: MemorySpace) -> Seq<char> {
    match space {
        MemorySpace::CpuBus => "CPU bus (game's view)"@,
        MemorySpace::CpuRam => "CPU RAM"@,
        MemorySpace::PpuNametable => "PPU nametables"@,
        MemorySpace::Palette => "Palette RAM"@,
        MemorySpace::Oam => "OAM"@,
        MemorySpace::PrgRom => "PRG ROM (read-only)"@,
        MemorySpace::Chr => "CHR"@,
    }
}

/// The viewer's name for an address space.
pub fn memory_label(space: MemorySpace) -> (label: &'static str)
    ensures
        label@ == memory_space_name(space),
{
    match space {
        MemorySpace::CpuBus => "CPU bus (game's view)",
        MemorySpace::CpuRam => "CPU RAM",
        MemorySpace::PpuNametable => "PPU nametables",
        MemorySpace::Palette => "Palette RAM",
        MemorySpace::Oam => "OAM",
        MemorySpace::PrgRom => "PRG ROM (read-only)",
        MemorySpace::Chr => "CHR",
    }
}

/// A decoded Game Genie style patch: replace the byte at `address` by `value`,
/// only while the real byte equals `compare` when one is given.
#[derive(Debug, Clone, Copy, PartialEq, Eq, Structural)]
pub struct Cheat {
    pub address: u16,
    pub value: u8,
    pub compare: Option<u8>,
}

/// What an installed cheat is doing: the real byte, what the CPU sees, and how
/// often the patch fired.
#[derive(Debug, Clone, Copy, PartialEq, Eq)]
pub struct CheatActivity {
    pub cheat: Cheat,
    pub actual: u8,
    pub observed: u8,
    pub hits: u64,
}

/// The hover text of a cheat activity row.
pub open spec fn cheat_hover_text(entry: CheatActivity) -> Seq<char> {
    "Cheat patch at $"@ + hex_fixed(entry.cheat.address as nat, 4) + ": "@ + hex_fixed(entry.actual as nat, 2) + " → "@
        + hex_fixed(entry.cheat.value as nat, 2) + match entry.cheat.compare {
        Some(compare) => " while the real byte is "@ + hex_fixed(compare as nat, 2),
        None => Seq::empty(),
    } + "\nCPU currently sees "@ + hex_fixed(entry.observed as nat, 2) + " • fired "@ + decimal(entry.hits as nat)
        + " time(s)"@
}

/// Explains a cheat activity row: where it patches, what it changes, and how
/// often it fired.
pub fn cheat_cell_hover(entry: &CheatActivity) -> (text: String)
    ensures
        text@ == cheat_hover_text(*entry),
{
    let mut text = String::from_str("Cheat patch at $");
    append_hex_fixed(&mut text, entry.cheat.address as u64, 4);
    text.append(": ");
    append_hex_fixed(&mut text, entry.actual as u64, 2);
    text.append(" → ");
    append_hex_fixed(&mut text, entry.cheat.value as u64, 2);
    let ghost before_compare = text@;
    if let Some(compare) = entry.cheat.compare {
        text.append(" while the real byte is ");
        append_hex_fixed(&mut text, compare as u64, 2);
    }
    assert(text@ =~= before_compare + match entry.cheat.compare {
        Some(compare) => " while the real byte is "@ + hex_fixed(compare as nat, 2),
        None => Seq::empty(),
    });
    text.append("\nCPU currently sees ");
    append_hex_fixed(&mut text, entry.observed as u64, 2);
    text.append(" • fired ");
    append_decimal(&mut text, entry.hits);
    text.append(" time(s)");
    assert(text@ =~= cheat_hover_text(*entry));
    text
}

/// A cheat code as the user typed it, with its name and what decoding it gave.
#[derive(Debug, Clone, PartialEq, Eq)]
pub struct CheatCode {
    pub parsed: Option<Cheat>,
    pub code: String,
    pub name: String,
}

/// Whether `c` is white space in Unicode (the `White_Space` property).
pub open spec fn is_white_space(c: char) -> bool {
    ('\u{9}' <= c <= '\u{d}') || c == ' ' || c == '\u{85}' || c == '\u{a0}' || c == '\u{1680}' || ('\u{2000}' <= c
        <= '\u{200a}') || c == '\u{2028}' || c == '\u{2029}' || c == '\u{202f}' || c == '\u{205f}' || c == '\u{3000}'
}

/// `s` without leading white space.
pub open spec fn trim_start_spec(s: Seq<char>) -> Seq<char>
    decreases s.len(),
{
    if s.len() > 0 && is_white_space(s[0]) {
        trim_start_spec(s.drop_first())
    } else {
        s
    }
}

/// `s` without trailing white space.
pub open spec fn trim_end_spec(s: Seq<char>) -> Seq<char>
    decreases s.len(),
{
    if s.len() > 0 && is_white_space(s.last()) {
        trim_end_spec(s.drop_last())
    } else {
        s
    }
}

/// `s` without leading and trailing white space, as `str::trim` gives it.
pub open spec fn trimmed(s: Seq<char>) -> Seq<char> {
    trim_end_spec(trim_start_spec(s))
}

/// `c` with ASCII small letters made capital.
pub open spec fn ascii_upper(c: char) -> char {
    if 'a' <= c <= 'z' {
        ((c as u32) - 32) as char
    } else {
        c
    }
}

/// The label shown for a cheat code: the code trimmed and in ASCII capitals,
/// followed by " — " and the trimmed name when there is one.
pub open spec fn cheat_label_text(code: Seq<char>, name: Seq<char>) -> Seq<char> {
    let upper = trimmed(code).map_values(|c: char| ascii_upper(c));
    if trimmed(name).len() == 0 {
        upper
    } else {
        upper + " — "@ + trimmed(name)
    }
}

/// The labels kept after considering `codes` in order: each decoded cheat is
/// labelled by the first code that decodes to it.
pub open spec fn cheat_labels_spec(codes: Seq<CheatCode>) -> Seq<(Cheat, Seq<char>)>
    decreases codes.len(),
{
    if codes.len() == 0 {
        Seq::empty()
    } else {
        let earlier = cheat_labels_spec(codes.drop_last());
        let last = codes.last();
        match last.parsed {
            Some(cheat) => if exists|i: int| 0 <= i < earlier.len() && earlier[i].0 == cheat {
                earlier
            } else {
                earlier.push((cheat, cheat_label_text(last.code@, last.name@)))
            },
            None => earlier,
        }
    }
}

fn is_white_space_char(c: char) -> (b: bool)
    ensures
        b == is_white_space(c),
{
    ('\u{9}' <= c && c <= '\u{d}') || c == ' ' || c == '\u{85}' || c == '\u{a0}' || c == '\u{1680}' || ('\u{2000}' <= c
        && c <= '\u{200a}') || c == '\u{2028}' || c == '\u{2029}' || c == '\u{202f}' || c == '\u{205f}' || c == '\u{3000}'
}

pub(crate) fn trim_text(s: &str) -> (t: &str)
    ensures
        t@ == trimmed(s@),
{
    let n = s.unicode_len();
    let mut start: usize = 0;
    assert(s@.skip(0) =~= s@);
    while start < n && is_white_space_char(s.get_char(start))
        invariant
            n == s@.len(),
            start <= n,
            trim_start_spec(s@) == trim_start_spec(s@.skip(start as int)),
        decreases n - start,
    {
        assert(s@.skip(start as int).drop_first() =~= s@.skip(start + 1));
        start += 1;
    }
    let ghost front = s@.skip(start as int);
    assert(trim_start_spec(s@) == front);
    let mut end: usize = n;
    assert(front.take(front.len() as int) =~= front);
    while end > start && is_white_space_char(s.get_char(end - 1))
        invariant
            n == s@.len(),
            start <= end <= n,
            front == s@.skip(start as int),
            trim_end_spec(front) == trim_end_spec(front.take(end - start)),
        decreases end,
    {
        assert(front.take(end - start).drop_last() =~= front.take(end - 1 - start));
        assert(front.take(end - start).last() == s@[end - 1]);
        end -= 1;
    }
    let t = s.substring_char(start, end);
    assert(t@ =~= front.take(end - start));
    t
}

fn upper_text(s: &str) -> (t: String)
    ensures
        t@ == s@.map_values(|c: char| ascii_upper(c)),
{
    let n = s.unicode_len();
    let mut t = String::new();
    let mut i: usize = 0;
    while i < n
        invariant
            n == s@.len(),
            i <= n,
            t@ == s@.take(i as int).map_values(|c: char| ascii_upper(c)),
        decreases n - i,
    {
        let c = s.get_char(i);
        let u = if 'a' <= c && c <= 'z' {
            ((c as u8) - 32) as char
        } else {
            c
        };
        push_char(&mut t, u);
        i += 1;
        assert(t@ =~= s@.take(i as int).map_values(|c: char| ascii_upper(c)));
    }
    assert(s@.take(n as int) =~= s@);
    t
}

/// Labels for the decoded cheats of `codes` (the per-game list, then the codes
/// of a loaded movie), so activity rows can show the code as typed; a cheat is
/// labelled once, by the first code that decodes to it.
pub fn cheat_code_labels(codes: &Vec<CheatCode>) -> (labels: Vec<(Cheat, String)>)
    ensures
        labels@.len() == cheat_labels_spec(codes@).len(),
        forall|i: int| 0 <= i < labels@.len() ==> (#[trigger] labels@[i]).0 == cheat_labels_spec(codes@)[i].0
            && labels@[i].1@ == cheat_labels_spec(codes@)[i].1,
{
    let mut labels: Vec<(Cheat, String)> = Vec::new();
    let mut k: usize = 0;
    while k < codes.len()
        invariant
            k <= codes@.len(),
            labels@.len() == cheat_labels_spec(codes@.take(k as int)).len(),
            forall|i: int| 0 <= i < labels@.len() ==> (#[trigger] labels@[i]).0 == cheat_labels_spec(codes@.take(k as int))[i].0
                && labels@[i].1@ == cheat_labels_spec(codes@.take(k as int))[i].1,
        decreases codes@.len() - k,
    {
        let ghost earlier = cheat_labels_spec(codes@.take(k as int));
        assert(codes@.take(k + 1).drop_last() =~= codes@.take(k as int));
        assert(codes@.take(k + 1).last() == codes@[k as int]);
        let entry = &codes[k];
        if let Some(cheat) = entry.parsed {
            let mut seen = false;
            let mut i: usize = 0;
            while i < labels.len()
                invariant
                    i <= labels@.len(),
                    labels@.len() == earlier.len(),
                    forall|j: int| 0 <= j < labels@.len() ==> (#[trigger] labels@[j]).0 == earlier[j].0,
                    seen == exists|j: int| 0 <= j < i && earlier[j].0 == cheat,
                decreases labels@.len() - i,
            {
                if labels[i].0 == cheat {
                    seen = true;
                }
                i += 1;
            }
            if !seen {
                let code = upper_text(trim_text(entry.code.as_str()));
                let name = trim_text(entry.name.as_str());
                let label = if name.unicode_len() == 0 {
                    code
                } else {
                    let mut l = code;
                    l.append(" — ");
                    l.append(name);
                    l
                };
                assert(label@ =~= cheat_label_text(entry.code@, entry.name@));
                labels.push((cheat, label));
            }
        }
        k += 1;
    }
    assert(codes@.take(codes@.len() as int) =~= codes@);
    labels
}

/// How long an activity dot stays lit after a cheat fires, in nanoseconds.
pub const CHEAT_FLASH_NANOS: u64 = 600_000_000;

/// The activity dot of one installed cheat: the hit count last seen and, on a
/// monotonic nanosecond clock, until when the dot stays lit.
#[derive(Debug, Clone, Copy, PartialEq, Eq)]
pub struct CheatFlash {
    pub hits: u64,
    pub flash_until: Option<u64>,
}

/// What a cheat is doing to its byte right now.
#[derive(Debug, Clone, Copy, PartialEq, Eq)]
pub enum CheatEffect {
    /// The CPU sees the patched byte.
    Patching,
    /// The compare byte does not match yet; carries the real byte.
    Waiting(u8),
    /// The real byte already holds the patched value.
    AlreadyMatches,
}

/// One row of the cheat activity list.
#[derive(Debug, Clone, PartialEq, Eq)]
pub struct CheatRow {
    pub firing: bool,
    pub label: String,
    pub patch: String,
    pub effect: CheatEffect,
    pub fired: String,
    pub address: u16,
}

/// The dot state after seeing `entry` at time `now`: a higher hit count lights
/// the dot for the flash time, a lower one only resets the count.
pub open spec fn flash_after(state: CheatFlash, entry: CheatActivity, now: u64) -> CheatFlash {
    if entry.hits != state.hits {
        CheatFlash {
            hits: entry.hits,
            flash_until: if entry.hits > state.hits { Some((now + CHEAT_FLASH_NANOS) as u64) } else { state.flash_until },
        }
    } else {
        state
    }
}

/// Whether a dot is lit at `now`.
pub open spec fn flash_lit(state: CheatFlash, now: u64) -> bool {
    state.flash_until matches Some(until) && until > now
}

/// The dot states to start from: the given ones when there is one per cheat,
/// otherwise dark dots at the current hit counts.
pub open spec fn flash_base(flash: Seq<CheatFlash>, activity: Seq<CheatActivity>) -> Seq<CheatFlash> {
    if flash.len() == activity.len() {
        flash
    } else {
        activity.map_values(|e: CheatActivity| CheatFlash { hits: e.hits, flash_until: None })
    }
}

/// The label of the first entry of `labels` for `cheat`, or "unnamed patch".
pub open spec fn cheat_row_label(labels: Seq<(Cheat, String)>, cheat: Cheat) -> Seq<char> {
    if exists|i: int| 0 <= i < labels.len() && labels[i].0 == cheat {
        let i = choose|i: int| 0 <= i < labels.len() && labels[i].0 == cheat && forall|j: int| 0 <= j < i ==> labels[j].0 != cheat;
        labels[i].1@
    } else {
        "unnamed patch"@
    }
}

/// The patch text of a cheat, e.g. "$07A5: 3C → 0F" or "$07A5 → 0F".
pub open spec fn cheat_patch_text(cheat: Cheat) -> Seq<char> {
    match cheat.compare {
        Some(compare) => "$"@ + hex_fixed(cheat.address as nat, 4) + ": "@ + hex_fixed(compare as nat, 2) + " → "@
            + hex_fixed(cheat.value as nat, 2),
        None => "$"@ + hex_fixed(cheat.address as nat, 4) + " → "@ + hex_fixed(cheat.value as nat, 2),
    }
}

/// What a cheat is doing to its byte.
pub open spec fn cheat_effect(entry: CheatActivity) -> CheatEffect {
    if entry.observed != entry.actual {
        CheatEffect::Patching
    } else if entry.cheat.compare matches Some(compare) && compare != entry.actual {
        CheatEffect::Waiting(entry.actual)
    } else {
        CheatEffect::AlreadyMatches
    }
}

/// The text for a cheat effect.
pub open spec fn cheat_effect_text(effect: CheatEffect) -> Seq<char> {
    match effect {
        CheatEffect::Patching => "patching"@,
        CheatEffect::Waiting(actual) => "waiting (byte is "@ + hex_fixed(actual as nat, 2) + ")"@,
        CheatEffect::AlreadyMatches => "byte already matches"@,
    }
}

impl CheatEffect {
    /// The text shown for this effect.
    pub fn text(&self) -> (text: String)
        ensures
            text@ == cheat_effect_text(*self),
    {
        match *self {
            CheatEffect::Patching => String::from_str("patching"),
            CheatEffect::Waiting(actual) => {
                let mut s = String::from_str("waiting (byte is ");
                append_hex_fixed(&mut s, actual as u64, 2);
                s.append(")");
                s
            },
            CheatEffect::AlreadyMatches => String::from_str("byte already matches"),
        }
    }
}

fn row_label(labels: &Vec<(Cheat, String)>, cheat: Cheat) -> (label: String)
    ensures
        label@ == cheat_row_label(labels@, cheat),
{
    let mut i: usize = 0;
    while i < labels.len()
        invariant
            i <= labels@.len(),
            forall|j: int| 0 <= j < i ==> labels@[j].0 != cheat,
        decreases labels@.len() - i,
    {
        if labels[i].0 == cheat {
            let ghost k = choose|k: int| 0 <= k < labels@.len() && labels@[k].0 == cheat && forall|j: int| 0 <= j < k ==> labels@[j].0 != cheat;
            proof {
                if k < i {
                    assert(labels@[k].0 != cheat);
                } else if k > i {
                    assert(labels@[i as int].0 != cheat);
                }
            }
            return labels[i].1.clone();
        }
        i += 1;
    }
    String::from_str("unnamed patch")
}

fn patch_text(cheat: Cheat) -> (text: String)
    ensures
        text@ == cheat_patch_text(cheat),
{
    let mut s = String::from_str("$");
    append_hex_fixed(&mut s, cheat.address as u64, 4);
    match cheat.compare {
        Some(compare) => {
            s.append(": ");
            append_hex_fixed(&mut s, compare as u64, 2);
        },
        None => {},
    }
    s.append(" → ");
    append_hex_fixed(&mut s, cheat.value as u64, 2);
    assert(s@ =~= cheat_patch_text(cheat));
    s
}

/// Updates the activity dots of the installed cheats at time `now` and gives one
/// row per cheat: whether its dot is lit, its label, its patch, what it does to
/// the byte, and how often it fired ("fired N×").
pub fn cheat_activity_rows(
    activity: &Vec<CheatActivity>,
    flash: &mut Vec<CheatFlash>,
    labels: &Vec<(Cheat, String)>,
    now: u64,
) -> (rows: Vec<CheatRow>)
    requires
        now + CHEAT_FLASH_NANOS <= u64::MAX,
    ensures
        final(flash)@.len() == activity@.len(),
        rows@.len() == activity@.len(),
        forall|i: int| 0 <= i < activity@.len() ==> final(flash)@[i] == flash_after(
            flash_base(old(flash)@, activity@)[i],
            #[trigger] activity@[i],
            now,
        ),
        forall|i: int| 0 <= i < activity@.len() ==> {
            let row = #[trigger] rows@[i];
            &&& row.firing == flash_lit(final(flash)@[i], now)
            &&& row.label@ == cheat_row_label(labels@, activity@[i].cheat)
            &&& row.patch@ == cheat_patch_text(activity@[i].cheat)
            &&& row.effect == cheat_effect(activity@[i])
            &&& row.fired@ == "fired "@ + decimal(activity@[i].hits as nat) + "×"@
            &&& row.address == activity@[i].cheat.address
        },
{
    if flash.len() != activity.len() {
        let mut fresh: Vec<CheatFlash> = Vec::new();
        let mut k: usize = 0;
        while k < activity.len()
            invariant
                k <= activity@.len(),
                fresh@ == activity@.take(k as int).map_values(|e: CheatActivity| CheatFlash { hits: e.hits, flash_until: None }),
            decreases activity@.len() - k,
        {
            fresh.push(CheatFlash { hits: activity[k].hits, flash_until: None });
            k += 1;
            assert(fresh@ =~= activity@.take(k as int).map_values(|e: CheatActivity| CheatFlash { hits: e.hits, flash_until: None }));
        }
        assert(activity@.take(activity@.len() as int) =~= activity@);
        *flash = fresh;
    }
    let ghost base = flash@;
    assert(base == flash_base(old(flash)@, activity@));
    let mut rows: Vec<CheatRow> = Vec::new();
    let mut i: usize = 0;
    while i < activity.len()
        invariant
            now + CHEAT_FLASH_NANOS <= u64::MAX,
            i <= activity@.len(),
            flash@.len() == activity@.len(),
            base.len() == activity@.len(),
            rows@.len() == i,
            forall|j: int| i <= j < activity@.len() ==> flash@[j] == base[j],
            forall|j: int| 0 <= j < i ==> flash@[j] == flash_after(base[j], #[trigger] activity@[j], now),
            forall|j: int| 0 <= j < i ==> {
                let row = #[trigger] rows@[j];
                &&& row.firing == flash_lit(flash@[j], now)
                &&& row.label@ == cheat_row_label(labels@, activity@[j].cheat)
                &&& row.patch@ == cheat_patch_text(activity@[j].cheat)
                &&& row.effect == cheat_effect(activity@[j])
                &&& row.fired@ == "fired "@ + decimal(activity@[j].hits as nat) + "×"@
                &&& row.address == activity@[j].cheat.address
            },
        decreases activity@.len() - i,
    {
        let entry = activity[i];
        let mut state = flash[i];
        if entry.hits != state.hits {
            if entry.hits > state.hits {
                state.flash_until = Some(now + CHEAT_FLASH_NANOS);
            }
            state.hits = entry.hits;
        }
        flash.set(i, state);
        let firing = match state.flash_until {
            Some(until) => until > now,
            None => false,
        };
        let effect = if entry.observed != entry.actual {
            CheatEffect::Patching
        } else {
            match entry.cheat.compare {
                Some(compare) => if compare != entry.actual {
                    CheatEffect::Waiting(entry.actual)
                } else {
                    CheatEffect::AlreadyMatches
                },
                None => CheatEffect::AlreadyMatches,
            }
        };
        let mut fired = String::from_str("fired ");
        append_decimal(&mut fired, entry.hits);
        fired.append("×");
        assert(fired@ =~= "fired "@ + decimal(entry.hits as nat) + "×"@);
        rows.push(
            CheatRow {
                firing,
                label: row_label(labels, entry.cheat),
                patch: patch_text(entry.cheat),
                effect,
                fired,
                address: entry.cheat.address,
            },
        );
        i += 1;
    }
    rows
}

} // verus!
