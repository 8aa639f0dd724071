use vstd::prelude::*;

use crate::achievements::{ascii_lower, starts_ignoring_case};
use crate::text::{append_decimal, decimal, digit_char, push_char};

verus! {

/// The television standard a cartridge is run with.
#[derive(Debug, Clone, Copy, PartialEq, Eq, Structural)]
pub enum Region {
    Ntsc,
    Pal,
}

/// File-name tags that mark a European (PAL) dump.
pub open spec fn pal_tags() -> Seq<Seq<char>> {
    seq![
        "(europe)"@,
        "(australia)"@,
        "(pal)"@,
        "[pal]"@,
        "(france)"@,
        "(germany)"@,
        "(italy)"@,
        "(spain)"@,
        "(sweden)"@,
        "(netherlands)"@,
        "(united kingdom)"@,
    ]
}

fn pal_tag(k: usize) -> (tag: &'static str)
    requires
        k < 11,
    ensures
        tag@ == pal_tags()[k as int],
{
    match k {
        0 => "(europe)",
        1 => "(australia)",
        2 => "(pal)",
        3 => "[pal]",
        4 => "(france)",
        5 => "(germany)",
        6 => "(italy)",
        7 => "(spain)",
        8 => "(sweden)",
        9 => "(netherlands)",
        _ => "(united kingdom)",
    }
}

/// Whether `lower` (which has no ASCII capitals) occurs in `s` once `s` is
/// lowercased in ASCII.
pub open spec fn contains_ignoring_case(s: Seq<char>, lower: Seq<char>) -> bool {
    exists|i: int| 0 <= i <= s.len() - lower.len() && starts_ignoring_case(s.skip(i), lower)
}

/// The region a ROM's file name implies: PAL when it carries one of the PAL tags
/// in any ASCII case, otherwise none.
pub open spec fn region_from_file_name_spec(name: Seq<char>) -> Option<Region> {
    if exists|k: int| 0 <= k < 11 && contains_ignoring_case(name, #[trigger] pal_tags()[k]) {
        Some(Region::Pal)
    } else {
        None
    }
}

/// Law: a file name marks a PAL dump exactly when, read in lower case, it holds
/// one of the eleven tags (europe), (australia), (pal), [pal], (france),
/// (germany), (italy), (spain), (sweden), (netherlands) or (united kingdom); no
/// other region is ever inferred.
pub proof fn lemma_pal_tags_decide_the_region(name: Seq<char>)
    ensures
        contains_ignoring_case(name, "(europe)"@) ==> region_from_file_name_spec(name) == Some(Region::Pal),
        contains_ignoring_case(name, "(australia)"@) ==> region_from_file_name_spec(name) == Some(Region::Pal),
        contains_ignoring_case(name, "(pal)"@) ==> region_from_file_name_spec(name) == Some(Region::Pal),
        contains_ignoring_case(name, "[pal]"@) ==> region_from_file_name_spec(name) == Some(Region::Pal),
        contains_ignoring_case(name, "(france)"@) ==> region_from_file_name_spec(name) == Some(Region::Pal),
        contains_ignoring_case(name, "(germany)"@) ==> region_from_file_name_spec(name) == Some(Region::Pal),
        contains_ignoring_case(name, "(italy)"@) ==> region_from_file_name_spec(name) == Some(Region::Pal),
        contains_ignoring_case(name, "(spain)"@) ==> region_from_file_name_spec(name) == Some(Region::Pal),
        contains_ignoring_case(name, "(sweden)"@) ==> region_from_file_name_spec(name) == Some(Region::Pal),
        contains_ignoring_case(name, "(netherlands)"@) ==> region_from_file_name_spec(name) == Some(Region::Pal),
        contains_ignoring_case(name, "(united kingdom)"@) ==> region_from_file_name_spec(name) == Some(Region::Pal),
        region_from_file_name_spec(name) is Some ==> region_from_file_name_spec(name) == Some(Region::Pal) && (
        contains_ignoring_case(name, "(europe)"@) || contains_ignoring_case(name, "(australia)"@)
            || contains_ignoring_case(name, "(pal)"@) || contains_ignoring_case(name, "[pal]"@)
            || contains_ignoring_case(name, "(france)"@) || contains_ignoring_case(name, "(germany)"@)
            || contains_ignoring_case(name, "(italy)"@) || contains_ignoring_case(name, "(spain)"@)
            || contains_ignoring_case(name, "(sweden)"@) || contains_ignoring_case(name, "(netherlands)"@)
            || contains_ignoring_case(name, "(united kingdom)"@)),
{
    let tags = pal_tags();
    assert(tags[0] == "(europe)"@);
    assert(tags[1] == "(australia)"@);
    assert(tags[2] == "(pal)"@);
    assert(tags[3] == "[pal]"@);
    assert(tags[4] == "(france)"@);
    assert(tags[5] == "(germany)"@);
    assert(tags[6] == "(italy)"@);
    assert(tags[7] == "(spain)"@);
    assert(tags[8] == "(sweden)"@);
    assert(tags[9] == "(netherlands)"@);
    assert(tags[10] == "(united kingdom)"@);
}

fn chars_of(s: &str) -> (chars: Vec<char>)
    ensures
        chars@ == s@,
{
    let n = s.unicode_len();
    let mut chars: Vec<char> = Vec::new();
    let mut i: usize = 0;
    while i < n
        invariant
            n == s@.len(),
            i <= n,
            chars@ == s@.take(i as int),
        decreases n - i,
    {
        chars.push(s.get_char(i));
        i += 1;
        assert(chars@ =~= s@.take(i as int));
    }
    assert(s@.take(n as int) =~= s@);
    chars
}

fn occurs_at_ignoring_case(chars: &Vec<char>, start: usize, lower: &str, m: usize) -> (b: bool)
    requires
        m == lower@.len(),
        start + m <= chars@.len(),
        chars@.len() <= usize::MAX,
    ensures
        b == starts_ignoring_case(chars@.skip(start as int), lower@),
{
    let mut j: usize = 0;
    while j < m
        invariant
            m == lower@.len(),
            start + m <= chars@.len(),
            chars@.len() <= usize::MAX,
            j <= m,
            forall|t: int| 0 <= t < j ==> ascii_lower(chars@.skip(start as int)[t]) == lower@[t],
        decreases m - j,
    {
        assert(start + j < chars@.len());
        let c = chars[start + j];
        let lc = if 'A' <= c && c <= 'Z' {
            ((c as u8) + 32) as char
        } else {
            c
        };
        assert(chars@.skip(start as int)[j as int] == c);
        if lc != lower.get_char(j) {
            return false;
        }
        j += 1;
    }
    true
}

fn contains_lower(chars: &Vec<char>, lower: &str) -> (b: bool)
    ensures
        b == contains_ignoring_case(chars@, lower@),
{
    let n = chars.len();
    let m = lower.unicode_len();
    if m > n {
        return false;
    }
    let mut i: usize = 0;
    while i <= n - m
        invariant
            n == chars@.len(),
            m == lower@.len(),
            m <= n,
            i <= n - m + 1,
            forall|k: int| 0 <= k < i ==> !starts_ignoring_case(chars@.skip(k), lower@),
        decreases n - m + 1 - i,
    {
        if occurs_at_ignoring_case(chars, i, lower, m) {
            return true;
        }
        i += 1;
    }
    false
}

/// The region implied by a ROM's file name, if any.
pub fn region_from_file_name(file_name: &str) -> (region: Option<Region>)
    ensures
        region == region_from_file_name_spec(file_name@),
{
    let chars = chars_of(file_name);
    let mut k: usize = 0;
    while k < 11
        invariant
            chars@ == file_name@,
            k <= 11,
            forall|t: int| 0 <= t < k ==> !contains_ignoring_case(file_name@, #[trigger] pal_tags()[t]),
        decreases 11 - k,
    {
        if contains_lower(&chars, pal_tag(k)) {
            return Some(Region::Pal);
        }
        k += 1;
    }
    None
}

/// Whether a path is one plain component: not empty, without a separator ('/'
/// or '\\') or a drive colon, and neither "." nor "..".
pub open spec fn single_component(path: Seq<char>) -> bool {
    &&& path.len() > 0
    &&& forall|i: int| 0 <= i < path.len() ==> path[i] != '/' && path[i] != '\\' && path[i] != ':'
    &&& path != "."@
    &&& path != ".."@
}

/// The index of the last '/' in `path`, or -1 when it has none.
pub open spec fn last_slash(path: Seq<char>) -> int
    decreases path.len(),
{
    if path.len() == 0 {
        -1
    } else if path.last() == '/' {
        path.len() - 1
    } else {
        last_slash(path.drop_last())
    }
}

/// The text of `path` after its last '/' (all of it when it has none).
pub open spec fn final_component(path: Seq<char>) -> Seq<char> {
    path.skip(last_slash(path) + 1)
}

/// Whether `path` is written with '/' separators only, in a form that every
/// platform splits alike: no '\\', no ':' (drive letters, stream names) and no
/// leading "//" (Windows network prefixes).
pub open spec fn plain_path(path: Seq<char>) -> bool {
    &&& forall|i: int| 0 <= i < path.len() ==> path[i] != '\\' && path[i] != ':'
    &&& !(path.len() >= 2 && path[0] == '/' && path[1] == '/')
}

/// The file name of a plain path as `Path::file_name` documents it: trailing
/// '/' and "/." are passed over ("foo.txt/." names "foo.txt"); a path that is
/// empty, the root, ".", or ends in ".." has none; otherwise it is the text after
/// the last '/'.
pub open spec fn file_name_of(path: Seq<char>) -> Option<Seq<char>>
    decreases path.len(),
{
    if path.len() == 0 {
        None
    } else if path.last() == '/' {
        file_name_of(path.drop_last())
    } else if final_component(path) == "."@ {
        if path.len() >= 2 {
            file_name_of(path.take(path.len() - 2))
        } else {
            None
        }
    } else if final_component(path) == ".."@ {
        None
    } else {
        Some(final_component(path))
    }
}

/// The extension of a plain path as `Path::extension` documents it: that of
/// its file name, none without one.
pub open spec fn extension_of_path(path: Seq<char>) -> Option<Seq<char>> {
    match file_name_of(path) {
        Some(name) => extension_of(name),
        None => None,
    }
}

/// The final component of a path as UTF-8, from `Path::file_name`. Claims the
/// paths that every platform splits alike: for a plain '/'-separated path the
/// result is `file_name_of` the path, as std documents it. How other paths
/// split depends on the platform and is not stated.
#[verifier::external_body]
fn rom_file_name(path: &str) -> (name: Option<String>)
    ensures
        plain_path(path@) ==> (name is Some) == (file_name_of(path@) is Some),
        plain_path(path@) && name is Some ==> file_name_of(path@) == Some(name.unwrap()@),
{
    std::path::Path::new(path).file_name().and_then(|name| name.to_str()).map(str::to_owned)
}

/// The index of the last '.' in `name`, or -1 when it has none.
pub open spec fn last_dot(name: Seq<char>) -> int
    decreases name.len(),
{
    if name.len() == 0 {
        -1
    } else if name.last() == '.' {
        name.len() - 1
    } else {
        last_dot(name.drop_last())
    }
}

/// The extension of a file name as `Path::extension` documents it: the text
/// after the final '.', or none when the name has no '.' or only a leading one.
pub open spec fn extension_of(name: Seq<char>) -> Option<Seq<char>> {
    if last_dot(name) > 0 {
        Some(name.skip(last_dot(name) + 1))
    } else {
        None
    }
}

/// The extension of a path as UTF-8, from `Path::extension`. Claims the paths
/// that every platform splits alike: for a plain '/'-separated path the result
/// is `extension_of_path` the path, as std documents it. How other paths split
/// depends on the platform and is not stated.
#[verifier::external_body]
fn rom_extension(path: &str) -> (extension: Option<String>)
    ensures
        plain_path(path@) ==> (extension is Some) == (extension_of_path(path@) is Some),
        plain_path(path@) && extension is Some ==> extension_of_path(path@) == Some(extension.unwrap()@),
{
    std::path::Path::new(path).extension().and_then(|ext| ext.to_str()).map(str::to_owned)
}

/// The region that a ROM path's file name implies: PAL for European dumps whose
/// header lacks the PAL flag, otherwise none.
pub fn inferred_region_from_rom_path(path: &str) -> (region: Option<Region>)
    ensures
        region is None || region == Some(Region::Pal),
        region is Some ==> exists|name: Seq<char>| region == region_from_file_name_spec(name),
        plain_path(path@) ==> region == match file_name_of(path@) {
            Some(name) => region_from_file_name_spec(name),
            None => None,
        },
{
    match rom_file_name(path) {
        Some(name) => region_from_file_name(name.as_str()),
        None => None,
    }
}

/// How to build the console for a ROM image.
#[derive(Debug, Clone, Copy, PartialEq, Eq)]
pub enum RomLoadPlan {
    /// A Famicom Disk System image, booted with the disk BIOS.
    Fds,
    /// An iNES cartridge, with the region forced when the file name implies one.
    Ines { region: Option<Region> },
}

/// Whether `bytes` begin with the FDS image signature "FDS\x1a".
pub open spec fn fds_signature(bytes: Seq<u8>) -> bool {
    bytes.len() >= 4 && bytes[0] == 0x46 && bytes[1] == 0x44 && bytes[2] == 0x53 && bytes[3] == 0x1a
}

/// How to load `bytes`: as a disk image when a BIOS is at hand and the file is
/// an ".fds" (any ASCII case) or carries the FDS signature; otherwise as a
/// cartridge, in the region that the file name implies.
pub open spec fn rom_load_plan_spec(
    bytes: Seq<u8>,
    extension: Option<Seq<char>>,
    file_name: Option<Seq<char>>,
    has_bios: bool,
) -> RomLoadPlan {
    let fds_extension = match extension {
        Some(e) => e.len() == "fds"@.len() && starts_ignoring_case(e, "fds"@),
        None => false,
    };
    if has_bios && (fds_extension || fds_signature(bytes)) {
        RomLoadPlan::Fds
    } else {
        RomLoadPlan::Ines {
            region: match file_name {
                Some(name) => region_from_file_name_spec(name),
                None => None,
            },
        }
    }
}

/// Decides how to load a ROM image from its bytes, its path's extension and
/// file name, and whether a disk BIOS is available.
pub fn rom_load_plan(bytes: &[u8], extension: Option<&str>, file_name: Option<&str>, has_bios: bool) -> (plan: RomLoadPlan)
    ensures
        plan == rom_load_plan_spec(
            bytes@,
            match extension {
                Some(e) => Some(e@),
                None => None,
            },
            match file_name {
                Some(n) => Some(n@),
                None => None,
            },
            has_bios,
        ),
{
    let fds_extension = match extension {
        Some(e) => e.unicode_len() == "fds".unicode_len() && {
            let chars = chars_of(e);
            let r = occurs_at_ignoring_case(&chars, 0, "fds", "fds".unicode_len());
            assert(chars@.skip(0) =~= e@);
            r
        },
        None => false,
    };
    let signature = bytes.len() >= 4 && bytes[0] == 0x46 && bytes[1] == 0x44 && bytes[2] == 0x53 && bytes[3] == 0x1a;
    if has_bios && (fds_extension || signature) {
        RomLoadPlan::Fds
    } else {
        let region = match file_name {
            Some(name) => region_from_file_name(name),
            None => None,
        };
        RomLoadPlan::Ines { region }
    }
}

/// Decides how to load the ROM image `bytes` read from `path` (if any).
pub fn rom_load_plan_for_path(bytes: &[u8], path: Option<&str>, has_bios: bool) -> (plan: RomLoadPlan)
    ensures
        exists|extension: Option<Seq<char>>, file_name: Option<Seq<char>>| plan == rom_load_plan_spec(
            bytes@,
            extension,
            file_name,
            has_bios,
        ),
        path is None ==> plan == rom_load_plan_spec(bytes@, None, None, has_bios),
        path is Some && plain_path(path.unwrap()@) ==> plan == rom_load_plan_spec(
            bytes@,
            extension_of_path(path.unwrap()@),
            file_name_of(path.unwrap()@),
            has_bios,
        ),
{
    match path {
        Some(p) => {
            let extension = rom_extension(p);
            let file_name = rom_file_name(p);
            let e = match &extension {
                Some(e) => Some(e.as_str()),
                None => None,
            };
            let n = match &file_name {
                Some(n) => Some(n.as_str()),
                None => None,
            };
            rom_load_plan(bytes, e, n, has_bios)
        },
        None => rom_load_plan(bytes, None, None, has_bios),
    }
}

/// The spacing of `f64` values around the integer `n`: 1 below 2^53, doubling
/// with each further binary digit.
pub open spec fn f64_spacing(n: nat) -> nat
    decreases n,
{
    if n < 0x20_0000_0000_0000 {
        1
    } else {
        2 * f64_spacing(n / 2)
    }
}

/// `num / den` rounded to the nearest integer, ties to even.
pub open spec fn round_half_even(num: nat, den: nat) -> nat {
    let q = num / den;
    let r = num % den;
    if 2 * r > den || (2 * r == den && q % 2 == 1) {
        q + 1
    } else {
        q
    }
}

/// The value of `n as f64`: `n` rounded to the nearest multiple of the spacing,
/// ties to an even multiple.
pub open spec fn as_f64(n: nat) -> nat {
    round_half_even(n, f64_spacing(n)) * f64_spacing(n)
}

/// `value / scale` printed with one decimal, as `{:.1}` prints the exact
/// quotient (round half to even), followed by `unit`.
pub open spec fn one_decimal_text(value: nat, scale: nat, unit: Seq<char>) -> Seq<char> {
    let tenths = round_half_even(value * 10, scale);
    decimal(tenths / 10) + "."@ + seq![digit_char(tenths % 10)] + unit
}

/// A byte count for humans: MiB or KiB with one decimal, or whole bytes, as
/// computed in `f64`.
pub open spec fn format_bytes_text(bytes: nat) -> Seq<char> {
    let value = as_f64(bytes);
    if value >= 1048576 {
        one_decimal_text(value, 1048576, " MiB"@)
    } else if value >= 1024 {
        one_decimal_text(value, 1024, " KiB"@)
    } else {
        decimal(bytes) + " B"@
    }
}

fn f64_value(n: u64) -> (value: u128)
    ensures
        value == as_f64(n as nat),
        value <= 2 * (n as nat) + 1,
{
    let mut m: u64 = n;
    let mut spacing: u64 = 1;
    while m >= 0x20_0000_0000_0000
        invariant
            f64_spacing(n as nat) == spacing * f64_spacing(m as nat),
            spacing * m <= n,
            spacing >= 1,
            spacing > 1 ==> m >= 0x10_0000_0000_0000,
        decreases m,
    {
        proof {
            assert(spacing * 2 <= spacing * m) by (nonlinear_arith)
                requires
                    m >= 2,
                    spacing >= 1,
            ;
            assert(f64_spacing(m as nat) == 2 * f64_spacing((m / 2) as nat));
            assert((spacing * 2) * (m / 2) <= spacing * m) by (nonlinear_arith)
                requires
                    spacing >= 1,
            ;
            assert(spacing * f64_spacing(m as nat) == (spacing * 2) * f64_spacing((m / 2) as nat)) by (nonlinear_arith)
                requires
                    f64_spacing(m as nat) == 2 * f64_spacing((m / 2) as nat),
            ;
        }
        m = m / 2;
        spacing = spacing * 2;
    }
    assert(f64_spacing(m as nat) == 1);
    assert(f64_spacing(n as nat) == spacing);
    assert(spacing <= n || spacing == 1) by (nonlinear_arith)
        requires
            spacing * m <= n,
            spacing > 1 ==> m >= 1,
    ;
    let s = spacing as u128;
    let q = (n as u128) / s;
    let r = (n as u128) % s;
    let rounded = if 2 * r > s || (2 * r == s && q % 2 == 1) {
        q + 1
    } else {
        q
    };
    proof {
        assert(q * s <= n) by (nonlinear_arith)
            requires
                q == (n as u128) / s,
                s >= 1,
        ;
        assert(rounded * s <= 2 * (n as nat) + 1) by (nonlinear_arith)
            requires
                rounded <= q + 1,
                q * s <= n,
                s <= n || s == 1,
        ;
    }
    rounded * s
}

fn append_one_decimal(out: &mut String, value: u128, scale: u128, unit: &str)
    requires
        1024 <= scale <= 1048576,
        value <= 0x4_0000_0000_0000_0000,
    ensures
        final(out)@ == old(out)@ + one_decimal_text(value as nat, scale as nat, unit@),
{
    let num = value * 10;
    let q = num / scale;
    let r = num % scale;
    let tenths = if 2 * r > scale || (2 * r == scale && q % 2 == 1) {
        q + 1
    } else {
        q
    };
    proof {
        assert(q <= num / 1024) by (nonlinear_arith)
            requires
                q == num / scale,
                scale >= 1024,
        ;
    }
    append_decimal(out, (tenths / 10) as u64);
    out.append(".");
    let d = (tenths % 10) as u8;
    push_char(out, (48u8 + d) as char);
    out.append(unit);
    assert(out@ =~= old(out)@ + one_decimal_text(value as nat, scale as nat, unit@));
}

/// Describes a byte count for humans, e.g. "1.5 KiB", "12.0 MiB" or "512 B".
pub fn format_bytes(bytes: usize) -> (text: String)
    ensures
        text@ == format_bytes_text(bytes as nat),
{
    let value = f64_value(bytes as u64);
    let mut out = String::new();
    if value >= 1048576 {
        append_one_decimal(&mut out, value, 1048576, " MiB");
    } else if value >= 1024 {
        append_one_decimal(&mut out, value, 1024, " KiB");
    } else {
        append_decimal(&mut out, bytes as u64);
        out.append(" B");
    }
    assert(out@ =~= format_bytes_text(bytes as nat));
    out
}

} // verus!
