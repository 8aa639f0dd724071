use vstd::prelude::*;

use crate::cheats::{trim_text, trimmed, MemorySpace};
use crate::text::push_char;

verus! {

/// `s` without its leading "0x" prefixes, as `str::trim_start_matches("0x")` leaves it.
pub open spec fn without_hex_prefixes(s: Seq<char>) -> Seq<char>
    decreases s.len(),
{
    if s.len() >= 2 && s[0] == '0' && s[1] == 'x' {
        without_hex_prefixes(s.skip(2))
    } else {
        s
    }
}

/// The value of a hexadecimal digit in either case, or -1 for any other character.
pub open spec fn hex_digit_value(c: char) -> int {
    if '0' <= c <= '9' {
        c as int - '0' as int
    } else if 'a' <= c <= 'f' {
        c as int - 'a' as int + 10
    } else if 'A' <= c <= 'F' {
        c as int - 'A' as int + 10
    } else {
        -1
    }
}

/// Whether every character of `s` is a hexadecimal digit.
pub open spec fn all_hex_digits(s: Seq<char>) -> bool {
    forall|i: int| 0 <= i < s.len() ==> hex_digit_value(#[trigger] s[i]) >= 0
}

/// The number that the hexadecimal digits `s` spell.
pub open spec fn hex_digits_value(s: Seq<char>) -> int
    decreases s.len(),
{
    if s.len() == 0 {
        0
    } else {
        hex_digits_value(s.drop_last()) * 16 + hex_digit_value(s.last())
    }
}

/// What `from_str_radix(s, 16)` gives for an unsigned type whose largest value
/// is `max`: an optional '+', then at least one hexadecimal digit, and a value
/// that fits.
pub open spec fn parse_hex(s: Seq<char>, max: int) -> Option<int> {
    let digits = if s.len() > 0 && s[0] == '+' { s.drop_first() } else { s };
    if digits.len() > 0 && all_hex_digits(digits) && hex_digits_value(digits) <= max {
        Some(hex_digits_value(digits))
    } else {
        None
    }
}

/// `n` rounded down to a multiple of 16, the start of its row.
pub open spec fn row_start(n: int) -> int {
    n - n % 16
}

/// Where a jump to `address` starts the view of an image of `len` bytes at
/// `base`: the row that holds the address, kept inside the image.
pub open spec fn hex_jump_start(address: int, base: int, len: int) -> int {
    let offset = if address > base { address - base } else { 0 };
    let last = if len > 0 { len - 1 } else { 0 };
    row_start(if offset < last { offset } else { last })
}

/// Law: a prefix of hexadecimal digits never spells more than the whole.
pub proof fn lemma_hex_value_grows(s: Seq<char>, i: int, j: int)
    requires
        0 <= i <= j <= s.len(),
        all_hex_digits(s),
    ensures
        0 <= hex_digits_value(s.take(i)) <= hex_digits_value(s.take(j)),
    decreases j,
{
    if j > 0 {
        assert(s.take(j).drop_last() =~= s.take(j - 1));
        assert(hex_digit_value(s[j - 1]) >= 0);
        if i < j {
            lemma_hex_value_grows(s, i, j - 1);
        } else {
            lemma_hex_value_grows(s, i - 1, j - 1);
        }
    }
}

fn hex_digit(c: char) -> (d: Option<u8>)
    ensures
        match d {
            Some(v) => hex_digit_value(c) == v as int && v < 16,
            None => hex_digit_value(c) < 0,
        },
{
    if '0' <= c && c <= '9' {
        Some(((c as u32) - ('0' as u32)) as u8)
    } else if 'a' <= c && c <= 'f' {
        Some(((c as u32) - ('a' as u32) + 10) as u8)
    } else if 'A' <= c && c <= 'F' {
        Some(((c as u32) - ('A' as u32) + 10) as u8)
    } else {
        None
    }
}

/// Parses `s` as `from_str_radix(s, 16)` does for an unsigned type whose largest
/// value is `max`.
fn parse_hex_text(s: &str, max: usize) -> (value: Option<usize>)
    ensures
        value is Some <==> parse_hex(s@, max as int) is Some,
        value is Some ==> parse_hex(s@, max as int) == Some(value.unwrap() as int),
{
    let n = s.unicode_len();
    let start: usize = if n > 0 && s.get_char(0) == '+' { 1 } else { 0 };
    let ghost digits = s@.skip(start as int);
    proof {
        if start == 1 {
            assert(digits =~= s@.drop_first());
        } else {
            assert(digits =~= s@);
        }
    }
    if start == n {
        return None;
    }
    let mut value: usize = 0;
    let mut k: usize = start;
    while k < n
        invariant
            n == s@.len(),
            start <= k <= n,
            digits == s@.skip(start as int),
            digits == (if s@.len() > 0 && s@[0] == '+' { s@.drop_first() } else { s@ }),
            digits.len() > 0,
            all_hex_digits(digits.take(k - start)),
            value as int == hex_digits_value(digits.take(k - start)),
            value <= max,
        decreases n - k,
    {
        let ghost done = digits.take(k - start);
        let ghost next = digits.take(k - start + 1);
        proof {
            assert(next.drop_last() =~= done);
            assert(next.last() == s@[k as int]);
        }
        match hex_digit(s.get_char(k)) {
            None => {
                proof {
                    assert(digits[k - start] == s@[k as int]);
                    assert(hex_digit_value(digits[k - start]) < 0);
                    assert(!all_hex_digits(digits));
                }
                return None;
            },
            Some(d) => {
                proof {
                    assert forall|i: int| 0 <= i < next.len() implies hex_digit_value(#[trigger] next[i]) >= 0 by {
                        if i < done.len() {
                            assert(next[i] == done[i]);
                        }
                    }
                }
                if d as usize > max || value > (max - d as usize) / 16 {
                    proof {
                        assert(hex_digits_value(next) > max) by (nonlinear_arith)
                            requires
                                hex_digits_value(next) == value * 16 + d,
                                d > max || value > (max - d) / 16,
                                value >= 0,
                                d < 16,
                        ;
                        if all_hex_digits(digits) {
                            lemma_hex_value_grows(digits, k - start + 1, digits.len() as int);
                            assert(digits.take(digits.len() as int) =~= digits);
                            assert(next =~= digits.take(k - start + 1));
                            assert(hex_digits_value(digits) > max);
                        }
                        assert(parse_hex(s@, max as int) is None);
                    }
                    return None;
                }
                proof {
                    assert(value * 16 + d <= max) by (nonlinear_arith)
                        requires
                            value <= (max - d) / 16,
                            d < 16,
                            d <= max,
                    ;
                }
                value = value * 16 + d as usize;
            },
        }
        k += 1;
    }
    proof {
        assert(digits.take(k - start) =~= digits);
    }
    Some(value)
}

/// The start offset of the view after jumping to the hexadecimal address typed
/// in `text` (white space around it and leading "0x" prefixes ignored), for an
/// image of `len` bytes at `base_address`; none when the text is no address.
pub fn hex_jump_target(text: &str, base_address: usize, len: usize) -> (start: Option<usize>)
    ensures
        match parse_hex(without_hex_prefixes(trimmed(text@)), usize::MAX as int) {
            Some(address) => start == Some(hex_jump_start(address, base_address as int, len as int) as usize),
            None => start is None,
        },
{
    let t = trim_text(text);
    let n = t.unicode_len();
    let mut k: usize = 0;
    proof {
        assert(t@.skip(0) =~= t@);
    }
    while n - k > 1 && t.get_char(k) == '0' && t.get_char(k + 1) == 'x'
        invariant
            n == t@.len(),
            k <= n,
            without_hex_prefixes(t@) == without_hex_prefixes(t@.skip(k as int)),
        decreases n - k,
    {
        proof {
            assert(t@.skip(k as int).skip(2) =~= t@.skip(k + 2));
        }
        k += 2;
    }
    let rest = t.substring_char(k, n);
    proof {
        assert(rest@ =~= t@.skip(k as int));
        if rest@.len() >= 2 {
            assert(rest@[0] == t@[k as int] && rest@[1] == t@[k + 1]);
        }
        assert(without_hex_prefixes(rest@) == rest@);
    }
    match parse_hex_text(rest, usize::MAX) {
        Some(address) => {
            let offset = if address > base_address { address - base_address } else { 0 };
            let last = if len > 0 { len - 1 } else { 0 };
            let kept = if offset < last { offset } else { last };
            let aligned = kept & !15usize;
            proof {
                assert(kept & !15usize == kept - kept % 16) by (bit_vector);
            }
            Some(aligned)
        },
        None => None,
    }
}

/// The byte typed in `text` (white space around it ignored) as hexadecimal, as
/// the editor writes it; none when it is no byte.
pub fn hex_byte_value(text: &str) -> (value: Option<u8>)
    ensures
        match parse_hex(trimmed(text@), 255) {
            Some(v) => value == Some(v as u8),
            None => value is None,
        },
{
    let t = trim_text(text);
    match parse_hex_text(t, 255) {
        Some(v) => Some(v as u8),
        None => None,
    }
}

/// The start of the previous page of `rows` rows of 16 bytes.
pub fn hex_page_back(start: usize, rows: usize) -> (previous: usize)
    requires
        rows * 16 <= usize::MAX,
    ensures
        previous == if start >= rows * 16 { start - rows * 16 } else { 0 },
{
    let step = rows * 16;
    if start >= step {
        start - step
    } else {
        0
    }
}

/// The start of the next page of `rows` rows of 16 bytes, kept on the last row
/// of an image of `len` bytes.
pub fn hex_page_forward(start: usize, rows: usize, len: usize) -> (next: usize)
    requires
        start + rows * 16 <= usize::MAX,
    ensures
        next == row_start(
            if start + rows * 16 < (if len > 0 { len - 1 } else { 0 }) {
                start + rows * 16
            } else {
                if len > 0 { len - 1 } else { 0 }
            },
        ),
{
    let ahead = start + rows * 16;
    let last = if len > 0 { len - 1 } else { 0 };
    let kept = if ahead < last { ahead } else { last };
    proof {
        assert(kept & !15usize == kept - kept % 16) by (bit_vector);
    }
    kept & !15usize
}

/// The cell of the image in `space` where a cheat on CPU `address` shows: the
/// address itself on the CPU bus, its 2 KiB mirror in CPU RAM for addresses
/// below 0x2000, and nowhere in the other spaces.
pub fn cheat_cell_index(space: MemorySpace, address: u16) -> (index: Option<usize>)
    ensures
        index == match space {
            MemorySpace::CpuBus => Some(address as usize),
            MemorySpace::CpuRam => if address < 0x2000 { Some((address % 0x800) as usize) } else { None },
            _ => None,
        },
{
    match space {
        MemorySpace::CpuBus => Some(address as usize),
        MemorySpace::CpuRam => {
            if address < 0x2000 {
                proof {
                    assert(address & 0x7ff == address % 0x800) by (bit_vector);
                }
                Some((address & 0x7ff) as usize)
            } else {
                None
            }
        },
        _ => None,
    }
}

/// How a byte reads in the text column: itself when it is a visible ASCII
/// character, else '.'.
pub open spec fn ascii_cell(b: u8) -> char {
    if 0x21 <= b <= 0x7e {
        b as char
    } else {
        '.'
    }
}

/// The text column of the row of up to 16 bytes of `bytes` from `offset`.
pub fn hex_ascii_column(bytes: &[u8], offset: usize) -> (text: String)
    requires
        offset <= bytes@.len(),
    ensures
        text@ == Seq::new(
            if bytes@.len() - offset < 16 { (bytes@.len() - offset) as nat } else { 16 },
            |i: int| ascii_cell(bytes@[offset + i]),
        ),
{
    let end = if bytes.len() - offset < 16 { bytes.len() } else { offset + 16 };
    let mut text = String::new();
    let mut k: usize = offset;
    while k < end
        invariant
            offset <= k <= end <= bytes@.len(),
            end - offset <= 16,
            end == if bytes@.len() - offset < 16 { bytes@.len() as int } else { offset + 16 },
            text@ == Seq::new((k - offset) as nat, |i: int| ascii_cell(bytes@[offset + i])),
        decreases end - k,
    {
        let b = bytes[k];
        let c = if 0x21 <= b && b <= 0x7e { b as char } else { '.' };
        push_char(&mut text, c);
        proof {
            assert(text@ =~= Seq::new((k + 1 - offset) as nat, |i: int| ascii_cell(bytes@[offset + i])));
        }
        k += 1;
    }
    text
}

} // verus!
