//! Parsing of `#RRGGBB` / `#RRGGBBAA` tint strings into color components.
//!
//! The host toolkit builds its own color object from the four components; the
//! parsing itself is plain logic and lives here. An unparseable string yields
//! `None`, which the operations treat as "clear the tint".

use vstd::prelude::*;
use vstd::string::StrSliceExecFns;

verus! {

/// A color as four 8-bit components; alpha 255 is fully opaque.
#[derive(Clone, Copy, Debug, PartialEq, Eq, Structural)]
pub struct RgbaColor {
    pub r: u8,
    pub g: u8,
    pub b: u8,
    pub a: u8,
}

/// The characters removed by a whitespace trim.
pub open spec fn is_space(c: char) -> bool {
    let u = c as u32;
    (9 <= u && u <= 13) || u == 32 || u == 0x85 || u == 0xA0 || u == 0x1680 || (0x2000 <= u
        && u <= 0x200A) || u == 0x2028 || u == 0x2029 || u == 0x202F || u == 0x205F || u == 0x3000
}

pub open spec fn trim_front(s: Seq<char>) -> Seq<char>
    decreases s.len(),
{
    if s.len() > 0 && is_space(s[0]) {
        trim_front(s.skip(1))
    } else {
        s
    }
}

pub open spec fn trim_back(s: Seq<char>) -> Seq<char>
    decreases s.len(),
{
    if s.len() > 0 && is_space(s.last()) {
        trim_back(s.drop_last())
    } else {
        s
    }
}

/// Every leading `#` is removed, as a hash-prefix trim does.
pub open spec fn strip_hash_marks(s: Seq<char>) -> Seq<char>
    decreases s.len(),
{
    if s.len() > 0 && s[0] == '#' {
        strip_hash_marks(s.skip(1))
    } else {
        s
    }
}

pub open spec fn is_hex_digit(c: char) -> bool {
    let u = c as u32;
    (48 <= u && u <= 57) || (97 <= u && u <= 102) || (65 <= u && u <= 70)
}

/// The value of one hex digit (meaningful only when `is_hex_digit` holds).
pub open spec fn hex_digit_value(c: char) -> int {
    let u = c as u32;
    if 48 <= u && u <= 57 {
        u - 48
    } else if 97 <= u && u <= 102 {
        u - 87
    } else {
        u - 55
    }
}

pub open spec fn all_hex(s: Seq<char>) -> bool {
    forall|i: int| 0 <= i < s.len() ==> is_hex_digit(#[trigger] s[i])
}

/// The big-endian value of a sequence of hex digits.
pub open spec fn hex_value(s: Seq<char>) -> int
    decreases s.len(),
{
    if s.len() == 0 {
        0
    } else {
        16 * hex_value(s.drop_last()) + hex_digit_value(s.last())
    }
}

/// A numeric parse accepts one optional leading `+` before the digits.
pub open spec fn hex_digits(body: Seq<char>) -> Seq<char> {
    if body.len() > 0 && body[0] == '+' {
        body.skip(1)
    } else {
        body
    }
}

/// What `color_from_hex` returns: the input is trimmed of whitespace and of
/// leading `#` marks; the rest must be exactly 6 or 8 characters, parsed as a
/// base-16 number; 6 digits are `RRGGBB` with full alpha, 8 are `RRGGBBAA`.
pub open spec fn spec_color_from_hex(s: Seq<char>) -> Option<RgbaColor> {
    let body = strip_hash_marks(trim_back(trim_front(s)));
    if body.len() != 6 && body.len() != 8 {
        None
    } else if !all_hex(hex_digits(body)) {
        None
    } else {
        let v = hex_value(hex_digits(body));
        if body.len() == 6 {
            Some(
                RgbaColor {
                    r: (v / 0x10000 % 0x100) as u8,
                    g: (v / 0x100 % 0x100) as u8,
                    b: (v % 0x100) as u8,
                    a: 255,
                },
            )
        } else {
            Some(
                RgbaColor {
                    r: (v / 0x1000000 % 0x100) as u8,
                    g: (v / 0x10000 % 0x100) as u8,
                    b: (v / 0x100 % 0x100) as u8,
                    a: (v % 0x100) as u8,
                },
            )
        }
    }
}

pub open spec fn pow16(k: nat) -> int
    decreases k,
{
    if k == 0 {
        1
    } else {
        16 * pow16((k - 1) as nat)
    }
}

proof fn lemma_pow16_pos(a: nat)
    ensures
        pow16(a) >= 1,
    decreases a,
{
    if a > 0 {
        lemma_pow16_pos((a - 1) as nat);
    }
}

proof fn lemma_pow16_mono(a: nat, b: nat)
    requires
        a <= b,
    ensures
        1 <= pow16(a) <= pow16(b),
    decreases b,
{
    lemma_pow16_pos(a);
    if a < b {
        lemma_pow16_mono(a, (b - 1) as nat);
    }
}

proof fn lemma_hex_value_bound(s: Seq<char>)
    requires
        all_hex(s),
    ensures
        0 <= hex_value(s) < pow16(s.len()),
    decreases s.len(),
{
    if s.len() > 0 {
        assert(all_hex(s.drop_last())) by {
            assert(forall|i: int|
                0 <= i < s.drop_last().len() ==> #[trigger] s.drop_last()[i] == s[i]);
        }
        lemma_hex_value_bound(s.drop_last());
        assert(is_hex_digit(s.last()));
        assert(0 <= hex_digit_value(s.last()) <= 15);
    }
}

proof fn lemma_trim_front_skip(s: Seq<char>, k: int)
    requires
        0 <= k <= s.len(),
        forall|j: int| 0 <= j < k ==> is_space(#[trigger] s[j]),
        k == s.len() || !is_space(s[k]),
    ensures
        trim_front(s) == s.skip(k),
    decreases k,
{
    if k == 0 {
        assert(s.skip(0) =~= s);
    } else {
        assert(is_space(s[0]));
        let t = s.skip(1);
        assert(forall|j: int| 0 <= j < k - 1 ==> #[trigger] t[j] == s[j + 1]);
        assert(k - 1 == t.len() || !is_space(t[k - 1]));
        lemma_trim_front_skip(t, k - 1);
        assert(t.skip(k - 1) =~= s.skip(k));
    }
}

proof fn lemma_trim_back_take(s: Seq<char>, j: int)
    requires
        0 <= j <= s.len(),
        forall|i: int| j <= i < s.len() ==> is_space(#[trigger] s[i]),
        j == 0 || !is_space(s[j - 1]),
    ensures
        trim_back(s) == s.take(j),
    decreases s.len() - j,
{
    if j == s.len() {
        assert(s.take(j) =~= s);
        if s.len() > 0 {
            assert(!is_space(s.last()));
        }
    } else {
        assert(is_space(s.last()));
        let t = s.drop_last();
        assert(t =~= s.take(s.len() - 1));
        assert(forall|i: int| j <= i < t.len() ==> #[trigger] t[i] == s[i]);
        lemma_trim_back_take(t, j);
        assert(t.take(j) =~= s.take(j));
    }
}

proof fn lemma_strip_hash_skip(s: Seq<char>, k: int)
    requires
        0 <= k <= s.len(),
        forall|j: int| 0 <= j < k ==> #[trigger] s[j] == '#',
        k == s.len() || s[k] != '#',
    ensures
        strip_hash_marks(s) == s.skip(k),
    decreases k,
{
    if k == 0 {
        assert(s.skip(0) =~= s);
    } else {
        assert(s[0] == '#');
        let t = s.skip(1);
        assert(forall|j: int| 0 <= j < k - 1 ==> #[trigger] t[j] == s[j + 1]);
        assert(k - 1 == t.len() || t[k - 1] != '#');
        lemma_strip_hash_skip(t, k - 1);
        assert(t.skip(k - 1) =~= s.skip(k));
    }
}

fn is_space_char(c: char) -> (b: bool)
    ensures
        b == is_space(c),
{
    let u = c as u32;
    (9 <= u && u <= 13) || u == 32 || u == 0x85 || u == 0xA0 || u == 0x1680 || (0x2000 <= u
        && u <= 0x200A) || u == 0x2028 || u == 0x2029 || u == 0x202F || u == 0x205F || u == 0x3000
}

fn hex_digit_of(c: char) -> (d: Option<u32>)
    ensures
        match d {
            Some(v) => is_hex_digit(c) && v == hex_digit_value(c),
            None => !is_hex_digit(c),
        },
{
    let u = c as u32;
    if 48 <= u && u <= 57 {
        Some(u - 48)
    } else if 97 <= u && u <= 102 {
        Some(u - 87)
    } else if 65 <= u && u <= 70 {
        Some(u - 55)
    } else {
        None
    }
}

/// Parse a hex color string; `None` means "no color".
///
/// The string is trimmed of surrounding whitespace and of leading `#` marks;
/// what is left must be 6 characters (`RRGGBB`, fully opaque) or 8
/// (`RRGGBBAA`). Anything else yields `None`.
pub fn color_from_hex(hex: &str) -> (r: Option<RgbaColor>)
    ensures
        r == spec_color_from_hex(hex@),
{
    let ghost s = hex@;
    let n = hex.unicode_len();

    let mut start: usize = 0;
    while start < n && is_space_char(hex.get_char(start))
        invariant
            0 <= start <= n,
            n == s.len(),
            s == hex@,
            forall|j: int| 0 <= j < start ==> is_space(#[trigger] s[j]),
        decreases n - start,
    {
        start = start + 1;
    }
    let mut end: usize = n;
    while end > start && is_space_char(hex.get_char(end - 1))
        invariant
            start <= end <= n,
            n == s.len(),
            s == hex@,
            forall|i: int| end <= i < n ==> is_space(#[trigger] s[i]),
        decreases end,
    {
        end = end - 1;
    }
    proof {
        lemma_trim_front_skip(s, start as int);
        let t1 = s.skip(start as int);
        assert(forall|i: int|
            end - start <= i < t1.len() ==> #[trigger] t1[i] == s[i + start]);
        if end > start {
            assert(t1[end - start - 1] == s[end - 1]);
        }
        lemma_trim_back_take(t1, end - start);
        assert(trim_back(trim_front(s)) =~= s.subrange(start as int, end as int));
    }
    let ghost trimmed = s.subrange(start as int, end as int);

    let mut body_start: usize = start;
    while body_start < end && hex.get_char(body_start) == '#'
        invariant
            start <= body_start <= end,
            end <= n,
            n == s.len(),
            s == hex@,
            forall|j: int| start <= j < body_start ==> #[trigger] s[j] == '#',
        decreases end - body_start,
    {
        body_start = body_start + 1;
    }
    proof {
        assert(forall|j: int|
            0 <= j < body_start - start ==> #[trigger] trimmed[j] == s[j + start]);
        if body_start < end {
            assert(trimmed[body_start - start] == s[body_start as int]);
        }
        lemma_strip_hash_skip(trimmed, body_start - start);
        assert(trimmed.skip(body_start - start) =~= s.subrange(body_start as int, end as int));
    }
    let ghost body = s.subrange(body_start as int, end as int);
    assert(body == strip_hash_marks(trim_back(trim_front(s))));

    let len = end - body_start;
    if len != 6 && len != 8 {
        return None;
    }

    let digit_start: usize = if hex.get_char(body_start) == '+' {
        body_start + 1
    } else {
        body_start
    };
    let ghost digits = s.subrange(digit_start as int, end as int);
    proof {
        if s[body_start as int] == '+' {
            assert(body.skip(1) =~= digits);
        } else {
            assert(body =~= digits);
        }
        assert(digits == hex_digits(body));
    }

    let mut v: u32 = 0;
    let mut i = digit_start;
    while i < end
        invariant
            digit_start <= i <= end,
            end <= n,
            n == s.len(),
            s == hex@,
            end - digit_start <= 8,
            body == strip_hash_marks(trim_back(trim_front(s))),
            body.len() == 6 || body.len() == 8,
            body.len() == len,
            digits == hex_digits(body),
            digits == s.subrange(digit_start as int, end as int),
            all_hex(s.subrange(digit_start as int, i as int)),
            v == hex_value(s.subrange(digit_start as int, i as int)),
            v < pow16((i - digit_start) as nat),
        decreases end - i,
    {
        let c = hex.get_char(i);
        let ghost sofar = s.subrange(digit_start as int, i as int);
        let ghost next = s.subrange(digit_start as int, i + 1);
        match hex_digit_of(c) {
            Some(d) => {
                proof {
                    assert(next.drop_last() =~= sofar);
                    assert(next.last() == s[i as int]);
                    lemma_pow16_mono(((i - digit_start) + 1) as nat, 8);
                    reveal_with_fuel(pow16, 9);
                    assert(pow16(8) == 0x100000000);
                }
                v = v * 16 + d;
            },
            None => {
                proof {
                    assert(digits[i - digit_start] == s[i as int]);
                    assert(!is_hex_digit(digits[i - digit_start]));
                    assert(!all_hex(digits));
                }
                return None;
            },
        }
        i = i + 1;
    }
    assert(digits =~= s.subrange(digit_start as int, i as int));
    proof {
        lemma_hex_value_bound(digits);
    }

    if len == 6 {
        Some(
            RgbaColor {
                r: (v / 0x10000 % 0x100) as u8,
                g: (v / 0x100 % 0x100) as u8,
                b: (v % 0x100) as u8,
                a: 255,
            },
        )
    } else {
        Some(
            RgbaColor {
                r: (v / 0x1000000 % 0x100) as u8,
                g: (v / 0x10000 % 0x100) as u8,
                b: (v / 0x100 % 0x100) as u8,
                a: (v % 0x100) as u8,
            },
        )
    }
}

} // verus!
