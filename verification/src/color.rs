//! Hex colour notation: `#rrggbb` read into its three channels.

use vstd::prelude::*;
use crate::strings::{char_at, char_code, chars_of};

verus! {

/// A hexadecimal digit, in either case.
pub open spec fn is_hex_digit(c: char) -> bool {
    ('0' <= c && c <= '9') || ('a' <= c && c <= 'f') || ('A' <= c && c <= 'F')
}

/// Value of a hexadecimal digit.
pub open spec fn hex_digit_val(c: char) -> int {
    if '0' <= c && c <= '9' {
        c as int - '0' as int
    } else if 'a' <= c && c <= 'f' {
        10 + c as int - 'a' as int
    } else {
        10 + c as int - 'A' as int
    }
}

/// `s` without its leading number signs.
pub open spec fn strip_hashes(s: Seq<char>) -> Seq<char>
    decreases s.len(),
{
    if s.len() > 0 && s[0] == '#' {
        strip_hashes(s.drop_first())
    } else {
        s
    }
}

/// The colour a hex string denotes: an optional `#` prefix, then six
/// hex digits, two per channel; further characters are ignored.
pub open spec fn spec_parse_hex_color(s: Seq<char>) -> Option<(u8, u8, u8)> {
    let t = strip_hashes(s);
    if t.len() >= 6 && is_hex_digit(t[0]) && is_hex_digit(t[1]) && is_hex_digit(t[2])
        && is_hex_digit(t[3]) && is_hex_digit(t[4]) && is_hex_digit(t[5]) {
        Some(
            (
                (16 * hex_digit_val(t[0]) + hex_digit_val(t[1])) as u8,
                (16 * hex_digit_val(t[2]) + hex_digit_val(t[3])) as u8,
                (16 * hex_digit_val(t[4]) + hex_digit_val(t[5])) as u8,
            ),
        )
    } else {
        None
    }
}

/// Dropping `j` leading number signs reaches the stripped string.
proof fn lemma_strip_hashes_skip(s: Seq<char>, j: int)
    requires
        0 <= j <= s.len(),
        forall|i: int| 0 <= i < j ==> #[trigger] s[i] == '#',
        j == s.len() || s[j] != '#',
    ensures
        strip_hashes(s) == s.skip(j),
    decreases j,
{
    if j == 0 {
        assert(s.skip(0) =~= s);
    } else {
        assert(s[0] == '#');
        let rest = s.drop_first();
        assert(forall|i: int| 0 <= i < j - 1 ==> rest[i] == s[i + 1]);
        lemma_strip_hashes_skip(rest, j - 1);
        assert(rest.skip(j - 1) =~= s.skip(j));
    }
}

/// One hexadecimal digit's value.
fn hex_digit(c: char) -> (r: Option<u8>)
    ensures
        r matches Some(v) ==> is_hex_digit(c) && v == hex_digit_val(c) && v < 16,
        r is None <==> !is_hex_digit(c),
{
    let cv = char_code(c);
    if cv >= 48 && cv <= 57 {
        Some((cv - 48) as u8)
    } else if cv >= 97 && cv <= 102 {
        Some((cv - 87) as u8)
    } else if cv >= 65 && cv <= 70 {
        Some((cv - 55) as u8)
    } else {
        None
    }
}

/// Parses a hex colour such as `#5848CE`.
pub fn parse_hex_color(s: &str) -> (r: Option<(u8, u8, u8)>)
    ensures
        r == spec_parse_hex_color(s@),
{
    let chars = chars_of(s);
    let n = chars.len();
    let mut start: usize = 0;
    while start < n && char_at(&chars, start) == '#'
        invariant
            chars@ == s@,
            chars@.len() == n,
            start <= n,
            forall|i: int| 0 <= i < start ==> #[trigger] chars@[i] == '#',
        decreases n - start,
    {
        start = start + 1;
    }
    proof {
        lemma_strip_hashes_skip(s@, start as int);
    }
    let ghost t = strip_hashes(s@);
    if n - start < 6 {
        return None;
    }
    proof {
        assert(forall|i: int| 0 <= i < t.len() ==> t[i] == s@[i + start]);
    }
    let mut vals: Vec<u8> = Vec::new();
    let mut k: usize = 0;
    while k < 6
        invariant
            chars@ == s@,
            chars@.len() == n,
            start + 6 <= n,
            t == strip_hashes(s@),
            t.len() == n - start,
            forall|i: int| 0 <= i < t.len() ==> t[i] == s@[i + start],
            k <= 6,
            vals@.len() == k,
            forall|i: int|
                0 <= i < k ==> is_hex_digit(t[i]) && vals@[i] == hex_digit_val(#[trigger] t[i])
                    && vals@[i] < 16,
        decreases 6 - k,
    {
        let c = char_at(&chars, start + k);
        match hex_digit(c) {
            Some(v) => {
                vals.push(v);
            },
            None => {
                return None;
            },
        }
        k = k + 1;
    }
    Some(
        (
            16 * vals[0] + vals[1],
            16 * vals[2] + vals[3],
            16 * vals[4] + vals[5],
        ),
    )
}

} // verus!
