//! The date-shape scanner: finds the leftmost substring of a token that
//! has the lexical shape `YYYY-MM-DD` (four digits, hyphen, two digits,
//! hyphen, two digits) and reads its numeric fields.

use vstd::prelude::*;
use vstd::string::StrSliceExecFns;

verus! {

/// True for the ten characters '0' through '9'.
pub open spec fn is_ascii_digit(c: char) -> bool {
    '0' <= c && c <= '9'
}

/// Numeric value of a decimal digit character.
pub open spec fn digit_val(c: char) -> int
    recommends
        is_ascii_digit(c),
{
    c as u32 - '0' as u32
}

/// The ten characters starting at `i` have the shape `YYYY-MM-DD`.
pub open spec fn date_shape_at(s: Seq<char>, i: int) -> bool {
    &&& 0 <= i
    &&& i + 10 <= s.len()
    &&& is_ascii_digit(s[i])
    &&& is_ascii_digit(s[i + 1])
    &&& is_ascii_digit(s[i + 2])
    &&& is_ascii_digit(s[i + 3])
    &&& s[i + 4] == '-'
    &&& is_ascii_digit(s[i + 5])
    &&& is_ascii_digit(s[i + 6])
    &&& s[i + 7] == '-'
    &&& is_ascii_digit(s[i + 8])
    &&& is_ascii_digit(s[i + 9])
}

/// Index of the leftmost date-shaped substring at or after `i`, if any.
pub open spec fn first_match_from(s: Seq<char>, i: int) -> Option<int>
    recommends
        0 <= i,
    decreases s.len() - i,
{
    if i + 10 > s.len() {
        None
    } else if date_shape_at(s, i) {
        Some(i)
    } else {
        first_match_from(s, i + 1)
    }
}

/// Index of the leftmost date-shaped substring of `s`, if any.
pub open spec fn first_match(s: Seq<char>) -> Option<int> {
    first_match_from(s, 0)
}

/// Year field of the date-shaped substring at `i`.
pub open spec fn token_year(s: Seq<char>, i: int) -> int {
    1000 * digit_val(s[i]) + 100 * digit_val(s[i + 1]) + 10 * digit_val(s[i + 2]) + digit_val(
        s[i + 3],
    )
}

/// Month field of the date-shaped substring at `i`.
pub open spec fn token_month(s: Seq<char>, i: int) -> int {
    10 * digit_val(s[i + 5]) + digit_val(s[i + 6])
}

/// Day field of the date-shaped substring at `i`.
pub open spec fn token_day(s: Seq<char>, i: int) -> int {
    10 * digit_val(s[i + 8]) + digit_val(s[i + 9])
}

/// A scan that found nothing missed nothing: after `first_match_from(s, i)`
/// answers `None`, no position at or after `i` is date-shaped.
pub proof fn lemma_first_match_from_none(s: Seq<char>, i: int)
    requires
        0 <= i,
        first_match_from(s, i) is None,
    ensures
        forall|j: int| i <= j ==> !date_shape_at(s, j),
    decreases s.len() - i,
{
    if i + 10 <= s.len() {
        lemma_first_match_from_none(s, i + 1);
    }
}

/// A found match is date-shaped and leftmost among positions at or after `i`.
pub proof fn lemma_first_match_from_some(s: Seq<char>, i: int, k: int)
    requires
        0 <= i,
        first_match_from(s, i) == Some(k),
    ensures
        i <= k,
        date_shape_at(s, k),
        forall|j: int| i <= j < k ==> !date_shape_at(s, j),
    decreases s.len() - i,
{
    if i + 10 > s.len() {
    } else if date_shape_at(s, i) {
    } else {
        lemma_first_match_from_some(s, i + 1, k);
    }
}

/// The scanner finds a match exactly when some position is date-shaped.
pub proof fn lemma_first_match_none_iff(s: Seq<char>)
    ensures
        first_match(s) is None <==> (forall|j: int| !date_shape_at(s, j)),
{
    if first_match(s) is None {
        lemma_first_match_from_none(s, 0);
        assert forall|j: int| !date_shape_at(s, j) by {
            if j < 0 {
            } else {
                assert(!date_shape_at(s, j));
            }
        }
    } else {
        match first_match(s) {
            None => {},
            Some(k) => {
                lemma_first_match_from_some(s, 0, k);
            },
        }
    }
}

/// The ten characters starting at `i` have the shape `YYYY-MM-DD`.
fn shape_at(name: &str, i: usize) -> (r: bool)
    requires
        i + 10 <= name@.len(),
        i + 10 <= usize::MAX,
    ensures
        r == date_shape_at(name@, i as int),
{
    digit_at(name, i) && digit_at(name, i + 1) && digit_at(name, i + 2) && digit_at(name, i + 3)
        && name.get_char(i + 4) == '-' && digit_at(name, i + 5) && digit_at(name, i + 6)
        && name.get_char(i + 7) == '-' && digit_at(name, i + 8) && digit_at(name, i + 9)
}

/// The character at `i` is a decimal digit.
fn digit_at(name: &str, i: usize) -> (r: bool)
    requires
        i < name@.len(),
    ensures
        r == is_ascii_digit(name@[i as int]),
{
    let c = name.get_char(i);
    '0' <= c && c <= '9'
}

/// Numeric value of the decimal digit at `i`.
pub fn digit_value_at(name: &str, i: usize) -> (r: u32)
    requires
        i < name@.len(),
        is_ascii_digit(name@[i as int]),
    ensures
        r == digit_val(name@[i as int]),
        r <= 9,
{
    let c = name.get_char(i);
    c as u32 - '0' as u32
}

/// Index of the leftmost date-shaped substring of `name`, if any.
pub fn find_first_match(name: &str) -> (r: Option<usize>)
    ensures
        match r {
            Some(i) => first_match(name@) == Some(i as int) && i + 10 <= usize::MAX,
            None => first_match(name@) is None,
        },
{
    let len = name.unicode_len();
    if len < 10 {
        return None;
    }
    let mut i: usize = 0;
    while i <= len - 10
        invariant
            len >= 10,
            len == name@.len(),
            0 <= i <= len - 9,
            first_match(name@) == first_match_from(name@, i as int),
        decreases len - i,
    {
        if shape_at(name, i) {
            return Some(i);
        }
        i = i + 1;
    }
    None
}

} // verus!
