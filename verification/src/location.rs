//! Tiles of the play grid: which texts name a tile (a letter `a`..`w` for
//! the row and a number `1`..`32` for the column), and where on the screen
//! a tile is clicked.

use vstd::prelude::*;
use vstd::utf8::{is_ascii_chars, is_ascii_chars_encode_utf8};
use crate::text::{
    all_digits, ascii_lower, ascii_lowercase_text, byte_len, digit_value, chars_of, digits_value, is_ascii_char, is_ascii_digit, is_numeric,
    lowercase_of, numeric_char, parse_unsigned, parse_unsigned_range, to_lowercase,
    unsigned_digits,
};

verus! {

/// Row letters of the grid: `a` to `w`.
pub open spec fn is_grid_letter(c: char) -> bool {
    'a' <= c && c <= 'w'
}

/// What checking `x` as a tile name gives: `Some(accepted)`, or `None` for
/// the texts that the check cannot handle (where the text's second or third
/// character is missing although its byte length promised one, or where the
/// two column characters do not form a number).
///
/// A text is a tile when its byte length exceeds one, its lowercase form
/// starts with a row letter and its second character is numeric; with more
/// than two bytes, the second and third characters must both be numeric and
/// read as a number from 1 to 32 (further characters are not looked at);
/// with exactly two bytes, the second character must not be `0`.
pub open spec fn location_check(x: Seq<char>) -> Option<bool> {
    let low = lowercase_of(x);
    if byte_len(x) <= 1 {
        Some(false)
    } else if low.len() == 0 {
        None
    } else if !is_grid_letter(low[0]) {
        Some(false)
    } else if x.len() < 2 {
        None
    } else if !numeric_char(x[1]) {
        Some(false)
    } else if byte_len(x) > 2 {
        if x.len() < 3 {
            None
        } else if !numeric_char(x[2]) {
            Some(false)
        } else if !(is_ascii_char(x[0]) && is_ascii_char(x[1]) && is_ascii_char(x[2])) {
            None
        } else {
            match parse_unsigned(x.subrange(1, 3), 255) {
                Some(n) => Some(1 <= n && n <= 32),
                None => None,
            }
        }
    } else {
        Some(x[1] != '0')
    }
}

/// Screen point of the tile in row `row` and column `column` (both counted
/// from one): the grid is 40 columns of 48 pixels and 24 rows of 45 pixels
/// on a 1920x1080 screen, clicked 25 pixels into the column, and scaled
/// down by the display's 125% scaling (rounded down).
pub open spec fn tile_point(row: int, column: int) -> (int, int) {
    ((48 * column + 25) * 4 / 5, 36 * row)
}

/// Where the tile named by `t` is clicked, or `None` for the texts whose
/// row letter is not `a`..`w` or whose column characters do not form a
/// number. The column is read from the second and third characters when
/// the text has more than two bytes, else from the second alone.
pub open spec fn location_point(t: Seq<char>) -> Option<(int, int)> {
    if t.len() == 0 || !is_grid_letter(t[0]) {
        None
    } else {
        let row = (t[0] as int) - ('a' as int) + 1;
        let column = if byte_len(t) > 2 {
            if t.len() >= 3 && is_ascii_char(t[1]) && is_ascii_char(t[2]) {
                parse_unsigned(t.subrange(1, 3), u32::MAX as nat)
            } else {
                None
            }
        } else if byte_len(t) == 2 && t.len() >= 2 && is_ascii_char(t[1]) {
            parse_unsigned(t.subrange(1, 2), u32::MAX as nat)
        } else {
            None
        };
        match column {
            Some(c) => Some(tile_point(row, c as int)),
            None => None,
        }
    }
}

/// Byte length of a text, as `str::len` gives it.
fn text_byte_len(s: &str) -> (n: usize)
    ensures
        n == byte_len(s@),
{
    s.as_bytes().len()
}

/// A tile name in ASCII: a row letter `a`..`w` in either case, then a digit;
/// with more characters, a second digit, the two digits reading 1 to 32
/// (further characters are not looked at); with just two characters, the
/// digit is not `0`.
pub open spec fn ascii_tile(x: Seq<char>) -> bool {
    &&& x.len() >= 2
    &&& is_grid_letter(ascii_lower(x[0]))
    &&& is_ascii_digit(x[1])
    &&& if x.len() > 2 {
        &&& is_ascii_digit(x[2])
        &&& 1 <= digit_value(x[1]) * 10 + digit_value(x[2]) <= 32
    } else {
        x[1] != '0'
    }
}

proof fn lemma_parse_two_digits(x: Seq<char>, max: nat)
    requires
        x.len() >= 3,
        is_ascii_digit(x[1]),
        is_ascii_digit(x[2]),
        max >= 99,
    ensures
        parse_unsigned(x.subrange(1, 3), max) == Some(
            (digit_value(x[1]) * 10 + digit_value(x[2])) as nat,
        ),
{
    let s = x.subrange(1, 3);
    assert(s[0] == x[1] && s[1] == x[2]);
    assert(unsigned_digits(s) == s);
    assert(all_digits(s));
    let a = s.drop_last();
    assert(a.drop_last() =~= Seq::<char>::empty());
    assert(a.last() == x[1]);
    assert(digits_value(a.drop_last()) == 0);
    assert(digits_value(a) == digit_value(x[1]));
    assert(digits_value(s) == digits_value(a) * 10 + digit_value(x[2]));
}

proof fn lemma_parse_one_digit(x: Seq<char>, max: nat)
    requires
        x.len() >= 2,
        is_ascii_digit(x[1]),
        max >= 9,
    ensures
        parse_unsigned(x.subrange(1, 2), max) == Some(digit_value(x[1]) as nat),
{
    let s = x.subrange(1, 2);
    assert(s[0] == x[1]);
    assert(unsigned_digits(s) == s);
    assert(all_digits(s));
    assert(s.drop_last() =~= Seq::<char>::empty());
    assert(digits_value(s.drop_last()) == 0);
}

/// The check behind `validate_location`, total: `None` where the check
/// cannot handle the text. Every ASCII text is handled, and the answer is
/// `ascii_tile`.
pub(crate) fn location_outcome(location_text: &str) -> (r: Option<bool>)
    ensures
        r == location_check(location_text@),
        is_ascii_chars(location_text@) ==> r == Some(ascii_tile(location_text@)),
{
    let ghost x = location_text@;
    proof {
        if is_ascii_chars(x) {
            is_ascii_chars_encode_utf8(x);
        }
    }
    let blen = text_byte_len(location_text);
    if blen <= 1 {
        return Some(false);
    }
    let low = to_lowercase(location_text);
    let lcs = chars_of(low.as_str());
    if lcs.len() == 0 {
        return None;
    }
    if !('a' <= lcs[0] && lcs[0] <= 'w') {
        return Some(false);
    }
    let cs = chars_of(location_text);
    if cs.len() < 2 {
        return None;
    }
    if !is_numeric(cs[1]) {
        return Some(false);
    }
    if blen > 2 {
        if cs.len() < 3 {
            return None;
        }
        if !is_numeric(cs[2]) {
            return Some(false);
        }
        if !(cs[0] <= '\u{7f}' && cs[1] <= '\u{7f}' && cs[2] <= '\u{7f}') {
            return None;
        }
        proof {
            if is_ascii_chars(x) {
                lemma_parse_two_digits(x, 255);
            }
        }
        match parse_unsigned_range(&cs, 1, 3, 255) {
            Some(n) => Some(1 <= n && n <= 32),
            None => None,
        }
    } else {
        Some(cs[1] != '0')
    }
}

/// Whether `location_text` names a tile of the play grid (such as `a24` or
/// `w7`), for texts that the check can handle (see `location_check`).
pub fn validate_location(location_text: &str) -> (r: bool)
    requires
        location_check(location_text@) is Some,
    ensures
        location_check(location_text@) == Some(r),
        is_ascii_chars(location_text@) ==> r == ascii_tile(location_text@),
{
    location_outcome(location_text).unwrap()
}

/// `validate_location` for any text: `None` where that check cannot handle
/// the text, else `Some` of its answer.
pub fn checked_validate_location(location_text: &str) -> (r: Option<bool>)
    ensures
        r == location_check(location_text@),
        is_ascii_chars(location_text@) ==> r == Some(ascii_tile(location_text@)),
{
    match location_outcome(location_text) {
        Some(_) => Some(validate_location(location_text)),
        None => None,
    }
}

proof fn lemma_two_digits_bound(s: Seq<char>)
    requires
        s.len() <= 2,
        all_digits(s),
    ensures
        digits_value(s) <= 99,
{
    if s.len() == 2 {
        assert(is_ascii_digit(s[0]) && is_ascii_digit(s[1]));
        let a = s.drop_last();
        assert(a.drop_last() =~= Seq::<char>::empty());
        assert(a.last() == s[0]);
        assert(digits_value(a.drop_last()) == 0);
        assert(0 <= digit_value(s[0]) <= 9);
        assert(0 <= digit_value(s[1]) <= 9);
        assert(digits_value(a) == digit_value(s[0]));
        assert(digits_value(s) == digits_value(a) * 10 + digit_value(s[1]));
    } else if s.len() == 1 {
        assert(is_ascii_digit(s[0]));
        assert(s.drop_last() =~= Seq::<char>::empty());
        assert(digits_value(s.drop_last()) == 0);
        assert(0 <= digit_value(s[0]) <= 9);
    }
}

proof fn lemma_parse_small(s: Seq<char>, max: nat)
    requires
        s.len() <= 2,
        parse_unsigned(s, max) is Some,
    ensures
        parse_unsigned(s, max)->0 <= 99,
{
    lemma_two_digits_bound(unsigned_digits(s));
}

/// Where the tile named by `location_text` is clicked, total: `None` for
/// the texts that `location_point` leaves out.
pub(crate) fn point_outcome(location_text: &str) -> (r: Option<(i32, i32)>)
    ensures
        match r {
            Some(p) => location_point(location_text@) == Some((p.0 as int, p.1 as int)),
            None => location_point(location_text@) is None,
        },
{
    let cs = chars_of(location_text);
    if cs.len() == 0 || !('a' <= cs[0] && cs[0] <= 'w') {
        return None;
    }
    let blen = text_byte_len(location_text);
    let row: u32 = (cs[0] as u32) - ('a' as u32) + 1;
    let column_found = if blen > 2 {
        if cs.len() >= 3 && cs[1] <= '\u{7f}' && cs[2] <= '\u{7f}' {
            parse_unsigned_range(&cs, 1, 3, 0xffff_ffff)
        } else {
            None
        }
    } else if blen == 2 && cs.len() >= 2 && cs[1] <= '\u{7f}' {
        parse_unsigned_range(&cs, 1, 2, 0xffff_ffff)
    } else {
        None
    };
    match column_found {
        None => None,
        Some(column) => {
            proof {
                if blen > 2 {
                    lemma_parse_small(cs@.subrange(1, 3), u32::MAX as nat);
                } else {
                    lemma_parse_small(cs@.subrange(1, 2), u32::MAX as nat);
                }
            }
            let x: u64 = (48 * column + 25) * 4 / 5;
            let y: u32 = 36 * row;
            Some((x as i32, y as i32))
        },
    }
}

/// Screen point `(x, y)` at which the tile named by `location_text` is
/// clicked (see `location_point` and `tile_point`).
pub fn calculate_location(location_text: &str) -> (r: (i32, i32))
    requires
        location_point(location_text@) is Some,
    ensures
        location_point(location_text@) == Some((r.0 as int, r.1 as int)),
{
    point_outcome(location_text).unwrap()
}

/// Screen point of the button that cancels a tower placement: the tile in
/// row `c` (3), column 33.
pub fn cancel_button_point() -> (r: (i32, i32))
    ensures
        (r.0 as int, r.1 as int) == tile_point(3, 33),
{
    let column: u32 = 33;
    let row: u32 = 3;
    let x: u32 = (48 * column + 25) * 4 / 5;
    let y: u32 = 36 * row;
    (x as i32, y as i32)
}

/// Law: a tile name that the check accepts, written in lowercase ASCII, is
/// clicked inside the grid's part of the screen: `x` from 58 to 1248 and
/// `y` from 36 to 828.
pub proof fn accepted_tile_in_play_area(t: Seq<char>)
    requires
        is_ascii_chars(t),
        ascii_lowercase_text(t) == t,
        ascii_tile(t),
    ensures
        location_point(t) matches Some(p) && 58 <= p.0 <= 1248 && 36 <= p.1 <= 828,
{
    is_ascii_chars_encode_utf8(t);
    assert(ascii_lowercase_text(t)[0] == ascii_lower(t[0]));
    assert(is_grid_letter(t[0]));
    let row = (t[0] as int) - ('a' as int) + 1;
    assert(1 <= row <= 23);
    let column: int = if t.len() > 2 {
        lemma_parse_two_digits(t, u32::MAX as nat);
        digit_value(t[1]) * 10 + digit_value(t[2])
    } else {
        lemma_parse_one_digit(t, u32::MAX as nat);
        digit_value(t[1])
    };
    assert(1 <= column <= 32);
    assert(location_point(t) == Some(tile_point(row, column)));
    assert(58 <= (48 * column + 25) * 4 / 5 <= 1248) by (nonlinear_arith)
        requires
            1 <= column <= 32,
    ;
}

} // verus!
