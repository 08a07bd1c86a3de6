//! Character-level helpers shared by the vote, location and configuration
//! logic: decimal parsing, splitting on a separator, literal matching, and
//! the standard-library text functions that the logic relies on.

use vstd::prelude::*;
use vstd::string::*;
use vstd::utf8::*;

verus! {

/// Whether `c` is one of the ASCII digits `0` to `9`.
pub open spec fn is_ascii_digit(c: char) -> bool {
    '0' <= c && c <= '9'
}

/// Whether `c` is an ASCII character.
pub open spec fn is_ascii_char(c: char) -> bool {
    c <= '\u{7f}'
}

/// Numeric value of an ASCII digit.
pub open spec fn digit_value(c: char) -> int {
    (c as int) - ('0' as int)
}

/// Decimal value of a run of ASCII digits (most significant first).
pub open spec fn digits_value(s: Seq<char>) -> nat
    decreases s.len(),
{
    if s.len() == 0 {
        0
    } else {
        (digits_value(s.drop_last()) * 10 + digit_value(s.last())) as nat
    }
}

/// Every character of `s` is an ASCII digit.
pub open spec fn all_digits(s: Seq<char>) -> bool {
    forall|i: int| 0 <= i < s.len() ==> is_ascii_digit(#[trigger] s[i])
}

/// The digits of an unsigned decimal literal: one leading `+` is allowed.
pub open spec fn unsigned_digits(s: Seq<char>) -> Seq<char> {
    if s.len() > 0 && s[0] == '+' {
        s.drop_first()
    } else {
        s
    }
}

/// What parsing `s` as an unsigned integer whose largest value is `max`
/// gives, as the standard library's `FromStr` for unsigned integers
/// documents it: an optional `+`, then at least one ASCII digit and nothing
/// else, with a value that fits.
pub open spec fn parse_unsigned(s: Seq<char>, max: nat) -> Option<nat> {
    let d = unsigned_digits(s);
    if d.len() > 0 && all_digits(d) && digits_value(d) <= max {
        Some(digits_value(d))
    } else {
        None
    }
}

/// Length in bytes of the UTF-8 encoding of `s` (what `str::len` returns).
pub open spec fn byte_len(s: Seq<char>) -> nat {
    encode_utf8(s).len()
}

/// Index of the first occurrence of `sep` in `s`, or `s.len()` when there
/// is none.
pub open spec fn find_char(s: Seq<char>, sep: char) -> nat
    decreases s.len(),
{
    if s.len() == 0 {
        0
    } else if s[0] == sep {
        0
    } else {
        1 + find_char(s.drop_first(), sep)
    }
}

/// The first piece of `s` when it is split at `sep`.
pub open spec fn first_piece(s: Seq<char>, sep: char) -> Seq<char> {
    s.take(find_char(s, sep) as int)
}

/// Whether splitting `s` at `sep` gives a second piece.
pub open spec fn has_second_piece(s: Seq<char>, sep: char) -> bool {
    find_char(s, sep) < s.len()
}

/// The second piece of `s` when it is split at `sep` (empty when there is
/// no separator).
pub open spec fn second_piece(s: Seq<char>, sep: char) -> Seq<char> {
    if has_second_piece(s, sep) {
        first_piece(s.skip(find_char(s, sep) + 1 as int), sep)
    } else {
        Seq::empty()
    }
}

/// Whether `s` starts with `prefix`.
pub open spec fn starts_with(s: Seq<char>, prefix: Seq<char>) -> bool {
    prefix.len() <= s.len() && s.take(prefix.len() as int) == prefix
}

pub proof fn lemma_find_char_bound(s: Seq<char>, sep: char)
    ensures
        find_char(s, sep) <= s.len(),
        find_char(s, sep) < s.len() ==> s[find_char(s, sep) as int] == sep,
        forall|j: int| 0 <= j < find_char(s, sep) ==> s[j] != sep,
    decreases s.len(),
{
    if s.len() > 0 && s[0] != sep {
        lemma_find_char_bound(s.drop_first(), sep);
        assert forall|j: int| 0 <= j < find_char(s, sep) implies s[j] != sep by {
            if j > 0 {
                assert(s[j] == s.drop_first()[j - 1]);
            }
        }
    }
}

/// The characters of `s`, one per element.
pub fn chars_of(s: &str) -> (v: Vec<char>)
    ensures
        v@ == s@,
{
    let n = s.unicode_len();
    let mut v: Vec<char> = Vec::new();
    for i in 0..n
        invariant
            n == s@.len(),
            v@ == s@.take(i as int),
    {
        v.push(s.get_char(i));
        assert(v@ =~= s@.take(i + 1));
    }
    assert(v@ =~= s@);
    v
}

/// Index of the first `sep` in `cs` at or after `from` (or `cs.len()`).
pub fn find_char_from(cs: &Vec<char>, from: usize, sep: char) -> (r: usize)
    requires
        from <= cs.len(),
    ensures
        r == from + find_char(cs@.skip(from as int), sep),
{
    let mut i = from;
    while i < cs.len()
        invariant
            from <= i <= cs.len(),
            from + find_char(cs@.skip(from as int), sep) == i + find_char(cs@.skip(i as int), sep),
        decreases cs.len() - i,
    {
        if cs[i] == sep {
            return i;
        }
        assert(cs@.skip(i as int).drop_first() =~= cs@.skip(i + 1));
        i = i + 1;
    }
    i
}

pub proof fn lemma_digits_value_prefix(s: Seq<char>, k: int)
    requires
        0 <= k <= s.len(),
        all_digits(s),
    ensures
        digits_value(s.take(k)) <= digits_value(s),
    decreases s.len(),
{
    if k < s.len() {
        assert(s.drop_last().take(k) =~= s.take(k));
        assert(is_ascii_digit(s[s.len() - 1]));
        assert forall|j: int| 0 <= j < s.drop_last().len() implies is_ascii_digit(
            #[trigger] s.drop_last()[j],
        ) by {
            assert(s.drop_last()[j] == s[j]);
        }
        lemma_digits_value_prefix(s.drop_last(), k);
    } else {
        assert(s.take(k) =~= s);
    }
}

/// Law: a single ASCII digit reads as its value (when that fits).
pub proof fn parse_single_digit(d: char, max: nat)
    requires
        is_ascii_digit(d),
        digit_value(d) <= max,
    ensures
        parse_unsigned(seq![d], max) == Some(digit_value(d) as nat),
{
    let s = seq![d];
    assert(s[0] == d);
    assert(unsigned_digits(s) == s);
    assert(s.drop_last() =~= Seq::<char>::empty());
    assert(digits_value(s.drop_last()) == 0);
}

/// Law: writing one more digit after a number, of any length, multiplies
/// its value by ten and adds the digit, as long as the result fits; once the
/// result does not fit, the text no longer reads as a number.
pub proof fn parse_appended_digit(s: Seq<char>, d: char, max: nat)
    requires
        parse_unsigned(s, max) is Some,
        is_ascii_digit(d),
    ensures
        parse_unsigned(s, max)->0 * 10 + digit_value(d) <= max ==> parse_unsigned(s.push(d), max)
            == Some((parse_unsigned(s, max)->0 * 10 + digit_value(d)) as nat),
        parse_unsigned(s, max)->0 * 10 + digit_value(d) > max ==> parse_unsigned(s.push(d), max)
            is None,
{
    let ds = unsigned_digits(s);
    let t = s.push(d);
    assert(t[0] == s[0]);
    if s[0] == '+' {
        assert(unsigned_digits(t) =~= ds.push(d));
    } else {
        assert(unsigned_digits(t) =~= ds.push(d));
    }
    let e = ds.push(d);
    assert(e.drop_last() =~= ds);
    assert(e.last() == d);
    assert forall|i: int| 0 <= i < e.len() implies is_ascii_digit(#[trigger] e[i]) by {
        if i < ds.len() {
            assert(e[i] == ds[i]);
        }
    }
}

/// Law: one leading `+` does not change the number a run of digits reads as.
pub proof fn parse_plus_sign(s: Seq<char>, max: nat)
    requires
        s.len() > 0,
        all_digits(s),
    ensures
        parse_unsigned(seq!['+'] + s, max) == parse_unsigned(s, max),
{
    let t = seq!['+'] + s;
    assert(t[0] == '+');
    assert(t.drop_first() =~= s);
    assert(s[0] != '+') by {
        assert(is_ascii_digit(s[0]));
    }
}

/// Parses `cs[start..end]` as an unsigned integer no larger than `max`.
pub fn parse_unsigned_range(cs: &Vec<char>, start: usize, end: usize, max: u64) -> (r: Option<u64>)
    requires
        start <= end <= cs.len(),
    ensures
        match r {
            Some(v) => parse_unsigned(cs@.subrange(start as int, end as int), max as nat) == Some(
                v as nat,
            ),
            None => parse_unsigned(cs@.subrange(start as int, end as int), max as nat) is None,
        },
{
    let ghost s = cs@.subrange(start as int, end as int);
    let mut i = start;
    if i < end && cs[i] == '+' {
        i = i + 1;
    }
    let ghost d = cs@.subrange(i as int, end as int);
    assert(d =~= unsigned_digits(s));
    if i == end {
        return None;
    }
    let digits_start = i;
    let mut acc: u64 = 0;
    assert(cs@.subrange(digits_start as int, digits_start as int) =~= Seq::<char>::empty());
    while i < end
        invariant
            digits_start < end <= cs.len(),
            digits_start <= i <= end,
            d == cs@.subrange(digits_start as int, end as int),
            d =~= unsigned_digits(s),
            s == cs@.subrange(start as int, end as int),
            all_digits(cs@.subrange(digits_start as int, i as int)),
            acc == digits_value(cs@.subrange(digits_start as int, i as int)),
            acc <= max,
        decreases end - i,
    {
        let c = cs[i];
        assert(d[i - digits_start] == c);
        if !('0' <= c && c <= '9') {
            return None;
        }
        let dv: u64 = (c as u32 - '0' as u32) as u64;
        let next: u128 = acc as u128 * 10 + dv as u128;
        let ghost prefix = cs@.subrange(digits_start as int, i + 1);
        assert(prefix.drop_last() =~= cs@.subrange(digits_start as int, i as int));
        assert(prefix.last() == c);
        assert(digits_value(prefix) == next);
        if next > max as u128 {
            proof {
                assert(prefix =~= d.take(i + 1 - digits_start));
                if all_digits(d) {
                    lemma_digits_value_prefix(d, i + 1 - digits_start);
                }
            }
            return None;
        }
        acc = next as u64;
        assert forall|j: int| 0 <= j < prefix.len() implies is_ascii_digit(#[trigger] prefix[j]) by {
            if j < prefix.len() - 1 {
                assert(prefix[j] == cs@.subrange(digits_start as int, i as int)[j]);
            }
        }
        i = i + 1;
    }
    assert(cs@.subrange(digits_start as int, i as int) =~= d);
    Some(acc)
}

/// Whether `cs[start..end]` holds exactly the characters of `lit`.
pub fn range_equals(cs: &Vec<char>, start: usize, end: usize, lit: &str) -> (r: bool)
    requires
        start <= end <= cs.len(),
    ensures
        r == (cs@.subrange(start as int, end as int) == lit@),
{
    let n = lit.unicode_len();
    if end - start != n {
        return false;
    }
    let mut i: usize = 0;
    while i < n
        invariant
            start <= end <= cs.len(),
            end - start == n,
            n == lit@.len(),
            i <= n,
            forall|j: int| 0 <= j < i ==> cs@[start + j] == lit@[j],
        decreases n - i,
    {
        if cs[start + i] != lit.get_char(i) {
            assert(cs@.subrange(start as int, end as int)[i as int] != lit@[i as int]);
            return false;
        }
        i = i + 1;
    }
    assert(cs@.subrange(start as int, end as int) =~= lit@);
    true
}

/// Whether `cs` starts with the characters of `lit`.
pub fn starts_with_literal(cs: &Vec<char>, lit: &str) -> (r: bool)
    ensures
        r == starts_with(cs@, lit@),
{
    let n = lit.unicode_len();
    if n > cs.len() {
        return false;
    }
    range_equals(cs, 0, n, lit)
}

/// Where the `sep`-separated pieces of `cs` lie: the end of the first piece
/// (the first `sep`, or the end of `cs`), and the start and end of the
/// second piece (an empty range at the end when there is no `sep`).
pub fn piece_ranges(cs: &Vec<char>, sep: char) -> (r: (usize, usize, usize))
    ensures
        r.0 <= r.1 <= r.2 <= cs.len(),
        r.0 == find_char(cs@, sep),
        cs@.subrange(0, r.0 as int) == first_piece(cs@, sep),
        cs@.subrange(r.1 as int, r.2 as int) == second_piece(cs@, sep),
        has_second_piece(cs@, sep) <==> r.0 < cs.len(),
{
    assert(cs@.skip(0) =~= cs@);
    proof {
        lemma_find_char_bound(cs@, sep);
    }
    let fs = find_char_from(cs, 0, sep);
    if fs < cs.len() {
        let start = fs + 1;
        let end = find_char_from(cs, start, sep);
        proof {
            lemma_find_char_bound(cs@.skip(start as int), sep);
        }
        assert(cs@.subrange(start as int, end as int) =~= cs@.skip(start as int).take(
            (end - start) as int,
        ));
        (fs, start, end)
    } else {
        assert(cs@.subrange(cs.len() as int, cs.len() as int) =~= Seq::<char>::empty());
        (fs, cs.len(), cs.len())
    }
}

/// If `t` starts with `p`, a word without `sep` followed by `sep`, then `t`
/// splits at `sep` into that word and a second piece.
pub proof fn lemma_command_prefix(t: Seq<char>, p: Seq<char>, sep: char)
    requires
        starts_with(t, p),
        p.len() >= 1,
        p.last() == sep,
        forall|i: int| 0 <= i < p.len() - 1 ==> p[i] != sep,
    ensures
        find_char(t, sep) == p.len() - 1,
        has_second_piece(t, sep),
        first_piece(t, sep) == p.take(p.len() - 1),
{
    lemma_find_char_bound(t, sep);
    let k = p.len() - 1;
    assert(t[k] == t.take(p.len() as int)[k]);
    assert(t[k] == sep);
    let f = find_char(t, sep) as int;
    if f < k {
        assert(t[f] == t.take(p.len() as int)[f]);
    }
    assert(f == k);
    assert(first_piece(t, sep) =~= p.take(k));
}

/// The text of a command followed by one space and a word.
pub open spec fn command_text(command: Seq<char>, word: Seq<char>) -> Seq<char> {
    command + seq![' '] + word
}

/// A command and a word, neither holding a space, split back into that
/// command and that word.
pub proof fn lemma_command_and_word(command: Seq<char>, word: Seq<char>)
    requires
        forall|i: int| 0 <= i < command.len() ==> command[i] != ' ',
        forall|i: int| 0 <= i < word.len() ==> word[i] != ' ',
    ensures
        first_piece(command_text(command, word), ' ') == command,
        has_second_piece(command_text(command, word), ' '),
        second_piece(command_text(command, word), ' ') == word,
{
    let t = command_text(command, word);
    let p = command.push(' ');
    assert(t.take(p.len() as int) =~= p);
    lemma_command_prefix(t, p, ' ');
    assert(p.take(p.len() - 1) =~= command);
    assert(t.skip(command.len() + 1 as int) =~= word);
    lemma_no_separator(word, ' ');
}

/// A text without `sep` is a single piece.
pub proof fn lemma_no_separator(t: Seq<char>, sep: char)
    requires
        forall|i: int| 0 <= i < t.len() ==> t[i] != sep,
    ensures
        find_char(t, sep) == t.len(),
        !has_second_piece(t, sep),
        first_piece(t, sep) == t,
{
    lemma_find_char_bound(t, sep);
    assert(first_piece(t, sep) =~= t);
}

/// `t` is ASCII and holds no capital letter.
pub open spec fn is_lower_ascii(t: Seq<char>) -> bool {
    is_ascii_chars(t) && ascii_lowercase_text(t) == t
}

/// Lowercase mapping of a text, as `str::to_lowercase` computes it.
pub uninterp spec fn lowercase_of(s: Seq<char>) -> Seq<char>;

/// Lowercase of one ASCII character: `A` to `Z` become `a` to `z`.
pub open spec fn ascii_lower(c: char) -> char {
    if 'A' <= c && c <= 'Z' {
        ((c as int) + 32) as char
    } else {
        c
    }
}

/// Character-wise ASCII lowercase of a text.
pub open spec fn ascii_lowercase_text(s: Seq<char>) -> Seq<char> {
    s.map_values(|c: char| ascii_lower(c))
}

/// The ASCII lowercase of an ASCII text is ASCII and holds no capital.
pub proof fn lemma_ascii_lowercase_is_lower(s: Seq<char>)
    requires
        is_ascii_chars(s),
    ensures
        is_lower_ascii(ascii_lowercase_text(s)),
{
    let l = ascii_lowercase_text(s);
    assert forall|i: int| 0 <= i < l.len() implies '\0' <= #[trigger] l[i] <= '\u{7f}'
        && ascii_lower(l[i]) == l[i] by {
        let c = s[i];
        assert('\0' <= c <= '\u{7f}');
        if 'A' <= c && c <= 'Z' {
            assert((((c as int) + 32) as char) as int == (c as int) + 32);
        }
    }
    assert(ascii_lowercase_text(l) =~= l);
}

/// Calls `str::to_lowercase`. Claimed: the result is `lowercase_of` of the
/// text, a function of the text alone; on an all-ASCII text it is the
/// character-wise ASCII lowercase (Unicode maps `A`..`Z` to `a`..`z` and
/// leaves every other ASCII character alone). Nothing is claimed of other
/// texts.
#[verifier::external_body]
pub(crate) fn to_lowercase(s: &str) -> (res: String)
    ensures
        res@ == lowercase_of(s@),
        is_ascii_chars(s@) ==> res@ == ascii_lowercase_text(s@),
{
    s.to_lowercase()
}

/// Whether a character has a Unicode numeric general category, as
/// `char::is_numeric` decides it.
pub uninterp spec fn numeric_char(c: char) -> bool;

/// Calls `char::is_numeric`. Claimed: the result is `numeric_char` of the
/// character; among ASCII characters exactly the digits `0` to `9` are
/// numeric (the only ASCII characters in the categories Nd, Nl, No).
#[verifier::external_body]
pub(crate) fn is_numeric(c: char) -> (res: bool)
    ensures
        res == numeric_char(c),
        is_ascii_char(c) ==> (res == is_ascii_digit(c)),
{
    c.is_numeric()
}

/// A text with its leading and trailing Unicode white space removed, as
/// `str::trim` computes it.
pub uninterp spec fn trimmed(s: Seq<char>) -> Seq<char>;

/// The ASCII characters with Unicode's White_Space property: tab, line
/// feed, vertical tab, form feed, carriage return and space.
pub open spec fn is_ascii_white_space(c: char) -> bool {
    c == '\t' || c == '\n' || c == '\u{b}' || c == '\u{c}' || c == '\r' || c == ' '
}

/// `s` without its leading ASCII white space.
pub open spec fn trim_start_ascii(s: Seq<char>) -> Seq<char>
    decreases s.len(),
{
    if s.len() > 0 && is_ascii_white_space(s[0]) {
        trim_start_ascii(s.drop_first())
    } else {
        s
    }
}

/// `s` without its trailing ASCII white space.
pub open spec fn trim_end_ascii(s: Seq<char>) -> Seq<char>
    decreases s.len(),
{
    if s.len() > 0 && is_ascii_white_space(s.last()) {
        trim_end_ascii(s.drop_last())
    } else {
        s
    }
}

/// `s` without its leading and trailing ASCII white space.
pub open spec fn ascii_trim(s: Seq<char>) -> Seq<char> {
    trim_end_ascii(trim_start_ascii(s))
}

/// A part of an ASCII text is ASCII.
pub proof fn lemma_ascii_subrange(s: Seq<char>, i: int, j: int)
    requires
        is_ascii_chars(s),
        0 <= i <= j <= s.len(),
    ensures
        is_ascii_chars(s.subrange(i, j)),
{
    assert forall|k: int| 0 <= k < j - i implies '\0' <= #[trigger] s.subrange(i, j)[k] <= '\u{7f}' by {
        assert(s.subrange(i, j)[k] == s[i + k]);
    }
}

/// Trimming ASCII white space off an ASCII text leaves an ASCII text.
pub proof fn lemma_ascii_trim_is_ascii(s: Seq<char>)
    requires
        is_ascii_chars(s),
    ensures
        is_ascii_chars(trim_start_ascii(s)),
        is_ascii_chars(trim_end_ascii(s)),
        is_ascii_chars(ascii_trim(s)),
    decreases s.len(),
{
    if s.len() > 0 {
        lemma_ascii_subrange(s, 1, s.len() as int);
        lemma_ascii_subrange(s, 0, s.len() - 1);
        assert(s.drop_first() =~= s.subrange(1, s.len() as int));
        assert(s.drop_last() =~= s.subrange(0, s.len() - 1));
        lemma_ascii_trim_is_ascii(s.drop_first());
        lemma_ascii_trim_is_ascii(s.drop_last());
    }
    if is_ascii_chars(trim_start_ascii(s)) {
        lemma_ascii_trim_is_ascii_end(trim_start_ascii(s));
    }
}

proof fn lemma_ascii_trim_is_ascii_end(s: Seq<char>)
    requires
        is_ascii_chars(s),
    ensures
        is_ascii_chars(trim_end_ascii(s)),
    decreases s.len(),
{
    if s.len() > 0 {
        lemma_ascii_subrange(s, 0, s.len() - 1);
        assert(s.drop_last() =~= s.subrange(0, s.len() - 1));
        lemma_ascii_trim_is_ascii_end(s.drop_last());
    }
}

/// Calls `str::trim`. Claimed: the result is `trimmed` of the text, a
/// function of the text alone; on an all-ASCII text it is the text without
/// its leading and trailing ASCII white space (the ASCII members of
/// White_Space). Nothing is claimed of other texts.
#[verifier::external_body]
pub(crate) fn trim<'a>(s: &'a str) -> (res: &'a str)
    ensures
        res@ == trimmed(s@),
        is_ascii_chars(s@) ==> res@ == ascii_trim(s@),
{
    s.trim()
}

} // verus!
