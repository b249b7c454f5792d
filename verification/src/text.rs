//! Character-level helpers shared by the path and configuration code.
//!
//! Strings are modelled by their view, a `Seq<char>`. The executable
//! functions first copy a string's characters into a vector, so that they can
//! be indexed in constant time, and cut the results out of the given
//! string by character positions.

use vstd::prelude::*;

verus! {

/// Index of the last occurrence of `c` in `s`, or `-1` when `s` holds no `c`.
pub open spec fn last_index(s: Seq<char>, c: char) -> int
    decreases s.len(),
{
    if s.len() == 0 {
        -1
    } else if s.last() == c {
        s.len() - 1
    } else {
        last_index(s.drop_last(), c)
    }
}

/// Index of the first occurrence of `c` in `s`, or `-1` when `s` holds no `c`.
pub open spec fn first_index(s: Seq<char>, c: char) -> int
    decreases s.len(),
{
    if s.len() == 0 {
        -1
    } else if s[0] == c {
        0
    } else {
        let rest = first_index(s.drop_first(), c);
        if rest < 0 {
            -1
        } else {
            rest + 1
        }
    }
}

/// The pieces of `s` between occurrences of `sep`, in order.
///
/// A sequence without `sep` is one piece, itself; so is the empty sequence.
/// Two separators in a row, or one at either end, give an empty piece.
pub open spec fn split_on(s: Seq<char>, sep: char) -> Seq<Seq<char>>
    decreases s.len(),
{
    let at = first_index(s, sep);
    if 0 <= at < s.len() {
        seq![s.take(at)] + split_on(s.skip(at + 1), sep)
    } else {
        seq![s]
    }
}

/// The pieces of `pieces` in a row, with `sep` between every two of them.
pub open spec fn join_with(pieces: Seq<Seq<char>>, sep: char) -> Seq<char>
    decreases pieces.len(),
{
    if pieces.len() == 0 {
        Seq::empty()
    } else if pieces.len() == 1 {
        pieces[0]
    } else {
        pieces[0] + seq![sep] + join_with(pieces.drop_first(), sep)
    }
}

/// Whether `c` is one of the ten decimal digits.
pub open spec fn is_digit(c: char) -> bool {
    '0' <= c <= '9'
}

/// The number a decimal digit stands for; 0 for any other character.
pub open spec fn digit_value(c: char) -> nat {
    if is_digit(c) {
        (c as int - '0' as int) as nat
    } else {
        0
    }
}

/// The number that a sequence of decimal digits writes, most significant
/// digit first.
pub open spec fn decimal_value(digits: Seq<char>) -> nat
    decreases digits.len(),
{
    if digits.len() == 0 {
        0
    } else {
        decimal_value(digits.drop_last()) * 10 + digit_value(digits.last())
    }
}

/// Whether `s` holds nothing but decimal digits.
pub open spec fn all_digits(s: Seq<char>) -> bool {
    forall|i: int| 0 <= i < s.len() ==> is_digit(#[trigger] s[i])
}

/// `text` without the `+` that may lead it.
pub open spec fn without_plus(text: Seq<char>) -> Seq<char> {
    if text.len() > 0 && text[0] == '+' {
        text.drop_first()
    } else {
        text
    }
}

/// The `u32` that `text` writes in decimal: an optional `+`, then at least
/// one digit and nothing but digits, with a value that fits.
pub open spec fn decimal_u32(text: Seq<char>) -> Option<u32> {
    let digits = without_plus(text);
    if digits.len() > 0 && all_digits(digits) && decimal_value(digits) <= u32::MAX {
        Some(decimal_value(digits) as u32)
    } else {
        None
    }
}

/// `last_index` is the one position that holds `c` and has no `c` after it.
pub proof fn lemma_last_index(s: Seq<char>, c: char)
    ensures
        -1 <= last_index(s, c) < s.len(),
        last_index(s, c) >= 0 ==> s[last_index(s, c)] == c,
        forall|j: int| last_index(s, c) < j < s.len() ==> s[j] != c,
    decreases s.len(),
{
    if s.len() > 0 && s.last() != c {
        let front = s.drop_last();
        lemma_last_index(front, c);
        assert forall|j: int| last_index(s, c) < j < s.len() implies s[j] != c by {
            if j < front.len() {
                assert(s[j] == front[j]);
            }
        }
    }
}

/// A position with no `c` after it, and with `c` at it unless it is `-1`, is
/// `last_index`.
pub proof fn lemma_last_index_unique(s: Seq<char>, c: char, at: int)
    requires
        -1 <= at < s.len(),
        at >= 0 ==> s[at] == c,
        forall|j: int| at < j < s.len() ==> s[j] != c,
    ensures
        last_index(s, c) == at,
{
    lemma_last_index(s, c);
}

/// `first_index` is the one position that holds `c` and has no `c` before it.
pub proof fn lemma_first_index(s: Seq<char>, c: char)
    ensures
        -1 <= first_index(s, c) < s.len(),
        first_index(s, c) >= 0 ==> s[first_index(s, c)] == c,
        first_index(s, c) >= 0 ==> forall|j: int| 0 <= j < first_index(s, c) ==> s[j] != c,
        first_index(s, c) < 0 ==> forall|j: int| 0 <= j < s.len() ==> s[j] != c,
    decreases s.len(),
{
    if s.len() > 0 && s[0] != c {
        let rest = s.drop_first();
        lemma_first_index(rest, c);
        assert forall|j: int| 0 < j < s.len() implies s[j] == rest[j - 1] by {}
    }
}

/// A position with no `c` before it, and with `c` at it, is `first_index`;
/// so is `-1` for a sequence without `c`.
pub proof fn lemma_first_index_unique(s: Seq<char>, c: char, at: int)
    requires
        -1 <= at < s.len(),
        at >= 0 ==> s[at] == c,
        forall|j: int| 0 <= j < (if at >= 0 { at } else { s.len() as int }) ==> s[j] != c,
    ensures
        first_index(s, c) == at,
{
    lemma_first_index(s, c);
}

/// Copies the characters of `s` into a vector.
pub fn chars_of(s: &str) -> (chars: Vec<char>)
    ensures
        chars@ == s@,
{
    let mut chars: Vec<char> = Vec::new();
    for c in it: s.chars()
        invariant
            chars@ == s@.take(it.index() as int),
            it.seq() == s@,
    {
        chars.push(c);
    }
    chars
}

/// The characters of `s` from position `from` up to, not including, `to`.
pub fn substring(s: &str, from: usize, to: usize) -> (part: String)
    requires
        from <= to <= s@.len(),
    ensures
        part@ == s@.subrange(from as int, to as int),
{
    s.substring_char(from, to).to_owned()
}

/// Searches `chars[..end]` backwards for `c`.
pub fn find_last(chars: &Vec<char>, end: usize, c: char) -> (found: Option<usize>)
    requires
        end <= chars.len(),
    ensures
        match found {
            Some(at) => at < end && at == last_index(chars@.take(end as int), c),
            None => last_index(chars@.take(end as int), c) == -1,
        },
{
    let mut at: usize = end;
    while at > 0
        invariant
            at <= end <= chars.len(),
            forall|j: int| at <= j < end ==> chars@[j] != c,
        decreases at,
    {
        at = at - 1;
        if chars[at] == c {
            proof {
                lemma_last_index_unique(chars@.take(end as int), c, at as int);
            }
            return Some(at);
        }
    }
    proof {
        lemma_last_index_unique(chars@.take(end as int), c, -1);
    }
    None
}

/// Searches `chars[from..]` forwards for `c`; the position found counts from
/// the start of `chars`.
pub fn find_first(chars: &Vec<char>, from: usize, c: char) -> (found: Option<usize>)
    requires
        from <= chars.len(),
    ensures
        match found {
            Some(at) => from <= at < chars.len() && at - from == first_index(
                chars@.skip(from as int),
                c,
            ),
            None => first_index(chars@.skip(from as int), c) == -1,
        },
{
    let mut at: usize = from;
    while at < chars.len()
        invariant
            from <= at <= chars.len(),
            forall|j: int| from <= j < at ==> chars@[j] != c,
        decreases chars.len() - at,
    {
        if chars[at] == c {
            proof {
                lemma_first_index_unique(chars@.skip(from as int), c, at - from);
            }
            return Some(at);
        }
        at = at + 1;
    }
    proof {
        lemma_first_index_unique(chars@.skip(from as int), c, -1);
    }
    None
}

/// Splitting loses nothing and cuts at every separator: there is at least
/// one piece, no piece holds the separator, and the pieces joined with the
/// separator are the sequence that was split.
pub proof fn lemma_split_on_rejoins(s: Seq<char>, sep: char)
    ensures
        split_on(s, sep).len() >= 1,
        forall|i: int|
            0 <= i < split_on(s, sep).len() ==> !(#[trigger] split_on(s, sep)[i]).contains(sep),
        join_with(split_on(s, sep), sep) == s,
    decreases s.len(),
{
    lemma_first_index(s, sep);
    let at = first_index(s, sep);
    if 0 <= at < s.len() {
        let tail = s.skip(at + 1);
        lemma_split_on_rejoins(tail, sep);
        let pieces = split_on(s, sep);
        assert(pieces.drop_first() =~= split_on(tail, sep));
        assert forall|i: int| 0 <= i < pieces.len() implies !(#[trigger] pieces[i]).contains(
            sep,
        ) by {
            if i > 0 {
                assert(pieces[i] == split_on(tail, sep)[i - 1]);
            }
        }
    }
}

/// The value of a number never shrinks when more digits follow.
pub proof fn lemma_decimal_value_grows(digits: Seq<char>, shown: int)
    requires
        0 <= shown <= digits.len(),
    ensures
        decimal_value(digits.take(shown)) <= decimal_value(digits),
    decreases digits.len() - shown,
{
    if shown == digits.len() {
        assert(digits.take(shown) =~= digits);
    } else {
        lemma_decimal_value_grows(digits, shown + 1);
        assert(digits.take(shown + 1).drop_last() =~= digits.take(shown));
    }
}

/// Splits `s` at every `sep`, as `split_on` defines it.
pub fn split(s: &str, sep: char) -> (pieces: Vec<String>)
    ensures
        pieces.deep_view() == split_on(s@, sep),
{
    let chars = chars_of(s);
    let mut pieces: Vec<String> = Vec::new();
    let mut start: usize = 0;
    proof {
        assert(s@.skip(0) =~= s@);
    }
    loop
        invariant
            start <= chars.len(),
            chars@ == s@,
            split_on(s@, sep) == pieces.deep_view() + split_on(s@.skip(start as int), sep),
        decreases chars.len() - start,
    {
        let ghost rest = s@.skip(start as int);
        match find_first(&chars, start, sep) {
            Some(at) => {
                pieces.push(substring(s, start, at));
                proof {
                    assert(rest.take(at - start) =~= s@.subrange(start as int, at as int));
                    assert(rest.skip(at - start + 1) =~= s@.skip(at + 1));
                }
                start = at + 1;
            },
            None => {
                pieces.push(substring(s, start, chars.len()));
                return pieces;
            },
        }
    }
}

/// Reads `text` as a decimal `u32`, as `decimal_u32` defines it.
pub fn parse_u32(text: &str) -> (number: Option<u32>)
    ensures
        number == decimal_u32(text@),
{
    let chars = chars_of(text);
    let first: usize = if chars.len() > 0 && chars[0] == '+' {
        1
    } else {
        0
    };
    let ghost digits = without_plus(text@);
    if first == chars.len() {
        return None;
    }
    let mut value: u32 = 0;
    let mut at: usize = first;
    while at < chars.len()
        invariant
            first <= at <= chars.len(),
            digits == without_plus(text@),
            digits == chars@.skip(first as int),
            all_digits(digits.take(at - first)),
            value == decimal_value(digits.take(at - first)),
        decreases chars.len() - at,
    {
        let c = chars[at];
        if c < '0' || c > '9' {
            assert(!is_digit(digits[at - first]));
            return None;
        }
        let digit: u32 = c as u32 - '0' as u32;
        proof {
            let shown = digits.take(at - first + 1);
            assert(shown.drop_last() =~= digits.take(at - first));
            assert forall|i: int| 0 <= i < shown.len() implies is_digit(#[trigger] shown[i]) by {
                if i < at - first {
                    assert(shown[i] == digits.take(at - first)[i]);
                }
            }
            lemma_decimal_value_grows(digits, at - first + 1);
        }
        if value > (u32::MAX - digit) / 10 {
            return None;
        }
        value = value * 10 + digit;
        at = at + 1;
    }
    proof {
        assert(digits.take(at - first) =~= digits);
    }
    Some(value)
}

} // verus!
