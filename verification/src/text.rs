//! Character-level text handling: splitting, trimming and decimal parsing.

use vstd::prelude::*;

verus! {

/// The pieces of `s` between occurrences of `sep`, as `str::split` yields them:
/// n separators give n + 1 pieces, empty pieces included.
pub open spec fn split_seq(s: Seq<char>, sep: char) -> Seq<Seq<char>>
    decreases s.len(),
{
    if s.len() == 0 {
        seq![Seq::<char>::empty()]
    } else {
        let pieces = split_seq(s.drop_last(), sep);
        if s.last() == sep {
            pieces.push(Seq::<char>::empty())
        } else {
            pieces.update(pieces.len() - 1, pieces.last().push(s.last()))
        }
    }
}

pub proof fn lemma_split_nonempty(s: Seq<char>, sep: char)
    ensures
        split_seq(s, sep).len() >= 1,
    decreases s.len(),
{
    if s.len() > 0 {
        lemma_split_nonempty(s.drop_last(), sep);
    }
}

/// How many times `c` occurs in `s`.
pub open spec fn count_char(s: Seq<char>, c: char) -> nat
    decreases s.len(),
{
    if s.len() == 0 {
        0
    } else {
        count_char(s.drop_last(), c) + if s.last() == c {
            1nat
        } else {
            0nat
        }
    }
}

/// Splitting at `sep` gives one piece more than there are separators.
pub proof fn law_split_count(s: Seq<char>, sep: char)
    ensures
        split_seq(s, sep).len() == count_char(s, sep) + 1,
    decreases s.len(),
{
    if s.len() > 0 {
        law_split_count(s.drop_last(), sep);
    }
}

/// `s` holds no `c`.
pub open spec fn lacks_char(s: Seq<char>, c: char) -> bool {
    forall|i: int| 0 <= i < s.len() ==> s[i] != c
}

/// A text without the separator is a single piece.
pub proof fn lemma_split_single(s: Seq<char>, sep: char)
    requires
        lacks_char(s, sep),
    ensures
        split_seq(s, sep) == seq![s],
    decreases s.len(),
{
    if s.len() > 0 {
        assert(lacks_char(s.drop_last(), sep));
        lemma_split_single(s.drop_last(), sep);
        assert(s.drop_last().push(s.last()) =~= s);
        assert(seq![s.drop_last()].update(0, s.drop_last().push(s.last())) =~= seq![s]);
    } else {
        assert(s =~= Seq::<char>::empty());
    }
}

/// Splitting a text joined at a separator splits each side.
pub proof fn lemma_split_join(a: Seq<char>, b: Seq<char>, sep: char)
    ensures
        split_seq(a + seq![sep] + b, sep) == split_seq(a, sep) + split_seq(b, sep),
    decreases b.len(),
{
    let s = a + seq![sep] + b;
    if b.len() == 0 {
        assert(s.drop_last() =~= a);
        assert(split_seq(b, sep) =~= seq![Seq::<char>::empty()]);
        assert(split_seq(a, sep).push(Seq::<char>::empty()) =~= split_seq(a, sep) + split_seq(
            b,
            sep,
        ));
    } else {
        let b0 = b.drop_last();
        lemma_split_join(a, b0, sep);
        assert(s.drop_last() =~= a + seq![sep] + b0);
        assert(s.last() == b.last());
        lemma_split_nonempty(b0, sep);
        lemma_split_nonempty(a, sep);
        let pa = split_seq(a, sep);
        let pb = split_seq(b0, sep);
        if b.last() == sep {
            assert((pa + pb).push(Seq::<char>::empty()) =~= pa + pb.push(Seq::<char>::empty()));
        } else {
            assert((pa + pb).update((pa + pb).len() - 1, (pa + pb).last().push(b.last())) =~= pa
                + pb.update(pb.len() - 1, pb.last().push(b.last())));
        }
    }
}

/// A text whose last character is not a space keeps all its characters.
pub proof fn lemma_trim_end_kept(s: Seq<char>)
    requires
        s.len() == 0 || s.last() != ' ',
    ensures
        trim_end_spaces(s) == s,
{
}

/// Splits the characters `s[start..end]` at `sep`; each piece is returned as a
/// range of positions in `s`.
pub fn split_range(s: &Vec<char>, start: usize, end: usize, sep: char) -> (ranges: Vec<(usize, usize)>)
    requires
        start <= end <= s@.len(),
    ensures
        ranges@.len() == split_seq(s@.subrange(start as int, end as int), sep).len(),
        forall|i: int|
            #![trigger ranges@[i]]
            0 <= i < ranges@.len() ==> {
                &&& start <= ranges@[i].0 <= ranges@[i].1 <= end
                &&& s@.subrange(ranges@[i].0 as int, ranges@[i].1 as int) == split_seq(
                    s@.subrange(start as int, end as int),
                    sep,
                )[i]
            },
{
    let mut ranges: Vec<(usize, usize)> = Vec::new();
    let mut cur: usize = start;
    let mut i: usize = start;
    while i < end
        invariant
            start <= cur <= i <= end <= s@.len(),
            ranges@.len() + 1 == split_seq(s@.subrange(start as int, i as int), sep).len(),
            forall|k: int|
                #![trigger ranges@[k]]
                0 <= k < ranges@.len() ==> {
                    &&& start <= ranges@[k].0 <= ranges@[k].1 <= i
                    &&& s@.subrange(ranges@[k].0 as int, ranges@[k].1 as int) == split_seq(
                        s@.subrange(start as int, i as int),
                        sep,
                    )[k]
                },
            s@.subrange(cur as int, i as int) == split_seq(
                s@.subrange(start as int, i as int),
                sep,
            ).last(),
        decreases end - i,
    {
        let ghost before = split_seq(s@.subrange(start as int, i as int), sep);
        proof {
            lemma_split_nonempty(s@.subrange(start as int, i as int), sep);
            assert(s@.subrange(start as int, i + 1).drop_last() == s@.subrange(start as int, i as int));
        }
        if s[i] == sep {
            ranges.push((cur, i));
            cur = i + 1;
            assert(s@.subrange(cur as int, i + 1) =~= Seq::<char>::empty());
        } else {
            assert(s@.subrange(cur as int, i + 1) =~= s@.subrange(cur as int, i as int).push(s@[i as int]));
        }
        i = i + 1;
    }
    proof {
        lemma_split_nonempty(s@.subrange(start as int, end as int), sep);
    }
    ranges.push((cur, end));
    ranges
}


/// `s` without its trailing spaces, as `str::trim_end_matches(' ')` gives it.
pub open spec fn trim_end_spaces(s: Seq<char>) -> Seq<char>
    decreases s.len(),
{
    if s.len() > 0 && s.last() == ' ' {
        trim_end_spaces(s.drop_last())
    } else {
        s
    }
}

/// Dropping trailing spaces twice drops no more than once: a value that was
/// trimmed when stored is unchanged by trimming it again.
pub proof fn law_trim_end_idempotent(s: Seq<char>)
    ensures
        trim_end_spaces(trim_end_spaces(s)) == trim_end_spaces(s),
    decreases s.len(),
{
    if s.len() > 0 && s.last() == ' ' {
        law_trim_end_idempotent(s.drop_last());
    }
}

/// End of the characters `s[start..end]` once trailing spaces are dropped.
pub fn trim_end_range(s: &Vec<char>, start: usize, end: usize) -> (new_end: usize)
    requires
        start <= end <= s@.len(),
    ensures
        start <= new_end <= end,
        s@.subrange(start as int, new_end as int) == trim_end_spaces(
            s@.subrange(start as int, end as int),
        ),
{
    let mut j: usize = end;
    while j > start && s[j - 1] == ' '
        invariant
            start <= j <= end <= s@.len(),
            trim_end_spaces(s@.subrange(start as int, end as int)) == trim_end_spaces(
                s@.subrange(start as int, j as int),
            ),
        decreases j,
    {
        assert(s@.subrange(start as int, j as int).drop_last() =~= s@.subrange(
            start as int,
            j - 1,
        ));
        j = j - 1;
    }
    j
}

/// `s` with every leading copy of `prefix` removed, as `str::trim_start_matches`
/// does for a non-empty string pattern.
pub open spec fn trim_start_all(s: Seq<char>, prefix: Seq<char>) -> Seq<char>
    recommends
        prefix.len() > 0,
    decreases s.len(),
{
    if prefix.len() > 0 && prefix.len() <= s.len() && s.take(prefix.len() as int) == prefix {
        trim_start_all(s.skip(prefix.len() as int), prefix)
    } else {
        s
    }
}

pub open spec fn is_digit(c: char) -> bool {
    '0' <= c && c <= '9'
}

pub open spec fn digit_value(c: char) -> int {
    c as int - '0' as int
}

/// The number that a string of decimal digits denotes.
pub open spec fn digits_value(s: Seq<char>) -> int
    decreases s.len(),
{
    if s.len() == 0 {
        0
    } else {
        digits_value(s.drop_last()) * 10 + digit_value(s.last())
    }
}

pub open spec fn all_digits(s: Seq<char>) -> bool {
    forall|i: int| 0 <= i < s.len() ==> #[trigger] is_digit(s[i])
}

/// What `str::parse` gives for an integer type whose values are `lo..=hi`:
/// an optional `+` sign (or `-` when the type is signed), then one or more
/// ASCII digits, whose value must lie in the range.
pub open spec fn parse_decimal(s: Seq<char>, signed: bool, lo: int, hi: int) -> Option<int> {
    if s.len() == 0 {
        None
    } else {
        let negative = signed && s[0] == '-';
        let digits = if s[0] == '+' || negative {
            s.drop_first()
        } else {
            s
        };
        let v = if negative {
            -digits_value(digits)
        } else {
            digits_value(digits)
        };
        if digits.len() == 0 || !all_digits(digits) {
            None
        } else if lo <= v <= hi {
            Some(v)
        } else {
            None
        }
    }
}

pub open spec fn parse_i32(s: Seq<char>) -> Option<int> {
    parse_decimal(s, true, i32::MIN as int, i32::MAX as int)
}

pub open spec fn parse_i64(s: Seq<char>) -> Option<int> {
    parse_decimal(s, true, i64::MIN as int, i64::MAX as int)
}

pub open spec fn parse_u32(s: Seq<char>) -> Option<int> {
    parse_decimal(s, false, 0, u32::MAX as int)
}

pub proof fn lemma_digits_value_nonneg(s: Seq<char>)
    requires
        all_digits(s),
    ensures
        digits_value(s) >= 0,
    decreases s.len(),
{
    if s.len() > 0 {
        assert(is_digit(s[s.len() - 1]));
        assert(all_digits(s.drop_last())) by {
            assert forall|i: int| 0 <= i < s.drop_last().len() implies #[trigger] is_digit(
                s.drop_last()[i],
            ) by {
                assert(is_digit(s[i]));
            }
        }
        lemma_digits_value_nonneg(s.drop_last());
    }
}

/// Bound above every magnitude that the callers ask for.
const DIGITS_CAP: u128 = 0x4_0000_0000_0000_0000;

/// Parses `s[start..end]` as `str::parse` does for an integer type with values
/// `lo..=hi`.
pub fn parse_decimal_range(
    s: &Vec<char>,
    start: usize,
    end: usize,
    signed: bool,
    lo: i128,
    hi: i128,
) -> (res: Option<i128>)
    requires
        start <= end <= s@.len(),
        -0x1_0000_0000_0000_0000 <= lo <= 0 <= hi <= 0x1_0000_0000_0000_0000,
    ensures
        res matches Some(v) ==> parse_decimal(
            s@.subrange(start as int, end as int),
            signed,
            lo as int,
            hi as int,
        ) == Some(v as int),
        res is None ==> parse_decimal(
            s@.subrange(start as int, end as int),
            signed,
            lo as int,
            hi as int,
        ) is None,
{
    let ghost text = s@.subrange(start as int, end as int);
    if start == end {
        return None;
    }
    let first = s[start];
    let negative = signed && first == '-';
    let digits_start = if first == '+' || negative {
        start + 1
    } else {
        start
    };
    let ghost digits = s@.subrange(digits_start as int, end as int);
    assert(digits == if first == '+' || negative {
        text.drop_first()
    } else {
        text
    });
    if digits_start == end {
        return None;
    }
    assert(!all_digits(digits) ==> parse_decimal(text, signed, lo as int, hi as int) is None);
    // `acc` is the value of the digits read so far, held at DIGITS_CAP once it
    // reaches it.
    let mut acc: u128 = 0;
    let mut i: usize = digits_start;
    while i < end
        invariant
            digits_start <= i <= end <= s@.len(),
            digits == s@.subrange(digits_start as int, end as int),
            text == s@.subrange(start as int, end as int),
            !all_digits(digits) ==> parse_decimal(text, signed, lo as int, hi as int) is None,
            all_digits(s@.subrange(digits_start as int, i as int)),
            acc <= DIGITS_CAP,
            acc < DIGITS_CAP ==> acc == digits_value(s@.subrange(digits_start as int, i as int)),
            acc == DIGITS_CAP ==> digits_value(s@.subrange(digits_start as int, i as int))
                >= DIGITS_CAP,
        decreases end - i,
    {
        let c = s[i];
        let ghost prefix = s@.subrange(digits_start as int, i as int);
        let ghost next = s@.subrange(digits_start as int, i + 1);
        assert(next.drop_last() =~= prefix);
        assert(next.last() == c);
        if !('0' <= c && c <= '9') {
            assert(!is_digit(digits[i - digits_start]));
            return None;
        }
        let d: u32 = (c as u32) - ('0' as u32);
        assert(all_digits(next)) by {
            assert forall|k: int| 0 <= k < next.len() implies #[trigger] is_digit(next[k]) by {
                if k < prefix.len() {
                    assert(next[k] == prefix[k]);
                }
            }
        }
        proof {
            lemma_digits_value_nonneg(prefix);
        }
        let scaled: u128 = acc * 10 + (d as u128);
        acc = if scaled >= DIGITS_CAP {
            DIGITS_CAP
        } else {
            scaled
        };
        i = i + 1;
    }
    assert(s@.subrange(digits_start as int, i as int) == digits);
    proof {
        lemma_digits_value_nonneg(digits);
    }
    if acc >= DIGITS_CAP {
        return None;
    }
    let magnitude: i128 = acc as i128;
    let v: i128 = if negative {
        -magnitude
    } else {
        magnitude
    };
    if lo <= v && v <= hi {
        Some(v)
    } else {
        None
    }
}

} // verus!

verus! {

/// The characters of `s`.
pub fn chars_of(s: &str) -> (chars: Vec<char>)
    ensures
        chars@ == s@,
{
    let mut chars: Vec<char> = Vec::new();
    for c in it: s.chars()
        invariant
            it.seq() == s@,
            chars@ == s@.take(it.index() as int),
    {
        chars.push(c);
    }
    assert(chars@ =~= s@);
    chars
}

} // verus!
