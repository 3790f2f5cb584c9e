//! The text of a query string: splitting it into fields and reading the
//! numbers in them.

use vstd::prelude::*;
use vstd::std_specs::iter::IteratorSpec;

verus! {

broadcast use vstd::string::group_string_axioms;

/// The pieces of `s` that the occurrences of `sep` part. There is one piece
/// more than there are separators, so a text without separator is one piece
/// and the empty text is one empty piece.
pub open spec fn split(s: Seq<char>, sep: char) -> Seq<Seq<char>>
    decreases s.len(),
{
    if s.len() == 0 {
        seq![Seq::<char>::empty()]
    } else {
        let init = split(s.drop_last(), sep);
        if s.last() == sep {
            init.push(Seq::<char>::empty())
        } else {
            init.update(init.len() - 1, init.last().push(s.last()))
        }
    }
}

pub open spec fn is_digit(c: char) -> bool {
    '0' <= c && c <= '9'
}

/// The number written by the decimal digits `digits`, most significant first.
pub open spec fn digits_value(digits: Seq<char>) -> nat
    decreases digits.len(),
{
    if digits.len() == 0 {
        0
    } else {
        (digits_value(digits.drop_last()) * 10 + (digits.last() as int - '0' as int)) as nat
    }
}

pub open spec fn all_digits(digits: Seq<char>) -> bool {
    forall|i: int| 0 <= i < digits.len() ==> is_digit(#[trigger] digits[i])
}

/// `text` without the `+` that it may begin with.
pub open spec fn unsigned(text: Seq<char>) -> Seq<char> {
    if text.len() > 0 && text[0] == '+' {
        text.drop_first()
    } else {
        text
    }
}

/// The number that `text` writes in decimal: one or more digits, with at most
/// one `+` in front of them. No other text writes a number.
pub open spec fn decimal(text: Seq<char>) -> Option<nat> {
    let digits = unsigned(text);
    if digits.len() > 0 && all_digits(digits) {
        Some(digits_value(digits))
    } else {
        None
    }
}

/// The number that `text` writes, where it lies between `lo` and `hi`.
pub open spec fn number_in(text: Seq<char>, lo: usize, hi: usize) -> Option<usize> {
    match decimal(text) {
        Some(n) => if lo <= n <= hi {
            Some(n as usize)
        } else {
            None
        },
        None => None,
    }
}

/// The characters of `s`, one by one.
pub fn chars_of(s: &str) -> (v: Vec<char>)
    ensures
        v@ == s@,
{
    let mut v: Vec<char> = Vec::new();
    let mut it = s.chars();
    loop
        invariant
            it.obeys_prophetic_iter_laws(),
            it.decrease() is Some,
            v@ + it.remaining() == s@,
        decreases it.decrease()->0,
    {
        match it.next() {
            Some(c) => {
                v.push(c);
            },
            None => {
                return v;
            },
        }
    }
}

/// Where `c` first occurs in `chars` between `start` and `end`.
pub fn find(chars: &Vec<char>, start: usize, end: usize, c: char) -> (r: Option<usize>)
    requires
        start <= end <= chars.len(),
    ensures
        match chars@.subrange(start as int, end as int).index_of_first(c) {
            Some(k) => 0 <= k < end - start && r == Some((start + k) as usize),
            None => r is None,
        },
{
    let ghost field = chars@.subrange(start as int, end as int);
    let mut i: usize = start;
    while i < end
        invariant
            start <= i <= end <= chars.len(),
            field == chars@.subrange(start as int, end as int),
            forall|j: int| 0 <= j < i - start ==> field[j] != c,
        decreases end - i,
    {
        if chars[i] == c {
            proof {
                assert(field[i - start] == c);
                field.index_of_first_ensures(c);
            }
            return Some(i);
        }
        i += 1;
    }
    proof {
        field.index_of_first_ensures(c);
    }
    None
}

/// Whether `chars` between `start` and `end` spells `word`.
pub fn is_word(chars: &Vec<char>, start: usize, end: usize, word: &str) -> (b: bool)
    requires
        start <= end <= chars.len(),
    ensures
        b == (chars@.subrange(start as int, end as int) == word@),
{
    let letters = chars_of(word);
    let n: usize = letters.len();
    if end - start != n {
        return false;
    }
    let ghost field = chars@.subrange(start as int, end as int);
    let mut i: usize = 0;
    while i < n
        invariant
            start <= end <= chars.len(),
            end - start == n,
            n == letters.len(),
            letters@ == word@,
            i <= n,
            field == chars@.subrange(start as int, end as int),
            forall|j: int| 0 <= j < i ==> field[j] == letters[j],
        decreases n - i,
    {
        if chars[start + i] != letters[i] {
            assert(field[i as int] != letters[i as int]);
            return false;
        }
        i += 1;
    }
    assert(field =~= letters@);
    true
}

/// Reads the number written between `start` and `end`, where it lies between
/// `lo` and `hi`.
pub fn read_number(chars: &Vec<char>, start: usize, end: usize, lo: usize, hi: usize) -> (r:
    Option<usize>)
    requires
        start <= end <= chars.len(),
    ensures
        r == number_in(chars@.subrange(start as int, end as int), lo, hi),
{
    let ghost text = chars@.subrange(start as int, end as int);
    let first: usize = if start < end && chars[start] == '+' {
        start + 1
    } else {
        start
    };
    let ghost digits = chars@.subrange(first as int, end as int);
    assert(digits == unsigned(text));
    if first == end {
        return None;
    }
    // `value` is what the digits read so far write, as long as that is no
    // more than `hi`; beyond `hi` it does not matter how far beyond.
    let mut value: usize = 0;
    let mut beyond: bool = false;
    let mut i: usize = first;
    while i < end
        invariant
            start <= first <= i <= end <= chars.len(),
            text == chars@.subrange(start as int, end as int),
            digits == chars@.subrange(first as int, end as int),
            digits == unsigned(text),
            forall|j: int| 0 <= j < i - first ==> is_digit(#[trigger] digits[j]),
            !beyond ==> value == digits_value(digits.take(i - first)) && value <= hi,
            beyond ==> digits_value(digits.take(i - first)) > hi,
        decreases end - i,
    {
        let c: char = chars[i];
        if !('0' <= c && c <= '9') {
            assert(digits[i - first] == c);
            assert(!all_digits(digits));
            return None;
        }
        proof {
            let next = digits.take(i - first + 1);
            assert(next.drop_last() == digits.take(i - first));
            assert(next.last() == c);
        }
        let d: usize = (c as u32 - '0' as u32) as usize;
        if beyond || d > hi || value > (hi - d) / 10 {
            beyond = true;
        } else {
            value = value * 10 + d;
        }
        i += 1;
    }
    assert(digits.take(end - first) == digits);
    if !beyond && lo <= value {
        Some(value)
    } else {
        None
    }
}

} // verus!
