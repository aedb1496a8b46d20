//! Decimal rendering and parsing for the sequential numbering schemes.
//!
//! Content documents, navigation anchors and navigation paths all carry
//! decimal numbers: plain (`playOrder="12"`), or zero-padded to two digits
//! (`c01.xhtml`, `#id03`). The spec-level forms are `dec_digits` and
//! `dec_pad2`; the navigation path logic additionally parses a trailing
//! decimal segment back out of a path string.

use vstd::prelude::*;

verus! {

use vstd::string::StringExecFns;

/// The decimal digit character for `d` in `0..=9`.
pub open spec fn digit_char(d: int) -> char
    recommends
        0 <= d < 10,
{
    ((48 + d) as u8) as char
}

/// The decimal representation of `n`, most significant digit first,
/// without padding or sign.
pub open spec fn dec_digits(n: nat) -> Seq<char>
    decreases n,
{
    if n < 10 {
        seq![digit_char(n as int)]
    } else {
        dec_digits(n / 10).push(digit_char((n % 10) as int))
    }
}

/// The decimal representation of `n`, zero-padded on the left to at
/// least two digits.
pub open spec fn dec_pad2(n: nat) -> Seq<char> {
    if n < 10 {
        seq!['0', digit_char(n as int)]
    } else {
        dec_digits(n)
    }
}

/// Appends the digit character for `d` to `s`.
fn push_digit(s: &mut String, d: u64)
    requires
        d < 10,
    ensures
        final(s)@ == old(s)@.push(digit_char(d as int)),
{
    let digit: &str = match d {
        0 => "0",
        1 => "1",
        2 => "2",
        3 => "3",
        4 => "4",
        5 => "5",
        6 => "6",
        7 => "7",
        8 => "8",
        _ => "9",
    };
    proof {
        reveal_strlit("0");
        reveal_strlit("1");
        reveal_strlit("2");
        reveal_strlit("3");
        reveal_strlit("4");
        reveal_strlit("5");
        reveal_strlit("6");
        reveal_strlit("7");
        reveal_strlit("8");
        reveal_strlit("9");
        assert(digit@ =~= seq![digit_char(d as int)]);
        assert(old(s)@ + digit@ =~= old(s)@.push(digit_char(d as int)));
    }
    s.append(digit);
}

/// Appends the decimal representation of `n` to `s`.
fn append_dec(s: &mut String, n: u64)
    ensures
        final(s)@ == old(s)@ + dec_digits(n as nat),
    decreases n,
{
    if n < 10 {
        push_digit(s, n);
        assert(old(s)@.push(digit_char(n as int)) =~= old(s)@ + dec_digits(n as nat));
    } else {
        append_dec(s, n / 10);
        push_digit(s, n % 10);
        assert((old(s)@ + dec_digits((n / 10) as nat)).push(digit_char((n % 10) as int)) =~= old(
            s,
        )@ + dec_digits(n as nat));
    }
}

/// The decimal representation of `n` as a fresh string.
pub fn dec_string(n: u64) -> (s: String)
    ensures
        s@ == dec_digits(n as nat),
{
    let mut s = String::new();
    append_dec(&mut s, n);
    proof {
        assert(s@ =~= dec_digits(n as nat));
    }
    s
}

/// The decimal representation of `n`, zero-padded to at least two digits.
pub fn dec_pad2_string(n: u64) -> (s: String)
    ensures
        s@ == dec_pad2(n as nat),
{
    let mut s = String::new();
    if n < 10 {
        push_digit(&mut s, 0);
        push_digit(&mut s, n);
        proof {
            assert(s@ =~= dec_pad2(n as nat));
        }
    } else {
        append_dec(&mut s, n);
        proof {
            assert(s@ =~= dec_pad2(n as nat));
        }
    }
    s
}

/// The decimal representation of `n`, zero-padded on the left to at
/// least four digits, as calendar years are written.
pub open spec fn dec_pad4(n: nat) -> Seq<char> {
    if n < 10 {
        seq!['0', '0', '0'] + dec_digits(n)
    } else if n < 100 {
        seq!['0', '0'] + dec_digits(n)
    } else if n < 1000 {
        seq!['0'] + dec_digits(n)
    } else {
        dec_digits(n)
    }
}

/// The decimal representation of `n`, zero-padded to at least four digits.
pub fn dec_pad4_string(n: u64) -> (s: String)
    ensures
        s@ == dec_pad4(n as nat),
{
    let mut s = String::new();
    if n < 10 {
        push_digit(&mut s, 0);
        push_digit(&mut s, 0);
        push_digit(&mut s, 0);
    } else if n < 100 {
        push_digit(&mut s, 0);
        push_digit(&mut s, 0);
    } else if n < 1000 {
        push_digit(&mut s, 0);
    }
    append_dec(&mut s, n);
    proof {
        assert(s@ =~= dec_pad4(n as nat));
    }
    s
}

/// Whether `c` is a decimal digit character.
pub open spec fn is_digit(c: char) -> bool {
    '0' <= c && c <= '9'
}

/// The numeric value of a digit character.
pub open spec fn digit_val(c: char) -> int {
    c as int - 48
}

/// Whether every character of `s` is a decimal digit.
pub open spec fn all_digits(s: Seq<char>) -> bool {
    forall|i: int| 0 <= i < s.len() ==> is_digit(#[trigger] s[i])
}

/// The value of an all-digits sequence read as a decimal number.
pub open spec fn dec_value(s: Seq<char>) -> nat
    decreases s.len(),
{
    if s.len() == 0 {
        0
    } else {
        (dec_value(s.drop_last()) * 10 + digit_val(s.last())) as nat
    }
}

/// What parsing `s` as an unsigned decimal machine integer yields:
/// the value, when `s` is non-empty, all digits, and the value fits;
/// nothing otherwise.
pub open spec fn parse_dec(s: Seq<char>) -> Option<usize> {
    if s.len() > 0 && all_digits(s) && dec_value(s) <= usize::MAX {
        Some(dec_value(s) as usize)
    } else {
        None
    }
}

proof fn lemma_dec_value_take(s: Seq<char>, i: int)
    requires
        0 <= i < s.len(),
        is_digit(s[i]),
    ensures
        dec_value(s.take(i + 1)) == dec_value(s.take(i)) * 10 + digit_val(s[i]),
{
    assert(s.take(i + 1).drop_last() =~= s.take(i));
    assert(s.take(i + 1).last() == s[i]);
}

/// Parses `s` as an unsigned decimal number.
pub fn parse_usize(s: &str) -> (r: Option<usize>)
    ensures
        r == parse_dec(s@),
{
    let len = s.unicode_len();
    if len == 0 {
        return None;
    }
    let mut acc: usize = 0;
    let mut i: usize = 0;
    while i < len
        invariant
            0 < len == s@.len(),
            0 <= i <= len,
            all_digits(s@.take(i as int)),
            acc == dec_value(s@.take(i as int)),
        decreases len - i,
    {
        let c = s.get_char(i);
        if c < '0' || c > '9' {
            assert(!is_digit(s@[i as int]));
            assert(!all_digits(s@));
            return None;
        }
        let d: u128 = (c as u8 - 48) as u128;
        let next: u128 = acc as u128 * 10 + d;
        proof {
            lemma_dec_value_take(s@, i as int);
        }
        if next > usize::MAX as u128 {
            proof {
                if all_digits(s@) {
                    lemma_dec_value_prefix_le(s@, i + 1);
                }
            }
            return None;
        }
        acc = next as usize;
        assert(s@.take(i + 1).take(i as int) =~= s@.take(i as int));
        i = i + 1;
    }
    assert(s@.take(len as int) =~= s@);
    Some(acc)
}

/// A decimal number only grows when more digits follow it.
proof fn lemma_dec_value_prefix_le(s: Seq<char>, i: int)
    requires
        0 <= i <= s.len(),
        all_digits(s),
    ensures
        dec_value(s.take(i)) <= dec_value(s),
    decreases s.len() - i,
{
    if i < s.len() {
        lemma_dec_value_take(s, i);
        lemma_dec_value_prefix_le(s, i + 1);
        assert(digit_val(s[i]) >= 0);
        assert(dec_value(s.take(i)) <= dec_value(s.take(i)) * 10 + digit_val(s[i]));
    } else {
        assert(s.take(i) =~= s);
    }
}

/// The index of the last occurrence of `c` in `s`, if any.
pub open spec fn last_index_of(s: Seq<char>, c: char) -> Option<int>
    decreases s.len(),
{
    if s.len() == 0 {
        None
    } else if s.last() == c {
        Some(s.len() - 1)
    } else {
        last_index_of(s.drop_last(), c)
    }
}

/// A found last occurrence lies inside the sequence.
pub proof fn lemma_last_index_of_range(s: Seq<char>, c: char)
    ensures
        last_index_of(s, c) matches Some(i) ==> 0 <= i < s.len(),
    decreases s.len(),
{
    if s.len() > 0 && s.last() != c {
        lemma_last_index_of_range(s.drop_last(), c);
    }
}

/// Finds the index of the last occurrence of `c` in `s`.
pub fn find_last(s: &str, c: char) -> (r: Option<usize>)
    ensures
        match r {
            Some(i) => last_index_of(s@, c) == Some(i as int),
            None => last_index_of(s@, c) is None,
        },
{
    let len = s.unicode_len();
    proof {
        assert(s@.take(len as int) =~= s@);
    }
    let mut i: usize = len;
    while i > 0
        invariant
            0 <= i <= len == s@.len(),
            last_index_of(s@, c) == last_index_of(s@.take(i as int), c),
        decreases i,
    {
        let here = s.get_char(i - 1);
        proof {
            assert(s@.take(i as int).last() == s@[i - 1]);
            assert(s@.take(i as int).drop_last() =~= s@.take(i - 1));
        }
        if here == c {
            return Some(i - 1);
        }
        i = i - 1;
    }
    proof {
        assert(s@.take(0) =~= Seq::<char>::empty());
    }
    None
}

} // verus!
