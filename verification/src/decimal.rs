//! Numbers written in decimal digits, and the whole numbers among them.

use vstd::prelude::*;

verus! {

/// The value of a decimal digit; none for any other character.
pub open spec fn digit_of(c: char) -> Option<nat> {
    if c == '0' {
        Some(0)
    } else if c == '1' {
        Some(1)
    } else if c == '2' {
        Some(2)
    } else if c == '3' {
        Some(3)
    } else if c == '4' {
        Some(4)
    } else if c == '5' {
        Some(5)
    } else if c == '6' {
        Some(6)
    } else if c == '7' {
        Some(7)
    } else if c == '8' {
        Some(8)
    } else if c == '9' {
        Some(9)
    } else {
        None
    }
}

/// The digit that stands for a value below ten.
pub open spec fn digit_char(d: nat) -> char {
    if d == 0 {
        '0'
    } else if d == 1 {
        '1'
    } else if d == 2 {
        '2'
    } else if d == 3 {
        '3'
    } else if d == 4 {
        '4'
    } else if d == 5 {
        '5'
    } else if d == 6 {
        '6'
    } else if d == 7 {
        '7'
    } else if d == 8 {
        '8'
    } else {
        '9'
    }
}

/// Whether every character is a decimal digit.
pub open spec fn all_digits(s: Seq<char>) -> bool {
    forall|i: int| 0 <= i < s.len() ==> digit_of(#[trigger] s[i]) is Some
}

/// The number that a run of digits writes, the first digit counting most.
pub open spec fn decimal_value(digits: Seq<char>) -> nat
    decreases digits.len(),
{
    if digits.len() == 0 {
        0
    } else {
        decimal_value(digits.drop_last()) * 10 + match digit_of(digits.last()) {
            Some(d) => d,
            None => 0,
        }
    }
}

/// The decimal digits of `n`, without leading zeros.
pub open spec fn decimal_text(n: nat) -> Seq<char>
    decreases n,
{
    if n < 10 {
        seq![digit_char(n)]
    } else {
        decimal_text(n / 10).push(digit_char(n % 10))
    }
}

/// The whole number that `text` writes: one or more digits, with a minus
/// sign before them for a negative number. None for any other text.
pub open spec fn integer_literal(text: Seq<char>) -> Option<int> {
    if text.len() > 0 && text[0] == '-' {
        if text.len() > 1 && all_digits(text.skip(1)) {
            Some(-(decimal_value(text.skip(1)) as int))
        } else {
            None
        }
    } else if text.len() > 0 && all_digits(text) {
        Some(decimal_value(text) as int)
    } else {
        None
    }
}

/// The whole number that `text` writes, where it fits sixty-four signed bits.
pub open spec fn integer_within_i64(text: Seq<char>) -> Option<i64> {
    match integer_literal(text) {
        Some(v) => if i64::MIN <= v <= i64::MAX {
            Some(v as i64)
        } else {
            None
        },
        None => None,
    }
}

/// A run of digits writes at least what any of its beginnings writes.
pub proof fn lemma_decimal_value_grows(digits: Seq<char>, k: int)
    requires
        0 <= k <= digits.len(),
    ensures
        decimal_value(digits.take(k)) <= decimal_value(digits),
    decreases digits.len(),
{
    if k == digits.len() {
        assert(digits.take(k) =~= digits);
    } else {
        let front = digits.drop_last();
        lemma_decimal_value_grows(front, k);
        assert(front.take(k) =~= digits.take(k));
    }
}

/// The digits of a number write that number.
pub proof fn lemma_decimal_text_reads_back(n: nat)
    ensures
        all_digits(decimal_text(n)),
        decimal_text(n).len() > 0,
        decimal_value(decimal_text(n)) == n,
    decreases n,
{
    if n < 10 {
        let text = seq![digit_char(n)];
        assert(text.drop_last() =~= Seq::<char>::empty());
        assert(decimal_value(text.drop_last()) == 0);
    } else {
        lemma_decimal_text_reads_back(n / 10);
        let front = decimal_text(n / 10);
        let text = front.push(digit_char(n % 10));
        assert(text.drop_last() =~= front);
        assert forall|i: int| 0 <= i < text.len() implies digit_of(#[trigger] text[i]) is Some by {
            if i < front.len() {
                assert(text[i] == front[i]);
            }
        }
    }
}

/// The value of a decimal digit.
pub fn digit(c: char) -> (r: Option<u8>)
    ensures
        match r {
            Some(d) => digit_of(c) == Some(d as nat),
            None => digit_of(c) is None,
        },
{
    if c == '0' {
        Some(0)
    } else if c == '1' {
        Some(1)
    } else if c == '2' {
        Some(2)
    } else if c == '3' {
        Some(3)
    } else if c == '4' {
        Some(4)
    } else if c == '5' {
        Some(5)
    } else if c == '6' {
        Some(6)
    } else if c == '7' {
        Some(7)
    } else if c == '8' {
        Some(8)
    } else if c == '9' {
        Some(9)
    } else {
        None
    }
}

/// Reads a whole number written in decimal digits, with a minus sign before
/// them for a negative number. The result is none for any other text and for
/// a number that does not fit sixty-four signed bits.
pub fn parse_integer(text: &str) -> (r: Option<i64>)
    ensures
        r == integer_within_i64(text@),
{
    let n = text.unicode_len();
    if n == 0 {
        return None;
    }
    let negative = text.get_char(0) == '-';
    let start: usize = if negative {
        1
    } else {
        0
    };
    if start == n {
        return None;
    }
    let ghost digits = text@.skip(start as int);
    proof {
        if !negative {
            assert(digits =~= text@);
        }
        assert(digits.take(0) =~= Seq::<char>::empty());
    }
    let mut acc: u64 = 0;
    let mut i: usize = start;
    while i < n
        invariant
            start <= i <= n,
            n == text@.len(),
            start < n,
            negative <==> text@[0] == '-',
            start == (if negative {
                1int
            } else {
                0int
            }),
            digits == text@.skip(start as int),
            !negative ==> digits == text@,
            forall|j: int| 0 <= j < i - start ==> digit_of(#[trigger] digits[j]) is Some,
            acc == decimal_value(digits.take(i - start)),
            acc <= 0x8000_0000_0000_0000,
        decreases n - i,
    {
        let c = text.get_char(i);
        proof {
            let next = digits.take(i - start + 1);
            assert(next.drop_last() =~= digits.take(i - start));
            assert(next.last() == c);
            assert(digits[i - start] == c);
        }
        match digit(c) {
            None => {
                assert(digit_of(digits[i - start]) is None);
                return None;
            },
            Some(d) => {
                let next: u128 = acc as u128 * 10 + d as u128;
                if next > 0x8000_0000_0000_0000 {
                    proof {
                        lemma_decimal_value_grows(digits, i - start + 1);
                    }
                    return None;
                }
                acc = next as u64;
            },
        }
        i += 1;
    }
    proof {
        assert(digits.take(n - start) =~= digits);
    }
    if negative {
        if acc == 0x8000_0000_0000_0000 {
            Some(i64::MIN)
        } else {
            Some(-(acc as i64))
        }
    } else if acc == 0x8000_0000_0000_0000 {
        None
    } else {
        Some(acc as i64)
    }
}

/// Index of the first fraction point of `text`, if it has one.
pub open spec fn point_index(text: Seq<char>) -> Option<int>
    decreases text.len(),
{
    if text.len() == 0 {
        None
    } else {
        match point_index(text.drop_last()) {
            Some(i) => Some(i),
            None => if text.last() == '.' {
                Some(text.len() - 1)
            } else {
                None
            },
        }
    }
}

/// Whether every character is the digit zero.
pub open spec fn all_zeros(s: Seq<char>) -> bool {
    forall|i: int| 0 <= i < s.len() ==> #[trigger] s[i] == '0'
}

/// The whole number that a decimal number is, where it has no fractional
/// part: `text` is a whole number in digits, or one followed by a fraction
/// point and one or more zeros. None for a number with a fraction that is
/// not zero and for any other text.
pub open spec fn whole_value(text: Seq<char>) -> Option<int> {
    match point_index(text) {
        None => integer_literal(text),
        Some(k) => if k + 1 < text.len() && all_zeros(text.skip(k + 1)) {
            integer_literal(text.take(k))
        } else {
            None
        },
    }
}

/// The whole number that a decimal number is, where it has no fractional
/// part and fits sixty-four signed bits.
pub open spec fn whole_within_i64(text: Seq<char>) -> Option<i64> {
    match whole_value(text) {
        Some(v) => if i64::MIN <= v <= i64::MAX {
            Some(v as i64)
        } else {
            None
        },
        None => None,
    }
}

/// `point_index` gives the least index that holds a fraction point, and
/// none exactly when no index holds one.
pub proof fn lemma_point_index(text: Seq<char>)
    ensures
        match point_index(text) {
            Some(k) => 0 <= k < text.len() && text[k] == '.' && forall|j: int|
                0 <= j < k ==> text[j] != '.',
            None => forall|j: int| 0 <= j < text.len() ==> text[j] != '.',
        },
    decreases text.len(),
{
    if text.len() > 0 {
        let front = text.drop_last();
        lemma_point_index(front);
        assert(forall|j: int| 0 <= j < front.len() ==> front[j] == text[j]);
    }
}

/// Reads a decimal number that is a whole number: digits, with a minus sign
/// before them for a negative number, and after them at most a fraction
/// point followed by zeros. The result is none for a number with a fraction
/// that is not zero, for any other text, and for a number that does not fit
/// sixty-four signed bits.
pub fn parse_whole(text: &str) -> (r: Option<i64>)
    ensures
        r == whole_within_i64(text@),
{
    let n = text.unicode_len();
    let mut k: usize = 0;
    while k < n && text.get_char(k) != '.'
        invariant
            k <= n,
            n == text@.len(),
            forall|j: int| 0 <= j < k ==> text@[j] != '.',
        decreases n - k,
    {
        k += 1;
    }
    proof {
        lemma_point_index(text@);
    }
    if k == n {
        return parse_integer(text);
    }
    assert(point_index(text@) == Some(k as int));
    if k + 1 == n {
        return None;
    }
    let mut i: usize = k + 1;
    while i < n
        invariant
            k < i <= n,
            n == text@.len(),
            point_index(text@) == Some(k as int),
            forall|j: int| k < j < i ==> text@[j] == '0',
        decreases n - i,
    {
        if text.get_char(i) != '0' {
            assert(text@.skip(k + 1)[i - k - 1] == text@[i as int]);
            return None;
        }
        i += 1;
    }
    proof {
        assert forall|j: int| 0 <= j < text@.skip(k + 1).len() implies #[trigger] text@.skip(
            k + 1,
        )[j] == '0' by {
            assert(text@.skip(k + 1)[j] == text@[j + k + 1]);
        }
        assert(text@.take(k as int) =~= text@.subrange(0, k as int));
    }
    parse_integer(text.substring_char(0, k))
}

/// The text of one decimal digit.
fn digit_text(d: u64) -> (r: &'static str)
    requires
        d < 10,
    ensures
        r@ == seq![digit_char(d as nat)],
{
    proof {
        reveal_strlit("0");
        reveal_strlit("1");
        reveal_strlit("2");
        reveal_strlit("3");
        reveal_strlit("4");
        reveal_strlit("5");
        reveal_strlit("6");
        reveal_strlit("7");
        reveal_strlit("8");
        reveal_strlit("9");
    }
    let r = if d == 0 {
        "0"
    } else if d == 1 {
        "1"
    } else if d == 2 {
        "2"
    } else if d == 3 {
        "3"
    } else if d == 4 {
        "4"
    } else if d == 5 {
        "5"
    } else if d == 6 {
        "6"
    } else if d == 7 {
        "7"
    } else if d == 8 {
        "8"
    } else {
        "9"
    };
    assert(r@ =~= seq![digit_char(d as nat)]);
    r
}

/// Writes an unsigned whole number in decimal digits, without leading zeros.
pub fn write_unsigned(n: u64) -> (r: String)
    ensures
        r@ == decimal_text(n as nat),
    decreases n,
{
    if n < 10 {
        digit_text(n).to_owned()
    } else {
        let mut text = write_unsigned(n / 10);
        text.append(digit_text(n % 10));
        assert(text@ =~= decimal_text((n / 10) as nat).push(digit_char((n % 10) as nat)));
        text
    }
}

} // verus!
