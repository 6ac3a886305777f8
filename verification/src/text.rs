//! Text rules that the other modules share: equality, prefixes, trimming, decimal numbers and
//! ASCII letter case.

use vstd::prelude::*;

verus! {

broadcast use vstd::string::group_string_axioms;

/// The lower-case form of one character; only the ASCII letters have one of their own.
pub open spec fn ascii_lower_char(c: char) -> char {
    if 'A' <= c <= 'Z' {
        ((c as u32) + 32) as char
    } else {
        c
    }
}

/// The text with every ASCII letter in lower case.
pub open spec fn ascii_lower(text: Seq<char>) -> Seq<char> {
    text.map_values(|c: char| ascii_lower_char(c))
}

/// Puts one character into lower case.
fn to_lower_char(c: char) -> (lower: char)
    ensures
        lower == ascii_lower_char(c),
{
    if 'A' <= c && c <= 'Z' {
        (c as u8 + 32) as char
    } else {
        c
    }
}

/// Whether two texts are the same once their ASCII letters are in lower case.
pub fn same_in_any_case(text: &str, other: &str) -> (same: bool)
    ensures
        same == (ascii_lower(text@) == ascii_lower(other@)),
{
    let mut left = text.chars();
    let mut right = other.chars();
    let ghost mut done: int = 0;
    loop
        invariant
            0 <= done <= text@.len(),
            done <= other@.len(),
            vstd::std_specs::iter::IteratorSpec::remaining(&left) == text@.skip(done),
            vstd::std_specs::iter::IteratorSpec::remaining(&right) == other@.skip(done),
            forall|i: int|
                0 <= i < done ==> ascii_lower(text@)[i] == #[trigger] ascii_lower(other@)[i],
        decreases text@.len() - done,
    {
        let a = left.next();
        let b = right.next();
        match (a, b) {
            (None, None) => {
                assert(ascii_lower(text@) =~= ascii_lower(other@));
                return true;
            },
            (Some(c), Some(d)) => {
                if to_lower_char(c) != to_lower_char(d) {
                    assert(ascii_lower(text@)[done] != ascii_lower(other@)[done]);
                    return false;
                }
                proof {
                    assert(text@.skip(done).drop_first() =~= text@.skip(done + 1));
                    assert(other@.skip(done).drop_first() =~= other@.skip(done + 1));
                    done = done + 1;
                }
            },
            _ => {
                assert(ascii_lower(text@).len() != ascii_lower(other@).len());
                return false;
            },
        }
    }
}

/// Whether two texts are the same, character by character.
pub fn same_text(text: &str, other: &str) -> (same: bool)
    ensures
        same == (text@ == other@),
{
    let mut left = text.chars();
    let mut right = other.chars();
    let ghost mut done: int = 0;
    loop
        invariant
            0 <= done <= text@.len(),
            done <= other@.len(),
            vstd::std_specs::iter::IteratorSpec::remaining(&left) == text@.skip(done),
            vstd::std_specs::iter::IteratorSpec::remaining(&right) == other@.skip(done),
            forall|i: int| 0 <= i < done ==> text@[i] == other@[i],
        decreases text@.len() - done,
    {
        let a = left.next();
        let b = right.next();
        match (a, b) {
            (None, None) => {
                assert(text@ =~= other@);
                return true;
            },
            (Some(c), Some(d)) => {
                if c != d {
                    assert(text@[done] != other@[done]);
                    return false;
                }
                proof {
                    assert(text@.skip(done).drop_first() =~= text@.skip(done + 1));
                    assert(other@.skip(done).drop_first() =~= other@.skip(done + 1));
                    done = done + 1;
                }
            },
            _ => {
                assert(text@.len() != other@.len());
                return false;
            },
        }
    }
}

/// Whether `text` begins with `prefix`.
pub fn has_prefix(text: &str, prefix: &str) -> (found: bool)
    ensures
        found == prefix@.is_prefix_of(text@),
{
    let mut rest = text.chars();
    let mut wanted = prefix.chars();
    let ghost mut done: int = 0;
    loop
        invariant
            0 <= done <= text@.len(),
            done <= prefix@.len(),
            vstd::std_specs::iter::IteratorSpec::remaining(&rest) == text@.skip(done),
            vstd::std_specs::iter::IteratorSpec::remaining(&wanted) == prefix@.skip(done),
            forall|i: int| 0 <= i < done ==> text@[i] == prefix@[i],
        decreases prefix@.len() - done,
    {
        match wanted.next() {
            None => {
                assert(prefix@ =~= text@.subrange(0, prefix@.len() as int));
                return true;
            },
            Some(c) => {
                match rest.next() {
                    None => {
                        return false;
                    },
                    Some(d) => {
                        if c != d {
                            assert(text@[done] != prefix@[done]);
                            return false;
                        }
                        proof {
                            assert(text@.skip(done).drop_first() =~= text@.skip(done + 1));
                            assert(prefix@.skip(done).drop_first() =~= prefix@.skip(done + 1));
                            done = done + 1;
                        }
                    },
                }
            },
        }
    }
}

/// The text without the run of `mark` characters at its end.
pub open spec fn trimmed_end(text: Seq<char>, mark: char) -> Seq<char>
    decreases text.len(),
{
    if text.len() > 0 && text.last() == mark {
        trimmed_end(text.drop_last(), mark)
    } else {
        text
    }
}

/// Cuts every trailing `mark` off `text`.
pub fn trim_end(text: &str, mark: char) -> (kept: String)
    ensures
        kept@ == trimmed_end(text@, mark),
{
    let mut end: usize = text.unicode_len();
    assert(text@.take(end as int) =~= text@);
    while end > 0 && text.get_char(end - 1) == mark
        invariant
            end <= text@.len(),
            trimmed_end(text@, mark) == trimmed_end(text@.take(end as int), mark),
        decreases end,
    {
        assert(text@.take(end as int).drop_last() =~= text@.take(end - 1));
        end = end - 1;
    }
    text.substring_char(0, end).to_owned()
}

/// The value of a run of decimal digits.
pub open spec fn digits_value(digits: Seq<char>) -> nat
    decreases digits.len(),
{
    if digits.len() == 0 {
        0
    } else {
        10 * digits_value(digits.drop_last()) + (digits.last() as nat - '0' as nat) as nat
    }
}

/// Whether a text is a non-empty run of decimal digits.
pub open spec fn is_digits(text: Seq<char>) -> bool {
    text.len() > 0 && forall|i: int| 0 <= i < text.len() ==> '0' <= #[trigger] text[i] <= '9'
}

/// The number that a text writes in decimal: digits only, after one optional plus sign, and no
/// larger than `max`.
pub open spec fn decimal_number(text: Seq<char>, max: nat) -> Option<nat> {
    let digits = if text.len() > 0 && text[0] == '+' {
        text.skip(1)
    } else {
        text
    };
    if is_digits(digits) && digits_value(digits) <= max {
        Some(digits_value(digits))
    } else {
        None
    }
}

/// A run of digits is worth at least as much as each of its beginnings.
proof fn lemma_digits_value_grows(digits: Seq<char>, len: int)
    requires
        0 <= len <= digits.len(),
    ensures
        digits_value(digits.take(len)) <= digits_value(digits),
    decreases digits.len() - len,
{
    if len == digits.len() {
        assert(digits.take(len) =~= digits);
    } else {
        lemma_digits_value_grows(digits, len + 1);
        assert(digits.take(len + 1).drop_last() =~= digits.take(len));
    }
}

/// Reads a decimal number of at most `max`.
pub fn parse_decimal(text: &str, max: u64) -> (number: Option<u64>)
    ensures
        match number {
            Some(n) => decimal_number(text@, max as nat) == Some(n as nat),
            None => decimal_number(text@, max as nat) is None,
        },
{
    let mut rest = text.chars();
    let mut pending: Option<char> = rest.next();
    let ghost digits = if text@.len() > 0 && text@[0] == '+' {
        text@.skip(1)
    } else {
        text@
    };
    assert(text@.skip(0) =~= text@);
    assert(text@.len() > 0 ==> text@.drop_first() =~= text@.skip(1));
    if pending == Some('+') {
        pending = rest.next();
        assert(digits.len() > 0 ==> digits.drop_first() =~= digits.skip(1));
    }
    if pending.is_none() {
        return None;
    }
    let mut value: u64 = 0;
    let ghost mut done: int = 0;
    assert(digits.take(0) =~= Seq::<char>::empty());
    loop
        invariant
            0 <= done <= digits.len(),
            digits.len() > 0,
            digits == (if text@.len() > 0 && text@[0] == '+' {
                text@.skip(1)
            } else {
                text@
            }),
            match pending {
                Some(d) => {
                    &&& done < digits.len() && d == digits[done]
                    &&& vstd::std_specs::iter::IteratorSpec::remaining(&rest) == digits.skip(
                        done + 1,
                    )
                },
                None => {
                    &&& done == digits.len()
                    &&& vstd::std_specs::iter::IteratorSpec::remaining(&rest).len() == 0
                },
            },
            forall|i: int| 0 <= i < done ==> '0' <= #[trigger] digits[i] <= '9',
            value == digits_value(digits.take(done)),
            value <= max,
        decreases digits.len() - done,
    {
        match pending {
            None => {
                assert(digits.take(done) =~= digits);
                return Some(value);
            },
            Some(c) => {
                if c < '0' || c > '9' {
                    assert(!is_digits(digits));
                    return None;
                }
                let digit: u64 = (c as u32 - '0' as u32) as u64;
                proof {
                    assert(digits.take(done + 1).drop_last() =~= digits.take(done));
                    assert(digits_value(digits.take(done + 1)) == 10 * value + digit);
                    lemma_digits_value_grows(digits, done + 1);
                }
                if value > max / 10 || digit > max - value * 10 {
                    return None;
                }
                value = value * 10 + digit;
                pending = rest.next();
                proof {
                    assert(digits.skip(done + 1).len() > 0 ==> digits.skip(done + 1).drop_first()
                        =~= digits.skip(done + 2));
                    done = done + 1;
                }
            },
        }
    }
}

/// Two texts are the same but for letter case exactly if they have the same length, and characters
/// at the same place are the same or the two cases of one ASCII letter.
pub proof fn letter_case_is_that_of_ascii(text: Seq<char>, other: Seq<char>)
    ensures
        ascii_lower(text) == ascii_lower(other) <==> text.len() == other.len() && forall|i: int|
            0 <= i < text.len() ==> {
                let c = #[trigger] text[i];
                let d = other[i];
                ||| c == d
                ||| 'A' <= c <= 'Z' && d as int == c as int + 32
                ||| 'A' <= d <= 'Z' && c as int == d as int + 32
            },
        ascii_lower(text).len() == text.len(),
        forall|i: int|
            0 <= i < text.len() ==> !('A' <= #[trigger] ascii_lower(text)[i] <= 'Z'),
{
    let low = ascii_lower(text);
    let other_low = ascii_lower(other);
    assert(forall|i: int| 0 <= i < text.len() ==> low[i] == ascii_lower_char(#[trigger] text[i]));
    assert(forall|i: int|
        0 <= i < other.len() ==> other_low[i] == ascii_lower_char(#[trigger] other[i]));
    assert(low.len() == text.len() && other_low.len() == other.len());
    if low == other_low {
        assert forall|i: int| 0 <= i < text.len() implies {
            let c = #[trigger] text[i];
            let d = other[i];
            ||| c == d
            ||| 'A' <= c <= 'Z' && d as int == c as int + 32
            ||| 'A' <= d <= 'Z' && c as int == d as int + 32
        } by {
            assert(low[i] == other_low[i]);
            assert(low[i] == ascii_lower_char(text[i]));
            assert(other_low[i] == ascii_lower_char(other[i]));
        }
    }
    if text.len() == other.len() && forall|i: int|
        0 <= i < text.len() ==> {
            let c = #[trigger] text[i];
            let d = other[i];
            ||| c == d
            ||| 'A' <= c <= 'Z' && d as int == c as int + 32
            ||| 'A' <= d <= 'Z' && c as int == d as int + 32
        } {
        assert forall|i: int| 0 <= i < low.len() implies low[i] == other_low[i] by {
            assert(low[i] == ascii_lower_char(text[i]));
            assert(other_low[i] == ascii_lower_char(other[i]));
        }
        assert(low =~= other_low);
    }
}

/// Trimming takes away marks and nothing else, and all of them: what is left is the beginning of
/// the text, what is gone is a run of marks, and no mark stands at the end any more.
pub proof fn trimming_takes_all_marks_and_no_more(text: Seq<char>, mark: char)
    ensures
        trimmed_end(text, mark).len() <= text.len(),
        forall|i: int|
            0 <= i < trimmed_end(text, mark).len() ==> #[trigger] trimmed_end(text, mark)[i]
                == text[i],
        forall|i: int|
            trimmed_end(text, mark).len() <= i < text.len() ==> #[trigger] text[i] == mark,
        trimmed_end(text, mark).len() > 0 ==> trimmed_end(text, mark).last() != mark,
    decreases text.len(),
{
    if text.len() > 0 && text.last() == mark {
        let shorter = text.drop_last();
        trimming_takes_all_marks_and_no_more(shorter, mark);
        assert(forall|i: int| 0 <= i < shorter.len() ==> #[trigger] shorter[i] == text[i]);
        assert forall|i: int| trimmed_end(text, mark).len() <= i < text.len() implies
            #[trigger] text[i] == mark by {
            if i < shorter.len() {
                assert(shorter[i] == mark);
            }
        }
    }
}

/// The numeral of one digit is worth that digit.
pub proof fn one_digit_is_worth_itself(digit: char, max: nat)
    requires
        '0' <= digit <= '9',
    ensures
        decimal_number(seq![digit], max) == (if digit as int - '0' as int <= max {
            Some((digit as int - '0' as int) as nat)
        } else {
            None
        }),
{
    let text = seq![digit];
    assert(text.drop_last() =~= Seq::<char>::empty());
    assert(digits_value(text.drop_last()) == 0);
    assert(text[0] != '+');
    assert(is_digits(text));
}

/// A further character at the end of a numeral multiplies it by ten and adds to it, if it is a
/// digit and the sum is not too large; else there is no numeral.
pub proof fn one_more_digit_counts_ten_times(text: Seq<char>, next: char, max: nat, wide: nat)
    requires
        decimal_number(text, wide) is Some,
    ensures
        ({
            let sum = 10 * decimal_number(text, wide)->0 + (next as int - '0' as int);
            decimal_number(text.push(next), max) == (if '0' <= next <= '9' && sum <= max {
                Some(sum as nat)
            } else {
                None
            })
        }),
{
    let longer = text.push(next);
    let digits = if text[0] == '+' {
        text.skip(1)
    } else {
        text
    };
    let more = if longer[0] == '+' {
        longer.skip(1)
    } else {
        longer
    };
    assert(text.len() > 0);
    assert(longer[0] == text[0]);
    assert(more =~= digits.push(next));
    assert(more.drop_last() =~= digits);
    assert(more.last() == next);
    if '0' <= next <= '9' {
        assert forall|i: int| 0 <= i < more.len() implies '0' <= #[trigger] more[i] <= '9' by {
            if i < digits.len() {
                assert(more[i] == digits[i]);
            }
        }
    } else {
        assert(!is_digits(more)) by {
            assert(more[more.len() - 1] == next);
        }
    }
}

/// No numeral is empty, holds anything but digits behind an optional plus sign, or is worth more
/// than its limit; the plus sign does not change what a numeral is worth, nor does the limit.
pub proof fn numerals_are_digits_within_a_limit(text: Seq<char>, max: nat, other_max: nat, at: int)
    ensures
        text.len() == 0 ==> decimal_number(text, max) is None,
        0 <= at < text.len() && !('0' <= text[at] <= '9') && !(at == 0 && text[0] == '+')
            ==> decimal_number(text, max) is None,
        decimal_number(text, max) matches Some(n) ==> n <= max && (n <= other_max
            ==> decimal_number(text, other_max) == Some(n)),
        decimal_number(seq!['+'], max) is None,
        text.len() > 0 && text[0] == '+' ==> decimal_number(seq!['+'] + text, max) is None,
        text.len() > 0 && text[0] != '+' ==> decimal_number(seq!['+'] + text, max)
            == decimal_number(text, max),
{
    let signed = seq!['+'] + text;
    assert(signed[0] == '+');
    assert(signed.skip(1) =~= text);
    assert(seq!['+'].skip(1) =~= Seq::<char>::empty());
    assert(seq!['+'][0] == '+');
    if 0 <= at < text.len() && !('0' <= text[at] <= '9') && !(at == 0 && text[0] == '+') {
        if text[0] == '+' {
            assert(text.skip(1)[at - 1] == text[at]);
            assert(!is_digits(text.skip(1)));
        } else {
            assert(!is_digits(text));
        }
    }
    if text.len() > 0 && text[0] == '+' {
        assert(signed.skip(1)[0] == '+');
        assert(!is_digits(signed.skip(1)));
    }
}

} // verus!
