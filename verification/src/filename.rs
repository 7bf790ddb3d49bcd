//! The naming convention of dataset files.
//!
//! A file belongs to the dataset when its name contains `webp`. Its label is
//! the decimal integer written before the first underscore of the name, as in
//! `7_left.webp`.

use vstd::prelude::*;

verus! {

/// The text that the name of every dataset file contains.
pub open spec fn marker() -> Seq<char> {
    seq!['w', 'e', 'b', 'p']
}

/// `needle` stands in `hay` at position `at`.
pub open spec fn occurs_at(hay: Seq<char>, needle: Seq<char>, at: int) -> bool {
    &&& 0 <= at
    &&& at + needle.len() <= hay.len()
    &&& forall|j: int| 0 <= j < needle.len() ==> hay[at + j] == needle[j]
}

/// `needle` stands somewhere in `hay`.
pub open spec fn occurs(hay: Seq<char>, needle: Seq<char>) -> bool {
    exists|at: int| occurs_at(hay, needle, at)
}

/// A file of this name belongs to the dataset.
pub open spec fn is_dataset_name(name: Seq<char>) -> bool {
    occurs(name, marker())
}

/// Number of characters of `name` before its first underscore: the whole
/// length where it has none.
pub open spec fn label_len(name: Seq<char>) -> nat
    decreases name.len(),
{
    if name.len() == 0 || name[0] == '_' {
        0
    } else {
        1 + label_len(name.drop_first())
    }
}

/// The part of `name` that holds the label.
pub open spec fn label_text(name: Seq<char>) -> Seq<char> {
    name.take(label_len(name) as int)
}

/// `c` is one of the ten decimal digits.
pub open spec fn is_digit(c: char) -> bool {
    '0' <= c <= '9'
}

/// The number that a decimal digit stands for.
pub open spec fn digit_value(c: char) -> int {
    c as int - '0' as int
}

/// Every character of `text` is a decimal digit.
pub open spec fn all_digits(text: Seq<char>) -> bool {
    forall|i: int| 0 <= i < text.len() ==> is_digit(#[trigger] text[i])
}

/// The number that a run of decimal digits stands for, most significant
/// digit first.
pub open spec fn decimal_value(digits: Seq<char>) -> nat
    decreases digits.len(),
{
    if digits.len() == 0 {
        0
    } else {
        (10 * decimal_value(digits.drop_last()) + digit_value(digits.last())) as nat
    }
}

/// The integer that `text` denotes: an optional `+` or `-`, then one or more
/// decimal digits, with a value that fits in 32 bits. Anything else denotes
/// no integer.
pub open spec fn integer_of(text: Seq<char>) -> Option<int> {
    if text.len() == 0 {
        None
    } else {
        let negative = text[0] == '-';
        let signed = negative || text[0] == '+';
        let digits = if signed {
            text.drop_first()
        } else {
            text
        };
        let value = if negative {
            -(decimal_value(digits) as int)
        } else {
            decimal_value(digits) as int
        };
        if digits.len() > 0 && all_digits(digits) && i32::MIN <= value <= i32::MAX {
            Some(value)
        } else {
            None
        }
    }
}

/// The label that a file name carries, if it carries one.
pub open spec fn label_of(name: Seq<char>) -> Option<int> {
    integer_of(label_text(name))
}

/// A position that ends the leading run of characters other than the
/// underscore is the label's length.
pub proof fn lemma_label_len(name: Seq<char>, end: int)
    requires
        0 <= end <= name.len(),
        forall|j: int| 0 <= j < end ==> name[j] != '_',
        end < name.len() ==> name[end] == '_',
    ensures
        label_len(name) == end,
    decreases end,
{
    if end > 0 {
        let rest = name.drop_first();
        assert forall|j: int| 0 <= j < end - 1 implies rest[j] != '_' by {
            assert(rest[j] == name[j + 1]);
        }
        lemma_label_len(rest, end - 1);
    }
}

/// The label is read from what stands before the first underscore: what
/// follows it does not matter.
pub proof fn lemma_label_ignores_the_rest(text: Seq<char>, rest: Seq<char>)
    requires
        forall|i: int| 0 <= i < text.len() ==> text[i] != '_',
    ensures
        label_of(text) == integer_of(text),
        label_of(text + seq!['_'] + rest) == integer_of(text),
{
    let name = text + seq!['_'] + rest;
    lemma_label_len(text, text.len() as int);
    assert(text.take(text.len() as int) =~= text);
    assert forall|j: int| 0 <= j < text.len() implies name[j] != '_' by {
        assert(name[j] == text[j]);
    }
    assert(name[text.len() as int] == '_');
    lemma_label_len(name, text.len() as int);
    assert(name.take(text.len() as int) =~= text);
}

/// A run of digits followed by one more digit is worth ten times the run plus
/// the digit.
pub proof fn lemma_decimal_value_push(digits: Seq<char>, c: char)
    requires
        is_digit(c),
    ensures
        decimal_value(digits.push(c)) == 10 * decimal_value(digits) + digit_value(c),
{
    assert(digits.push(c).drop_last() =~= digits);
}

/// A run of digits is worth at least as much as each of its prefixes.
pub proof fn lemma_decimal_value_grows(digits: Seq<char>, k: int)
    requires
        all_digits(digits),
        0 <= k <= digits.len(),
    ensures
        decimal_value(digits.take(k)) <= decimal_value(digits),
    decreases digits.len() - k,
{
    if k < digits.len() {
        lemma_decimal_value_grows(digits, k + 1);
        assert(digits.take(k + 1) =~= digits.take(k).push(digits[k]));
        lemma_decimal_value_push(digits.take(k), digits[k]);
    } else {
        assert(digits.take(k) =~= digits);
    }
}

/// The characters of a string, in order.
fn chars_of(text: &str) -> (chars: Vec<char>)
    ensures
        chars@ == text@,
{
    let mut chars: Vec<char> = Vec::new();
    for c in it: text.chars()
        invariant
            it.seq() == text@,
            chars@ == it.seq().take(it.index() as int),
    {
        assert(it.seq().take(it.index() + 1) =~= it.seq().take(it.index() as int).push(c));
        chars.push(c);
    }
    assert(text@.take(text@.len() as int) =~= text@);
    chars
}

/// Tells whether a file of this name belongs to the dataset.
pub fn is_dataset_file(name: &str) -> (found: bool)
    ensures
        found == is_dataset_name(name@),
{
    let chars = chars_of(name);
    let n = chars.len();
    if n < 4 {
        assert forall|at: int| !occurs_at(name@, marker(), at) by {}
        return false;
    }
    let mut i: usize = 0;
    while i <= n - 4
        invariant
            4 <= n == chars.len(),
            chars@ == name@,
            i <= n - 3,
            forall|at: int| 0 <= at < i ==> !occurs_at(name@, marker(), at),
        decreases n - i,
    {
        if chars[i] == 'w' && chars[i + 1] == 'e' && chars[i + 2] == 'b' && chars[i + 3] == 'p' {
            assert(occurs_at(name@, marker(), i as int));
            return true;
        }
        assert(!occurs_at(name@, marker(), i as int)) by {
            if occurs_at(name@, marker(), i as int) {
                assert(name@[i + 0] == marker()[0]);
                assert(name@[i + 1] == marker()[1]);
                assert(name@[i + 2] == marker()[2]);
                assert(name@[i + 3] == marker()[3]);
            }
        }
        i += 1;
    }
    assert forall|at: int| !occurs_at(name@, marker(), at) by {}
    false
}

/// Reads the label that a file name carries: the integer before its first
/// underscore.
pub fn parse_label(name: &str) -> (label: Option<i32>)
    ensures
        match label {
            Some(value) => label_of(name@) == Some(value as int),
            None => label_of(name@) is None,
        },
{
    let chars = chars_of(name);
    let mut end: usize = 0;
    while end < chars.len() && chars[end] != '_'
        invariant
            end <= chars.len(),
            forall|j: int| 0 <= j < end ==> chars@[j] != '_',
        decreases chars.len() - end,
    {
        end += 1;
    }
    proof {
        lemma_label_len(name@, end as int);
    }
    let ghost text = label_text(name@);
    if end == 0 {
        return None;
    }
    let negative = chars[0] == '-';
    let start: usize = if negative || chars[0] == '+' {
        1
    } else {
        0
    };
    let ghost digits = text.skip(start as int);
    assert(digits =~= if start == 1 {
        text.drop_first()
    } else {
        text
    });
    if start == end {
        return None;
    }
    let limit: i64 = if negative {
        2147483648
    } else {
        2147483647
    };
    let mut total: i64 = 0;
    let mut i: usize = start;
    while i < end
        invariant
            start <= i <= end <= chars.len(),
            start < end,
            chars@ == name@,
            text == label_text(name@),
            text == name@.take(end as int),
            negative == (text[0] == '-'),
            start == 1 <==> (text[0] == '-' || text[0] == '+'),
            digits == text.skip(start as int),
            digits == if start == 1 {
                text.drop_first()
            } else {
                text
            },
            all_digits(digits.take(i - start)),
            total == decimal_value(digits.take(i - start)),
            limit == if negative {
                2147483648i64
            } else {
                2147483647i64
            },
            0 <= total <= limit,
        decreases end - i,
    {
        let c = chars[i];
        let ghost seen = digits.take(i - start);
        assert(digits[i - start] == c);
        if !('0' <= c && c <= '9') {
            assert(!all_digits(digits));
            return None;
        }
        let d: i64 = (c as u32 - '0' as u32) as i64;
        assert(digits.take(i - start + 1) =~= seen.push(c));
        proof {
            lemma_decimal_value_push(seen, c);
        }
        let next: i64 = total * 10 + d;
        if next > limit {
            proof {
                if all_digits(digits) {
                    lemma_decimal_value_grows(digits, i - start + 1);
                }
            }
            return None;
        }
        assert forall|j: int| 0 <= j < seen.push(c).len() implies is_digit(
            #[trigger] seen.push(c)[j],
        ) by {
            if j < seen.len() {
                assert(seen.push(c)[j] == seen[j]);
            }
        }
        total = next;
        i += 1;
    }
    assert(digits.take(end - start) =~= digits);
    if negative {
        Some((-total) as i32)
    } else {
        Some(total as i32)
    }
}

} // verus!
