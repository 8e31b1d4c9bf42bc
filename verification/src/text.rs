//! Text that the library reads: blank file contents, decimal ids, and the
//! words of a title.

use vstd::prelude::*;
use vstd::std_specs::iter::IteratorSpec;
use vstd::string::StringExecFns;

verus! {

/// The characters with the Unicode property `White_Space`.
pub open spec fn is_white_space(c: char) -> bool {
    let n = c as u32;
    ||| 0x09 <= n <= 0x0D
    ||| n == 0x20
    ||| n == 0x85
    ||| n == 0xA0
    ||| n == 0x1680
    ||| 0x2000 <= n <= 0x200A
    ||| n == 0x2028
    ||| n == 0x2029
    ||| n == 0x202F
    ||| n == 0x205F
    ||| n == 0x3000
}

/// A text is blank when it holds nothing but white space.
pub open spec fn is_blank_text(text: Seq<char>) -> bool {
    forall|i: int| 0 <= i < text.len() ==> is_white_space(#[trigger] text[i])
}

/// Whether the character has the Unicode property `White_Space`.
pub fn is_white_space_char(c: char) -> (white: bool)
    ensures
        white == is_white_space(c),
{
    let n: u32 = c as u32;
    (0x09 <= n && n <= 0x0D) || n == 0x20 || n == 0x85 || n == 0xA0 || n == 0x1680 || (0x2000 <= n
        && n <= 0x200A) || n == 0x2028 || n == 0x2029 || n == 0x202F || n == 0x205F || n == 0x3000
}

/// Whether the text holds nothing but white space.
pub fn is_blank(text: &str) -> (blank: bool)
    ensures
        blank == is_blank_text(text@),
{
    for c in it: text.chars()
        invariant
            it.seq() == text@,
            forall|k: int| 0 <= k < it.index() ==> is_white_space(#[trigger] text@[k]),
    {
        if !is_white_space_char(c) {
            return false;
        }
    }
    true
}

/// The decimal digits `0` to `9`.
pub open spec fn is_digit(c: char) -> bool {
    0x30 <= c as u32 <= 0x39
}

/// The number that a decimal digit stands for.
pub open spec fn digit_value(c: char) -> nat {
    (c as u32 - 0x30) as nat
}

/// Whether the text holds decimal digits only.
pub open spec fn all_digits(digits: Seq<char>) -> bool {
    forall|i: int| 0 <= i < digits.len() ==> is_digit(#[trigger] digits[i])
}

/// The number that a text of decimal digits stands for.
pub open spec fn decimal_value(digits: Seq<char>) -> nat
    decreases digits.len(),
{
    if digits.len() == 0 {
        0
    } else {
        10 * decimal_value(digits.drop_last()) + digit_value(digits.last())
    }
}

/// The text without a leading `+`.
pub open spec fn unsigned_part(text: Seq<char>) -> Seq<char> {
    if text.len() > 0 && text[0] == '+' {
        text.drop_first()
    } else {
        text
    }
}

/// The id that a text stands for: an optional `+`, then at least one decimal
/// digit and nothing else, with a value that fits the id type.
pub open spec fn id_of_text(text: Seq<char>) -> Option<usize> {
    let digits = unsigned_part(text);
    if digits.len() > 0 && all_digits(digits) && decimal_value(digits) <= usize::MAX {
        Some(decimal_value(digits) as usize)
    } else {
        None
    }
}

/// Digits that follow a number never make it smaller.
pub proof fn lemma_value_grows(digits: Seq<char>, k: int)
    requires
        0 <= k <= digits.len(),
    ensures
        decimal_value(digits.take(k)) <= decimal_value(digits),
    decreases digits.len() - k,
{
    if k == digits.len() {
        assert(digits.take(k) =~= digits);
    } else {
        lemma_value_grows(digits.drop_last(), k);
        assert(digits.drop_last().take(k) =~= digits.take(k));
    }
}

/// Reads an id as `id_of_text` defines it.
pub fn parse_id(text: &str) -> (id: Option<usize>)
    ensures
        id == id_of_text(text@),
{
    let ghost start: int = if text@.len() > 0 && text@[0] == '+' {
        1
    } else {
        0
    };
    let ghost digits = unsigned_part(text@);
    let mut value: usize = 0;
    let mut first = true;
    let mut any_digit = false;
    proof {
        assert(digits =~= text@.subrange(start, text@.len() as int));
        assert(digits.take(0) =~= Seq::empty());
    }
    for c in it: text.chars()
        invariant
            it.seq() == text@,
            digits == unsigned_part(text@),
            digits == text@.subrange(start, text@.len() as int),
            start == if text@.len() > 0 && text@[0] == '+' {
                1int
            } else {
                0int
            },
            first == (it.index() == 0),
            it.index() == 0 || start <= it.index(),
            any_digit == (it.index() > start),
            it.index() <= start ==> value == 0,
            it.index() > start ==> value == decimal_value(digits.take(it.index() - start)),
            forall|k: int| 0 <= k < it.index() - start ==> is_digit(#[trigger] digits[k]),
    {
        let ghost at: int = it.index() as int;
        let n: u32 = c as u32;
        if first && c == '+' {
            first = false;
        } else if 0x30 <= n && n <= 0x39 {
            first = false;
            let ghost done = digits.take(at - start);
            let ghost next = digits.take(at - start + 1);
            proof {
                assert(next.drop_last() =~= done);
                assert(next.last() == c);
                assert(decimal_value(next) == 10 * decimal_value(done) + digit_value(c));
                assert(value == decimal_value(done));
                if all_digits(digits) {
                    lemma_value_grows(digits, at - start + 1);
                }
            }
            let digit: usize = (n - 0x30) as usize;
            match value.checked_mul(10) {
                None => {
                    return None;
                },
                Some(tens) => match tens.checked_add(digit) {
                    None => {
                        return None;
                    },
                    Some(sum) => {
                        value = sum;
                        any_digit = true;
                    },
                },
            }
        } else {
            assert(!is_digit(digits[at - start]));
            return None;
        }
    }
    proof {
        assert(digits.take(digits.len() as int) =~= digits);
    }
    if any_digit {
        Some(value)
    } else {
        None
    }
}

/// The words in order, with a single space between neighbours.
pub open spec fn joined(words: Seq<Seq<char>>) -> Seq<char>
    decreases words.len(),
{
    if words.len() == 0 {
        Seq::empty()
    } else if words.len() == 1 {
        words[0]
    } else {
        joined(words.drop_last()) + seq![' '] + words.last()
    }
}

/// The words from place `from` on, joined by single spaces.
pub fn join_words(words: &Vec<String>, from: usize) -> (text: String)
    requires
        from <= words.len(),
    ensures
        text@ == joined(words@.skip(from as int).map_values(|w: String| w@)),
{
    let ghost rest = words@.skip(from as int).map_values(|w: String| w@);
    let mut text = String::new();
    let mut i: usize = from;
    proof {
        assert(rest.take(0) =~= Seq::empty());
    }
    while i < words.len()
        invariant
            from <= i <= words.len(),
            rest == words@.skip(from as int).map_values(|w: String| w@),
            text@ == joined(rest.take(i - from)),
        decreases words.len() - i,
    {
        proof {
            reveal_strlit(" ");
            let upto = rest.take(i - from + 1);
            assert(upto.drop_last() =~= rest.take(i - from));
            assert(upto.last() == words@[i as int]@);
            assert(seq![' '] =~= " "@);
        }
        if i > from {
            text.append(" ");
        }
        text.append(words[i].as_str());
        i += 1;
    }
    proof {
        assert(rest.take(rest.len() as int) =~= rest);
    }
    text
}

/// Whether two texts hold the same characters.
pub fn same_text(a: &str, b: &str) -> (same: bool)
    ensures
        same == (a@ == b@),
{
    broadcast use vstd::string::group_string_axioms;

    let mut left = a.chars();
    let mut right = b.chars();
    let ghost mut k: int = 0;
    proof {
        assert(a@.skip(0) =~= a@);
        assert(b@.skip(0) =~= b@);
    }
    loop
        invariant
            0 <= k <= a@.len(),
            k <= b@.len(),
            left.remaining() == a@.skip(k),
            right.remaining() == b@.skip(k),
            forall|i: int| 0 <= i < k ==> a@[i] == b@[i],
        decreases a@.len() - k,
    {
        let x = left.next();
        let y = right.next();
        match (x, y) {
            (None, None) => {
                assert(a@ =~= b@);
                return true;
            },
            (Some(c), Some(d)) => {
                if c != d {
                    assert(a@[k] != b@[k]);
                    return false;
                }
                proof {
                    assert(a@.skip(k).drop_first() =~= a@.skip(k + 1));
                    assert(b@.skip(k).drop_first() =~= b@.skip(k + 1));
                    k = k + 1;
                }
            },
            _ => {
                assert(a@.len() != b@.len());
                return false;
            },
        }
    }
}

} // verus!
