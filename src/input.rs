use crate::text::{alphanumeric_char, is_alphanumeric, is_whitespace, whitespace_char};
use vstd::prelude::*;

verus! {

/// Longest new-level size entry, in characters.
pub const SIZE_INPUT_MAX: usize = 3;

/// Longest level name entry, in characters.
pub const NAME_INPUT_MAX: usize = 11;

/// Longest level comment, in characters.
pub const COMMENT_INPUT_MAX: usize = 19;


pub open spec fn all_alphanumeric(s: Seq<char>) -> bool {
    forall|i: int| 0 <= i < s.len() ==> alphanumeric_char(#[trigger] s[i])
}

/// Every character is a letter, a digit or whitespace.
pub open spec fn all_comment_chars(s: Seq<char>) -> bool {
    forall|i: int| 0 <= i < s.len() ==> alphanumeric_char(#[trigger] s[i]) || whitespace_char(s[i])
}

/// The text after typing `new` into a field holding `old` that takes at most
/// `max` characters: all of `new` when it is allowed and fits, else nothing.
pub open spec fn typed(old: Seq<char>, new: Seq<char>, allowed: bool, max: nat) -> Seq<char> {
    if allowed && old.len() + new.len() <= max {
        old + new
    } else {
        old
    }
}

fn check_all(text: &str, class: u8) -> (r: bool)
    requires
        class <= 2,
    ensures
        class == 0 ==> r == is_decimal(text@),
        class == 1 ==> r == all_alphanumeric(text@),
        class == 2 ==> r == all_comment_chars(text@),
{
    let n = text.unicode_len();
    let mut i: usize = 0;
    while i < n
        invariant
            n == text@.len(),
            i <= n,
            class <= 2,
            class == 0 ==> forall|j: int| 0 <= j < i ==> '0' <= #[trigger] text@[j] <= '9',
            class == 1 ==> forall|j: int| 0 <= j < i ==> alphanumeric_char(#[trigger] text@[j]),
            class == 2 ==> forall|j: int|
                0 <= j < i ==> alphanumeric_char(#[trigger] text@[j]) || whitespace_char(
                    text@[j],
                ),
        decreases n - i,
    {
        let c = text.get_char(i);
        let ok = if class == 0 {
            '0' <= c && c <= '9'
        } else if class == 1 {
            is_alphanumeric(c)
        } else {
            is_alphanumeric(c) || is_whitespace(c)
        };
        if !ok {
            return false;
        }
        i = i + 1;
    }
    true
}

fn append_if_fits(new_text: &str, target_text: &mut String, allowed: bool, max: usize)
    ensures
        final(target_text)@ == typed(old(target_text)@, new_text@, allowed, max as nat),
{
    let old_len = target_text.as_str().unicode_len();
    let new_len = new_text.unicode_len();
    if allowed && old_len <= max && new_len <= max - old_len {
        target_text.append(new_text);
        assert(target_text@ == old(target_text)@ + new_text@);
    }
}

/// Appends typed text to a size field: only ASCII digits, at most 3 characters in all;
/// text that breaks either rule is dropped whole.
pub fn sanitize_numeric_input(new_text: &str, target_text: &mut String)
    ensures
        final(target_text)@ == typed(
            old(target_text)@,
            new_text@,
            is_decimal(new_text@),
            SIZE_INPUT_MAX as nat,
        ),
{
    let allowed = check_all(new_text, 0);
    append_if_fits(new_text, target_text, allowed, SIZE_INPUT_MAX);
}

/// Appends typed text to a level name: only letters and digits, at most 11
/// characters in all; text that breaks either rule is dropped whole.
pub fn sanitize_level_name_input(new_text: &str, target_text: &mut String)
    ensures
        final(target_text)@ == typed(
            old(target_text)@,
            new_text@,
            all_alphanumeric(new_text@),
            NAME_INPUT_MAX as nat,
        ),
{
    let allowed = check_all(new_text, 1);
    append_if_fits(new_text, target_text, allowed, NAME_INPUT_MAX);
}

/// Appends typed text to a level comment: only letters, digits and
/// whitespace, at most 19 characters in all; text that breaks a rule is dropped whole.
pub fn sanitize_level_comment_input(new_text: &str, target_text: &mut String)
    ensures
        final(target_text)@ == typed(
            old(target_text)@,
            new_text@,
            all_comment_chars(new_text@),
            COMMENT_INPUT_MAX as nat,
        ),
{
    let allowed = check_all(new_text, 2);
    append_if_fits(new_text, target_text, allowed, COMMENT_INPUT_MAX);
}

/// Whether every character is an ASCII digit.
pub open spec fn is_decimal(s: Seq<char>) -> bool {
    forall|i: int| 0 <= i < s.len() ==> '0' <= #[trigger] s[i] <= '9'
}

/// The number that a string of ASCII digits spells.
pub open spec fn decimal_value(s: Seq<char>) -> int
    decreases s.len(),
{
    if s.len() == 0 {
        0
    } else {
        decimal_value(s.drop_last()) * 10 + (s.last() as int - '0' as int)
    }
}

/// The size a field holds: a non-empty run of ASCII digits worth at most 255.
pub open spec fn size_value(s: Seq<char>) -> Option<u8> {
    if s.len() > 0 && is_decimal(s) && decimal_value(s) <= 255 {
        Some(decimal_value(s) as u8)
    } else {
        None
    }
}

proof fn lemma_decimal_value_nonneg(s: Seq<char>)
    requires
        is_decimal(s),
    ensures
        decimal_value(s) >= 0,
        decimal_value(s.drop_last()) <= decimal_value(s) || s.len() == 0,
    decreases s.len(),
{
    if s.len() > 0 {
        assert(is_decimal(s.drop_last()));
        lemma_decimal_value_nonneg(s.drop_last());
    }
}

/// Reads a size field.
pub fn parse_size(s: &String) -> (r: Option<u8>)
    ensures
        r == size_value(s@),
{
    let text = s.as_str();
    let n = text.unicode_len();
    if n == 0 {
        return None;
    }
    let mut value: u32 = 0;
    let mut i: usize = 0;
    while i < n
        invariant
            n == s@.len(),
            text@ == s@,
            i <= n,
            value <= 255,
            is_decimal(s@.take(i as int)),
            value == decimal_value(s@.take(i as int)),
        decreases n - i,
    {
        let c = text.get_char(i);
        proof {
            assert(s@.take(i + 1).drop_last() =~= s@.take(i as int));
        }
        if c < '0' || c > '9' {
            proof {
                assert(!is_decimal(s@)) by {
                    assert(s@[i as int] == c);
                }
            }
            return None;
        }
        let digit = (c as u32) - ('0' as u32);
        let next = value * 10 + digit;
        if next > 255 {
            proof {
                assert(is_decimal(s@.take(i + 1)));
                assert(decimal_value(s@.take(i + 1)) == next);
                lemma_grows(s@, i + 1, n as int);
                assert(s@.take(n as int) =~= s@);
            }
            return None;
        }
        value = next;
        proof {
            assert(is_decimal(s@.take(i + 1)));
        }
        i = i + 1;
    }
    proof {
        assert(s@.take(n as int) =~= s@);
    }
    Some(value as u8)
}

/// Appending digits never makes the value smaller.
proof fn lemma_grows(s: Seq<char>, a: int, b: int)
    requires
        0 <= a <= b <= s.len(),
        is_decimal(s.take(a)),
    ensures
        is_decimal(s) ==> decimal_value(s.take(a)) <= decimal_value(s.take(b)),
    decreases b - a,
{
    if is_decimal(s) && a < b {
        lemma_grows(s, a, b - 1);
        let t = s.take(b);
        assert(t.drop_last() =~= s.take(b - 1));
        assert(is_decimal(s.take(b - 1)));
        lemma_decimal_value_nonneg(s.take(b - 1));
        assert('0' <= s[b - 1] <= '9');
    }
}

} // verus!
