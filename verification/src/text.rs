//! Character-level reading of notation: the characters of a string, its
//! whitespace-separated fields, and decimal numbers.

use vstd::prelude::*;

verus! {

/// Whether `c` is a white-space character: one of the code points with the
/// Unicode property `White_Space`.
pub open spec fn is_whitespace(c: char) -> bool {
    let n = c as u32;
    ||| 0x09 <= n <= 0x0D
    ||| n == 0x20
    ||| n == 0x85
    ||| n == 0xA0
    ||| n == 0x1680
    ||| 0x2000 <= n <= 0x200A
    ||| n == 0x2028
    ||| n == 0x2029
    ||| n == 0x202F
    ||| n == 0x205F
    ||| n == 0x3000
}

/// The first position at or after `i` that holds no white space, or the
/// length of `s` if there is none.
pub open spec fn field_start(s: Seq<char>, i: int) -> int
    decreases s.len() - i,
{
    if 0 <= i < s.len() && is_whitespace(s[i]) {
        field_start(s, i + 1)
    } else {
        i
    }
}

/// The first position at or after `i` that holds white space, or the length
/// of `s` if there is none.
pub open spec fn field_end(s: Seq<char>, i: int) -> int
    decreases s.len() - i,
{
    if 0 <= i < s.len() && !is_whitespace(s[i]) {
        field_end(s, i + 1)
    } else {
        i
    }
}

/// Where field number `n` of `s` begins and ends, counting fields from 0. A
/// field is a longest run of characters that are not white space. If `s` has
/// no such field, both positions are the length of `s`.
pub open spec fn field_bounds(s: Seq<char>, n: nat) -> (int, int)
    decreases n,
{
    let from = if n == 0 {
        0
    } else {
        field_bounds(s, (n - 1) as nat).1
    };
    let start = field_start(s, from);
    (start, field_end(s, start))
}

/// Field number `n` of `s`, if `s` has that many fields.
pub open spec fn field(s: Seq<char>, n: nat) -> Option<Seq<char>> {
    let (start, end) = field_bounds(s, n);
    if start < s.len() {
        Some(s.subrange(start, end))
    } else {
        None
    }
}

/// The value of a decimal digit.
pub open spec fn digit_value(c: char) -> Option<int> {
    if '0' <= c <= '9' {
        Some(c as int - '0' as int)
    } else {
        None
    }
}

/// Whether every character of `s` is a decimal digit.
pub open spec fn all_digits(s: Seq<char>) -> bool {
    forall|i: int| 0 <= i < s.len() ==> (#[trigger] digit_value(s[i])) is Some
}

/// The number that the digits of `s` write in base ten.
pub open spec fn decimal_value(s: Seq<char>) -> int
    decreases s.len(),
{
    if s.len() == 0 {
        0
    } else {
        10 * decimal_value(s.drop_last()) + match digit_value(s.last()) {
            Some(d) => d,
            None => 0,
        }
    }
}

/// The digits of a number text: the text without its leading `+`, if it has
/// one.
pub open spec fn unsigned_part(s: Seq<char>) -> Seq<char> {
    if s.len() > 0 && s[0] == '+' {
        s.drop_first()
    } else {
        s
    }
}

/// The number from 0 to 255 that `s` writes: an optional `+`, then one or
/// more decimal digits, leading zeros allowed. `None` if `s` has another
/// shape or writes a larger number.
pub open spec fn decimal_u8(s: Seq<char>) -> Option<u8> {
    let digits = unsigned_part(s);
    if digits.len() > 0 && all_digits(digits) && decimal_value(digits) <= 255 {
        Some(decimal_value(digits) as u8)
    } else {
        None
    }
}

/// The decimal digit that writes `d`, for `d` from 0 to 9.
pub open spec fn digit_char(d: int) -> char {
    ('0' as int + d) as char
}

/// The text that writes `n` in base ten, without a sign or leading zeros.
pub open spec fn decimal_text(n: nat) -> Seq<char>
    decreases n,
{
    if n < 10 {
        seq![digit_char(n as int)]
    } else {
        decimal_text(n / 10).push(digit_char((n % 10) as int))
    }
}

/// Returns whether `c` is a white-space character.
pub fn char_is_whitespace(c: char) -> (b: bool)
    ensures
        b == is_whitespace(c),
{
    let n: u32 = c as u32;
    (0x09 <= n && n <= 0x0D) || n == 0x20 || n == 0x85 || n == 0xA0 || n == 0x1680 || (0x2000 <= n
        && n <= 0x200A) || n == 0x2028 || n == 0x2029 || n == 0x202F || n == 0x205F || n == 0x3000
}

/// Returns the characters of `s`, in order.
pub fn chars_of(s: &str) -> (chars: Vec<char>)
    ensures
        chars@ == s@,
{
    let mut chars: Vec<char> = Vec::new();
    for c in it: s.chars()
        invariant
            it.seq() == s@,
            chars@ == s@.take(it.index() as int),
    {
        chars.push(c);
    }
    chars
}

/// Finds the next field of `chars` at or after position `from`: returns
/// where it begins and where it ends. If only white space is left, both are
/// the length of `chars`; if `from` lies beyond the end, both are `from`.
pub fn next_field(chars: &Vec<char>, from: usize) -> (bounds: (usize, usize))
    ensures
        bounds.0 == field_start(chars@, from as int),
        bounds.1 == field_end(chars@, bounds.0 as int),
        from <= bounds.0 <= bounds.1,
        from <= chars.len() ==> bounds.1 <= chars.len(),
        bounds.0 < chars.len() ==> bounds.0 < bounds.1,
{
    let mut start: usize = from;
    while start < chars.len() && char_is_whitespace(chars[start])
        invariant
            from <= start,
            from <= chars.len() ==> start <= chars.len(),
            field_start(chars@, from as int) == field_start(chars@, start as int),
        decreases chars.len() - start,
    {
        start = start + 1;
    }
    let mut end: usize = start;
    while end < chars.len() && !char_is_whitespace(chars[end])
        invariant
            start <= end,
            start <= chars.len() ==> end <= chars.len(),
            field_end(chars@, start as int) == field_end(chars@, end as int),
        decreases chars.len() - end,
    {
        end = end + 1;
    }
    (start, end)
}

/// From `i`, the start of the next field lies at or after `i` and within
/// `s`, only white space stands before it, and it holds a character that is
/// not white space unless `s` ends first.
pub proof fn lemma_field_start(s: Seq<char>, i: int)
    requires
        0 <= i <= s.len(),
    ensures
        i <= field_start(s, i) <= s.len(),
        forall|j: int| i <= j < field_start(s, i) ==> is_whitespace(#[trigger] s[j]),
        field_start(s, i) < s.len() ==> !is_whitespace(s[field_start(s, i)]),
    decreases s.len() - i,
{
    if i < s.len() && is_whitespace(s[i]) {
        lemma_field_start(s, i + 1);
    }
}

/// From `i`, the end of the field lies at or after `i` and within `s`, no
/// white space stands before it, and it holds white space unless `s` ends
/// there.
pub proof fn lemma_field_end(s: Seq<char>, i: int)
    requires
        0 <= i <= s.len(),
    ensures
        i <= field_end(s, i) <= s.len(),
        forall|j: int| i <= j < field_end(s, i) ==> !is_whitespace(#[trigger] s[j]),
        field_end(s, i) < s.len() ==> is_whitespace(s[field_end(s, i)]),
    decreases s.len() - i,
{
    if i < s.len() && !is_whitespace(s[i]) {
        lemma_field_end(s, i + 1);
    }
}

/// A field is a longest run of characters that are not white space: it is
/// not empty, it holds no white space, white space or the end of `s` follows
/// it, and nothing but white space separates it from the field before it or,
/// for the first field, from the start of `s`.
pub proof fn lemma_field_is_a_longest_run(s: Seq<char>, n: nat)
    requires
        field(s, n) is Some,
    ensures
        ({
            let (start, end) = field_bounds(s, n);
            let from = if n == 0 {
                0
            } else {
                field_bounds(s, (n - 1) as nat).1
            };
            &&& 0 <= from <= start < end <= s.len()
            &&& field(s, n) == Some(s.subrange(start, end))
            &&& forall|j: int| start <= j < end ==> !is_whitespace(#[trigger] s[j])
            &&& end < s.len() ==> is_whitespace(s[end])
            &&& forall|j: int| from <= j < start ==> is_whitespace(#[trigger] s[j])
            &&& n > 0 ==> field(s, (n - 1) as nat) is Some
        }),
    decreases n,
{
    lemma_field_bounds_in_range(s, n);
    let from = if n == 0 {
        0
    } else {
        field_bounds(s, (n - 1) as nat).1
    };
    if n > 0 {
        lemma_field_bounds_in_range(s, (n - 1) as nat);
    }
    lemma_field_start(s, from);
    lemma_field_end(s, field_start(s, from));
}

/// The bounds of a field lie within `s`, the start before or at the end.
pub proof fn lemma_field_bounds_in_range(s: Seq<char>, n: nat)
    ensures
        0 <= field_bounds(s, n).0 <= field_bounds(s, n).1 <= s.len(),
    decreases n,
{
    let from = if n == 0 {
        0
    } else {
        field_bounds(s, (n - 1) as nat).1
    };
    if n > 0 {
        lemma_field_bounds_in_range(s, (n - 1) as nat);
    }
    lemma_field_start(s, from);
    lemma_field_end(s, field_start(s, from));
}

/// The digits of a longer text write at least as much as the digits of its
/// beginning.
pub proof fn lemma_decimal_value_grows(s: Seq<char>, n: int)
    requires
        0 <= n <= s.len(),
    ensures
        0 <= decimal_value(s.take(n)) <= decimal_value(s),
    decreases s.len() - n,
{
    if n == s.len() {
        assert(s.take(n) =~= s);
        lemma_decimal_value_nonnegative(s);
    } else {
        assert(s.drop_last().take(n) =~= s.take(n));
        lemma_decimal_value_grows(s.drop_last(), n);
    }
}

/// No digits write a negative number.
pub proof fn lemma_decimal_value_nonnegative(s: Seq<char>)
    ensures
        0 <= decimal_value(s),
    decreases s.len(),
{
    if s.len() > 0 {
        lemma_decimal_value_nonnegative(s.drop_last());
    }
}

/// Reads a number from 0 to 255 written in base ten: an optional `+`, then
/// one or more digits. Returns `None` if `text` has another shape or writes
/// a larger number.
pub fn parse_u8(text: &str) -> (value: Option<u8>)
    ensures
        value == decimal_u8(text@),
{
    let chars = chars_of(text);
    let first: usize = if chars.len() > 0 && chars[0] == '+' {
        1
    } else {
        0
    };
    let ghost digits = unsigned_part(chars@);
    assert(digits =~= chars@.skip(first as int));
    if first == chars.len() {
        return None;
    }
    let mut value: u16 = 0;
    let mut i: usize = first;
    while i < chars.len()
        invariant
            first <= i <= chars.len(),
            digits == unsigned_part(text@),
            digits == chars@.skip(first as int),
            all_digits(digits.take(i - first)),
            value == decimal_value(digits.take(i - first)),
            value <= 255,
        decreases chars.len() - i,
    {
        let c = chars[i];
        if c < '0' || c > '9' {
            assert(digit_value(digits[i - first]) is None);
            return None;
        }
        let d: u16 = (c as u32 - '0' as u32) as u16;
        proof {
            let before = digits.take(i - first);
            let after = digits.take(i - first + 1);
            assert(after.drop_last() =~= before);
            assert(after.last() == c);
            assert(decimal_value(after) == 10 * value + d);
            assert forall|k: int| 0 <= k < after.len() implies (#[trigger] digit_value(after[k]))
                is Some by {
                if k < before.len() {
                    assert(after[k] == before[k]);
                }
            }
        }
        value = 10 * value + d;
        i = i + 1;
        if value > 255 {
            proof {
                lemma_decimal_value_grows(digits, i - first);
            }
            return None;
        }
    }
    assert(digits.take(i - first) =~= digits);
    Some(value as u8)
}

/// Writes `n` in base ten, without a sign or leading zeros.
pub fn u8_to_string(n: u8) -> (text: String)
    ensures
        text@ == decimal_text(n as nat),
{
    let mut text = String::new();
    if n >= 100 {
        text.append(digit_str(n / 100));
    }
    if n >= 10 {
        text.append(digit_str((n / 10) % 10));
    }
    text.append(digit_str(n % 10));
    proof {
        reveal_with_fuel(decimal_text, 3);
        assert(text@ =~= decimal_text(n as nat));
    }
    text
}

/// Returns the text of the decimal digit that writes `d`.
fn digit_str(d: u8) -> (text: &'static str)
    requires
        d <= 9,
    ensures
        text@ == seq![digit_char(d as int)],
{
    proof {
        reveal_strlit("0");
        reveal_strlit("1");
        reveal_strlit("2");
        reveal_strlit("3");
        reveal_strlit("4");
        reveal_strlit("5");
        reveal_strlit("6");
        reveal_strlit("7");
        reveal_strlit("8");
        reveal_strlit("9");
    }
    let text = match d {
        0 => "0",
        1 => "1",
        2 => "2",
        3 => "3",
        4 => "4",
        5 => "5",
        6 => "6",
        7 => "7",
        8 => "8",
        _ => "9",
    };
    assert(text@ =~= seq![digit_char(d as int)]);
    text
}

} // verus!
