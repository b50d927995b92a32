//! Reading what the player typed: whitespace, decimal numbers and yes-or-no answers.

use vstd::prelude::*;

verus! {

/// True for the characters that count as white space: the Unicode property `White_Space`.
pub open spec fn is_space(c: char) -> bool {
    let n = c as u32;
    ||| 0x09 <= n <= 0x0D
    ||| n == 0x20
    ||| n == 0x85
    ||| n == 0xA0
    ||| n == 0x1680
    ||| 0x2000 <= n <= 0x200A
    ||| n == 0x2028
    ||| n == 0x2029
    ||| n == 0x202F
    ||| n == 0x205F
    ||| n == 0x3000
}

/// `s` without the white space at its start.
pub open spec fn trim_start(s: Seq<char>) -> Seq<char>
    decreases s.len(),
{
    if s.len() > 0 && is_space(s[0]) {
        trim_start(s.skip(1))
    } else {
        s
    }
}

/// `s` without the white space at its end.
pub open spec fn trim_end(s: Seq<char>) -> Seq<char>
    decreases s.len(),
{
    if s.len() > 0 && is_space(s.last()) {
        trim_end(s.drop_last())
    } else {
        s
    }
}

/// `s` without the white space at its start and at its end.
pub open spec fn trimmed(s: Seq<char>) -> Seq<char> {
    trim_end(trim_start(s))
}

/// True for the ten decimal digits.
pub open spec fn is_digit(c: char) -> bool {
    '0' <= c <= '9'
}

/// The number that a decimal digit stands for; zero for any other character.
pub open spec fn digit_value(c: char) -> nat {
    if is_digit(c) {
        (c as u32 - '0' as u32) as nat
    } else {
        0
    }
}

/// True when every character of `s` is a decimal digit.
pub open spec fn all_digits(s: Seq<char>) -> bool {
    forall|i: int| 0 <= i < s.len() ==> is_digit(#[trigger] s[i])
}

/// The number that a sequence of decimal digits stands for, the most significant first.
pub open spec fn decimal_value(s: Seq<char>) -> nat
    decreases s.len(),
{
    if s.len() == 0 {
        0
    } else {
        decimal_value(s.drop_last()) * 10 + digit_value(s.last())
    }
}

/// The number that `s` denotes, where `s` is one or more decimal digits whose value
/// fits in 32 bits.
pub open spec fn digits_value(s: Seq<char>) -> Option<u32> {
    if s.len() > 0 && all_digits(s) && decimal_value(s) <= u32::MAX {
        Some(decimal_value(s) as u32)
    } else {
        None
    }
}

/// The number that `s` denotes as typed text: an optional `+`, then one or more
/// decimal digits whose value fits in 32 bits. Leading zeros are in order.
pub open spec fn unsigned_decimal(s: Seq<char>) -> Option<u32> {
    if s.len() > 0 && s[0] == '+' {
        digits_value(s.skip(1))
    } else {
        digits_value(s)
    }
}

/// The label that a typed line denotes: the number that is left when the white space
/// around it is taken away.
pub open spec fn typed_label(line: Seq<char>) -> Option<u32> {
    unsigned_decimal(trimmed(line))
}

/// The number that `s` denotes as a key of a document: one or more decimal digits
/// whose value fits in 32 bits, with no sign and no needless leading zero.
pub open spec fn canonical_decimal(s: Seq<char>) -> Option<u32> {
    if s.len() > 1 && s[0] == '0' {
        None
    } else {
        digits_value(s)
    }
}

/// True when a typed line says yes: `y` or `Y`, with any white space around it.
pub open spec fn says_yes(line: Seq<char>) -> bool {
    trimmed(line) == seq!['y'] || trimmed(line) == seq!['Y']
}

/// Where the first `k` characters of `s` are white space and the next one is not,
/// trimming the start leaves what follows them.
proof fn lemma_trim_start(s: Seq<char>, k: int)
    requires
        0 <= k <= s.len(),
        forall|j: int| 0 <= j < k ==> is_space(#[trigger] s[j]),
        k < s.len() ==> !is_space(s[k]),
    ensures
        trim_start(s) == s.skip(k),
    decreases k,
{
    if k == 0 {
        assert(s.skip(0) =~= s);
    } else {
        let rest = s.skip(1);
        assert forall|j: int| 0 <= j < k - 1 implies is_space(#[trigger] rest[j]) by {
            assert(rest[j] == s[j + 1]);
        }
        lemma_trim_start(rest, k - 1);
        assert(rest.skip(k - 1) =~= s.skip(k));
    }
}

/// Where all characters of `s` from position `k` on are white space and the one before
/// is not, trimming the end leaves what precedes them.
proof fn lemma_trim_end(s: Seq<char>, k: int)
    requires
        0 <= k <= s.len(),
        forall|j: int| k <= j < s.len() ==> is_space(#[trigger] s[j]),
        0 < k ==> !is_space(s[k - 1]),
    ensures
        trim_end(s) == s.take(k),
    decreases s.len() - k,
{
    if k == s.len() {
        assert(s.take(k) =~= s);
    } else {
        let rest = s.drop_last();
        assert(is_space(s[s.len() - 1]));
        assert forall|j: int| k <= j < rest.len() implies is_space(#[trigger] rest[j]) by {
            assert(rest[j] == s[j]);
        }
        lemma_trim_end(rest, k);
        assert(rest.take(k) =~= s.take(k));
    }
}

/// The value of a prefix is never greater than the value of the whole.
proof fn lemma_decimal_value_grows(s: Seq<char>, k: int)
    requires
        0 <= k <= s.len(),
    ensures
        decimal_value(s.take(k)) <= decimal_value(s),
    decreases s.len() - k,
{
    if k == s.len() {
        assert(s.take(k) =~= s);
    } else {
        lemma_decimal_value_grows(s.drop_last(), k);
        assert(s.drop_last().take(k) =~= s.take(k));
    }
}

/// Whether `c` counts as white space.
pub fn is_whitespace(c: char) -> (space: bool)
    ensures
        space == is_space(c),
{
    let n: u32 = c as u32;
    (0x09 <= n && n <= 0x0D) || n == 0x20 || n == 0x85 || n == 0xA0 || n == 0x1680 || (0x2000 <= n
        && n <= 0x200A) || n == 0x2028 || n == 0x2029 || n == 0x202F || n == 0x205F || n == 0x3000
}

/// The characters of `text`, in order.
fn chars_of(text: &str) -> (chars: Vec<char>)
    ensures
        chars@ == text@,
{
    let mut chars: Vec<char> = Vec::new();
    for c in it: text.chars()
        invariant
            chars@ == it.seq().take(it.index()),
            it.seq() == text@,
    {
        chars.push(c);
    }
    chars
}

/// The bounds of what is left of `chars` when the white space around it is taken away.
fn trim_bounds(chars: &Vec<char>) -> (bounds: (usize, usize))
    ensures
        bounds.0 <= bounds.1 <= chars@.len(),
        trimmed(chars@) == chars@.subrange(bounds.0 as int, bounds.1 as int),
{
    let mut start: usize = 0;
    while start < chars.len() && is_whitespace(chars[start])
        invariant
            start <= chars.len(),
            forall|j: int| 0 <= j < start ==> is_space(#[trigger] chars@[j]),
        decreases chars.len() - start,
    {
        start += 1;
    }
    let mut end: usize = chars.len();
    while end > start && is_whitespace(chars[end - 1])
        invariant
            start <= end <= chars.len(),
            forall|j: int| end <= j < chars.len() ==> is_space(#[trigger] chars@[j]),
        decreases end,
    {
        end -= 1;
    }
    proof {
        let s = chars@;
        lemma_trim_start(s, start as int);
        let rest = s.skip(start as int);
        assert forall|j: int| end - start <= j < rest.len() implies is_space(#[trigger] rest[j]) by {
            assert(rest[j] == s[j + start]);
        }
        if end > start {
            assert(rest[end - start - 1] == s[end - 1]);
        }
        lemma_trim_end(rest, end - start);
        assert(rest.take(end - start) =~= s.subrange(start as int, end as int));
    }
    (start, end)
}

/// The number that the characters of `chars` from `start` up to `end` denote.
fn digits_in(chars: &Vec<char>, start: usize, end: usize) -> (value: Option<u32>)
    requires
        start <= end <= chars@.len(),
    ensures
        value == digits_value(chars@.subrange(start as int, end as int)),
{
    let ghost s = chars@.subrange(start as int, end as int);
    if start == end {
        return None;
    }
    let mut value: u32 = 0;
    let mut i: usize = start;
    assert(s.take(0) =~= Seq::empty());
    while i < end
        invariant
            start <= i <= end <= chars@.len(),
            s == chars@.subrange(start as int, end as int),
            all_digits(s.take(i - start)),
            value == decimal_value(s.take(i - start)),
        decreases end - i,
    {
        let c = chars[i];
        let ghost seen = s.take(i - start);
        let ghost grown = s.take(i - start + 1);
        assert(grown.drop_last() =~= seen);
        assert(grown.last() == c);
        if !('0' <= c && c <= '9') {
            assert(!is_digit(s[i - start]));
            return None;
        }
        let digit: u32 = c as u32 - '0' as u32;
        if value > (u32::MAX - digit) / 10 {
            proof {
                lemma_decimal_value_grows(s, i - start + 1);
            }
            return None;
        }
        value = value * 10 + digit;
        assert forall|j: int| 0 <= j < grown.len() implies is_digit(#[trigger] grown[j]) by {
            if j < seen.len() {
                assert(grown[j] == seen[j]);
            }
        }
        i += 1;
    }
    assert(s.take(end - start) =~= s);
    Some(value)
}

/// Reads a typed line as a label: white space around the number is ignored, a `+`
/// before the digits is in order, and a number that does not fit in 32 bits is no label.
pub fn parse_label(line: &str) -> (label: Option<u32>)
    ensures
        label == typed_label(line@),
{
    let chars = chars_of(line);
    let (start, end) = trim_bounds(&chars);
    let ghost t = chars@.subrange(start as int, end as int);
    if start < end && chars[start] == '+' {
        assert(t[0] == chars@[start as int]);
        assert(t.skip(1) =~= chars@.subrange(start + 1, end as int));
        digits_in(&chars, start + 1, end)
    } else {
        assert(start < end ==> t[0] == chars@[start as int]);
        digits_in(&chars, start, end)
    }
}

/// Reads a key of a document as a label: digits only, with no sign, no white space and
/// no needless leading zero.
pub fn parse_key(key: &str) -> (label: Option<u32>)
    ensures
        label == canonical_decimal(key@),
{
    let chars = chars_of(key);
    assert(chars@.subrange(0, chars@.len() as int) =~= chars@);
    if chars.len() > 1 && chars[0] == '0' {
        None
    } else {
        digits_in(&chars, 0, chars.len())
    }
}

/// Whether a typed line says yes.
pub fn is_yes(line: &str) -> (yes: bool)
    ensures
        yes == says_yes(line@),
{
    let chars = chars_of(line);
    let (start, end) = trim_bounds(&chars);
    let ghost t = chars@.subrange(start as int, end as int);
    if end - start == 1 {
        let c = chars[start];
        assert(t[0] == c);
        assert(c == 'y' ==> t =~= seq!['y']);
        assert(c == 'Y' ==> t =~= seq!['Y']);
        assert(seq!['y'][0] == 'y' && seq!['Y'][0] == 'Y');
        c == 'y' || c == 'Y'
    } else {
        assert(seq!['y'].len() == 1 && seq!['Y'].len() == 1);
        false
    }
}

} // verus!
