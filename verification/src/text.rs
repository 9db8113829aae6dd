//! Small text utilities shared by the header collection and the message
//! types: ASCII case folding, decimal numbers and slash trimming.

use vstd::prelude::*;
use vstd::string::*;

verus! {

/// Code point of `c` with the ASCII capitals mapped to their small letters.
pub open spec fn lower_code(c: char) -> u32 {
    let n = c as u32;
    if 65 <= n && n <= 90 {
        (n + 32) as u32
    } else {
        n
    }
}

/// The case-folded form of a name: two names denote the same header exactly
/// when their folded forms are equal.
pub open spec fn folded(s: Seq<char>) -> Seq<u32> {
    Seq::new(s.len(), |i: int| lower_code(s[i]))
}

/// Number of bytes that `s` occupies in UTF-8.
pub open spec fn byte_len(s: Seq<char>) -> nat {
    vstd::utf8::encode_utf8(s).len()
}

fn lower(c: char) -> (r: u32)
    ensures
        r == lower_code(c),
{
    let n: u32 = c as u32;
    if 65 <= n && n <= 90 {
        n + 32
    } else {
        n
    }
}

/// Compares two strings, ignoring the case of ASCII letters.
pub fn eq_ignore_case(a: &str, b: &str) -> (r: bool)
    ensures
        r == (folded(a@) == folded(b@)),
{
    let n: usize = a.unicode_len();
    if n != b.unicode_len() {
        assert(folded(a@).len() != folded(b@).len());
        return false;
    }
    let mut i: usize = 0;
    while i < n
        invariant
            i <= n,
            n == a@.len(),
            n == b@.len(),
            forall|j: int| 0 <= j < i ==> lower_code(a@[j]) == lower_code(b@[j]),
        decreases n - i,
    {
        if lower(a.get_char(i)) != lower(b.get_char(i)) {
            assert(folded(a@)[i as int] != folded(b@)[i as int]);
            return false;
        }
        i += 1;
    }
    assert(folded(a@) =~= folded(b@));
    true
}

/// Exact comparison of two string slices.
pub fn str_eq(a: &str, b: &str) -> (r: bool)
    ensures
        r == (a@ == b@),
{
    let n: usize = a.unicode_len();
    if n != b.unicode_len() {
        return false;
    }
    let mut i: usize = 0;
    while i < n
        invariant
            i <= n,
            n == a@.len(),
            n == b@.len(),
            forall|j: int| 0 <= j < i ==> a@[j] == b@[j],
        decreases n - i,
    {
        if a.get_char(i) != b.get_char(i) {
            return false;
        }
        i += 1;
    }
    assert(a@ =~= b@);
    true
}

/// `s` without the slashes it starts with.
pub open spec fn without_leading_slashes(s: Seq<char>) -> Seq<char>
    decreases s.len(),
{
    if s.len() > 0 && s[0] == '/' {
        without_leading_slashes(s.subrange(1, s.len() as int))
    } else {
        s
    }
}

/// Removes every slash at the start of `s`.
pub fn trim_leading_slashes(s: &str) -> (r: &str)
    ensures
        r@ == without_leading_slashes(s@),
{
    let n: usize = s.unicode_len();
    let mut i: usize = 0;
    assert(s@.subrange(0, n as int) =~= s@);
    while i < n && s.get_char(i) == '/'
        invariant
            i <= n,
            n == s@.len(),
            without_leading_slashes(s@) == without_leading_slashes(s@.subrange(i as int, n as int)),
        decreases n - i,
    {
        assert(s@.subrange(i as int, n as int).subrange(1, n - i) =~= s@.subrange(
            i + 1,
            n as int,
        ));
        i += 1;
    }
    s.substring_char(i, n)
}

/// The character for a single decimal digit.
pub open spec fn digit_char(d: nat) -> char {
    if d == 0 {
        '0'
    } else if d == 1 {
        '1'
    } else if d == 2 {
        '2'
    } else if d == 3 {
        '3'
    } else if d == 4 {
        '4'
    } else if d == 5 {
        '5'
    } else if d == 6 {
        '6'
    } else if d == 7 {
        '7'
    } else if d == 8 {
        '8'
    } else {
        '9'
    }
}

/// The value of a decimal digit, if `c` is one.
pub open spec fn digit_value(c: char) -> Option<nat> {
    let n = c as u32;
    if 48 <= n && n <= 57 {
        Some((n - 48) as nat)
    } else {
        None
    }
}

/// The shortest decimal numeral for `n`.
pub open spec fn decimal(n: nat) -> Seq<char>
    decreases n,
{
    if n < 10 {
        seq![digit_char(n)]
    } else {
        decimal(n / 10).push(digit_char(n % 10))
    }
}

/// The number that a run of decimal digits denotes; the empty run denotes
/// zero, and a run holding anything but digits denotes nothing.
pub open spec fn digits_value(s: Seq<char>) -> Option<nat>
    decreases s.len(),
{
    if s.len() == 0 {
        Some(0)
    } else {
        match (digits_value(s.drop_last()), digit_value(s.last())) {
            (Some(p), Some(d)) => Some(p * 10 + d),
            _ => None,
        }
    }
}

/// The number that a decimal numeral denotes: one or more digits and
/// nothing else.
pub open spec fn parse_decimal(s: Seq<char>) -> Option<nat> {
    if s.len() == 0 {
        None
    } else {
        digits_value(s)
    }
}

/// What `parse_number` returns for the text `s`: the number it denotes,
/// provided that it fits the machine word.
pub open spec fn parse_number_spec(s: Seq<char>) -> Option<usize> {
    match parse_decimal(s) {
        Some(v) => if v <= usize::MAX {
            Some(v as usize)
        } else {
            None
        },
        None => None,
    }
}

fn digit_str(d: usize) -> (r: &'static str)
    requires
        d < 10,
    ensures
        r@ == seq![digit_char(d as nat)],
{
    proof {
        reveal_strlit("0");
        reveal_strlit("1");
        reveal_strlit("2");
        reveal_strlit("3");
        reveal_strlit("4");
        reveal_strlit("5");
        reveal_strlit("6");
        reveal_strlit("7");
        reveal_strlit("8");
        reveal_strlit("9");
    }
    let r = if d == 0 {
        "0"
    } else if d == 1 {
        "1"
    } else if d == 2 {
        "2"
    } else if d == 3 {
        "3"
    } else if d == 4 {
        "4"
    } else if d == 5 {
        "5"
    } else if d == 6 {
        "6"
    } else if d == 7 {
        "7"
    } else if d == 8 {
        "8"
    } else {
        "9"
    };
    assert(r@ =~= seq![digit_char(d as nat)]);
    r
}

/// Writes `n` as a decimal numeral.
pub fn format_number(n: usize) -> (r: String)
    ensures
        r@ == decimal(n as nat),
    decreases n,
{
    if n < 10 {
        String::from_str(digit_str(n))
    } else {
        let mut s = format_number(n / 10);
        s.append(digit_str(n % 10));
        assert(s@ =~= decimal(n as nat));
        s
    }
}

/// A run of digits denotes at least what any of its prefixes denotes.
proof fn lemma_digits_value_prefix(s: Seq<char>, i: int)
    requires
        0 <= i <= s.len(),
        digits_value(s) is Some,
    ensures
        digits_value(s.take(i)) is Some,
        digits_value(s.take(i))->0 <= digits_value(s)->0,
    decreases s.len() - i,
{
    if i == s.len() {
        assert(s.take(i) =~= s);
    } else {
        lemma_digits_value_prefix(s.drop_last(), i);
        assert(s.drop_last().take(i) =~= s.take(i));
    }
}

/// Reads a decimal numeral: `None` when `s` is empty, holds anything but
/// digits, or denotes a number too large for the machine word.
pub fn parse_number(s: &str) -> (r: Option<usize>)
    ensures
        r == parse_number_spec(s@),
{
    let n: usize = s.unicode_len();
    if n == 0 {
        return None;
    }
    let mut acc: usize = 0;
    let mut i: usize = 0;
    while i < n
        invariant
            i <= n,
            n == s@.len(),
            digits_value(s@.take(i as int)) == Some(acc as nat),
        decreases n - i,
    {
        let c: u32 = s.get_char(i) as u32;
        proof {
            assert(s@.take(i + 1).drop_last() =~= s@.take(i as int));
            assert(s@.take(i + 1).last() == s@[i as int]);
        }
        if c < 48 || c > 57 {
            proof {
                assert(digits_value(s@.take(i + 1)) is None);
                if digits_value(s@) is Some {
                    lemma_digits_value_prefix(s@, i + 1);
                }
            }
            return None;
        }
        let d: usize = (c - 48) as usize;
        if acc > (usize::MAX - d) / 10 {
            proof {
                assert(acc * 10 + d > usize::MAX);
                if digits_value(s@) is Some {
                    lemma_digits_value_prefix(s@, i + 1);
                }
            }
            return None;
        }
        acc = acc * 10 + d;
        i += 1;
    }
    assert(s@.take(n as int) =~= s@);
    Some(acc)
}

/// Reading back a written number gives the number.
pub proof fn lemma_decimal_round_trip(n: nat)
    ensures
        decimal(n).len() > 0,
        parse_decimal(decimal(n)) == Some(n),
    decreases n,
{
    if n < 10 {
        let s = decimal(n);
        assert(s.drop_last() =~= Seq::<char>::empty());
        assert(digits_value(s.drop_last()) == Some(0nat));
        assert(s.last() == digit_char(n));
    } else {
        lemma_decimal_round_trip(n / 10);
        let s = decimal(n);
        assert(s.drop_last() =~= decimal(n / 10));
        assert(s.last() == digit_char(n % 10));
    }
}

/// Space or horizontal tab.
pub open spec fn is_blank(c: char) -> bool {
    c == ' ' || c == '\t'
}

/// Number of characters of `s` before its first semicolon; the length of
/// `s` when it has none.
pub open spec fn parameters_start(s: Seq<char>) -> int
    decreases s.len(),
{
    if s.len() == 0 || s[0] == ';' {
        0
    } else {
        1 + parameters_start(s.drop_first())
    }
}

/// `s` without the blanks at its two ends.
pub open spec fn trimmed(s: Seq<char>) -> Seq<char>
    decreases s.len(),
{
    if s.len() > 0 && is_blank(s[0]) {
        trimmed(s.drop_first())
    } else if s.len() > 0 && is_blank(s.last()) {
        trimmed(s.drop_last())
    } else {
        s
    }
}

/// The media type that a `Content-Type` value names: what stands before the
/// parameters, without blanks around it.
pub open spec fn media_type(value: Seq<char>) -> Seq<char> {
    trimmed(value.take(parameters_start(value)))
}

/// Extracts the media type of a `Content-Type` value.
pub fn media_type_of(value: &str) -> (r: &str)
    ensures
        r@ == media_type(value@),
{
    let n: usize = value.unicode_len();
    let mut end: usize = 0;
    assert(value@.subrange(0, n as int) =~= value@);
    while end < n && value.get_char(end) != ';'
        invariant
            end <= n,
            n == value@.len(),
            parameters_start(value@) == end + parameters_start(value@.subrange(end as int, n as int)),
        decreases n - end,
    {
        assert(value@.subrange(end as int, n as int).drop_first() =~= value@.subrange(
            end + 1,
            n as int,
        ));
        end += 1;
    }
    assert(parameters_start(value@) == end);
    let ghost head = value@.take(end as int);
    let mut lo: usize = 0;
    assert(head.subrange(0, end as int) =~= head);
    while lo < end && is_blank_char(value.get_char(lo))
        invariant
            lo <= end <= n,
            n == value@.len(),
            head == value@.take(end as int),
            trimmed(head) == trimmed(head.subrange(lo as int, end as int)),
        decreases end - lo,
    {
        assert(head.subrange(lo as int, end as int).drop_first() =~= head.subrange(
            lo + 1,
            end as int,
        ));
        lo += 1;
    }
    let mut hi: usize = end;
    while lo < hi && is_blank_char(value.get_char(hi - 1))
        invariant
            lo <= hi <= end <= n,
            n == value@.len(),
            head == value@.take(end as int),
            lo == end || !is_blank(value@[lo as int]),
            trimmed(head) == trimmed(head.subrange(lo as int, hi as int)),
        decreases hi - lo,
    {
        assert(head.subrange(lo as int, hi as int).drop_last() =~= head.subrange(
            lo as int,
            hi - 1,
        ));
        hi -= 1;
    }
    assert(head.subrange(lo as int, hi as int) =~= value@.subrange(lo as int, hi as int));
    value.substring_char(lo, hi)
}

fn is_blank_char(c: char) -> (r: bool)
    ensures
        r == is_blank(c),
{
    c == ' ' || c == '\t'
}

/// Whether a `Content-Type` value names one of the two media types of
/// URL-encoded form data, letter for letter.
pub open spec fn is_form_content_type(value: Seq<char>) -> bool {
    media_type(value) == "application/x-www-form-urlencoded"@ || media_type(value)
        == "application/x-url-encoded"@
}

/// Tells whether a `Content-Type` value announces URL-encoded form data.
pub fn names_form_data(value: &str) -> (r: bool)
    ensures
        r == is_form_content_type(value@),
{
    let essence = media_type_of(value);
    str_eq(essence, "application/x-www-form-urlencoded") || str_eq(
        essence,
        "application/x-url-encoded",
    )
}

} // verus!
