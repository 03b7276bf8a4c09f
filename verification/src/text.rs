//! Text helpers: UTF-8 decoding and string building.

use vstd::prelude::*;
use vstd::utf8::{decode_utf8, valid_utf8};

verus! {

/// Decodes `bytes` as UTF-8 with `std::str::from_utf8`.
///
/// Trusted: `from_utf8` succeeds exactly on well-formed UTF-8 (no overlong
/// forms, no surrogates, nothing above U+10FFFF), which is what
/// `vstd::utf8::valid_utf8` describes, and then yields the characters that the
/// bytes encode.
#[verifier::external_body]
pub(crate) fn utf8_decode(bytes: &[u8]) -> (res: Option<&str>)
    ensures
        res is Some <==> valid_utf8(bytes@),
        res matches Some(s) ==> s@ == decode_utf8(bytes@),
{
    std::str::from_utf8(bytes).ok()
}

} // verus!

verus! {

/// The character of the decimal digit `d` (`0 <= d < 10`).
pub open spec fn digit_char(d: nat) -> char {
    (48 + d) as char
}

/// The character of the lowercase hexadecimal digit `d` (`0 <= d < 16`).
pub open spec fn hex_digit_char(d: nat) -> char {
    if d < 10 {
        (48 + d) as char
    } else {
        (87 + d) as char
    }
}

/// The decimal representation of `n`, without sign or leading zeros.
pub open spec fn decimal(n: nat) -> Seq<char>
    decreases n,
{
    if n < 10 {
        seq![digit_char(n)]
    } else {
        decimal(n / 10).push(digit_char(n % 10))
    }
}

/// `0x` followed by the two lowercase hexadecimal digits of `b`
/// (the `{:#04x}` form of a byte).
pub open spec fn hex_byte(b: u8) -> Seq<char> {
    seq!['0', 'x', hex_digit_char((b / 16) as nat), hex_digit_char((b % 16) as nat)]
}

/// Appends the character `c` to `s` with `String::push`.
///
/// Trusted: `push` appends exactly that one character.
#[verifier::external_body]
pub(crate) fn push_char(s: &mut String, c: char)
    ensures
        final(s)@ == old(s)@.push(c),
{
    s.push(c)
}

/// Appends the string `t` to `s`.
pub fn push_str(s: &mut String, t: &str)
    ensures
        final(s)@ == old(s)@ + t@,
{
    s.append(t);
}

/// Appends the decimal representation of `n` to `s`.
pub fn push_decimal(s: &mut String, n: u64)
    ensures
        final(s)@ == old(s)@ + decimal(n as nat),
    decreases n,
{
    if n >= 10 {
        push_decimal(s, n / 10);
    }
    let d = (n % 10) as u8;
    let c = (48u8 + d) as char;
    assert(c == digit_char((n % 10) as nat));
    push_char(s, c);
    proof {
        if n >= 10 {
            assert(decimal(n as nat) == decimal((n / 10) as nat).push(digit_char((n % 10) as nat)));
        } else {
            assert(decimal(n as nat) == seq![digit_char(n as nat)]);
        }
    }
    assert(s@ =~= old(s)@ + decimal(n as nat));
}

/// Appends the `{:#04x}` form of the byte `b` to `s`.
pub fn push_hex_byte(s: &mut String, b: u8)
    ensures
        final(s)@ == old(s)@ + hex_byte(b),
{
    push_char(s, '0');
    push_char(s, 'x');
    push_char(s, hex_digit(b / 16));
    push_char(s, hex_digit(b % 16));
    assert(s@ =~= old(s)@ + hex_byte(b));
}

fn hex_digit(d: u8) -> (c: char)
    requires
        d < 16,
    ensures
        c == hex_digit_char(d as nat),
{
    if d < 10 {
        (48u8 + d) as char
    } else {
        (87u8 + d) as char
    }
}

} // verus!

verus! {

/// The `{:?}` text of a byte list: the decimal values, separated by `", "`,
/// in square brackets.
pub open spec fn byte_list_text(b: Seq<u8>) -> Seq<char> {
    "["@ + byte_list_items(b) + "]"@
}

/// The decimal values of `b`, separated by `", "`.
pub open spec fn byte_list_items(b: Seq<u8>) -> Seq<char>
    decreases b.len(),
{
    if b.len() == 0 {
        seq![]
    } else if b.len() == 1 {
        decimal(b[0] as nat)
    } else {
        byte_list_items(b.drop_last()) + ", "@ + decimal(b.last() as nat)
    }
}

/// Appends the `{:?}` text of the byte list `b` to `s`.
pub fn push_byte_list(s: &mut String, b: &[u8])
    ensures
        final(s)@ == old(s)@ + byte_list_text(b@),
{
    push_str(s, "[");
    let ghost start = s@;
    let mut i: usize = 0;
    while i < b.len()
        invariant
            0 <= i <= b.len(),
            s@ == start + byte_list_items(b@.subrange(0, i as int)),
        decreases b.len() - i,
    {
        let ghost prev = s@;
        if i > 0 {
            push_str(s, ", ");
        }
        push_decimal(s, b[i] as u64);
        proof {
            let p = b@.subrange(0, i + 1);
            assert(p.drop_last() =~= b@.subrange(0, i as int));
            assert(p.last() == b@[i as int]);
            if i == 0 {
                assert(byte_list_items(b@.subrange(0, 0)) =~= seq![]);
                assert(byte_list_items(p) == decimal(b@[0] as nat));
            }
        }
        i = i + 1;
        assert(s@ =~= start + byte_list_items(b@.subrange(0, i as int)));
    }
    assert(b@.subrange(0, b@.len() as int) =~= b@);
    push_str(s, "]");
    assert(s@ =~= old(s)@ + byte_list_text(b@));
}

} // verus!

verus! {

/// The characters of `s`, one by one.
pub fn str_chars(s: &str) -> (v: Vec<char>)
    ensures
        v@ == s@,
{
    let mut v: Vec<char> = Vec::new();
    for c in it: s.chars()
        invariant
            it.seq() == s@,
            v@ == s@.subrange(0, it.index() as int),
    {
        v.push(c);
    }
    v
}

/// Whether `a` and `b` hold the same characters.
pub fn str_equals(a: &str, b: &str) -> (res: bool)
    ensures
        res == (a@ == b@),
{
    let x = str_chars(a);
    let y = str_chars(b);
    if x.len() != y.len() {
        return false;
    }
    let mut i: usize = 0;
    while i < x.len()
        invariant
            0 <= i <= x.len(),
            x.len() == y.len(),
            x@ == a@,
            y@ == b@,
            forall|j: int| 0 <= j < i ==> x@[j] == y@[j],
        decreases x.len() - i,
    {
        if x[i] != y[i] {
            return false;
        }
        i = i + 1;
    }
    assert(a@ =~= b@);
    true
}

/// A new string holding the characters `v`.
pub fn string_from_chars(v: &Vec<char>) -> (s: String)
    ensures
        s@ == v@,
{
    let mut s = String::new();
    let mut i: usize = 0;
    while i < v.len()
        invariant
            0 <= i <= v.len(),
            s@ == v@.subrange(0, i as int),
        decreases v.len() - i,
    {
        push_char(&mut s, v[i]);
        i = i + 1;
        assert(s@ =~= v@.subrange(0, i as int));
    }
    assert(v@.subrange(0, v@.len() as int) =~= v@);
    s
}

/// True when `c` is an ASCII decimal digit.
pub open spec fn is_digit(c: char) -> bool {
    '0' <= c <= '9'
}

/// The value of the decimal digits `d` (most significant first).
pub open spec fn digits_value(d: Seq<char>) -> nat
    decreases d.len(),
{
    if d.len() == 0 {
        0
    } else {
        digits_value(d.drop_last()) * 10 + (d.last() as nat - 48) as nat
    }
}

/// The digits of an unsigned number: the text without one leading `+`.
pub open spec fn unsigned_digits(s: Seq<char>) -> Seq<char> {
    if s.len() > 0 && s[0] == '+' {
        s.drop_first()
    } else {
        s
    }
}

/// What `str::parse::<usize>` gives for `s`: an optional `+`, then at least
/// one ASCII digit and nothing else, with a value that fits in `usize`.
pub open spec fn usize_text_value(s: Seq<char>) -> Option<usize> {
    let d = unsigned_digits(s);
    if d.len() > 0 && (forall|i: int| 0 <= i < d.len() ==> is_digit(#[trigger] d[i]))
        && digits_value(d) <= usize::MAX {
        Some(digits_value(d) as usize)
    } else {
        None
    }
}

proof fn lemma_digits_value_prefix(d: Seq<char>, k: int)
    requires
        0 <= k <= d.len(),
        forall|i: int| 0 <= i < d.len() ==> is_digit(#[trigger] d[i]),
    ensures
        digits_value(d.subrange(0, k)) <= digits_value(d),
    decreases d.len() - k,
{
    if k < d.len() {
        lemma_digits_value_prefix(d, k + 1);
        let p = d.subrange(0, k + 1);
        assert(p.drop_last() =~= d.subrange(0, k));
        assert(is_digit(d[k]));
    } else {
        assert(d.subrange(0, k) =~= d);
    }
}

/// Reads an unsigned decimal number as `str::parse::<usize>` does.
pub fn parse_usize(s: &str) -> (res: Option<usize>)
    ensures
        res == usize_text_value(s@),
{
    let chars = str_chars(s);
    let mut start: usize = 0;
    if chars.len() > 0 && chars[0] == '+' {
        start = 1;
    }
    let ghost d = unsigned_digits(s@);
    assert(d =~= chars@.subrange(start as int, chars@.len() as int));
    if start >= chars.len() {
        return None;
    }
    let mut value: usize = 0;
    let mut i: usize = start;
    while i < chars.len()
        invariant
            start <= i <= chars.len(),
            chars@ == s@,
            d == chars@.subrange(start as int, chars@.len() as int),
            d == unsigned_digits(s@),
            forall|j: int| start <= j < i ==> is_digit(#[trigger] chars@[j]),
            value == digits_value(chars@.subrange(start as int, i as int)),
        decreases chars.len() - i,
    {
        let c = chars[i];
        if !('0' <= c && c <= '9') {
            proof {
                assert(d[i - start] == c);
                assert(!is_digit(d[i - start]));
            }
            return None;
        }
        let digit = (c as u32 - 48) as usize;
        let ghost p = chars@.subrange(start as int, i + 1);
        proof {
            assert(p.drop_last() =~= chars@.subrange(start as int, i as int));
        }
        match value.checked_mul(10) {
            None => {
                proof {
                    if forall|j: int| 0 <= j < d.len() ==> is_digit(#[trigger] d[j]) {
                        assert(d.subrange(0, i + 1 - start) =~= p);
                        lemma_digits_value_prefix(d, i + 1 - start);
                    }
                }
                return None;
            },
            Some(v10) => match v10.checked_add(digit) {
                None => {
                    proof {
                        if forall|j: int| 0 <= j < d.len() ==> is_digit(#[trigger] d[j]) {
                            assert(d.subrange(0, i + 1 - start) =~= p);
                            lemma_digits_value_prefix(d, i + 1 - start);
                        }
                    }
                    return None;
                },
                Some(next) => {
                    value = next;
                },
            },
        }
        i = i + 1;
    }
    assert(chars@.subrange(start as int, i as int) =~= d);
    Some(value)
}

/// True for the characters of the Unicode `White_Space` property: U+0009 to
/// U+000D, U+0020, U+0085, U+00A0, U+1680, U+2000 to U+200A, U+2028, U+2029,
/// U+202F, U+205F and U+3000.
pub open spec fn is_white_space(c: char) -> bool {
    let u = c as u32;
    ||| 0x9 <= u <= 0xd
    ||| u == 0x20
    ||| u == 0x85
    ||| u == 0xa0
    ||| u == 0x1680
    ||| 0x2000 <= u <= 0x200a
    ||| u == 0x2028
    ||| u == 0x2029
    ||| u == 0x202f
    ||| u == 0x205f
    ||| u == 0x3000
}

/// `s` without its leading white space.
pub open spec fn trimmed_start(s: Seq<char>) -> Seq<char>
    decreases s.len(),
{
    if s.len() > 0 && is_white_space(s[0]) {
        trimmed_start(s.drop_first())
    } else {
        s
    }
}

/// `s` without its trailing white space.
pub open spec fn trimmed_end(s: Seq<char>) -> Seq<char>
    decreases s.len(),
{
    if s.len() > 0 && is_white_space(s.last()) {
        trimmed_end(s.drop_last())
    } else {
        s
    }
}

/// The text `s` without leading and trailing white space: from its first to
/// its last character that is not white space.
pub open spec fn trimmed(s: Seq<char>) -> Seq<char> {
    trimmed_end(trimmed_start(s))
}

fn white_space(c: char) -> (res: bool)
    ensures
        res == is_white_space(c),
{
    let u = c as u32;
    (0x9 <= u && u <= 0xd) || u == 0x20 || u == 0x85 || u == 0xa0 || u == 0x1680 || (0x2000 <= u
        && u <= 0x200a) || u == 0x2028 || u == 0x2029 || u == 0x202f || u == 0x205f || u == 0x3000
}

/// `s` without leading and trailing white space, as `str::trim` gives it.
pub fn trim_text(s: &str) -> (res: String)
    ensures
        res@ == trimmed(s@),
{
    let chars = str_chars(s);
    let n = chars.len();
    let mut start: usize = 0;
    assert(chars@.subrange(0, n as int) =~= chars@);
    while start < n && white_space(chars[start])
        invariant
            n == chars@.len(),
            chars@ == s@,
            start <= n,
            trimmed_start(s@) == trimmed_start(chars@.subrange(start as int, n as int)),
        decreases n - start,
    {
        let ghost sub = chars@.subrange(start as int, n as int);
        assert(sub.drop_first() =~= chars@.subrange(start + 1, n as int));
        start = start + 1;
    }
    let ghost rest = chars@.subrange(start as int, n as int);
    assert(trimmed_start(rest) == rest);
    let mut end: usize = n;
    while end > start && white_space(chars[end - 1])
        invariant
            n == chars@.len(),
            start <= end <= n,
            trimmed_end(rest) == trimmed_end(chars@.subrange(start as int, end as int)),
        decreases end - start,
    {
        let ghost sub = chars@.subrange(start as int, end as int);
        assert(sub.drop_last() =~= chars@.subrange(start as int, end - 1));
        end = end - 1;
    }
    let mut kept: Vec<char> = Vec::new();
    let mut i: usize = start;
    while i < end
        invariant
            n == chars@.len(),
            start <= i <= end <= n,
            kept@ == chars@.subrange(start as int, i as int),
        decreases end - i,
    {
        kept.push(chars[i]);
        i = i + 1;
        assert(kept@ =~= chars@.subrange(start as int, i as int));
    }
    string_from_chars(&kept)
}

} // verus!
