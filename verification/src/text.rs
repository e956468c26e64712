//! Small verified text utilities shared by the command builder and the
//! protocol parser: decimal rendering of integers, rendering a millisecond
//! count as a decimal number of seconds, decimal parsing, and substring
//! search.

use vstd::prelude::*;
use vstd::string::*;

verus! {

/// The decimal digit character for `d`, which must lie in `0 .. 10`.
pub open spec fn digit_char(d: int) -> char {
    if d == 0 {
        '0'
    } else if d == 1 {
        '1'
    } else if d == 2 {
        '2'
    } else if d == 3 {
        '3'
    } else if d == 4 {
        '4'
    } else if d == 5 {
        '5'
    } else if d == 6 {
        '6'
    } else if d == 7 {
        '7'
    } else if d == 8 {
        '8'
    } else {
        '9'
    }
}

/// The decimal rendering of `n >= 0`, most significant digit first, with no
/// leading zeros (the rendering of `0` is `"0"`).
pub open spec fn dec_digits(n: int) -> Seq<char>
    decreases n,
{
    if n < 10 {
        seq![digit_char(n)]
    } else {
        dec_digits(n / 10).push(digit_char(n % 10))
    }
}

fn push_digit(s: &mut String, d: u64)
    requires
        d < 10,
    ensures
        final(s)@ == old(s)@.push(digit_char(d as int)),
{
    if d == 0 {
        s.append("0");
        proof {
            reveal_strlit("0");
            assert(s@ =~= old(s)@.push('0'));
        }
    } else if d == 1 {
        s.append("1");
        proof {
            reveal_strlit("1");
            assert(s@ =~= old(s)@.push('1'));
        }
    } else if d == 2 {
        s.append("2");
        proof {
            reveal_strlit("2");
            assert(s@ =~= old(s)@.push('2'));
        }
    } else if d == 3 {
        s.append("3");
        proof {
            reveal_strlit("3");
            assert(s@ =~= old(s)@.push('3'));
        }
    } else if d == 4 {
        s.append("4");
        proof {
            reveal_strlit("4");
            assert(s@ =~= old(s)@.push('4'));
        }
    } else if d == 5 {
        s.append("5");
        proof {
            reveal_strlit("5");
            assert(s@ =~= old(s)@.push('5'));
        }
    } else if d == 6 {
        s.append("6");
        proof {
            reveal_strlit("6");
            assert(s@ =~= old(s)@.push('6'));
        }
    } else if d == 7 {
        s.append("7");
        proof {
            reveal_strlit("7");
            assert(s@ =~= old(s)@.push('7'));
        }
    } else if d == 8 {
        s.append("8");
        proof {
            reveal_strlit("8");
            assert(s@ =~= old(s)@.push('8'));
        }
    } else {
        s.append("9");
        proof {
            reveal_strlit("9");
            assert(s@ =~= old(s)@.push('9'));
        }
    }
}

/// Appends the decimal rendering of `n` to `s`.
pub fn push_u64_dec(s: &mut String, n: u64)
    ensures
        final(s)@ == old(s)@ + dec_digits(n as int),
    decreases n,
{
    if n >= 10 {
        push_u64_dec(s, n / 10);
        push_digit(s, n % 10);
        proof {
            assert(s@ =~= old(s)@ + dec_digits(n as int));
        }
    } else {
        push_digit(s, n);
        proof {
            assert(s@ =~= old(s)@ + dec_digits(n as int));
        }
    }
}

/// The decimal rendering of `n` as a fresh string.
pub fn u64_to_dec(n: u64) -> (s: String)
    ensures
        s@ == dec_digits(n as int),
{
    let mut s = String::new();
    push_u64_dec(&mut s, n);
    proof {
        assert(s@ =~= dec_digits(n as int));
    }
    s
}

/// A millisecond count rendered as a decimal number of seconds: the whole
/// seconds, then, when the fractional part is not zero, a point and the
/// fraction with trailing zeros dropped (`5000` is `"5"`, `1500` is `"1.5"`,
/// `1050` is `"1.05"`, `1234` is `"1.234"`).
pub open spec fn millis_text(ms: int) -> Seq<char> {
    let whole = dec_digits(ms / 1000);
    let f = ms % 1000;
    if f == 0 {
        whole
    } else if f % 100 == 0 {
        whole.push('.').push(digit_char(f / 100))
    } else if f % 10 == 0 {
        whole.push('.').push(digit_char(f / 100)).push(digit_char((f / 10) % 10))
    } else {
        whole.push('.').push(digit_char(f / 100)).push(digit_char((f / 10) % 10)).push(
            digit_char(f % 10),
        )
    }
}

/// Renders `ms` milliseconds as decimal seconds, per `millis_text`.
pub fn millis_to_seconds_text(ms: u64) -> (s: String)
    ensures
        s@ == millis_text(ms as int),
{
    let mut s = u64_to_dec(ms / 1000);
    let f: u64 = ms % 1000;
    if f != 0 {
        s.append(".");
        proof {
            reveal_strlit(".");
        }
        push_digit(&mut s, f / 100);
        if f % 100 != 0 {
            push_digit(&mut s, (f / 10) % 10);
            if f % 10 != 0 {
                push_digit(&mut s, f % 10);
            }
        }
    }
    proof {
        assert(s@ =~= millis_text(ms as int));
    }
    s
}

proof fn lemma_dec_digits_are_digits(n: int)
    requires
        n >= 0,
    ensures
        dec_digits(n).len() >= 1,
        forall|i: int| 0 <= i < dec_digits(n).len() ==> is_dec_digit(#[trigger] dec_digits(n)[i]),
    decreases n,
{
    if n >= 10 {
        lemma_dec_digits_are_digits(n / 10);
    }
}

proof fn lemma_dec_digits_injective(a: int, b: int)
    requires
        a >= 0,
        b >= 0,
        dec_digits(a) == dec_digits(b),
    ensures
        a == b,
    decreases a,
{
    if a < 10 && b < 10 {
        assert(dec_digits(a)[0] == digit_char(a));
        assert(dec_digits(b)[0] == digit_char(b));
    } else if a >= 10 && b >= 10 {
        let pa = dec_digits(a / 10);
        let pb = dec_digits(b / 10);
        lemma_dec_digits_are_digits(a / 10);
        lemma_dec_digits_are_digits(b / 10);
        assert(pa.push(digit_char(a % 10)).len() == pb.push(digit_char(b % 10)).len());
        assert(pa =~= pb) by {
            assert(forall|i: int|
                0 <= i < pa.len() ==> #[trigger] pa[i] == pa.push(digit_char(a % 10))[i]
                    && pb[i] == pb.push(digit_char(b % 10))[i]);
        }
        assert(digit_char(a % 10) == pa.push(digit_char(a % 10)).last());
        assert(digit_char(b % 10) == pb.push(digit_char(b % 10)).last());
        assert(a % 10 == b % 10);
        lemma_dec_digits_injective(a / 10, b / 10);
    } else if a < 10 {
        lemma_dec_digits_are_digits(b / 10);
        assert(dec_digits(a).len() == 1);
        assert(dec_digits(b).len() >= 2);
    } else {
        lemma_dec_digits_are_digits(a / 10);
        assert(dec_digits(b).len() == 1);
        assert(dec_digits(a).len() >= 2);
    }
}

/// The rendering of a trim duration loses nothing: two millisecond counts
/// that render to the same decimal-seconds text are the same count.
pub proof fn lemma_millis_text_injective(a: int, b: int)
    requires
        a >= 0,
        b >= 0,
        millis_text(a) == millis_text(b),
    ensures
        a == b,
{
    let wa = dec_digits(a / 1000);
    let wb = dec_digits(b / 1000);
    let fa = a % 1000;
    let fb = b % 1000;
    lemma_dec_digits_are_digits(a / 1000);
    lemma_dec_digits_are_digits(b / 1000);
    assert(!is_dec_digit('.'));
    if fa == 0 && fb == 0 {
        lemma_dec_digits_injective(a / 1000, b / 1000);
    } else if fa == 0 {
        assert(millis_text(a)[wb.len() as int] == '.');
        assert(is_dec_digit(wa[wb.len() as int]));
    } else if fb == 0 {
        assert(millis_text(b)[wa.len() as int] == '.');
        assert(is_dec_digit(wb[wa.len() as int]));
    } else {
        assert(wa.len() == wb.len()) by {
            if wa.len() < wb.len() {
                assert(millis_text(a)[wa.len() as int] == '.');
                assert(millis_text(b)[wa.len() as int] == wb[wa.len() as int]);
            } else if wb.len() < wa.len() {
                assert(millis_text(b)[wb.len() as int] == '.');
                assert(millis_text(a)[wb.len() as int] == wa[wb.len() as int]);
            }
        }
        assert(wa =~= wb) by {
            assert(forall|i: int|
                0 <= i < wa.len() ==> millis_text(a)[i] == #[trigger] wa[i] && millis_text(
                    b,
                )[i] == wb[i]);
        }
        lemma_dec_digits_injective(a / 1000, b / 1000);
        let w = wa.len() as int;
        assert(millis_text(a).len() == millis_text(b).len());
        let d1a = fa / 100;
        let d2a = (fa / 10) % 10;
        let d3a = fa % 10;
        let d1b = fb / 100;
        let d2b = (fb / 10) % 10;
        let d3b = fb % 10;
        assert(millis_text(a)[w + 1] == digit_char(d1a));
        assert(millis_text(b)[w + 1] == digit_char(d1b));
        assert(0 <= d1a < 10 && 0 <= d1b < 10 && 0 <= d2a < 10 && 0 <= d2b < 10 && 0 <= d3a < 10
            && 0 <= d3b < 10);
        assert(d1a == d1b);
        let la = millis_text(a).len() as int;
        assert(millis_text(b).len() as int == la);
        assert(fa % 100 == 0 ==> la == w + 2);
        assert(fa % 100 != 0 && fa % 10 == 0 ==> la == w + 3);
        assert(fa % 10 != 0 ==> la == w + 4);
        assert(fb % 100 == 0 ==> la == w + 2);
        assert(fb % 100 != 0 && fb % 10 == 0 ==> la == w + 3);
        assert(fb % 10 != 0 ==> la == w + 4);
        if la == w + 2 {
            assert(fa % 100 == 0 && fb % 100 == 0);
            assert(d2a == 0 && d3a == 0) by (nonlinear_arith)
                requires
                    0 <= fa < 1000,
                    fa % 100 == 0,
                    d2a == (fa / 10) % 10,
                    d3a == fa % 10,
            ;
            assert(d2b == 0 && d3b == 0) by (nonlinear_arith)
                requires
                    0 <= fb < 1000,
                    fb % 100 == 0,
                    d2b == (fb / 10) % 10,
                    d3b == fb % 10,
            ;
        } else if la == w + 3 {
            assert(fa % 100 != 0 && fa % 10 == 0);
            assert(fb % 100 != 0 && fb % 10 == 0);
            assert(millis_text(a)[w + 2] == digit_char(d2a));
            assert(millis_text(b)[w + 2] == digit_char(d2b));
            assert(d2a == d2b && d3a == 0 && d3b == 0);
        } else {
            assert(fa % 10 != 0 && fb % 10 != 0);
            assert(millis_text(a)[w + 2] == digit_char(d2a));
            assert(millis_text(b)[w + 2] == digit_char(d2b));
            assert(millis_text(a)[w + 3] == digit_char(d3a));
            assert(millis_text(b)[w + 3] == digit_char(d3b));
            assert(d2a == d2b && d3a == d3b);
        }
        assert(fa == 100 * d1a + 10 * d2a + d3a) by (nonlinear_arith)
            requires
                0 <= fa < 1000,
                d1a == fa / 100,
                d2a == (fa / 10) % 10,
                d3a == fa % 10,
        ;
        assert(fb == 100 * d1b + 10 * d2b + d3b) by (nonlinear_arith)
            requires
                0 <= fb < 1000,
                d1b == fb / 100,
                d2b == (fb / 10) % 10,
                d3b == fb % 10,
        ;
    }
}

/// Whether `c` is one of the ten ASCII decimal digit characters.
pub open spec fn is_dec_digit(c: char) -> bool {
    48 <= c as int <= 57
}

/// The numeric value of a decimal digit character.
pub open spec fn digit_val(c: char) -> int {
    c as int - 48
}

/// Whether every character of `s` is an ASCII decimal digit.
pub open spec fn all_dec_digits(s: Seq<char>) -> bool {
    forall|i: int| 0 <= i < s.len() ==> is_dec_digit(#[trigger] s[i])
}

/// The number a sequence of decimal digit characters denotes, most
/// significant digit first.
pub open spec fn dec_val(s: Seq<char>) -> int
    decreases s.len(),
{
    if s.len() == 0 {
        0
    } else {
        dec_val(s.drop_last()) * 10 + digit_val(s.last())
    }
}

proof fn lemma_dec_val_next(s: Seq<char>, i: int)
    requires
        0 <= i < s.len(),
    ensures
        dec_val(s.subrange(0, i + 1)) == dec_val(s.subrange(0, i)) * 10 + digit_val(s[i]),
{
    assert(s.subrange(0, i + 1).drop_last() =~= s.subrange(0, i));
    assert(s.subrange(0, i + 1).last() == s[i]);
}

proof fn lemma_dec_val_nonneg(s: Seq<char>)
    requires
        all_dec_digits(s),
    ensures
        dec_val(s) >= 0,
    decreases s.len(),
{
    if s.len() > 0 {
        assert(all_dec_digits(s.drop_last())) by {
            assert(forall|i: int|
                0 <= i < s.drop_last().len() ==> #[trigger] s.drop_last()[i] == s[i]);
        }
        lemma_dec_val_nonneg(s.drop_last());
        assert(is_dec_digit(s.last()));
    }
}

/// A longer all-digit prefix never denotes a smaller number.
proof fn lemma_dec_val_prefix_le(s: Seq<char>, i: int)
    requires
        all_dec_digits(s),
        0 <= i <= s.len(),
    ensures
        0 <= dec_val(s.subrange(0, i)) <= dec_val(s),
    decreases s.len() - i,
{
    assert(all_dec_digits(s.subrange(0, i))) by {
        assert(forall|j: int|
            0 <= j < s.subrange(0, i).len() ==> #[trigger] s.subrange(0, i)[j] == s[j]);
    }
    lemma_dec_val_nonneg(s.subrange(0, i));
    if i == s.len() {
        assert(s.subrange(0, i) =~= s);
    } else {
        lemma_dec_val_next(s, i);
        assert(is_dec_digit(s[i]));
        lemma_dec_val_prefix_le(s, i + 1);
    }
}

/// Parses a string of decimal digits as a `u32`. Returns `Some` exactly when
/// the string is non-empty, all digits, and its value fits in a `u32`.
pub fn parse_u32_dec(s: &str) -> (r: Option<u32>)
    ensures
        r is Some <==> s@.len() > 0 && all_dec_digits(s@) && dec_val(s@) <= u32::MAX,
        r matches Some(v) ==> v as int == dec_val(s@),
{
    let n = s.unicode_len();
    if n == 0 {
        return None;
    }
    let mut acc: u32 = 0;
    let mut i: usize = 0;
    while i < n
        invariant
            0 < n == s@.len(),
            0 <= i <= n,
            all_dec_digits(s@.subrange(0, i as int)),
            acc as int == dec_val(s@.subrange(0, i as int)),
        decreases n - i,
    {
        let c = s.get_char(i);
        let code = c as u32;
        if code < 48 || code > 57 {
            assert(!is_dec_digit(s@[i as int]));
            return None;
        }
        let d: u32 = code - 48;
        if acc > (u32::MAX - d) / 10 {
            proof {
                lemma_dec_val_next(s@, i as int);
                if all_dec_digits(s@) {
                    lemma_dec_val_prefix_le(s@, i + 1);
                }
            }
            return None;
        }
        acc = acc * 10 + d;
        proof {
            lemma_dec_val_next(s@, i as int);
            assert(s@.subrange(0, i + 1).drop_last() =~= s@.subrange(0, i as int));
        }
        i = i + 1;
    }
    proof {
        assert(s@.subrange(0, n as int) =~= s@);
    }
    Some(acc)
}

/// The failure wordings of the standard decimal parse, which the request
/// parser reproduces in its error descriptions.
pub open spec fn empty_number_text() -> Seq<char> {
    "cannot parse integer from empty string"@
}

pub open spec fn invalid_digit_text() -> Seq<char> {
    "invalid digit found in string"@
}

pub open spec fn number_too_large_text() -> Seq<char> {
    "number too large to fit in target type"@
}

/// The failure description the scan from position `i` with accumulator
/// `acc` runs into: the wording for the first non-digit, or for the first
/// digit that overflows the target, whichever the scan meets first; empty
/// when the rest of the scan succeeds.
pub open spec fn dec_scan_failure(s: Seq<char>, i: int, acc: int) -> Seq<char>
    decreases s.len() - i,
{
    if i < 0 || i >= s.len() {
        Seq::empty()
    } else if !is_dec_digit(s[i]) {
        invalid_digit_text()
    } else if acc * 10 + digit_val(s[i]) > u32::MAX {
        number_too_large_text()
    } else {
        dec_scan_failure(s, i + 1, acc * 10 + digit_val(s[i]))
    }
}

/// The failure description of parsing `s` as a decimal `u32` (empty when
/// the parse succeeds), with the standard library's wording and its
/// left-to-right order of discovery.
pub open spec fn u32_parse_failure_text(s: Seq<char>) -> Seq<char> {
    if s.len() == 0 {
        empty_number_text()
    } else {
        dec_scan_failure(s, 0, 0)
    }
}

/// The failure description of parsing `s` as a decimal `u32`, per
/// `u32_parse_failure_text`.
pub fn parse_u32_failure(s: &str) -> (c: String)
    ensures
        c@ == u32_parse_failure_text(s@),
{
    let n = s.unicode_len();
    if n == 0 {
        return String::from_str("cannot parse integer from empty string");
    }
    let mut acc: u32 = 0;
    let mut i: usize = 0;
    while i < n
        invariant
            0 < n == s@.len(),
            0 <= i <= n,
            dec_scan_failure(s@, 0, 0) == dec_scan_failure(s@, i as int, acc as int),
        decreases n - i,
    {
        let c = s.get_char(i);
        let code = c as u32;
        if code < 48 || code > 57 {
            assert(!is_dec_digit(s@[i as int]));
            return String::from_str("invalid digit found in string");
        }
        let d: u32 = code - 48;
        if acc > (u32::MAX - d) / 10 {
            assert(acc * 10 + d > u32::MAX) by (nonlinear_arith)
                requires
                    acc > (u32::MAX - d) / 10,
                    0 <= d <= 9,
                    acc <= u32::MAX,
            ;
            return String::from_str("number too large to fit in target type");
        }
        acc = acc * 10 + d;
        i = i + 1;
    }
    proof {
        assert(dec_scan_failure(s@, n as int, acc as int) =~= Seq::<char>::empty());
    }
    String::new()
}

/// Whether `needle` occurs in `hay` starting at position `i`.
pub open spec fn occurs_at(hay: Seq<char>, needle: Seq<char>, i: int) -> bool {
    0 <= i && i + needle.len() <= hay.len() && hay.subrange(i, i + needle.len()) == needle
}

/// Whether `needle` occurs anywhere in `hay`.
pub open spec fn contains_seq(hay: Seq<char>, needle: Seq<char>) -> bool {
    exists|i: int| occurs_at(hay, needle, i)
}

fn matches_at(hay: &str, hay_len: usize, needle: &str, needle_len: usize, at: usize) -> (r: bool)
    requires
        hay_len == hay@.len(),
        needle_len == needle@.len(),
        at + needle_len <= hay_len,
    ensures
        r == occurs_at(hay@, needle@, at as int),
{
    let mut j: usize = 0;
    while j < needle_len
        invariant
            hay_len == hay@.len(),
            needle_len == needle@.len(),
            at + needle_len <= hay_len,
            0 <= j <= needle_len,
            forall|k: int| 0 <= k < j ==> hay@[at + k] == needle@[k],
        decreases needle_len - j,
    {
        if hay.get_char(at + j) != needle.get_char(j) {
            proof {
                assert(hay@.subrange(at as int, at + needle@.len())[j as int] == hay@[at + j]);
            }
            return false;
        }
        j = j + 1;
    }
    proof {
        assert(hay@.subrange(at as int, at + needle@.len()) =~= needle@);
    }
    true
}

/// Whether `needle` occurs as a contiguous substring of `hay`.
pub fn contains_sub(hay: &str, needle: &str) -> (r: bool)
    ensures
        r == contains_seq(hay@, needle@),
{
    let hay_len = hay.unicode_len();
    let needle_len = needle.unicode_len();
    if needle_len > hay_len {
        return false;
    }
    if needle_len == 0 {
        proof {
            assert(hay@.subrange(0, 0) =~= needle@);
            assert(occurs_at(hay@, needle@, 0));
        }
        return true;
    }
    let mut i: usize = 0;
    while i <= hay_len - needle_len
        invariant
            hay_len == hay@.len(),
            needle_len == needle@.len(),
            0 < needle_len <= hay_len,
            0 <= i <= hay_len - needle_len + 1,
            forall|k: int| 0 <= k < i ==> !occurs_at(hay@, needle@, k),
        decreases hay_len - i,
    {
        if matches_at(hay, hay_len, needle, needle_len, i) {
            return true;
        }
        i = i + 1;
    }
    false
}

/// Whether `c` appears nowhere in `s[from .. to]`.
pub open spec fn no_char_in(s: Seq<char>, c: char, from: int, to: int) -> bool {
    forall|i: int| from <= i < to ==> #[trigger] s[i] != c
}

/// The whitespace characters the line trimmer strips: space, tab and the
/// line-ending characters.
pub open spec fn is_trim_ws(c: char) -> bool {
    c == ' ' || c == '\t' || c == '\r' || c == '\n'
}

/// `s` without its leading whitespace.
pub open spec fn drop_leading_ws(s: Seq<char>) -> Seq<char>
    decreases s.len(),
{
    if s.len() > 0 && is_trim_ws(s[0]) {
        drop_leading_ws(s.drop_first())
    } else {
        s
    }
}

/// `s` without its trailing whitespace.
pub open spec fn drop_trailing_ws(s: Seq<char>) -> Seq<char>
    decreases s.len(),
{
    if s.len() > 0 && is_trim_ws(s.last()) {
        drop_trailing_ws(s.drop_last())
    } else {
        s
    }
}

/// `s` without surrounding whitespace.
pub open spec fn trim_text(s: Seq<char>) -> Seq<char> {
    drop_trailing_ws(drop_leading_ws(s))
}

proof fn lemma_drop_leading_ws(s: Seq<char>, a: int)
    requires
        0 <= a <= s.len(),
        forall|i: int| 0 <= i < a ==> is_trim_ws(#[trigger] s[i]),
        a < s.len() ==> !is_trim_ws(s[a]),
    ensures
        drop_leading_ws(s) =~= s.subrange(a, s.len() as int),
    decreases a,
{
    if a == 0 {
        assert(s.subrange(0, s.len() as int) =~= s);
    } else {
        let t = s.drop_first();
        assert(forall|i: int| 0 <= i < a - 1 ==> #[trigger] t[i] == s[i + 1]);
        lemma_drop_leading_ws(t, a - 1);
        assert(t.subrange(a - 1, t.len() as int) =~= s.subrange(a, s.len() as int));
    }
}

proof fn lemma_drop_trailing_ws(s: Seq<char>, b: int)
    requires
        0 <= b <= s.len(),
        forall|i: int| b <= i < s.len() ==> is_trim_ws(#[trigger] s[i]),
        b > 0 ==> !is_trim_ws(s[b - 1]),
    ensures
        drop_trailing_ws(s) =~= s.subrange(0, b),
    decreases s.len() - b,
{
    if b == s.len() {
        assert(s.subrange(0, b) =~= s);
    } else {
        let t = s.drop_last();
        assert(forall|i: int| 0 <= i < t.len() ==> #[trigger] t[i] == s[i]);
        lemma_drop_trailing_ws(t, b);
        assert(t.subrange(0, b) =~= s.subrange(0, b));
    }
}

/// Strips surrounding spaces, tabs and line endings, per `trim_text`.
pub fn trim_ascii(s: &str) -> (t: String)
    ensures
        t@ == trim_text(s@),
{
    let n = s.unicode_len();
    let mut a: usize = 0;
    while a < n && is_trim_ws_char(s.get_char(a))
        invariant
            n == s@.len(),
            0 <= a <= n,
            forall|i: int| 0 <= i < a ==> is_trim_ws(#[trigger] s@[i]),
        decreases n - a,
    {
        a = a + 1;
    }
    proof {
        lemma_drop_leading_ws(s@, a as int);
    }
    if a == n {
        proof {
            assert(drop_leading_ws(s@) =~= Seq::<char>::empty());
            assert(trim_text(s@) =~= Seq::<char>::empty());
        }
        return String::new();
    }
    let mut b: usize = n;
    while b > a + 1 && is_trim_ws_char(s.get_char(b - 1))
        invariant
            n == s@.len(),
            a < b <= n,
            !is_trim_ws(s@[a as int]),
            forall|i: int| b <= i < n ==> is_trim_ws(#[trigger] s@[i]),
        decreases b,
    {
        b = b - 1;
    }
    let t = String::from_str(s.substring_char(a, b));
    proof {
        let lead = s@.subrange(a as int, n as int);
        assert(forall|i: int| 0 <= i < lead.len() ==> #[trigger] lead[i] == s@[i + a]);
        lemma_drop_trailing_ws(lead, b - a);
        assert(lead.subrange(0, b - a) =~= s@.subrange(a as int, b as int));
    }
    t
}

fn is_trim_ws_char(c: char) -> (r: bool)
    ensures
        r == is_trim_ws(c),
{
    c == ' ' || c == '\t' || c == '\r' || c == '\n'
}

/// The position of the first occurrence of `c` in `s` at or after `from`.
pub fn find_char_from(s: &str, c: char, from: usize) -> (r: Option<usize>)
    requires
        from <= s@.len(),
    ensures
        r matches Some(i) ==> from <= i < s@.len() && s@[i as int] == c && no_char_in(
            s@,
            c,
            from as int,
            i as int,
        ),
        r is None ==> no_char_in(s@, c, from as int, s@.len() as int),
{
    let n = s.unicode_len();
    let mut i: usize = from;
    while i < n
        invariant
            n == s@.len(),
            from <= i <= n,
            no_char_in(s@, c, from as int, i as int),
        decreases n - i,
    {
        if s.get_char(i) == c {
            return Some(i);
        }
        i = i + 1;
    }
    None
}

} // verus!
