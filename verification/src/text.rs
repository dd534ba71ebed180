//! Character-level helpers shared by the rest of the library: splitting,
//! trimming, substring search, and decimal / hexadecimal text.

use vstd::prelude::*;

verus! {

/// `String::push` appends one character to the end of the string.
pub assume_specification[ String::push ](s: &mut String, ch: char)
    ensures
        final(s)@ == old(s)@.push(ch),
;

// ---------------------------------------------------------------------------
// Specifications
// ---------------------------------------------------------------------------

/// The pieces of `s` between occurrences of `sep`: one more piece than there
/// are separators, the last piece being whatever follows the last separator.
pub open spec fn split_on<T>(s: Seq<T>, sep: T) -> Seq<Seq<T>>
    decreases s.len(),
{
    if s.len() == 0 {
        seq![Seq::<T>::empty()]
    } else {
        let init = split_on(s.drop_last(), sep);
        if s.last() == sep {
            init.push(Seq::<T>::empty())
        } else {
            init.update(init.len() - 1, init.last().push(s.last()))
        }
    }
}

/// `s` without its trailing carriage returns.
pub open spec fn trim_cr(s: Seq<char>) -> Seq<char>
    decreases s.len(),
{
    if s.len() > 0 && s.last() == '\r' {
        trim_cr(s.drop_last())
    } else {
        s
    }
}

/// `needle` occurs in `hay` as a contiguous run.
pub open spec fn contains_sub<T>(hay: Seq<T>, needle: Seq<T>) -> bool {
    exists|i: int|
        0 <= i && i + needle.len() <= hay.len() && #[trigger] hay.subrange(i, i + needle.len())
            == needle
}

/// The characters of each string of `v`.
pub open spec fn string_views(v: Seq<String>) -> Seq<Seq<char>> {
    v.map_values(|s: String| s@)
}

/// `c` has the Unicode `White_Space` property (what `char::is_whitespace`
/// and `str::trim` go by).
pub open spec fn is_white(c: char) -> bool {
    ||| ('\t' <= c && c <= '\r')
    ||| c == ' '
    ||| c == '\u{85}'
    ||| c == '\u{a0}'
    ||| c == '\u{1680}'
    ||| ('\u{2000}' <= c && c <= '\u{200a}')
    ||| c == '\u{2028}'
    ||| c == '\u{2029}'
    ||| c == '\u{202f}'
    ||| c == '\u{205f}'
    ||| c == '\u{3000}'
}

/// `s` without trailing white space.
pub open spec fn trim_end_white(s: Seq<char>) -> Seq<char>
    decreases s.len(),
{
    if s.len() > 0 && is_white(s.last()) {
        trim_end_white(s.drop_last())
    } else {
        s
    }
}

/// `s` without leading white space.
pub open spec fn trim_start_white(s: Seq<char>) -> Seq<char>
    decreases s.len(),
{
    if s.len() > 0 && is_white(s[0]) {
        trim_start_white(s.drop_first())
    } else {
        s
    }
}

/// `s` without leading or trailing white space (as `str::trim` gives it).
pub open spec fn trim_white(s: Seq<char>) -> Seq<char> {
    trim_start_white(trim_end_white(s))
}

pub open spec fn is_digit(c: char) -> bool {
    '0' <= c && c <= '9'
}

pub open spec fn digit_value(c: char) -> int {
    (c as int) - ('0' as int)
}

pub open spec fn all_digits(s: Seq<char>) -> bool {
    forall|i: int| 0 <= i < s.len() ==> is_digit(#[trigger] s[i])
}

/// The value of a run of decimal digits, most significant first.
pub open spec fn digits_value(s: Seq<char>) -> int
    decreases s.len(),
{
    if s.len() == 0 {
        0
    } else {
        10 * digits_value(s.drop_last()) + digit_value(s.last())
    }
}

/// What `str::parse` reads as an unsigned decimal: an optional `+`, then one
/// or more decimal digits. The bound of the target type is applied separately.
pub open spec fn parse_unsigned(s: Seq<char>) -> Option<int> {
    let body = if s.len() > 0 && s[0] == '+' {
        s.drop_first()
    } else {
        s
    };
    if body.len() > 0 && all_digits(body) {
        Some(digits_value(body))
    } else {
        None
    }
}

/// `parse_unsigned` restricted to values that fit under `max`.
pub open spec fn parse_bounded(s: Seq<char>, max: int) -> Option<int> {
    match parse_unsigned(s) {
        Some(v) => if v <= max {
            Some(v)
        } else {
            None
        },
        None => None,
    }
}

pub open spec fn digit_char(d: int) -> char {
    ((d + ('0' as int)) as char)
}

/// The decimal text of `n`, without leading zeros (`"0"` for zero).
pub open spec fn decimal(n: nat) -> Seq<char>
    decreases n,
{
    if n < 10 {
        seq![digit_char(n as int)]
    } else {
        decimal(n / 10).push(digit_char((n % 10) as int))
    }
}

pub open spec fn hex_char(d: int) -> char {
    if d < 10 {
        digit_char(d)
    } else {
        ((d - 10 + ('a' as int)) as char)
    }
}

/// `v` as four lower-case hexadecimal digits, zero-padded.
pub open spec fn hex4(v: u16) -> Seq<char> {
    seq![
        hex_char((v / 4096) as int),
        hex_char(((v / 256) % 16) as int),
        hex_char(((v / 16) % 16) as int),
        hex_char((v % 16) as int),
    ]
}

// ---------------------------------------------------------------------------
// Executable helpers
// ---------------------------------------------------------------------------

/// The characters of `s`, in order.
pub fn chars_of(s: &str) -> (v: Vec<char>)
    ensures
        v@ == s@,
{
    let mut v: Vec<char> = Vec::new();
    for c in it: s.chars()
        invariant
            it.seq() == s@,
            v@ == s@.take(it.index() as int),
    {
        v.push(c);
    }
    v
}

/// A `String` holding exactly the characters of `v`.
pub fn string_of(v: &Vec<char>) -> (s: String)
    ensures
        s@ == v@,
{
    let mut s = String::new();
    let mut i: usize = 0;
    while i < v.len()
        invariant
            i <= v.len(),
            s@ == v@.subrange(0, i as int),
        decreases v.len() - i,
    {
        s.push(v[i]);
        i = i + 1;
    }
    s
}

/// Appends the characters of `t` to `s`.
pub fn push_str(s: &mut String, t: &str)
    ensures
        final(s)@ == old(s)@ + t@,
{
    let cs = chars_of(t);
    let mut i: usize = 0;
    while i < cs.len()
        invariant
            i <= cs.len(),
            cs@ == t@,
            s@ == old(s)@ + t@.subrange(0, i as int),
        decreases cs.len() - i,
    {
        s.push(cs[i]);
        i = i + 1;
    }
}

/// Character-wise equality of two strings.
pub fn str_eq(a: &str, b: &str) -> (r: bool)
    ensures
        r == (a@ == b@),
{
    let x = chars_of(a);
    let y = chars_of(b);
    if x.len() != y.len() {
        return false;
    }
    let mut i: usize = 0;
    while i < x.len()
        invariant
            x@ == a@,
            y@ == b@,
            x.len() == y.len(),
            i <= x.len(),
            x@.subrange(0, i as int) == y@.subrange(0, i as int),
        decreases x.len() - i,
    {
        if x[i] != y[i] {
            assert(x@[i as int] != y@[i as int]);
            return false;
        }
        assert(x@.subrange(0, i + 1) == x@.subrange(0, i as int).push(x@[i as int]));
        assert(y@.subrange(0, i + 1) == y@.subrange(0, i as int).push(y@[i as int]));
        i = i + 1;
    }
    assert(x@ == x@.subrange(0, x.len() as int));
    assert(y@ == y@.subrange(0, y.len() as int));
    true
}

pub fn is_ascii_digit(c: char) -> (b: bool)
    ensures
        b == is_digit(c),
{
    '0' <= c && c <= '9'
}

/// `hay` contains `needle` as a contiguous run of characters.
pub fn contains_chars(hay: &Vec<char>, needle: &Vec<char>) -> (r: bool)
    ensures
        r == contains_sub(hay@, needle@),
{
    if needle.len() > hay.len() {
        return false;
    }
    let last = hay.len() - needle.len();
    let mut i: usize = 0;
    loop
        invariant
            last == hay.len() - needle.len(),
            needle.len() <= hay.len(),
            i <= last,
            forall|k: int|
                0 <= k < i ==> #[trigger] hay@.subrange(k, k + needle.len()) != needle@,
        decreases last - i,
    {
        if matches_at(hay, needle, i) {
            assert(hay@.subrange(i as int, i + needle.len()) == needle@);
            return true;
        }
        if i == last {
            assert forall|k: int|
                0 <= k && k + needle.len() <= hay.len() implies #[trigger] hay@.subrange(
                k,
                k + needle.len(),
            ) != needle@ by {
                assert(k <= i);
            }
            return false;
        }
        i = i + 1;
    }
}

/// `needle` occurs in `hay` starting at position `at`.
fn matches_at(hay: &Vec<char>, needle: &Vec<char>, at: usize) -> (r: bool)
    requires
        at + needle.len() <= hay.len(),
    ensures
        r == (hay@.subrange(at as int, at + needle.len()) == needle@),
{
    let mut j: usize = 0;
    while j < needle.len()
        invariant
            at + needle.len() <= hay.len(),
            j <= needle.len(),
            forall|k: int| 0 <= k < j ==> hay@[at + k] == needle@[k],
        decreases needle.len() - j,
    {
        if hay[at + j] != needle[j] {
            assert(hay@.subrange(at as int, at + needle.len())[j as int] != needle@[j as int]);
            return false;
        }
        j = j + 1;
    }
    assert(hay@.subrange(at as int, at + needle.len()) =~= needle@);
    true
}

/// `v` without its trailing carriage returns.
pub fn trim_cr_chars(v: &Vec<char>) -> (r: Vec<char>)
    ensures
        r@ == trim_cr(v@),
{
    let mut j: usize = v.len();
    assert(v@.subrange(0, j as int) == v@);
    while j > 0 && v[j - 1] == '\r'
        invariant
            j <= v.len(),
            trim_cr(v@) == trim_cr(v@.subrange(0, j as int)),
        decreases j,
    {
        assert(v@.subrange(0, j as int).drop_last() == v@.subrange(0, j - 1));
        j = j - 1;
    }
    let mut r: Vec<char> = Vec::new();
    let mut i: usize = 0;
    while i < j
        invariant
            j <= v.len(),
            i <= j,
            r@ == v@.subrange(0, i as int),
        decreases j - i,
    {
        r.push(v[i]);
        i = i + 1;
    }
    r
}

/// The character of the decimal digit `d`.
fn digit_to_char(d: u64) -> (c: char)
    requires
        d < 10,
    ensures
        c == digit_char(d as int),
{
    ((d as u8) + 48u8) as char
}

/// Appends the decimal text of `n`.
pub fn push_decimal(s: &mut String, n: u64)
    ensures
        final(s)@ == old(s)@ + decimal(n as nat),
    decreases n,
{
    if n >= 10 {
        push_decimal(s, n / 10);
    }
    s.push(digit_to_char(n % 10));
}

/// The decimal text of `n`.
pub fn decimal_string(n: u64) -> (s: String)
    ensures
        s@ == decimal(n as nat),
{
    let mut s = String::new();
    push_decimal(&mut s, n);
    s
}

/// The hexadecimal digit for `d`.
fn hex_digit_to_char(d: u16) -> (c: char)
    requires
        d < 16,
    ensures
        c == hex_char(d as int),
{
    if d < 10 {
        ((d as u8) + 48u8) as char
    } else {
        ((d as u8) + 87u8) as char
    }
}

/// `v` as four lower-case hexadecimal digits (the `{:04x}` form).
pub fn hex4_string(v: u16) -> (s: String)
    ensures
        s@ == hex4(v),
{
    let mut s = String::new();
    s.push(hex_digit_to_char(v / 4096));
    s.push(hex_digit_to_char((v / 256) % 16));
    s.push(hex_digit_to_char((v / 16) % 16));
    s.push(hex_digit_to_char(v % 16));
    s
}

/// A prefix of a run of digits is worth no more than the whole run.
proof fn lemma_digits_prefix(s: Seq<char>, k: int)
    requires
        all_digits(s),
        0 <= k <= s.len(),
    ensures
        0 <= digits_value(s.take(k)) <= digits_value(s),
    decreases s.len(),
{
    if k == s.len() {
        assert(s.take(k) == s);
        lemma_digits_nonneg(s);
    } else {
        assert(s.take(k) == s.drop_last().take(k));
        lemma_digits_prefix(s.drop_last(), k);
        lemma_digits_nonneg(s.drop_last());
    }
}

proof fn lemma_digits_nonneg(s: Seq<char>)
    requires
        all_digits(s),
    ensures
        digits_value(s) >= 0,
    decreases s.len(),
{
    if s.len() > 0 {
        lemma_digits_nonneg(s.drop_last());
    }
}

/// Reads `s` as `str::parse::<u64>` does.
pub fn parse_u64(s: &str) -> (r: Option<u64>)
    ensures
        match r {
            Some(v) => parse_bounded(s@, u64::MAX as int) == Some(v as int),
            None => parse_bounded(s@, u64::MAX as int) is None,
        },
{
    let cs = chars_of(s);
    let start: usize = if cs.len() > 0 && cs[0] == '+' {
        1
    } else {
        0
    };
    let ghost body = if s@.len() > 0 && s@[0] == '+' {
        s@.drop_first()
    } else {
        s@
    };
    assert(body == cs@.subrange(start as int, cs.len() as int));
    if start == cs.len() {
        assert(parse_unsigned(s@) is None);
        return None;
    }
    let mut acc: u64 = 0;
    let mut i: usize = start;
    while i < cs.len()
        invariant
            cs@ == s@,
            start <= i <= cs.len(),
            start < cs.len(),
            body == cs@.subrange(start as int, cs.len() as int),
            body == (if s@.len() > 0 && s@[0] == '+' {
                s@.drop_first()
            } else {
                s@
            }),
            all_digits(body.take(i - start)),
            acc as int == digits_value(body.take(i - start)),
        decreases cs.len() - i,
    {
        let c = cs[i];
        let ghost k = i - start;
        assert(body.take(k + 1).drop_last() == body.take(k));
        assert(body[k] == c);
        if !is_ascii_digit(c) {
            assert(!all_digits(body));
            assert(parse_unsigned(s@) is None);
            return None;
        }
        let d = (c as u64) - ('0' as u64);
        let next = match acc.checked_mul(10) {
            Some(m) => m.checked_add(d),
            None => None,
        };
        match next {
            Some(n) => {
                acc = n;
            },
            None => {
                proof {
                    if all_digits(body) {
                        lemma_digits_prefix(body, k + 1);
                        assert(digits_value(body.take(k + 1)) == 10 * acc + d);
                        assert(parse_unsigned(s@) == Some(digits_value(body)));
                    } else {
                        assert(parse_unsigned(s@) is None);
                    }
                }
                return None;
            },
        }
        i = i + 1;
    }
    assert(body.take(cs.len() - start) == body);
    Some(acc)
}

/// Reads `s` as `str::parse::<u32>` does.
pub fn parse_u32(s: &str) -> (r: Option<u32>)
    ensures
        match r {
            Some(v) => parse_bounded(s@, u32::MAX as int) == Some(v as int),
            None => parse_bounded(s@, u32::MAX as int) is None,
        },
{
    match parse_u64(s) {
        Some(v) => if v <= 0xffff_ffff {
            Some(v as u32)
        } else {
            None
        },
        None => None,
    }
}

/// Whether `c` is white space (see `is_white`).
pub fn is_whitespace(c: char) -> (r: bool)
    ensures
        r == is_white(c),
{
    ('\t' <= c && c <= '\r') || c == ' ' || c == '\u{85}' || c == '\u{a0}' || c == '\u{1680}'
        || ('\u{2000}' <= c && c <= '\u{200a}') || c == '\u{2028}' || c == '\u{2029}' || c
        == '\u{202f}' || c == '\u{205f}' || c == '\u{3000}'
}

/// `s` without leading or trailing white space (see `trim_white`).
pub fn trim(s: &str) -> (r: String)
    ensures
        r@ == trim_white(s@),
{
    let v = chars_of(s);
    let mut j: usize = v.len();
    assert(v@.subrange(0, j as int) == v@);
    while j > 0 && is_whitespace(v[j - 1])
        invariant
            j <= v.len(),
            v@ == s@,
            trim_end_white(v@) == trim_end_white(v@.subrange(0, j as int)),
        decreases j,
    {
        assert(v@.subrange(0, j as int).drop_last() == v@.subrange(0, j - 1));
        j = j - 1;
    }
    let ghost e = v@.subrange(0, j as int);
    assert(trim_end_white(e) == e);
    let mut i: usize = 0;
    assert(e.subrange(0, e.len() as int) == e);
    while i < j && is_whitespace(v[i])
        invariant
            i <= j,
            j <= v.len(),
            e == v@.subrange(0, j as int),
            trim_start_white(e) == trim_start_white(e.subrange(i as int, j as int)),
        decreases j - i,
    {
        assert(e.subrange(i as int, j as int).drop_first() == e.subrange(i + 1, j as int));
        i = i + 1;
    }
    let mut r = String::new();
    let mut k: usize = i;
    while k < j
        invariant
            i <= k <= j,
            j <= v.len(),
            e == v@.subrange(0, j as int),
            r@ == e.subrange(i as int, k as int),
        decreases j - k,
    {
        r.push(v[k]);
        k = k + 1;
    }
    assert(trim_start_white(e.subrange(i as int, j as int)) == e.subrange(i as int, j as int));
    r
}

/// A trimmed line never ends in a carriage return.
pub proof fn lemma_trim_cr_clean(s: Seq<char>)
    ensures
        trim_cr(s).len() > 0 ==> trim_cr(s).last() != '\r',
        trim_cr(s).len() <= s.len(),
        trim_cr(s) == s.subrange(0, trim_cr(s).len() as int),
    decreases s.len(),
{
    if s.len() > 0 && s.last() == '\r' {
        lemma_trim_cr_clean(s.drop_last());
    }
}

/// The decimal text of a number reads back as that number.
pub proof fn lemma_decimal_parses(n: nat)
    ensures
        all_digits(decimal(n)),
        decimal(n).len() > 0,
        decimal(n)[0] != '+',
        digits_value(decimal(n)) == n,
        parse_unsigned(decimal(n)) == Some(n as int),
    decreases n,
{
    let d0 = (n % 10) as int;
    assert(0 <= d0 < 10);
    assert(digit_value(digit_char(d0)) == d0);
    assert(is_digit(digit_char(d0)));
    if n < 10 {
        let d = decimal(n);
        assert(d.drop_last() =~= Seq::<char>::empty());
        assert(n % 10 == n);
        assert(digits_value(d.drop_last()) == 0);
        assert(d.last() == digit_char(d0));
        assert(digits_value(d) == n);
        assert(all_digits(d));
    }
    if n >= 10 {
        vstd::arithmetic::div_mod::lemma_fundamental_div_mod(n as int, 10);
        lemma_decimal_parses(n / 10);
        let d = decimal(n);
        assert(d.drop_last() == decimal(n / 10));
        assert(d[0] == decimal(n / 10)[0]);
        assert forall|i: int| 0 <= i < d.len() implies is_digit(#[trigger] d[i]) by {
            if i < d.len() - 1 {
                assert(d[i] == decimal(n / 10)[i]);
            }
        }
        assert(d.last() == digit_char(d0));
        assert(digits_value(d) == 10 * digits_value(decimal(n / 10)) + d0);
        assert(10 * ((n / 10) as int) + d0 == n);
        assert(digits_value(d) == n);
    }
}

/// The value of a lower-case hexadecimal digit character.
pub open spec fn hex_digit_value(c: char) -> int {
    if '0' <= c && c <= '9' {
        (c as int) - ('0' as int)
    } else {
        (c as int) - ('a' as int) + 10
    }
}

/// `c` is one of `0123456789abcdef`.
pub open spec fn is_lower_hex_digit(c: char) -> bool {
    ('0' <= c && c <= '9') || ('a' <= c && c <= 'f')
}

/// The four-digit hex text of a value is lower-case base 16 and reads back
/// as that value.
pub proof fn lemma_hex4_reads_back(v: u16)
    ensures
        hex4(v).len() == 4,
        forall|i: int| 0 <= i < 4 ==> is_lower_hex_digit(#[trigger] hex4(v)[i]),
        4096 * hex_digit_value(hex4(v)[0]) + 256 * hex_digit_value(hex4(v)[1]) + 16
            * hex_digit_value(hex4(v)[2]) + hex_digit_value(hex4(v)[3]) == v,
{
    let d0 = (v / 4096) as int;
    let d1 = ((v / 256) % 16) as int;
    let d2 = ((v / 16) % 16) as int;
    let d3 = (v % 16) as int;
    assert(0 <= d0 < 16 && 0 <= d1 < 16 && 0 <= d2 < 16 && 0 <= d3 < 16);
    lemma_hex_char_value(d0);
    lemma_hex_char_value(d1);
    lemma_hex_char_value(d2);
    lemma_hex_char_value(d3);
    assert(4096 * d0 + 256 * d1 + 16 * d2 + d3 == v) by (nonlinear_arith)
        requires
            d0 == (v / 4096) as int,
            d1 == ((v / 256) % 16) as int,
            d2 == ((v / 16) % 16) as int,
            d3 == (v % 16) as int,
            v < 65536,
    ;
}

proof fn lemma_hex_char_value(d: int)
    requires
        0 <= d < 16,
    ensures
        is_lower_hex_digit(hex_char(d)),
        hex_digit_value(hex_char(d)) == d,
{
}

} // verus!
