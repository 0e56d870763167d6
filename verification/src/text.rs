use vstd::prelude::*;

verus! {

/// The characters of a string.
pub fn chars_of(s: &str) -> (r: Vec<char>)
    ensures
        r@ == s@,
{
    broadcast use vstd::string::axiom_spec_iter;

    let mut out: Vec<char> = Vec::new();
    for c in it: s.chars()
        invariant
            out@ == it.seq().take(it.index() as int),
    {
        out.push(c);
    }
    out
}

/// The string made of the given characters, through std's `String::from_iter`. Trusted: the
/// string holds exactly those characters, in order, as std documents.
#[verifier::external_body]
pub(crate) fn string_from_chars(cs: &[char]) -> (r: String)
    ensures
        r@ == cs@,
{
    String::from_iter(cs.iter())
}

/// Whether `c` is an ASCII decimal digit.
pub open spec fn is_digit(c: char) -> bool {
    '0' <= c && c <= '9'
}

/// The value of an ASCII decimal digit.
pub open spec fn digit_value(c: char) -> nat {
    (c as u32 - '0' as u32) as nat
}

/// The digit character for a value below ten.
pub open spec fn digit_char(d: nat) -> char {
    (d + '0' as u32) as char
}

/// Whether every character of `s` is an ASCII decimal digit.
pub open spec fn all_digits(s: Seq<char>) -> bool {
    forall|i: int| 0 <= i < s.len() ==> is_digit(#[trigger] s[i])
}

/// The number a string of decimal digits spells.
pub open spec fn digits_value(s: Seq<char>) -> nat
    decreases s.len(),
{
    if s.len() == 0 {
        0
    } else {
        digits_value(s.drop_last()) * 10 + digit_value(s.last())
    }
}

/// The decimal spelling of `n`, without leading zeros.
pub open spec fn decimal(n: nat) -> Seq<char>
    decreases n,
{
    if n < 10 {
        seq![digit_char(n)]
    } else {
        decimal(n / 10).push(digit_char(n % 10))
    }
}

/// What parsing `s` as an unsigned 64-bit decimal number gives: an optional leading `+`,
/// then at least one ASCII digit and nothing else, with a value that fits.
pub open spec fn parse_u64_spec(s: Seq<char>) -> Option<u64> {
    let digits = if s.len() > 0 && s[0] == '+' {
        s.drop_first()
    } else {
        s
    };
    if digits.len() > 0 && all_digits(digits) && digits_value(digits) <= u64::MAX {
        Some(digits_value(digits) as u64)
    } else {
        None
    }
}

fn digit_to_char(d: u64) -> (c: char)
    requires
        d < 10,
    ensures
        c == digit_char(d as nat),
{
    match d {
        0 => '0',
        1 => '1',
        2 => '2',
        3 => '3',
        4 => '4',
        5 => '5',
        6 => '6',
        7 => '7',
        8 => '8',
        _ => '9',
    }
}

/// The decimal digits of `n`.
pub fn decimal_chars(n: u64) -> (r: Vec<char>)
    ensures
        r@ == decimal(n as nat),
    decreases n,
{
    if n < 10 {
        let mut v = Vec::new();
        v.push(digit_to_char(n));
        assert(v@ =~= decimal(n as nat));
        v
    } else {
        let mut v = decimal_chars(n / 10);
        v.push(digit_to_char(n % 10));
        v
    }
}

/// The decimal spelling of `n` as a string.
pub fn decimal_string(n: u64) -> (r: String)
    ensures
        r@ == decimal(n as nat),
{
    let v = decimal_chars(n);
    string_from_chars(v.as_slice())
}

fn digit_to_char_u128(d: u128) -> (c: char)
    requires
        d < 10,
    ensures
        c == digit_char(d as nat),
{
    digit_to_char(d as u64)
}

/// The decimal digits of a 128-bit `n`.
pub fn decimal_chars_u128(n: u128) -> (r: Vec<char>)
    ensures
        r@ == decimal(n as nat),
    decreases n,
{
    if n < 10 {
        let mut v = Vec::new();
        v.push(digit_to_char_u128(n));
        assert(v@ =~= decimal(n as nat));
        v
    } else {
        let mut v = decimal_chars_u128(n / 10);
        v.push(digit_to_char_u128(n % 10));
        v
    }
}

/// The decimal spelling of a 128-bit `n` as a string.
pub fn decimal_string_u128(n: u128) -> (r: String)
    ensures
        r@ == decimal(n as nat),
{
    let v = decimal_chars_u128(n);
    string_from_chars(v.as_slice())
}

/// Parses an unsigned 64-bit decimal number: an optional `+`, then digits only.
pub fn parse_u64(s: &[char]) -> (r: Option<u64>)
    ensures
        r == parse_u64_spec(s@),
{
    let start: usize = if s.len() > 0 && s[0] == '+' {
        1
    } else {
        0
    };
    let ghost digits = if s@.len() > 0 && s@[0] == '+' {
        s@.drop_first()
    } else {
        s@
    };
    assert(digits =~= s@.subrange(start as int, s@.len() as int));
    if start >= s.len() {
        return None;
    }
    let mut value: u64 = 0;
    let mut i: usize = start;
    while i < s.len()
        invariant
            start <= i <= s.len(),
            digits == s@.subrange(start as int, s@.len() as int),
            digits == (if s@.len() > 0 && s@[0] == '+' {
                s@.drop_first()
            } else {
                s@
            }),
            all_digits(s@.subrange(start as int, i as int)),
            value == digits_value(s@.subrange(start as int, i as int)),
        decreases s.len() - i,
    {
        let c = s[i];
        let ghost prefix = s@.subrange(start as int, i as int);
        let ghost next = s@.subrange(start as int, i + 1);
        assert(next.drop_last() =~= prefix);
        if !('0' <= c && c <= '9') {
            assert(digits[i - start] == c);
            assert(!is_digit(digits[i - start]));
            assert(!all_digits(digits));
            return None;
        }
        let d = (c as u32 - '0' as u32) as u64;
        if value > (u64::MAX - d) / 10 {
            proof {
                assert(digits_value(next) == value * 10 + d);
                assert(value * 10 + d > u64::MAX) by (nonlinear_arith)
                    requires
                        value > (u64::MAX - d) / 10,
                        d < 10,
                ;
                lemma_digits_value_grows(digits, (i + 1 - start) as int);
                assert(digits.subrange(0, (i + 1 - start) as int) =~= next);
            }
            return None;
        }
        proof {
            assert(value * 10 + d <= u64::MAX) by (nonlinear_arith)
                requires
                    value <= (u64::MAX - d) / 10,
                    d < 10,
            ;
        }
        value = value * 10 + d;
        i = i + 1;
    }
    assert(s@.subrange(start as int, i as int) =~= digits);
    Some(value)
}

/// A number spelled by digits is at least the number spelled by any prefix of them.
pub proof fn lemma_digits_value_grows(s: Seq<char>, k: int)
    requires
        0 <= k <= s.len(),
    ensures
        digits_value(s) >= digits_value(s.subrange(0, k)),
    decreases s.len() - k,
{
    if k < s.len() {
        lemma_digits_value_grows(s, k + 1);
        assert(s.subrange(0, k + 1).drop_last() =~= s.subrange(0, k));
        assert(digits_value(s.subrange(0, k + 1)) >= digits_value(s.subrange(0, k))) by (
        nonlinear_arith)
            requires
                digits_value(s.subrange(0, k + 1)) == digits_value(s.subrange(0, k)) * 10
                    + digit_value(s.subrange(0, k + 1).last()),
        ;
    } else {
        assert(s.subrange(0, k) =~= s);
    }
}

/// Whether `a` and `b` hold the same characters.
pub fn chars_eq(a: &[char], b: &[char]) -> (r: bool)
    ensures
        r == (a@ == b@),
{
    if a.len() != b.len() {
        return false;
    }
    let mut i: usize = 0;
    while i < a.len()
        invariant
            a.len() == b.len(),
            i <= a.len(),
            forall|j: int| 0 <= j < i ==> a@[j] == b@[j],
        decreases a.len() - i,
    {
        if a[i] != b[i] {
            return false;
        }
        i = i + 1;
    }
    assert(a@ =~= b@);
    true
}

/// Whether the string `a` equals the string `b`.
pub fn str_eq(a: &str, b: &str) -> (r: bool)
    ensures
        r == (a@ == b@),
{
    let x = chars_of(a);
    let y = chars_of(b);
    chars_eq(x.as_slice(), y.as_slice())
}

/// A copy of a string.
pub fn copy_str(s: &str) -> (r: String)
    ensures
        r@ == s@,
{
    String::from_str(s)
}

/// The concatenation of two strings.
pub fn concat_str(a: &str, b: &str) -> (r: String)
    ensures
        r@ == a@ + b@,
{
    let mut s = String::from_str(a);
    s.append(b);
    s
}

/// Whether `ch` is white space: the Unicode `White_Space` characters.
pub open spec fn is_white(ch: char) -> bool {
    ('\u{9}' <= ch && ch <= '\u{d}') || ch == ' ' || ch == '\u{85}' || ch == '\u{a0}' || ch
        == '\u{1680}' || ('\u{2000}' <= ch && ch <= '\u{200a}') || ch == '\u{2028}' || ch
        == '\u{2029}' || ch == '\u{202f}' || ch == '\u{205f}' || ch == '\u{3000}'
}

/// `s` without its leading white space.
pub open spec fn trim_start(s: Seq<char>) -> Seq<char>
    decreases s.len(),
{
    if s.len() > 0 && is_white(s[0]) {
        trim_start(s.drop_first())
    } else {
        s
    }
}

/// `s` without its trailing white space.
pub open spec fn trim_end(s: Seq<char>) -> Seq<char>
    decreases s.len(),
{
    if s.len() > 0 && is_white(s.last()) {
        trim_end(s.drop_last())
    } else {
        s
    }
}

/// `s` without leading or trailing white space.
pub open spec fn trim(s: Seq<char>) -> Seq<char> {
    trim_end(trim_start(s))
}

/// Whether `ch` is white space.
pub fn char_is_white(ch: char) -> (r: bool)
    ensures
        r == is_white(ch),
{
    ('\u{9}' <= ch && ch <= '\u{d}') || ch == ' ' || ch == '\u{85}' || ch == '\u{a0}' || ch
        == '\u{1680}' || ('\u{2000}' <= ch && ch <= '\u{200a}') || ch == '\u{2028}' || ch
        == '\u{2029}' || ch == '\u{202f}' || ch == '\u{205f}' || ch == '\u{3000}'
}

/// The characters of `s` without leading or trailing white space.
pub fn trim_chars(s: &[char]) -> (r: Vec<char>)
    ensures
        r@ == trim(s@),
{
    let n = s.len();
    let mut lo: usize = 0;
    assert(s@.subrange(0, n as int) =~= s@);
    while lo < n && char_is_white(s[lo])
        invariant
            n == s@.len(),
            lo <= n,
            trim_start(s@) == trim_start(s@.subrange(lo as int, n as int)),
        decreases n - lo,
    {
        assert(s@.subrange(lo as int, n as int).drop_first() =~= s@.subrange(lo + 1, n as int));
        lo = lo + 1;
    }
    let ghost front = s@.subrange(lo as int, n as int);
    assert(trim_start(s@) == front);
    let mut hi: usize = n;
    assert(front == s@.subrange(lo as int, hi as int));
    while hi > lo && char_is_white(s[hi - 1])
        invariant
            n == s@.len(),
            lo <= hi <= n,
            front == s@.subrange(lo as int, n as int),
            trim_end(front) == trim_end(s@.subrange(lo as int, hi as int)),
        decreases hi - lo,
    {
        assert(s@.subrange(lo as int, hi as int).drop_last() =~= s@.subrange(lo as int, hi - 1));
        hi = hi - 1;
    }
    let mut r: Vec<char> = Vec::new();
    let mut k: usize = lo;
    while k < hi
        invariant
            lo <= k <= hi <= n,
            n == s@.len(),
            r@ == s@.subrange(lo as int, k as int),
        decreases hi - k,
    {
        r.push(s[k]);
        assert(r@ =~= s@.subrange(lo as int, k + 1));
        k = k + 1;
    }
    r
}

/// Whether `h` holds `needle` at `i`.
pub open spec fn occurs_at(h: Seq<char>, needle: Seq<char>, i: int) -> bool {
    0 <= i && i + needle.len() <= h.len() && h.subrange(i, i + needle.len()) == needle
}

/// The first position at or after `from` where `needle` occurs in `h`.
pub open spec fn find_from(h: Seq<char>, needle: Seq<char>, from: int) -> Option<int>
    decreases h.len() - from,
{
    if from < 0 || from + needle.len() > h.len() {
        None
    } else if occurs_at(h, needle, from) {
        Some(from)
    } else if from >= h.len() {
        None
    } else {
        find_from(h, needle, from + 1)
    }
}

/// A position found by `find_from` holds the needle and lies at or after where the search began,
/// and no earlier position from there holds it.
pub proof fn lemma_find_from(h: Seq<char>, needle: Seq<char>, from: int)
    ensures
        find_from(h, needle, from) matches Some(p) ==> from <= p && occurs_at(h, needle, p)
            && forall|q: int| from <= q < p ==> !#[trigger] occurs_at(h, needle, q),
    decreases h.len() - from,
{
    if from < 0 || from + needle.len() > h.len() {
    } else if occurs_at(h, needle, from) {
    } else if from >= h.len() {
    } else {
        lemma_find_from(h, needle, from + 1);
    }
}

/// Whether `h` holds `needle` at `i`.
pub fn matches_at(h: &[char], needle: &[char], i: usize) -> (r: bool)
    ensures
        r == occurs_at(h@, needle@, i as int),
{
    let n = h.len();
    if i > n || needle.len() > n - i {
        return false;
    }
    let mut k: usize = 0;
    while k < needle.len()
        invariant
            n == h@.len(),
            i + needle@.len() <= n,
            k <= needle@.len(),
            forall|q: int| 0 <= q < k ==> h@[i + q] == needle@[q],
        decreases needle@.len() - k,
    {
        if h[i + k] != needle[k] {
            assert(h@.subrange(i as int, i + needle@.len())[k as int] != needle@[k as int]);
            return false;
        }
        k = k + 1;
    }
    assert(h@.subrange(i as int, i + needle@.len()) =~= needle@);
    true
}

/// The first position at or after `from` where `needle` occurs in `h`.
pub fn find_chars(h: &[char], needle: &[char], from: usize) -> (r: Option<usize>)
    ensures
        match r {
            Some(p) => find_from(h@, needle@, from as int) == Some(p as int),
            None => find_from(h@, needle@, from as int) is None,
        },
{
    let n = h.len();
    let mut i = from;
    while i <= n && needle.len() <= n - i
        invariant
            n == h@.len(),
            from <= i,
            find_from(h@, needle@, i as int) == find_from(h@, needle@, from as int),
        decreases n - i,
    {
        if matches_at(h, needle, i) {
            return Some(i);
        }
        if i >= n {
            return None;
        }
        i = i + 1;
    }
    None
}

} // verus!
