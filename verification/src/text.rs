//! Character-level helpers: ASCII case folding, substring search and
//! decimal numbers, all stated over `Seq<char>`.
use vstd::prelude::*;

verus! {

/// ASCII lower-casing of one character; every other character is kept.
pub open spec fn lower_char(c: char) -> char {
    if 'A' <= c && c <= 'Z' {
        ((c as u32) + 32) as char
    } else {
        c
    }
}

/// ASCII lower-casing of a whole text, as `str::to_ascii_lowercase` does.
pub open spec fn lower(s: Seq<char>) -> Seq<char> {
    s.map_values(|c: char| lower_char(c))
}

/// `needle` occurs in `hay` as a contiguous piece.
pub open spec fn contains(hay: Seq<char>, needle: Seq<char>) -> bool {
    exists|i: int|
        0 <= i && i + needle.len() <= hay.len() && #[trigger] hay.subrange(i, i + needle.len())
            == needle
}

/// `s` begins with `prefix`.
pub open spec fn has_prefix(s: Seq<char>, prefix: Seq<char>) -> bool {
    prefix.len() <= s.len() && s.subrange(0, prefix.len() as int) == prefix
}

/// `s` ends with `suffix`.
pub open spec fn has_suffix(s: Seq<char>, suffix: Seq<char>) -> bool {
    suffix.len() <= s.len() && s.subrange(s.len() - suffix.len(), s.len() as int) == suffix
}

/// Equality up to ASCII case, as `str::eq_ignore_ascii_case` decides it.
pub open spec fn eq_ignore_case(a: Seq<char>, b: Seq<char>) -> bool {
    lower(a) == lower(b)
}

/// The characters of a string slice, in order.
pub fn chars_of(s: &str) -> (r: Vec<char>)
    ensures
        r@ == s@,
{
    let mut r: Vec<char> = Vec::new();
    for c in it: s.chars()
        invariant
            r@ == it.seq().take(it.index() as int),
            it.seq() == s@,
    {
        r.push(c);
    }
    r
}

/// Builds a `String` out of characters (std's `FromIterator<char>` for
/// `String`); the contract claims the string holds exactly those characters.
#[verifier::external_body]
pub fn string_of(cs: &Vec<char>) -> (s: String)
    ensures
        s@ == cs@,
{
    String::from_iter(cs.iter())
}

fn lower_one(c: char) -> (r: char)
    ensures
        r == lower_char(c),
{
    if 'A' <= c && c <= 'Z' {
        let b: u8 = (c as u8) + 32;
        b as char
    } else {
        c
    }
}

/// ASCII lower-cased copy of the characters.
pub fn lower_chars(s: &Vec<char>) -> (r: Vec<char>)
    ensures
        r@ == lower(s@),
{
    let mut r: Vec<char> = Vec::new();
    let n = s.len();
    for i in 0..n
        invariant
            n == s@.len(),
            r@ == lower(s@.take(i as int)),
    {
        r.push(lower_one(s[i]));
        assert(lower(s@.take(i + 1)) =~= lower(s@.take(i as int)).push(lower_char(s@[i as int])));
    }
    assert(s@.take(n as int) =~= s@);
    r
}

/// ASCII lower-cased characters of a string slice.
pub fn lower_str(s: &str) -> (r: Vec<char>)
    ensures
        r@ == lower(s@),
{
    lower_chars(&chars_of(s))
}

/// Whether `needle` occurs at position `at` of `hay`.
fn occurs_at(hay: &Vec<char>, needle: &Vec<char>, at: usize) -> (r: bool)
    requires
        at + needle@.len() <= hay@.len(),
    ensures
        r == (hay@.subrange(at as int, at + needle@.len()) == needle@),
{
    let n = needle.len();
    let mut j: usize = 0;
    while j < n
        invariant
            n == needle@.len(),
            at + n <= hay.len(),
            j <= n,
            forall|k: int| 0 <= k < j ==> hay@[at + k] == needle@[k],
        decreases n - j,
    {
        if hay[at + j] != needle[j] {
            assert(hay@.subrange(at as int, at + n)[j as int] != needle@[j as int]);
            return false;
        }
        j = j + 1;
    }
    assert(hay@.subrange(at as int, at + n) =~= needle@);
    true
}

/// Substring search.
pub fn contains_chars(hay: &Vec<char>, needle: &Vec<char>) -> (r: bool)
    ensures
        r == contains(hay@, needle@),
{
    if needle.len() == 0 {
        assert(hay@.subrange(0int, 0int + needle@.len()) =~= needle@);
        return true;
    }
    if needle.len() > hay.len() {
        return false;
    }
    let last = hay.len() - needle.len();
    let mut i: usize = 0;
    while i <= last
        invariant
            needle@.len() > 0,
            last + needle.len() == hay.len(),
            i <= last + 1,
            forall|k: int| 0 <= k < i ==> #[trigger] hay@.subrange(k, k + needle@.len()) != needle@,
        decreases last + 1 - i,
    {
        if occurs_at(hay, needle, i) {
            return true;
        }
        i = i + 1;
    }
    false
}

/// Substring search for a literal needle.
pub fn contains_str(hay: &Vec<char>, needle: &str) -> (r: bool)
    ensures
        r == contains(hay@, needle@),
{
    contains_chars(hay, &chars_of(needle))
}

/// Prefix test for a literal prefix.
pub fn starts_with_str(s: &Vec<char>, prefix: &str) -> (r: bool)
    ensures
        r == has_prefix(s@, prefix@),
{
    let p = chars_of(prefix);
    if p.len() > s.len() {
        return false;
    }
    occurs_at(s, &p, 0)
}

/// Suffix test for a literal suffix.
pub fn ends_with_str(s: &Vec<char>, suffix: &str) -> (r: bool)
    ensures
        r == has_suffix(s@, suffix@),
{
    let p = chars_of(suffix);
    if p.len() > s.len() {
        return false;
    }
    occurs_at(s, &p, s.len() - p.len())
}

/// Character-wise equality.
pub fn same_chars(a: &Vec<char>, b: &Vec<char>) -> (r: bool)
    ensures
        r == (a@ == b@),
{
    if a.len() != b.len() {
        return false;
    }
    let r = occurs_at(a, b, 0);
    assert(a@.subrange(0, b@.len() as int) =~= a@);
    r
}

/// String equality.
pub fn same_str(a: &str, b: &str) -> (r: bool)
    ensures
        r == (a@ == b@),
{
    same_chars(&chars_of(a), &chars_of(b))
}

/// A decimal digit `0`..`9`.
pub open spec fn is_digit(c: char) -> bool {
    '0' <= c && c <= '9'
}

/// The value of a decimal digit.
pub open spec fn digit_value(c: char) -> nat {
    ((c as u32) - ('0' as u32)) as nat
}

/// The character of a decimal digit `d < 10`.
pub open spec fn digit_char(d: u32) -> char {
    ((d + 48) as u8) as char
}

/// Every character is a decimal digit.
pub open spec fn all_digits(s: Seq<char>) -> bool {
    forall|i: int| 0 <= i < s.len() ==> is_digit(#[trigger] s[i])
}

/// The number that a run of decimal digits denotes.
pub open spec fn decimal_value(s: Seq<char>) -> nat
    decreases s.len(),
{
    if s.len() == 0 {
        0
    } else {
        decimal_value(s.drop_last()) * 10 + digit_value(s.last())
    }
}

/// What `str::parse::<u32>` gives: an optional `+`, then one or more decimal
/// digits denoting a number that fits in 32 bits.
pub open spec fn parse_u32(s: Seq<char>) -> Option<u32> {
    let ds = if s.len() > 0 && s[0] == '+' {
        s.drop_first()
    } else {
        s
    };
    if ds.len() > 0 && all_digits(ds) && decimal_value(ds) <= u32::MAX {
        Some(decimal_value(ds) as u32)
    } else {
        None
    }
}

/// The shortest decimal spelling of `n`, as `u32::to_string` writes it.
pub open spec fn decimal(n: u32) -> Seq<char>
    decreases n,
{
    if n < 10 {
        seq![digit_char(n)]
    } else {
        decimal(n / 10).push(digit_char(n % 10))
    }
}

proof fn lemma_digit_char(d: u32)
    requires
        d < 10,
    ensures
        is_digit(digit_char(d)),
        digit_value(digit_char(d)) == d,
{
}

/// The digits of `n` spell `n`: every character is a digit, the first is no
/// sign, and the value read back is `n`.
pub proof fn lemma_decimal(n: u32)
    ensures
        decimal(n).len() > 0,
        all_digits(decimal(n)),
        decimal_value(decimal(n)) == n,
    decreases n,
{
    if n < 10 {
        lemma_digit_char(n);
        assert(decimal(n).drop_last() =~= Seq::<char>::empty());
        assert(decimal_value(Seq::<char>::empty()) == 0);
        assert(decimal(n).last() == digit_char(n));
    } else {
        lemma_decimal(n / 10);
        lemma_digit_char(n % 10);
        assert(decimal(n).drop_last() =~= decimal(n / 10));
        assert(decimal(n).last() == digit_char(n % 10));
        assert(n == (n / 10) * 10 + n % 10);
    }
}

/// Reading back what `decimal` writes gives the number again.
pub proof fn lemma_parse_decimal(n: u32)
    ensures
        parse_u32(decimal(n)) == Some(n),
{
    lemma_decimal(n);
    assert(is_digit(decimal(n)[0]));
}

fn digit_of(d: u32) -> (c: char)
    requires
        d < 10,
    ensures
        c == digit_char(d),
{
    let b: u8 = (d as u8) + 48;
    b as char
}

fn push_decimal(n: u32, out: &mut Vec<char>)
    ensures
        final(out)@ == old(out)@ + decimal(n),
    decreases n,
{
    if n >= 10 {
        push_decimal(n / 10, out);
    }
    out.push(digit_of(n % 10));
    proof {
        if n < 10 {
            assert(decimal(n) =~= seq![digit_char(n)]);
        }
    }
}

/// The decimal spelling of `n`.
pub fn format_u32(n: u32) -> (s: String)
    ensures
        s@ == decimal(n),
{
    let mut cs: Vec<char> = Vec::new();
    push_decimal(n, &mut cs);
    assert(cs@ =~= decimal(n));
    string_of(&cs)
}

proof fn lemma_value_capped(s: Seq<char>, c: char, v: nat)
    requires
        v == if decimal_value(s) < 0x1_0000_0000 { decimal_value(s) } else { 0x1_0000_0000nat },
        is_digit(c),
    ensures
        ({
            let w = v * 10 + digit_value(c);
            let t = s.push(c);
            (if w < 0x1_0000_0000 { w } else { 0x1_0000_0000nat }) == (if decimal_value(t)
                < 0x1_0000_0000 {
                decimal_value(t)
            } else {
                0x1_0000_0000nat
            })
        }),
{
    assert(s.push(c).drop_last() =~= s);
}

/// Parses a decimal number the way `str::parse::<u32>` does.
pub fn parse_u32_chars(s: &Vec<char>) -> (r: Option<u32>)
    ensures
        r == parse_u32(s@),
{
    let n = s.len();
    let mut start: usize = 0;
    if n > 0 && s[0] == '+' {
        start = 1;
    }
    let ghost ds = if s@.len() > 0 && s@[0] == '+' {
        s@.drop_first()
    } else {
        s@
    };
    assert(ds =~= s@.subrange(start as int, n as int));
    if start == n {
        return None;
    }
    // the value read so far, held at 2^32 once it no longer fits
    let mut acc: u64 = 0;
    let mut i: usize = start;
    while i < n
        invariant
            n == s@.len(),
            start <= i <= n,
            ds == s@.subrange(start as int, n as int),
            ds == (if s@.len() > 0 && s@[0] == '+' {
                s@.drop_first()
            } else {
                s@
            }),
            all_digits(s@.subrange(start as int, i as int)),
            acc == if decimal_value(s@.subrange(start as int, i as int)) < 0x1_0000_0000 {
                decimal_value(s@.subrange(start as int, i as int))
            } else {
                0x1_0000_0000nat
            },
        decreases n - i,
    {
        let c = s[i];
        if !('0' <= c && c <= '9') {
            assert(ds[i - start] == c);
            assert(!is_digit(ds[i - start]));
            return None;
        }
        proof {
            lemma_value_capped(s@.subrange(start as int, i as int), c, acc as nat);
            assert(s@.subrange(start as int, i as int).push(c) =~= s@.subrange(
                start as int,
                i + 1,
            ));
        }
        let d: u64 = ((c as u32) - ('0' as u32)) as u64;
        let w: u64 = acc * 10 + d;
        acc = if w < 0x1_0000_0000 { w } else { 0x1_0000_0000 };
        i = i + 1;
    }
    if acc < 0x1_0000_0000 {
        Some(acc as u32)
    } else {
        None
    }
}

/// A text found inside a piece is found inside anything built around it.
pub proof fn lemma_contains_within(x: Seq<char>, m: Seq<char>, y: Seq<char>, needle: Seq<char>)
    requires
        contains(m, needle),
    ensures
        contains(x + m + y, needle),
{
    let i = choose|i: int|
        0 <= i && i + needle.len() <= m.len() && #[trigger] m.subrange(i, i + needle.len())
            == needle;
    let t = x + m + y;
    let j = x.len() + i;
    assert(t.subrange(j, j + needle.len()) =~= m.subrange(i, i + needle.len()));
}

/// Lower-casing goes piece by piece.
pub proof fn lemma_lower_joined(x: Seq<char>, m: Seq<char>, y: Seq<char>)
    ensures
        lower(x + m + y) == lower(x) + lower(m) + lower(y),
{
    assert(lower(x + m + y) =~= lower(x) + lower(m) + lower(y));
}

} // verus!
