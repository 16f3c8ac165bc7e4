//! Text scanning on character sequences: whitespace, tokens, decimal numbers.

use vstd::prelude::*;
use vstd::std_specs::iter::IteratorSpec;
use vstd::string::*;

verus! {

/// Whether `c` is a Unicode white-space character.
pub open spec fn is_whitespace(c: char) -> bool {
    let n = c as u32;
    ||| 0x09 <= n <= 0x0D
    ||| n == 0x20
    ||| n == 0x85
    ||| n == 0xA0
    ||| n == 0x1680
    ||| 0x2000 <= n <= 0x200A
    ||| n == 0x2028
    ||| n == 0x2029
    ||| n == 0x202F
    ||| n == 0x205F
    ||| n == 0x3000
}

/// Executable test for white space.
pub fn char_is_whitespace(c: char) -> (r: bool)
    ensures
        r == is_whitespace(c),
{
    let n: u32 = c as u32;
    (0x09 <= n && n <= 0x0D) || n == 0x20 || n == 0x85 || n == 0xA0 || n == 0x1680 || (0x2000 <= n
        && n <= 0x200A) || n == 0x2028 || n == 0x2029 || n == 0x202F || n == 0x205F || n == 0x3000
}

/// The characters of `s`, in order.
pub fn str_chars(s: &str) -> (v: Vec<char>)
    ensures
        v@ == s@,
{
    let mut v: Vec<char> = Vec::new();
    for c in it: s.chars()
        invariant
            it.seq() == s@,
            v@ == it.seq().take(it.index() as int),
    {
        v.push(c);
    }
    v
}

/// End of the run of non-white-space characters that starts at `i`.
pub open spec fn word_end(s: Seq<char>, i: int) -> int
    decreases s.len() - i,
{
    if 0 <= i < s.len() && !is_whitespace(s[i]) {
        word_end(s, i + 1)
    } else {
        i
    }
}

pub proof fn lemma_word_end_bounds(s: Seq<char>, i: int)
    requires
        0 <= i <= s.len(),
    ensures
        i <= word_end(s, i) <= s.len(),
        forall|j: int| i <= j < word_end(s, i) ==> !is_whitespace(#[trigger] s[j]),
        word_end(s, i) < s.len() ==> is_whitespace(s[word_end(s, i)]),
    decreases s.len() - i,
{
    if i < s.len() && !is_whitespace(s[i]) {
        lemma_word_end_bounds(s, i + 1);
    }
}

/// The white-space separated words of `s` that start at or after `i`.
pub open spec fn words_from(s: Seq<char>, i: int) -> Seq<Seq<char>>
    decreases s.len() - i,
{
    if i < 0 || i >= s.len() {
        Seq::empty()
    } else if is_whitespace(s[i]) {
        words_from(s, i + 1)
    } else {
        proof {
            lemma_word_end_bounds(s, i + 1);
        }
        let e = word_end(s, i + 1);
        seq![s.subrange(i, e)] + words_from(s, e)
    }
}

/// The maximal runs of non-white-space characters of `s`, in order.
pub open spec fn split_whitespace(s: Seq<char>) -> Seq<Seq<char>> {
    words_from(s, 0)
}

/// The pieces of `s` that the index pairs `r` cut out.
pub open spec fn slices(s: Seq<char>, r: Seq<(usize, usize)>) -> Seq<Seq<char>> {
    Seq::new(r.len(), |k: int| s.subrange(r[k].0 as int, r[k].1 as int))
}

/// Every pair of `r` is a range inside a sequence of length `n`.
pub open spec fn ranges_within(r: Seq<(usize, usize)>, n: nat) -> bool {
    forall|k: int| 0 <= k < r.len() ==> (#[trigger] r[k]).0 <= r[k].1 <= n
}

/// Positions of the white-space separated words of `chars`.
pub fn word_ranges(chars: &Vec<char>) -> (r: Vec<(usize, usize)>)
    ensures
        ranges_within(r@, chars@.len()),
        slices(chars@, r@) == split_whitespace(chars@),
{
    let n: usize = chars.len();
    let mut r: Vec<(usize, usize)> = Vec::new();
    let mut i: usize = 0;
    while i < n
        invariant
            n == chars@.len(),
            i <= n,
            ranges_within(r@, chars@.len()),
            split_whitespace(chars@) == slices(chars@, r@) + words_from(chars@, i as int),
        decreases n - i,
    {
        if char_is_whitespace(chars[i]) {
            i += 1;
        } else {
            let start: usize = i;
            i += 1;
            while i < n && !char_is_whitespace(chars[i])
                invariant
                    n == chars@.len(),
                    start < i <= n,
                    word_end(chars@, start as int + 1) == word_end(chars@, i as int),
                decreases n - i,
            {
                i += 1;
            }
            proof {
                let ghost old_r = r@;
                assert(word_end(chars@, i as int) == i);
                assert(slices(chars@, old_r.push((start, i))) =~= slices(chars@, old_r)
                    + seq![chars@.subrange(start as int, i as int)]);
            }
            r.push((start, i));
        }
    }
    r
}

/// `s` without its leading white space.
pub open spec fn trim_start(s: Seq<char>) -> Seq<char>
    decreases s.len(),
{
    if s.len() > 0 && is_whitespace(s[0]) {
        trim_start(s.skip(1))
    } else {
        s
    }
}

/// `s` without its trailing white space.
pub open spec fn trim_end(s: Seq<char>) -> Seq<char>
    decreases s.len(),
{
    if s.len() > 0 && is_whitespace(s.last()) {
        trim_end(s.drop_last())
    } else {
        s
    }
}

/// `s` without leading and trailing white space.
pub open spec fn trim(s: Seq<char>) -> Seq<char> {
    trim_end(trim_start(s))
}

/// Position of `chars` without its leading and trailing white space.
pub fn trim_range(chars: &Vec<char>) -> (r: (usize, usize))
    ensures
        r.0 <= r.1 <= chars@.len(),
        chars@.subrange(r.0 as int, r.1 as int) == trim(chars@),
{
    let n: usize = chars.len();
    let mut a: usize = 0;
    assert(chars@.subrange(0, n as int) =~= chars@);
    while a < n && char_is_whitespace(chars[a])
        invariant
            n == chars@.len(),
            a <= n,
            trim_start(chars@) == trim_start(chars@.subrange(a as int, n as int)),
        decreases n - a,
    {
        assert(chars@.subrange(a as int, n as int).skip(1) =~= chars@.subrange(
            a as int + 1,
            n as int,
        ));
        a += 1;
    }
    let mut b: usize = n;
    while b > a && char_is_whitespace(chars[b - 1])
        invariant
            n == chars@.len(),
            a <= b <= n,
            trim(chars@) == trim_end(chars@.subrange(a as int, b as int)),
        decreases b,
    {
        assert(chars@.subrange(a as int, b as int).drop_last() =~= chars@.subrange(
            a as int,
            b as int - 1,
        ));
        b -= 1;
    }
    (a, b)
}

/// Whether the characters of `chars` from `a` up to `b` begin with `prefix`.
pub fn range_starts_with(chars: &Vec<char>, a: usize, b: usize, prefix: &str) -> (r: bool)
    requires
        a <= b <= chars@.len(),
    ensures
        r == prefix@.is_prefix_of(chars@.subrange(a as int, b as int)),
{
    let m: usize = prefix.unicode_len();
    if m > b - a {
        return false;
    }
    let mut j: usize = 0;
    while j < m
        invariant
            a <= b <= chars@.len(),
            m == prefix@.len(),
            m <= b - a,
            j <= m,
            forall|k: int| 0 <= k < j ==> chars@[a + k] == prefix@[k],
        decreases m - j,
    {
        if chars[a + j] != prefix.get_char(j) {
            assert(chars@.subrange(a as int, b as int).subrange(0, m as int)[j as int]
                != prefix@[j as int]);
            return false;
        }
        j += 1;
    }
    assert(prefix@ =~= chars@.subrange(a as int, b as int).subrange(0, m as int));
    true
}

/// Whether the characters of `chars` from `a` up to `b` spell `word`.
pub fn range_equals(chars: &Vec<char>, a: usize, b: usize, word: &str) -> (r: bool)
    requires
        a <= b <= chars@.len(),
    ensures
        r == (chars@.subrange(a as int, b as int) == word@),
{
    let m: usize = word.unicode_len();
    if m != b - a {
        return false;
    }
    let r = range_starts_with(chars, a, b, word);
    assert(chars@.subrange(a as int, b as int).subrange(0, m as int) =~= chars@.subrange(
        a as int,
        b as int,
    ));
    r
}

/// Whether `c` is one of the ten decimal digits.
pub open spec fn is_digit(c: char) -> bool {
    0x30 <= c as u32 <= 0x39
}

/// The number that the digit `c` stands for.
pub open spec fn digit_value(c: char) -> nat {
    if is_digit(c) {
        (c as u32 - 0x30) as nat
    } else {
        0
    }
}

/// Whether `s` holds decimal digits only.
pub open spec fn all_digits(s: Seq<char>) -> bool {
    forall|i: int| 0 <= i < s.len() ==> is_digit(#[trigger] s[i])
}

/// The number that the decimal digits `s` spell, most significant first.
pub open spec fn digits_value(s: Seq<char>) -> nat
    decreases s.len(),
{
    if s.len() == 0 {
        0
    } else {
        digits_value(s.drop_last()) * 10 + digit_value(s.last())
    }
}

/// The number that `s` spells, if `s` is a non-empty run of digits whose
/// value does not exceed `limit`.
pub open spec fn decimal_value(s: Seq<char>, limit: nat) -> Option<nat> {
    if s.len() > 0 && all_digits(s) && digits_value(s) <= limit {
        Some(digits_value(s))
    } else {
        None
    }
}

/// A run of digits is worth at least as much as any of its prefixes.
pub proof fn lemma_digits_value_prefix(s: Seq<char>, k: int)
    requires
        0 <= k <= s.len(),
    ensures
        digits_value(s.take(k)) <= digits_value(s),
    decreases s.len(),
{
    if k == s.len() {
        assert(s.take(k) =~= s);
    } else {
        lemma_digits_value_prefix(s.drop_last(), k);
        assert(s.drop_last().take(k) =~= s.take(k));
    }
}

/// Reads the characters of `chars` from `a` up to `b` as a decimal number
/// that does not exceed `limit`.
pub fn parse_digits(chars: &Vec<char>, a: usize, b: usize, limit: u64) -> (r: Option<u64>)
    requires
        a <= b <= chars@.len(),
    ensures
        match decimal_value(chars@.subrange(a as int, b as int), limit as nat) {
            Some(v) => r == Some(v as u64),
            None => r is None,
        },
{
    if a == b {
        return None;
    }
    let ghost s = chars@.subrange(a as int, b as int);
    let mut acc: u64 = 0;
    let mut i: usize = a;
    assert(s.take(0) =~= Seq::<char>::empty());
    while i < b
        invariant
            a <= i <= b <= chars@.len(),
            s == chars@.subrange(a as int, b as int),
            all_digits(s.take(i - a)),
            acc == digits_value(s.take(i - a)),
            acc <= limit,
        decreases b - i,
    {
        let n: u32 = chars[i] as u32;
        if n < 0x30 || n > 0x39 {
            assert(!is_digit(s[i - a]));
            return None;
        }
        let d: u64 = (n - 0x30) as u64;
        proof {
            assert(s.take(i - a + 1).drop_last() =~= s.take(i - a));
            assert(s.take(i - a + 1).last() == s[i - a]);
            lemma_digits_value_prefix(s, i - a + 1);
        }
        if d > limit || acc > (limit - d) / 10 {
            return None;
        }
        acc = acc * 10 + d;
        i += 1;
    }
    assert(s.take(b - a) =~= s);
    Some(acc)
}

/// The number that `s` spells with an optional leading plus sign.
pub open spec fn unsigned_value(s: Seq<char>, limit: nat) -> Option<nat> {
    if s.len() > 0 && s[0] == '+' {
        decimal_value(s.skip(1), limit)
    } else {
        decimal_value(s, limit)
    }
}

/// The number between `min` and `max` that `s` spells with an optional
/// leading sign.
pub open spec fn signed_value(s: Seq<char>, min: int, max: int) -> Option<int> {
    if s.len() > 0 && s[0] == '-' {
        match decimal_value(s.skip(1), (-min) as nat) {
            Some(v) => Some(-(v as int)),
            None => None,
        }
    } else {
        match unsigned_value(s, max as nat) {
            Some(v) => Some(v as int),
            None => None,
        }
    }
}

/// The `u32` that `s` spells, if any.
pub open spec fn u32_of(s: Seq<char>) -> Option<u32> {
    match unsigned_value(s, u32::MAX as nat) {
        Some(v) => Some(v as u32),
        None => None,
    }
}

/// The `u64` that `s` spells, if any.
pub open spec fn u64_of(s: Seq<char>) -> Option<u64> {
    match unsigned_value(s, u64::MAX as nat) {
        Some(v) => Some(v as u64),
        None => None,
    }
}

/// The `i32` that `s` spells, if any.
pub open spec fn i32_of(s: Seq<char>) -> Option<i32> {
    match signed_value(s, i32::MIN as int, i32::MAX as int) {
        Some(v) => Some(v as i32),
        None => None,
    }
}

/// Reads the characters of `chars` from `a` up to `b` as an unsigned decimal
/// number that does not exceed `limit`.
pub fn parse_unsigned(chars: &Vec<char>, a: usize, b: usize, limit: u64) -> (r: Option<u64>)
    requires
        a <= b <= chars@.len(),
    ensures
        match unsigned_value(chars@.subrange(a as int, b as int), limit as nat) {
            Some(v) => r == Some(v as u64),
            None => r is None,
        },
{
    if a < b && chars[a] == '+' {
        assert(chars@.subrange(a as int, b as int).skip(1) =~= chars@.subrange(
            a as int + 1,
            b as int,
        ));
        parse_digits(chars, a + 1, b, limit)
    } else {
        parse_digits(chars, a, b, limit)
    }
}

/// Reads the characters of `chars` from `a` up to `b` as a `u32`.
pub fn parse_u32(chars: &Vec<char>, a: usize, b: usize) -> (r: Option<u32>)
    requires
        a <= b <= chars@.len(),
    ensures
        r == u32_of(chars@.subrange(a as int, b as int)),
{
    match parse_unsigned(chars, a, b, 0xFFFF_FFFF) {
        Some(v) => Some(v as u32),
        None => None,
    }
}

/// Reads the characters of `chars` from `a` up to `b` as a `u64`.
pub fn parse_u64(chars: &Vec<char>, a: usize, b: usize) -> (r: Option<u64>)
    requires
        a <= b <= chars@.len(),
    ensures
        r == u64_of(chars@.subrange(a as int, b as int)),
{
    parse_unsigned(chars, a, b, 0xFFFF_FFFF_FFFF_FFFF)
}

/// Reads the characters of `chars` from `a` up to `b` as an `i32`.
pub fn parse_i32(chars: &Vec<char>, a: usize, b: usize) -> (r: Option<i32>)
    requires
        a <= b <= chars@.len(),
    ensures
        r == i32_of(chars@.subrange(a as int, b as int)),
{
    if a < b && chars[a] == '-' {
        assert(chars@.subrange(a as int, b as int).skip(1) =~= chars@.subrange(
            a as int + 1,
            b as int,
        ));
        match parse_digits(chars, a + 1, b, 0x8000_0000) {
            Some(v) => {
                let w: i64 = 0 - (v as i64);
                Some(w as i32)
            },
            None => None,
        }
    } else {
        match parse_unsigned(chars, a, b, 0x7FFF_FFFF) {
            Some(v) => Some(v as i32),
            None => None,
        }
    }
}

/// The character that writes the digit `d`.
pub open spec fn digit_char(d: nat) -> char {
    if d == 0 {
        '0'
    } else if d == 1 {
        '1'
    } else if d == 2 {
        '2'
    } else if d == 3 {
        '3'
    } else if d == 4 {
        '4'
    } else if d == 5 {
        '5'
    } else if d == 6 {
        '6'
    } else if d == 7 {
        '7'
    } else if d == 8 {
        '8'
    } else {
        '9'
    }
}

/// The decimal numeral of `n`, without leading zeros.
pub open spec fn decimal(n: nat) -> Seq<char>
    decreases n,
{
    if n < 10 {
        seq![digit_char(n)]
    } else {
        decimal(n / 10).push(digit_char(n % 10))
    }
}

/// The one-character text of the digit `d`.
pub fn digit_str(d: u8) -> (r: &'static str)
    requires
        d < 10,
    ensures
        r@ == seq![digit_char(d as nat)],
{
    proof {
        reveal_strlit("0");
        reveal_strlit("1");
        reveal_strlit("2");
        reveal_strlit("3");
        reveal_strlit("4");
        reveal_strlit("5");
        reveal_strlit("6");
        reveal_strlit("7");
        reveal_strlit("8");
        reveal_strlit("9");
    }
    let r = if d == 0 {
        "0"
    } else if d == 1 {
        "1"
    } else if d == 2 {
        "2"
    } else if d == 3 {
        "3"
    } else if d == 4 {
        "4"
    } else if d == 5 {
        "5"
    } else if d == 6 {
        "6"
    } else if d == 7 {
        "7"
    } else if d == 8 {
        "8"
    } else {
        "9"
    };
    assert(r@ =~= seq![digit_char(d as nat)]);
    r
}

/// Appends the decimal numeral of `n` to `out`.
pub fn push_decimal(out: &mut String, n: u64)
    ensures
        final(out)@ == old(out)@ + decimal(n as nat),
    decreases n,
{
    if n >= 10 {
        push_decimal(out, n / 10);
    }
    out.append(digit_str((n % 10) as u8));
    assert(out@ =~= old(out)@ + decimal(n as nat));
}

} // verus!
