//! Text as a sequence of characters.

use vstd::prelude::*;
use vstd::string::StringExecFns;

verus! {

/// std's `String::push`: the character is added at the end of the string.
pub assume_specification[ String::push ](s: &mut String, c: char)
    ensures
        final(s)@ == old(s)@.push(c),
;

/// The characters of `s`, in order.
pub fn chars_of(s: &str) -> (v: Vec<char>)
    ensures
        v@ == s@,
{
    let mut v: Vec<char> = Vec::new();
    for c in it: s.chars()
        invariant
            it.seq() == s@,
            v@ == it.seq().take(it.index() as int),
    {
        v.push(c);
        assert(it.seq().take(it.index() + 1) =~= it.seq().take(it.index() as int).push(c));
    }
    assert(s@.take(s@.len() as int) =~= s@);
    v
}

/// The string made of the characters of `v`, in order.
pub fn string_of(v: &[char]) -> (s: String)
    ensures
        s@ == v@,
{
    let mut s = String::new();
    let mut i: usize = 0;
    while i < v.len()
        invariant
            i <= v.len(),
            s@ == v@.take(i as int),
        decreases v.len() - i,
    {
        s.push(v[i]);
        i += 1;
    }
    assert(v@.take(v.len() as int) =~= v@);
    s
}

/// The string made of the characters of `t` from `lo` up to `hi`.
pub fn string_between(t: &[char], lo: usize, hi: usize) -> (s: String)
    requires
        lo <= hi <= t.len(),
    ensures
        s@ == t@.subrange(lo as int, hi as int),
{
    let mut s = String::new();
    let mut i: usize = lo;
    while i < hi
        invariant
            lo <= i <= hi <= t.len(),
            s@ == t@.subrange(lo as int, i as int),
        decreases hi - i,
    {
        s.push(t[i]);
        assert(t@.subrange(lo as int, i + 1) =~= t@.subrange(lo as int, i as int).push(t@[i as int]));
        i += 1;
    }
    s
}

/// The text of `s` in lower case, as std's `str::to_lowercase` gives it.
pub uninterp spec fn lowercase_of(s: Seq<char>) -> Seq<char>;

/// `s` in lower case: std's `str::to_lowercase`, which goes by the Unicode rules for
/// lower case and depends on the text alone.
#[verifier::external_body]
pub(crate) fn to_lowercase(s: &str) -> (r: String)
    ensures
        r@ == lowercase_of(s@),
{
    s.to_lowercase()
}

/// The characters of an optional string.
pub open spec fn opt_chars(s: Option<String>) -> Option<Seq<char>> {
    match s {
        Some(t) => Some(t@),
        None => None,
    }
}

/// The characters of each string of `v`.
pub open spec fn each_chars(v: Seq<String>) -> Seq<Seq<char>> {
    v.map_values(|s: String| s@)
}

/// A copy of `s`.
pub fn copy_string(s: &String) -> (r: String)
    ensures
        r@ == s@,
{
    s.clone()
}

/// A copy of `s`.
pub fn copy_opt_string(s: &Option<String>) -> (r: Option<String>)
    ensures
        opt_chars(r) == opt_chars(*s),
{
    match s {
        Some(t) => Some(t.clone()),
        None => None,
    }
}

/// Whether `s` is made of the same characters as `t`.
pub fn same_text(s: &str, t: &str) -> (r: bool)
    ensures
        r == (s@ == t@),
{
    let a = chars_of(s);
    let b = chars_of(t);
    if a.len() != b.len() {
        return false;
    }
    let mut i: usize = 0;
    while i < a.len()
        invariant
            i <= a.len(),
            a.len() == b.len(),
            a@ == s@,
            b@ == t@,
            forall|j: int| 0 <= j < i ==> a@[j] == b@[j],
        decreases a.len() - i,
    {
        if a[i] != b[i] {
            assert(s@[i as int] != t@[i as int]);
            return false;
        }
        i += 1;
    }
    assert(a@ =~= b@);
    true
}

/// The character of the decimal digit `d`.
pub open spec fn digit_char(d: nat) -> char {
    if d == 0 {
        '0'
    } else if d == 1 {
        '1'
    } else if d == 2 {
        '2'
    } else if d == 3 {
        '3'
    } else if d == 4 {
        '4'
    } else if d == 5 {
        '5'
    } else if d == 6 {
        '6'
    } else if d == 7 {
        '7'
    } else if d == 8 {
        '8'
    } else {
        '9'
    }
}

/// The decimal digits of `n`, without leading zeros.
pub open spec fn digits_of(n: nat) -> Seq<char>
    decreases n,
{
    if n < 10 {
        seq![digit_char(n)]
    } else {
        digits_of(n / 10).push(digit_char(n % 10))
    }
}

/// The decimal notation of `n`, with a minus sign where `n` is negative.
pub open spec fn signed_digits_of(n: int) -> Seq<char> {
    if n < 0 {
        seq!['-'] + digits_of((-n) as nat)
    } else {
        digits_of(n as nat)
    }
}

/// The decimal digits of `n`, filled with zeros at the front to at least `width`.
pub open spec fn padded_digits_of(n: nat, width: nat) -> Seq<char>
    decreases width,
{
    if digits_of(n).len() >= width {
        digits_of(n)
    } else {
        seq!['0'] + padded_digits_of(n, (width - 1) as nat)
    }
}

fn digit(d: u64) -> (c: char)
    requires
        d < 10,
    ensures
        c == digit_char(d as nat),
{
    if d == 0 {
        '0'
    } else if d == 1 {
        '1'
    } else if d == 2 {
        '2'
    } else if d == 3 {
        '3'
    } else if d == 4 {
        '4'
    } else if d == 5 {
        '5'
    } else if d == 6 {
        '6'
    } else if d == 7 {
        '7'
    } else if d == 8 {
        '8'
    } else {
        '9'
    }
}

/// The decimal digits of `n`.
pub fn decimal_chars(n: u64) -> (v: Vec<char>)
    ensures
        v@ == digits_of(n as nat),
    decreases n,
{
    if n < 10 {
        let mut v: Vec<char> = Vec::new();
        v.push(digit(n));
        v
    } else {
        let mut v = decimal_chars(n / 10);
        v.push(digit(n % 10));
        v
    }
}

/// Writes `n` in decimal at the end of `s`.
pub fn push_decimal(s: &mut String, n: u64)
    ensures
        final(s)@ == old(s)@ + digits_of(n as nat),
{
    let d = decimal_chars(n);
    push_chars(s, d.as_slice());
}

/// Writes `n` in decimal at the end of `s`, with a minus sign where `n` is negative.
pub fn push_signed_decimal(s: &mut String, n: i64)
    ensures
        final(s)@ == old(s)@ + signed_digits_of(n as int),
{
    if n < 0 {
        s.push('-');
        let m: u64 = if n == i64::MIN {
            9223372036854775808u64
        } else {
            (-n) as u64
        };
        let ghost mid = s@;
        push_decimal(s, m);
        assert(old(s)@.push('-') + digits_of(m as nat) =~= old(s)@ + (seq!['-'] + digits_of(m as nat)));
    } else {
        push_decimal(s, n as u64);
    }
}

/// Writes `n` in decimal at the end of `s`, with zeros in front up to `width` digits.
pub fn push_padded_decimal(s: &mut String, n: u64, width: usize)
    ensures
        final(s)@ == old(s)@ + padded_digits_of(n as nat, width as nat),
{
    let d = decimal_chars(n);
    let mut w = width;
    let ghost mut zeros: Seq<char> = Seq::empty();
    while w > d.len()
        invariant
            d@ == digits_of(n as nat),
            s@ == old(s)@ + zeros,
            zeros + padded_digits_of(n as nat, w as nat) == padded_digits_of(n as nat, width as nat),
        decreases w,
    {
        s.push('0');
        proof {
            let rest = padded_digits_of(n as nat, (w - 1) as nat);
            assert(zeros.push('0') + rest =~= zeros + (seq!['0'] + rest));
            assert((old(s)@ + zeros).push('0') =~= old(s)@ + zeros.push('0'));
            zeros = zeros.push('0');
        }
        w -= 1;
    }
    let ghost mid = s@;
    push_chars(s, d.as_slice());
    assert((old(s)@ + zeros) + d@ =~= old(s)@ + (zeros + d@));
}

/// Writes the characters of `t` at the end of `s`.
pub fn push_chars(s: &mut String, t: &[char])
    ensures
        final(s)@ == old(s)@ + t@,
{
    let mut i: usize = 0;
    assert(old(s)@ + t@.take(0) =~= old(s)@);
    while i < t.len()
        invariant
            i <= t.len(),
            s@ == old(s)@ + t@.take(i as int),
        decreases t.len() - i,
    {
        s.push(t[i]);
        assert((old(s)@ + t@.take(i as int)).push(t@[i as int]) =~= old(s)@ + t@.take(i + 1));
        i += 1;
    }
    assert(t@.take(t.len() as int) =~= t@);
}

/// Writes `t` at the end of `s`.
pub fn push_text(s: &mut String, t: &str)
    ensures
        final(s)@ == old(s)@ + t@,
{
    s.append(t);
}

/// Whether `c` is white space: the characters that Unicode gives the property
/// White_Space.
pub open spec fn is_ws(c: char) -> bool {
    let n = c as u32;
    ||| 0x09 <= n <= 0x0D
    ||| n == 0x20
    ||| n == 0x85
    ||| n == 0xA0
    ||| n == 0x1680
    ||| 0x2000 <= n <= 0x200A
    ||| n == 0x2028
    ||| n == 0x2029
    ||| n == 0x202F
    ||| n == 0x205F
    ||| n == 0x3000
}

pub fn is_whitespace(c: char) -> (r: bool)
    ensures
        r == is_ws(c),
{
    let n = c as u32;
    (0x09 <= n && n <= 0x0D) || n == 0x20 || n == 0x85 || n == 0xA0 || n == 0x1680 || (0x2000 <= n
        && n <= 0x200A) || n == 0x2028 || n == 0x2029 || n == 0x202F || n == 0x205F || n == 0x3000
}

/// Whether `s` holds nothing but white space.
pub open spec fn is_blank(s: Seq<char>) -> bool {
    forall|i: int| 0 <= i < s.len() ==> is_ws(#[trigger] s[i])
}

/// Whether the characters of `t` from `lo` up to `hi` are all white space.
pub fn blank_between(t: &[char], lo: usize, hi: usize) -> (r: bool)
    requires
        lo <= hi <= t.len(),
    ensures
        r == is_blank(t@.subrange(lo as int, hi as int)),
{
    let mut i = lo;
    while i < hi
        invariant
            lo <= i <= hi <= t.len(),
            forall|j: int| lo <= j < i ==> is_ws(#[trigger] t@[j]),
        decreases hi - i,
    {
        if !is_whitespace(t[i]) {
            assert(t@.subrange(lo as int, hi as int)[i - lo] == t@[i as int]);
            return false;
        }
        i += 1;
    }
    assert forall|k: int| 0 <= k < hi - lo implies is_ws(
        #[trigger] t@.subrange(lo as int, hi as int)[k],
    ) by {
        assert(t@.subrange(lo as int, hi as int)[k] == t@[lo + k]);
    }
    true
}

/// Where the text of `s` begins once leading white space is left out.
pub open spec fn trim_start_at(s: Seq<char>) -> int
    decreases s.len(),
{
    if s.len() > 0 && is_ws(s[0]) {
        1 + trim_start_at(s.skip(1))
    } else {
        0
    }
}

/// Where the text of `s` ends once trailing white space is left out; never before
/// `lo`.
pub open spec fn trim_end_at(s: Seq<char>, lo: int) -> int
    decreases s.len(),
{
    if s.len() > lo && lo >= 0 && is_ws(s.last()) {
        trim_end_at(s.drop_last(), lo)
    } else {
        s.len() as int
    }
}

/// `s` without leading and trailing white space.
pub open spec fn trimmed(s: Seq<char>) -> Seq<char> {
    s.subrange(trim_start_at(s), trim_end_at(s, trim_start_at(s)))
}

/// What is trimmed off is white space, and what is left neither begins nor ends with
/// white space.
pub proof fn lemma_trim_bounds(s: Seq<char>)
    ensures
        0 <= trim_start_at(s) <= trim_end_at(s, trim_start_at(s)) <= s.len(),
        forall|i: int| 0 <= i < trim_start_at(s) ==> is_ws(#[trigger] s[i]),
        forall|i: int| trim_end_at(s, trim_start_at(s)) <= i < s.len() ==> is_ws(#[trigger] s[i]),
        trimmed(s).len() > 0 ==> !is_ws(trimmed(s).first()) && !is_ws(trimmed(s).last()),
{
    lemma_trim_start_bounds(s);
    lemma_trim_end_bounds(s, trim_start_at(s));
}

proof fn lemma_trim_start_bounds(s: Seq<char>)
    ensures
        0 <= trim_start_at(s) <= s.len(),
        forall|i: int| 0 <= i < trim_start_at(s) ==> is_ws(#[trigger] s[i]),
        trim_start_at(s) < s.len() ==> !is_ws(s[trim_start_at(s)]),
    decreases s.len(),
{
    if s.len() > 0 && is_ws(s[0]) {
        lemma_trim_start_bounds(s.skip(1));
        assert forall|i: int| 0 <= i < trim_start_at(s) implies is_ws(#[trigger] s[i]) by {
            if i > 0 {
                assert(s[i] == s.skip(1)[i - 1]);
            }
        }
        if trim_start_at(s) < s.len() {
            assert(s[trim_start_at(s)] == s.skip(1)[trim_start_at(s) - 1]);
        }
    }
}

proof fn lemma_trim_end_bounds(s: Seq<char>, lo: int)
    requires
        0 <= lo <= s.len(),
    ensures
        lo <= trim_end_at(s, lo) <= s.len(),
        forall|i: int| trim_end_at(s, lo) <= i < s.len() ==> is_ws(#[trigger] s[i]),
        trim_end_at(s, lo) > lo ==> !is_ws(s[trim_end_at(s, lo) - 1]),
    decreases s.len(),
{
    if s.len() > lo && is_ws(s.last()) {
        lemma_trim_end_bounds(s.drop_last(), lo);
        assert forall|i: int| trim_end_at(s, lo) <= i < s.len() implies is_ws(#[trigger] s[i]) by {
            if i < s.len() - 1 {
                assert(s[i] == s.drop_last()[i]);
            }
        }
        if trim_end_at(s, lo) > lo {
            assert(s[trim_end_at(s, lo) - 1] == s.drop_last()[trim_end_at(s, lo) - 1]);
        }
    }
}

/// The bounds of `t` without leading and trailing white space.
pub fn trim_bounds(t: &[char]) -> (r: (usize, usize))
    ensures
        r.0 == trim_start_at(t@),
        r.1 == trim_end_at(t@, trim_start_at(t@)),
        r.0 <= r.1 <= t.len(),
{
    let mut lo: usize = 0;
    assert(t@.skip(0) =~= t@);
    while lo < t.len() && is_whitespace(t[lo])
        invariant
            lo <= t.len(),
            trim_start_at(t@) == lo + trim_start_at(t@.skip(lo as int)),
        decreases t.len() - lo,
    {
        proof {
            let rest = t@.skip(lo as int);
            assert(rest[0] == t@[lo as int]);
            assert(rest.skip(1) =~= t@.skip(lo + 1));
        }
        lo += 1;
    }
    proof {
        let rest = t@.skip(lo as int);
        if lo < t.len() {
            assert(rest[0] == t@[lo as int]);
        }
        assert(trim_start_at(rest) == 0);
    }
    let mut hi: usize = t.len();
    assert(t@.take(hi as int) =~= t@);
    while hi > lo && is_whitespace(t[hi - 1])
        invariant
            lo <= hi <= t.len(),
            trim_end_at(t@, lo as int) == trim_end_at(t@.take(hi as int), lo as int),
        decreases hi,
    {
        proof {
            let head = t@.take(hi as int);
            assert(head.last() == t@[hi - 1]);
            assert(head.drop_last() =~= t@.take(hi - 1));
        }
        hi -= 1;
    }
    proof {
        let head = t@.take(hi as int);
        if hi > lo {
            assert(head.last() == t@[hi - 1]);
        }
    }
    (lo, hi)
}

} // verus!
