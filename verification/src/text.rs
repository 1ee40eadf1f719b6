//! Character-level text handling shared by the board: whitespace trimming,
//! substring search, ASCII case folding and decimal integers.
use vstd::prelude::*;

verus! {

/// Unicode `White_Space` property, the definition `char::is_whitespace` uses.
pub open spec fn is_ws(c: char) -> bool {
    let u = c as u32;
    ||| 0x9 <= u <= 0xd
    ||| u == 0x20
    ||| u == 0x85
    ||| u == 0xa0
    ||| u == 0x1680
    ||| 0x2000 <= u <= 0x200a
    ||| u == 0x2028
    ||| u == 0x2029
    ||| u == 0x202f
    ||| u == 0x205f
    ||| u == 0x3000
}

/// `s` with its leading whitespace removed.
pub open spec fn trim_start(s: Seq<char>) -> Seq<char>
    decreases s.len(),
{
    if s.len() > 0 && is_ws(s[0]) {
        trim_start(s.drop_first())
    } else {
        s
    }
}

/// `s` with its trailing whitespace removed.
pub open spec fn trim_end(s: Seq<char>) -> Seq<char>
    decreases s.len(),
{
    if s.len() > 0 && is_ws(s.last()) {
        trim_end(s.drop_last())
    } else {
        s
    }
}

/// `s` with leading and trailing whitespace removed, as `str::trim` does.
pub open spec fn trim(s: Seq<char>) -> Seq<char> {
    trim_end(trim_start(s))
}

/// Whether `needle` occurs in `hay` as a contiguous run of characters.
pub open spec fn contains_seq(hay: Seq<char>, needle: Seq<char>) -> bool {
    exists|i: int|
        0 <= i && i + needle.len() <= hay.len() && #[trigger] hay.subrange(i, i + needle.len())
            == needle
}

/// Whether `s` begins with `prefix`.
pub open spec fn starts_with(s: Seq<char>, prefix: Seq<char>) -> bool {
    prefix.len() <= s.len() && s.subrange(0, prefix.len() as int) == prefix
}

/// ASCII upper-case letters mapped to lower case, every other character kept.
pub open spec fn lower_char(c: char) -> char {
    if 'A' <= c <= 'Z' {
        ((c as u32) + 32) as char
    } else {
        c
    }
}

/// `s` with each ASCII upper-case letter mapped to lower case.
pub open spec fn ascii_lower(s: Seq<char>) -> Seq<char> {
    s.map_values(|c: char| lower_char(c))
}

/// The decimal digit character for `d < 10`.
pub open spec fn digit_char(d: nat) -> char {
    ((d + 48) as u32) as char
}

/// Whether `c` is one of the ASCII digits `0` to `9`.
pub open spec fn is_digit(c: char) -> bool {
    '0' <= c <= '9'
}

/// Decimal digits of a natural number, most significant first, no leading zeros.
pub open spec fn nat_text(n: nat) -> Seq<char>
    decreases n,
{
    if n < 10 {
        seq![digit_char(n)]
    } else {
        nat_text(n / 10).push(digit_char(n % 10))
    }
}

/// Decimal text of an integer, with a leading `-` when negative.
pub open spec fn int_text(i: int) -> Seq<char> {
    if i < 0 {
        seq!['-'] + nat_text((-i) as nat)
    } else {
        nat_text(i as nat)
    }
}

/// Value of a run of decimal digits, most significant first.
pub open spec fn digits_value(d: Seq<char>) -> nat
    decreases d.len(),
{
    if d.len() == 0 {
        0
    } else {
        digits_value(d.drop_last()) * 10 + ((d.last() as u32) - 48) as nat
    }
}

/// Whether every character of `d` is an ASCII digit.
pub open spec fn all_digits(d: Seq<char>) -> bool {
    forall|i: int| 0 <= i < d.len() ==> is_digit(#[trigger] d[i])
}

/// The integer that `str::parse::<i64>` reads from `s`: an optional `+` or `-`
/// followed by one or more ASCII digits, within the range of `i64`.
pub open spec fn parse_i64_spec(s: Seq<char>) -> Option<i64> {
    let neg = s.len() > 0 && s[0] == '-';
    let signed = s.len() > 0 && (s[0] == '-' || s[0] == '+');
    let d = if signed {
        s.drop_first()
    } else {
        s
    };
    if d.len() == 0 || !all_digits(d) {
        None
    } else {
        let v: int = if neg {
            -(digits_value(d) as int)
        } else {
            digits_value(d) as int
        };
        if i64::MIN <= v <= i64::MAX {
            Some(v as i64)
        } else {
            None
        }
    }
}

/// Whitespace test over a single character, as `char::is_whitespace` does.
pub fn is_whitespace(c: char) -> (r: bool)
    ensures
        r == is_ws(c),
{
    let u = c as u32;
    (0x9 <= u && u <= 0xd) || u == 0x20 || u == 0x85 || u == 0xa0 || u == 0x1680 || (0x2000 <= u
        && u <= 0x200a) || u == 0x2028 || u == 0x2029 || u == 0x202f || u == 0x205f || u == 0x3000
}

/// The characters of `s`, in order.
pub fn chars_of(s: &str) -> (v: Vec<char>)
    ensures
        v@ == s@,
{
    let n = s.unicode_len();
    let mut v: Vec<char> = Vec::new();
    let mut i: usize = 0;
    while i < n
        invariant
            n == s@.len(),
            i <= n,
            v@ == s@.subrange(0, i as int),
        decreases n - i,
    {
        let c = s.get_char(i);
        v.push(c);
        i = i + 1;
        assert(v@ =~= s@.subrange(0, i as int));
    }
    assert(v@ =~= s@);
    v
}

/// `String::push`: the contract claims that afterwards `s` holds its old
/// characters followed by `c`.
#[verifier::external_body]
pub(crate) fn push_char(s: &mut String, c: char)
    ensures
        final(s)@ == old(s)@.push(c),
{
    s.push(c);
}

/// A `String` holding the characters of `v` in order.
pub fn string_of(v: &Vec<char>) -> (r: String)
    ensures
        r@ == v@,
{
    let mut r = String::new();
    let mut i: usize = 0;
    while i < v.len()
        invariant
            i <= v.len(),
            r@ == v@.subrange(0, i as int),
        decreases v.len() - i,
    {
        push_char(&mut r, v[i]);
        i = i + 1;
        assert(r@ =~= v@.subrange(0, i as int));
    }
    assert(r@ =~= v@);
    r
}

/// The concatenation of `a` and `b`.
pub fn concat(a: &str, b: &str) -> (r: String)
    ensures
        r@ == a@ + b@,
{
    let mut r = a.to_owned();
    r.append(b);
    r
}

/// The concatenation of `a`, `b` and `c`.
pub fn concat3(a: &str, b: &str, c: &str) -> (r: String)
    ensures
        r@ == a@ + b@ + c@,
{
    let mut r = a.to_owned();
    r.append(b);
    r.append(c);
    r
}

/// Whether `a` and `b` hold the same characters.
pub fn str_eq(a: &str, b: &str) -> (r: bool)
    ensures
        r == (a@ == b@),
{
    let va = chars_of(a);
    let vb = chars_of(b);
    seq_eq(&va, &vb)
}

/// Whether `a` and `b` hold the same characters.
pub fn seq_eq(a: &Vec<char>, b: &Vec<char>) -> (r: bool)
    ensures
        r == (a@ == b@),
{
    if a.len() != b.len() {
        return false;
    }
    let mut i: usize = 0;
    while i < a.len()
        invariant
            a.len() == b.len(),
            i <= a.len(),
            forall|k: int| 0 <= k < i ==> a@[k] == b@[k],
        decreases a.len() - i,
    {
        if a[i] != b[i] {
            return false;
        }
        i = i + 1;
    }
    assert(a@ =~= b@);
    true
}

/// `s` with leading and trailing whitespace removed, as `str::trim` does.
pub fn trim_str(s: &str) -> (r: String)
    ensures
        r@ == trim(s@),
{
    let cs = chars_of(s);
    let n = cs.len();
    let ghost sq = s@;
    let mut a: usize = 0;
    assert(sq.subrange(0, n as int) =~= sq);
    while a < n && is_whitespace(cs[a])
        invariant
            n == sq.len(),
            cs@ == sq,
            a <= n,
            trim_start(sq) == trim_start(sq.subrange(a as int, n as int)),
        decreases n - a,
    {
        assert(sq.subrange(a as int, n as int).drop_first() =~= sq.subrange(a + 1, n as int));
        a = a + 1;
    }
    assert(trim_start(sq) == sq.subrange(a as int, n as int));
    let mut b: usize = n;
    while b > a && is_whitespace(cs[b - 1])
        invariant
            n == sq.len(),
            cs@ == sq,
            a <= b <= n,
            trim(sq) == trim_end(sq.subrange(a as int, b as int)),
        decreases b - a,
    {
        assert(sq.subrange(a as int, b as int).drop_last() =~= sq.subrange(a as int, b - 1));
        b = b - 1;
    }
    let mut r = String::new();
    let mut i: usize = a;
    while i < b
        invariant
            cs@ == sq,
            a <= i <= b <= n,
            n == sq.len(),
            r@ == sq.subrange(a as int, i as int),
        decreases b - i,
    {
        push_char(&mut r, cs[i]);
        i = i + 1;
        assert(r@ =~= sq.subrange(a as int, i as int));
    }
    r
}

/// Whether `s` is empty or made of whitespace only, that is `s.trim().is_empty()`.
pub fn is_blank(s: &str) -> (r: bool)
    ensures
        r == (trim(s@).len() == 0),
{
    let t = trim_str(s);
    t.as_str().is_empty()
}

/// Whether `needle` occurs in `hay`.
pub fn seq_contains(hay: &Vec<char>, needle: &Vec<char>) -> (r: bool)
    ensures
        r == contains_seq(hay@, needle@),
{
    let m = needle.len();
    if m > hay.len() {
        return false;
    }
    if m == 0 {
        assert(hay@.subrange(0, 0 + needle@.len() as int) =~= needle@);
        return true;
    }
    let last = hay.len() - m;
    let mut i: usize = 0;
    while i <= last
        invariant
            m == needle@.len(),
            m > 0,
            last + m == hay.len(),
            forall|p: int|
                0 <= p < i ==> #[trigger] hay@.subrange(p, p + m) != needle@,
        decreases last + 1 - i,
    {
        let mut j: usize = 0;
        let mut same = true;
        while j < m
            invariant
                m == needle@.len(),
                i <= last,
                last + m == hay.len(),
                j <= m,
                same ==> forall|k: int| 0 <= k < j ==> hay@[i + k] == needle@[k],
                !same ==> hay@.subrange(i as int, i + m) != needle@,
            decreases m - j,
        {
            if hay[i + j] != needle[j] {
                assert(hay@.subrange(i as int, i + m)[j as int] != needle@[j as int]);
                same = false;
            }
            j = j + 1;
        }
        if same {
            assert(hay@.subrange(i as int, i + m) =~= needle@);
            return true;
        }
        i = i + 1;
    }
    assert forall|p: int| 0 <= p && p + m <= hay@.len() implies #[trigger] hay@.subrange(
        p,
        p + m,
    ) != needle@ by {
        assert(p < i);
    }
    false
}

/// Whether `needle` occurs in `hay`.
pub fn str_contains(hay: &str, needle: &str) -> (r: bool)
    ensures
        r == contains_seq(hay@, needle@),
{
    let h = chars_of(hay);
    let n = chars_of(needle);
    seq_contains(&h, &n)
}

/// Whether `s` begins with `prefix`.
pub fn seq_starts_with(s: &Vec<char>, prefix: &Vec<char>) -> (r: bool)
    ensures
        r == starts_with(s@, prefix@),
{
    if prefix.len() > s.len() {
        return false;
    }
    let mut i: usize = 0;
    while i < prefix.len()
        invariant
            prefix.len() <= s.len(),
            i <= prefix.len(),
            forall|k: int| 0 <= k < i ==> s@[k] == prefix@[k],
        decreases prefix.len() - i,
    {
        if s[i] != prefix[i] {
            assert(s@.subrange(0, prefix@.len() as int)[i as int] != prefix@[i as int]);
            return false;
        }
        i = i + 1;
    }
    assert(s@.subrange(0, prefix@.len() as int) =~= prefix@);
    true
}

/// `s` with each ASCII upper-case letter mapped to lower case.
pub fn to_ascii_lower(s: &Vec<char>) -> (r: Vec<char>)
    ensures
        r@ == ascii_lower(s@),
{
    let mut r: Vec<char> = Vec::new();
    let mut i: usize = 0;
    while i < s.len()
        invariant
            i <= s.len(),
            r@ == ascii_lower(s@.subrange(0, i as int)),
        decreases s.len() - i,
    {
        let c = s[i];
        let l = if 'A' <= c && c <= 'Z' {
            char_from_u32_ascii((c as u32) + 32)
        } else {
            c
        };
        r.push(l);
        i = i + 1;
        assert(r@ =~= ascii_lower(s@.subrange(0, i as int)));
    }
    assert(s@.subrange(0, s@.len() as int) =~= s@);
    r
}

/// The character with code `u`, for `u` in the ASCII range.
fn char_from_u32_ascii(u: u32) -> (c: char)
    requires
        u < 128,
    ensures
        c == u as char,
        c as u32 == u,
{
    (u as u8) as char
}

/// The digit character for `d < 10`.
fn digit_to_char(d: u64) -> (c: char)
    requires
        d < 10,
    ensures
        c == digit_char(d as nat),
{
    char_from_u32_ascii((d + 48) as u32)
}

proof fn lemma_nat_text_len(n: nat)
    ensures
        nat_text(n).len() >= 1,
    decreases n,
{
    if n >= 10 {
        lemma_nat_text_len(n / 10);
    }
}

/// Decimal text of a natural number held in a `u64`.
fn u64_text(n: u64) -> (r: Vec<char>)
    ensures
        r@ == nat_text(n as nat),
    decreases n,
{
    if n < 10 {
        let mut v = Vec::new();
        v.push(digit_to_char(n));
        assert(v@ =~= seq![digit_char(n as nat)]);
        v
    } else {
        let mut v = u64_text(n / 10);
        v.push(digit_to_char(n % 10));
        v
    }
}

/// Decimal text of `i`, as `i64`'s `Display` writes it.
pub fn i64_text(i: i64) -> (r: String)
    ensures
        r@ == int_text(i as int),
{
    if i < 0 {
        let mag: u64 = if i == i64::MIN {
            9223372036854775808u64
        } else {
            (-i) as u64
        };
        let digits = u64_text(mag);
        let mut v: Vec<char> = Vec::new();
        v.push('-');
        let mut k: usize = 0;
        while k < digits.len()
            invariant
                k <= digits.len(),
                v@ == seq!['-'] + digits@.subrange(0, k as int),
            decreases digits.len() - k,
        {
            v.push(digits[k]);
            k = k + 1;
            assert(v@ =~= seq!['-'] + digits@.subrange(0, k as int));
        }
        assert(digits@.subrange(0, digits@.len() as int) =~= digits@);
        string_of(&v)
    } else {
        let digits = u64_text(i as u64);
        string_of(&digits)
    }
}

proof fn lemma_digits_value_prefix(d: Seq<char>, k: int)
    requires
        0 <= k <= d.len(),
        all_digits(d),
    ensures
        digits_value(d.subrange(0, k)) <= digits_value(d),
    decreases d.len() - k,
{
    if k < d.len() {
        lemma_digits_value_prefix(d, k + 1);
        let p = d.subrange(0, k + 1);
        assert(p.drop_last() =~= d.subrange(0, k));
        assert(is_digit(d[k]));
    } else {
        assert(d.subrange(0, k) =~= d);
    }
}

pub proof fn lemma_nat_text_digits(n: nat)
    ensures
        nat_text(n).len() >= 1,
        all_digits(nat_text(n)),
        digits_value(nat_text(n)) == n,
        is_digit(nat_text(n)[0]),
    decreases n,
{
    if n < 10 {
        let s = nat_text(n);
        assert(s == seq![digit_char(n)]);
        assert(s.drop_last() =~= Seq::<char>::empty());
        assert((digit_char(n) as u32) == n + 48);
        assert(digits_value(s) == digits_value(s.drop_last()) * 10 + ((s.last() as u32) - 48) as nat);
    } else {
        lemma_nat_text_digits(n / 10);
        let p = nat_text(n / 10);
        let s = nat_text(n);
        assert(s == p.push(digit_char(n % 10)));
        assert(s.drop_last() =~= p);
        assert((digit_char(n % 10) as u32) == n % 10 + 48);
        assert(digits_value(s) == digits_value(s.drop_last()) * 10 + ((s.last() as u32) - 48) as nat);
        assert(n == (n / 10) * 10 + n % 10);
        assert forall|i: int| 0 <= i < s.len() implies is_digit(#[trigger] s[i]) by {
            if i < p.len() {
                assert(s[i] == p[i]);
            }
        };
        assert(s[0] == p[0]);
    }
}

/// Reading back the decimal text of an integer gives the integer: what
/// `i64_text` writes, `parse_i64` reads.
pub proof fn lemma_parse_int_text(i: i64)
    ensures
        parse_i64_spec(int_text(i as int)) == Some(i),
{
    if i < 0 {
        let m: nat = (-(i as int)) as nat;
        lemma_nat_text_digits(m);
        let s = int_text(i as int);
        assert(s == seq!['-'] + nat_text(m));
        assert(s.drop_first() =~= nat_text(m));
    } else {
        lemma_nat_text_digits(i as nat);
        let s = int_text(i as int);
        assert(s[0] != '-' && s[0] != '+');
    }
}

/// The integer that `s` spells as `str::parse::<i64>` reads it.
pub fn parse_i64(s: &str) -> (r: Option<i64>)
    ensures
        r == parse_i64_spec(s@),
{
    let cs = chars_of(s);
    let n = cs.len();
    let ghost sq = s@;
    let mut start: usize = 0;
    let mut neg = false;
    if n > 0 && (cs[0] == '-' || cs[0] == '+') {
        start = 1;
        neg = cs[0] == '-';
    }
    let ghost d = if start == 1 {
        sq.drop_first()
    } else {
        sq
    };
    assert(d =~= sq.subrange(start as int, n as int));
    if start == n {
        return None;
    }
    // `acc` holds the value of the digits read so far; it stays at most 2^63.
    let limit: u64 = 9223372036854775808u64;
    let mut acc: u64 = 0;
    let mut i: usize = start;
    while i < n
        invariant
            cs@ == sq,
            sq == s@,
            n == sq.len(),
            start <= i <= n,
            d == sq.subrange(start as int, n as int),
            d == (if sq.len() > 0 && (sq[0] == '-' || sq[0] == '+') {
                sq.drop_first()
            } else {
                sq
            }),
            neg == (sq.len() > 0 && sq[0] == '-'),
            limit == 9223372036854775808u64,
            forall|k: int| start <= k < i ==> is_digit(#[trigger] sq[k]),
            acc as nat == digits_value(sq.subrange(start as int, i as int)),
            acc <= limit,
        decreases n - i,
    {
        let c = cs[i];
        if !('0' <= c && c <= '9') {
            assert(!is_digit(d[i - start]));
            assert(!all_digits(d));
            assert(parse_i64_spec(sq) is None);
            return None;
        }
        let digit = ((c as u32) - 48) as u64;
        assert(sq.subrange(start as int, i + 1).drop_last() =~= sq.subrange(start as int, i as int));
        if acc > (limit - digit) / 10 {
            // the prefix read so far already exceeds the range, and so does the whole
            proof {
                let p = i + 1 - start;
                assert(d.subrange(0, p) =~= sq.subrange(start as int, i + 1));
                assert(acc * 10 + digit > limit) by (nonlinear_arith)
                    requires
                        acc > (limit - digit) / 10,
                        digit < 10,
                        limit == 9223372036854775808u64,
                ;
                if all_digits(d) {
                    lemma_digits_value_prefix(d, p);
                }
            }
            return None;
        }
        assert(acc * 10 + digit <= limit) by (nonlinear_arith)
            requires
                acc <= (limit - digit) / 10,
                digit < 10,
                limit == 9223372036854775808u64,
        ;
        acc = acc * 10 + digit;
        i = i + 1;
    }
    assert(d.len() > 0);
    assert(all_digits(d));
    if neg {
        if acc == limit {
            Some(i64::MIN)
        } else {
            Some(-(acc as i64))
        }
    } else {
        if acc == limit {
            None
        } else {
            Some(acc as i64)
        }
    }
}

} // verus!
