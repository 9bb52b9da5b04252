//! Decimal numerals: reading integers from text and writing integers as text
use vstd::prelude::*;

use crate::chars::{all_ascii_digits, ascii_digit};

verus! {

#[verifier::external_type_specification]
#[verifier::external_body]
pub struct ExParseIntError(core::num::ParseIntError);

#[verifier::external_type_specification]
#[verifier::external_body]
pub struct ExParseFloatError(core::num::ParseFloatError);

/// The standard library's description of why an integer numeral was refused, as the
/// `Display` of `ParseIntError` writes it; it depends on the error value alone.
pub uninterp spec fn int_error_message(e: core::num::ParseIntError) -> Seq<char>;

/// The standard library's description of why a float numeral was refused, as the `Display`
/// of `ParseFloatError` writes it; it depends on the error value alone.
pub uninterp spec fn float_error_message(e: core::num::ParseFloatError) -> Seq<char>;

/// Calls the `Display` of `ParseIntError`. The text is claimed to be `int_error_message` of
/// the error; what that text says is not stated.
#[verifier::external_body]
pub(crate) fn int_error_text(e: &core::num::ParseIntError) -> (s: String)
    ensures
        s@ == int_error_message(*e),
{
    e.to_string()
}

/// Calls the `Display` of `ParseFloatError`. The text is claimed to be `float_error_message`
/// of the error; what that text says is not stated.
#[verifier::external_body]
pub(crate) fn float_error_text(e: &core::num::ParseFloatError) -> (s: String)
    ensures
        s@ == float_error_message(*e),
{
    e.to_string()
}

/// The character in lower case, for ASCII letters.
pub open spec fn ascii_lower(c: char) -> char {
    if 'A' <= c && c <= 'Z' {
        ((c as int) + 32) as char
    } else {
        c
    }
}

/// The number of full stops in `m`.
pub open spec fn dot_count(m: Seq<char>) -> nat
    decreases m.len(),
{
    if m.len() == 0 {
        0
    } else {
        dot_count(m.drop_last()) + if m.last() == '.' {
            1nat
        } else {
            0nat
        }
    }
}

/// A decimal mantissa: ASCII digits with at most one full stop among them, and at least
/// one digit.
pub open spec fn decimal_mantissa(m: Seq<char>) -> bool {
    &&& forall|i: int| 0 <= i < m.len() ==> ascii_digit(#[trigger] m[i]) || m[i] == '.'
    &&& dot_count(m) <= 1
    &&& dot_count(m) < m.len()
}

/// An optional `+` or `-` sign followed by one or more ASCII digits.
pub open spec fn signed_digits(d: Seq<char>) -> bool {
    let e = if d.len() > 0 && (d[0] == '+' || d[0] == '-') {
        d.drop_first()
    } else {
        d
    };
    e.len() > 0 && all_ascii_digits(e)
}

/// An exponent part: `e` followed by signed digits.
pub open spec fn exponent_part(x: Seq<char>) -> bool {
    x.len() > 0 && x[0] == 'e' && signed_digits(x.drop_first())
}

/// The index of the first `e` in `u` at or after `i`, or the length of `u` if there is none.
pub open spec fn first_e(u: Seq<char>, i: int) -> int
    decreases u.len() - i,
{
    if i < 0 || i >= u.len() {
        u.len() as int
    } else if u[i] == 'e' {
        i
    } else {
        first_e(u, i + 1)
    }
}

/// `s` without a leading `+` or `-` sign.
pub open spec fn unsigned_part(s: Seq<char>) -> Seq<char> {
    if s.len() > 0 && (s[0] == '+' || s[0] == '-') {
        s.drop_first()
    } else {
        s
    }
}

/// The texts that `str::parse::<f64>` accepts, as its documentation gives them: after lowering
/// ASCII letters, an optional sign followed by `inf`, `infinity`, `nan`, or a decimal mantissa
/// with an optional exponent part.
pub open spec fn float_syntax(s: Seq<char>) -> bool {
    let u = unsigned_part(s.map_values(|c: char| ascii_lower(c)));
    let k = first_e(u, 0);
    ||| u == seq!['i', 'n', 'f']
    ||| u == seq!['i', 'n', 'f', 'i', 'n', 'i', 't', 'y']
    ||| u == seq!['n', 'a', 'n']
    ||| decimal_mantissa(u.subrange(0, k)) && (k == u.len() || exponent_part(
        u.subrange(k, u.len() as int),
    ))
}

fn lower_char(c: char) -> (r: char)
    ensures
        r == ascii_lower(c),
{
    if 'A' <= c && c <= 'Z' {
        let v: u8 = (c as u8) + 32;
        v as char
    } else {
        c
    }
}

/// Decides whether `t[a..b]` is a decimal mantissa.
fn is_mantissa(t: &Vec<char>, a: usize, b: usize) -> (r: bool)
    requires
        a <= b <= t@.len(),
    ensures
        r == decimal_mantissa(t@.subrange(a as int, b as int)),
{
    let ghost m = t@.subrange(a as int, b as int);
    let mut dots: usize = 0;
    let mut j: usize = a;
    while j < b
        invariant
            a <= j <= b <= t@.len(),
            m == t@.subrange(a as int, b as int),
            dots == dot_count(t@.subrange(a as int, j as int)),
            dots <= j - a,
            forall|i: int| a <= i < j ==> ascii_digit(#[trigger] t@[i]) || t@[i] == '.',
        decreases b - j,
    {
        let c = t[j];
        assert(t@.subrange(a as int, j + 1).drop_last() =~= t@.subrange(a as int, j as int));
        if !(('0' <= c && c <= '9') || c == '.') {
            assert(!(ascii_digit(m[j - a]) || m[j - a] == '.'));
            return false;
        }
        if c == '.' {
            dots += 1;
        }
        j += 1;
    }
    assert(t@.subrange(a as int, j as int) =~= m);
    assert forall|i: int| 0 <= i < m.len() implies ascii_digit(#[trigger] m[i]) || m[i] == '.' by {
        assert(m[i] == t@[a + i]);
    }
    dots <= 1 && dots < b - a
}

/// Decides whether `t[a..b]` is an exponent part.
#[verifier::loop_isolation(false)]
fn is_exponent(t: &Vec<char>, a: usize, b: usize) -> (r: bool)
    requires
        a <= b <= t@.len(),
    ensures
        r == exponent_part(t@.subrange(a as int, b as int)),
{
    let ghost x = t@.subrange(a as int, b as int);
    if a == b || t[a] != 'e' {
        return false;
    }
    let ghost d = x.drop_first();
    assert(x[0] == t@[a as int]);
    assert(d =~= t@.subrange(a + 1, b as int));
    let mut j: usize = a + 1;
    if j < b && (t[j] == '+' || t[j] == '-') {
        j += 1;
    }
    let ghost e = t@.subrange(j as int, b as int);
    assert(e =~= if d.len() > 0 && (d[0] == '+' || d[0] == '-') {
        d.drop_first()
    } else {
        d
    });
    if j == b {
        return false;
    }
    let start = j;
    while j < b
        invariant
            start <= j <= b <= t@.len(),
            e == t@.subrange(start as int, b as int),
            forall|i: int| start <= i < j ==> ascii_digit(#[trigger] t@[i]),
        decreases b - j,
    {
        let c = t[j];
        if !('0' <= c && c <= '9') {
            assert(!ascii_digit(e[j - start]));
            return false;
        }
        j += 1;
    }
    assert forall|i: int| 0 <= i < e.len() implies ascii_digit(#[trigger] e[i]) by {
        assert(e[i] == t@[start + i]);
    }
    true
}

/// Whether `t[a..]` holds exactly the characters of `w`.
fn tail_is(t: &Vec<char>, a: usize, w: &str) -> (r: bool)
    requires
        a <= t@.len(),
    ensures
        r == (t@.subrange(a as int, t@.len() as int) == w@),
{
    let n = w.unicode_len();
    let tl = t.len();
    if tl - a != n {
        return false;
    }
    let mut i: usize = 0;
    while i < n
        invariant
            tl == t@.len(),
            n == w@.len(),
            t@.len() - a == n,
            i <= n,
            forall|k: int| 0 <= k < i ==> t@[a + k] == w@[k],
        decreases n - i,
    {
        if t[a + i] != w.get_char(i) {
            assert(t@.subrange(a as int, t@.len() as int)[i as int] != w@[i as int]);
            return false;
        }
        i += 1;
    }
    assert(t@.subrange(a as int, t@.len() as int) =~= w@);
    true
}

/// Decides whether `str::parse::<f64>` accepts `s`, by the grammar its documentation gives.
pub fn is_float_syntax(s: &str) -> (r: bool)
    ensures
        r == float_syntax(s@),
{
    let n = s.unicode_len();
    let mut t: Vec<char> = Vec::new();
    let mut i: usize = 0;
    while i < n
        invariant
            n == s@.len(),
            i <= n,
            t@ == s@.subrange(0, i as int).map_values(|c: char| ascii_lower(c)),
        decreases n - i,
    {
        let c = lower_char(s.get_char(i));
        t.push(c);
        i += 1;
        assert(t@ =~= s@.subrange(0, i as int).map_values(|c: char| ascii_lower(c)));
    }
    let ghost low = s@.map_values(|c: char| ascii_lower(c));
    assert(t@ =~= low);
    let start: usize = if n > 0 && (t[0] == '+' || t[0] == '-') {
        1
    } else {
        0
    };
    let ghost u = unsigned_part(low);
    assert(u =~= t@.subrange(start as int, n as int));
    proof {
        reveal_strlit("inf");
        reveal_strlit("infinity");
        reveal_strlit("nan");
        assert("inf"@ =~= seq!['i', 'n', 'f']);
        assert("infinity"@ =~= seq!['i', 'n', 'f', 'i', 'n', 'i', 't', 'y']);
        assert("nan"@ =~= seq!['n', 'a', 'n']);
    }
    if tail_is(&t, start, "inf") || tail_is(&t, start, "infinity") || tail_is(&t, start, "nan") {
        return true;
    }
    let mut k: usize = start;
    while k < n && t[k] != 'e'
        invariant
            start <= k <= n,
            n == t@.len(),
            u == t@.subrange(start as int, n as int),
            first_e(u, (k - start) as int) == first_e(u, 0),
        decreases n - k,
    {
        assert(u[k - start] == t@[k as int]);
        k += 1;
    }
    proof {
        if k < n {
            assert(u[k - start] == t@[k as int]);
        }
        assert(first_e(u, 0) == k - start);
        assert(u.subrange(0, (k - start) as int) =~= t@.subrange(start as int, k as int));
        assert(u.subrange((k - start) as int, u.len() as int) =~= t@.subrange(k as int, n as int));
    }
    is_mantissa(&t, start, k) && (k == n || is_exponent(&t, k, n))
}

/// `String::push` appends the given character to the end of the string.
pub assume_specification[ std::string::String::push ](s: &mut std::string::String, ch: char)
    ensures
        final(s)@ == old(s)@.push(ch),
;

/// The value of a run of ASCII digits, read in base ten.
pub open spec fn digits_value(d: Seq<char>) -> int
    decreases d.len(),
{
    if d.len() == 0 {
        0
    } else {
        digits_value(d.drop_last()) * 10 + (d.last() as int - '0' as int)
    }
}

/// The integer written by `s` in the form that the standard library's integer `FromStr`
/// accepts: an optional `+` or `-` sign followed by one or more ASCII digits, and nothing else.
pub open spec fn int_literal(s: Seq<char>) -> Option<int> {
    if s.len() > 0 && (s[0] == '+' || s[0] == '-') {
        let d = s.drop_first();
        if d.len() > 0 && all_ascii_digits(d) {
            if s[0] == '-' {
                Some(-digits_value(d))
            } else {
                Some(digits_value(d))
            }
        } else {
            None
        }
    } else if s.len() > 0 && all_ascii_digits(s) {
        Some(digits_value(s))
    } else {
        None
    }
}

/// `s` is an integer literal whose value lies in `[lo, hi]`.
pub open spec fn literal_in_range(s: Seq<char>, lo: int, hi: int) -> bool {
    int_literal(s) matches Some(v) && lo <= v <= hi
}

/// Calls `str::parse::<i32>`. By its documentation, it succeeds exactly on an optional sign
/// followed by one or more ASCII digits whose value fits in `i32`, and then yields that value.
#[verifier::external_body]
pub(crate) fn parse_i32(s: &str) -> (r: Result<i32, core::num::ParseIntError>)
    ensures
        r is Ok <==> literal_in_range(s@, i32::MIN as int, i32::MAX as int),
        r matches Ok(n) ==> int_literal(s@) == Some(n as int),
{
    s.parse::<i32>()
}

/// Calls `str::parse::<isize>`. By its documentation, it succeeds exactly on an optional sign
/// followed by one or more ASCII digits whose value fits in `isize`, and then yields that value.
#[verifier::external_body]
pub(crate) fn parse_isize(s: &str) -> (r: Result<isize, core::num::ParseIntError>)
    ensures
        r is Ok <==> literal_in_range(s@, isize::MIN as int, isize::MAX as int),
        r matches Ok(n) ==> int_literal(s@) == Some(n as int),
{
    s.parse::<isize>()
}

/// The ASCII digit of a value below ten.
pub open spec fn digit_char(d: int) -> char {
    ('0' as int + d) as char
}

/// The base-ten digits of a natural number, without leading zeros (`"0"` for zero).
pub open spec fn natural_text(n: nat) -> Seq<char>
    decreases n,
{
    if n < 10 {
        seq![digit_char(n as int)]
    } else {
        natural_text(n / 10) + seq![digit_char((n % 10) as int)]
    }
}

/// The decimal numeral of an integer: a `-` before negative ones.
pub open spec fn decimal(n: int) -> Seq<char> {
    if n < 0 {
        seq!['-'] + natural_text((-n) as nat)
    } else {
        natural_text(n as nat)
    }
}

fn digit(d: u64) -> (c: char)
    requires
        d < 10,
    ensures
        c == digit_char(d as int),
{
    let c: char = if d == 0 {
        '0'
    } else if d == 1 {
        '1'
    } else if d == 2 {
        '2'
    } else if d == 3 {
        '3'
    } else if d == 4 {
        '4'
    } else if d == 5 {
        '5'
    } else if d == 6 {
        '6'
    } else if d == 7 {
        '7'
    } else if d == 8 {
        '8'
    } else {
        '9'
    };
    c
}

/// Writes a natural number in base ten.
pub fn natural_to_text(n: u64) -> (s: String)
    ensures
        s@ == natural_text(n as nat),
    decreases n,
{
    if n < 10 {
        let mut s = String::new();
        s.push(digit(n));
        assert(s@ =~= seq![digit_char(n as int)]);
        s
    } else {
        let mut s = natural_to_text(n / 10);
        s.push(digit(n % 10));
        s
    }
}

/// Writes an `i32` in base ten, as `Display` does.
pub fn i32_to_text(n: i32) -> (s: String)
    ensures
        s@ == decimal(n as int),
{
    if n < 0 {
        let m: u64 = (-(n as i64)) as u64;
        let mut s = String::new();
        s.push('-');
        let rest = natural_to_text(m);
        s.append(rest.as_str());
        assert(s@ =~= seq!['-'] + natural_text((-(n as int)) as nat));
        s
    } else {
        natural_to_text(n as u64)
    }
}

/// Writes an `isize` in base ten, as `Display` does.
pub fn isize_to_text(n: isize) -> (s: String)
    ensures
        s@ == decimal(n as int),
{
    if n < 0 {
        let m: u64 = (-(n as i128)) as u64;
        let mut s = String::new();
        s.push('-');
        let rest = natural_to_text(m);
        s.append(rest.as_str());
        assert(s@ =~= seq!['-'] + natural_text((-(n as int)) as nat));
        s
    } else {
        natural_to_text(n as u64)
    }
}

/// Writes a `usize` in base ten, as `Display` does.
pub fn usize_to_text(n: usize) -> (s: String)
    ensures
        s@ == decimal(n as int),
{
    natural_to_text(n as u64)
}

} // verus!
