use vstd::prelude::*;

verus! {

/// Why a decimal integer could not be read (the kinds std's integer parsing reports).
#[derive(Clone, Copy, Debug, PartialEq, Eq, Structural)]
pub enum IntErrorKind {
    Empty,
    InvalidDigit,
    PosOverflow,
    NegOverflow,
}

/// The character of decimal digit `d`.
pub open spec fn digit_char(d: int) -> char {
    if d == 0 { '0' } else if d == 1 { '1' } else if d == 2 { '2' } else if d == 3 { '3' }
    else if d == 4 { '4' } else if d == 5 { '5' } else if d == 6 { '6' } else if d == 7 { '7' }
    else if d == 8 { '8' } else { '9' }
}

pub open spec fn is_digit(c: char) -> bool {
    '0' <= c && c <= '9'
}

pub open spec fn digit_value(c: char) -> int {
    (c as int) - ('0' as int)
}

/// The shortest decimal writing of `n`.
pub open spec fn decimal_of(n: nat) -> Seq<char>
    decreases n,
{
    if n < 10 {
        seq![digit_char(n as int)]
    } else {
        decimal_of(n / 10) + seq![digit_char((n % 10) as int)]
    }
}

/// Reads the first `n` characters of `body` as decimal digits, stopping at the
/// first character that is no digit or that makes the value exceed `max`.
pub open spec fn scan_digits(body: Seq<char>, n: nat, max: int, overflow: IntErrorKind) -> Result<int, IntErrorKind>
    decreases n,
{
    if n == 0 {
        Ok(0)
    } else {
        match scan_digits(body, (n - 1) as nat, max, overflow) {
            Err(e) => Err(e),
            Ok(v) => if !is_digit(body[n - 1]) {
                Err(IntErrorKind::InvalidDigit)
            } else if v * 10 + digit_value(body[n - 1]) > max {
                Err(overflow)
            } else {
                Ok(v * 10 + digit_value(body[n - 1]))
            },
        }
    }
}

/// What std's `str::parse` gives for an unsigned type whose largest value is `max`.
pub open spec fn parse_unsigned_spec(s: Seq<char>, max: int) -> Result<int, IntErrorKind> {
    if s.len() == 0 {
        Err(IntErrorKind::Empty)
    } else if s == seq!['+'] || s == seq!['-'] {
        Err(IntErrorKind::InvalidDigit)
    } else {
        let body = if s[0] == '+' { s.drop_first() } else { s };
        scan_digits(body, body.len(), max, IntErrorKind::PosOverflow)
    }
}

/// What std's `str::parse::<i32>` gives.
pub open spec fn parse_i32_spec(s: Seq<char>) -> Result<int, IntErrorKind> {
    if s.len() == 0 {
        Err(IntErrorKind::Empty)
    } else if s == seq!['+'] || s == seq!['-'] {
        Err(IntErrorKind::InvalidDigit)
    } else if s[0] == '-' {
        let body = s.drop_first();
        match scan_digits(body, body.len(), 0x8000_0000, IntErrorKind::NegOverflow) {
            Ok(v) => Ok(-v),
            Err(e) => Err(e),
        }
    } else {
        let body = if s[0] == '+' { s.drop_first() } else { s };
        scan_digits(body, body.len(), 0x7fff_ffff, IntErrorKind::PosOverflow)
    }
}

fn digit_str(d: u64) -> (r: &'static str)
    requires
        d < 10,
    ensures
        r@ == seq![digit_char(d as int)],
{
    proof {
        reveal_strlit("0");
        reveal_strlit("1");
        reveal_strlit("2");
        reveal_strlit("3");
        reveal_strlit("4");
        reveal_strlit("5");
        reveal_strlit("6");
        reveal_strlit("7");
        reveal_strlit("8");
        reveal_strlit("9");
    }
    if d == 0 { "0" } else if d == 1 { "1" } else if d == 2 { "2" } else if d == 3 { "3" }
    else if d == 4 { "4" } else if d == 5 { "5" } else if d == 6 { "6" } else if d == 7 { "7" }
    else if d == 8 { "8" } else { "9" }
}

/// Writes `n` in decimal, as `n.to_string()` does.
pub fn u64_to_decimal(n: u64) -> (s: String)
    ensures
        s@ == decimal_of(n as nat),
    decreases n,
{
    if n < 10 {
        let mut s = String::new();
        s.append(digit_str(n));
        s
    } else {
        let mut s = u64_to_decimal(n / 10);
        s.append(digit_str(n % 10));
        s
    }
}

/// Appends the decimal writing of `n` to `s`.
pub fn push_decimal(s: &mut String, n: u64)
    ensures
        final(s)@ == old(s)@ + decimal_of(n as nat),
{
    let d = u64_to_decimal(n);
    s.append(d.as_str());
}

/// The decimal writing of a signed integer: a minus sign before negatives.
pub open spec fn signed_decimal_of(n: int) -> Seq<char> {
    if n < 0 { seq!['-'] + decimal_of((-n) as nat) } else { decimal_of(n as nat) }
}

/// Appends the decimal writing of `n` to `s`, as `format!("{}", n)` writes it.
pub fn push_signed_decimal(s: &mut String, n: i64)
    ensures
        final(s)@ == old(s)@ + signed_decimal_of(n as int),
{
    if n < 0 {
        s.append("-");
        proof {
            reveal_strlit("-");
            assert("-"@ =~= seq!['-']);
        }
        let m: u64 = if n == i64::MIN { 9_223_372_036_854_775_808u64 } else { (-n) as u64 };
        push_decimal(s, m);
        proof {
            assert(old(s)@ + "-"@ + decimal_of(m as nat) =~= old(s)@ + signed_decimal_of(n as int));
        }
    } else {
        push_decimal(s, n as u64);
    }
}

/// Scans digits of `s` from character `start` on, as `scan_digits` describes.
fn scan(s: &str, start: usize, max: u64, overflow: IntErrorKind) -> (r: Result<u64, IntErrorKind>)
    requires
        start <= s@.len(),
        9 <= max,
    ensures
        match scan_digits(s@.skip(start as int), (s@.len() - start) as nat, max as int, overflow) {
            Ok(v) => r == Ok::<u64, IntErrorKind>(v as u64) && 0 <= v <= max,
            Err(e) => r == Err::<u64, IntErrorKind>(e),
        },
{
    proof { lemma_scan_nonneg(s@.skip(start as int), (s@.len() - start) as nat, max as int, overflow); }
    let len = s.unicode_len();
    let ghost body = s@.skip(start as int);
    let mut acc: u64 = 0;
    let mut i = start;
    while i < len
        invariant
            start <= i <= len,
            len == s@.len(),
            body == s@.skip(start as int),
            scan_digits(body, (i - start) as nat, max as int, overflow) == Ok::<int, IntErrorKind>(acc as int),
            acc <= max,
            9 <= max,
        decreases len - i,
    {
        let c = s.get_char(i);
        assert(body[(i - start) as int] == c);
        if !('0' <= c && c <= '9') {
            assert(scan_digits(body, (i + 1 - start) as nat, max as int, overflow) == Err::<int, IntErrorKind>(IntErrorKind::InvalidDigit));
            proof { lemma_scan_err_stays(body, (i + 1 - start) as nat, (len - start) as nat, max as int, overflow); }
            return Err(IntErrorKind::InvalidDigit);
        }
        let d = ((c as u32) - ('0' as u32)) as u64;
        if acc > (max - d) / 10 {
            assert(acc * 10 + d > max) by (nonlinear_arith)
                requires acc > (max - d) / 10, d <= 9, 9 <= max;
            assert(scan_digits(body, (i + 1 - start) as nat, max as int, overflow) == Err::<int, IntErrorKind>(overflow));
            proof { lemma_scan_err_stays(body, (i + 1 - start) as nat, (len - start) as nat, max as int, overflow); }
            return Err(overflow);
        }
        assert(acc * 10 + d <= max) by (nonlinear_arith)
            requires acc <= (max - d) / 10, d <= 9, 9 <= max;
        acc = acc * 10 + d;
        i = i + 1;
    }
    assert(s@.len() - start == i - start);
    Ok(acc)
}

fn parse_unsigned(s: &str, max: u64) -> (r: Result<u64, IntErrorKind>)
    requires
        9 <= max,
    ensures
        match parse_unsigned_spec(s@, max as int) {
            Ok(v) => r == Ok::<u64, IntErrorKind>(v as u64) && 0 <= v <= max,
            Err(e) => r == Err::<u64, IntErrorKind>(e),
        },
{
    let len = s.unicode_len();
    if len == 0 {
        return Err(IntErrorKind::Empty);
    }
    let first = s.get_char(0);
    if len == 1 && (first == '+' || first == '-') {
        assert(s@ =~= seq![first]);
        return Err(IntErrorKind::InvalidDigit);
    }
    if first == '+' {
        assert(s@.skip(1) =~= s@.drop_first());
        scan(s, 1, max, IntErrorKind::PosOverflow)
    } else {
        assert(s@.skip(0) =~= s@);
        scan(s, 0, max, IntErrorKind::PosOverflow)
    }
}

/// Reads a `u32` as `s.parse::<u32>()` does.
pub fn parse_u32(s: &str) -> (r: Result<u32, IntErrorKind>)
    ensures
        match parse_unsigned_spec(s@, u32::MAX as int) {
            Ok(v) => r == Ok::<u32, IntErrorKind>(v as u32),
            Err(e) => r == Err::<u32, IntErrorKind>(e),
        },
{
    match parse_unsigned(s, 0xffff_ffff) {
        Ok(v) => Ok(v as u32),
        Err(e) => Err(e),
    }
}

/// Reads a `u16` as `s.parse::<u16>()` does.
pub fn parse_u16(s: &str) -> (r: Result<u16, IntErrorKind>)
    ensures
        match parse_unsigned_spec(s@, u16::MAX as int) {
            Ok(v) => r == Ok::<u16, IntErrorKind>(v as u16),
            Err(e) => r == Err::<u16, IntErrorKind>(e),
        },
{
    match parse_unsigned(s, 0xffff) {
        Ok(v) => Ok(v as u16),
        Err(e) => Err(e),
    }
}

/// Reads a `u8` as `s.parse::<u8>()` does.
pub fn parse_u8(s: &str) -> (r: Result<u8, IntErrorKind>)
    ensures
        match parse_unsigned_spec(s@, 255) {
            Ok(v) => r == Ok::<u8, IntErrorKind>(v as u8),
            Err(e) => r == Err::<u8, IntErrorKind>(e),
        },
{
    match parse_unsigned(s, 255) {
        Ok(v) => Ok(v as u8),
        Err(e) => Err(e),
    }
}

/// Reads a `u64` as `s.parse::<u64>()` does.
pub fn parse_u64(s: &str) -> (r: Result<u64, IntErrorKind>)
    ensures
        match parse_unsigned_spec(s@, u64::MAX as int) {
            Ok(v) => r == Ok::<u64, IntErrorKind>(v as u64),
            Err(e) => r == Err::<u64, IntErrorKind>(e),
        },
{
    parse_unsigned(s, 0xffff_ffff_ffff_ffff)
}

/// Reads an `i32` as `s.parse::<i32>()` does.
pub fn parse_i32(s: &str) -> (r: Result<i32, IntErrorKind>)
    ensures
        match parse_i32_spec(s@) {
            Ok(v) => r == Ok::<i32, IntErrorKind>(v as i32) && i32::MIN <= v <= i32::MAX,
            Err(e) => r == Err::<i32, IntErrorKind>(e),
        },
{
    let len = s.unicode_len();
    if len == 0 {
        return Err(IntErrorKind::Empty);
    }
    let first = s.get_char(0);
    if len == 1 && (first == '+' || first == '-') {
        assert(s@ =~= seq![first]);
        return Err(IntErrorKind::InvalidDigit);
    }
    if first == '-' {
        assert(s@.skip(1) =~= s@.drop_first());
        match scan(s, 1, 0x8000_0000, IntErrorKind::NegOverflow) {
            Ok(v) => {
                if v == 0x8000_0000 {
                    Ok(i32::MIN)
                } else {
                    let w = v as i32;
                    assert(w == v);
                    Ok(-w)
                }
            },
            Err(e) => Err(e),
        }
    } else if first == '+' {
        assert(s@.skip(1) =~= s@.drop_first());
        match scan(s, 1, 0x7fff_ffff, IntErrorKind::PosOverflow) {
            Ok(v) => Ok(v as i32),
            Err(e) => Err(e),
        }
    } else {
        assert(s@.skip(0) =~= s@);
        match scan(s, 0, 0x7fff_ffff, IntErrorKind::PosOverflow) {
            Ok(v) => Ok(v as i32),
            Err(e) => Err(e),
        }
    }
}


proof fn lemma_scan_nonneg(body: Seq<char>, n: nat, max: int, overflow: IntErrorKind)
    ensures
        scan_digits(body, n, max, overflow) is Ok ==> scan_digits(body, n, max, overflow)->Ok_0 >= 0,
    decreases n,
{
    if n > 0 {
        lemma_scan_nonneg(body, (n - 1) as nat, max, overflow);
    }
}

/// What `parse_unsigned_spec` reads lies between 0 and `max`.
pub(crate) proof fn lemma_parse_unsigned_range(s: Seq<char>, max: int)
    requires
        max >= 0,
    ensures
        parse_unsigned_spec(s, max) is Ok ==> 0 <= parse_unsigned_spec(s, max)->Ok_0 <= max,
{
    if s.len() > 0 && !(s == seq!['+'] || s == seq!['-']) {
        let body = if s[0] == '+' { s.drop_first() } else { s };
        lemma_scan_nonneg(body, body.len(), max, IntErrorKind::PosOverflow);
    }
}

proof fn lemma_scan_err_stays(body: Seq<char>, n: nat, m: nat, max: int, overflow: IntErrorKind)
    requires
        n <= m,
        scan_digits(body, n, max, overflow) is Err,
    ensures
        scan_digits(body, m, max, overflow) == scan_digits(body, n, max, overflow),
    decreases m - n,
{
    if n < m {
        lemma_scan_err_stays(body, n, (m - 1) as nat, max, overflow);
    }
}

proof fn lemma_scan_prefix(a: Seq<char>, b: Seq<char>, k: nat, max: int, overflow: IntErrorKind)
    requires
        k <= a.len(),
    ensures
        scan_digits(a + b, k, max, overflow) == scan_digits(a, k, max, overflow),
    decreases k,
{
    if k > 0 {
        lemma_scan_prefix(a, b, (k - 1) as nat, max, overflow);
        assert((a + b)[k - 1] == a[k - 1]);
    }
}

proof fn lemma_decimal_shape(n: nat)
    ensures
        decimal_of(n).len() >= 1,
        forall|i: int| 0 <= i < decimal_of(n).len() ==> is_digit(#[trigger] decimal_of(n)[i]),
    decreases n,
{
    if n >= 10 {
        lemma_decimal_shape(n / 10);
        let a = decimal_of(n / 10);
        let c = digit_char((n % 10) as int);
        assert forall|i: int| 0 <= i < decimal_of(n).len() implies is_digit(#[trigger] decimal_of(n)[i]) by {
            if i < a.len() {
                assert(decimal_of(n)[i] == a[i]);
            } else {
                assert(decimal_of(n)[i] == c);
            }
        }
    }
}

proof fn lemma_scan_decimal(n: nat, max: int, overflow: IntErrorKind)
    requires
        n <= max,
    ensures
        scan_digits(decimal_of(n), decimal_of(n).len(), max, overflow) == Ok::<int, IntErrorKind>(n as int),
    decreases n,
{
    if n < 10 {
        assert(decimal_of(n).len() == 1);
        assert(scan_digits(decimal_of(n), 0, max, overflow) == Ok::<int, IntErrorKind>(0));
    } else {
        let a = decimal_of(n / 10);
        let c = digit_char((n % 10) as int);
        lemma_scan_decimal(n / 10, max, overflow);
        lemma_scan_prefix(a, seq![c], a.len(), max, overflow);
        assert(decimal_of(n) == a + seq![c]);
        assert(decimal_of(n)[a.len() as int] == c);
        assert((n / 10) * 10 + (n % 10) == n);
    }
}

/// Writing a number in decimal and reading it back gives the number:
/// `n.to_string().parse::<u64>() == Ok(n)`.
pub proof fn decimal_round_trip_u64(n: u64)
    ensures
        parse_unsigned_spec(decimal_of(n as nat), u64::MAX as int) == Ok::<int, IntErrorKind>(n as int),
{
    lemma_decimal_shape(n as nat);
    lemma_scan_decimal(n as nat, u64::MAX as int, IntErrorKind::PosOverflow);
    let s = decimal_of(n as nat);
    assert(is_digit(s[0]));
    assert(s != seq!['+']);
    assert(s != seq!['-']);
}

/// The same round trip for `u32`.
pub proof fn decimal_round_trip_u32(n: u32)
    ensures
        parse_unsigned_spec(decimal_of(n as nat), u32::MAX as int) == Ok::<int, IntErrorKind>(n as int),
{
    lemma_decimal_shape(n as nat);
    lemma_scan_decimal(n as nat, u32::MAX as int, IntErrorKind::PosOverflow);
    let s = decimal_of(n as nat);
    assert(is_digit(s[0]));
    assert(s != seq!['+']);
    assert(s != seq!['-']);
}

}
