//! Decimal text: formatting unsigned integers and parsing them back the way
//! `str::parse` does for `u16` and `i32`.
use vstd::prelude::*;
use vstd::string::*;

verus! {

/// `c` is one of the ASCII digits `0` to `9`.
pub open spec fn is_digit(c: char) -> bool {
    48 <= (c as u32) && (c as u32) <= 57
}

/// The value of an ASCII digit.
pub open spec fn digit_value(c: char) -> nat {
    ((c as u32) - 48) as nat
}

/// The ASCII digit for a value below ten.
pub open spec fn digit_char(d: nat) -> char {
    ((d + 48) as u32) as char
}

/// Every character of `s` is an ASCII digit.
pub open spec fn all_digits(s: Seq<char>) -> bool {
    forall|i: int| 0 <= i < s.len() ==> is_digit(#[trigger] s[i])
}

/// The number that a string of digits spells, most significant digit first.
pub open spec fn digits_value(s: Seq<char>) -> nat
    decreases s.len(),
{
    if s.len() == 0 {
        0
    } else {
        digits_value(s.drop_last()) * 10 + digit_value(s.last())
    }
}

/// The shortest decimal spelling of `n`.
pub open spec fn decimal(n: nat) -> Seq<char>
    decreases n,
{
    if n < 10 {
        seq![digit_char(n)]
    } else {
        decimal(n / 10).push(digit_char(n % 10))
    }
}

/// The value of a non-empty string of digits, when it is at most `limit`.
pub open spec fn bounded_digits(d: Seq<char>, limit: nat) -> Option<nat> {
    if d.len() > 0 && all_digits(d) && digits_value(d) <= limit {
        Some(digits_value(d))
    } else {
        None
    }
}

/// What `s.parse::<u16>()` yields: an optional `+`, then one or more digits
/// whose value fits in a `u16`.
pub open spec fn spec_parse_u16(s: Seq<char>) -> Option<u16> {
    let d = if s.len() > 0 && s[0] == '+' { s.drop_first() } else { s };
    match bounded_digits(d, 65535) {
        Some(v) => Some(v as u16),
        None => None,
    }
}

/// What `s.parse::<i32>()` yields: an optional `+` or `-`, then one or more
/// digits whose signed value fits in an `i32`.
pub open spec fn spec_parse_i32(s: Seq<char>) -> Option<i32> {
    if s.len() > 0 && s[0] == '-' {
        match bounded_digits(s.drop_first(), 2147483648) {
            Some(v) => Some((0 - v) as i32),
            None => None,
        }
    } else {
        let d = if s.len() > 0 && s[0] == '+' { s.drop_first() } else { s };
        match bounded_digits(d, 2147483647) {
            Some(v) => Some(v as i32),
            None => None,
        }
    }
}

/// `String::push` appends one character to the end of the string; this is
/// what its documentation states, and the contract claims no more.
pub assume_specification[ String::push ](string: &mut String, ch: char)
    ensures
        final(string)@ == old(string)@.push(ch),
;

/// The decimal spelling of any number is a non-empty run of digits that
/// spells that number.
pub proof fn lemma_decimal(n: nat)
    ensures
        decimal(n).len() > 0,
        all_digits(decimal(n)),
        digits_value(decimal(n)) == n,
        n < 10 ==> decimal(n).len() == 1,
        n < 100 ==> decimal(n).len() <= 2,
        n < 1000 ==> decimal(n).len() <= 3,
        decimal(n)[0] == '0' <==> n == 0,
    decreases n,
{
    if n >= 10 {
        lemma_decimal(n / 10);
        assert(decimal(n)[0] == decimal(n / 10)[0]);
        assert(decimal(n).drop_last() =~= decimal(n / 10));
        assert(decimal(n).last() == digit_char(n % 10));
        assert(digit_value(digit_char(n % 10)) == n % 10);
        assert((n / 10) * 10 + n % 10 == n) by (nonlinear_arith);
        assert(digits_value(decimal(n)) == digits_value(decimal(n / 10)) * 10 + n % 10);
    } else {
        assert(digit_value(digit_char(n)) == n);
        assert(digit_char(n) as u32 == n + 48);
        assert('0' as u32 == 48);
        assert(decimal(n).drop_last() =~= Seq::<char>::empty());
        assert(digits_value(Seq::<char>::empty()) == 0);
        assert(digits_value(decimal(n)) == n);
    }
}

/// A prefix of a run of digits never spells more than the whole run.
pub proof fn lemma_digits_prefix_le(s: Seq<char>, k: int)
    requires
        all_digits(s),
        0 <= k <= s.len(),
    ensures
        digits_value(s.take(k)) <= digits_value(s),
    decreases s.len(),
{
    if k < s.len() {
        assert(all_digits(s.drop_last()));
        lemma_digits_prefix_le(s.drop_last(), k);
        assert(s.drop_last().take(k) =~= s.take(k));
    } else {
        assert(s.take(k) =~= s);
    }
}

/// Formatting a `u16` in decimal and parsing it back gives the same number.
pub proof fn lemma_u16_decimal_round_trip(n: u16)
    ensures
        spec_parse_u16(decimal(n as nat)) == Some(n),
{
    lemma_decimal(n as nat);
    assert(is_digit(decimal(n as nat)[0]));
}

/// A run of digits written without leading zeros.
pub open spec fn canonical_digits(p: Seq<char>) -> bool {
    p.len() >= 1 && all_digits(p) && (p.len() == 1 || p[0] != '0')
}

/// A run of digits without leading zeros is the decimal spelling of the
/// number it spells.
pub proof fn lemma_canonical_is_decimal(p: Seq<char>)
    requires
        canonical_digits(p),
    ensures
        decimal(digits_value(p)) == p,
        p.len() > 1 ==> digits_value(p) >= 10,
    decreases p.len(),
{
    let c = p.last();
    assert(is_digit(c));
    let d = digit_value(c);
    vstd::utf8::char_u32_cast(c, c as u32);
    assert(digit_char(d) == c);
    if p.len() == 1 {
        assert(p.drop_last() =~= Seq::<char>::empty());
        assert(digits_value(Seq::<char>::empty()) == 0);
        assert(digits_value(p) == d);
        assert(decimal(d) =~= p);
    } else {
        let q = p.drop_last();
        assert(q[0] == p[0]);
        assert(all_digits(q));
        lemma_canonical_is_decimal(q);
        if q.len() == 1 {
            assert(q[0] != '0');
            assert(digits_value(q.drop_last()) == 0) by {
                assert(q.drop_last() =~= Seq::<char>::empty());
            }
            assert(digits_value(q) == digit_value(q[0]));
            assert(digit_value(q[0]) >= 1) by {
                assert('0' as u32 == 48);
            }
        }
        let n = digits_value(p);
        assert(n == digits_value(q) * 10 + d);
        assert(n / 10 == digits_value(q) && n % 10 == d) by (nonlinear_arith)
            requires
                n == digits_value(q) * 10 + d,
                d < 10,
        ;
        assert(decimal(n) == decimal(n / 10).push(digit_char(n % 10)));
        assert(p =~= q.push(c));
    }
}

/// Formatting an `i32` in decimal (with a `-` before a negative number) and
/// parsing it back gives the same number.
pub proof fn lemma_i32_decimal_round_trip(n: i32)
    ensures
        n >= 0 ==> spec_parse_i32(decimal(n as nat)) == Some(n),
        n < 0 ==> spec_parse_i32(seq!['-'] + decimal((0 - n) as nat)) == Some(n),
{
    if n >= 0 {
        lemma_decimal(n as nat);
        assert(is_digit(decimal(n as nat)[0]));
    } else {
        let m = (0 - n) as nat;
        lemma_decimal(m);
        let t = seq!['-'] + decimal(m);
        assert(t.drop_first() =~= decimal(m));
    }
}

/// A `u16` is read from text that is one or more digits, with an optional
/// `+` before them, spelling a number up to 65535, and it is that number.
pub proof fn lemma_parse_u16(s: Seq<char>)
    ensures
        spec_parse_u16(s) matches Some(n) ==> ({
            let d = if s[0] == '+' { s.drop_first() } else { s };
            &&& d.len() > 0
            &&& all_digits(d)
            &&& digits_value(d) == n as nat
        }),
        s.len() > 0 && all_digits(s) && digits_value(s) <= 65535 ==> spec_parse_u16(s) == Some(
            digits_value(s) as u16,
        ),
        s.len() > 1 && s[0] == '+' && all_digits(s.drop_first()) && digits_value(s.drop_first()) <= 65535
            ==> spec_parse_u16(s) == Some(digits_value(s.drop_first()) as u16),
        s.len() > 0 && all_digits(s) && digits_value(s) > 65535 ==> spec_parse_u16(s) is None,
        s.len() == 0 ==> spec_parse_u16(s) is None,
{
    if s.len() > 0 && all_digits(s) {
        assert(is_digit(s[0]));
    }
}

/// An `i32` is read from one or more digits, with an optional `+` or `-`
/// before them, and it is the number they spell, negated after a `-`; a
/// number outside the `i32` range is not read.
pub proof fn lemma_parse_i32(s: Seq<char>)
    ensures
        spec_parse_i32(s) matches Some(n) ==> ({
            let d = if s[0] == '+' || s[0] == '-' { s.drop_first() } else { s };
            &&& d.len() > 0
            &&& all_digits(d)
            &&& (if s[0] == '-' { digits_value(d) == -n } else { digits_value(d) == n })
        }),
        s.len() > 0 && all_digits(s) && digits_value(s) <= i32::MAX ==> spec_parse_i32(s) == Some(
            digits_value(s) as i32,
        ),
        s.len() > 0 && all_digits(s) && digits_value(s) > i32::MAX ==> spec_parse_i32(s) is None,
        s.len() == 0 ==> spec_parse_i32(s) is None,
{
    if s.len() > 0 && all_digits(s) {
        assert(is_digit(s[0]));
    }
    if s.len() > 0 && s[0] == '+' {
        assert(!is_digit(s[0]));
    }
}

/// Reads the characters of `s` from index `from` on as a bounded run of digits.
pub(crate) fn parse_digits(s: &str, from: usize, limit: u64) -> (r: Option<u64>)
    requires
        from <= s@.len(),
        limit <= u32::MAX,
    ensures
        r matches Some(v) ==> bounded_digits(s@.subrange(from as int, s@.len() as int), limit as nat)
            == Some(v as nat),
        r is None ==> bounded_digits(s@.subrange(from as int, s@.len() as int), limit as nat) is None,
{
    let n = s.unicode_len();
    let ghost d = s@.subrange(from as int, n as int);
    if from == n {
        return None;
    }
    let mut i = from;
    let mut v: u64 = 0;
    while i < n
        invariant
            from <= i <= n,
            n == s@.len(),
            d == s@.subrange(from as int, n as int),
            all_digits(s@.subrange(from as int, i as int)),
            v == digits_value(s@.subrange(from as int, i as int)),
            v <= limit,
            limit <= u32::MAX,
        decreases n - i,
    {
        let c = s.get_char(i);
        let code = c as u32;
        if code < 48 || code > 57 {
            assert(d[i - from] == c);
            return None;
        }
        let next = v * 10 + (code - 48) as u64;
        let ghost prefix = s@.subrange(from as int, i + 1);
        assert(prefix.drop_last() =~= s@.subrange(from as int, i as int));
        assert(all_digits(prefix));
        if next > limit {
            proof {
                if all_digits(d) {
                    assert(d.take(i + 1 - from) =~= prefix);
                    lemma_digits_prefix_le(d, i + 1 - from);
                }
            }
            return None;
        }
        v = next;
        i = i + 1;
    }
    Some(v)
}

/// Parses `s` as `s.parse::<u16>()` does.
pub fn parse_u16(s: &str) -> (r: Option<u16>)
    ensures
        r == spec_parse_u16(s@),
{
    let n = s.unicode_len();
    let start: usize = if n > 0 && s.get_char(0) == '+' { 1 } else { 0 };
    proof {
        if start == 1 {
            assert(s@.drop_first() =~= s@.subrange(1, n as int));
        } else {
            assert(s@ =~= s@.subrange(0, n as int));
        }
    }
    match parse_digits(s, start, 65535) {
        Some(v) => Some(v as u16),
        None => None,
    }
}

/// Parses `s` as `s.parse::<i32>()` does.
pub fn parse_i32(s: &str) -> (r: Option<i32>)
    ensures
        r == spec_parse_i32(s@),
{
    let n = s.unicode_len();
    if n > 0 && s.get_char(0) == '-' {
        assert(s@.drop_first() =~= s@.subrange(1, n as int));
        match parse_digits(s, 1, 2147483648) {
            Some(v) => Some((0i64 - v as i64) as i32),
            None => None,
        }
    } else {
        let start: usize = if n > 0 && s.get_char(0) == '+' { 1 } else { 0 };
        proof {
            if start == 1 {
                assert(s@.drop_first() =~= s@.subrange(1, n as int));
            } else {
                assert(s@ =~= s@.subrange(0, n as int));
            }
        }
        match parse_digits(s, start, 2147483647) {
            Some(v) => Some(v as i32),
            None => None,
        }
    }
}

/// Appends the decimal spelling of `n` to `out`.
pub fn push_decimal(out: &mut String, n: u64)
    ensures
        final(out)@ == old(out)@ + decimal(n as nat),
    decreases n,
{
    if n >= 10 {
        push_decimal(out, n / 10);
    }
    let d = (n % 10) as u8;
    out.push((48u8 + d) as char);
    assert(decimal(n as nat) =~= if n < 10 { seq![digit_char(n as nat)] } else {
        decimal((n / 10) as nat).push(digit_char((n % 10) as nat))
    });
}

/// The decimal spelling of `n`, as `n.to_string()` gives it.
pub fn to_decimal_string(n: u64) -> (r: String)
    ensures
        r@ == decimal(n as nat),
{
    let mut out = String::new();
    push_decimal(&mut out, n);
    assert(out@ =~= decimal(n as nat));
    out
}

} // verus!
