//! IPv4 addresses in dotted-decimal text, read as `Ipv4Addr::from_str` reads
//! them: four parts split by dots, each one to three digits without a
//! leading zero, each at most 255.
use vstd::prelude::*;
use vstd::string::*;
use crate::decimal::{bounded_digits, parse_digits, decimal, lemma_decimal, is_digit, digits_value,
    canonical_digits, lemma_canonical_is_decimal};

verus! {

/// The indices of the dots in `s`, in increasing order.
pub open spec fn dot_positions(s: Seq<char>) -> Seq<int>
    decreases s.len(),
{
    if s.len() == 0 {
        Seq::empty()
    } else if s.last() == '.' {
        dot_positions(s.drop_last()).push(s.len() - 1)
    } else {
        dot_positions(s.drop_last())
    }
}

/// One part of an address: one to three digits, no leading zero unless the
/// part is `0`, at most 255.
pub open spec fn spec_octet(p: Seq<char>) -> Option<u8> {
    if 1 <= p.len() <= 3 && (p.len() == 1 || p[0] != '0') {
        match bounded_digits(p, 255) {
            Some(v) => Some(v as u8),
            None => None,
        }
    } else {
        None
    }
}

/// The four parts of a dotted-decimal IPv4 address, if `s` is one.
pub open spec fn spec_parse_ipv4(s: Seq<char>) -> Option<(u8, u8, u8, u8)> {
    let d = dot_positions(s);
    if d.len() != 3 {
        None
    } else {
        match (
            spec_octet(s.subrange(0, d[0])),
            spec_octet(s.subrange(d[0] + 1, d[1])),
            spec_octet(s.subrange(d[1] + 1, d[2])),
            spec_octet(s.subrange(d[2] + 1, s.len() as int)),
        ) {
            (Some(a), Some(b), Some(c), Some(e)) => Some((a, b, c, e)),
            _ => None,
        }
    }
}

/// The dotted-decimal text of an address.
pub open spec fn spec_ipv4_text(a: u8, b: u8, c: u8, e: u8) -> Seq<char> {
    decimal(a as nat) + seq!['.'] + decimal(b as nat) + seq!['.'] + decimal(c as nat) + seq!['.']
        + decimal(e as nat)
}

/// The dots lie inside the text, in increasing order, and nowhere else.
pub proof fn lemma_dot_positions(s: Seq<char>)
    ensures
        forall|k: int| 0 <= k < dot_positions(s).len() ==> 0 <= #[trigger] dot_positions(s)[k] < s.len()
            && s[dot_positions(s)[k]] == '.',
        forall|k: int, l: int|
            0 <= k < l < dot_positions(s).len() ==> #[trigger] dot_positions(s)[k] < #[trigger] dot_positions(
                s,
            )[l],
        forall|i: int| 0 <= i < s.len() && s[i] == '.' ==> dot_positions(s).contains(i),
    decreases s.len(),
{
    if s.len() > 0 {
        let p = s.drop_last();
        lemma_dot_positions(p);
        assert forall|i: int| 0 <= i < s.len() && s[i] == '.' implies dot_positions(s).contains(i) by {
            if i < s.len() - 1 {
                assert(p[i] == '.');
                let k = choose|k: int| 0 <= k < dot_positions(p).len() && dot_positions(p)[k] == i;
                assert(dot_positions(s)[k] == i);
            } else {
                assert(dot_positions(s).last() == i);
            }
        }
    }
}

/// The dots of a concatenation: those of the first part, then those of the
/// second part moved along by the first part's length.
pub proof fn lemma_dot_positions_concat(s: Seq<char>, t: Seq<char>)
    ensures
        dot_positions(s + t) == dot_positions(s) + dot_positions(t).map_values(|i: int| i + s.len()),
    decreases t.len(),
{
    if t.len() == 0 {
        assert(s + t =~= s);
        assert(dot_positions(t).map_values(|i: int| i + s.len()) =~= Seq::<int>::empty());
        assert(dot_positions(s) + Seq::<int>::empty() =~= dot_positions(s));
    } else {
        lemma_dot_positions_concat(s, t.drop_last());
        assert((s + t).drop_last() =~= s + t.drop_last());
        assert((s + t).last() == t.last());
        if t.last() == '.' {
            assert(dot_positions(t).map_values(|i: int| i + s.len()) =~= dot_positions(t.drop_last()).map_values(
                |i: int| i + s.len(),
            ).push(t.len() - 1 + s.len()));
            assert(dot_positions(s + t) =~= dot_positions(s) + dot_positions(t).map_values(
                |i: int| i + s.len(),
            ));
        } else {
            assert(dot_positions(t).map_values(|i: int| i + s.len()) =~= dot_positions(t.drop_last()).map_values(
                |i: int| i + s.len(),
            ));
        }
    }
}

proof fn lemma_no_dots(s: Seq<char>)
    requires
        forall|i: int| 0 <= i < s.len() ==> s[i] != '.',
    ensures
        dot_positions(s) == Seq::<int>::empty(),
{
    lemma_dot_positions(s);
    if dot_positions(s).len() > 0 {
        assert(s[dot_positions(s)[0]] == '.');
    }
}

proof fn lemma_octet_text(a: u8)
    ensures
        spec_octet(decimal(a as nat)) == Some(a),
        dot_positions(decimal(a as nat)) == Seq::<int>::empty(),
{
    lemma_decimal(a as nat);
    assert forall|i: int| 0 <= i < decimal(a as nat).len() implies decimal(a as nat)[i] != '.' by {
        assert(is_digit(decimal(a as nat)[i]));
    }
    lemma_no_dots(decimal(a as nat));
}

/// Every address, spelled in dotted decimal, reads back as the same four
/// parts.
pub proof fn lemma_ipv4_round_trip(a: u8, b: u8, c: u8, e: u8)
    ensures
        spec_parse_ipv4(spec_ipv4_text(a, b, c, e)) == Some((a, b, c, e)),
{
    let (da, db, dc, de) = (decimal(a as nat), decimal(b as nat), decimal(c as nat), decimal(e as nat));
    lemma_octet_text(a);
    lemma_octet_text(b);
    lemma_octet_text(c);
    lemma_octet_text(e);
    let dot = seq!['.'];
    assert(dot_positions(dot) =~= seq![0int]) by {
        assert(dot.drop_last() =~= Seq::<char>::empty());
        assert(dot.last() == '.');
        assert(dot_positions(Seq::<char>::empty()) == Seq::<int>::empty());
        assert(dot_positions(dot) == dot_positions(dot.drop_last()).push(0));
    }
    let t1 = da + dot;
    lemma_dot_positions_concat(da, dot);
    let t2 = t1 + db;
    lemma_dot_positions_concat(t1, db);
    let t3 = t2 + dot;
    lemma_dot_positions_concat(t2, dot);
    let t4 = t3 + dc;
    lemma_dot_positions_concat(t3, dc);
    let t5 = t4 + dot;
    lemma_dot_positions_concat(t4, dot);
    let t6 = t5 + de;
    lemma_dot_positions_concat(t5, de);
    let p0 = da.len() as int;
    let p1 = p0 + 1 + db.len();
    let p2 = p1 + 1 + dc.len();
    assert(dot_positions(t1) =~= seq![p0]);
    assert(dot_positions(t2) =~= seq![p0]);
    assert(dot_positions(t3) =~= seq![p0, p1]);
    assert(dot_positions(t4) =~= seq![p0, p1]);
    assert(dot_positions(t5) =~= seq![p0, p1, p2]);
    assert(dot_positions(t6) =~= seq![p0, p1, p2]);
    assert(t6 == spec_ipv4_text(a, b, c, e));
    assert(t6.subrange(0, p0) =~= da);
    assert(t6.subrange(p0 + 1, p1) =~= db);
    assert(t6.subrange(p1 + 1, p2) =~= dc);
    assert(t6.subrange(p2 + 1, t6.len() as int) =~= de);
}

proof fn lemma_octet_is_decimal(p: Seq<char>)
    requires
        spec_octet(p) is Some,
    ensures
        p == decimal(spec_octet(p)->0 as nat),
        spec_octet(p)->0 as nat == digits_value(p),
{
    assert(canonical_digits(p));
    lemma_canonical_is_decimal(p);
}

/// An address text is read as four parts only when it is exactly the
/// dotted-decimal spelling of those parts: every part is at most 255 and
/// written without leading zeros, and nothing else is in the text.
pub proof fn lemma_ipv4_is_text(s: Seq<char>)
    requires
        spec_parse_ipv4(s) is Some,
    ensures
        spec_parse_ipv4(s) matches Some((a, b, c, e)) && s == spec_ipv4_text(a, b, c, e),
{
    let d = dot_positions(s);
    lemma_dot_positions(s);
    assert(0 <= d[0] < d[1] < d[2] < s.len());
    let p0 = s.subrange(0, d[0]);
    let p1 = s.subrange(d[0] + 1, d[1]);
    let p2 = s.subrange(d[1] + 1, d[2]);
    let p3 = s.subrange(d[2] + 1, s.len() as int);
    lemma_octet_is_decimal(p0);
    lemma_octet_is_decimal(p1);
    lemma_octet_is_decimal(p2);
    lemma_octet_is_decimal(p3);
    assert(s[d[0]] == '.' && s[d[1]] == '.' && s[d[2]] == '.');
    assert(s =~= p0 + seq!['.'] + p1 + seq!['.'] + p2 + seq!['.'] + p3);
}

fn octet(s: &str, from: usize, to: usize) -> (r: Option<u8>)
    requires
        from <= to <= s@.len(),
    ensures
        r == spec_octet(s@.subrange(from as int, to as int)),
{
    let len = to - from;
    if len < 1 || len > 3 {
        return None;
    }
    let part = s.substring_char(from, to);
    if len > 1 && part.get_char(0) == '0' {
        return None;
    }
    assert(part@.subrange(0, part@.len() as int) =~= part@);
    match parse_digits(part, 0, 255) {
        Some(v) => Some(v as u8),
        None => None,
    }
}

/// Reads `s` as a dotted-decimal IPv4 address, as `Ipv4Addr::from_str` does.
pub fn parse_ipv4(s: &str) -> (r: Option<(u8, u8, u8, u8)>)
    ensures
        r == spec_parse_ipv4(s@),
{
    let n = s.unicode_len();
    let mut dots: Vec<usize> = Vec::new();
    let mut i: usize = 0;
    while i < n
        invariant
            i <= n,
            n == s@.len(),
            dots@.len() == dot_positions(s@.take(i as int)).len(),
            forall|k: int| 0 <= k < dots@.len() ==> dots@[k] as int == #[trigger] dot_positions(s@.take(i as int))[k],
        decreases n - i,
    {
        let ghost before = dot_positions(s@.take(i as int));
        assert(s@.take(i + 1).drop_last() =~= s@.take(i as int));
        if s.get_char(i) == '.' {
            dots.push(i);
        }
        i = i + 1;
    }
    assert(s@.take(n as int) =~= s@);
    proof {
        lemma_dot_positions(s@);
    }
    if dots.len() != 3 {
        return None;
    }
    let (d0, d1, d2) = (dots[0], dots[1], dots[2]);
    assert(d0 < d1 < d2 < n);
    let a = octet(s, 0, d0);
    let b = octet(s, d0 + 1, d1);
    let c = octet(s, d1 + 1, d2);
    let e = octet(s, d2 + 1, n);
    match (a, b, c, e) {
        (Some(a), Some(b), Some(c), Some(e)) => Some((a, b, c, e)),
        _ => None,
    }
}

/// A target that forwarding can send to: an IPv4 address and a port.
#[derive(Debug, PartialEq, Eq, Clone, Copy)]
pub struct Ipv4Target {
    pub octets: (u8, u8, u8, u8),
    pub port: u16,
}

/// Why a target cannot be resolved.
#[derive(Debug, PartialEq, Eq, Structural, Clone, Copy)]
pub enum TargetError {
    /// The target IP is not a dotted-decimal IPv4 address; forwarding is
    /// IPv4 only.
    NotIpv4Address,
}

impl TargetError {
    /// The status text that reports this error.
    pub fn message(&self) -> (r: String)
        ensures
            r@ == "Error: target IP is not an IPv4 address"@,
    {
        String::from_str("Error: target IP is not an IPv4 address")
    }
}

/// Resolves the target IP text and port to an IPv4 target; forwarding is
/// IPv4 only, so any other text is refused.
pub fn resolve_target(ip: &str, port: u16) -> (r: Result<Ipv4Target, TargetError>)
    ensures
        r is Ok <==> spec_parse_ipv4(ip@) is Some,
        r matches Ok(t) ==> Some(t.octets) == spec_parse_ipv4(ip@) && t.port == port,
        r matches Err(e) ==> e == TargetError::NotIpv4Address,
{
    match parse_ipv4(ip) {
        Some(octets) => Ok(Ipv4Target { octets, port }),
        None => Err(TargetError::NotIpv4Address),
    }
}

} // verus!
