//! `IP:PORT` text: splitting a target at its last colon, and spelling the
//! addresses that the forwarder's sockets bind and connect to.
use vstd::prelude::*;
use vstd::string::*;
use crate::decimal::{decimal, spec_parse_u16, parse_u16, push_decimal, lemma_decimal,
    lemma_u16_decimal_round_trip, is_digit};

verus! {

/// The index of the last occurrence of `c` in `s`, as `str::rfind` finds it
/// (counted in characters).
pub open spec fn last_index_of(s: Seq<char>, c: char) -> Option<int>
    decreases s.len(),
{
    if s.len() == 0 {
        None
    } else if s.last() == c {
        Some(s.len() - 1)
    } else {
        last_index_of(s.drop_last(), c)
    }
}

/// What `parse_target` gives for `s`: the text before the last colon, and the
/// text after it read as a `u16` port.
pub open spec fn spec_parse_target(s: Seq<char>) -> Option<(Seq<char>, u16)> {
    match last_index_of(s, ':') {
        None => None,
        Some(i) => match spec_parse_u16(s.subrange(i + 1, s.len() as int)) {
            None => None,
            Some(port) => Some((s.subrange(0, i), port)),
        },
    }
}

/// The text `host:port`, with the port in decimal.
pub open spec fn spec_target_address(host: Seq<char>, port: u16) -> Seq<char> {
    host + seq![':'] + decimal(port as nat)
}

/// `last_index_of` finds an occurrence of `c` after which no `c` follows, or
/// finds nothing when `c` does not occur.
pub proof fn lemma_last_index_of(s: Seq<char>, c: char)
    ensures
        last_index_of(s, c) matches Some(i) ==> 0 <= i < s.len() && s[i] == c && forall|j: int|
            i < j < s.len() ==> s[j] != c,
        last_index_of(s, c) is None ==> forall|j: int| 0 <= j < s.len() ==> s[j] != c,
    decreases s.len(),
{
    if s.len() > 0 && s.last() != c {
        lemma_last_index_of(s.drop_last(), c);
        assert forall|j: int| 0 <= j < s.len() - 1 implies s[j] == s.drop_last()[j] by {}
    }
}

/// An occurrence of `c` with no `c` after it is the one `last_index_of` finds.
pub proof fn lemma_last_index_of_is(s: Seq<char>, c: char, k: int)
    requires
        0 <= k < s.len(),
        s[k] == c,
        forall|j: int| k < j < s.len() ==> s[j] != c,
    ensures
        last_index_of(s, c) == Some(k),
    decreases s.len(),
{
    if k < s.len() - 1 {
        assert(s.last() != c);
        lemma_last_index_of_is(s.drop_last(), c, k);
    }
}

/// Splitting a spelled-out target at its last colon gives back the host and
/// the port it was made of, whatever the host holds (colons included).
pub proof fn lemma_target_round_trip(host: Seq<char>, port: u16)
    ensures
        spec_parse_target(spec_target_address(host, port)) == Some((host, port)),
{
    let t = spec_target_address(host, port);
    let k = host.len() as int;
    lemma_decimal(port as nat);
    assert forall|j: int| k < j < t.len() implies t[j] != ':' by {
        assert(t[j] == decimal(port as nat)[j - k - 1]);
        assert(is_digit(decimal(port as nat)[j - k - 1]));
    }
    lemma_last_index_of_is(t, ':', k);
    assert(t.subrange(k + 1, t.len() as int) =~= decimal(port as nat));
    assert(t.subrange(0, k) =~= host);
    lemma_u16_decimal_round_trip(port);
}

/// Splits `IP:PORT` at its last colon into the host text and the port;
/// `None` when there is no colon or the text after it is no `u16`.
pub fn parse_target(s: &str) -> (r: Option<(String, u16)>)
    ensures
        r matches Some((host, port)) ==> spec_parse_target(s@) == Some((host@, port)),
        r is None ==> spec_parse_target(s@) is None,
{
    let n = s.unicode_len();
    let mut i = n;
    while i > 0
        invariant
            i <= n,
            n == s@.len(),
            forall|j: int| i <= j < n ==> s@[j] != ':',
        decreases i,
    {
        if s.get_char(i - 1) == ':' {
            let k = i - 1;
            proof {
                lemma_last_index_of_is(s@, ':', k as int);
            }
            let host = String::from_str(s.substring_char(0, k));
            let port = parse_u16(s.substring_char(k + 1, n));
            return match port {
                Some(p) => Some((host, p)),
                None => None,
            };
        }
        i = i - 1;
    }
    proof {
        lemma_last_index_of(s@, ':');
        if last_index_of(s@, ':') is Some {
            let k = last_index_of(s@, ':')->0;
            assert(s@[k] == ':');
        }
    }
    None
}

/// The text `host:port` that the forwarder connects its sender to.
pub fn target_address(host: &str, port: u16) -> (r: String)
    ensures
        r@ == spec_target_address(host@, port),
{
    let mut out = String::from_str(host);
    out.push(':');
    push_decimal(&mut out, port as u64);
    out
}

/// The text `0.0.0.0:port`: every local interface, on `port`.
pub fn any_interface_address(port: u16) -> (r: String)
    ensures
        r@ == "0.0.0.0:"@ + decimal(port as nat),
{
    let mut out = String::from_str("0.0.0.0:");
    push_decimal(&mut out, port as u64);
    out
}

} // verus!
