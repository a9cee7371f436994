//! The command line's values: test durations, server targets and TURN
//! credentials.

use crate::text::{
    all_digits, chars_of, decimal, is_digit, lemma_decimal_digits, lemma_parse_decimal,
    parse_u16, parse_u64, parse_unsigned, string_from_chars, trim, trimmed,
};
use std::time::Duration;
use vstd::prelude::*;

verus! {

/// The duration that `Duration::from_secs` makes of `secs` seconds.
pub uninterp spec fn duration_of_secs(secs: u64) -> Duration;

/// `Duration::from_secs`: the duration of `secs` whole seconds. Its value is
/// named, not described: the result is that of `from_secs` on `secs`.
#[verifier::external_body]
fn duration_from_secs(secs: u64) -> (d: Duration)
    ensures
        d == duration_of_secs(secs),
{
    Duration::from_secs(secs)
}

/// The default test duration, in seconds.
pub const DEFAULT_DURATION_SECS: u64 = 10;

/// The default STUN/TURN port.
pub const DEFAULT_PORT: u16 = 3478;

/// The number of seconds that a duration argument gives: the text, trimmed
/// of white space and of one trailing 's', read as a `u64`; ten when that
/// fails. A suffix "ms" also ends in 's', so "500ms" is not a number of
/// seconds and gives ten.
pub open spec fn duration_secs_spec(s: Seq<char>) -> u64 {
    let t = trim(s);
    let digits = if t.len() > 0 && t.last() == 's' {
        t.drop_last()
    } else {
        t
    };
    match parse_unsigned(digits, u64::MAX as nat) {
        Some(v) => v as u64,
        None => DEFAULT_DURATION_SECS,
    }
}

/// The number of seconds that a duration argument such as "10s" or "30"
/// gives; ten when it cannot be read.
pub fn duration_secs(s: &str) -> (secs: u64)
    ensures
        secs == duration_secs_spec(s@),
{
    let all = chars_of(s);
    let t = trimmed(all.as_slice());
    let n = t.len();
    if n > 0 && t[n - 1] == 's' {
        let digits = t.as_slice().split_at(n - 1).0;
        assert(digits@ =~= t@.drop_last());
        match parse_u64(digits) {
            Some(v) => v,
            None => DEFAULT_DURATION_SECS,
        }
    } else {
        match parse_u64(t.as_slice()) {
            Some(v) => v,
            None => DEFAULT_DURATION_SECS,
        }
    }
}

/// Parses a test duration such as "10s" or "30" into whole seconds; ten
/// seconds when it cannot be read.
pub fn parse_duration(s: &str) -> (d: Duration)
    ensures
        d == duration_of_secs(duration_secs_spec(s@)),
{
    let secs = duration_secs(s);
    duration_from_secs(secs)
}

/// "stun:".
pub open spec fn stun_scheme() -> Seq<char> {
    seq!['s', 't', 'u', 'n', ':']
}

/// "turn:".
pub open spec fn turn_scheme() -> Seq<char> {
    seq!['t', 'u', 'r', 'n', ':']
}

/// `t` without a leading "stun:" or, failing that, "turn:".
pub open spec fn strip_scheme(t: Seq<char>) -> Seq<char> {
    if t.len() >= 5 && t.take(5) == stun_scheme() {
        t.skip(5)
    } else if t.len() >= 5 && t.take(5) == turn_scheme() {
        t.skip(5)
    } else {
        t
    }
}

/// The index of the last ':' in `t`, if any.
pub open spec fn last_colon(t: Seq<char>) -> Option<int>
    decreases t.len(),
{
    if t.len() == 0 {
        None
    } else if t.last() == ':' {
        Some(t.len() - 1)
    } else {
        last_colon(t.drop_last())
    }
}

/// The host and port that a target "stun:host:port", "turn:host:port" or
/// "host:port" names: the host is everything before the last ':', the port
/// what follows it read as a `u16`, or 3478 when there is no ':' or the
/// port cannot be read.
pub open spec fn target_spec(t: Seq<char>) -> (Seq<char>, u16) {
    let st = strip_scheme(t);
    match last_colon(st) {
        Some(i) => (
            st.take(i),
            match parse_unsigned(st.skip(i + 1), u16::MAX as nat) {
                Some(p) => p as u16,
                None => DEFAULT_PORT,
            },
        ),
        None => (st, DEFAULT_PORT),
    }
}

/// Whether `t` starts with the five characters of `prefix`.
fn starts_with5(t: &[char], prefix: [char; 5]) -> (b: bool)
    ensures
        b == (t@.len() >= 5 && t@.take(5) == prefix@),
{
    if t.len() < 5 {
        return false;
    }
    let mut k: usize = 0;
    while k < 5
        invariant
            t@.len() >= 5,
            k <= 5,
            prefix@.len() == 5,
            forall|j: int| 0 <= j < k ==> #[trigger] t@[j] == prefix@[j],
        decreases 5 - k,
    {
        if t[k] != prefix[k] {
            assert(t@.take(5)[k as int] != prefix@[k as int]);
            return false;
        }
        k = k + 1;
    }
    assert(t@.take(5) =~= prefix@);
    true
}

/// The index of the last ':' in `t`, if any.
fn rfind_colon(t: &[char]) -> (r: Option<usize>)
    ensures
        r matches Some(i) ==> last_colon(t@) == Some(i as int) && i < t@.len(),
        r is None ==> last_colon(t@) is None,
{
    let mut j: usize = t.len();
    assert(t@.take(t@.len() as int) =~= t@);
    while j > 0
        invariant
            j <= t@.len(),
            last_colon(t@) == last_colon(t@.take(j as int)),
        decreases j,
    {
        assert(t@.take(j as int).drop_last() =~= t@.take(j - 1));
        if t[j - 1] == ':' {
            return Some(j - 1);
        }
        j = j - 1;
    }
    None
}

/// Splits a target such as "stun:host:port" or "turn:host:port" into the
/// host and the port; the port is 3478 when it is missing or unreadable.
pub fn parse_target(target: &str) -> (r: (String, u16))
    ensures
        r.0@ == target_spec(target@).0,
        r.1 == target_spec(target@).1,
{
    let all = chars_of(target);
    assert(all@.take(all@.len() as int) =~= all@);
    let stripped: &[char] = if starts_with5(all.as_slice(), ['s', 't', 'u', 'n', ':']) {
        assert(['s', 't', 'u', 'n', ':']@ =~= stun_scheme());
        all.as_slice().split_at(5).1
    } else if starts_with5(all.as_slice(), ['t', 'u', 'r', 'n', ':']) {
        assert(['t', 'u', 'r', 'n', ':']@ =~= turn_scheme());
        assert(['s', 't', 'u', 'n', ':']@ =~= stun_scheme());
        all.as_slice().split_at(5).1
    } else {
        assert(['t', 'u', 'r', 'n', ':']@ =~= turn_scheme());
        assert(['s', 't', 'u', 'n', ':']@ =~= stun_scheme());
        all.as_slice()
    };
    assert(stripped@ =~= strip_scheme(target@));
    match rfind_colon(stripped) {
        Some(idx) => {
            let (host, rest) = stripped.split_at(idx);
            let port_chars = rest.split_at(1).1;
            assert(port_chars@ =~= stripped@.skip(idx + 1));
            let port = match parse_u16(port_chars) {
                Some(p) => p,
                None => DEFAULT_PORT,
            };
            (string_from_chars(host), port)
        },
        None => (string_from_chars(stripped), DEFAULT_PORT),
    }
}

/// A target written as scheme, host, ':' and a port in decimal reads back
/// as that host and port, whatever ':' the host holds.
pub proof fn lemma_target_roundtrip(scheme: Seq<char>, host: Seq<char>, port: u16)
    requires
        scheme == stun_scheme() || scheme == turn_scheme(),
    ensures
        target_spec(scheme + host + seq![':'] + decimal(port as nat)) == (host, port),
{
    let ds = decimal(port as nat);
    let t = scheme + host + seq![':'] + ds;
    let st = host + seq![':'] + ds;
    assert(t.take(5) =~= scheme);
    assert(t.skip(5) =~= st);
    assert(stun_scheme() != turn_scheme()) by {
        assert(stun_scheme()[0] != turn_scheme()[0]);
    }
    assert(strip_scheme(t) == st);
    lemma_decimal_digits(port as nat);
    lemma_last_colon_past_digits(host + seq![':'], ds);
    assert((host + seq![':']).last() == ':');
    assert(last_colon(host + seq![':']) == Some(host.len() as int));
    assert(st.take(host.len() as int) =~= host);
    assert(st.skip(host.len() as int + 1) =~= ds);
    lemma_parse_decimal(port as nat, u16::MAX as nat);
}

/// A target written as a scheme and a host with no ':' names that host, with
/// the scheme stripped, on the default port 3478.
pub proof fn lemma_target_without_port(scheme: Seq<char>, host: Seq<char>)
    requires
        scheme == stun_scheme() || scheme == turn_scheme(),
        forall|i: int| 0 <= i < host.len() ==> host[i] != ':',
    ensures
        target_spec(scheme + host) == (host, 3478u16),
{
    let t = scheme + host;
    assert(t.take(5) =~= scheme);
    assert(t.skip(5) =~= host);
    assert(stun_scheme() != turn_scheme()) by {
        assert(stun_scheme()[0] != turn_scheme()[0]);
    }
    assert(strip_scheme(t) == host);
    lemma_no_colon(host);
}

/// A text with no ':' has no last ':'.
proof fn lemma_no_colon(t: Seq<char>)
    requires
        forall|i: int| 0 <= i < t.len() ==> t[i] != ':',
    ensures
        last_colon(t) is None,
    decreases t.len(),
{
    if t.len() > 0 {
        assert(t.last() != ':');
        lemma_no_colon(t.drop_last());
    }
}

/// A plain number of seconds, with no suffix, reads as that number, for
/// every `u64`.
pub proof fn lemma_plain_duration(secs: u64)
    ensures
        duration_secs_spec(decimal(secs as nat)) == secs,
{
    let t = decimal(secs as nat);
    lemma_decimal_digits(secs as nat);
    assert(is_digit(t[0]));
    assert(is_digit(t[t.len() - 1]));
    assert(!crate::text::is_white_space(t[0]));
    assert(!crate::text::is_white_space(t.last()));
    assert(trim(t) == t);
    assert(t.last() != 's');
    lemma_parse_decimal(secs as nat, u64::MAX as nat);
}

/// Digits after a prefix hold no ':', so the last ':' is the prefix's.
proof fn lemma_last_colon_past_digits(prefix: Seq<char>, ds: Seq<char>)
    requires
        all_digits(ds),
    ensures
        last_colon(prefix + ds) == last_colon(prefix),
    decreases ds.len(),
{
    if ds.len() == 0 {
        assert(prefix + ds =~= prefix);
    } else {
        assert(is_digit(ds[ds.len() - 1]));
        assert((prefix + ds).drop_last() =~= prefix + ds.drop_last());
        assert(all_digits(ds.drop_last())) by {
            assert forall|i: int| 0 <= i < ds.drop_last().len() implies #[trigger] is_digit(
                ds.drop_last()[i],
            ) by {
                assert(is_digit(ds[i]));
            }
        }
        lemma_last_colon_past_digits(prefix, ds.drop_last());
    }
}

/// A written number of seconds, with its 's', reads back as that number.
pub proof fn lemma_duration_roundtrip(secs: u64)
    ensures
        duration_secs_spec(decimal(secs as nat).push('s')) == secs,
{
    let t = decimal(secs as nat).push('s');
    lemma_decimal_digits(secs as nat);
    assert(t[0] == decimal(secs as nat)[0]);
    assert(is_digit(decimal(secs as nat)[0]));
    assert(!crate::text::is_white_space(t[0]));
    assert(!crate::text::is_white_space(t.last()));
    assert(trim(t) == t);
    assert(t.drop_last() =~= decimal(secs as nat));
    lemma_parse_decimal(secs as nat, u64::MAX as nat);
}

/// TURN credentials are used only when both the username and the
/// credential are given.
pub fn pair_credentials(username: Option<String>, credential: Option<String>) -> (r: Option<
    (String, String),
>)
    ensures
        r == (match (username, credential) {
            (Some(u), Some(c)) => Some((u, c)),
            _ => None,
        }),
{
    match (username, credential) {
        (Some(u), Some(c)) => Some((u, c)),
        _ => None,
    }
}

} // verus!
