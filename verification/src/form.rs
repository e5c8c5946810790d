//! Reading URL-encoded form bodies: splitting into `key=value` pairs,
//! percent-decoding values, and parsing unsigned numbers, IPv4 addresses and
//! IPv4 socket addresses as Rust's standard parsers accept them.
use vstd::prelude::*;
use crate::bytes::IpEndpoint;

verus! {

/// Pieces of `s` from `start` on, cut at every `c` at or after `i`.
pub open spec fn split_from(s: Seq<char>, c: char, start: int, i: int) -> Seq<Seq<char>>
    decreases s.len() - i,
{
    if i >= s.len() || i < start || start < 0 {
        seq![s.subrange(start, s.len() as int)]
    } else if s[i] == c {
        seq![s.subrange(start, i)] + split_from(s, c, i + 1, i + 1)
    } else {
        split_from(s, c, start, i + 1)
    }
}

/// The pieces of `s` between occurrences of `c` (as `str::split`).
pub open spec fn split_pieces(s: Seq<char>, c: char) -> Seq<Seq<char>> {
    split_from(s, c, 0, 0)
}

/// Position of the first `c` in `s` at or after `i`.
pub open spec fn index_of_from(s: Seq<char>, c: char, i: int) -> Option<int>
    decreases s.len() - i,
{
    if i < 0 || i >= s.len() {
        None
    } else if s[i] == c {
        Some(i)
    } else {
        index_of_from(s, c, i + 1)
    }
}

/// The key of a `key=value` pair (all of it when there is no `=`).
pub open spec fn pair_key(p: Seq<char>) -> Seq<char> {
    match index_of_from(p, '=', 0) {
        Some(i) => p.subrange(0, i),
        None => p,
    }
}

/// The value of a `key=value` pair (empty when there is no `=`).
pub open spec fn pair_value(p: Seq<char>) -> Seq<char> {
    match index_of_from(p, '=', 0) {
        Some(i) => p.subrange(i + 1, p.len() as int),
        None => Seq::empty(),
    }
}

proof fn lemma_index_of_from(s: Seq<char>, c: char, i: int)
    requires
        0 <= i,
    ensures
        index_of_from(s, c, i) matches Some(k) ==> i <= k < s.len() && s[k] == c && forall|j: int|
            i <= j < k ==> s[j] != c,
        index_of_from(s, c, i) is None ==> forall|j: int| i <= j < s.len() ==> s[j] != c,
    decreases s.len() - i,
{
    if i < s.len() && s[i] != c {
        lemma_index_of_from(s, c, i + 1);
    }
}

/// Cut `s` at every `c`.
pub fn split_chars(s: &[char], c: char) -> (r: Vec<Vec<char>>)
    ensures
        r@.map_values(|p: Vec<char>| p@) == split_pieces(s@, c),
{
    let mut out: Vec<Vec<char>> = Vec::new();
    let mut cur: Vec<char> = Vec::new();
    let mut start: usize = 0;
    let mut i: usize = 0;
    while i < s.len()
        invariant
            start <= i <= s@.len(),
            cur@ == s@.subrange(start as int, i as int),
            out@.map_values(|p: Vec<char>| p@) + split_from(s@, c, start as int, i as int) == split_pieces(
                s@,
                c,
            ),
        decreases s@.len() - i,
    {
        let ghost before = out@.map_values(|p: Vec<char>| p@);
        if s[i] == c {
            let piece = cur;
            cur = Vec::new();
            let ghost pv = piece@;
            out.push(piece);
            assert(out@.map_values(|p: Vec<char>| p@) =~= before.push(pv));
            assert(before + split_from(s@, c, start as int, i as int) =~= before.push(pv) + split_from(
                s@,
                c,
                i + 1,
                i + 1,
            ));
            start = i + 1;
        } else {
            cur.push(s[i]);
        }
        i = i + 1;
        assert(cur@ =~= s@.subrange(start as int, i as int));
    }
    let ghost before = out@.map_values(|p: Vec<char>| p@);
    let ghost cv = cur@;
    out.push(cur);
    assert(out@.map_values(|p: Vec<char>| p@) =~= before.push(cv));
    assert(before + split_from(s@, c, start as int, i as int) =~= before.push(cv));
    out
}

/// Split a `key=value` pair at its first `=`.
pub fn split_pair(p: &[char]) -> (r: (Vec<char>, Vec<char>))
    ensures
        r.0@ == pair_key(p@),
        r.1@ == pair_value(p@),
{
    let mut i: usize = 0;
    while i < p.len()
        invariant
            i <= p@.len(),
            index_of_from(p@, '=', 0) == index_of_from(p@, '=', i as int),
        decreases p@.len() - i,
    {
        if p[i] == '=' {
            let mut key: Vec<char> = Vec::new();
            let mut k: usize = 0;
            while k < i
                invariant
                    k <= i < p@.len(),
                    key@ == p@.subrange(0, k as int),
                decreases i - k,
            {
                key.push(p[k]);
                k = k + 1;
                assert(key@ =~= p@.subrange(0, k as int));
            }
            let mut value: Vec<char> = Vec::new();
            let mut k: usize = i + 1;
            while k < p.len()
                invariant
                    i + 1 <= k <= p@.len(),
                    value@ == p@.subrange(i + 1, k as int),
                decreases p@.len() - k,
            {
                value.push(p[k]);
                k = k + 1;
                assert(value@ =~= p@.subrange(i + 1, k as int));
            }
            return (key, value);
        }
        i = i + 1;
    }
    let mut key: Vec<char> = Vec::new();
    let mut k: usize = 0;
    while k < p.len()
        invariant
            k <= p@.len(),
            key@ == p@.subrange(0, k as int),
        decreases p@.len() - k,
    {
        key.push(p[k]);
        k = k + 1;
        assert(key@ =~= p@.subrange(0, k as int));
    }
    assert(key@ =~= p@);
    (key, Vec::new())
}

/// What `urlencoding::decode` returns for `s`: the percent-decoded text, or
/// `None` where the decoded bytes are not UTF-8.
pub uninterp spec fn url_decoded(s: Seq<char>) -> Option<Seq<char>>;

/// Percent-decode `s` with `urlencoding::decode` (a literal `+` stays `+`).
/// Claimed: the result is the name's value for `s`, and text without `%`
/// comes back unchanged (the crate hands such input back as it is); how
/// `%XX` escapes and invalid UTF-8 decode is left to the name.
#[verifier::external_body]
fn url_decode(s: &str) -> (r: Option<String>)
    ensures
        match r {
            Some(d) => url_decoded(s@) == Some(d@),
            None => url_decoded(s@) is None,
        },
        !s@.contains('%') ==> r is Some && r->0@ == s@,
{
    match urlencoding::decode(s) {
        Ok(d) => Some(d.into_owned()),
        Err(_) => None,
    }
}

/// A form value as the web portal reads it: percent-decoded, or empty where
/// that fails.
pub open spec fn form_value(raw: Seq<char>) -> Seq<char> {
    match url_decoded(raw) {
        Some(d) => d,
        None => Seq::empty(),
    }
}

/// Percent-decode a form value; empty where decoding fails.
pub fn decode_form_value(raw: &[char]) -> (r: Vec<char>)
    ensures
        r@ == form_value(raw@),
        !raw@.contains('%') ==> r@ == raw@,
{
    let mut v: Vec<char> = Vec::new();
    let mut i: usize = 0;
    while i < raw.len()
        invariant
            i <= raw@.len(),
            v@ == raw@.take(i as int),
        decreases raw@.len() - i,
    {
        v.push(raw[i]);
        i = i + 1;
        assert(v@ =~= raw@.take(i as int));
    }
    assert(v@ =~= raw@);
    let text = crate::text::string_from_chars(&v);
    match url_decode(text.as_str()) {
        Some(d) => crate::text::str_chars(d.as_str()),
        None => Vec::new(),
    }
}

/// Bytes that `c` takes in UTF-8.
pub open spec fn utf8_width(c: char) -> nat {
    if (c as u32) < 0x80 {
        1
    } else if (c as u32) < 0x800 {
        2
    } else if (c as u32) < 0x10000 {
        3
    } else {
        4
    }
}

/// Length of `s` in UTF-8 bytes (as `str::len`).
pub open spec fn utf8_len(s: Seq<char>) -> nat
    decreases s.len(),
{
    if s.len() == 0 {
        0
    } else {
        utf8_len(s.drop_last()) + utf8_width(s.last())
    }
}

/// The UTF-8 length of `s`, saturating at the largest `usize`.
pub fn utf8_length(s: &[char]) -> (r: usize)
    ensures
        r == if utf8_len(s@) <= usize::MAX {
            utf8_len(s@)
        } else {
            usize::MAX as nat
        },
{
    let mut n: usize = 0;
    let mut i: usize = 0;
    let mut saturated = false;
    while i < s.len()
        invariant
            i <= s@.len(),
            saturated ==> utf8_len(s@.take(i as int)) > usize::MAX && n == usize::MAX,
            !saturated ==> n == utf8_len(s@.take(i as int)),
        decreases s@.len() - i,
    {
        let c = s[i] as u32;
        let w: usize = if c < 0x80 {
            1
        } else if c < 0x800 {
            2
        } else if c < 0x10000 {
            3
        } else {
            4
        };
        assert(s@.take(i as int + 1).drop_last() =~= s@.take(i as int));
        if saturated || n > usize::MAX - w {
            saturated = true;
            n = usize::MAX;
        } else {
            n = n + w;
        }
        i = i + 1;
    }
    assert(s@.take(i as int) =~= s@);
    n
}

/// Whether every character of `s` is an ASCII digit.
pub open spec fn all_digits(s: Seq<char>) -> bool {
    forall|i: int| 0 <= i < s.len() ==> '0' <= #[trigger] s[i] <= '9'
}

/// The number written by the ASCII digits `s`.
pub open spec fn digits_value(s: Seq<char>) -> nat
    decreases s.len(),
{
    if s.len() == 0 {
        0
    } else {
        digits_value(s.drop_last()) * 10 + ((s.last() as u32) - 48) as nat
    }
}

/// An unsigned number as `str::parse` reads it: an optional `+`, then one or
/// more ASCII digits.
pub open spec fn unsigned_of(s: Seq<char>) -> Option<nat> {
    let d = if s.len() > 0 && s[0] == '+' {
        s.subrange(1, s.len() as int)
    } else {
        s
    };
    if d.len() == 0 || !all_digits(d) {
        None
    } else {
        Some(digits_value(d))
    }
}

proof fn lemma_digits_value_monotone(s: Seq<char>, k: int)
    requires
        all_digits(s),
        0 <= k <= s.len(),
    ensures
        digits_value(s.take(k)) <= digits_value(s),
    decreases s.len() - k,
{
    if k < s.len() {
        lemma_digits_value_monotone(s, k + 1);
        assert(s.take(k + 1).drop_last() =~= s.take(k));
    } else {
        assert(s.take(k) =~= s);
    }
}

/// The number written by the digits of `d` if it is at most `max`.
fn digits_at_most(d: &[char], max: u64) -> (r: Option<u64>)
    requires
        all_digits(d@),
    ensures
        match r {
            Some(v) => v == digits_value(d@) && v <= max,
            None => digits_value(d@) > max,
        },
{
    let mut v: u64 = 0;
    let mut i: usize = 0;
    while i < d.len()
        invariant
            i <= d@.len(),
            all_digits(d@),
            v == digits_value(d@.take(i as int)),
            v <= max,
        decreases d@.len() - i,
    {
        let dig = (d[i] as u32 - 48) as u64;
        assert(d@.take(i as int + 1).drop_last() =~= d@.take(i as int));
        assert('0' <= d@[i as int] <= '9');
        if dig > max || v > (max - dig) / 10 {
            proof {
                assert(v * 10 + dig > max) by (nonlinear_arith)
                    requires
                        dig > max || v > (max - dig) / 10,
                        dig <= 9,
                ;
                lemma_digits_value_monotone(d@, i as int + 1);
            }
            return None;
        }
        proof {
            assert(v * 10 + dig <= max) by (nonlinear_arith)
                requires
                    v <= (max - dig) / 10,
                    dig <= 9,
                    max >= 0,
            ;
        }
        v = v * 10 + dig;
        i = i + 1;
    }
    assert(d@.take(i as int) =~= d@);
    Some(v)
}

/// Whether `d` consists of ASCII digits only.
fn is_all_digits(d: &[char]) -> (r: bool)
    ensures
        r == all_digits(d@),
{
    let mut i: usize = 0;
    while i < d.len()
        invariant
            i <= d@.len(),
            forall|j: int| 0 <= j < i ==> '0' <= #[trigger] d@[j] <= '9',
        decreases d@.len() - i,
    {
        if !('0' <= d[i] && d[i] <= '9') {
            return false;
        }
        i = i + 1;
    }
    true
}

/// Parse an unsigned number no larger than `max` as `str::parse` does for an
/// unsigned type whose largest value is `max`.
pub fn parse_unsigned(s: &[char], max: u64) -> (r: Option<u64>)
    ensures
        match r {
            Some(v) => unsigned_of(s@) == Some(v as nat) && v <= max,
            None => !(unsigned_of(s@) matches Some(v) && v <= max),
        },
{
    let d: &[char] = if s.len() > 0 && s[0] == '+' {
        &s[1..s.len()]
    } else {
        s
    };
    assert(d@ == if s@.len() > 0 && s@[0] == '+' {
        s@.subrange(1, s@.len() as int)
    } else {
        s@
    });
    if d.len() == 0 || !is_all_digits(d) {
        return None;
    }
    digits_at_most(d, max)
}

/// One octet of a dotted-quad address as `Ipv4Addr::from_str` accepts it: one
/// to three ASCII digits, no leading zero, at most 255.
pub open spec fn octet_ok(p: Seq<char>) -> bool {
    &&& 1 <= p.len() <= 3
    &&& all_digits(p)
    &&& !(p.len() > 1 && p[0] == '0')
    &&& digits_value(p) <= 255
}

/// The address written in dotted-quad form by `s`.
pub open spec fn ipv4_of(s: Seq<char>) -> Option<Seq<u8>> {
    let parts = split_pieces(s, '.');
    if parts.len() == 4 && (forall|k: int| 0 <= k < 4 ==> #[trigger] octet_ok(parts[k])) {
        Some(Seq::new(4, |k: int| digits_value(parts[k]) as u8))
    } else {
        None
    }
}

/// Parse a dotted-quad IPv4 address.
pub fn parse_ipv4(s: &[char]) -> (r: Option<[u8; 4]>)
    ensures
        match r {
            Some(a) => ipv4_of(s@) == Some(a@),
            None => ipv4_of(s@) is None,
        },
{
    let parts = split_chars(s, '.');
    let ghost pv = parts@.map_values(|p: Vec<char>| p@);
    if parts.len() != 4 {
        return None;
    }
    let mut octets: [u8; 4] = [0, 0, 0, 0];
    let mut k: usize = 0;
    while k < 4
        invariant
            k <= 4,
            parts@.len() == 4,
            pv == parts@.map_values(|p: Vec<char>| p@),
            pv == split_pieces(s@, '.'),
            forall|j: int| 0 <= j < k ==> #[trigger] octet_ok(pv[j]) && octets@[j] == digits_value(pv[j]) as u8,
        decreases 4 - k,
    {
        let p = &parts[k];
        assert(p@ == pv[k as int]);
        if p.len() < 1 || p.len() > 3 || !is_all_digits(p.as_slice()) || (p.len() > 1 && p[0] == '0') {
            assert(!octet_ok(pv[k as int]));
            return None;
        }
        match digits_at_most(p.as_slice(), 255) {
            Some(v) => {
                let ghost before = octets@;
                octets[k] = v as u8;
                assert(octets@ =~= before.update(k as int, v as u8));
                assert(octet_ok(pv[k as int]));
            },
            None => {
                assert(!octet_ok(pv[k as int]));
                return None;
            },
        }
        k = k + 1;
    }
    assert forall|j: int| 0 <= j < 4 implies octets@[j] == Seq::new(4, |j: int| digits_value(pv[j]) as u8)[j] by {
        assert(octet_ok(pv[j]));
    }
    assert(octets@ =~= Seq::new(4, |j: int| digits_value(pv[j]) as u8));
    Some(octets)
}

/// The IPv4 socket address written `a.b.c.d:port` by `s` (the port: one or
/// more ASCII digits, at most 65535).
pub open spec fn socket_v4_of(s: Seq<char>) -> Option<(Seq<u8>, u16)> {
    match index_of_from(s, ':', 0) {
        Some(i) => {
            let port = s.subrange(i + 1, s.len() as int);
            match ipv4_of(s.subrange(0, i)) {
                Some(ip) => if port.len() >= 1 && all_digits(port) && digits_value(port) <= 65535 {
                    Some((ip, digits_value(port) as u16))
                } else {
                    None
                },
                None => None,
            }
        },
        None => None,
    }
}

/// Parse an IPv4 socket address `a.b.c.d:port`.
pub fn parse_socket_v4(s: &[char]) -> (r: Option<IpEndpoint>)
    ensures
        match r {
            Some(e) => socket_v4_of(s@) == Some((e.ip@, e.port)),
            None => socket_v4_of(s@) is None,
        },
{
    let mut i: usize = 0;
    while i < s.len()
        invariant
            i <= s@.len(),
            index_of_from(s@, ':', 0) == index_of_from(s@, ':', i as int),
        decreases s@.len() - i,
    {
        if s[i] == ':' {
            let ip_part = &s[0..i];
            let port_part = &s[i + 1..s.len()];
            assert(ip_part@ == s@.subrange(0, i as int));
            assert(port_part@ == s@.subrange(i + 1, s@.len() as int));
            let ip = match parse_ipv4(ip_part) {
                Some(a) => a,
                None => {
                    return None;
                },
            };
            if port_part.len() < 1 || !is_all_digits(port_part) {
                return None;
            }
            return match digits_at_most(port_part, 65535) {
                Some(p) => Some(IpEndpoint { ip, port: p as u16 }),
                None => None,
            };
        }
        i = i + 1;
    }
    None
}

} // verus!
