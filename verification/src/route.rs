//! Whether a connection URL points at this machine.

use crate::config::option_view;
use crate::text::{chars_eq, chars_of, has_prefix, string_of};
use vstd::prelude::*;

verus! {

/// Name for the host that `url::Url::parse` finds in a URL (`None` when the
/// URL does not parse or has no host).
pub uninterp spec fn parsed_url_host(url: Seq<char>) -> Option<Seq<char>>;

/// `url::Url::parse` then `Url::host_str`. The contract claims only that
/// the host is a function of the URL text.
#[verifier::external_body]
fn url_host(url: &str) -> (r: Option<String>)
    ensures
        option_view(r) == parsed_url_host(url@),
{
    url::Url::parse(url).ok().and_then(|parsed| parsed.host_str().map(String::from))
}

/// `s` without any leading `[`.
pub open spec fn without_leading_brackets(s: Seq<char>) -> Seq<char>
    decreases s.len(),
{
    if s.len() > 0 && s[0] == '[' {
        without_leading_brackets(s.drop_first())
    } else {
        s
    }
}

/// `s` without any trailing `]`.
pub open spec fn without_trailing_brackets(s: Seq<char>) -> Seq<char>
    decreases s.len(),
{
    if s.len() > 0 && s.last() == ']' {
        without_trailing_brackets(s.drop_last())
    } else {
        s
    }
}

/// How a host is judged local: by the name `localhost`, or by reading the
/// rest as an IP address (brackets around an IPv6 address removed).
pub enum LoopbackHost {
    Localhost,
    Address(String),
}

/// The host without surrounding brackets.
pub open spec fn unbracketed(host: Seq<char>) -> Seq<char> {
    without_trailing_brackets(without_leading_brackets(host))
}

fn strip_brackets(s: &[char]) -> (r: Vec<char>)
    ensures
        r@ == without_trailing_brackets(without_leading_brackets(s@)),
{
    let mut i: usize = 0;
    assert(s@.skip(0) =~= s@);
    while i < s.len() && s[i] == '['
        invariant
            0 <= i <= s@.len(),
            without_leading_brackets(s@) == without_leading_brackets(s@.skip(i as int)),
        decreases s.len() - i,
    {
        assert(s@.skip(i as int).drop_first() =~= s@.skip(i + 1));
        i = i + 1;
    }
    let mut j: usize = s.len();
    assert(s@.skip(i as int) =~= s@.subrange(i as int, j as int));
    while j > i && s[j - 1] == ']'
        invariant
            i <= j <= s@.len(),
            without_trailing_brackets(without_leading_brackets(s@)) == without_trailing_brackets(
                s@.subrange(i as int, j as int),
            ),
        decreases j,
    {
        assert(s@.subrange(i as int, j as int).drop_last() =~= s@.subrange(i as int, j - 1));
        j = j - 1;
    }
    proof {
        if i < s@.len() && s@.skip(i as int).len() > 0 {
            assert(s@.skip(i as int)[0] == s@[i as int]);
        }
        if j > i {
            assert(s@.subrange(i as int, j as int).last() == s@[j - 1]);
        }
    }
    let mut r: Vec<char> = Vec::new();
    let mut k: usize = i;
    while k < j
        invariant
            i <= k <= j <= s@.len(),
            r@ =~= s@.subrange(i as int, k as int),
        decreases j - k,
    {
        r.push(s[k]);
        k = k + 1;
    }
    r
}

/// Whether `host` is `localhost`, and otherwise the text to read as an IP
/// address; the host is local when that address is a loopback address.
pub fn loopback_host(host: &str) -> (r: LoopbackHost)
    ensures
        unbracketed(host@) == "localhost"@ ==> r is Localhost,
        unbracketed(host@) != "localhost"@ ==> (r matches LoopbackHost::Address(a) && a@
            == unbracketed(host@)),
{
    let h = strip_brackets(chars_of(host).as_slice());
    if chars_eq(h.as_slice(), chars_of("localhost").as_slice()) {
        return LoopbackHost::Localhost;
    }
    LoopbackHost::Address(string_of(h.as_slice()))
}

/// The host of a connection URL, by which the route is judged local or not;
/// `None` when the URL has no host.
pub fn route_host(url: &str) -> (r: Option<LoopbackHost>)
    ensures
        match parsed_url_host(url@) {
            Some(h) => r is Some && (unbracketed(h) == "localhost"@ ==> r->0 is Localhost) && (
            unbracketed(h) != "localhost"@ ==> (r->0 matches LoopbackHost::Address(a) && a@
                == unbracketed(h))),
            None => r is None,
        },
{
    match url_host(url) {
        Some(host) => Some(loopback_host(host.as_str())),
        None => None,
    }
}

/// The value of a digit in base 16 (when `hex`) or 10; `None` for any other
/// character.
pub open spec fn digit_of(c: char, hex: bool) -> Option<nat> {
    let v = c as u32;
    if 48 <= v <= 57 {
        Some((v - 48) as nat)
    } else if hex && 97 <= v <= 102 {
        Some((v - 87) as nat)
    } else if hex && 65 <= v <= 70 {
        Some((v - 55) as nat)
    } else {
        None
    }
}

pub open spec fn base_of(hex: bool) -> nat {
    if hex {
        16
    } else {
        10
    }
}

pub open spec fn power(b: nat, e: nat) -> nat
    decreases e,
{
    if e == 0 {
        1
    } else {
        b * power(b, (e - 1) as nat)
    }
}

/// How many digits run from `pos`.
pub open spec fn digit_run(t: Seq<char>, pos: int, hex: bool) -> nat
    decreases t.len() - pos,
{
    if 0 <= pos < t.len() && digit_of(t[pos], hex) is Some {
        1 + digit_run(t, pos + 1, hex)
    } else {
        0
    }
}

/// The number that the `n` digits from `pos` spell.
pub open spec fn digits_value(t: Seq<char>, pos: int, n: nat, hex: bool) -> nat
    decreases n,
{
    if n == 0 {
        0
    } else {
        digits_value(t, pos, (n - 1) as nat, hex) * base_of(hex) + match digit_of(t[pos + n - 1], hex) {
            Some(d) => d,
            None => 0,
        }
    }
}

/// One number of an address at `pos`: at least one and at most `max`
/// digits, and (unless `zero_prefix`) no leading zero before another digit.
/// Gives its value and where it ends.
pub open spec fn read_number(t: Seq<char>, pos: int, hex: bool, max: nat, zero_prefix: bool) -> Option<
    (nat, int),
> {
    let n = digit_run(t, pos, hex);
    if n == 0 || n > max {
        None
    } else if !zero_prefix && n > 1 && t[pos] == '0' {
        None
    } else {
        Some((digits_value(t, pos, n, hex), pos + n))
    }
}

/// An IPv4 octet at `pos`: one to three decimal digits without a leading
/// zero, at most 255.
pub open spec fn read_octet(t: Seq<char>, pos: int) -> Option<(nat, int)> {
    match read_number(t, pos, false, 3, false) {
        Some((v, p)) => if v <= 255 {
            Some((v, p))
        } else {
            None
        },
        None => None,
    }
}

/// The octets `k..4` of a dotted IPv4 address read from `pos`, and where
/// they end.
pub open spec fn read_octets(t: Seq<char>, pos: int, k: nat) -> Option<(Seq<nat>, int)>
    decreases 4 - k,
{
    if k >= 4 {
        Some((Seq::empty(), pos))
    } else {
        let start = if k == 0 {
            Some(pos)
        } else if 0 <= pos < t.len() && t[pos] == '.' {
            Some(pos + 1)
        } else {
            None
        };
        match start {
            None => None,
            Some(s) => match read_octet(t, s) {
                None => None,
                Some((v, p)) => match read_octets(t, p, k + 1) {
                    None => None,
                    Some((rest, q)) => Some((seq![v] + rest, q)),
                },
            },
        }
    }
}

/// The IPv6 groups `i..limit` read from `pos`, each after a `:` but the
/// first: a dotted IPv4 address where two groups are still free (and then
/// the reading ends), else one to four hex digits. Gives the groups, where
/// they end and whether an IPv4 address ended them.
pub open spec fn read_groups(t: Seq<char>, pos: int, i: nat, limit: nat) -> (Seq<nat>, int, bool)
    decreases limit - i,
{
    if i >= limit {
        (Seq::empty(), pos, false)
    } else {
        let start = if i == 0 {
            Some(pos)
        } else if 0 <= pos < t.len() && t[pos] == ':' {
            Some(pos + 1)
        } else {
            None
        };
        match start {
            None => (Seq::empty(), pos, false),
            Some(s) => {
                let v4 = if i + 1 < limit {
                    read_octets(t, s, 0)
                } else {
                    None
                };
                match v4 {
                    Some((o, q)) => (seq![o[0] * 256 + o[1], o[2] * 256 + o[3]], q, true),
                    None => match read_number(t, s, true, 4, true) {
                        None => (Seq::empty(), pos, false),
                        Some((g, q)) => {
                            let (rest, q2, b) = read_groups(t, q, i + 1, limit);
                            (seq![g] + rest, q2, b)
                        },
                    },
                }
            },
        }
    }
}

/// The eight groups of an IPv6 address written in full, or with one `::`
/// standing for zero groups.
pub open spec fn parse_ipv6(t: Seq<char>) -> Option<Seq<nat>> {
    let (head, p, v4) = read_groups(t, 0, 0, 8);
    if head.len() == 8 {
        if p == t.len() {
            Some(head)
        } else {
            None
        }
    } else if v4 {
        None
    } else if 0 <= p && p + 1 < t.len() && t[p] == ':' && t[p + 1] == ':' {
        let (tail, q, _) = read_groups(t, p + 2, 0, (7 - head.len()) as nat);
        if q == t.len() {
            Some(head + Seq::new((8 - head.len() - tail.len()) as nat, |k: int| 0nat) + tail)
        } else {
            None
        }
    } else {
        None
    }
}

/// Whether `t` reads as a loopback IP address: a dotted IPv4 address in
/// `127.0.0.0/8`, or the IPv6 address `::1`. Text that starts with a whole
/// IPv4 address but goes on is no address.
pub open spec fn is_loopback_address(t: Seq<char>) -> bool {
    match read_octets(t, 0, 0) {
        Some((o, q)) => q == t.len() && o[0] == 127,
        None => match parse_ipv6(t) {
            Some(g) => g == seq![0nat, 0, 0, 0, 0, 0, 0, 1],
            None => false,
        },
    }
}

/// Whether a URL's host names this machine: `localhost`, or a loopback
/// address (an IPv6 address may stand in brackets).
pub open spec fn spec_is_loopback_host(host: Seq<char>) -> bool {
    unbracketed(host) == "localhost"@ || is_loopback_address(unbracketed(host))
}

fn digit_value(c: char, hex: bool) -> (r: Option<u64>)
    ensures
        match digit_of(c, hex) {
            Some(d) => r == Some(d as u64),
            None => r is None,
        },
{
    let v = c as u32;
    if 48 <= v && v <= 57 {
        Some((v - 48) as u64)
    } else if hex && 97 <= v && v <= 102 {
        Some((v - 87) as u64)
    } else if hex && 65 <= v && v <= 70 {
        Some((v - 55) as u64)
    } else {
        None
    }
}

proof fn lemma_power_small(b: nat, e: nat)
    requires
        b <= 16,
        e <= 3,
    ensures
        power(b, e) <= 4096,
{
    let p1 = power(b, 1);
    let p2 = power(b, 2);
    let p3 = power(b, 3);
    assert(power(b, 0) == 1);
    assert(p1 == b * power(b, 0));
    assert(p2 == b * p1);
    assert(p3 == b * p2);
    assert(p3 <= 4096 && p2 <= 256 && p1 <= 16) by (nonlinear_arith)
        requires
            b <= 16,
            p1 == b * 1,
            p2 == b * p1,
            p3 == b * p2,
    ;
}

proof fn lemma_power_four(b: nat)
    requires
        b <= 16,
    ensures
        power(b, 4) <= 65536,
{
    lemma_power_small(b, 3);
    let p3 = power(b, 3);
    assert(power(b, 4) == b * p3);
    assert(b * p3 <= 65536) by (nonlinear_arith)
        requires
            b <= 16,
            p3 <= 4096,
    ;
}

proof fn lemma_nats_push(v: Seq<u64>, x: u64)
    ensures
        nats(v.push(x)) == nats(v).push(x as nat),
{
    assert(nats(v.push(x)) =~= nats(v).push(x as nat));
}

proof fn lemma_groups_len(t: Seq<char>, pos: int, i: nat, limit: nat)
    ensures
        i <= limit ==> read_groups(t, pos, i, limit).0.len() <= limit - i,
        i > limit ==> read_groups(t, pos, i, limit).0.len() == 0,
    decreases limit - i,
{
    if i < limit {
        let start = if i == 0 {
            Some(pos)
        } else if 0 <= pos < t.len() && t[pos] == ':' {
            Some(pos + 1)
        } else {
            None
        };
        match start {
            Some(s) => match read_number(t, s, true, 4, true) {
                Some((g, q)) => lemma_groups_len(t, q, i + 1, limit),
                None => {},
            },
            None => {},
        }
    }
}

fn read_number_at(t: &[char], pos: usize, hex: bool, max: usize, zero_prefix: bool) -> (r: Option<(u64, usize)>)
    requires
        pos <= t@.len(),
        1 <= max <= 4,
    ensures
        match read_number(t@, pos as int, hex, max as nat, zero_prefix) {
            Some((v, p)) => (r matches Some((rv, rp)) && rv == v && rp == p) && v < 65536 && pos < p <= t@.len(),
            None => r is None,
        },
{
    let mut k = pos;
    while k < t.len() && digit_value(t[k], hex).is_some()
        invariant
            pos <= k <= t@.len(),
            digit_run(t@, pos as int, hex) == (k - pos) + digit_run(t@, k as int, hex),
        decreases t.len() - k,
    {
        k = k + 1;
    }
    let n = k - pos;
    if n == 0 || n > max {
        return None;
    }
    if !zero_prefix && n > 1 && t[pos] == '0' {
        return None;
    }
    let base: u64 = if hex {
        16
    } else {
        10
    };
    let mut v: u64 = 0;
    let mut j: usize = 0;
    while j < n
        invariant
            j <= n <= max <= 4,
            pos + n <= t@.len(),
            base == base_of(hex),
            v == digits_value(t@, pos as int, j as nat, hex),
            v < power(base as nat, j as nat),
        decreases n - j,
    {
        let d: u64 = match digit_value(t[pos + j], hex) {
            Some(d) => d,
            None => 0,
        };
        proof {
            lemma_power_small(base as nat, j as nat);
            let pw = power(base as nat, j as nat);
            assert(d < base);
            assert(v * base + d < pw * base) by (nonlinear_arith)
                requires
                    v < pw,
                    d < base,
            ;
            assert(v * base + d <= 4095 * 16 + 15) by (nonlinear_arith)
                requires
                    v < 4096,
                    d < base,
                    base <= 16,
            ;
            assert(power(base as nat, (j + 1) as nat) == base * pw);
        }
        v = v * base + d;
        j = j + 1;
    }
    proof {
        if n == 4 {
            lemma_power_four(base as nat);
        } else {
            lemma_power_small(base as nat, n as nat);
        }
        assert(digit_run(t@, k as int, hex) == 0);
    }
    Some((v, pos + n))
}

fn read_octet_at(t: &[char], pos: usize) -> (r: Option<(u64, usize)>)
    requires
        pos <= t@.len(),
    ensures
        match read_octet(t@, pos as int) {
            Some((v, p)) => v <= 255 && (r matches Some((rv, rp)) && rv == v && rp == p) && pos < p <= t@.len(),
            None => r is None,
        },
{
    match read_number_at(t, pos, false, 3, false) {
        Some((v, p)) => if v <= 255 {
            Some((v, p))
        } else {
            None
        },
        None => None,
    }
}

/// The next octet after a `.` at `pos`.
fn read_dotted_octet_at(t: &[char], pos: usize) -> (r: Option<(u64, usize)>)
    requires
        pos <= t@.len(),
    ensures
        (0 <= pos < t@.len() && t@[pos as int] == '.') ==> match read_octet(t@, pos + 1) {
            Some((v, p)) => v <= 255 && (r matches Some((rv, rp)) && rv == v && rp == p) && pos < p <= t@.len(),
            None => r is None,
        },
        !(0 <= pos < t@.len() && t@[pos as int] == '.') ==> r is None,
{
    if pos < t.len() && t[pos] == '.' {
        read_octet_at(t, pos + 1)
    } else {
        None
    }
}

fn read_ipv4_at(t: &[char], pos: usize) -> (r: Option<([u64; 4], usize)>)
    requires
        pos <= t@.len(),
    ensures
        match read_octets(t@, pos as int, 0) {
            Some((o, q)) => r matches Some((a, rq)) && o.len() == 4 && rq == q && q <= t@.len()
                && a@[0] == o[0] && a@[1] == o[1] && a@[2] == o[2] && a@[3] == o[3] && o[0] <= 255
                && o[1] <= 255 && o[2] <= 255 && o[3] <= 255,
            None => r is None,
        },
{
    proof {
        reveal_with_fuel(read_octets, 5);
    }
    let (a, p1) = match read_octet_at(t, pos) {
        Some(x) => x,
        None => return None,
    };
    assert(read_octet(t@, pos as int) == Some((a as nat, p1 as int)));
    let (b, p2) = match read_dotted_octet_at(t, p1) {
        Some(x) => x,
        None => {
            assert(read_octets(t@, p1 as int, 1) is None);
            return None;
        },
    };
    assert(read_octet(t@, p1 + 1) == Some((b as nat, p2 as int)));
    let (c, p3) = match read_dotted_octet_at(t, p2) {
        Some(x) => x,
        None => {
            assert(read_octets(t@, p2 as int, 2) is None);
            assert(read_octets(t@, p1 as int, 1) is None);
            return None;
        },
    };
    assert(read_octet(t@, p2 + 1) == Some((c as nat, p3 as int)));
    let (d, p4) = match read_dotted_octet_at(t, p3) {
        Some(x) => x,
        None => {
            assert(read_octets(t@, p3 as int, 3) is None);
            assert(read_octets(t@, p2 as int, 2) is None);
            assert(read_octets(t@, p1 as int, 1) is None);
            return None;
        },
    };
    let ghost o = seq![a as nat, b as nat, c as nat, d as nat];
    assert(read_octet(t@, pos as int) == Some((a as nat, p1 as int)));
    assert(read_octet(t@, p1 + 1) == Some((b as nat, p2 as int)));
    assert(read_octet(t@, p2 + 1) == Some((c as nat, p3 as int)));
    assert(read_octet(t@, p3 + 1) == Some((d as nat, p4 as int)));
    assert(read_octets(t@, p4 as int, 4) == Some((Seq::<nat>::empty(), p4 as int)));
    assert(read_octets(t@, p3 as int, 3) == Some((seq![d as nat], p4 as int))) by {
        assert(seq![d as nat] + Seq::<nat>::empty() =~= seq![d as nat]);
    }
    assert(read_octets(t@, p2 as int, 2) == Some((seq![c as nat, d as nat], p4 as int))) by {
        assert(seq![c as nat] + seq![d as nat] =~= seq![c as nat, d as nat]);
    }
    assert(read_octets(t@, p1 as int, 1) == Some((seq![b as nat, c as nat, d as nat], p4 as int))) by {
        assert(seq![b as nat] + seq![c as nat, d as nat] =~= seq![b as nat, c as nat, d as nat]);
    }
    assert(read_octets(t@, pos as int, 0) == Some((o, p4 as int))) by {
        assert(seq![a as nat] + seq![b as nat, c as nat, d as nat] =~= o);
    }
    Some(([a, b, c, d], p4))
}

/// Adds the groups that a reading found to those read before it.
pub open spec fn after_groups(acc: Seq<nat>, r: (Seq<nat>, int, bool)) -> (Seq<nat>, int, bool) {
    (acc + r.0, r.1, r.2)
}

pub open spec fn nats(v: Seq<u64>) -> Seq<nat> {
    v.map_values(|x: u64| x as nat)
}

fn read_groups_at(t: &[char], pos: usize, limit: usize) -> (r: (Vec<u64>, usize, bool))
    requires
        pos <= t@.len(),
        limit <= 8,
    ensures
        (nats(r.0@), r.1 as int, r.2) == read_groups(t@, pos as int, 0, limit as nat),
        r.1 <= t@.len(),
{
    let mut acc: Vec<u64> = Vec::new();
    let mut p = pos;
    let mut i: usize = 0;
    assert(nats(acc@) =~= Seq::<nat>::empty());
    assert(after_groups(Seq::empty(), read_groups(t@, pos as int, 0, limit as nat)) =~= read_groups(
        t@,
        pos as int,
        0,
        limit as nat,
    ));
    while i < limit
        invariant
            i <= limit <= 8,
            p <= t@.len(),
            read_groups(t@, pos as int, 0, limit as nat) == after_groups(
                nats(acc@),
                read_groups(t@, p as int, i as nat, limit as nat),
            ),
        decreases limit - i,
    {
        let start = if i == 0 {
            Some(p)
        } else if p < t.len() && t[p] == ':' {
            Some(p + 1)
        } else {
            None
        };
        let s = match start {
            Some(s) => s,
            None => {
                assert(nats(acc@) + Seq::<nat>::empty() =~= nats(acc@));
                return (acc, p, false);
            },
        };
        if i + 1 < limit {
            match read_ipv4_at(t, s) {
                Some((o, q)) => {
                    let ghost before = nats(acc@);
                    acc.push(o[0] * 256 + o[1]);
                    acc.push(o[2] * 256 + o[3]);
                    assert(nats(acc@) =~= before + seq![
                        (o@[0] * 256 + o@[1]) as nat,
                        (o@[2] * 256 + o@[3]) as nat,
                    ]);
                    return (acc, q, true);
                },
                None => {},
            }
        }
        match read_number_at(t, s, true, 4, true) {
            None => {
                assert(nats(acc@) + Seq::<nat>::empty() =~= nats(acc@));
                return (acc, p, false);
            },
            Some((g, q)) => {
                let ghost before = nats(acc@);
                let ghost rest = read_groups(t@, q as int, (i + 1) as nat, limit as nat);
                acc.push(g);
                assert(nats(acc@) =~= before.push(g as nat));
                assert(before + (seq![g as nat] + rest.0) =~= before.push(g as nat) + rest.0);
                p = q;
                i = i + 1;
            },
        }
    }
    assert(nats(acc@) + Seq::<nat>::empty() =~= nats(acc@));
    (acc, p, false)
}

/// Whether `t` reads as a loopback IP address (see `is_loopback_address`).
pub fn loopback_address(t: &[char]) -> (r: bool)
    ensures
        r == is_loopback_address(t@),
{
    match read_ipv4_at(t, 0) {
        Some((o, q)) => return q == t.len() && o[0] == 127,
        None => {},
    }
    let (head, p, v4) = read_groups_at(t, 0, 8);
    proof {
        lemma_groups_len(t@, 0, 0, 8);
    }
    assert(nats(head@).len() == head@.len());
    let groups: Vec<u64> = if head.len() == 8 {
        if p == t.len() {
            assert(parse_ipv6(t@) == Some(nats(head@)));
            head
        } else {
            return false;
        }
    } else if v4 {
        return false;
    } else if p < t.len() && t.len() - p >= 2 && t[p] == ':' && t[p + 1] == ':' {
        let (tail, q, _) = read_groups_at(t, p + 2, 7 - head.len());
        proof {
            lemma_groups_len(t@, p + 2, 0, (7 - head.len()) as nat);
        }
        if q != t.len() {
            return false;
        }
        let mut g: Vec<u64> = Vec::new();
        let mut k: usize = 0;
        while k < head.len()
            invariant
                k <= head@.len(),
                nats(g@) =~= nats(head@).take(k as int),
            decreases head.len() - k,
        {
            proof {
                lemma_nats_push(g@, head@[k as int]);
                assert(nats(head@).take(k + 1) =~= nats(head@).take(k as int).push(head@[k as int] as nat));
            }
            g.push(head[k]);
            k = k + 1;
        }
        let zeros = 8 - head.len() - tail.len();
        let mut z: usize = 0;
        while z < zeros
            invariant
                z <= zeros,
                g@.len() == head@.len() + z,
                nats(g@) =~= nats(head@) + Seq::new(z as nat, |x: int| 0nat),
            decreases zeros - z,
        {
            proof {
                lemma_nats_push(g@, 0);
                assert(Seq::new((z + 1) as nat, |x: int| 0nat) =~= Seq::new(z as nat, |x: int| 0nat).push(0nat));
            }
            g.push(0);
            z = z + 1;
        }
        let mut k2: usize = 0;
        while k2 < tail.len()
            invariant
                k2 <= tail@.len(),
                nats(g@) =~= nats(head@) + Seq::new(zeros as nat, |x: int| 0nat) + nats(tail@).take(
                    k2 as int,
                ),
            decreases tail.len() - k2,
        {
            proof {
                lemma_nats_push(g@, tail@[k2 as int]);
                assert(nats(tail@).take(k2 + 1) =~= nats(tail@).take(k2 as int).push(tail@[k2 as int] as nat));
            }
            g.push(tail[k2]);
            k2 = k2 + 1;
        }
        assert(nats(tail@).take(tail@.len() as int) =~= nats(tail@));
        assert(nats(tail@).len() == tail@.len());
        assert(parse_ipv6(t@) == Some(nats(g@)));
        g
    } else {
        return false;
    };
    assert(parse_ipv6(t@) == Some(nats(groups@)));
    let ghost gs = nats(groups@);
    let r = groups.len() == 8 && groups[0] == 0 && groups[1] == 0 && groups[2] == 0 && groups[3] == 0
        && groups[4] == 0 && groups[5] == 0 && groups[6] == 0 && groups[7] == 1;
    proof {
        if r {
            assert(gs =~= seq![0nat, 0, 0, 0, 0, 0, 0, 1]);
        }
        if gs == seq![0nat, 0, 0, 0, 0, 0, 0, 1] {
            assert(gs[7] == 1);
        }
    }
    r
}

/// Whether a URL's host names this machine (see `spec_is_loopback_host`).
pub fn is_loopback_host(host: &str) -> (r: bool)
    ensures
        r == spec_is_loopback_host(host@),
{
    let h = strip_brackets(chars_of(host).as_slice());
    if chars_eq(h.as_slice(), chars_of("localhost").as_slice()) {
        return true;
    }
    loopback_address(h.as_slice())
}

/// Whether a connection URL's route stays on this machine; `None` when the
/// URL does not parse or has no host (nothing is reported then).
pub fn route_is_local(url: &str) -> (r: Option<bool>)
    ensures
        match parsed_url_host(url@) {
            Some(h) => r == Some(spec_is_loopback_host(h)),
            None => r is None,
        },
{
    match url_host(url) {
        Some(host) => Some(is_loopback_host(host.as_str())),
        None => None,
    }
}

/// A port as a socket address spells it: decimal digits only (leading
/// zeros allowed), at least one, at most 65535.
pub open spec fn socket_port(text: Seq<char>) -> Option<u16> {
    if text.len() > 0 && text[0] != '+' {
        match crate::number::parse_unsigned(text, 65535) {
            Ok(p) => Some(p as u16),
            Err(_) => None,
        }
    } else {
        None
    }
}

fn parse_socket_port(text: &[char]) -> (r: Option<u16>)
    ensures
        r == socket_port(text@),
{
    if text.len() == 0 || text[0] == '+' {
        return None;
    }
    match crate::number::parse_unsigned_chars(text, 65535) {
        Ok(p) => Some(p as u16),
        Err(_) => None,
    }
}

/// Index of the last `c` in `s` before index `k`, if any.
pub open spec fn last_index_before(s: Seq<char>, c: char, k: nat) -> Option<nat>
    decreases k,
{
    if k == 0 {
        None
    } else if s[k - 1] == c {
        Some((k - 1) as nat)
    } else {
        last_index_before(s, c, (k - 1) as nat)
    }
}

/// The port a WebSocket URL listens on when it names this machine by
/// `127.0.0.1`, `localhost` or `::1` (bracketed or not): the host and port
/// come before the first `/` after the scheme, split at the last `:`.
pub open spec fn spec_local_port(url: Seq<char>) -> Option<u16> {
    let rest = if has_prefix(url, "ws://"@) {
        Some(url.skip(5))
    } else if has_prefix(url, "wss://"@) {
        Some(url.skip(6))
    } else {
        None
    };
    match rest {
        None => None,
        Some(r) => {
            let host_port = match crate::config::first_index_from(r, '/', 0) {
                Some(i) => r.take(i as int),
                None => r,
            };
            match last_index_before(host_port, ':', host_port.len()) {
                None => None,
                Some(i) => {
                    let host = host_port.take(i as int);
                    if host == "127.0.0.1"@ || host == "localhost"@ || host == "[::1]"@ || host
                        == "::1"@ {
                        socket_port(host_port.skip(i + 1int))
                    } else {
                        None
                    }
                },
            }
        },
    }
}

fn slice_chars(s: &[char], from: usize, to: usize) -> (r: Vec<char>)
    requires
        from <= to <= s@.len(),
    ensures
        r@ == s@.subrange(from as int, to as int),
{
    let mut r: Vec<char> = Vec::new();
    let mut k: usize = from;
    while k < to
        invariant
            from <= k <= to <= s@.len(),
            r@ =~= s@.subrange(from as int, k as int),
        decreases to - k,
    {
        r.push(s[k]);
        k = k + 1;
    }
    r
}

/// The port to check for a server already listening, when the URL names
/// this machine.
pub fn local_port(url: &str) -> (r: Option<u16>)
    ensures
        r == spec_local_port(url@),
{
    let u = chars_of(url);
    let ws = chars_of("ws://");
    let wss = chars_of("wss://");
    proof {
        reveal_strlit("ws://");
        reveal_strlit("wss://");
    }
    let rest = if crate::text::chars_have_prefix(u.as_slice(), ws.as_slice()) {
        slice_chars(u.as_slice(), 5, u.len())
    } else if crate::text::chars_have_prefix(u.as_slice(), wss.as_slice()) {
        slice_chars(u.as_slice(), 6, u.len())
    } else {
        return None;
    };
    let mut i: usize = 0;
    while i < rest.len() && rest[i] != '/'
        invariant
            0 <= i <= rest@.len(),
            crate::config::first_index_from(rest@, '/', 0) == crate::config::first_index_from(
                rest@,
                '/',
                i as nat,
            ),
        decreases rest.len() - i,
    {
        i = i + 1;
    }
    let host_port = slice_chars(rest.as_slice(), 0, i);
    assert(i == rest@.len() ==> rest@.subrange(0, i as int) =~= rest@);
    assert(host_port@ =~= rest@.take(i as int));
    let mut j: usize = host_port.len();
    while j > 0 && host_port[j - 1] != ':'
        invariant
            0 <= j <= host_port@.len(),
            last_index_before(host_port@, ':', host_port@.len()) == last_index_before(
                host_port@,
                ':',
                j as nat,
            ),
        decreases j,
    {
        j = j - 1;
    }
    if j == 0 {
        return None;
    }
    let colon = j - 1;
    let host = slice_chars(host_port.as_slice(), 0, colon);
    assert(host@ =~= host_port@.take(colon as int));
    let h = host.as_slice();
    if chars_eq(h, chars_of("127.0.0.1").as_slice()) || chars_eq(h, chars_of("localhost").as_slice())
        || chars_eq(h, chars_of("[::1]").as_slice()) || chars_eq(h, chars_of("::1").as_slice()) {
        let port = slice_chars(host_port.as_slice(), colon + 1, host_port.len());
        assert(port@ =~= host_port@.skip(colon + 1));
        parse_socket_port(port.as_slice())
    } else {
        None
    }
}

} // verus!
