//! IP address classification used to keep monitors away from private networks.
use vstd::prelude::*;
use crate::text::str_equal;

verus! {

/// An IP address as its network-order octets.
#[derive(Debug, Clone, Copy)]
pub enum IpAddress {
    V4([u8; 4]),
    V6([u8; 16]),
}

impl IpAddress {
    /// The octets of the address: four for IPv4, sixteen for IPv6.
    pub open spec fn octets(self) -> Seq<u8> {
        match self {
            IpAddress::V4(a) => a@,
            IpAddress::V6(a) => a@,
        }
    }
}

// ---- Textual IP addresses, in the grammar that std's `IpAddr::from_str` accepts ----
//
// IPv4: four decimal octets separated by '.', each of one to three digits, no leading
// zero, at most 255. IPv6: up to eight hexadecimal groups of one to four digits separated
// by ':', with at most one "::" standing for one or more zero groups, and an optional
// trailing embedded IPv4 address filling the last two groups. The whole text must be used.

/// The value of `c` as a digit in `radix` (10 or 16), as `char::to_digit` gives it.
pub open spec fn digit_of(c: char, radix: nat) -> Option<nat> {
    if '0' <= c <= '9' {
        Some((c as nat - '0' as nat) as nat)
    } else if radix == 16 && 'a' <= c <= 'f' {
        Some((c as nat - 'a' as nat + 10) as nat)
    } else if radix == 16 && 'A' <= c <= 'F' {
        Some((c as nat - 'A' as nat + 10) as nat)
    } else {
        None
    }
}

/// How many digits of `radix` follow position `pos`.
pub open spec fn digit_run(s: Seq<char>, pos: int, radix: nat) -> nat
    decreases s.len() - pos,
{
    if 0 <= pos < s.len() && digit_of(s[pos], radix) is Some {
        1 + digit_run(s, pos + 1, radix)
    } else {
        0
    }
}

/// The number that the `n` digits from `pos` spell in `radix`.
pub open spec fn digits_value(s: Seq<char>, pos: int, n: nat, radix: nat) -> nat
    decreases n,
{
    if n == 0 {
        0
    } else {
        digits_value(s, pos, (n - 1) as nat, radix) * radix + digit_of(s[pos + n - 1], radix)->0
    }
}

/// Reads a number of at most `max_digits` digits and at most `max_value`; without
/// `allow_zero_prefix` a number of several digits may not start with '0'.
/// Yields the value and the position after it.
pub open spec fn read_number(
    s: Seq<char>,
    pos: int,
    radix: nat,
    max_digits: nat,
    allow_zero_prefix: bool,
    max_value: nat,
) -> Option<(nat, int)> {
    let n = digit_run(s, pos, radix);
    if n == 0 || n > max_digits {
        None
    } else if !allow_zero_prefix && s[pos] == '0' && n > 1 {
        None
    } else if digits_value(s, pos, n, radix) > max_value {
        None
    } else {
        Some((digits_value(s, pos, n, radix), pos + n))
    }
}

/// One IPv4 octet.
pub open spec fn read_octet(s: Seq<char>, pos: int) -> Option<(nat, int)> {
    read_number(s, pos, 10, 3, false, 255)
}

/// Reads the character `c` at `pos`.
pub open spec fn read_char(s: Seq<char>, pos: int, c: char) -> Option<int> {
    if 0 <= pos < s.len() && s[pos] == c {
        Some(pos + 1)
    } else {
        None
    }
}

/// A dotted-quad IPv4 address from `pos`: its octets and the position after it.
pub open spec fn read_ipv4(s: Seq<char>, pos: int) -> Option<(Seq<u8>, int)> {
    match read_octet(s, pos) {
        None => None,
        Some((a, p1)) => match read_char(s, p1, '.') {
            None => None,
            Some(q1) => match read_octet(s, q1) {
                None => None,
                Some((b, p2)) => match read_char(s, p2, '.') {
                    None => None,
                    Some(q2) => match read_octet(s, q2) {
                        None => None,
                        Some((c, p3)) => match read_char(s, p3, '.') {
                            None => None,
                            Some(q3) => match read_octet(s, q3) {
                                None => None,
                                Some((d, p4)) => Some((seq![a as u8, b as u8, c as u8, d as u8], p4)),
                            },
                        },
                    },
                },
            },
        },
    }
}

/// The position at which the `i`-th group starts: after a ':' unless it is the first.
pub open spec fn after_separator(s: Seq<char>, pos: int, i: nat) -> Option<int> {
    if i > 0 {
        read_char(s, pos, ':')
    } else {
        Some(pos)
    }
}

/// Reads IPv6 groups `i..limit` from `pos`: the groups read, the position after them,
/// and whether the last two came from an embedded IPv4 address.
pub open spec fn read_groups(s: Seq<char>, pos: int, i: nat, limit: nat) -> (Seq<nat>, int, bool)
    decreases limit - i,
{
    if i >= limit {
        (seq![], pos, false)
    } else {
        let v4 = if i + 1 < limit {
            match after_separator(s, pos, i) {
                Some(q) => read_ipv4(s, q),
                None => None,
            }
        } else {
            None
        };
        match v4 {
            Some((o, p)) => (seq![(o[0] * 256 + o[1]) as nat, (o[2] * 256 + o[3]) as nat], p, true),
            None => match after_separator(s, pos, i) {
                None => (seq![], pos, false),
                Some(q) => match read_number(s, q, 16, 4, true, 65535) {
                    None => (seq![], pos, false),
                    Some((g, p)) => {
                        let rest = read_groups(s, p, i + 1, limit);
                        (seq![g] + rest.0, rest.1, rest.2)
                    },
                },
            },
        }
    }
}

/// An IPv6 address from `pos`: its eight groups and the position after it.
pub open spec fn read_ipv6(s: Seq<char>, pos: int) -> Option<(Seq<nat>, int)> {
    let head = read_groups(s, pos, 0, 8);
    if head.0.len() == 8 {
        Some((head.0, head.1))
    } else if head.2 {
        None
    } else if read_char(s, head.1, ':') is None || read_char(s, head.1 + 1, ':') is None {
        None
    } else {
        let limit = (8 - (head.0.len() + 1)) as nat;
        let tail = read_groups(s, head.1 + 2, 0, limit);
        Some(
            (
                head.0 + Seq::new((8 - head.0.len() - tail.0.len()) as nat, |j: int| 0nat)
                    + tail.0,
                tail.1,
            ),
        )
    }
}

/// The sixteen octets of eight 16-bit groups.
pub open spec fn groups_to_octets(g: Seq<nat>) -> Seq<u8> {
    Seq::new(16, |j: int| if j % 2 == 0 { (g[j / 2] / 256) as u8 } else { (g[j / 2] % 256) as u8 })
}

/// The octets of the IP address that the whole of `s` spells, or `None`.
pub open spec fn parse_ip_spec(s: Seq<char>) -> Option<Seq<u8>> {
    match read_ipv4(s, 0) {
        Some((o, p)) => if p == s.len() {
            Some(o)
        } else {
            None
        },
        None => match read_ipv6(s, 0) {
            Some((g, p)) => if p == s.len() {
                Some(groups_to_octets(g))
            } else {
                None
            },
            None => None,
        },
    }
}

// ---- The parser ----

fn digit_exec(c: char, radix: u32) -> (r: Option<u32>)
    requires
        radix == 10 || radix == 16,
    ensures
        r matches Some(d) ==> digit_of(c, radix as nat) == Some(d as nat) && d < radix,
        r is None ==> digit_of(c, radix as nat) is None,
{
    if '0' <= c && c <= '9' {
        Some((c as u32) - ('0' as u32))
    } else if radix == 16 && 'a' <= c && c <= 'f' {
        Some((c as u32) - ('a' as u32) + 10)
    } else if radix == 16 && 'A' <= c && c <= 'F' {
        Some((c as u32) - ('A' as u32) + 10)
    } else {
        None
    }
}

proof fn lemma_digit_run_bound(s: Seq<char>, pos: int, radix: nat)
    requires
        0 <= pos <= s.len(),
    ensures
        pos + digit_run(s, pos, radix) <= s.len(),
        forall|k: int|
            pos <= k < pos + digit_run(s, pos, radix) ==> #[trigger] digit_of(s[k], radix) is Some,
    decreases s.len() - pos,
{
    if pos < s.len() && digit_of(s[pos], radix) is Some {
        lemma_digit_run_bound(s, pos + 1, radix);
    }
}

/// The number of `radix` digits that follow `pos`.
fn run_length(s: &[char], pos: usize, radix: u32) -> (n: usize)
    requires
        pos <= s@.len(),
        radix == 10 || radix == 16,
    ensures
        n == digit_run(s@, pos as int, radix as nat),
        pos + n <= s@.len(),
{
    let mut i = pos;
    let mut more = true;
    while more && i < s.len()
        invariant
            pos <= i <= s@.len(),
            radix == 10 || radix == 16,
            digit_run(s@, pos as int, radix as nat) == (i - pos) + digit_run(
                s@,
                i as int,
                radix as nat,
            ),
            !more ==> digit_run(s@, i as int, radix as nat) == 0,
        decreases s@.len() - i, if more { 1int } else { 0int },
    {
        if digit_exec(s[i], radix).is_none() {
            more = false;
        } else {
            i = i + 1;
        }
    }
    i - pos
}

/// An upper bound on a number of `k` hexadecimal digits.
pub open spec fn hex_bound(k: nat) -> nat {
    if k == 0 {
        1
    } else if k == 1 {
        16
    } else if k == 2 {
        256
    } else if k == 3 {
        4096
    } else {
        65536
    }
}

fn read_number_exec(
    s: &[char],
    pos: usize,
    radix: u32,
    max_digits: usize,
    allow_zero_prefix: bool,
    max_value: u32,
) -> (r: Option<(u32, usize)>)
    requires
        pos <= s@.len(),
        radix == 10 || radix == 16,
        1 <= max_digits <= 4,
    ensures
        r matches Some((v, p)) ==> read_number(
            s@,
            pos as int,
            radix as nat,
            max_digits as nat,
            allow_zero_prefix,
            max_value as nat,
        ) == Some((v as nat, p as int)),
        r is None ==> read_number(
            s@,
            pos as int,
            radix as nat,
            max_digits as nat,
            allow_zero_prefix,
            max_value as nat,
        ) is None,
        r matches Some((v, p)) ==> pos < p <= s@.len() && v <= max_value,
{
    let len = s.len();
    let n = run_length(s, pos, radix);
    proof {
        lemma_digit_run_bound(s@, pos as int, radix as nat);
    }
    if n == 0 || n > max_digits {
        return None;
    }
    if !allow_zero_prefix && s[pos] == '0' && n > 1 {
        return None;
    }
    let mut v: u32 = 0;
    let mut k: usize = 0;
    while k < n
        invariant
            0 < n <= max_digits <= 4,
            pos + n <= s@.len(),
            len == s@.len(),
            radix == 10 || radix == 16,
            k <= n,
            v == digits_value(s@, pos as int, k as nat, radix as nat),
            v < hex_bound(k as nat),
            forall|j: int|
                pos <= j < pos + digit_run(s@, pos as int, radix as nat) ==> #[trigger] digit_of(
                    s@[j],
                    radix as nat,
                ) is Some,
            n == digit_run(s@, pos as int, radix as nat),
        decreases n - k,
    {
        let d = digit_exec(s[pos + k], radix);
        assert(digit_of(s@[pos + k], radix as nat) is Some);
        let d = d.unwrap();
        let ghost b = hex_bound(k as nat);
        assert(v * radix + d < b * 16) by (nonlinear_arith)
            requires
                v < b,
                radix <= 16,
                d < radix,
        ;
        v = v * radix + d;
        k = k + 1;
    }
    if v > max_value {
        return None;
    }
    Some((v, pos + n))
}

fn read_char_exec(s: &[char], pos: usize, c: char) -> (r: Option<usize>)
    requires
        pos <= s@.len(),
    ensures
        r matches Some(p) ==> read_char(s@, pos as int, c) == Some(p as int) && p <= s@.len(),
        r is None ==> read_char(s@, pos as int, c) is None,
{
    if pos < s.len() && s[pos] == c {
        Some(pos + 1)
    } else {
        None
    }
}

fn read_ipv4_exec(s: &[char], pos: usize) -> (r: Option<([u8; 4], usize)>)
    requires
        pos <= s@.len(),
    ensures
        r matches Some((o, p)) ==> read_ipv4(s@, pos as int) == Some((o@, p as int))
            && p <= s@.len(),
        r is None ==> read_ipv4(s@, pos as int) is None,
{
    let (a, p1) = match read_number_exec(s, pos, 10, 3, false, 255) {
        Some(x) => x,
        None => return None,
    };
    let q1 = match read_char_exec(s, p1, '.') {
        Some(q) => q,
        None => return None,
    };
    let (b, p2) = match read_number_exec(s, q1, 10, 3, false, 255) {
        Some(x) => x,
        None => return None,
    };
    let q2 = match read_char_exec(s, p2, '.') {
        Some(q) => q,
        None => return None,
    };
    let (c, p3) = match read_number_exec(s, q2, 10, 3, false, 255) {
        Some(x) => x,
        None => return None,
    };
    let q3 = match read_char_exec(s, p3, '.') {
        Some(q) => q,
        None => return None,
    };
    let (d, p4) = match read_number_exec(s, q3, 10, 3, false, 255) {
        Some(x) => x,
        None => return None,
    };
    let o: [u8; 4] = [a as u8, b as u8, c as u8, d as u8];
    assert(o@ =~= seq![a as u8, b as u8, c as u8, d as u8]);
    Some((o, p4))
}

fn after_separator_exec(s: &[char], pos: usize, i: usize) -> (r: Option<usize>)
    requires
        pos <= s@.len(),
    ensures
        r matches Some(p) ==> after_separator(s@, pos as int, i as nat) == Some(p as int)
            && p <= s@.len(),
        r is None ==> after_separator(s@, pos as int, i as nat) is None,
{
    if i > 0 {
        read_char_exec(s, pos, ':')
    } else {
        Some(pos)
    }
}

fn read_groups_exec(s: &[char], pos: usize, i: usize, limit: usize) -> (r: (
    Vec<u32>,
    usize,
    bool,
))
    requires
        pos <= s@.len(),
        limit <= 8,
    ensures
        r.0@.len() == read_groups(s@, pos as int, i as nat, limit as nat).0.len(),
        forall|j: int|
            0 <= j < r.0@.len() ==> r.0@[j] as nat == #[trigger] read_groups(
                s@,
                pos as int,
                i as nat,
                limit as nat,
            ).0[j],
        forall|j: int| 0 <= j < r.0@.len() ==> r.0@[j] <= 65535,
        r.1 as int == read_groups(s@, pos as int, i as nat, limit as nat).1,
        r.2 == read_groups(s@, pos as int, i as nat, limit as nat).2,
        r.1 <= s@.len(),
        i <= limit ==> i + r.0@.len() <= limit,
    decreases limit - i,
{
    if i >= limit {
        return (Vec::new(), pos, false);
    }
    if i + 1 < limit {
        if let Some(q) = after_separator_exec(s, pos, i) {
            if let Some((o, p)) = read_ipv4_exec(s, q) {
                let mut g: Vec<u32> = Vec::new();
                g.push((o[0] as u32) * 256 + (o[1] as u32));
                g.push((o[2] as u32) * 256 + (o[3] as u32));
                return (g, p, true);
            }
        }
    }
    match after_separator_exec(s, pos, i) {
        None => (Vec::new(), pos, false),
        Some(q) => match read_number_exec(s, q, 16, 4, true, 65535) {
            None => (Vec::new(), pos, false),
            Some((g, p)) => {
                let (mut rest, p3, f) = read_groups_exec(s, p, i + 1, limit);
                rest.insert(0, g);
                proof {
                    let sp = read_groups(s@, pos as int, i as nat, limit as nat);
                    let sr = read_groups(s@, p as int, (i + 1) as nat, limit as nat);
                    assert(sp.0 =~= seq![g as nat] + sr.0);
                }
                (rest, p3, f)
            },
        },
    }
}

fn read_ipv6_exec(s: &[char], pos: usize) -> (r: Option<([u8; 16], usize)>)
    requires
        pos <= s@.len(),
    ensures
        r matches Some((o, p)) ==> (read_ipv6(s@, pos as int) matches Some((g, q)) && o@
            == groups_to_octets(g) && q == p),
        r is None ==> read_ipv6(s@, pos as int) is None,
{
    let (head, p1, hv4) = read_groups_exec(s, pos, 0, 8);
    let ghost spec_head = read_groups(s@, pos as int, 0, 8);
    let mut groups: Vec<u32> = Vec::new();
    let mut end = p1;
    if head.len() == 8 {
        groups = head;
    } else if hv4 {
        return None;
    } else {
        let c1 = read_char_exec(s, p1, ':');
        if c1.is_none() {
            return None;
        }
        let c2 = read_char_exec(s, p1 + 1, ':');
        if c2.is_none() {
            return None;
        }
        let limit = 8 - (head.len() + 1);
        let (tail, p2, _) = read_groups_exec(s, p1 + 2, 0, limit);
        let ghost spec_tail = read_groups(s@, p1 + 2, 0, limit as nat);
        let zeros = 8 - head.len() - tail.len();
        let mut j: usize = 0;
        while j < head.len()
            invariant
                j <= head@.len(),
                groups@ =~= head@.take(j as int),
            decreases head@.len() - j,
        {
            groups.push(head[j]);
            j = j + 1;
            assert(head@.take(j as int) =~= head@.take((j - 1) as int).push(head@[j - 1]));
        }
        let mut z: usize = 0;
        while z < zeros
            invariant
                z <= zeros,
                groups@ =~= head@ + Seq::new(z as nat, |k: int| 0u32),
            decreases zeros - z,
        {
            groups.push(0);
            z = z + 1;
            assert(head@ + Seq::new(z as nat, |k: int| 0u32) =~= (head@ + Seq::new(
                (z - 1) as nat,
                |k: int| 0u32,
            )).push(0u32));
        }
        let mut t: usize = 0;
        while t < tail.len()
            invariant
                t <= tail@.len(),
                groups@ =~= head@ + Seq::new(zeros as nat, |k: int| 0u32) + tail@.take(t as int),
            decreases tail@.len() - t,
        {
            groups.push(tail[t]);
            t = t + 1;
            assert(tail@.take(t as int) =~= tail@.take((t - 1) as int).push(tail@[t - 1]));
        }
        assert(tail@.take(tail@.len() as int) =~= tail@);
        end = p2;
        proof {
            let expect = spec_head.0 + Seq::new(
                (8 - spec_head.0.len() - spec_tail.0.len()) as nat,
                |k: int| 0nat,
            ) + spec_tail.0;
            assert(groups@.len() == 8);
            assert forall|k: int| 0 <= k < 8 implies groups@[k] as nat == expect[k] by {
                if k < head@.len() {
                } else if k < head@.len() + zeros {
                } else {
                    assert(groups@[k] == tail@[k - head@.len() - zeros]);
                }
            }
        }
    }
    assert(groups@.len() == 8);
    let mut o: [u8; 16] = [0u8; 16];
    let mut k: usize = 0;
    while k < 8
        invariant
            k <= 8,
            groups@.len() == 8,
            forall|m: int| 0 <= m < 8 ==> groups@[m] <= 65535,
            forall|m: int|
                0 <= m < 2 * k ==> o@[m] == (if m % 2 == 0 {
                    (groups@[m / 2] / 256) as u8
                } else {
                    (groups@[m / 2] % 256) as u8
                }),
        decreases 8 - k,
    {
        let g = groups[k];
        o[2 * k] = (g / 256) as u8;
        o[2 * k + 1] = (g % 256) as u8;
        k = k + 1;
    }
    proof {
        let pair = read_ipv6(s@, pos as int)->0;
        let spec_g = pair.0;
        assert forall|m: int| 0 <= m < 16 implies o@[m] == groups_to_octets(spec_g)[m] by {
            assert(groups@[m / 2] as nat == spec_g[m / 2]);
        }
        assert(o@ =~= groups_to_octets(spec_g));
    }
    Some((o, end))
}

/// Parses an IPv4 or IPv6 address written as text, as std's `IpAddr::from_str` does.
pub fn parse_ip_address(text: &str) -> (r: Option<IpAddress>)
    ensures
        r matches Some(ip) ==> parse_ip_spec(text@) == Some(ip.octets()),
        r is None ==> parse_ip_spec(text@) is None,
{
    let cs = crate::text::chars_of(text);
    let s = cs.as_slice();
    match read_ipv4_exec(s, 0) {
        Some((o, p)) => {
            if p == s.len() {
                Some(IpAddress::V4(o))
            } else {
                None
            }
        },
        None => match read_ipv6_exec(s, 0) {
            Some((o, p)) => {
                if p == s.len() {
                    Some(IpAddress::V6(o))
                } else {
                    None
                }
            },
            None => None,
        },
    }
}

// ---- IPv4 ranges, as std documents its `Ipv4Addr` predicates ----

/// 10.0.0.0/8, 172.16.0.0/12 and 192.168.0.0/16.
pub open spec fn v4_private(o: Seq<u8>) -> bool {
    o[0] == 10 || (o[0] == 172 && 16 <= o[1] <= 31) || (o[0] == 192 && o[1] == 168)
}

/// 127.0.0.0/8.
pub open spec fn v4_loopback(o: Seq<u8>) -> bool {
    o[0] == 127
}

/// 169.254.0.0/16.
pub open spec fn v4_link_local(o: Seq<u8>) -> bool {
    o[0] == 169 && o[1] == 254
}

/// 255.255.255.255.
pub open spec fn v4_broadcast(o: Seq<u8>) -> bool {
    o[0] == 255 && o[1] == 255 && o[2] == 255 && o[3] == 255
}

/// 192.0.2.0/24, 198.51.100.0/24 and 203.0.113.0/24.
pub open spec fn v4_documentation(o: Seq<u8>) -> bool {
    (o[0] == 192 && o[1] == 0 && o[2] == 2) || (o[0] == 198 && o[1] == 51 && o[2] == 100)
        || (o[0] == 203 && o[1] == 0 && o[2] == 113)
}

/// 0.0.0.0.
pub open spec fn v4_unspecified(o: Seq<u8>) -> bool {
    o[0] == 0 && o[1] == 0 && o[2] == 0 && o[3] == 0
}

/// 224.0.0.0/4.
pub open spec fn v4_multicast(o: Seq<u8>) -> bool {
    224 <= o[0] <= 239
}

// ---- IPv6 predicates over octets ----

/// `::1`.
pub open spec fn v6_loopback(o: Seq<u8>) -> bool {
    (forall|i: int| 0 <= i < 15 ==> o[i] == 0) && o[15] == 1
}

/// `::`.
pub open spec fn v6_unspecified(o: Seq<u8>) -> bool {
    forall|i: int| 0 <= i < 16 ==> o[i] == 0
}

/// ff00::/8.
pub open spec fn v6_multicast(o: Seq<u8>) -> bool {
    o[0] == 0xff
}

/// The `i`-th 16-bit segment of an IPv6 address.
pub open spec fn v6_segment(o: Seq<u8>, i: int) -> int {
    o[2 * i] * 256 + o[2 * i + 1]
}

/// Whether a literal IP address falls in a private, loopback or otherwise local range.
pub open spec fn ip_private_or_local(o: Seq<u8>) -> bool {
    if o.len() == 4 {
        v4_private(o) || v4_loopback(o) || v4_link_local(o) || v4_broadcast(o)
            || v4_documentation(o) || v4_unspecified(o)
    } else {
        v6_loopback(o) || v6_unspecified(o) || v6_multicast(o)
    }
}

/// Host names that always denote the local machine or a private network.
pub open spec fn reserved_host_name(h: Seq<char>) -> bool {
    h == "localhost"@ || h == "local"@ || h == "internal"@ || h == "private"@
        || h == "*.local"@ || h == "*.internal"@ || h == "*.private"@
}

/// Whether a monitor host names a private or local destination.
pub open spec fn host_private_or_local(h: Seq<char>) -> bool {
    if h == "localhost"@ || h == "127.0.0.1"@ || h == "::1"@ {
        true
    } else {
        match parse_ip_spec(h) {
            Some(o) => ip_private_or_local(o),
            None => reserved_host_name(h),
        }
    }
}

/// Whether a resolved address may be the destination of remote work: public IPv4
/// outside every special-purpose range, or native global-unicast IPv6.
pub open spec fn address_is_public(o: Seq<u8>) -> bool {
    if o.len() == 4 {
        !(v4_private(o) || v4_loopback(o) || v4_link_local(o) || v4_broadcast(o)
            || v4_documentation(o) || v4_unspecified(o) || v4_multicast(o) || o[0] == 0
            || o[0] >= 240 || (o[0] == 100 && 64 <= o[1] < 128) || (o[0] == 198 && 18 <= o[1]
            < 20) || (o[0] == 192 && o[1] == 0 && o[2] == 0))
    } else {
        let s0 = v6_segment(o, 0);
        let s1 = v6_segment(o, 1);
        &&& 0x2000 <= s0 < 0x4000
        &&& s0 != 0x2002
        &&& !(s0 == 0x2001 && (s1 < 0x0200 || s1 == 0x0db8))
        &&& !(s0 == 0x3fff && s1 < 0x1000)
    }
}

fn v4_in_local_ranges(o: &[u8; 4]) -> (r: bool)
    ensures
        r == (v4_private(o@) || v4_loopback(o@) || v4_link_local(o@) || v4_broadcast(o@)
            || v4_documentation(o@) || v4_unspecified(o@)),
{
    let a = o[0];
    let b = o[1];
    let c = o[2];
    let d = o[3];
    (a == 10 || (a == 172 && 16 <= b && b <= 31) || (a == 192 && b == 168))
        || a == 127
        || (a == 169 && b == 254)
        || (a == 255 && b == 255 && c == 255 && d == 255)
        || ((a == 192 && b == 0 && c == 2) || (a == 198 && b == 51 && c == 100)
            || (a == 203 && b == 0 && c == 113))
        || (a == 0 && b == 0 && c == 0 && d == 0)
}

fn v6_all_zero_before(o: &[u8; 16], n: usize) -> (r: bool)
    requires
        n <= 16,
    ensures
        r == (forall|i: int| 0 <= i < n ==> o@[i] == 0),
{
    let mut i: usize = 0;
    while i < n
        invariant
            i <= n <= 16,
            forall|j: int| 0 <= j < i ==> o@[j] == 0,
        decreases n - i,
    {
        if o[i] != 0 {
            return false;
        }
        i = i + 1;
    }
    true
}

/// Whether a parsed address lies in a private, loopback or local range.
pub fn ip_is_private_or_local(ip: &IpAddress) -> (r: bool)
    ensures
        r == ip_private_or_local(ip.octets()),
{
    match ip {
        IpAddress::V4(o) => v4_in_local_ranges(o),
        IpAddress::V6(o) => {
            let zeros = v6_all_zero_before(o, 15);
            (zeros && o[15] == 1) || (zeros && o[15] == 0) || o[0] == 0xff
        },
    }
}

/// Check if hostname/IP is private or localhost.
pub fn is_private_or_local(host: &str) -> (r: bool)
    ensures
        r == host_private_or_local(host@),
{
    if str_equal(host, "localhost") || str_equal(host, "127.0.0.1") || str_equal(host, "::1") {
        return true;
    }
    match parse_ip_address(host) {
        Some(ip) => ip_is_private_or_local(&ip),
        None => {
            str_equal(host, "localhost") || str_equal(host, "local") || str_equal(host, "internal")
                || str_equal(host, "private") || str_equal(host, "*.local") || str_equal(
                host,
                "*.internal",
            ) || str_equal(host, "*.private")
        },
    }
}

/// Whether a resolved address may be contacted by remote (peer-requested) work.
pub fn public_address(ip: &IpAddress) -> (r: bool)
    ensures
        r == address_is_public(ip.octets()),
{
    match ip {
        IpAddress::V4(o) => {
            let a = o[0];
            let b = o[1];
            let c = o[2];
            !(v4_in_local_ranges(o) || (224 <= a && a <= 239) || a == 0 || a >= 240 || (a == 100
                && 64 <= b && b < 128) || (a == 198 && 18 <= b && b < 20) || (a == 192 && b == 0
                && c == 0))
        },
        IpAddress::V6(o) => {
            let s0: u32 = (o[0] as u32) * 256 + (o[1] as u32);
            let s1: u32 = (o[2] as u32) * 256 + (o[3] as u32);
            0x2000 <= s0 && s0 < 0x4000 && s0 != 0x2002 && !(s0 == 0x2001 && (s1 < 0x0200 || s1
                == 0x0db8)) && !(s0 == 0x3fff && s1 < 0x1000)
        },
    }
}

} // verus!
