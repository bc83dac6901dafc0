//! Network addresses and their textual forms.

use vstd::prelude::*;
use crate::number::{
    decimal_upto, hex_group, is_digit, is_hex_digit, octet, parse_decimal, parse_hex_group,
    parse_octet,
};
use crate::text::{
    find_char, find_pair, first_index, first_pair, lemma_first_index, lemma_first_pair,
    slice_chars, split, split_chars, to_chars, views,
};

verus! {

/// An IP address: the four octets of version 4, or the eight 16-bit groups of
/// version 6, most significant first.
#[derive(Clone, Copy, Debug, PartialEq, Eq, Structural, Hash)]
pub enum IpAddr {
    V4(u8, u8, u8, u8),
    V6(u16, u16, u16, u16, u16, u16, u16, u16),
}

/// An IP address with a port. `scope_id` is the zone of a version 6 address;
/// it is 0 where the text names none, and for version 4.
#[derive(Clone, Copy, Debug, PartialEq, Eq, Structural, Hash)]
pub struct SocketAddr {
    pub ip: IpAddr,
    pub port: u16,
    pub scope_id: u32,
}

/// Where a relay forwards to: an address that is fixed for good, or a host name
/// with a port that is looked up anew for every connection.
#[derive(Clone, Debug, PartialEq, Eq)]
pub enum RemoteAddr {
    SocketAddr(SocketAddr),
    DomainName(String, u16),
}

/// What a `RemoteAddr` holds, with the host name as a sequence of characters.
pub enum RemoteAddrView {
    SocketAddr(SocketAddr),
    DomainName(Seq<char>, u16),
}

impl View for RemoteAddr {
    type V = RemoteAddrView;

    open spec fn view(&self) -> RemoteAddrView {
        match *self {
            RemoteAddr::SocketAddr(a) => RemoteAddrView::SocketAddr(a),
            RemoteAddr::DomainName(host, port) => RemoteAddrView::DomainName(host@, port),
        }
    }
}

/// The version 4 address that stands for any address, with port 0.
pub fn new_sockaddr_v4() -> (r: SocketAddr)
    ensures
        r == (SocketAddr { ip: IpAddr::V4(0, 0, 0, 0), port: 0, scope_id: 0 }),
{
    SocketAddr { ip: IpAddr::V4(0, 0, 0, 0), port: 0, scope_id: 0 }
}

/// The version 6 address that stands for any address, with port 0.
pub fn new_sockaddr_v6() -> (r: SocketAddr)
    ensures
        r == (SocketAddr { ip: IpAddr::V6(0, 0, 0, 0, 0, 0, 0, 0), port: 0, scope_id: 0 }),
{
    SocketAddr { ip: IpAddr::V6(0, 0, 0, 0, 0, 0, 0, 0), port: 0, scope_id: 0 }
}

/// The version 4 address that `s` denotes: four octets separated by dots.
pub open spec fn ipv4(s: Seq<char>) -> Option<IpAddr> {
    let p = split(s, '.');
    if p.len() == 4 && octet(p[0]) is Some && octet(p[1]) is Some && octet(p[2]) is Some && octet(
        p[3],
    ) is Some {
        Some(
            IpAddr::V4(
                octet(p[0])->0 as u8,
                octet(p[1])->0 as u8,
                octet(p[2])->0 as u8,
                octet(p[3])->0 as u8,
            ),
        )
    } else {
        None
    }
}

/// Reads a version 4 address.
pub fn parse_ipv4(v: &Vec<char>) -> (r: Option<IpAddr>)
    ensures
        r == ipv4(v@),
{
    let p = split_chars(v, '.');
    if p.len() != 4 {
        return None;
    }
    proof {
        let q = views(p@);
        assert(q[0] == p@[0]@ && q[1] == p@[1]@ && q[2] == p@[2]@ && q[3] == p@[3]@);
    }
    let a = parse_octet(&p[0]);
    let b = parse_octet(&p[1]);
    let c = parse_octet(&p[2]);
    let d = parse_octet(&p[3]);
    match (a, b, c, d) {
        (Some(a), Some(b), Some(c), Some(d)) => Some(IpAddr::V4(a, b, c, d)),
        _ => None,
    }
}

/// The values of the pieces `p` where each of them is a group of one to four
/// hexadecimal digits.
pub open spec fn hex_groups(p: Seq<Seq<char>>) -> Option<Seq<u16>> {
    if forall|i: int| 0 <= i < p.len() ==> (#[trigger] hex_group(p[i])) is Some {
        Some(Seq::new(p.len(), |i: int| hex_group(p[i])->0 as u16))
    } else {
        None
    }
}

/// The 16-bit groups that a run of colon-separated pieces denotes. Each piece
/// is a hexadecimal group; where `dotted_tail` holds, the last piece may be a
/// version 4 address instead, which stands for two groups. The empty text
/// denotes no groups.
pub open spec fn group_run(s: Seq<char>, dotted_tail: bool) -> Option<Seq<u16>> {
    if s.len() == 0 {
        Some(Seq::empty())
    } else {
        let p = split(s, ':');
        match ipv4(p.last()) {
            Some(IpAddr::V4(a, b, c, d)) if dotted_tail => match hex_groups(p.drop_last()) {
                Some(g) => Some(g + seq![(a * 256 + b) as u16, (c * 256 + d) as u16]),
                None => None,
            },
            _ => hex_groups(p),
        }
    }
}

/// `n` groups of value zero.
pub open spec fn zero_groups(n: nat) -> Seq<u16> {
    Seq::new(n, |i: int| 0u16)
}

/// The version 6 address with the eight groups `g`.
pub open spec fn v6_of(g: Seq<u16>) -> IpAddr {
    IpAddr::V6(g[0], g[1], g[2], g[3], g[4], g[5], g[6], g[7])
}

/// The version 6 address that `s` denotes. Without `::` the text is a run of
/// exactly eight groups. With `::`, the runs before and after its first
/// occurrence together give at most seven groups, no dotted tail stands before
/// it, and it stands for the zero groups that are missing.
pub open spec fn ipv6(s: Seq<char>) -> Option<IpAddr> {
    let k = first_pair(s, ':') as int;
    if k < s.len() {
        match (group_run(s.subrange(0, k), false), group_run(s.subrange(k + 2, s.len() as int), true)) {
            (Some(h), Some(t)) => if h.len() + t.len() <= 7 {
                Some(v6_of(h + zero_groups((8 - h.len() - t.len()) as nat) + t))
            } else {
                None
            },
            _ => None,
        }
    } else {
        match group_run(s, true) {
            Some(g) => if g.len() == 8 {
                Some(v6_of(g))
            } else {
                None
            },
            None => None,
        }
    }
}

/// The IP address that `s` denotes, of either version.
pub open spec fn ip_addr(s: Seq<char>) -> Option<IpAddr> {
    if ipv4(s) is Some {
        ipv4(s)
    } else {
        ipv6(s)
    }
}

/// Every character of a text other than the separator stands in one of the
/// pieces that the text is split into.
pub proof fn lemma_split_covers(s: Seq<char>, sep: char, i: int)
    requires
        0 <= i < s.len(),
        s[i] != sep,
    ensures
        exists|j: int| 0 <= j < split(s, sep).len() && (#[trigger] split(s, sep)[j]).contains(s[i]),
    decreases s.len(),
{
    lemma_first_index(s, sep);
    let k = first_index(s, sep) as int;
    if k >= s.len() {
        assert(split(s, sep)[0] == s);
        assert(s.contains(s[i]));
    } else if i < k {
        let p = s.subrange(0, k);
        assert(p[i] == s[i]);
        assert(p.contains(s[i]));
        assert(split(s, sep)[0] == p);
    } else {
        let rest = s.subrange(k + 1, s.len() as int);
        assert(rest[i - k - 1] == s[i]);
        lemma_split_covers(rest, sep, i - k - 1);
        let j = choose|j: int|
            0 <= j < split(rest, sep).len() && (#[trigger] split(rest, sep)[j]).contains(s[i]);
        assert(split(s, sep)[j + 1] == split(rest, sep)[j]);
    }
}

/// A text that denotes a version 4 address holds no square bracket.
pub proof fn lemma_ipv4_has_no_bracket(s: Seq<char>, i: int)
    requires
        ipv4(s) is Some,
        0 <= i < s.len(),
    ensures
        s[i] != '[' && s[i] != ']',
{
    if s[i] == '[' || s[i] == ']' {
        lemma_split_covers(s, '.', i);
        let p = split(s, '.');
        let j = choose|j: int| 0 <= j < p.len() && (#[trigger] p[j]).contains(s[i]);
        assert(octet(p[j]) is Some);
        let o = choose|o: int| 0 <= o < p[j].len() && p[j][o] == s[i];
        assert(is_digit(p[j][o]));
    }
}

/// A run of groups holds no square bracket.
pub proof fn lemma_group_run_has_no_bracket(s: Seq<char>, dotted_tail: bool, i: int)
    requires
        group_run(s, dotted_tail) is Some,
        0 <= i < s.len(),
    ensures
        s[i] != '[' && s[i] != ']',
{
    if s[i] == '[' || s[i] == ']' {
        lemma_split_covers(s, ':', i);
        let p = split(s, ':');
        let j = choose|j: int| 0 <= j < p.len() && (#[trigger] p[j]).contains(s[i]);
        let o = choose|o: int| 0 <= o < p[j].len() && p[j][o] == s[i];
        if dotted_tail && ipv4(p.last()) is Some {
            if j == p.len() - 1 {
                lemma_ipv4_has_no_bracket(p.last(), o);
            } else {
                assert(p.drop_last()[j] == p[j]);
                assert(hex_group(p.drop_last()[j]) is Some);
                assert(is_hex_digit(p[j][o]));
            }
        } else {
            assert(hex_group(p[j]) is Some);
            assert(is_hex_digit(p[j][o]));
        }
    }
}

/// A text that denotes an IP address holds no square bracket.
pub proof fn lemma_ip_has_no_bracket(s: Seq<char>, i: int)
    requires
        ip_addr(s) is Some,
        0 <= i < s.len(),
    ensures
        s[i] != '[' && s[i] != ']',
{
    if ipv4(s) is Some {
        lemma_ipv4_has_no_bracket(s, i);
    } else {
        lemma_first_pair(s, ':');
        let k = first_pair(s, ':') as int;
        if k < s.len() {
            let head = s.subrange(0, k);
            let tail = s.subrange(k + 2, s.len() as int);
            if i < k {
                assert(head[i] == s[i]);
                lemma_group_run_has_no_bracket(head, false, i);
            } else if i >= k + 2 {
                assert(tail[i - k - 2] == s[i]);
                lemma_group_run_has_no_bracket(tail, true, i - k - 2);
            }
        } else {
            lemma_group_run_has_no_bracket(s, true, i);
        }
    }
}

/// Reads the first `n` pieces of `p` as hexadecimal groups.
pub fn parse_hex_groups(p: &Vec<Vec<char>>, n: usize) -> (r: Option<Vec<u16>>)
    requires
        n <= p@.len(),
    ensures
        match hex_groups(views(p@).subrange(0, n as int)) {
            Some(g) => r is Some && r->0@ == g,
            None => r is None,
        },
{
    let ghost q = views(p@).subrange(0, n as int);
    let mut out: Vec<u16> = Vec::new();
    let mut i: usize = 0;
    while i < n
        invariant
            i <= n <= p@.len(),
            q == views(p@).subrange(0, n as int),
            out@.len() == i,
            forall|j: int| 0 <= j < i ==> (#[trigger] hex_group(q[j])) is Some,
            forall|j: int| 0 <= j < i ==> out@[j] == hex_group(q[j])->0 as u16,
        decreases n - i,
    {
        assert(q[i as int] == p@[i as int]@);
        match parse_hex_group(&p[i]) {
            Some(g) => {
                out.push(g);
            },
            None => {
                assert(hex_group(q[i as int]) is None);
                return None;
            },
        }
        i += 1;
    }
    assert(out@ =~= hex_groups(q)->0);
    Some(out)
}

/// Reads a run of colon-separated groups.
pub fn parse_group_run(v: &Vec<char>, dotted_tail: bool) -> (r: Option<Vec<u16>>)
    ensures
        match group_run(v@, dotted_tail) {
            Some(g) => r is Some && r->0@ == g,
            None => r is None,
        },
{
    if v.len() == 0 {
        let none: Vec<u16> = Vec::new();
        assert(none@ =~= Seq::<u16>::empty());
        return Some(none);
    }
    let p = split_chars(v, ':');
    let n = p.len();
    proof {
        let q = views(p@);
        assert(q.last() == p@[n - 1]@);
        assert(q.drop_last() =~= q.subrange(0, n - 1));
        assert(q.subrange(0, n as int) =~= q);
    }
    if dotted_tail {
        if let Some(IpAddr::V4(a, b, c, d)) = parse_ipv4(&p[n - 1]) {
            return match parse_hex_groups(&p, n - 1) {
                Some(g) => {
                    let mut g = g;
                    let ghost front = g@;
                    g.push(a as u16 * 256 + b as u16);
                    g.push(c as u16 * 256 + d as u16);
                    assert(g@ =~= front + seq![(a * 256 + b) as u16, (c * 256 + d) as u16]);
                    Some(g)
                },
                None => None,
            };
        }
    }
    proof {
        assert(ipv4(views(p@).last()) is Some ==> ipv4(views(p@).last())->0 is V4);
    }
    parse_hex_groups(&p, n)
}

/// Reads a version 6 address.
pub fn parse_ipv6(v: &Vec<char>) -> (r: Option<IpAddr>)
    ensures
        r == ipv6(v@),
{
    let k = find_pair(v, ':');
    if k < v.len() {
        let head = slice_chars(v, 0, k);
        let tail = slice_chars(v, k + 2, v.len());
        match (parse_group_run(&head, false), parse_group_run(&tail, true)) {
            (Some(h), Some(t)) => {
                if h.len() > 7 || t.len() > 7 - h.len() {
                    return None;
                }
                let zeros: usize = 8 - h.len() - t.len();
                let mut g = h;
                let ghost front = g@;
                let mut i: usize = 0;
                while i < zeros
                    invariant
                        i <= zeros,
                        g@ == front + zero_groups(i as nat),
                    decreases zeros - i,
                {
                    g.push(0);
                    i += 1;
                    assert(g@ =~= front + zero_groups(i as nat));
                }
                let ghost middle = g@;
                let mut j: usize = 0;
                while j < t.len()
                    invariant
                        j <= t@.len(),
                        g@ == middle + t@.subrange(0, j as int),
                    decreases t@.len() - j,
                {
                    g.push(t[j]);
                    j += 1;
                    assert(g@ =~= middle + t@.subrange(0, j as int));
                }
                assert(t@.subrange(0, j as int) =~= t@);
                Some(IpAddr::V6(g[0], g[1], g[2], g[3], g[4], g[5], g[6], g[7]))
            },
            _ => None,
        }
    } else {
        match parse_group_run(v, true) {
            Some(g) => {
                if g.len() == 8 {
                    Some(IpAddr::V6(g[0], g[1], g[2], g[3], g[4], g[5], g[6], g[7]))
                } else {
                    None
                }
            },
            None => None,
        }
    }
}

/// Reads an IP address of either version.
pub fn parse_ip_addr(v: &Vec<char>) -> (r: Option<IpAddr>)
    ensures
        r == ip_addr(v@),
{
    match parse_ipv4(v) {
        Some(ip) => Some(ip),
        None => parse_ipv6(v),
    }
}

/// The address that `s` denotes in the form of a version 4 address, a colon
/// and a port of decimal digits.
pub open spec fn socket_addr_v4(s: Seq<char>) -> Option<SocketAddr> {
    let k = first_index(s, ':') as int;
    if k < s.len() {
        match (ipv4(s.subrange(0, k)), decimal_upto(s.subrange(k + 1, s.len() as int), 65535)) {
            (Some(ip), Some(port)) => Some(SocketAddr { ip, port: port as u16, scope_id: 0 }),
            _ => None,
        }
    } else {
        None
    }
}

/// The address that `s` denotes in the form of a version 6 address in square
/// brackets, a colon and a port of decimal digits. Inside the brackets a `%`
/// and a zone of decimal digits may follow the address.
pub open spec fn socket_addr_v6(s: Seq<char>) -> Option<SocketAddr> {
    let j = first_index(s, ']') as int;
    if s.len() > 0 && s[0] == '[' && j + 1 < s.len() && s[j + 1] == ':' {
        let inner = s.subrange(1, j);
        let p = first_index(inner, '%') as int;
        let zone = if p < inner.len() {
            decimal_upto(inner.subrange(p + 1, inner.len() as int), 0xffff_ffff)
        } else {
            Some(0nat)
        };
        match (ipv6(inner.subrange(0, p)), zone, decimal_upto(s.subrange(j + 2, s.len() as int), 65535)) {
            (Some(ip), Some(zone), Some(port)) => Some(
                SocketAddr { ip, port: port as u16, scope_id: zone as u32 },
            ),
            _ => None,
        }
    } else {
        None
    }
}

/// The address with a port that `s` denotes, of either version.
pub open spec fn socket_addr(s: Seq<char>) -> Option<SocketAddr> {
    if socket_addr_v4(s) is Some {
        socket_addr_v4(s)
    } else {
        socket_addr_v6(s)
    }
}

/// Reads a version 4 address with a port.
pub fn parse_socket_addr_v4(v: &Vec<char>) -> (r: Option<SocketAddr>)
    ensures
        r == socket_addr_v4(v@),
{
    let k = find_char(v, 0, ':');
    proof {
        assert(v@.subrange(0, v@.len() as int) =~= v@);
    }
    if k >= v.len() {
        return None;
    }
    let host = slice_chars(v, 0, k);
    let digits = slice_chars(v, k + 1, v.len());
    match (parse_ipv4(&host), parse_decimal(&digits, 65535)) {
        (Some(ip), Some(port)) => Some(SocketAddr { ip, port: port as u16, scope_id: 0 }),
        _ => None,
    }
}

/// Reads a bracketed version 6 address with a port.
pub fn parse_socket_addr_v6(v: &Vec<char>) -> (r: Option<SocketAddr>)
    ensures
        r == socket_addr_v6(v@),
{
    let n = v.len();
    if n == 0 || v[0] != '[' {
        return None;
    }
    let j = find_char(v, 0, ']');
    proof {
        assert(v@.subrange(0, v@.len() as int) =~= v@);
        lemma_first_index(v@, ']');
    }
    if j >= n || j + 1 >= n || v[j + 1] != ':' {
        return None;
    }
    let inner = slice_chars(v, 1, j);
    let p = find_char(&inner, 0, '%');
    proof {
        assert(inner@.subrange(0, inner@.len() as int) =~= inner@);
    }
    let zone: Option<u32> = if p < inner.len() {
        let digits = slice_chars(&inner, p + 1, inner.len());
        parse_decimal(&digits, 0xffff_ffff)
    } else {
        Some(0)
    };
    let host = slice_chars(&inner, 0, p);
    let digits = slice_chars(v, j + 2, n);
    match (parse_ipv6(&host), zone, parse_decimal(&digits, 65535)) {
        (Some(ip), Some(zone), Some(port)) => Some(
            SocketAddr { ip, port: port as u16, scope_id: zone },
        ),
        _ => None,
    }
}

/// Reads an address with a port from its characters.
pub fn parse_socket_addr_chars(v: &Vec<char>) -> (r: Option<SocketAddr>)
    ensures
        r == socket_addr(v@),
{
    match parse_socket_addr_v4(v) {
        Some(a) => Some(a),
        None => parse_socket_addr_v6(v),
    }
}

/// Reads an address with a port, such as `127.0.0.1:80` or `[::1]:80`.
pub fn parse_socket_addr(s: &str) -> (r: Option<SocketAddr>)
    ensures
        r == socket_addr(s@),
{
    let v = to_chars(s);
    parse_socket_addr_chars(&v)
}

/// Reads a bare IP address, such as `127.0.0.1` or `::1`.
pub fn parse_ip(s: &str) -> (r: Option<IpAddr>)
    ensures
        r == ip_addr(s@),
{
    let v = to_chars(s);
    parse_ip_addr(&v)
}

} // verus!
