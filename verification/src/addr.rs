//! Network addresses as plain values.
//!
//! A relay target binds a listening socket to a textual address such as
//! `0.0.0.0:80` or `[2001:db8::1]:8080`. This module holds the address types
//! the library computes with, and the grammar of their textual forms: dotted
//! decimal IPv4 (four octets, no leading zeroes), colon-separated hexadecimal
//! IPv6 with at most one `::` elision, and a decimal port.

use vstd::prelude::*;
use crate::text::{
    all_digits, dec_value, spec_decimal, spec_split, spec_hex_group, find_char, lemma_find_char,
    parse_decimal, parse_hex_group, split_seg,
};

verus! {

/// An IPv4 address: four octets.
#[derive(Clone, Copy, Debug, PartialEq, Eq, Structural)]
pub struct Ipv4Address {
    pub o0: u8,
    pub o1: u8,
    pub o2: u8,
    pub o3: u8,
}

impl Ipv4Address {
    pub fn new(o0: u8, o1: u8, o2: u8, o3: u8) -> (r: Self)
        ensures
            r == (Ipv4Address { o0, o1, o2, o3 }),
    {
        Ipv4Address { o0, o1, o2, o3 }
    }
}

/// An IPv6 address: eight 16-bit groups.
#[derive(Clone, Copy, Debug, PartialEq, Eq, Structural)]
pub struct Ipv6Address {
    pub g0: u16,
    pub g1: u16,
    pub g2: u16,
    pub g3: u16,
    pub g4: u16,
    pub g5: u16,
    pub g6: u16,
    pub g7: u16,
}

impl Ipv6Address {
    pub fn new(g0: u16, g1: u16, g2: u16, g3: u16, g4: u16, g5: u16, g6: u16, g7: u16) -> (r: Self)
        ensures
            r == (Ipv6Address { g0, g1, g2, g3, g4, g5, g6, g7 }),
    {
        Ipv6Address { g0, g1, g2, g3, g4, g5, g6, g7 }
    }
}

/// Either kind of address.
#[derive(Clone, Copy, Debug, PartialEq, Eq, Structural)]
pub enum IpAddress {
    V4(Ipv4Address),
    V6(Ipv6Address),
}

/// A network address together with a port.
#[derive(Clone, Copy, Debug, PartialEq, Eq, Structural)]
pub struct SocketAddress {
    pub ip: IpAddress,
    pub port: u16,
}

impl SocketAddress {
    pub fn new(ip: IpAddress, port: u16) -> (r: Self)
        ensures
            r == (SocketAddress { ip, port }),
    {
        SocketAddress { ip, port }
    }

    pub fn ip(&self) -> (r: IpAddress)
        ensures
            r == self.ip,
    {
        self.ip
    }

    pub fn port(&self) -> (r: u16)
        ensures
            r == self.port,
    {
        self.port
    }

    pub fn is_ipv4(&self) -> (r: bool)
        ensures
            r == (self.ip is V4),
    {
        match self.ip {
            IpAddress::V4(_) => true,
            IpAddress::V6(_) => false,
        }
    }

    pub fn is_ipv6(&self) -> (r: bool)
        ensures
            r == (self.ip is V6),
    {
        match self.ip {
            IpAddress::V4(_) => false,
            IpAddress::V6(_) => true,
        }
    }
}

/// A dotted-decimal octet: one to three digits, no leading zero, at most 255.
pub open spec fn spec_octet(s: Seq<char>) -> Option<int> {
    if s.len() >= 1 && all_digits(s) && (s[0] != '0' || s.len() == 1) && dec_value(s) <= 255 {
        Some(dec_value(s))
    } else {
        None
    }
}

/// The IPv4 address written in `s`, if `s` is four valid octets separated by
/// dots.
pub open spec fn spec_ipv4(s: Seq<char>) -> Option<Ipv4Address> {
    let parts = spec_split(s, '.');
    if parts.len() == 4 && spec_octet(parts[0]) is Some && spec_octet(parts[1]) is Some
        && spec_octet(parts[2]) is Some && spec_octet(parts[3]) is Some {
        Some(
            Ipv4Address {
                o0: spec_octet(parts[0])->Some_0 as u8,
                o1: spec_octet(parts[1])->Some_0 as u8,
                o2: spec_octet(parts[2])->Some_0 as u8,
                o3: spec_octet(parts[3])->Some_0 as u8,
            },
        )
    } else {
        None
    }
}

/// The port number written in `s`: decimal digits, value at most 65535
/// (leading zeroes permitted).
pub open spec fn spec_port(s: Seq<char>) -> Option<int> {
    spec_decimal(s, 65535)
}

/// A 16-bit numeral as `u16` parsing reads it: an optional plus sign, then
/// decimal digits, with a value of at most 65535.
pub open spec fn spec_u16_numeral(s: Seq<char>) -> Option<int> {
    if s.len() >= 1 && s[0] == '+' {
        spec_decimal(s.drop_first(), 65535)
    } else {
        spec_decimal(s, 65535)
    }
}

/// Parse `v[from..to]` as a 16-bit numeral.
pub fn parse_u16_numeral(v: &Vec<char>, from: usize, to: usize) -> (r: Option<u16>)
    requires
        from <= to <= v@.len(),
    ensures
        match r {
            Some(value) => spec_u16_numeral(v@.subrange(from as int, to as int)) == Some(
                value as int,
            ),
            None => spec_u16_numeral(v@.subrange(from as int, to as int)) is None,
        },
{
    let ghost s = v@.subrange(from as int, to as int);
    let start = if to > from && v[from] == '+' {
        from + 1
    } else {
        from
    };
    proof {
        if s.len() >= 1 && s[0] == '+' {
            assert(s.drop_first() =~= v@.subrange(from + 1, to as int));
        }
    }
    match parse_decimal(v, start, to, 65535) {
        Some(value) => Some(value as u16),
        None => None,
    }
}

/// The index of the first `::` in `s`, or `-1` when there is none.
pub open spec fn find_double_colon(s: Seq<char>) -> int
    decreases s.len(),
{
    if s.len() < 2 {
        -1
    } else if s[0] == ':' && s[1] == ':' {
        0
    } else if find_double_colon(s.drop_first()) < 0 {
        -1
    } else {
        find_double_colon(s.drop_first()) + 1
    }
}

/// `find_double_colon` returns the least index at which two colons stand next
/// to each other, or `-1` when no index does.
pub proof fn lemma_find_double_colon(s: Seq<char>)
    ensures
        -1 <= find_double_colon(s) <= s.len() - 2 || find_double_colon(s) == -1,
        find_double_colon(s) == -1 ==> forall|j: int|
            0 <= j < s.len() - 1 ==> !(#[trigger] s[j] == ':' && s[j + 1] == ':'),
        find_double_colon(s) >= 0 ==> {
            &&& find_double_colon(s) <= s.len() - 2
            &&& s[find_double_colon(s)] == ':'
            &&& s[find_double_colon(s) + 1] == ':'
        },
        forall|j: int|
            0 <= j < find_double_colon(s) ==> !(#[trigger] s[j] == ':' && s[j + 1] == ':'),
    decreases s.len(),
{
    if s.len() < 2 {
    } else if s[0] == ':' && s[1] == ':' {
    } else {
        lemma_find_double_colon(s.drop_first());
        assert forall|j: int|
            0 <= j < s.len() - 1 && (find_double_colon(s) == -1 || j < find_double_colon(s))
            implies !(#[trigger] s[j] == ':' && s[j + 1] == ':') by {
            if j > 0 {
                assert(s.drop_first()[j - 1] == s[j]);
                assert(s.drop_first()[j] == s[j + 1]);
            }
        }
        if find_double_colon(s.drop_first()) >= 0 {
            let i = find_double_colon(s.drop_first());
            assert(s.drop_first()[i] == s[i + 1]);
            assert(s.drop_first()[i + 1] == s[i + 2]);
        }
    }
}

/// Whether every piece is a valid hexadecimal group.
pub open spec fn valid_groups(parts: Seq<Seq<char>>) -> bool {
    forall|i: int| 0 <= i < parts.len() ==> spec_hex_group(#[trigger] parts[i]) is Some
}

/// Group `i` of the address assembled from the groups left and right of a
/// `::` elision: left groups first, zeroes in the middle, right groups
/// flushed to the end.
pub open spec fn group_at(lg: Seq<Seq<char>>, rg: Seq<Seq<char>>, i: int) -> int {
    if i < lg.len() {
        spec_hex_group(lg[i])->Some_0
    } else if i >= 8 - rg.len() {
        spec_hex_group(rg[i - (8 - rg.len())])->Some_0
    } else {
        0
    }
}

/// The groups of the piece of an IPv6 address left or right of the `::`: an
/// empty piece holds no groups at all.
pub open spec fn side_groups(s: Seq<char>) -> Seq<Seq<char>> {
    if s.len() == 0 {
        Seq::empty()
    } else {
        spec_split(s, ':')
    }
}

/// The IPv6 address written in `s`: either eight colon-separated hexadecimal
/// groups, or two shorter runs of groups joined by one `::` that stands for
/// the missing zero groups.
pub open spec fn spec_ipv6(s: Seq<char>) -> Option<Ipv6Address> {
    let dc = find_double_colon(s);
    if dc < 0 {
        let parts = spec_split(s, ':');
        if parts.len() == 8 && valid_groups(parts) {
            Some(
                Ipv6Address {
                    g0: spec_hex_group(parts[0])->Some_0 as u16,
                    g1: spec_hex_group(parts[1])->Some_0 as u16,
                    g2: spec_hex_group(parts[2])->Some_0 as u16,
                    g3: spec_hex_group(parts[3])->Some_0 as u16,
                    g4: spec_hex_group(parts[4])->Some_0 as u16,
                    g5: spec_hex_group(parts[5])->Some_0 as u16,
                    g6: spec_hex_group(parts[6])->Some_0 as u16,
                    g7: spec_hex_group(parts[7])->Some_0 as u16,
                },
            )
        } else {
            None
        }
    } else {
        let lg = side_groups(s.subrange(0, dc));
        let rg = side_groups(s.subrange(dc + 2, s.len() as int));
        if valid_groups(lg) && valid_groups(rg) && lg.len() + rg.len() <= 7 {
            Some(
                Ipv6Address {
                    g0: group_at(lg, rg, 0) as u16,
                    g1: group_at(lg, rg, 1) as u16,
                    g2: group_at(lg, rg, 2) as u16,
                    g3: group_at(lg, rg, 3) as u16,
                    g4: group_at(lg, rg, 4) as u16,
                    g5: group_at(lg, rg, 5) as u16,
                    g6: group_at(lg, rg, 6) as u16,
                    g7: group_at(lg, rg, 7) as u16,
                },
            )
        } else {
            None
        }
    }
}

/// The address written in `s`: IPv4 if the dotted form fits, IPv6 otherwise.
pub open spec fn spec_ip(s: Seq<char>) -> Option<IpAddress> {
    if spec_ipv4(s) is Some {
        Some(IpAddress::V4(spec_ipv4(s)->Some_0))
    } else if spec_ipv6(s) is Some {
        Some(IpAddress::V6(spec_ipv6(s)->Some_0))
    } else {
        None
    }
}

/// The socket address written in `s`: either `v4:port`, or `[v6]:port`.
pub open spec fn spec_socket(s: Seq<char>) -> Option<SocketAddress> {
    if s.len() >= 1 && s[0] == '[' {
        let rb = find_char(s, ']');
        if rb >= 1 && rb + 1 < s.len() && s[rb + 1] == ':' {
            let ip = spec_ipv6(s.subrange(1, rb));
            let port = spec_port(s.subrange(rb + 2, s.len() as int));
            if ip is Some && port is Some {
                Some(SocketAddress { ip: IpAddress::V6(ip->Some_0), port: port->Some_0 as u16 })
            } else {
                None
            }
        } else {
            None
        }
    } else {
        let parts = spec_split(s, ':');
        if parts.len() == 2 && spec_ipv4(parts[0]) is Some && spec_port(parts[1]) is Some {
            Some(
                SocketAddress {
                    ip: IpAddress::V4(spec_ipv4(parts[0])->Some_0),
                    port: spec_port(parts[1])->Some_0 as u16,
                },
            )
        } else {
            None
        }
    }
}

/// Read one dotted-decimal octet out of a split piece.
fn parse_octet(piece: &Vec<char>) -> (r: Option<u8>)
    ensures
        match r {
            Some(value) => spec_octet(piece@) == Some(value as int),
            None => spec_octet(piece@) is None,
        },
{
    if piece.len() > 1 && piece[0] == '0' {
        return None;
    }
    match parse_decimal(piece, 0, piece.len(), 255) {
        Some(value) => {
            proof {
                assert(piece@.subrange(0, piece@.len() as int) =~= piece@);
            }
            Some(value as u8)
        },
        None => {
            proof {
                assert(piece@.subrange(0, piece@.len() as int) =~= piece@);
            }
            None
        },
    }
}

/// Parse `v[from..to]` as a dotted-decimal IPv4 address.
pub fn parse_ipv4(v: &Vec<char>, from: usize, to: usize) -> (r: Option<Ipv4Address>)
    requires
        from <= to <= v@.len(),
    ensures
        r == spec_ipv4(v@.subrange(from as int, to as int)),
{
    let ghost s = v@.subrange(from as int, to as int);
    let parts = split_seg(v, from, to, '.');
    if parts.len() != 4 {
        return None;
    }
    proof {
        assert(parts@[0]@ == parts.deep_view()[0]);
        assert(parts@[1]@ == parts.deep_view()[1]);
        assert(parts@[2]@ == parts.deep_view()[2]);
        assert(parts@[3]@ == parts.deep_view()[3]);
    }
    let o0 = match parse_octet(&parts[0]) {
        Some(x) => x,
        None => { return None; },
    };
    let o1 = match parse_octet(&parts[1]) {
        Some(x) => x,
        None => { return None; },
    };
    let o2 = match parse_octet(&parts[2]) {
        Some(x) => x,
        None => { return None; },
    };
    let o3 = match parse_octet(&parts[3]) {
        Some(x) => x,
        None => { return None; },
    };
    Some(Ipv4Address { o0, o1, o2, o3 })
}

/// Parse `v[from..to]` as a port number.
pub fn parse_port(v: &Vec<char>, from: usize, to: usize) -> (r: Option<u16>)
    requires
        from <= to <= v@.len(),
    ensures
        match r {
            Some(value) => spec_port(v@.subrange(from as int, to as int)) == Some(value as int),
            None => spec_port(v@.subrange(from as int, to as int)) is None,
        },
{
    match parse_decimal(v, from, to, 65535) {
        Some(value) => Some(value as u16),
        None => None,
    }
}

/// Read the hexadecimal groups of one side of an IPv6 address. Returns the
/// group values, or `None` when some piece is not a valid group.
fn parse_side_groups(v: &Vec<char>, from: usize, to: usize) -> (r: Option<Vec<u16>>)
    requires
        from <= to <= v@.len(),
    ensures
        match r {
            Some(groups) => {
                &&& valid_groups(side_groups(v@.subrange(from as int, to as int)))
                &&& groups@.len() == side_groups(v@.subrange(from as int, to as int)).len()
                &&& forall|i: int|
                    0 <= i < groups@.len() ==> #[trigger] groups@[i] as int == spec_hex_group(
                        side_groups(v@.subrange(from as int, to as int))[i],
                    )->Some_0
            },
            None => !valid_groups(side_groups(v@.subrange(from as int, to as int))),
        },
{
    let ghost s = v@.subrange(from as int, to as int);
    if from == to {
        proof {
            assert(side_groups(s) =~~= Seq::<Seq<char>>::empty());
        }
        return Some(Vec::new());
    }
    let parts = split_seg(v, from, to, ':');
    let mut groups: Vec<u16> = Vec::new();
    let mut i: usize = 0;
    while i < parts.len()
        invariant
            i <= parts@.len(),
            parts.deep_view() == side_groups(v@.subrange(from as int, to as int)),
            groups@.len() == i,
            forall|k: int|
                0 <= k < i ==> spec_hex_group(#[trigger] parts.deep_view()[k]) is Some,
            forall|k: int|
                0 <= k < i ==> #[trigger] groups@[k] as int == spec_hex_group(
                    parts.deep_view()[k],
                )->Some_0,
        decreases parts@.len() - i,
    {
        proof {
            assert(parts@[i as int]@ == parts.deep_view()[i as int]);
        }
        match parse_hex_group(&parts[i], 0, parts[i].len()) {
            Some(value) => {
                proof {
                    assert(parts@[i as int]@.subrange(0, parts@[i as int]@.len() as int) =~= parts@[
                        i as int
                    ]@);
                }
                groups.push(value);
            },
            None => {
                proof {
                    assert(parts@[i as int]@.subrange(0, parts@[i as int]@.len() as int) =~= parts@[
                        i as int
                    ]@);
                    assert(!valid_groups(parts.deep_view()));
                }
                return None;
            },
        }
        i = i + 1;
    }
    Some(groups)
}

/// Group `i` of an elided IPv6 address, from the parsed side groups.
fn group_value(lgv: &Vec<u16>, rgv: &Vec<u16>, i: usize) -> (r: u16)
    requires
        i < 8,
        lgv@.len() + rgv@.len() <= 7,
    ensures
        r as int == if i < lgv@.len() {
            lgv@[i as int] as int
        } else if i >= 8 - rgv@.len() {
            rgv@[i - (8 - rgv@.len())] as int
        } else {
            0
        },
{
    if i < lgv.len() {
        lgv[i]
    } else if i >= 8 - rgv.len() {
        rgv[i - (8 - rgv.len())]
    } else {
        0
    }
}

/// Parse `v[from..to]` as an IPv6 address.
pub fn parse_ipv6(v: &Vec<char>, from: usize, to: usize) -> (r: Option<Ipv6Address>)
    requires
        from <= to <= v@.len(),
    ensures
        r == spec_ipv6(v@.subrange(from as int, to as int)),
{
    let ghost s = v@.subrange(from as int, to as int);
    proof {
        lemma_find_double_colon(s);
    }
    // look for a `::`
    let mut j: usize = from;
    let mut dc: usize = to;
    let mut found = false;
    while !found && to - j > 1
        invariant
            from <= j <= to <= v@.len(),
            s == v@.subrange(from as int, to as int),
            !found ==> forall|k: int| 0 <= k < j - from ==> !(#[trigger] s[k] == ':' && s[k + 1] == ':'),
            found ==> {
                &&& from <= j && j + 1 < to
                &&& dc == j
                &&& s[(j - from) as int] == ':' && s[(j - from) + 1] == ':'
                &&& forall|k: int| 0 <= k < j - from ==> !(#[trigger] s[k] == ':' && s[k + 1] == ':')
            },
        decreases to - j + (if found { 0int } else { 1int }),
    {
        if v[j] == ':' && v[j + 1] == ':' {
            dc = j;
            found = true;
        } else {
            j = j + 1;
        }
    }
    if !found {
        proof {
            assert(find_double_colon(s) == -1);
        }
        let parts = split_seg(v, from, to, ':');
        if parts.len() != 8 {
            return None;
        }
        let mut groups: Vec<u16> = Vec::new();
        let mut i: usize = 0;
        while i < 8
            invariant
                i <= 8,
                from <= to <= v@.len(),
                s == v@.subrange(from as int, to as int),
                find_double_colon(s) == -1,
                parts@.len() == 8,
                parts.deep_view() == spec_split(s, ':'),
                groups@.len() == i,
                forall|k: int|
                    0 <= k < i ==> spec_hex_group(#[trigger] parts.deep_view()[k]) is Some,
                forall|k: int|
                    0 <= k < i ==> #[trigger] groups@[k] as int == spec_hex_group(
                        parts.deep_view()[k],
                    )->Some_0,
            decreases 8 - i,
        {
            proof {
                assert(parts@[i as int]@ == parts.deep_view()[i as int]);
            }
            match parse_hex_group(&parts[i], 0, parts[i].len()) {
                Some(value) => {
                    proof {
                        assert(parts@[i as int]@.subrange(
                            0,
                            parts@[i as int]@.len() as int,
                        ) =~= parts@[i as int]@);
                    }
                    groups.push(value);
                },
                None => {
                    proof {
                        assert(parts@[i as int]@.subrange(
                            0,
                            parts@[i as int]@.len() as int,
                        ) =~= parts@[i as int]@);
                        assert(!valid_groups(parts.deep_view()));
                    }
                    return None;
                },
            }
            i = i + 1;
        }
        proof {
            assert(valid_groups(spec_split(s, ':')));
        }
        return Some(
            Ipv6Address {
                g0: groups[0],
                g1: groups[1],
                g2: groups[2],
                g3: groups[3],
                g4: groups[4],
                g5: groups[5],
                g6: groups[6],
                g7: groups[7],
            },
        );
    }
    // `dc` is the first `::`
    proof {
        assert(find_double_colon(s) == dc - from);
        assert(s.subrange(0, (dc - from) as int) =~= v@.subrange(from as int, dc as int));
        assert(s.subrange((dc - from) + 2, s.len() as int) =~= v@.subrange(dc + 2, to as int));
    }
    let lgv = match parse_side_groups(v, from, dc) {
        Some(g) => g,
        None => { return None; },
    };
    let rgv = match parse_side_groups(v, dc + 2, to) {
        Some(g) => g,
        None => { return None; },
    };
    if lgv.len() > 7 || rgv.len() > 7 - lgv.len() {
        return None;
    }
    let ghost lg = side_groups(s.subrange(0, (dc - from) as int));
    let ghost rg = side_groups(s.subrange((dc - from) + 2, s.len() as int));
    let r = Ipv6Address {
        g0: group_value(&lgv, &rgv, 0),
        g1: group_value(&lgv, &rgv, 1),
        g2: group_value(&lgv, &rgv, 2),
        g3: group_value(&lgv, &rgv, 3),
        g4: group_value(&lgv, &rgv, 4),
        g5: group_value(&lgv, &rgv, 5),
        g6: group_value(&lgv, &rgv, 6),
        g7: group_value(&lgv, &rgv, 7),
    };
    proof {
        assert forall|i: int| 0 <= i < 8 implies group_at(lg, rg, i) == if i < lgv@.len() {
            lgv@[i] as int
        } else if i >= 8 - rgv@.len() {
            rgv@[i - (8 - rgv@.len())] as int
        } else {
            0
        } by {}
    }
    Some(r)
}

/// Parse `v[from..to]` as an IP address, trying the IPv4 form first.
pub fn parse_ip(v: &Vec<char>, from: usize, to: usize) -> (r: Option<IpAddress>)
    requires
        from <= to <= v@.len(),
    ensures
        r == spec_ip(v@.subrange(from as int, to as int)),
{
    match parse_ipv4(v, from, to) {
        Some(ip) => Some(IpAddress::V4(ip)),
        None => match parse_ipv6(v, from, to) {
            Some(ip) => Some(IpAddress::V6(ip)),
            None => None,
        },
    }
}

/// Parse `v[from..to]` as a socket address.
pub fn parse_socket(v: &Vec<char>, from: usize, to: usize) -> (r: Option<SocketAddress>)
    requires
        from <= to <= v@.len(),
    ensures
        r == spec_socket(v@.subrange(from as int, to as int)),
{
    let ghost s = v@.subrange(from as int, to as int);
    if to > from && v[from] == '[' {
        proof {
            lemma_find_char(s, ']');
        }
        // find the first closing bracket
        let mut j: usize = from;
        while j < to && v[j] != ']'
            invariant
                from <= j <= to <= v@.len(),
                s == v@.subrange(from as int, to as int),
                forall|k: int| 0 <= k < j - from ==> s[k] != ']',
            decreases to - j,
        {
            j = j + 1;
        }
        if j == to {
            proof {
                assert(find_char(s, ']') == -1);
            }
            return None;
        }
        proof {
            assert(s[(j - from) as int] == ']');
            assert(find_char(s, ']') == j - from);
        }
        if j == from || j + 1 >= to {
            return None;
        }
        if v[j + 1] != ':' {
            return None;
        }
        proof {
            assert(s.subrange(1, (j - from) as int) =~= v@.subrange(from + 1, j as int));
            assert(s.subrange((j - from) + 2, s.len() as int) =~= v@.subrange(j + 2, to as int));
        }
        let ip = match parse_ipv6(v, from + 1, j) {
            Some(ip) => ip,
            None => { return None; },
        };
        let port = match parse_port(v, j + 2, to) {
            Some(p) => p,
            None => { return None; },
        };
        Some(SocketAddress { ip: IpAddress::V6(ip), port })
    } else {
        let parts = split_seg(v, from, to, ':');
        if parts.len() != 2 {
            return None;
        }
        proof {
            assert(parts@[0]@ == parts.deep_view()[0]);
            assert(parts@[1]@ == parts.deep_view()[1]);
        }
        let ip = match parse_ipv4(&parts[0], 0, parts[0].len()) {
            Some(ip) => {
                proof {
                    assert(parts@[0]@.subrange(0, parts@[0]@.len() as int) =~= parts@[0]@);
                }
                ip
            },
            None => {
                proof {
                    assert(parts@[0]@.subrange(0, parts@[0]@.len() as int) =~= parts@[0]@);
                }
                return None;
            },
        };
        let port = match parse_port(&parts[1], 0, parts[1].len()) {
            Some(p) => {
                proof {
                    assert(parts@[1]@.subrange(0, parts@[1]@.len() as int) =~= parts@[1]@);
                }
                p
            },
            None => {
                proof {
                    assert(parts@[1]@.subrange(0, parts@[1]@.len() as int) =~= parts@[1]@);
                }
                return None;
            },
        };
        Some(SocketAddress { ip: IpAddress::V4(ip), port })
    }
}

} // verus!
