//! Textual IP addresses. The library keeps addresses as plain numeric
//! fields, renders them into the canonical text that the record protocol
//! carries, and parses the text that the IP sources return.
//!
//! The accepted grammar: an IPv4 address is four decimal octets without
//! leading zeros, separated by dots; an IPv6 address is up to eight groups of
//! at most four hexadecimal digits separated by colons, with at most one `::`
//! standing for the missing zero groups, and possibly ending in an embedded
//! dotted-quad that stands for the last two groups. Rendering uses the
//! dotted-quad form for IPv4 and the uncompressed lower-case form for IPv6.

use vstd::prelude::*;
use vstd::slice::slice_subrange;

use crate::text::{append_char, append_decimal, append_hex, decimal_digit, hex_digit, spec_decimal,
    spec_hex};

verus! {

/// One IP address, by numeric value.
#[derive(Debug, Clone, Copy, PartialEq, Eq, Structural)]
pub enum IpAddress {
    V4 { a: u8, b: u8, c: u8, d: u8 },
    V6 { g0: u16, g1: u16, g2: u16, g3: u16, g4: u16, g5: u16, g6: u16, g7: u16 },
}

impl IpAddress {
    /// Whether this is an IPv6 address.
    pub fn is_ipv6(&self) -> (r: bool)
        ensures
            r == (self is V6),
    {
        match self {
            IpAddress::V4 { .. } => false,
            IpAddress::V6 { .. } => true,
        }
    }

    /// The loopback address: `127.0.0.1` or `::1`.
    pub open spec fn spec_is_loopback(self) -> bool {
        match self {
            IpAddress::V4 { a, b, c, d } => a == 127 && b == 0 && c == 0 && d == 1,
            IpAddress::V6 { g0, g1, g2, g3, g4, g5, g6, g7 } => g0 == 0 && g1 == 0 && g2 == 0
                && g3 == 0 && g4 == 0 && g5 == 0 && g6 == 0 && g7 == 1,
        }
    }

    /// Whether this is the loopback address.
    pub fn is_loopback(&self) -> (r: bool)
        ensures
            r == self.spec_is_loopback(),
    {
        match self {
            IpAddress::V4 { a, b, c, d } => *a == 127 && *b == 0 && *c == 0 && *d == 1,
            IpAddress::V6 { g0, g1, g2, g3, g4, g5, g6, g7 } => *g0 == 0 && *g1 == 0 && *g2 == 0
                && *g3 == 0 && *g4 == 0 && *g5 == 0 && *g6 == 0 && *g7 == 1,
        }
    }

    /// The unspecified address: `0.0.0.0` or `::`.
    pub open spec fn spec_is_unspecified(self) -> bool {
        match self {
            IpAddress::V4 { a, b, c, d } => a == 0 && b == 0 && c == 0 && d == 0,
            IpAddress::V6 { g0, g1, g2, g3, g4, g5, g6, g7 } => g0 == 0 && g1 == 0 && g2 == 0
                && g3 == 0 && g4 == 0 && g5 == 0 && g6 == 0 && g7 == 0,
        }
    }

    /// Whether this is the unspecified address.
    pub fn is_unspecified(&self) -> (r: bool)
        ensures
            r == self.spec_is_unspecified(),
    {
        match self {
            IpAddress::V4 { a, b, c, d } => *a == 0 && *b == 0 && *c == 0 && *d == 0,
            IpAddress::V6 { g0, g1, g2, g3, g4, g5, g6, g7 } => *g0 == 0 && *g1 == 0 && *g2 == 0
                && *g3 == 0 && *g4 == 0 && *g5 == 0 && *g6 == 0 && *g7 == 0,
        }
    }

    /// A multicast address: `224.0.0.0/4` or `ff00::/8`.
    pub open spec fn spec_is_multicast(self) -> bool {
        match self {
            IpAddress::V4 { a, .. } => 224 <= a && a < 240,
            IpAddress::V6 { g0, .. } => 0xff00 <= g0,
        }
    }

    /// Whether this is a multicast address.
    pub fn is_multicast(&self) -> (r: bool)
        ensures
            r == self.spec_is_multicast(),
    {
        match self {
            IpAddress::V4 { a, .. } => 224 <= *a && *a < 240,
            IpAddress::V6 { g0, .. } => 0xff00 <= *g0,
        }
    }

    /// A unicast link-local IPv6 address: `fe80::/10`.
    pub open spec fn spec_is_unicast_link_local(self) -> bool {
        match self {
            IpAddress::V4 { .. } => false,
            IpAddress::V6 { g0, .. } => 0xfe80 <= g0 && g0 <= 0xfebf,
        }
    }

    /// Whether this is a unicast link-local IPv6 address.
    pub fn is_unicast_link_local(&self) -> (r: bool)
        ensures
            r == self.spec_is_unicast_link_local(),
    {
        match self {
            IpAddress::V4 { .. } => false,
            IpAddress::V6 { g0, .. } => 0xfe80 <= *g0 && *g0 <= 0xfebf,
        }
    }

    /// A unique-local IPv6 address: `fc00::/7`.
    pub open spec fn spec_is_unique_local(self) -> bool {
        match self {
            IpAddress::V4 { .. } => false,
            IpAddress::V6 { g0, .. } => 0xfc00 <= g0 && g0 <= 0xfdff,
        }
    }

    /// Whether this is a unique-local IPv6 address.
    pub fn is_unique_local(&self) -> (r: bool)
        ensures
            r == self.spec_is_unique_local(),
    {
        match self {
            IpAddress::V4 { .. } => false,
            IpAddress::V6 { g0, .. } => 0xfc00 <= *g0 && *g0 <= 0xfdff,
        }
    }
}

/// The rendered text of an address.
pub open spec fn ip_chars(ip: IpAddress) -> Seq<char> {
    match ip {
        IpAddress::V4 { a, b, c, d } => spec_decimal(a as nat) + seq!['.'] + spec_decimal(b as nat)
            + seq!['.'] + spec_decimal(c as nat) + seq!['.'] + spec_decimal(d as nat),
        IpAddress::V6 { g0, g1, g2, g3, g4, g5, g6, g7 } => spec_hex(g0 as nat) + seq![':']
            + spec_hex(g1 as nat) + seq![':'] + spec_hex(g2 as nat) + seq![':']
            + spec_hex(g3 as nat) + seq![':'] + spec_hex(g4 as nat) + seq![':']
            + spec_hex(g5 as nat) + seq![':'] + spec_hex(g6 as nat) + seq![':']
            + spec_hex(g7 as nat),
    }
}

/// Renders an address.
pub fn ip_string(ip: &IpAddress) -> (s: String)
    ensures
        s@ == ip_chars(*ip),
{
    let mut s = String::new();
    match ip {
        IpAddress::V4 { a, b, c, d } => {
            append_decimal(&mut s, *a as u64);
            append_char(&mut s, '.');
            append_decimal(&mut s, *b as u64);
            append_char(&mut s, '.');
            append_decimal(&mut s, *c as u64);
            append_char(&mut s, '.');
            append_decimal(&mut s, *d as u64);
        },
        IpAddress::V6 { g0, g1, g2, g3, g4, g5, g6, g7 } => {
            append_hex(&mut s, *g0);
            append_char(&mut s, ':');
            append_hex(&mut s, *g1);
            append_char(&mut s, ':');
            append_hex(&mut s, *g2);
            append_char(&mut s, ':');
            append_hex(&mut s, *g3);
            append_char(&mut s, ':');
            append_hex(&mut s, *g4);
            append_char(&mut s, ':');
            append_hex(&mut s, *g5);
            append_char(&mut s, ':');
            append_hex(&mut s, *g6);
            append_char(&mut s, ':');
            append_hex(&mut s, *g7);
        },
    }
    assert(s@ =~= ip_chars(*ip));
    s
}

/// An ASCII decimal digit.
pub open spec fn is_digit(b: u8) -> bool {
    48 <= b && b <= 57
}

/// The value of a decimal digit; zero on any other byte.
pub open spec fn digit_value(b: u8) -> nat {
    if is_digit(b) {
        (b - 48) as nat
    } else {
        0
    }
}

/// An ASCII hexadecimal digit, in either case.
pub open spec fn is_hex(b: u8) -> bool {
    is_digit(b) || (97 <= b && b <= 102) || (65 <= b && b <= 70)
}

/// The value of a hexadecimal digit; zero on any other byte.
pub open spec fn hex_value(b: u8) -> nat {
    if is_digit(b) {
        (b - 48) as nat
    } else if 97 <= b && b <= 102 {
        (b - 87) as nat
    } else if 65 <= b && b <= 70 {
        (b - 55) as nat
    } else {
        0
    }
}

/// Where the run of decimal digits that starts at `i` ends.
pub open spec fn digit_run_end(s: Seq<u8>, i: int) -> int
    decreases s.len() - i
        when 0 <= i <= s.len()
{
    if i < s.len() && is_digit(s[i]) {
        digit_run_end(s, i + 1)
    } else {
        i
    }
}

/// Where the run of hexadecimal digits that starts at `i` ends.
pub open spec fn hex_run_end(s: Seq<u8>, i: int) -> int
    decreases s.len() - i
        when 0 <= i <= s.len()
{
    if i < s.len() && is_hex(s[i]) {
        hex_run_end(s, i + 1)
    } else {
        i
    }
}

/// The decimal value of `s[i..e]`, folded onto `acc`.
pub open spec fn dec_fold(s: Seq<u8>, i: int, e: int, acc: nat) -> nat
    decreases e - i
        when i <= e
{
    if i >= e {
        acc
    } else {
        dec_fold(s, i + 1, e, acc * 10 + digit_value(s[i]))
    }
}

/// The hexadecimal value of `s[i..e]`, folded onto `acc`.
pub open spec fn hex_fold(s: Seq<u8>, i: int, e: int, acc: nat) -> nat
    decreases e - i
        when i <= e
{
    if i >= e {
        acc
    } else {
        hex_fold(s, i + 1, e, acc * 16 + hex_value(s[i]))
    }
}

/// A well-formed decimal octet at `s[i..e]`: non-empty, at most three
/// digits, no leading zero, value at most 255.
pub open spec fn valid_octet(s: Seq<u8>, i: int, e: int) -> bool {
    &&& i < e <= s.len()
    &&& e - i <= 3
    &&& (s[i] == 48 ==> e == i + 1)
    &&& dec_fold(s, i, e, 0) <= 255
}

/// The parse of a whole dotted-quad IPv4 address.
pub open spec fn spec_parse_ipv4(s: Seq<u8>) -> Option<IpAddress> {
    let e0 = digit_run_end(s, 0);
    if valid_octet(s, 0, e0) && e0 < s.len() && s[e0] == 46 {
        let i1 = e0 + 1;
        let e1 = digit_run_end(s, i1);
        if valid_octet(s, i1, e1) && e1 < s.len() && s[e1] == 46 {
            let i2 = e1 + 1;
            let e2 = digit_run_end(s, i2);
            if valid_octet(s, i2, e2) && e2 < s.len() && s[e2] == 46 {
                let i3 = e2 + 1;
                let e3 = digit_run_end(s, i3);
                if valid_octet(s, i3, e3) && e3 == s.len() {
                    Some(
                        IpAddress::V4 {
                            a: dec_fold(s, 0, e0, 0) as u8,
                            b: dec_fold(s, i1, e1, 0) as u8,
                            c: dec_fold(s, i2, e2, 0) as u8,
                            d: dec_fold(s, i3, e3, 0) as u8,
                        },
                    )
                } else {
                    None
                }
            } else {
                None
            }
        } else {
            None
        }
    } else {
        None
    }
}

/// The parse of a colon-separated list of hexadecimal groups covering all of
/// `s[i..]`: each group has one to four digits.
pub open spec fn spec_parse_groups(s: Seq<u8>, i: int) -> Option<Seq<u16>>
    decreases s.len() - i
        when 0 <= i <= s.len()
{
    let e = hex_run_end(s, i);
    if !(i < e && e - i <= 4 && e <= s.len()) {
        None
    } else {
        let g = hex_fold(s, i, e, 0) as u16;
        if e == s.len() {
            Some(seq![g])
        } else if s[e] == 58 {
            match spec_parse_groups(s, e + 1) {
                Some(rest) => Some(seq![g] + rest),
                None => None,
            }
        } else {
            None
        }
    }
}

/// The parse of a colon-separated list of hexadecimal groups covering all
/// of `s[i..]`, where the list may end in an embedded dotted-quad standing
/// for the last two groups.
pub open spec fn spec_parse_groups_v4(s: Seq<u8>, i: int) -> Option<Seq<u16>>
    decreases s.len() - i
        when 0 <= i <= s.len()
{
    let e = hex_run_end(s, i);
    if !(i < e && e - i <= 4 && e <= s.len()) {
        None
    } else if e < s.len() && s[e] == 46 {
        match spec_parse_ipv4(s.subrange(i, s.len() as int)) {
            Some(IpAddress::V4 { a, b, c, d }) => Some(
                seq![
                    ((a as int) * 256 + (b as int)) as u16,
                    ((c as int) * 256 + (d as int)) as u16,
                ],
            ),
            _ => None,
        }
    } else {
        let g = hex_fold(s, i, e, 0) as u16;
        if e == s.len() {
            Some(seq![g])
        } else if s[e] == 58 {
            match spec_parse_groups_v4(s, e + 1) {
                Some(rest) => Some(seq![g] + rest),
                None => None,
            }
        } else {
            None
        }
    }
}

/// The first position at or after `i` where two colons stand next to each
/// other.
pub open spec fn find_double_colon(s: Seq<u8>, i: int) -> Option<int>
    decreases s.len() - i
        when 0 <= i <= s.len()
{
    if i + 1 >= s.len() {
        None
    } else if s[i] == 58 && s[i + 1] == 58 {
        Some(i)
    } else {
        find_double_colon(s, i + 1)
    }
}

/// Eight groups out of the parts on each side of a `::`, filled with zero
/// groups in the middle.
pub open spec fn fill_groups(left: Seq<u16>, right: Seq<u16>) -> Seq<u16>
    recommends
        left.len() + right.len() <= 7,
{
    left + Seq::new((8 - left.len() - right.len()) as nat, |k: int| 0u16) + right
}

/// An address out of exactly eight groups.
pub open spec fn groups_address(g: Seq<u16>) -> IpAddress
    recommends
        g.len() == 8,
{
    IpAddress::V6 {
        g0: g[0],
        g1: g[1],
        g2: g[2],
        g3: g[3],
        g4: g[4],
        g5: g[5],
        g6: g[6],
        g7: g[7],
    }
}

/// The parse of a whole IPv6 address: either eight plain groups, or a
/// single `::` with at most seven groups around it; the last two groups may
/// stand as an embedded dotted-quad.
pub open spec fn spec_parse_ipv6(s: Seq<u8>) -> Option<IpAddress> {
    match find_double_colon(s, 0) {
        None => match spec_parse_groups_v4(s, 0) {
            Some(gs) => if gs.len() == 8 {
                Some(groups_address(gs))
            } else {
                None
            },
            None => None,
        },
        Some(p) => {
            let left = s.subrange(0, p);
            let right = s.subrange(p + 2, s.len() as int);
            let lg = if left.len() == 0 {
                Some(Seq::<u16>::empty())
            } else {
                spec_parse_groups(left, 0)
            };
            let rg = if right.len() == 0 {
                Some(Seq::<u16>::empty())
            } else {
                spec_parse_groups_v4(right, 0)
            };
            match (lg, rg) {
                (Some(l), Some(r)) => if l.len() + r.len() <= 7 {
                    Some(groups_address(fill_groups(l, r)))
                } else {
                    None
                },
                _ => None,
            }
        },
    }
}

/// The parse of a whole address, trying the IPv4 form first.
pub open spec fn spec_parse_ip(s: Seq<u8>) -> Option<IpAddress> {
    match spec_parse_ipv4(s) {
        Some(a) => Some(a),
        None => spec_parse_ipv6(s),
    }
}

/// Whether a byte is ASCII whitespace.
pub open spec fn is_space(b: u8) -> bool {
    b == 32 || b == 9 || b == 10 || b == 13 || b == 11 || b == 12
}

/// Where the leading whitespace of `s[i..]` ends.
pub open spec fn skip_space_start(s: Seq<u8>, i: int) -> int
    decreases s.len() - i
        when 0 <= i <= s.len()
{
    if i < s.len() && is_space(s[i]) {
        skip_space_start(s, i + 1)
    } else {
        i
    }
}

/// Where the trailing whitespace of `s[..e]` begins.
pub open spec fn skip_space_end(s: Seq<u8>, e: int) -> int
    decreases e
        when 0 <= e <= s.len()
{
    if e > 0 && is_space(s[e - 1]) {
        skip_space_end(s, e - 1)
    } else {
        e
    }
}

/// `s` without leading and trailing ASCII whitespace.
pub open spec fn spec_trimmed(s: Seq<u8>) -> Seq<u8> {
    let lo = skip_space_start(s, 0);
    let hi = skip_space_end(s, s.len() as int);
    if lo <= hi {
        s.subrange(lo, hi)
    } else {
        Seq::empty()
    }
}

fn is_digit_exec(b: u8) -> (r: bool)
    ensures
        r == is_digit(b),
{
    48 <= b && b <= 57
}

fn is_hex_exec(b: u8) -> (r: bool)
    ensures
        r == is_hex(b),
{
    (48 <= b && b <= 57) || (97 <= b && b <= 102) || (65 <= b && b <= 70)
}

fn digit_run_end_exec(s: &[u8], i: usize) -> (e: usize)
    requires
        i <= s@.len(),
    ensures
        e == digit_run_end(s@, i as int),
        i <= e <= s@.len(),
{
    let mut k = i;
    while k < s.len() && is_digit_exec(s[k])
        invariant
            i <= k <= s@.len(),
            digit_run_end(s@, i as int) == digit_run_end(s@, k as int),
        decreases s@.len() - k,
    {
        k = k + 1;
    }
    k
}

fn hex_run_end_exec(s: &[u8], i: usize) -> (e: usize)
    requires
        i <= s@.len(),
    ensures
        e == hex_run_end(s@, i as int),
        i <= e <= s@.len(),
{
    let mut k = i;
    while k < s.len() && is_hex_exec(s[k])
        invariant
            i <= k <= s@.len(),
            hex_run_end(s@, i as int) == hex_run_end(s@, k as int),
        decreases s@.len() - k,
    {
        k = k + 1;
    }
    k
}

fn dec_fold_exec(s: &[u8], i: usize, e: usize) -> (v: u64)
    requires
        i <= e <= s@.len(),
        e - i <= 4,
    ensures
        v == dec_fold(s@, i as int, e as int, 0),
        v < 10000,
{
    let mut k = i;
    let mut acc: u64 = 0;
    while k < e
        invariant
            i <= k <= e <= s@.len(),
            e - i <= 4,
            dec_fold(s@, i as int, e as int, 0) == dec_fold(s@, k as int, e as int, acc as nat),
            k - i == 0 ==> acc == 0,
            k - i == 1 ==> acc < 10,
            k - i == 2 ==> acc < 100,
            k - i == 3 ==> acc < 1000,
            k - i == 4 ==> acc < 10000,
        decreases e - k,
    {
        let b = s[k];
        let d: u64 = if 48 <= b && b <= 57 {
            (b - 48) as u64
        } else {
            0
        };
        acc = acc * 10 + d;
        k = k + 1;
    }
    acc
}

fn hex_fold_exec(s: &[u8], i: usize, e: usize) -> (v: u64)
    requires
        i <= e <= s@.len(),
        e - i <= 4,
    ensures
        v == hex_fold(s@, i as int, e as int, 0),
        v < 0x10000,
{
    let mut k = i;
    let mut acc: u64 = 0;
    while k < e
        invariant
            i <= k <= e <= s@.len(),
            e - i <= 4,
            hex_fold(s@, i as int, e as int, 0) == hex_fold(s@, k as int, e as int, acc as nat),
            k - i == 0 ==> acc == 0,
            k - i == 1 ==> acc < 16,
            k - i == 2 ==> acc < 256,
            k - i == 3 ==> acc < 4096,
            k - i == 4 ==> acc < 0x10000,
        decreases e - k,
    {
        let b = s[k];
        let d: u64 = if 48 <= b && b <= 57 {
            (b - 48) as u64
        } else if 97 <= b && b <= 102 {
            (b - 87) as u64
        } else if 65 <= b && b <= 70 {
            (b - 55) as u64
        } else {
            0
        };
        acc = acc * 16 + d;
        k = k + 1;
    }
    acc
}

/// Reads the octet at `s[i..e]`; `None` unless it is well formed.
fn read_octet(s: &[u8], i: usize, e: usize) -> (r: Option<u8>)
    requires
        i <= e <= s@.len(),
    ensures
        valid_octet(s@, i as int, e as int) ==> r == Some(dec_fold(s@, i as int, e as int, 0) as u8),
        !valid_octet(s@, i as int, e as int) ==> r is None,
{
    if i < e && e - i <= 3 && (s[i] != 48 || e == i + 1) {
        let v = dec_fold_exec(s, i, e);
        if v <= 255 {
            Some(v as u8)
        } else {
            None
        }
    } else {
        None
    }
}

/// Parses a dotted-quad IPv4 address.
pub fn parse_ipv4(s: &[u8]) -> (r: Option<IpAddress>)
    ensures
        r == spec_parse_ipv4(s@),
{
    let e0 = digit_run_end_exec(s, 0);
    let o0 = read_octet(s, 0, e0);
    match o0 {
        None => None,
        Some(a) => {
            if !(e0 < s.len() && s[e0] == 46) {
                return None;
            }
            let i1 = e0 + 1;
            let e1 = digit_run_end_exec(s, i1);
            let o1 = read_octet(s, i1, e1);
            match o1 {
                None => None,
                Some(b) => {
                    if !(e1 < s.len() && s[e1] == 46) {
                        return None;
                    }
                    let i2 = e1 + 1;
                    let e2 = digit_run_end_exec(s, i2);
                    let o2 = read_octet(s, i2, e2);
                    match o2 {
                        None => None,
                        Some(c) => {
                            if !(e2 < s.len() && s[e2] == 46) {
                                return None;
                            }
                            let i3 = e2 + 1;
                            let e3 = digit_run_end_exec(s, i3);
                            let o3 = read_octet(s, i3, e3);
                            match o3 {
                                None => None,
                                Some(d) => {
                                    if e3 == s.len() {
                                        Some(IpAddress::V4 { a, b, c, d })
                                    } else {
                                        None
                                    }
                                },
                            }
                        },
                    }
                },
            }
        },
    }
}

/// Parses a colon-separated group list covering all of `s[i..]`.
fn parse_groups(s: &[u8], i: usize) -> (r: Option<Vec<u16>>)
    requires
        i <= s@.len(),
    ensures
        match r {
            Some(gs) => spec_parse_groups(s@, i as int) == Some(gs@),
            None => spec_parse_groups(s@, i as int) is None,
        },
    decreases s@.len() - i,
{
    let e = hex_run_end_exec(s, i);
    if !(i < e && e - i <= 4 && e <= s.len()) {
        return None;
    }
    let g = hex_fold_exec(s, i, e) as u16;
    if e == s.len() {
        let mut gs: Vec<u16> = Vec::new();
        gs.push(g);
        assert(gs@ =~= seq![g]);
        Some(gs)
    } else if s[e] == 58 {
        match parse_groups(s, e + 1) {
            Some(mut rest) => {
                let ghost tail = rest@;
                rest.insert(0, g);
                assert(rest@ =~= seq![g] + tail);
                Some(rest)
            },
            None => None,
        }
    } else {
        None
    }
}

/// Parses a colon-separated group list covering all of `s[i..]`, allowing
/// an embedded dotted-quad at the end.
fn parse_groups_v4(s: &[u8], i: usize) -> (r: Option<Vec<u16>>)
    requires
        i <= s@.len(),
    ensures
        match r {
            Some(gs) => spec_parse_groups_v4(s@, i as int) == Some(gs@),
            None => spec_parse_groups_v4(s@, i as int) is None,
        },
    decreases s@.len() - i,
{
    let e = hex_run_end_exec(s, i);
    if !(i < e && e - i <= 4 && e <= s.len()) {
        return None;
    }
    if e < s.len() && s[e] == 46 {
        let rest = slice_subrange(s, i, s.len());
        return match parse_ipv4(rest) {
            Some(IpAddress::V4 { a, b, c, d }) => {
                let hi: u16 = (a as u16) * 256 + (b as u16);
                let lo: u16 = (c as u16) * 256 + (d as u16);
                let mut gs: Vec<u16> = Vec::new();
                gs.push(hi);
                gs.push(lo);
                assert(gs@ =~= seq![hi, lo]);
                Some(gs)
            },
            _ => None,
        };
    }
    let g = hex_fold_exec(s, i, e) as u16;
    if e == s.len() {
        let mut gs: Vec<u16> = Vec::new();
        gs.push(g);
        assert(gs@ =~= seq![g]);
        Some(gs)
    } else if s[e] == 58 {
        match parse_groups_v4(s, e + 1) {
            Some(mut rest) => {
                let ghost tail = rest@;
                rest.insert(0, g);
                assert(rest@ =~= seq![g] + tail);
                Some(rest)
            },
            None => None,
        }
    } else {
        None
    }
}

fn find_double_colon_exec(s: &[u8]) -> (r: Option<usize>)
    ensures
        match r {
            Some(p) => find_double_colon(s@, 0) == Some(p as int) && p + 2 <= s@.len(),
            None => find_double_colon(s@, 0) is None,
        },
{
    let mut k: usize = 0;
    loop
        invariant
            k <= s@.len(),
            find_double_colon(s@, 0) == find_double_colon(s@, k as int),
        decreases s@.len() - k,
    {
        if s.len() - k <= 1 {
            return None;
        }
        if s[k] == 58 && s[k + 1] == 58 {
            return Some(k);
        }
        k = k + 1;
    }
}

/// Parses an IPv6 address.
pub fn parse_ipv6(s: &[u8]) -> (r: Option<IpAddress>)
    ensures
        r == spec_parse_ipv6(s@),
{
    match find_double_colon_exec(s) {
        None => {
            match parse_groups_v4(s, 0) {
                Some(gs) => {
                    if gs.len() == 8 {
                        Some(
                            IpAddress::V6 {
                                g0: gs[0],
                                g1: gs[1],
                                g2: gs[2],
                                g3: gs[3],
                                g4: gs[4],
                                g5: gs[5],
                                g6: gs[6],
                                g7: gs[7],
                            },
                        )
                    } else {
                        None
                    }
                },
                None => None,
            }
        },
        Some(p) => {
            let n = s.len();
            assert(p + 2 <= n);
            let left = slice_subrange(s, 0, p);
            let right = slice_subrange(s, p + 2, n);
            let lg = if left.len() == 0 {
                Some(Vec::<u16>::new())
            } else {
                parse_groups(left, 0)
            };
            let rg = if right.len() == 0 {
                Some(Vec::<u16>::new())
            } else {
                parse_groups_v4(right, 0)
            };
            match (lg, rg) {
                (Some(l), Some(r)) => {
                    if l.len() <= 7 && r.len() <= 7 - l.len() {
                        let mut gs: Vec<u16> = Vec::new();
                        let mut k: usize = 0;
                        while k < l.len()
                            invariant
                                k <= l@.len(),
                                gs@ =~= l@.subrange(0, k as int),
                            decreases l@.len() - k,
                        {
                            gs.push(l[k]);
                            k = k + 1;
                        }
                        let zeros: usize = 8 - l.len() - r.len();
                        let mut z: usize = 0;
                        while z < zeros
                            invariant
                                z <= zeros,
                                zeros == 8 - l@.len() - r@.len(),
                                l@.len() + r@.len() <= 7,
                                gs@ =~= l@ + Seq::new(z as nat, |k: int| 0u16),
                            decreases zeros - z,
                        {
                            gs.push(0);
                            assert(gs@ =~= l@ + Seq::new((z + 1) as nat, |k: int| 0u16));
                            z = z + 1;
                        }
                        let mut j: usize = 0;
                        while j < r.len()
                            invariant
                                j <= r@.len(),
                                l@.len() + r@.len() <= 7,
                                gs@ =~= l@ + Seq::new((8 - l@.len() - r@.len()) as nat, |k: int| 0u16)
                                    + r@.subrange(0, j as int),
                            decreases r@.len() - j,
                        {
                            gs.push(r[j]);
                            j = j + 1;
                        }
                        assert(gs@ =~= fill_groups(l@, r@));
                        Some(
                            IpAddress::V6 {
                                g0: gs[0],
                                g1: gs[1],
                                g2: gs[2],
                                g3: gs[3],
                                g4: gs[4],
                                g5: gs[5],
                                g6: gs[6],
                                g7: gs[7],
                            },
                        )
                    } else {
                        None
                    }
                },
                _ => None,
            }
        },
    }
}

/// Parses an address in either form.
pub fn parse_ip(s: &[u8]) -> (r: Option<IpAddress>)
    ensures
        r == spec_parse_ip(s@),
{
    match parse_ipv4(s) {
        Some(a) => Some(a),
        None => parse_ipv6(s),
    }
}

/// Removes leading and trailing ASCII whitespace.
pub fn trimmed(s: &[u8]) -> (t: &[u8])
    ensures
        t@ == spec_trimmed(s@),
{
    let mut lo: usize = 0;
    while lo < s.len() && is_space_exec(s[lo])
        invariant
            lo <= s@.len(),
            skip_space_start(s@, 0) == skip_space_start(s@, lo as int),
        decreases s@.len() - lo,
    {
        lo = lo + 1;
    }
    let mut hi: usize = s.len();
    while hi > 0 && is_space_exec(s[hi - 1])
        invariant
            hi <= s@.len(),
            skip_space_end(s@, s@.len() as int) == skip_space_end(s@, hi as int),
        decreases hi,
    {
        hi = hi - 1;
    }
    if lo <= hi {
        slice_subrange(s, lo, hi)
    } else {
        slice_subrange(s, 0, 0)
    }
}

fn is_space_exec(b: u8) -> (r: bool)
    ensures
        r == is_space(b),
{
    b == 32 || b == 9 || b == 10 || b == 13 || b == 11 || b == 12
}

/// The rendered text, as the bytes the parser reads.
pub open spec fn ascii_bytes(s: Seq<char>) -> Seq<u8> {
    s.map(|_i: int, c: char| c as u8)
}

/// The decimal rendering of `n`, directly as bytes.
spec fn dec_bytes(n: nat) -> Seq<u8>
    decreases n,
{
    if n < 10 {
        seq![(48 + n) as u8]
    } else {
        dec_bytes(n / 10).push((48 + n % 10) as u8)
    }
}

/// The byte rendering is the character rendering, byte for byte.
proof fn lemma_dec_bytes_is_mapped(n: nat)
    ensures
        ascii_bytes(spec_decimal(n)) =~= dec_bytes(n),
    decreases n,
{
    if n < 10 {
    } else {
        lemma_dec_bytes_is_mapped(n / 10);
        assert(ascii_bytes(spec_decimal(n / 10).push(decimal_digit(n % 10))) =~= ascii_bytes(
            spec_decimal(n / 10),
        ).push((48 + n % 10) as u8));
    }
}

/// The shape of a decimal rendering: digits only, no leading zero unless the
/// number is zero, and a length following the magnitude.
proof fn lemma_dec_bytes_shape(n: nat)
    ensures
        dec_bytes(n).len() >= 1,
        forall|k: int| 0 <= k < dec_bytes(n).len() ==> is_digit(#[trigger] dec_bytes(n)[k]),
        (dec_bytes(n)[0] == 48) == (n == 0),
        n < 10 ==> dec_bytes(n).len() == 1,
        n < 100 ==> dec_bytes(n).len() <= 2,
        n < 1000 ==> dec_bytes(n).len() <= 3,
    decreases n,
{
    if n < 10 {
    } else {
        lemma_dec_bytes_shape(n / 10);
    }
}

/// Folding one more digit multiplies the value so far by ten.
proof fn lemma_dec_fold_snoc(s: Seq<u8>, i: int, e: int, acc: nat)
    requires
        0 <= i < e,
    ensures
        dec_fold(s, i, e, acc) == dec_fold(s, i, e - 1, acc) * 10 + digit_value(s[e - 1]),
    decreases e - i,
{
    if e - i == 1 {
        assert(dec_fold(s, i + 1, e, acc * 10 + digit_value(s[i])) == acc * 10 + digit_value(
            s[i],
        ));
    } else {
        lemma_dec_fold_snoc(s, i + 1, e, acc * 10 + digit_value(s[i]));
    }
}

/// Folding the decimal rendering of `n` gives `n` back.
proof fn lemma_dec_fold_of_render(s: Seq<u8>, i: int, n: nat)
    requires
        0 <= i,
        i + dec_bytes(n).len() <= s.len(),
        s.subrange(i, i + dec_bytes(n).len() as int) == dec_bytes(n),
    ensures
        dec_fold(s, i, i + dec_bytes(n).len() as int, 0) == n,
    decreases n,
{
    let t = dec_bytes(n);
    let e = i + t.len() as int;
    assert(forall|k: int| 0 <= k < t.len() ==> s[i + k] == #[trigger] t[k]);
    if n < 10 {
        assert(s[i] == t[0]);
        assert(dec_fold(s, i + 1, e, digit_value(s[i])) == digit_value(s[i]));
    } else {
        lemma_dec_fold_snoc(s, i, e, 0);
        assert(s[e - 1] == t[t.len() - 1]);
        assert(t.len() == dec_bytes(n / 10).len() + 1);
        assert(s.subrange(i, e - 1) =~= dec_bytes(n / 10));
        lemma_dec_fold_of_render(s, i, n / 10);
    }
}

/// A run of digits closed off by a non-digit ends exactly there.
proof fn lemma_digit_run(s: Seq<u8>, i: int, e: int)
    requires
        0 <= i <= e <= s.len(),
        forall|k: int| i <= k < e ==> is_digit(#[trigger] s[k]),
        e == s.len() || !is_digit(s[e]),
    ensures
        digit_run_end(s, i) == e,
    decreases e - i,
{
    if i < e {
        lemma_digit_run(s, i + 1, e);
    }
}

/// One rendered octet, standing at `i` and closed off by a non-digit, reads
/// back as itself.
proof fn lemma_octet_reads_back(s: Seq<u8>, i: int, n: nat)
    requires
        0 <= i,
        n <= 255,
        i + dec_bytes(n).len() <= s.len(),
        s.subrange(i, i + dec_bytes(n).len() as int) == dec_bytes(n),
        i + dec_bytes(n).len() == s.len() || !is_digit(s[i + dec_bytes(n).len() as int]),
    ensures
        digit_run_end(s, i) == i + dec_bytes(n).len(),
        valid_octet(s, i, i + dec_bytes(n).len() as int),
        dec_fold(s, i, i + dec_bytes(n).len() as int, 0) == n,
{
    let t = dec_bytes(n);
    let e = i + t.len() as int;
    lemma_dec_bytes_shape(n);
    assert(forall|k: int| 0 <= k < t.len() ==> s[i + k] == #[trigger] t[k]);
    assert forall|k: int| i <= k < e implies is_digit(#[trigger] s[k]) by {
        assert(s[k] == t[k - i]);
        assert(is_digit(t[k - i]));
    }
    lemma_digit_run(s, i, e);
    lemma_dec_fold_of_render(s, i, n);
    assert(s[i] == t[0]);
}

/// Law, IPv4 side: rendering an address and parsing the text back gives the
/// address.
proof fn lemma_v4_round_trip(ip: IpAddress)
    requires
        ip is V4,
    ensures
        spec_parse_ipv4(ascii_bytes(ip_chars(ip))) == Some(ip),
{
    let (a, b, c, d) = (ip->a as nat, ip->b as nat, ip->c as nat, ip->d as nat);
    let s = ascii_bytes(ip_chars(ip));
    lemma_dec_bytes_is_mapped(a);
    lemma_dec_bytes_is_mapped(b);
    lemma_dec_bytes_is_mapped(c);
    lemma_dec_bytes_is_mapped(d);
    let ta = dec_bytes(a);
    let tb = dec_bytes(b);
    let tc = dec_bytes(c);
    let td = dec_bytes(d);
    assert(s =~= ta + seq![46u8] + tb + seq![46u8] + tc + seq![46u8] + td);
    let i0: int = 0;
    let e0 = ta.len() as int;
    let i1 = e0 + 1;
    let e1 = i1 + tb.len();
    let i2 = e1 + 1;
    let e2 = i2 + tc.len();
    let i3 = e2 + 1;
    let e3 = i3 + td.len();
    assert(s.len() == e3);
    assert(s.subrange(i0, e0) =~= ta);
    assert(s.subrange(i1, e1) =~= tb);
    assert(s.subrange(i2, e2) =~= tc);
    assert(s.subrange(i3, e3) =~= td);
    assert(s[e0] == 46 && s[e1] == 46 && s[e2] == 46);
    lemma_octet_reads_back(s, i0, a);
    lemma_octet_reads_back(s, i1, b);
    lemma_octet_reads_back(s, i2, c);
    lemma_octet_reads_back(s, i3, d);
}

/// The hexadecimal rendering of `n`, directly as bytes.
spec fn hex_bytes(n: nat) -> Seq<u8>
    decreases n,
{
    if n < 16 {
        seq![hex_digit_byte(n)]
    } else {
        hex_bytes(n / 16).push(hex_digit_byte(n % 16))
    }
}

/// The byte of one hexadecimal digit.
spec fn hex_digit_byte(d: nat) -> u8 {
    if d < 10 {
        (48 + d) as u8
    } else {
        (87 + d) as u8
    }
}

/// The hexadecimal byte rendering is the character rendering, byte for byte.
proof fn lemma_hex_bytes_is_mapped(n: nat)
    ensures
        ascii_bytes(spec_hex(n)) =~= hex_bytes(n),
    decreases n,
{
    if n < 16 {
    } else {
        lemma_hex_bytes_is_mapped(n / 16);
        assert(ascii_bytes(spec_hex(n / 16).push(hex_digit(n % 16))) =~= ascii_bytes(
            spec_hex(n / 16),
        ).push(hex_digit_byte(n % 16)));
    }
}

/// The shape of a hexadecimal rendering: hexadecimal digits only, and a
/// length following the magnitude.
proof fn lemma_hex_bytes_shape(n: nat)
    ensures
        hex_bytes(n).len() >= 1,
        forall|k: int| 0 <= k < hex_bytes(n).len() ==> is_hex(#[trigger] hex_bytes(n)[k]),
        n < 16 ==> hex_bytes(n).len() == 1,
        n < 0x100 ==> hex_bytes(n).len() <= 2,
        n < 0x1000 ==> hex_bytes(n).len() <= 3,
        n < 0x10000 ==> hex_bytes(n).len() <= 4,
    decreases n,
{
    if n < 16 {
    } else {
        lemma_hex_bytes_shape(n / 16);
    }
}

/// Folding one more digit multiplies the value so far by sixteen.
proof fn lemma_hex_fold_snoc(s: Seq<u8>, i: int, e: int, acc: nat)
    requires
        0 <= i < e,
    ensures
        hex_fold(s, i, e, acc) == hex_fold(s, i, e - 1, acc) * 16 + hex_value(s[e - 1]),
    decreases e - i,
{
    if e - i == 1 {
        assert(hex_fold(s, i + 1, e, acc * 16 + hex_value(s[i])) == acc * 16 + hex_value(s[i]));
    } else {
        lemma_hex_fold_snoc(s, i + 1, e, acc * 16 + hex_value(s[i]));
    }
}

/// Folding the hexadecimal rendering of `n` gives `n` back.
proof fn lemma_hex_fold_of_render(s: Seq<u8>, i: int, n: nat)
    requires
        0 <= i,
        i + hex_bytes(n).len() <= s.len(),
        s.subrange(i, i + hex_bytes(n).len() as int) == hex_bytes(n),
    ensures
        hex_fold(s, i, i + hex_bytes(n).len() as int, 0) == n,
    decreases n,
{
    let t = hex_bytes(n);
    let e = i + t.len() as int;
    assert(forall|k: int| 0 <= k < t.len() ==> s[i + k] == #[trigger] t[k]);
    if n < 16 {
        assert(s[i] == t[0]);
        assert(hex_fold(s, i + 1, e, hex_value(s[i])) == hex_value(s[i]));
    } else {
        lemma_hex_fold_snoc(s, i, e, 0);
        assert(s[e - 1] == t[t.len() - 1]);
        assert(t.len() == hex_bytes(n / 16).len() + 1);
        assert(s.subrange(i, e - 1) =~= hex_bytes(n / 16));
        lemma_hex_fold_of_render(s, i, n / 16);
    }
}

/// A run of hexadecimal digits closed off by a non-digit ends exactly there.
proof fn lemma_hex_run(s: Seq<u8>, i: int, e: int)
    requires
        0 <= i <= e <= s.len(),
        forall|k: int| i <= k < e ==> is_hex(#[trigger] s[k]),
        e == s.len() || !is_hex(s[e]),
    ensures
        hex_run_end(s, i) == e,
    decreases e - i,
{
    if i < e {
        lemma_hex_run(s, i + 1, e);
    }
}

/// The rendering of a whole group list: the groups' hexadecimal digits,
/// separated by single colons.
spec fn groups_bytes(gs: Seq<u16>) -> Seq<u8>
    decreases gs.len(),
{
    if gs.len() == 0 {
        Seq::empty()
    } else if gs.len() == 1 {
        hex_bytes(gs[0] as nat)
    } else {
        hex_bytes(gs[0] as nat) + seq![58u8] + groups_bytes(gs.skip(1))
    }
}

/// The shape of a rendered group list: it begins and ends with a digit,
/// holds nothing but digits and colons, and never two colons next to each
/// other.
proof fn lemma_groups_bytes_shape(gs: Seq<u16>)
    requires
        gs.len() >= 1,
    ensures
        groups_bytes(gs).len() >= 1,
        is_hex(groups_bytes(gs)[0]),
        forall|p: int|
            0 <= p < groups_bytes(gs).len() ==> (is_hex(#[trigger] groups_bytes(gs)[p])
                || groups_bytes(gs)[p] == 58),
        forall|p: int|
            0 <= p < groups_bytes(gs).len() - 1 ==> !(#[trigger] groups_bytes(gs)[p] == 58
                && groups_bytes(gs)[p + 1] == 58),
    decreases gs.len(),
{
    let t = groups_bytes(gs);
    let h = hex_bytes(gs[0] as nat);
    lemma_hex_bytes_shape(gs[0] as nat);
    if gs.len() == 1 {
    } else {
        lemma_groups_bytes_shape(gs.skip(1));
        let rest = groups_bytes(gs.skip(1));
        assert(t =~= h + seq![58u8] + rest);
        assert forall|p: int| 0 <= p < t.len() implies (is_hex(#[trigger] t[p]) || t[p] == 58) by {
            if p < h.len() {
                assert(t[p] == h[p]);
            } else if p == h.len() {
                assert(t[p] == 58);
            } else {
                assert(t[p] == rest[p - h.len() - 1]);
            }
        }
        assert forall|p: int| 0 <= p < t.len() - 1 implies !(#[trigger] t[p] == 58 && t[p + 1]
            == 58) by {
            if p < h.len() {
                assert(t[p] == h[p]);
                assert(is_hex(t[p]));
            } else if p == h.len() {
                assert(t[p + 1] == rest[0]);
                assert(is_hex(rest[0]));
            } else {
                assert(t[p] == rest[p - h.len() - 1]);
                assert(t[p + 1] == rest[p - h.len()]);
            }
        }
    }
}

/// A text without two adjacent colons has no `::` to find.
proof fn lemma_find_dc_none(s: Seq<u8>, i: int)
    requires
        0 <= i <= s.len(),
        forall|p: int| 0 <= p < s.len() - 1 ==> !(#[trigger] s[p] == 58 && s[p + 1] == 58),
    ensures
        find_double_colon(s, i) is None,
    decreases s.len() - i,
{
    if i + 1 < s.len() {
        lemma_find_dc_none(s, i + 1);
    }
}

/// A rendered group list, covering the rest of the text, parses back to its
/// groups.
proof fn lemma_parse_groups_of_render(s: Seq<u8>, i: int, gs: Seq<u16>)
    requires
        0 <= i <= s.len(),
        gs.len() >= 1,
        s.subrange(i, s.len() as int) == groups_bytes(gs),
    ensures
        spec_parse_groups_v4(s, i) == Some(gs),
    decreases gs.len(),
{
    let t = groups_bytes(gs);
    let g = gs[0] as nat;
    let h = hex_bytes(g);
    lemma_hex_bytes_shape(g);
    assert(forall|k: int| 0 <= k < t.len() ==> s[i + k] == #[trigger] t[k]);
    let e = i + h.len() as int;
    if gs.len() == 1 {
        assert(t =~= h);
        assert forall|k: int| i <= k < e implies is_hex(#[trigger] s[k]) by {
            assert(s[k] == h[k - i]);
        }
        lemma_hex_run(s, i, e);
        assert(s.subrange(i, e) =~= h);
        lemma_hex_fold_of_render(s, i, g);
        assert(e == s.len());
        assert(seq![gs[0]] =~= gs);
    } else {
        let rest = groups_bytes(gs.skip(1));
        assert(t =~= h + seq![58u8] + rest);
        assert forall|k: int| i <= k < e implies is_hex(#[trigger] s[k]) by {
            assert(s[k] == t[k - i]);
            assert(t[k - i] == h[k - i]);
        }
        assert(s[e] == t[h.len() as int]);
        assert(s[e] == 58);
        lemma_hex_run(s, i, e);
        assert(s.subrange(i, e) =~= h);
        lemma_hex_fold_of_render(s, i, g);
        assert(s.len() - i == t.len());
        assert forall|k: int| 0 <= k < rest.len() implies s.subrange(e + 1, s.len() as int)[k]
            == rest[k] by {
            assert(s[e + 1 + k] == t[h.len() + 1 + k]);
            assert(t[h.len() + 1 + k] == rest[k]);
        }
        assert(s.subrange(e + 1, s.len() as int) =~= rest);
        lemma_parse_groups_of_render(s, e + 1, gs.skip(1));
        assert(seq![gs[0]] + gs.skip(1) =~= gs);
    }
}

/// The rendered character text of an IPv6 address, as bytes: the groups'
/// digits with single colons between them.
proof fn lemma_v6_bytes(ip: IpAddress)
    requires
        ip is V6,
    ensures
        ascii_bytes(ip_chars(ip)) =~= hex_bytes(ip->g0 as nat) + seq![58u8] + hex_bytes(
            ip->g1 as nat,
        ) + seq![58u8] + hex_bytes(ip->g2 as nat) + seq![58u8] + hex_bytes(ip->g3 as nat)
            + seq![58u8] + hex_bytes(ip->g4 as nat) + seq![58u8] + hex_bytes(ip->g5 as nat)
            + seq![58u8] + hex_bytes(ip->g6 as nat) + seq![58u8] + hex_bytes(ip->g7 as nat),
{
    lemma_hex_bytes_is_mapped(ip->g0 as nat);
    lemma_hex_bytes_is_mapped(ip->g1 as nat);
    lemma_hex_bytes_is_mapped(ip->g2 as nat);
    lemma_hex_bytes_is_mapped(ip->g3 as nat);
    lemma_hex_bytes_is_mapped(ip->g4 as nat);
    lemma_hex_bytes_is_mapped(ip->g5 as nat);
    lemma_hex_bytes_is_mapped(ip->g6 as nat);
    lemma_hex_bytes_is_mapped(ip->g7 as nat);
}

/// The rendering of exactly eight groups, written out.
#[verifier::rlimit(40)]
proof fn lemma_groups_bytes_eight(gs: Seq<u16>)
    requires
        gs.len() == 8,
    ensures
        groups_bytes(gs) =~= hex_bytes(gs[0] as nat) + seq![58u8] + hex_bytes(gs[1] as nat)
            + seq![58u8] + hex_bytes(gs[2] as nat) + seq![58u8] + hex_bytes(gs[3] as nat)
            + seq![58u8] + hex_bytes(gs[4] as nat) + seq![58u8] + hex_bytes(gs[5] as nat)
            + seq![58u8] + hex_bytes(gs[6] as nat) + seq![58u8] + hex_bytes(gs[7] as nat),
{
    let t1 = gs.skip(1);
    let t2 = t1.skip(1);
    let t3 = t2.skip(1);
    let t4 = t3.skip(1);
    let t5 = t4.skip(1);
    let t6 = t5.skip(1);
    let t7 = t6.skip(1);
    assert(t7 =~= seq![gs[7]]);
    assert(groups_bytes(t7) == hex_bytes(gs[7] as nat));
    assert(groups_bytes(t6) =~= hex_bytes(gs[6] as nat) + seq![58u8] + groups_bytes(t7));
    assert(groups_bytes(t5) =~= hex_bytes(gs[5] as nat) + seq![58u8] + groups_bytes(t6));
    assert(groups_bytes(t4) =~= hex_bytes(gs[4] as nat) + seq![58u8] + groups_bytes(t5));
    assert(groups_bytes(t3) =~= hex_bytes(gs[3] as nat) + seq![58u8] + groups_bytes(t4));
    assert(groups_bytes(t2) =~= hex_bytes(gs[2] as nat) + seq![58u8] + groups_bytes(t3));
    assert(groups_bytes(t1) =~= hex_bytes(gs[1] as nat) + seq![58u8] + groups_bytes(t2));
    assert(groups_bytes(gs) =~= hex_bytes(gs[0] as nat) + seq![58u8] + groups_bytes(t1));
}

/// Law, IPv6 side: rendering an address and parsing the text back gives the
/// address.
#[verifier::rlimit(40)]
proof fn lemma_v6_round_trip(ip: IpAddress)
    requires
        ip is V6,
    ensures
        spec_parse_ipv6(ascii_bytes(ip_chars(ip))) == Some(ip),
        forall|p: int|
            0 <= p < ascii_bytes(ip_chars(ip)).len() ==> (is_hex(
                #[trigger] ascii_bytes(ip_chars(ip))[p],
            ) || ascii_bytes(ip_chars(ip))[p] == 58),
{
    let s = ascii_bytes(ip_chars(ip));
    let gs = seq![ip->g0, ip->g1, ip->g2, ip->g3, ip->g4, ip->g5, ip->g6, ip->g7];
    lemma_v6_bytes(ip);
    lemma_groups_bytes_eight(gs);
    assert(s =~= groups_bytes(gs));
    lemma_groups_bytes_shape(gs);
    lemma_find_dc_none(s, 0);
    assert(s.subrange(0, s.len() as int) =~= s);
    lemma_parse_groups_of_render(s, 0, gs);
    assert(groups_address(gs) == ip);
}

/// Law: rendering an address and parsing the rendered text back gives the
/// address. The renderer and the parser agree with each other.
pub proof fn lemma_render_parse_round_trip(ip: IpAddress)
    ensures
        spec_parse_ip(ascii_bytes(ip_chars(ip))) == Some(ip),
{
    let s = ascii_bytes(ip_chars(ip));
    match ip {
        IpAddress::V4 { .. } => {
            lemma_v4_round_trip(ip);
        },
        IpAddress::V6 { .. } => {
            lemma_v6_round_trip(ip);
            let e0 = digit_run_end(s, 0);
            lemma_digit_run_bounds(s, 0);
            if e0 < s.len() {
                assert(is_hex(s[e0]) || s[e0] == 58);
                assert(s[e0] != 46);
            }
            assert(spec_parse_ipv4(s) is None);
        },
    }
}

/// A digit run stays within the text.
proof fn lemma_digit_run_bounds(s: Seq<u8>, i: int)
    requires
        0 <= i <= s.len(),
    ensures
        i <= digit_run_end(s, i) <= s.len(),
    decreases s.len() - i,
{
    if i < s.len() && is_digit(s[i]) {
        lemma_digit_run_bounds(s, i + 1);
    }
}

} // verus!
