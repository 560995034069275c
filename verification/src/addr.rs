//! Typed IPv4 / IPv6 addresses and verified parsers for their text literals.
//!
//! The literal grammar follows the conventional one: dotted decimal quads for
//! IPv4 (one to three digits per octet, no leading zeros, each at most 255),
//! and colon-separated hexadecimal groups for IPv6 (one to four digits per
//! group, at most one `::` compression, an optional embedded IPv4 tail in the
//! last two group slots).

use vstd::prelude::*;

verus! {

/// An IPv4 address held as its 32-bit value, highest octet first.
#[derive(Clone, Copy, Debug, PartialEq, Eq, Structural)]
pub struct Ipv4Address {
    pub bits: u32,
}

/// An IPv6 address held as its 128-bit value, highest group first.
#[derive(Clone, Copy, Debug, PartialEq, Eq, Structural)]
pub struct Ipv6Address {
    pub bits: u128,
}

impl Ipv4Address {
    /// Builds the address from its four octets, highest first.
    pub fn from_octets(a: u8, b: u8, c: u8, d: u8) -> (r: Ipv4Address)
        ensures
            r.bits == a * 0x1000000 + b * 0x10000 + c * 0x100 + d,
    {
        Ipv4Address {
            bits: (a as u32) * 0x1000000 + (b as u32) * 0x10000 + (c as u32) * 0x100 + (d as u32),
        }
    }

    /// True exactly for the all-zero address `0.0.0.0`.
    pub fn is_unspecified(&self) -> (r: bool)
        ensures
            r == (self.bits == 0),
    {
        self.bits == 0
    }

    /// Parses a dotted-quad literal; `None` when the text is not one.
    pub fn parse(s: &str) -> (r: Option<Ipv4Address>)
        ensures
            r is Some <==> spec_parse_ipv4(s@) is Some,
            r is Some ==> r->0.bits as int == spec_parse_ipv4(s@)->0,
    {
        let chars = crate::text::str_to_chars(s);
        match parse_ipv4_chars(&chars) {
            Some(bits) => Some(Ipv4Address { bits }),
            None => None,
        }
    }
}

impl Ipv6Address {
    /// True exactly for the all-zero address `::`.
    pub fn is_unspecified(&self) -> (r: bool)
        ensures
            r == (self.bits == 0),
    {
        self.bits == 0
    }

    /// Parses a colon-grouped literal; `None` when the text is not one.
    pub fn parse(s: &str) -> (r: Option<Ipv6Address>)
        ensures
            r is Some <==> spec_parse_ipv6(s@) is Some,
            r is Some ==> r->0.bits as int == spec_parse_ipv6(s@)->0,
    {
        let chars = crate::text::str_to_chars(s);
        match parse_ipv6_chars(&chars) {
            Some(bits) => Some(Ipv6Address { bits }),
            None => None,
        }
    }
}

// ------------------------------------------------------------------
// Digits
// ------------------------------------------------------------------

/// Value of one digit character: decimal always, letters only in hex mode.
pub open spec fn spec_digit_val(c: char, hex: bool) -> Option<u32> {
    let u = c as u32;
    if 0x30 <= u && u <= 0x39 {
        Some((u - 0x30) as u32)
    } else if hex && 0x61 <= u && u <= 0x66 {
        Some((u - 0x61 + 10) as u32)
    } else if hex && 0x41 <= u && u <= 0x46 {
        Some((u - 0x41 + 10) as u32)
    } else {
        None
    }
}

/// Whether position `pos` of `s` holds a digit of the given radix.
pub open spec fn dig_at(s: Seq<char>, pos: int, hex: bool) -> bool {
    0 <= pos < s.len() && spec_digit_val(s[pos], hex) is Some
}

/// The digit value at `pos` (zero where there is none).
pub open spec fn dval(s: Seq<char>, pos: int, hex: bool) -> int {
    if dig_at(s, pos, hex) {
        spec_digit_val(s[pos], hex)->0 as int
    } else {
        0
    }
}

/// Length of the digit run starting at `pos`, capped at 5: a run of 5 or
/// more reads as 5, which every caller treats as too long.
pub open spec fn spec_run_len(s: Seq<char>, pos: int, hex: bool) -> int {
    if !dig_at(s, pos, hex) {
        0
    } else if !dig_at(s, pos + 1, hex) {
        1
    } else if !dig_at(s, pos + 2, hex) {
        2
    } else if !dig_at(s, pos + 3, hex) {
        3
    } else if !dig_at(s, pos + 4, hex) {
        4
    } else {
        5
    }
}

/// Value of the `n`-digit run starting at `pos`, for `1 <= n <= 4`.
pub open spec fn spec_run_val(s: Seq<char>, pos: int, n: int, hex: bool) -> int {
    let r: int = if hex {
        16
    } else {
        10
    };
    if n == 1 {
        dval(s, pos, hex)
    } else if n == 2 {
        dval(s, pos, hex) * r + dval(s, pos + 1, hex)
    } else if n == 3 {
        (dval(s, pos, hex) * r + dval(s, pos + 1, hex)) * r + dval(s, pos + 2, hex)
    } else {
        ((dval(s, pos, hex) * r + dval(s, pos + 1, hex)) * r + dval(s, pos + 2, hex)) * r + dval(
            s,
            pos + 3,
            hex,
        )
    }
}

/// Scans a number the way address literals demand: at least one digit, at
/// most `max_digits`, value at most `max_value`, and, unless
/// `allow_zero_prefix`, no leading zero on a multi-digit number.  Yields the
/// value and the position after the run.
pub open spec fn spec_read_number(
    s: Seq<char>,
    pos: int,
    hex: bool,
    max_digits: int,
    max_value: int,
    allow_zero_prefix: bool,
) -> Option<(int, int)> {
    let n = spec_run_len(s, pos, hex);
    if n == 0 || n > max_digits {
        None
    } else if !allow_zero_prefix && n > 1 && s[pos] == '0' {
        None
    } else {
        let v = spec_run_val(s, pos, n, hex);
        if v > max_value {
            None
        } else {
            Some((v, pos + n))
        }
    }
}

fn digit_val(c: char, hex: bool) -> (r: Option<u32>)
    ensures
        r == spec_digit_val(c, hex),
{
    let u = c as u32;
    if 0x30 <= u && u <= 0x39 {
        Some(u - 0x30)
    } else if hex && 0x61 <= u && u <= 0x66 {
        Some(u - 0x61 + 10)
    } else if hex && 0x41 <= u && u <= 0x46 {
        Some(u - 0x41 + 10)
    } else {
        None
    }
}

fn is_digit_at(s: &Vec<char>, pos: usize, hex: bool) -> (r: bool)
    ensures
        r == dig_at(s@, pos as int, hex),
{
    pos < s.len() && digit_val(s[pos], hex).is_some()
}

fn digit_at(s: &Vec<char>, pos: usize, hex: bool) -> (r: u32)
    requires
        dig_at(s@, pos as int, hex),
    ensures
        r as int == dval(s@, pos as int, hex),
{
    match digit_val(s[pos], hex) {
        Some(v) => v,
        None => 0,
    }
}

fn read_number(
    s: &Vec<char>,
    pos: usize,
    hex: bool,
    max_digits: usize,
    max_value: u32,
    allow_zero_prefix: bool,
) -> (r: Option<(u32, usize)>)
    requires
        pos <= s@.len(),
        max_digits <= 4,
        max_value <= 0xffff,
    ensures
        r is Some <==> spec_read_number(
            s@,
            pos as int,
            hex,
            max_digits as int,
            max_value as int,
            allow_zero_prefix,
        ) is Some,
        r is Some ==> {
            let (v, p) = spec_read_number(
                s@,
                pos as int,
                hex,
                max_digits as int,
                max_value as int,
                allow_zero_prefix,
            )->0;
            (r->0).0 as int == v && (r->0).1 as int == p && pos < (r->0).1 <= s@.len()
        },
{
    let len: usize = s.len();
    let n: usize = if !is_digit_at(s, pos, hex) {
        0
    } else if !is_digit_at(s, pos + 1, hex) {
        1
    } else if !is_digit_at(s, pos + 2, hex) {
        2
    } else if !is_digit_at(s, pos + 3, hex) {
        3
    } else if !is_digit_at(s, pos + 4, hex) {
        4
    } else {
        5
    };
    if n == 0 || n > max_digits {
        return None;
    }
    if !allow_zero_prefix && n > 1 && s[pos] == '0' {
        return None;
    }
    let radix: u32 = if hex {
        16
    } else {
        10
    };
    let mut v: u32 = digit_at(s, pos, hex);
    if n >= 2 {
        v = v * radix + digit_at(s, pos + 1, hex);
    }
    if n >= 3 {
        v = v * radix + digit_at(s, pos + 2, hex);
    }
    if n >= 4 {
        v = v * radix + digit_at(s, pos + 3, hex);
    }
    if v > max_value {
        return None;
    }
    Some((v, pos + n))
}

// ------------------------------------------------------------------
// IPv4
// ------------------------------------------------------------------

/// Reads a dotted quad starting at `pos`; yields its 32-bit value and the
/// position after the last octet.
pub open spec fn spec_read_ipv4(s: Seq<char>, pos: int) -> Option<(int, int)> {
    match spec_read_number(s, pos, false, 3, 255, false) {
        None => None,
        Some((o0, p0)) => if !(p0 < s.len() && s[p0] == '.') {
            None
        } else {
            match spec_read_number(s, p0 + 1, false, 3, 255, false) {
                None => None,
                Some((o1, p1)) => if !(p1 < s.len() && s[p1] == '.') {
                    None
                } else {
                    match spec_read_number(s, p1 + 1, false, 3, 255, false) {
                        None => None,
                        Some((o2, p2)) => if !(p2 < s.len() && s[p2] == '.') {
                            None
                        } else {
                            match spec_read_number(s, p2 + 1, false, 3, 255, false) {
                                None => None,
                                Some((o3, p3)) => Some(
                                    (o0 * 0x1000000 + o1 * 0x10000 + o2 * 0x100 + o3, p3),
                                ),
                            }
                        },
                    }
                },
            }
        },
    }
}

/// A whole-string dotted-quad literal.
pub open spec fn spec_parse_ipv4(s: Seq<char>) -> Option<int> {
    match spec_read_ipv4(s, 0) {
        None => None,
        Some((v, p)) => if p == s.len() {
            Some(v)
        } else {
            None
        },
    }
}

fn read_ipv4(s: &Vec<char>, pos: usize) -> (r: Option<(u32, usize)>)
    requires
        pos <= s@.len(),
    ensures
        r is Some <==> spec_read_ipv4(s@, pos as int) is Some,
        r is Some ==> {
            let (v, p) = spec_read_ipv4(s@, pos as int)->0;
            (r->0).0 as int == v && (r->0).1 as int == p && pos < (r->0).1 <= s@.len()
        },
{
    let (o0, p0) = match read_number(s, pos, false, 3, 255, false) {
        Some(x) => x,
        None => {
            return None;
        },
    };
    if !(p0 < s.len() && s[p0] == '.') {
        return None;
    }
    let (o1, p1) = match read_number(s, p0 + 1, false, 3, 255, false) {
        Some(x) => x,
        None => {
            return None;
        },
    };
    if !(p1 < s.len() && s[p1] == '.') {
        return None;
    }
    let (o2, p2) = match read_number(s, p1 + 1, false, 3, 255, false) {
        Some(x) => x,
        None => {
            return None;
        },
    };
    if !(p2 < s.len() && s[p2] == '.') {
        return None;
    }
    let (o3, p3) = match read_number(s, p2 + 1, false, 3, 255, false) {
        Some(x) => x,
        None => {
            return None;
        },
    };
    Some((o0 * 0x1000000 + o1 * 0x10000 + o2 * 0x100 + o3, p3))
}

/// Parses a whole character sequence as a dotted-quad literal.
pub fn parse_ipv4_chars(s: &Vec<char>) -> (r: Option<u32>)
    ensures
        r is Some <==> spec_parse_ipv4(s@) is Some,
        r is Some ==> r->0 as int == spec_parse_ipv4(s@)->0,
{
    match read_ipv4(s, 0) {
        None => None,
        Some((v, p)) => if p == s.len() {
            Some(v)
        } else {
            None
        },
    }
}

// ------------------------------------------------------------------
// IPv6
// ------------------------------------------------------------------

/// Reads up to `limit` colon-separated groups starting at `pos`.  A group is
/// one to four hex digits; when at least two slots remain, an embedded
/// dotted quad may stand instead and fills two group slots, after which the
/// section ends.  `first` is true when no separator is expected before the
/// next group.  Yields the groups, the position after them, and whether an
/// embedded quad ended the section.
pub open spec fn spec_read_groups(s: Seq<char>, pos: int, limit: int, first: bool) -> (Seq<
    u16,
>, int, bool)
    decreases limit,
{
    if limit <= 0 {
        (Seq::<u16>::empty(), pos, false)
    } else {
        let q = if first {
            pos
        } else {
            pos + 1
        };
        if !first && !(pos < s.len() && s[pos] == ':') {
            (Seq::<u16>::empty(), pos, false)
        } else {
            let v4 = if limit >= 2 {
                spec_read_ipv4(s, q)
            } else {
                None
            };
            match v4 {
                Some((v, p)) => (
                    seq![(v / 0x10000) as u16, (v % 0x10000) as u16],
                    p,
                    true,
                ),
                None => match spec_read_number(s, q, true, 4, 0xffff, true) {
                    Some((g, p)) => {
                        let (rest, pend, used) = spec_read_groups(s, p, limit - 1, false);
                        (seq![g as u16] + rest, pend, used)
                    },
                    None => (Seq::<u16>::empty(), pos, false),
                },
            }
        }
    }
}

/// All-zero groups, for the span a `::` stands for.
pub open spec fn zero_groups(n: int) -> Seq<u16> {
    Seq::new(n as nat, |i: int| 0u16)
}

/// The 128-bit value of exactly eight groups, highest first.
pub open spec fn v6_bits(gs: Seq<u16>) -> int
    recommends
        gs.len() == 8,
{
    gs[0] * 0x1000000000000000000000000000 * 0x10 + gs[1] * 0x1000000000000000000000000
        + gs[2] * 0x100000000000000000000 + gs[3] * 0x10000000000000000 + gs[4] * 0x1000000000000
        + gs[5] * 0x100000000 + gs[6] * 0x10000 + gs[7]
}

/// A whole-string IPv6 literal: eight groups outright, or fewer with one
/// `::` standing for the missing zero groups.
pub open spec fn spec_parse_ipv6(s: Seq<char>) -> Option<int> {
    let (head, p, head_v4) = spec_read_groups(s, 0, 8, true);
    if head.len() == 8 {
        if p == s.len() {
            Some(v6_bits(head))
        } else {
            None
        }
    } else if head_v4 {
        None
    } else if p + 2 <= s.len() && s[p] == ':' && s[p + 1] == ':' {
        let limit = 7 - head.len();
        let (tail, p2, _) = spec_read_groups(s, p + 2, limit as int, true);
        if p2 == s.len() {
            Some(v6_bits(head + zero_groups(8 - head.len() - tail.len()) + tail))
        } else {
            None
        }
    } else {
        None
    }
}

#[verifier::rlimit(60)]
fn read_groups(s: &Vec<char>, pos: usize, limit: usize, first: bool) -> (r: (Vec<u16>, usize, bool))
    requires
        pos <= s@.len(),
        limit <= 8,
    ensures
        ({
            let (gs, p, b) = spec_read_groups(s@, pos as int, limit as int, first);
            r.0@ == gs && r.1 as int == p && r.2 == b && pos <= r.1 <= s@.len() && r.0@.len()
                <= limit
        }),
    decreases limit,
{
    if limit == 0 {
        return (Vec::new(), pos, false);
    }
    if !first && !(pos < s.len() && s[pos] == ':') {
        return (Vec::new(), pos, false);
    }
    let q: usize = if first {
        pos
    } else {
        pos + 1
    };
    if limit >= 2 {
        if let Some((v, p)) = read_ipv4(s, q) {
            let mut gs: Vec<u16> = Vec::new();
            gs.push((v / 0x10000) as u16);
            gs.push((v % 0x10000) as u16);
            proof {
                assert(gs@ =~= seq![
                    ((spec_read_ipv4(s@, q as int)->0).0 / 0x10000) as u16,
                    ((spec_read_ipv4(s@, q as int)->0).0 % 0x10000) as u16,
                ]);
            }
            return (gs, p, true);
        }
    }
    match read_number(s, q, true, 4, 0xffff, true) {
        Some((g, p)) => {
            let (rest, pend, used) = read_groups(s, p, limit - 1, false);
            let gs = prepend_group(g as u16, &rest);
            (gs, pend, used)
        },
        None => (Vec::new(), pos, false),
    }
}

/// A fresh vector holding `g` followed by `rest`.
fn prepend_group(g: u16, rest: &Vec<u16>) -> (r: Vec<u16>)
    ensures
        r@ == seq![g] + rest@,
{
    let mut gs: Vec<u16> = Vec::new();
    gs.push(g);
    let mut i: usize = 0;
    while i < rest.len()
        invariant
            0 <= i <= rest@.len(),
            gs@ == seq![g] + rest@.subrange(0, i as int),
        decreases rest@.len() - i,
    {
        gs.push(rest[i]);
        i = i + 1;
        proof {
            assert(gs@ =~= seq![g] + rest@.subrange(0, i as int));
        }
    }
    proof {
        assert(gs@ =~= seq![g] + rest@);
    }
    gs
}

/// Parses a whole character sequence as an IPv6 literal.
pub fn parse_ipv6_chars(s: &Vec<char>) -> (r: Option<u128>)
    ensures
        r is Some <==> spec_parse_ipv6(s@) is Some,
        r is Some ==> r->0 as int == spec_parse_ipv6(s@)->0,
{
    let (head, p, head_v4) = read_groups(s, 0, 8, true);
    if head.len() == 8 {
        if p == s.len() {
            Some(groups_value(&head))
        } else {
            None
        }
    } else if head_v4 {
        None
    } else if p < s.len() && s[p] == ':' && p + 1 < s.len() && s[p + 1] == ':' {
        let limit: usize = 7 - head.len();
        let (tail, p2, _) = read_groups(s, p + 2, limit, true);
        if p2 == s.len() {
            let full = assemble_groups(&head, &tail);
            proof {
                assert(full@ =~= head@ + zero_groups(8 - head@.len() - tail@.len()) + tail@);
            }
            Some(groups_value(&full))
        } else {
            None
        }
    } else {
        None
    }
}

/// Lays head groups, the zero span, and tail groups into eight slots.
fn assemble_groups(head: &Vec<u16>, tail: &Vec<u16>) -> (r: Vec<u16>)
    requires
        head@.len() + tail@.len() <= 8,
    ensures
        r@.len() == 8,
        forall|i: int|
            0 <= i < 8 ==> r@[i] == (head@ + zero_groups(8 - head@.len() - tail@.len())
                + tail@)[i],
{
    let h: usize = head.len();
    let t: usize = tail.len();
    let ghost full = head@ + zero_groups(8 - head@.len() - tail@.len()) + tail@;
    let mut gs: Vec<u16> = Vec::new();
    let mut i: usize = 0;
    while i < 8
        invariant
            0 <= i <= 8,
            h == head@.len(),
            t == tail@.len(),
            h + t <= 8,
            full == head@ + zero_groups(8 - head@.len() - tail@.len()) + tail@,
            gs@.len() == i,
            forall|j: int| 0 <= j < i ==> gs@[j] == full[j],
        decreases 8 - i,
    {
        let g: u16 = if i < h {
            head[i]
        } else if i < 8 - t {
            0
        } else {
            tail[i - (8 - t)]
        };
        proof {
            assert(full.len() == 8);
            assert(full[i as int] == g);
        }
        gs.push(g);
        i = i + 1;
    }
    gs
}

/// The 128-bit value of eight groups, highest first.
fn groups_value(gs: &Vec<u16>) -> (r: u128)
    requires
        gs@.len() == 8,
    ensures
        r as int == v6_bits(gs@),
{
    (gs[0] as u128) * 0x1000000000000000000000000000 * 0x10 + (gs[1] as u128)
        * 0x1000000000000000000000000 + (gs[2] as u128) * 0x100000000000000000000 + (gs[3] as u128)
        * 0x10000000000000000 + (gs[4] as u128) * 0x1000000000000 + (gs[5] as u128) * 0x100000000 + (
    gs[6] as u128) * 0x10000 + (gs[7] as u128)
}

} // verus!
