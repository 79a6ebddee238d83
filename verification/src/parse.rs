//! The text forms of addresses: `a.b.c.d` for an IPv4 address,
//! `a.b.c.d:port` for an endpoint, `xx:xx:xx:xx:xx:xx` for a hardware
//! address. All are read from the bytes of a string.

use crate::endpoint::Endpoint;
use crate::endpoint::Mac;
use std::collections::HashSet;
use vstd::prelude::*;
use vstd::string::StringExecFns;

verus! {

broadcast use vstd::std_specs::hash::group_hash_axioms;

/// The bytes of a text.
pub open spec fn bytes_of(text: Seq<char>) -> Seq<u8> {
    vstd::utf8::encode_utf8(text)
}

/// The value of a hexadecimal digit, in either case.
pub open spec fn hex_value(b: u8) -> Option<int> {
    if 48 <= b <= 57 {
        Some(b - 48)
    } else if 97 <= b <= 102 {
        Some(b - 87)
    } else if 65 <= b <= 70 {
        Some(b - 55)
    } else {
        None
    }
}

/// The number that the digits of `s[lo..hi)` spell in base `radix`, a byte
/// that is no digit counting as zero.
pub open spec fn spec_value(s: Seq<u8>, lo: int, hi: int, radix: int) -> int
    decreases hi - lo,
{
    if hi <= lo {
        0
    } else {
        spec_value(s, lo, hi - 1, radix) * radix + match hex_value(s[hi - 1]) {
            Some(d) => d,
            None => 0,
        }
    }
}

/// Whether `b` is a digit of base `radix`.
pub open spec fn digit_in(b: u8, radix: int) -> bool {
    match hex_value(b) {
        Some(d) => d < radix,
        None => false,
    }
}

/// Whether `s[lo..hi)` holds digits of base `radix` only.
pub open spec fn all_digits(s: Seq<u8>, lo: int, hi: int, radix: int) -> bool {
    forall|i: int| lo <= i < hi ==> digit_in(#[trigger] s[i], radix)
}

/// The number that `s[lo..hi)` spells, if it is one or more digits of base
/// `radix` and spells no more than `max`.
pub open spec fn spec_number(s: Seq<u8>, lo: int, hi: int, radix: int, max: int) -> Option<int> {
    if lo < hi && all_digits(s, lo, hi, radix) && spec_value(s, lo, hi, radix) <= max {
        Some(spec_value(s, lo, hi, radix))
    } else {
        None
    }
}

/// The position of the first `sep` in `s` at or after `from`, or the length
/// of `s` if there is none.
pub open spec fn spec_find(s: Seq<u8>, from: int, sep: u8) -> int
    decreases s.len() - from,
{
    if from >= s.len() {
        s.len() as int
    } else if from >= 0 && s[from] == sep {
        from
    } else {
        spec_find(s, from + 1, sep)
    }
}

/// A number grows with its digits: a prefix spells no more than the whole.
proof fn lemma_value_grows(s: Seq<u8>, lo: int, mid: int, hi: int, radix: int)
    requires
        lo <= mid <= hi,
        radix >= 1,
    ensures
        0 <= spec_value(s, lo, mid, radix) <= spec_value(s, lo, hi, radix),
    decreases hi - mid,
{
    lemma_value_nonneg(s, lo, mid, radix);
    if mid < hi {
        lemma_value_grows(s, lo, mid, hi - 1, radix);
        let v = spec_value(s, lo, hi - 1, radix);
        assert(v * radix >= v) by (nonlinear_arith)
            requires
                v >= 0,
                radix >= 1,
        ;
    }
}

proof fn lemma_value_nonneg(s: Seq<u8>, lo: int, hi: int, radix: int)
    requires
        radix >= 1,
    ensures
        0 <= spec_value(s, lo, hi, radix),
    decreases hi - lo,
{
    if lo < hi {
        lemma_value_nonneg(s, lo, hi - 1, radix);
        let v = spec_value(s, lo, hi - 1, radix);
        assert(v * radix >= 0) by (nonlinear_arith)
            requires
                v >= 0,
                radix >= 1,
        ;
    }
}

fn digit_of(b: u8) -> (r: Option<u32>)
    ensures
        match r {
            Some(d) => hex_value(b) == Some(d as int),
            None => hex_value(b) is None,
        },
{
    if 48 <= b && b <= 57 {
        Some((b - 48) as u32)
    } else if 97 <= b && b <= 102 {
        Some((b - 87) as u32)
    } else if 65 <= b && b <= 70 {
        Some((b - 55) as u32)
    } else {
        None
    }
}

/// Reads the number that `bytes[lo..hi)` spells in base 10 or 16.
fn read_number(bytes: &[u8], lo: usize, hi: usize, radix: u32, max: u32) -> (r: Option<u32>)
    requires
        lo <= hi <= bytes.len(),
        radix == 10 || radix == 16,
        max <= 0xFFFF,
    ensures
        match r {
            Some(v) => spec_number(bytes@, lo as int, hi as int, radix as int, max as int) == Some(
                v as int,
            ),
            None => spec_number(bytes@, lo as int, hi as int, radix as int, max as int) is None,
        },
{
    if lo >= hi {
        return None;
    }
    let mut acc: u32 = 0;
    let mut i: usize = lo;
    while i < hi
        invariant
            lo <= i <= hi <= bytes.len(),
            radix == 10 || radix == 16,
            max <= 0xFFFF,
            acc <= max,
            acc == spec_value(bytes@, lo as int, i as int, radix as int),
            all_digits(bytes@, lo as int, i as int, radix as int),
        decreases hi - i,
    {
        let d = match digit_of(bytes[i]) {
            Some(d) => d,
            None => {
                return None;
            },
        };
        if d >= radix {
            return None;
        }
        acc = acc * radix + d;
        if acc > max {
            proof {
                lemma_value_grows(bytes@, lo as int, i + 1, hi as int, radix as int);
            }
            return None;
        }
        i = i + 1;
    }
    Some(acc)
}

/// Finds the first `sep` at or after `from`.
fn find(bytes: &[u8], from: usize, sep: u8) -> (r: usize)
    requires
        from <= bytes.len(),
    ensures
        r == spec_find(bytes@, from as int, sep),
        from <= r <= bytes.len(),
{
    let mut i: usize = from;
    while i < bytes.len()
        invariant
            from <= i <= bytes.len(),
            spec_find(bytes@, from as int, sep) == spec_find(bytes@, i as int, sep),
        decreases bytes.len() - i,
    {
        if bytes[i] == sep {
            return i;
        }
        i = i + 1;
    }
    i
}

/// The octet that `s[lo..hi)` spells: one to three decimal digits, without
/// a leading zero unless it is the only digit, and no more than 255.
pub open spec fn spec_octet(s: Seq<u8>, lo: int, hi: int) -> Option<int> {
    if hi - lo > 3 || (hi - lo > 1 && s[lo] == 48) {
        None
    } else {
        spec_number(s, lo, hi, 10, 255)
    }
}

fn read_octet(bytes: &[u8], lo: usize, hi: usize) -> (r: Option<u32>)
    requires
        lo <= hi <= bytes.len(),
    ensures
        match r {
            Some(v) => spec_octet(bytes@, lo as int, hi as int) == Some(v as int) && v <= 255,
            None => spec_octet(bytes@, lo as int, hi as int) is None,
        },
{
    if hi - lo > 3 || (hi - lo > 1 && bytes[lo] == 48) {
        None
    } else {
        read_number(bytes, lo, hi, 10, 255)
    }
}

/// The address that `s[lo..hi)` spells as `a.b.c.d`, in host order.
pub open spec fn spec_ipv4(s: Seq<u8>, lo: int, hi: int) -> Option<u32> {
    let d1 = spec_find(s, lo, 46);
    let d2 = spec_find(s, d1 + 1, 46);
    let d3 = spec_find(s, d2 + 1, 46);
    if d1 < hi && d2 < hi && d3 < hi {
        match (
            spec_octet(s, lo, d1),
            spec_octet(s, d1 + 1, d2),
            spec_octet(s, d2 + 1, d3),
            spec_octet(s, d3 + 1, hi),
        ) {
            (Some(a), Some(b), Some(c), Some(d)) => Some(
                (a * 0x100_0000 + b * 0x1_0000 + c * 0x100 + d) as u32,
            ),
            _ => None,
        }
    } else {
        None
    }
}

/// Reads the IPv4 address that `bytes[lo..hi)` spells.
fn read_ipv4(bytes: &[u8], lo: usize, hi: usize) -> (r: Option<u32>)
    requires
        lo <= hi <= bytes.len(),
    ensures
        r == spec_ipv4(bytes@, lo as int, hi as int),
{
    let d1 = find(bytes, lo, 46);
    if d1 >= hi {
        return None;
    }
    let d2 = find(bytes, d1 + 1, 46);
    if d2 >= hi {
        return None;
    }
    let d3 = find(bytes, d2 + 1, 46);
    if d3 >= hi {
        return None;
    }
    let a = read_octet(bytes, lo, d1);
    let b = read_octet(bytes, d1 + 1, d2);
    let c = read_octet(bytes, d2 + 1, d3);
    let d = read_octet(bytes, d3 + 1, hi);
    match (a, b, c, d) {
        (Some(a), Some(b), Some(c), Some(d)) => Some(a * 0x100_0000 + b * 0x1_0000 + c * 0x100 + d),
        _ => None,
    }
}

/// The address that a text spells as `a.b.c.d`, in host order.
pub open spec fn spec_parse_ipv4(s: Seq<u8>) -> Option<u32> {
    spec_ipv4(s, 0, s.len() as int)
}

/// The endpoint that a text spells as `a.b.c.d:port`, the port being one or
/// more decimal digits that spell no more than 65535.
pub open spec fn spec_parse_endpoint(s: Seq<u8>) -> Option<Endpoint> {
    let d3 = spec_find(s, spec_find(s, spec_find(s, 0, 46) + 1, 46) + 1, 46);
    let colon = spec_find(s, d3 + 1, 58);
    if colon < s.len() {
        match (spec_ipv4(s, 0, colon), spec_number(s, colon + 1, s.len() as int, 10, 65535)) {
            (Some(ip), Some(port)) => Some(Endpoint { ip, port: port as u16 }),
            _ => None,
        }
    } else {
        None
    }
}

/// Reads an IPv4 address in the form `a.b.c.d`, in host order.
pub fn parse_ipv4(text: &str) -> (r: Option<u32>)
    ensures
        r == spec_parse_ipv4(bytes_of(text@)),
{
    let bytes = text.as_bytes();
    read_ipv4(bytes, 0, bytes.len())
}

/// Reads an endpoint in the form `a.b.c.d:port`.
pub fn parse_endpoint(text: &str) -> (r: Option<Endpoint>)
    ensures
        r == spec_parse_endpoint(bytes_of(text@)),
{
    let bytes = text.as_bytes();
    let d1 = find(bytes, 0, 46);
    if d1 >= bytes.len() {
        proof {
            lemma_find_end(bytes@, bytes@.len() as int + 1, 46);
            lemma_find_end(bytes@, bytes@.len() as int + 2, 46);
            lemma_find_end(bytes@, bytes@.len() as int + 3, 58);
        }
        return None;
    }
    let d2 = find(bytes, d1 + 1, 46);
    if d2 >= bytes.len() {
        proof {
            lemma_find_end(bytes@, bytes@.len() as int + 1, 46);
            lemma_find_end(bytes@, bytes@.len() as int + 2, 58);
        }
        return None;
    }
    let d3 = find(bytes, d2 + 1, 46);
    if d3 >= bytes.len() {
        proof {
            lemma_find_end(bytes@, bytes@.len() as int + 1, 58);
        }
        return None;
    }
    let colon = find(bytes, d3 + 1, 58);
    if colon >= bytes.len() {
        return None;
    }
    let ip = read_ipv4(bytes, 0, colon);
    let port = read_number(bytes, colon + 1, bytes.len(), 10, 65535);
    match (ip, port) {
        (Some(ip), Some(port)) => Some(Endpoint { ip, port: port as u16 }),
        _ => None,
    }
}

/// Past the end nothing is found.
proof fn lemma_find_end(s: Seq<u8>, from: int, sep: u8)
    requires
        from >= s.len(),
    ensures
        spec_find(s, from, sep) == s.len(),
{
}

/// The byte that `s[lo..hi)` spells in hexadecimal: one or more digits in
/// either case, after a plus sign or without one, that spell no more than `ff`.
pub open spec fn spec_hex_byte(s: Seq<u8>, lo: int, hi: int) -> Option<int> {
    if lo < hi && s[lo] == 43 {
        spec_number(s, lo + 1, hi, 16, 255)
    } else {
        spec_number(s, lo, hi, 16, 255)
    }
}

fn read_hex_byte(bytes: &[u8], lo: usize, hi: usize) -> (r: Option<u32>)
    requires
        lo <= hi <= bytes.len(),
    ensures
        match r {
            Some(v) => spec_hex_byte(bytes@, lo as int, hi as int) == Some(v as int) && v <= 255,
            None => spec_hex_byte(bytes@, lo as int, hi as int) is None,
        },
{
    if lo < hi && bytes[lo] == 43 {
        read_number(bytes, lo + 1, hi, 16, 255)
    } else {
        read_number(bytes, lo, hi, 16, 255)
    }
}

/// The hardware address that a text spells as six hexadecimal bytes between
/// colons.
pub open spec fn spec_parse_mac(s: Seq<u8>) -> Option<Mac> {
    let c1 = spec_find(s, 0, 58);
    let c2 = spec_find(s, c1 + 1, 58);
    let c3 = spec_find(s, c2 + 1, 58);
    let c4 = spec_find(s, c3 + 1, 58);
    let c5 = spec_find(s, c4 + 1, 58);
    let c6 = spec_find(s, c5 + 1, 58);
    if c5 < s.len() && c6 == s.len() {
        match (
            spec_hex_byte(s, 0, c1),
            spec_hex_byte(s, c1 + 1, c2),
            spec_hex_byte(s, c2 + 1, c3),
            spec_hex_byte(s, c3 + 1, c4),
            spec_hex_byte(s, c4 + 1, c5),
            spec_hex_byte(s, c5 + 1, s.len() as int),
        ) {
            (Some(a), Some(b), Some(c), Some(d), Some(e), Some(f)) => Some(
                Mac(Mac::spec_val_of(seq![a as u8, b as u8, c as u8, d as u8, e as u8, f as u8])),
            ),
            _ => None,
        }
    } else {
        None
    }
}

/// Reads a hardware address in the form `xx:xx:xx:xx:xx:xx`.
pub fn parse_mac(text: &str) -> (r: Option<Mac>)
    ensures
        r == spec_parse_mac(bytes_of(text@)),
{
    let bytes = text.as_bytes();
    let n = bytes.len();
    let c1 = find(bytes, 0, 58);
    let c2 = if c1 < n {
        find(bytes, c1 + 1, 58)
    } else {
        n
    };
    let c3 = if c2 < n {
        find(bytes, c2 + 1, 58)
    } else {
        n
    };
    let c4 = if c3 < n {
        find(bytes, c3 + 1, 58)
    } else {
        n
    };
    let c5 = if c4 < n {
        find(bytes, c4 + 1, 58)
    } else {
        n
    };
    proof {
        lemma_find_end(bytes@, n as int + 1, 58);
    }
    if c5 >= n {
        return None;
    }
    let c6 = find(bytes, c5 + 1, 58);
    if c6 != n {
        return None;
    }
    let a = read_hex_byte(bytes, 0, c1);
    let b = read_hex_byte(bytes, c1 + 1, c2);
    let c = read_hex_byte(bytes, c2 + 1, c3);
    let d = read_hex_byte(bytes, c3 + 1, c4);
    let e = read_hex_byte(bytes, c4 + 1, c5);
    let f = read_hex_byte(bytes, c5 + 1, n);
    match (a, b, c, d, e, f) {
        (Some(a), Some(b), Some(c), Some(d), Some(e), Some(f)) => {
            let addr = [a as u8, b as u8, c as u8, d as u8, e as u8, f as u8];
            assert(addr@ =~= seq![a as u8, b as u8, c as u8, d as u8, e as u8, f as u8]);
            Some(Mac::new(&addr))
        },
        _ => None,
    }
}

/// Reads a hardware address that is known to be well-formed.
pub fn mac_from_string(mac: &String) -> (m: Mac)
    requires
        spec_parse_mac(bytes_of(mac@)) is Some,
    ensures
        Some(m) == spec_parse_mac(bytes_of(mac@)),
{
    match parse_mac(mac.as_str()) {
        Some(m) => m,
        None => Mac(0),
    }
}

/// Enters a server's address, given as well-formed text, in the set of the
/// servers' addresses.
pub fn set_server_ip(server_ips: &mut HashSet<u32>, ip: &String)
    requires
        spec_parse_ipv4(bytes_of(ip@)) is Some,
    ensures
        final(server_ips)@ == old(server_ips)@.insert(
            spec_parse_ipv4(bytes_of(ip@))->Some_0,
        ),
{
    match parse_ipv4(ip.as_str()) {
        Some(ip) => {
            let _ = server_ips.insert(ip);
        },
        None => {},
    }
}

impl Endpoint {
    /// Reads an endpoint that is known to be well-formed.
    pub fn from_string(s: &String) -> (e: Self)
        requires
            spec_parse_endpoint(bytes_of(s@)) is Some,
        ensures
            Some(e) == spec_parse_endpoint(bytes_of(s@)),
    {
        match parse_endpoint(s.as_str()) {
            Some(e) => e,
            None => Endpoint { ip: 0, port: 0 },
        }
    }
}

/// The decimal digits of a number, most significant first, without a
/// leading zero.
pub open spec fn spec_decimal(n: nat) -> Seq<char>
    decreases n,
{
    if n < 10 {
        seq![((48 + n) as u8) as char]
    } else {
        spec_decimal(n / 10).push(((48 + n % 10) as u8) as char)
    }
}

/// `format!` with `{}` on an unsigned integer: the text is the number's
/// decimal digits, most significant first, without sign or leading zero.
#[verifier::external_body]
fn decimal(v: u32) -> (s: String)
    ensures
        s@ == spec_decimal(v as nat),
{
    format!("{}", v)
}

impl Endpoint {
    /// The text `a.b.c.d:port` of the endpoint.
    pub open spec fn spec_to_string(&self) -> Seq<char> {
        spec_decimal((self.ip / 0x100_0000) as nat) + seq!['.'] + spec_decimal(
            ((self.ip / 0x1_0000) % 256) as nat,
        ) + seq!['.'] + spec_decimal(((self.ip / 0x100) % 256) as nat) + seq!['.'] + spec_decimal(
            (self.ip % 256) as nat,
        ) + seq![':'] + spec_decimal(self.port as nat)
    }

    pub fn to_string(&self) -> (s: String)
        ensures
            s@ == self.spec_to_string(),
            spec_parse_endpoint(bytes_of(s@)) == Some(*self),
    {
        proof {
            reveal_strlit(".");
            reveal_strlit(":");
            lemma_text_round_trip(*self);
        }
        let mut s = decimal(self.ip / 0x100_0000);
        s.append(".");
        s.append(decimal((self.ip / 0x1_0000) % 256).as_str());
        s.append(".");
        s.append(decimal((self.ip / 0x100) % 256).as_str());
        s.append(".");
        s.append(decimal(self.ip % 256).as_str());
        s.append(":");
        s.append(decimal(self.port as u32).as_str());
        assert(s@ =~= self.spec_to_string());
        s
    }
}

/// The number that decimal digits spell.
pub open spec fn spec_text_value(t: Seq<char>) -> int
    decreases t.len(),
{
    if t.len() == 0 {
        0
    } else {
        spec_text_value(t.drop_last()) * 10 + (t.last() as u8 - 48)
    }
}

/// Whether a text is made of decimal digits.
pub open spec fn is_decimal_text(t: Seq<char>) -> bool {
    forall|i: int| 0 <= i < t.len() ==> 48 <= (#[trigger] t[i]) as u32 <= 57
}

/// The decimal text of a number is one to five digits that spell the number,
/// without a leading zero unless the number is zero.
pub proof fn lemma_decimal(n: nat)
    ensures
        spec_decimal(n).len() >= 1,
        is_decimal_text(spec_decimal(n)),
        spec_text_value(spec_decimal(n)) == n,
        spec_decimal(n).len() > 1 ==> spec_decimal(n)[0] as u32 != 48,
        n < 10 ==> spec_decimal(n).len() == 1,
        n < 100 ==> spec_decimal(n).len() <= 2,
        n < 1000 ==> spec_decimal(n).len() <= 3,
        n > 0 ==> spec_decimal(n)[0] as u32 != 48,
    decreases n,
{
    let t = spec_decimal(n);
    if n < 10 {
        let c = ((48 + n) as u8) as char;
        assert(c as u32 == 48 + n);
        assert(t =~= seq![c]);
        assert(t.drop_last() =~= Seq::<char>::empty());
        assert(spec_text_value(t.drop_last()) == 0);
        assert(t.last() == c);
    } else {
        lemma_decimal(n / 10);
        let h = spec_decimal(n / 10);
        let c = ((48 + n % 10) as u8) as char;
        assert(c as u32 == 48 + n % 10);
        assert(t == h.push(c));
        assert(t.drop_last() =~= h);
        assert(t.last() == c);
        assert(t[0] == h[0]);
        assert forall|i: int| 0 <= i < t.len() implies 48 <= (#[trigger] t[i]) as u32 <= 57 by {
            if i < h.len() {
                assert(t[i] == h[i]);
            }
        }
    }
}

/// A character whose number is below 128 is its own byte.
proof fn lemma_ascii_char(c: char)
    requires
        (c as u32) < 128,
    ensures
        c as u8 == c as u32,
        '\0' <= c <= '\u{7f}',
{
}

/// Where the bytes `s[lo..hi)` are the digits of `t`, they spell what `t`
/// spells.
proof fn lemma_segment_value(s: Seq<u8>, lo: int, hi: int, t: Seq<char>)
    requires
        0 <= lo,
        hi <= s.len(),
        hi - lo == t.len(),
        is_decimal_text(t),
        forall|i: int| 0 <= i < t.len() ==> s[lo + i] == (#[trigger] t[i]) as u8,
    ensures
        all_digits(s, lo, hi, 10),
        spec_value(s, lo, hi, 10) == spec_text_value(t),
    decreases t.len(),
{
    assert forall|i: int| lo <= i < hi implies digit_in(#[trigger] s[i], 10) by {
        let c = t[i - lo];
        lemma_ascii_char(c);
        assert(s[lo + (i - lo)] == c as u8);
    }
    if t.len() > 0 {
        let u = t.drop_last();
        assert forall|i: int| 0 <= i < u.len() implies s[lo + i] == (#[trigger] u[i]) as u8 by {
            assert(u[i] == t[i]);
        }
        assert forall|i: int| 0 <= i < u.len() implies 48 <= (#[trigger] u[i]) as u32 <= 57 by {
            assert(u[i] == t[i]);
        }
        lemma_segment_value(s, lo, hi - 1, u);
        lemma_ascii_char(t[t.len() - 1]);
        assert(s[lo + (t.len() - 1)] == t[t.len() - 1] as u8);
    }
}

/// The first separator after digits is found where it stands.
proof fn lemma_find_after_digits(s: Seq<u8>, from: int, at: int, sep: u8)
    requires
        0 <= from <= at < s.len(),
        s[at] == sep,
        forall|i: int| from <= i < at ==> 48 <= #[trigger] s[i] <= 57,
        sep == 46 || sep == 58,
    ensures
        spec_find(s, from, sep) == at,
    decreases at - from,
{
    if from < at {
        assert(s[from] != sep);
        lemma_find_after_digits(s, from + 1, at, sep);
    }
}

/// An endpoint's text reads back as the endpoint.
#[verifier::rlimit(50)]
pub proof fn lemma_text_round_trip(e: Endpoint)
    ensures
        spec_parse_endpoint(bytes_of(e.spec_to_string())) == Some(e),
{
    let a = (e.ip / 0x100_0000) as nat;
    let b = ((e.ip / 0x1_0000) % 256) as nat;
    let c = ((e.ip / 0x100) % 256) as nat;
    let d = (e.ip % 256) as nat;
    let p = e.port as nat;
    let (ta, tb, tc, td, tp) = (
        spec_decimal(a),
        spec_decimal(b),
        spec_decimal(c),
        spec_decimal(d),
        spec_decimal(p),
    );
    lemma_decimal(a);
    lemma_decimal(b);
    lemma_decimal(c);
    lemma_decimal(d);
    lemma_decimal(p);
    let t = e.spec_to_string();
    let i1 = ta.len() as int;
    let i2 = i1 + 1 + tb.len();
    let i3 = i2 + 1 + tc.len();
    let i4 = i3 + 1 + td.len();
    let n = i4 + 1 + tp.len();
    assert(t == ta + seq!['.'] + tb + seq!['.'] + tc + seq!['.'] + td + seq![':'] + tp);
    assert(t.len() == n);
    assert forall|i: int| 0 <= i < ta.len() implies t[i] == #[trigger] ta[i] by {}
    assert(t[i1] == '.');
    assert forall|i: int| 0 <= i < tb.len() implies t[i1 + 1 + i] == #[trigger] tb[i] by {}
    assert(t[i2] == '.');
    assert forall|i: int| 0 <= i < tc.len() implies t[i2 + 1 + i] == #[trigger] tc[i] by {}
    assert(t[i3] == '.');
    assert forall|i: int| 0 <= i < td.len() implies t[i3 + 1 + i] == #[trigger] td[i] by {}
    assert(t[i4] == ':');
    assert forall|i: int| 0 <= i < tp.len() implies t[i4 + 1 + i] == #[trigger] tp[i] by {}
    assert('.' as u32 == 46 && ':' as u32 == 58);
    assert(vstd::utf8::is_ascii_chars(t)) by {
        assert forall|i: int| 0 <= i < t.len() implies '\0' <= #[trigger] t[i] <= '\u{7f}' by {
            if i < i1 {
                assert(t[i] == ta[i]);
            } else if i == i1 {
            } else if i < i2 {
                assert(t[i1 + 1 + (i - i1 - 1)] == tb[i - i1 - 1]);
            } else if i == i2 {
            } else if i < i3 {
                assert(t[i2 + 1 + (i - i2 - 1)] == tc[i - i2 - 1]);
            } else if i == i3 {
            } else if i < i4 {
                assert(t[i3 + 1 + (i - i3 - 1)] == td[i - i3 - 1]);
            } else if i == i4 {
            } else {
                assert(t[i4 + 1 + (i - i4 - 1)] == tp[i - i4 - 1]);
            }
            lemma_ascii_char(t[i]);
        }
    }
    vstd::utf8::is_ascii_chars_encode_utf8(t);
    let s = bytes_of(t);
    assert(s.len() == n);
    assert forall|i: int| 0 <= i < n implies s[i] == (#[trigger] t[i]) as u8 by {}
    lemma_text_round_trip_bytes(e, s, t, i1, i2, i3, i4);
}

/// The second half of [`lemma_text_round_trip`]: from where the digits and
/// the separators stand in the bytes to what the bytes read as.
proof fn lemma_text_round_trip_bytes(
    e: Endpoint,
    s: Seq<u8>,
    t: Seq<char>,
    i1: int,
    i2: int,
    i3: int,
    i4: int,
)
    requires
        s.len() == t.len(),
        forall|i: int| 0 <= i < t.len() ==> s[i] == (#[trigger] t[i]) as u8,
        ({
            let ta = spec_decimal((e.ip / 0x100_0000) as nat);
            let tb = spec_decimal(((e.ip / 0x1_0000) % 256) as nat);
            let tc = spec_decimal(((e.ip / 0x100) % 256) as nat);
            let td = spec_decimal((e.ip % 256) as nat);
            let tp = spec_decimal(e.port as nat);
            &&& i1 == ta.len()
            &&& i2 == i1 + 1 + tb.len()
            &&& i3 == i2 + 1 + tc.len()
            &&& i4 == i3 + 1 + td.len()
            &&& t.len() == i4 + 1 + tp.len()
            &&& forall|i: int| 0 <= i < ta.len() ==> t[i] == #[trigger] ta[i]
            &&& forall|i: int| 0 <= i < tb.len() ==> t[i1 + 1 + i] == #[trigger] tb[i]
            &&& forall|i: int| 0 <= i < tc.len() ==> t[i2 + 1 + i] == #[trigger] tc[i]
            &&& forall|i: int| 0 <= i < td.len() ==> t[i3 + 1 + i] == #[trigger] td[i]
            &&& forall|i: int| 0 <= i < tp.len() ==> t[i4 + 1 + i] == #[trigger] tp[i]
            &&& t[i1] as u32 == 46
            &&& t[i2] as u32 == 46
            &&& t[i3] as u32 == 46
            &&& t[i4] as u32 == 58
        }),
    ensures
        spec_parse_endpoint(s) == Some(e),
{
    let a = (e.ip / 0x100_0000) as nat;
    let b = ((e.ip / 0x1_0000) % 256) as nat;
    let c = ((e.ip / 0x100) % 256) as nat;
    let d = (e.ip % 256) as nat;
    let p = e.port as nat;
    let (ta, tb, tc, td, tp) = (
        spec_decimal(a),
        spec_decimal(b),
        spec_decimal(c),
        spec_decimal(d),
        spec_decimal(p),
    );
    lemma_decimal(a);
    lemma_decimal(b);
    lemma_decimal(c);
    lemma_decimal(d);
    lemma_decimal(p);
    let n = s.len() as int;
    assert forall|i: int| 0 <= i < ta.len() implies s[0 + i] == (#[trigger] ta[i]) as u8 by {
        assert(t[i] == ta[i]);
    }
    assert forall|i: int| 0 <= i < tb.len() implies s[i1 + 1 + i] == (#[trigger] tb[i]) as u8 by {
        assert(t[i1 + 1 + i] == tb[i]);
    }
    assert forall|i: int| 0 <= i < tc.len() implies s[i2 + 1 + i] == (#[trigger] tc[i]) as u8 by {
        assert(t[i2 + 1 + i] == tc[i]);
    }
    assert forall|i: int| 0 <= i < td.len() implies s[i3 + 1 + i] == (#[trigger] td[i]) as u8 by {
        assert(t[i3 + 1 + i] == td[i]);
    }
    assert forall|i: int| 0 <= i < tp.len() implies s[i4 + 1 + i] == (#[trigger] tp[i]) as u8 by {
        assert(t[i4 + 1 + i] == tp[i]);
    }
    lemma_segment_value(s, 0, i1, ta);
    lemma_segment_value(s, i1 + 1, i2, tb);
    lemma_segment_value(s, i2 + 1, i3, tc);
    lemma_segment_value(s, i3 + 1, i4, td);
    lemma_segment_value(s, i4 + 1, n, tp);
    lemma_ascii_char(t[i1]);
    lemma_ascii_char(t[i2]);
    lemma_ascii_char(t[i3]);
    lemma_ascii_char(t[i4]);
    assert(s[i1] == 46 && s[i2] == 46 && s[i3] == 46 && s[i4] == 58);
    assert forall|i: int| 0 <= i < i1 implies 48 <= #[trigger] s[i] <= 57 by {
        assert(digit_in(s[i], 10));
    }
    assert forall|i: int| i1 + 1 <= i < i2 implies 48 <= #[trigger] s[i] <= 57 by {
        assert(digit_in(s[i], 10));
    }
    assert forall|i: int| i2 + 1 <= i < i3 implies 48 <= #[trigger] s[i] <= 57 by {
        assert(digit_in(s[i], 10));
    }
    assert forall|i: int| i3 + 1 <= i < i4 implies 48 <= #[trigger] s[i] <= 57 by {
        assert(digit_in(s[i], 10));
    }
    lemma_find_after_digits(s, 0, i1, 46);
    lemma_find_after_digits(s, i1 + 1, i2, 46);
    lemma_find_after_digits(s, i2 + 1, i3, 46);
    lemma_find_after_digits(s, i3 + 1, i4, 58);
    lemma_ascii_char(ta[0]);
    lemma_ascii_char(tb[0]);
    lemma_ascii_char(tc[0]);
    lemma_ascii_char(td[0]);
    assert(s[0int + 0] == ta[0] as u8 && s[i1 + 1 + 0] == tb[0] as u8 && s[i2 + 1 + 0]
        == tc[0] as u8 && s[i3 + 1 + 0] == td[0] as u8);
    assert(spec_octet(s, 0, i1) == Some(a as int));
    assert(spec_octet(s, i1 + 1, i2) == Some(b as int));
    assert(spec_octet(s, i2 + 1, i3) == Some(c as int));
    assert(spec_octet(s, i3 + 1, i4) == Some(d as int));
    assert(spec_number(s, i4 + 1, n, 10, 65535) == Some(p as int));
    let ip = e.ip;
    assert(ip == (ip / 0x100_0000) * 0x100_0000 + ((ip / 0x1_0000) % 256) * 0x1_0000 + ((ip
        / 0x100) % 256) * 0x100 + ip % 256) by (bit_vector);
    assert(spec_ipv4(s, 0, i4) == Some(e.ip));
}

} // verus!
