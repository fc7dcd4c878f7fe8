//! Network addresses as plain values.

use vstd::prelude::*;

use crate::proto;
use crate::text;

verus! {

/// An IP address.
#[derive(Debug, Clone, Copy, PartialEq, Eq, Structural)]
pub enum Ip {
    /// The four octets.
    V4(u8, u8, u8, u8),
    /// The eight segments.
    V6(u16, u16, u16, u16, u16, u16, u16, u16),
}

/// An address with a port.
#[derive(Debug, Clone, Copy, PartialEq, Eq, Structural)]
pub struct Endpoint {
    pub ip: Ip,
    pub port: u16,
}

impl Ip {
    /// Whether the address is the machine itself: `127.0.0.0/8` or `::1`.
    pub open spec fn loopback(self) -> bool {
        match self {
            Ip::V4(a, _, _, _) => a == 127,
            Ip::V6(a, b, c, d, e, f, g, h) => a == 0 && b == 0 && c == 0 && d == 0 && e == 0 && f
                == 0 && g == 0 && h == 1,
        }
    }

    /// Whether the address is the machine itself.
    pub fn is_loopback(&self) -> (r: bool)
        ensures
            r == self.loopback(),
    {
        match *self {
            Ip::V4(a, _, _, _) => a == 127,
            Ip::V6(a, b, c, d, e, f, g, h) => a == 0 && b == 0 && c == 0 && d == 0 && e == 0 && f
                == 0 && g == 0 && h == 1,
        }
    }
}

// ---- How addresses are written ------------------------------------------

/// A number to the base sixteen, without leading zeros.
pub open spec fn hex(n: nat) -> Seq<char>
    decreases n,
{
    if n < 16 {
        seq![proto::hex_digit(n as int)]
    } else {
        hex(n / 16).push(proto::hex_digit(n as int % 16))
    }
}

/// Four octets with dots between them.
pub open spec fn dotted(a: u8, b: u8, c: u8, d: u8) -> Seq<char> {
    text::digits(a as nat) + "."@ + text::digits(b as nat) + "."@ + text::digits(c as nat) + "."@
        + text::digits(d as nat)
}

/// How many segments from `i` on are zero.
pub open spec fn zeros_at(s: Seq<u16>, i: int) -> int
    decreases s.len() - i,
{
    if i >= s.len() || s[i] != 0 {
        0
    } else {
        1 + zeros_at(s, i + 1)
    }
}

/// Where, before `n`, the longest run of zeros begins; of two as long the first.
pub open spec fn longest_zeros(s: Seq<u16>, n: int) -> int
    decreases n,
{
    if n <= 0 {
        0
    } else {
        let before = longest_zeros(s, n - 1);
        if zeros_at(s, n - 1) > zeros_at(s, before) {
            n - 1
        } else {
            before
        }
    }
}

/// Segments with colons between them.
pub open spec fn groups(s: Seq<u16>) -> Seq<char> {
    text::join(s.map_values(|x: u16| hex(x as nat)), ":"@)
}

/// Whether eight segments stand for an IPv4 address.
pub open spec fn is_mapped(s: Seq<u16>) -> bool {
    s[0] == 0 && s[1] == 0 && s[2] == 0 && s[3] == 0 && s[4] == 0 && s[5] == 0xffff
}

/// Eight segments as text: an IPv4 address that they stand for with dots; else the
/// longest run of two or more zeros left out.
pub open spec fn segments_text(s: Seq<u16>) -> Seq<char> {
    if is_mapped(s) {
        "::ffff:"@ + dotted(
            (s[6] / 256) as u8,
            (s[6] % 256) as u8,
            (s[7] / 256) as u8,
            (s[7] % 256) as u8,
        )
    } else {
        let at = longest_zeros(s, 8);
        let n = zeros_at(s, at);
        if n > 1 {
            groups(s.take(at)) + "::"@ + groups(s.skip(at + n))
        } else {
            groups(s)
        }
    }
}

impl Ip {
    /// The address as text.
    pub open spec fn text(self) -> Seq<char> {
        match self {
            Ip::V4(a, b, c, d) => dotted(a, b, c, d),
            Ip::V6(a, b, c, d, e, f, g, h) => segments_text(seq![a, b, c, d, e, f, g, h]),
        }
    }

    /// The address as text.
    pub fn to_text(&self) -> (r: String)
        ensures
            r@ == self.text(),
    {
        match *self {
            Ip::V4(a, b, c, d) => write_dotted(a, b, c, d),
            Ip::V6(a, b, c, d, e, f, g, h) => {
                let s: Vec<u16> = vec![a, b, c, d, e, f, g, h];
                assert(s@ =~= seq![a, b, c, d, e, f, g, h]);
                write_segments(&s)
            },
        }
    }
}

impl Endpoint {
    /// The address and the port as text; an IPv6 address stands in brackets.
    pub open spec fn text(self) -> Seq<char> {
        match self.ip {
            Ip::V4(..) => self.ip.text() + ":"@ + text::digits(self.port as nat),
            Ip::V6(..) => "["@ + self.ip.text() + "]:"@ + text::digits(self.port as nat),
        }
    }

    /// The address and the port as text.
    pub fn to_text(&self) -> (r: String)
        ensures
            r@ == self.text(),
    {
        let ip = self.ip.to_text();
        let mut out = match self.ip {
            Ip::V4(..) => ip.concat(":"),
            Ip::V6(..) => text::own("[").concat(ip.as_str()).concat("]:"),
        };
        text::push_digits(&mut out, self.port as u64);
        out
    }
}

/// A number to the base sixteen.
fn write_hex(n: u16) -> (r: String)
    ensures
        r@ == hex(n as nat),
    decreases n,
{
    let mut out = if n < 16 {
        String::new()
    } else {
        write_hex(n / 16)
    };
    let ghost before = out@;
    out.push(proto::to_hex_digit((n % 16) as u8));
    assert(out@ =~= before.push(proto::hex_digit(n as int % 16)));
    if n < 16 {
        assert(out@ =~= hex(n as nat));
    }
    out
}

/// Four octets with dots between them.
fn write_dotted(a: u8, b: u8, c: u8, d: u8) -> (r: String)
    ensures
        r@ == dotted(a, b, c, d),
{
    let mut out = text::number(a as u64);
    out.append(".");
    text::push_digits(&mut out, b as u64);
    out.append(".");
    text::push_digits(&mut out, c as u64);
    out.append(".");
    text::push_digits(&mut out, d as u64);
    out
}

/// Segments with colons between them.
fn write_groups(s: &Vec<u16>, from: usize, to: usize) -> (r: String)
    requires
        from <= to <= s.len(),
    ensures
        r@ == groups(s@.subrange(from as int, to as int)),
{
    let ghost part = s@.subrange(from as int, to as int);
    let ghost all = part.map_values(|x: u16| hex(x as nat));
    let mut out: Vec<String> = Vec::new();
    let mut i: usize = from;
    while i < to
        invariant
            from <= i <= to <= s.len(),
            part == s@.subrange(from as int, to as int),
            all == part.map_values(|x: u16| hex(x as nat)),
            out@.len() == i - from,
            forall|k: int| 0 <= k < out@.len() ==> (#[trigger] out@[k])@ == all[k],
        decreases to - i,
    {
        out.push(write_hex(s[i]));
        i += 1;
    }
    assert(text::texts(out@) =~= all);
    text::joined(&out, ":")
}

/// How many segments from `i` on are zero.
fn count_zeros(s: &Vec<u16>, i: usize) -> (r: usize)
    requires
        i <= s.len(),
    ensures
        r == zeros_at(s@, i as int),
        i + r <= s.len(),
    decreases s.len() - i,
{
    if i >= s.len() || s[i] != 0 {
        0
    } else {
        1 + count_zeros(s, i + 1)
    }
}

/// Eight segments as text.
fn write_segments(s: &Vec<u16>) -> (r: String)
    requires
        s.len() == 8,
    ensures
        r@ == segments_text(s@),
{
    if s[0] == 0 && s[1] == 0 && s[2] == 0 && s[3] == 0 && s[4] == 0 && s[5] == 0xffff {
        let v4 = write_dotted(
            (s[6] / 256) as u8,
            (s[6] % 256) as u8,
            (s[7] / 256) as u8,
            (s[7] % 256) as u8,
        );
        return text::own("::ffff:").concat(v4.as_str());
    }
    let mut at: usize = 0;
    let mut i: usize = 0;
    while i < 8
        invariant
            i <= 8,
            at < 8,
            s.len() == 8,
            at == longest_zeros(s@, i as int),
        decreases 8 - i,
    {
        if count_zeros(s, i) > count_zeros(s, at) {
            at = i;
        }
        i += 1;
    }
    let n: usize = count_zeros(s, at);
    assert(s@.subrange(0, at as int) =~= s@.take(at as int));
    assert(s@.subrange(at + n, 8) =~= s@.skip(at + n));
    assert(s@.subrange(0, 8) =~= s@);
    if n > 1 {
        write_groups(s, 0, at).concat("::").concat(write_groups(s, at + n, 8).as_str())
    } else {
        write_groups(s, 0, 8)
    }
}

// ---- Laws ---------------------------------------------------------------

/// An address of four octets is written with points, and with a colon before its port; an
/// address of eight segments stands in brackets before its port.
pub proof fn law_how_endpoints_are_written(a: u8, b: u8, c: u8, d: u8, ip: Ip, port: u16)
    ensures
        Ip::V4(a, b, c, d).text() == text::digits(a as nat) + "."@ + text::digits(b as nat) + "."@
            + text::digits(c as nat) + "."@ + text::digits(d as nat),
        ip is V4 ==> (Endpoint { ip, port }).text() == ip.text() + ":"@ + text::digits(
            port as nat,
        ),
        ip is V6 ==> (Endpoint { ip, port }).text() == "["@ + ip.text() + "]:"@ + text::digits(
            port as nat,
        ),
        Ip::V4(127, b, c, d).loopback(),
        a != 127 ==> !Ip::V4(a, b, c, d).loopback(),
        Ip::V6(0, 0, 0, 0, 0, 0, 0, 1).loopback(),
        !Ip::V6(0, 0, 0, 0, 0, 0, 0, 0).loopback(),
{
}

/// A number to the base sixteen: its last digit is the rest, and the digits before are
/// those of the quotient; it has no leading zero.
pub proof fn law_base_sixteen(n: nat)
    ensures
        n >= 16 ==> hex(n) == hex(n / 16) + hex(n % 16),
        hex(n % 16).len() == 1,
        n % 16 < 10 ==> hex(n % 16)[0] as int == 0x30 + n % 16,
        n % 16 >= 10 ==> hex(n % 16)[0] as int == 'a' as int + (n % 16 - 10),
        n > 0 ==> hex(n)[0] != '0',
    decreases n,
{
    if n >= 16 {
        law_base_sixteen(n / 16);
        assert(hex(n) =~= hex(n / 16) + hex(n % 16));
        lemma_hex_not_empty(n / 16);
        assert(hex(n)[0] == hex(n / 16)[0]);
    }
}

proof fn lemma_hex_not_empty(n: nat)
    ensures
        hex(n).len() > 0,
    decreases n,
{
    if n >= 16 {
        lemma_hex_not_empty(n / 16);
    }
}

/// An address of eight segments: one that stands for four octets shows them; without two
/// zeros in a row all segments are written; and a run of zeros that is left out is the
/// longest, the first of those as long.
pub proof fn law_how_segments_are_written(s: Seq<u16>)
    requires
        s.len() == 8,
    ensures
        s.take(5) == seq![0u16, 0u16, 0u16, 0u16, 0u16] && s[5] == 0xffff ==> segments_text(s)
            == "::ffff:"@ + (text::digits((s[6] / 256) as nat) + "."@ + text::digits(
            (s[6] % 256) as nat,
        ) + "."@ + text::digits((s[7] / 256) as nat) + "."@ + text::digits((s[7] % 256) as nat)),
        (forall|i: int| 0 <= i < 7 ==> !(#[trigger] s[i] == 0 && s[i + 1] == 0)) ==> segments_text(
            s,
        ) == text::join(s.map_values(|x: u16| hex(x as nat)), ":"@),
        ({
            let at = longest_zeros(s, 8);
            &&& 0 <= at < 8
            &&& forall|i: int| 0 <= i < 8 ==> #[trigger] zeros_at(s, i) <= zeros_at(s, at)
            &&& forall|i: int| 0 <= i < at ==> #[trigger] zeros_at(s, i) < zeros_at(s, at)
        }),
{
    if s.take(5) == seq![0u16, 0u16, 0u16, 0u16, 0u16] {
        assert(s[0] == s.take(5)[0] && s[1] == s.take(5)[1] && s[2] == s.take(5)[2]);
        assert(s[3] == s.take(5)[3] && s[4] == s.take(5)[4]);
    }
    lemma_longest_is_longest(s, 8);
    if forall|i: int| 0 <= i < 7 ==> !(#[trigger] s[i] == 0 && s[i + 1] == 0) {
        let at = longest_zeros(s, 8);
        reveal_with_fuel(zeros_at, 3);
        assert(zeros_at(s, at) <= 1) by {
            if at < 7 {
                assert(!(s[at] == 0 && s[at + 1] == 0));
            }
        }
        assert(!(s[0] == 0 && s[1] == 0));
    }
}

proof fn lemma_longest_is_longest(s: Seq<u16>, n: int)
    requires
        1 <= n <= s.len(),
    ensures
        0 <= longest_zeros(s, n) < n,
        forall|i: int|
            0 <= i < n ==> #[trigger] zeros_at(s, i) <= zeros_at(s, longest_zeros(s, n)),
        forall|i: int|
            0 <= i < longest_zeros(s, n) ==> #[trigger] zeros_at(s, i) < zeros_at(
                s,
                longest_zeros(s, n),
            ),
    decreases n,
{
    if n > 1 {
        lemma_longest_is_longest(s, n - 1);
    } else {
        reveal_with_fuel(longest_zeros, 2);
    }
}

/// A run of two or more zeros is left out once; what stands before it and after it is
/// written with colons.
pub proof fn law_run_of_zeros_is_left_out(s: Seq<u16>)
    requires
        s.len() == 8,
        zeros_at(s, longest_zeros(s, 8)) > 1,
        s[5] != 0xffff,
    ensures
        ({
            let at = longest_zeros(s, 8);
            let n = zeros_at(s, at);
            segments_text(s) == text::join(
                s.take(at).map_values(|x: u16| hex(x as nat)),
                ":"@,
            ) + "::"@ + text::join(s.skip(at + n).map_values(|x: u16| hex(x as nat)), ":"@)
        }),
{
}

/// The zeros from a place on are the zeros there are.
pub proof fn law_zeros_are_counted(s: Seq<u16>, i: int)
    requires
        0 <= i <= s.len(),
    ensures
        0 <= zeros_at(s, i) <= s.len() - i,
        forall|j: int| i <= j < i + zeros_at(s, i) ==> #[trigger] s[j] == 0,
        i + zeros_at(s, i) < s.len() ==> s[i + zeros_at(s, i)] != 0,
    decreases s.len() - i,
{
    if i < s.len() && s[i] == 0 {
        law_zeros_are_counted(s, i + 1);
    }
}

} // verus!
