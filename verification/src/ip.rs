use vstd::prelude::*;
use vstd::string::StringExecFns;

verus! {

/// A resolved network address: IPv4 as its four octets, IPv6 as its eight
/// 16-bit segments, most significant first.
#[derive(Clone, Copy, PartialEq, Eq, Structural, Debug)]
pub enum IpAddress {
    V4(u8, u8, u8, u8),
    V6(u16, u16, u16, u16, u16, u16, u16, u16),
}

/// The DNS record type that stores an address of `ip`'s family: `A` for
/// IPv4, `AAAA` for IPv6.
pub open spec fn dns_type_text(ip: IpAddress) -> Seq<char> {
    match ip {
        IpAddress::V4(..) => seq!['A'],
        IpAddress::V6(..) => seq!['A', 'A', 'A', 'A'],
    }
}

/// DNS record type for `ip`'s address family.
pub fn dns_type(ip: &IpAddress) -> (r: &'static str)
    ensures
        r@ == dns_type_text(*ip),
{
    proof {
        reveal_strlit("A");
        reveal_strlit("AAAA");
    }
    match *ip {
        IpAddress::V4(..) => {
            let r = "A";
            proof {
                assert(r@ =~= dns_type_text(*ip));
            }
            r
        },
        IpAddress::V6(..) => {
            let r = "AAAA";
            proof {
                assert(r@ =~= dns_type_text(*ip));
            }
            r
        },
    }
}

/// The character for one decimal digit.
pub open spec fn dec_digit(d: nat) -> char
    recommends
        d < 10,
{
    if d == 0 {
        '0'
    } else if d == 1 {
        '1'
    } else if d == 2 {
        '2'
    } else if d == 3 {
        '3'
    } else if d == 4 {
        '4'
    } else if d == 5 {
        '5'
    } else if d == 6 {
        '6'
    } else if d == 7 {
        '7'
    } else if d == 8 {
        '8'
    } else {
        '9'
    }
}

/// Decimal text of `n`, most significant digit first, no leading zeros.
pub open spec fn dec_text(n: nat) -> Seq<char>
    decreases n,
{
    if n < 10 {
        seq![dec_digit(n)]
    } else {
        dec_text(n / 10) + seq![dec_digit(n % 10)]
    }
}

/// The character for one lowercase hexadecimal digit.
pub open spec fn hex_digit(d: nat) -> char
    recommends
        d < 16,
{
    if d < 10 {
        dec_digit(d)
    } else if d == 10 {
        'a'
    } else if d == 11 {
        'b'
    } else if d == 12 {
        'c'
    } else if d == 13 {
        'd'
    } else if d == 14 {
        'e'
    } else {
        'f'
    }
}

/// Lowercase hexadecimal text of `n`, most significant digit first, no
/// leading zeros.
pub open spec fn hex_text(n: nat) -> Seq<char>
    decreases n,
{
    if n < 16 {
        seq![hex_digit(n)]
    } else {
        hex_text(n / 16) + seq![hex_digit(n % 16)]
    }
}

/// Dotted-decimal text of an IPv4 address.
pub open spec fn ipv4_text(a: u8, b: u8, c: u8, d: u8) -> Seq<char> {
    dec_text(a as nat) + seq!['.'] + dec_text(b as nat) + seq!['.'] + dec_text(c as nat)
        + seq!['.'] + dec_text(d as nat)
}

fn dec_digit_str(d: u8) -> (r: &'static str)
    requires
        d < 10,
    ensures
        r@ == seq![dec_digit(d as nat)],
{
    proof {
        reveal_strlit("0");
        reveal_strlit("1");
        reveal_strlit("2");
        reveal_strlit("3");
        reveal_strlit("4");
        reveal_strlit("5");
        reveal_strlit("6");
        reveal_strlit("7");
        reveal_strlit("8");
        reveal_strlit("9");
    }
    let r = if d == 0 {
        "0"
    } else if d == 1 {
        "1"
    } else if d == 2 {
        "2"
    } else if d == 3 {
        "3"
    } else if d == 4 {
        "4"
    } else if d == 5 {
        "5"
    } else if d == 6 {
        "6"
    } else if d == 7 {
        "7"
    } else if d == 8 {
        "8"
    } else {
        "9"
    };
    proof {
        assert(r@ =~= seq![dec_digit(d as nat)]);
    }
    r
}

fn hex_digit_str(d: u16) -> (r: &'static str)
    requires
        d < 16,
    ensures
        r@ == seq![hex_digit(d as nat)],
{
    proof {
        reveal_strlit("a");
        reveal_strlit("b");
        reveal_strlit("c");
        reveal_strlit("d");
        reveal_strlit("e");
        reveal_strlit("f");
    }
    if d < 10 {
        dec_digit_str(d as u8)
    } else {
        let r = if d == 10 {
            "a"
        } else if d == 11 {
            "b"
        } else if d == 12 {
            "c"
        } else if d == 13 {
            "d"
        } else if d == 14 {
            "e"
        } else {
            "f"
        };
        proof {
            assert(r@ =~= seq![hex_digit(d as nat)]);
        }
        r
    }
}

fn dec_str(n: u8) -> (r: String)
    ensures
        r@ == dec_text(n as nat),
    decreases n,
{
    if n < 10 {
        dec_digit_str(n).to_owned()
    } else {
        let mut r = dec_str(n / 10);
        r.append(dec_digit_str(n % 10));
        r
    }
}

fn hex_str(n: u16) -> (r: String)
    ensures
        r@ == hex_text(n as nat),
    decreases n,
{
    if n < 16 {
        hex_digit_str(n).to_owned()
    } else {
        let mut r = hex_str(n / 16);
        r.append(hex_digit_str(n % 16));
        r
    }
}

fn ipv4_str(a: u8, b: u8, c: u8, d: u8) -> (r: String)
    ensures
        r@ == ipv4_text(a, b, c, d),
{
    proof {
        reveal_strlit(".");
        assert("."@ =~= seq!['.']);
    }
    let mut r = dec_str(a);
    r.append(".");
    r.append(dec_str(b).as_str());
    r.append(".");
    r.append(dec_str(c).as_str());
    r.append(".");
    r.append(dec_str(d).as_str());
    proof {
        assert(r@ =~= ipv4_text(a, b, c, d));
    }
    r
}

/// The eight 16-bit segments of an IPv6 address (empty for IPv4).
pub open spec fn segments(ip: IpAddress) -> Seq<u16> {
    match ip {
        IpAddress::V4(..) => seq![],
        IpAddress::V6(a, b, c, d, e, f, g, h) => seq![a, b, c, d, e, f, g, h],
    }
}

/// Length of the run of zero segments starting at `i`.
pub open spec fn zero_run_len(s: Seq<u16>, i: int) -> nat
    decreases s.len() - i when 0 <= i <= s.len()
{
    if i >= s.len() || s[i] != 0 {
        0
    } else {
        1 + zero_run_len(s, i + 1)
    }
}

/// Start and length of the leftmost longest run of zero segments at or
/// after `i`; a tie goes to the earlier start.
pub open spec fn best_zero_run(s: Seq<u16>, i: int) -> (int, nat)
    decreases s.len() - i when 0 <= i <= s.len()
{
    if i >= s.len() {
        (i, 0)
    } else {
        let cur = zero_run_len(s, i);
        let rest = best_zero_run(s, i + 1);
        if cur >= rest.1 {
            (i, cur)
        } else {
            rest
        }
    }
}

/// Hexadecimal texts of the segments of `s`, joined by `:`.
pub open spec fn hex_join(s: Seq<u16>) -> Seq<char>
    decreases s.len(),
{
    if s.len() == 0 {
        seq![]
    } else if s.len() == 1 {
        hex_text(s[0] as nat)
    } else {
        hex_text(s[0] as nat) + seq![':'] + hex_join(s.skip(1))
    }
}

/// Canonical text of the eight IPv6 segments `s`: lowercase hex groups
/// joined by `:`, the leftmost longest run of two or more zero groups
/// compressed to `::`, and the IPv4-mapped prefix rendered as
/// `::ffff:a.b.c.d`.
pub open spec fn ipv6_text(s: Seq<u16>) -> Seq<char>
    recommends
        s.len() == 8,
{
    if s[0] == 0 && s[1] == 0 && s[2] == 0 && s[3] == 0 && s[4] == 0 && s[5] == 0xffff {
        seq![':', ':', 'f', 'f', 'f', 'f', ':'] + ipv4_text(
            (s[6] / 256) as u8,
            (s[6] % 256) as u8,
            (s[7] / 256) as u8,
            (s[7] % 256) as u8,
        )
    } else {
        let run = best_zero_run(s, 0);
        if run.1 > 1 {
            hex_join(s.take(run.0)) + seq![':', ':'] + hex_join(s.skip(run.0 + run.1))
        } else {
            hex_join(s)
        }
    }
}

/// Canonical text of `ip`: dotted decimal for IPv4, the compressed
/// lowercase form for IPv6.
pub open spec fn ip_text(ip: IpAddress) -> Seq<char> {
    match ip {
        IpAddress::V4(a, b, c, d) => ipv4_text(a, b, c, d),
        IpAddress::V6(..) => ipv6_text(segments(ip)),
    }
}

fn zero_run_len_at(s: &Vec<u16>, i: usize) -> (r: usize)
    requires
        i <= s.len(),
    ensures
        r as nat == zero_run_len(s@, i as int),
        i + r <= s.len(),
    decreases s.len() - i,
{
    if i == s.len() {
        0
    } else if s[i] != 0 {
        0
    } else {
        1 + zero_run_len_at(s, i + 1)
    }
}

fn best_zero_run_at(s: &Vec<u16>, i: usize) -> (r: (usize, usize))
    requires
        i <= s.len(),
    ensures
        r.0 as int == best_zero_run(s@, i as int).0,
        r.1 as nat == best_zero_run(s@, i as int).1,
        i <= r.0,
        r.0 + r.1 <= s.len(),
    decreases s.len() - i,
{
    if i == s.len() {
        (i, 0)
    } else {
        let cur = zero_run_len_at(s, i);
        let rest = best_zero_run_at(s, i + 1);
        if cur >= rest.1 {
            (i, cur)
        } else {
            rest
        }
    }
}

fn hex_join_str(s: &Vec<u16>, from: usize, to: usize) -> (r: String)
    requires
        from <= to <= s.len(),
    ensures
        r@ == hex_join(s@.subrange(from as int, to as int)),
    decreases to - from,
{
    proof {
        reveal_strlit(":");
        assert(":"@ =~= seq![':']);
    }
    if from == to {
        let r = String::new();
        proof {
            assert(r@ =~= hex_join(s@.subrange(from as int, to as int)));
        }
        r
    } else if from + 1 == to {
        hex_str(s[from])
    } else {
        let mut r = hex_str(s[from]);
        r.append(":");
        let rest = hex_join_str(s, from + 1, to);
        r.append(rest.as_str());
        proof {
            assert(s@.subrange(from as int, to as int).skip(1) =~= s@.subrange(
                from as int + 1,
                to as int,
            ));
            assert(r@ =~= hex_join(s@.subrange(from as int, to as int)));
        }
        r
    }
}

fn ipv6_str(s: &Vec<u16>) -> (r: String)
    requires
        s@.len() == 8,
    ensures
        r@ == ipv6_text(s@),
{
    if s[0] == 0 && s[1] == 0 && s[2] == 0 && s[3] == 0 && s[4] == 0 && s[5] == 0xffff {
        proof {
            reveal_strlit("::ffff:");
            assert("::ffff:"@ =~= seq![':', ':', 'f', 'f', 'f', 'f', ':']);
        }
        let mut r = String::from_str("::ffff:");
        let v4 = ipv4_str(
            (s[6] / 256) as u8,
            (s[6] % 256) as u8,
            (s[7] / 256) as u8,
            (s[7] % 256) as u8,
        );
        r.append(v4.as_str());
        r
    } else {
        let run = best_zero_run_at(s, 0);
        if run.1 > 1 {
            proof {
                reveal_strlit("::");
                assert("::"@ =~= seq![':', ':']);
            }
            let mut r = hex_join_str(s, 0, run.0);
            r.append("::");
            let tail = hex_join_str(s, run.0 + run.1, s.len());
            r.append(tail.as_str());
            proof {
                let spec_run = best_zero_run(s@, 0);
                assert(s@.take(spec_run.0) =~= s@.subrange(0, run.0 as int));
                assert(s@.skip(spec_run.0 + spec_run.1) =~= s@.subrange(
                    run.0 as int + run.1 as int,
                    s@.len() as int,
                ));
                assert(r@ =~= ipv6_text(s@));
            }
            r
        } else {
            let r = hex_join_str(s, 0, s.len());
            proof {
                assert(s@.subrange(0, s@.len() as int) =~= s@);
            }
            r
        }
    }
}

impl IpAddress {
    /// Canonical textual form of the address: dotted decimal for IPv4;
    /// for IPv6, lowercase hex segments with the leftmost longest zero
    /// run of two or more groups compressed to `::` and the IPv4-mapped
    /// prefix rendered as `::ffff:a.b.c.d`.
    pub fn to_text(&self) -> (r: String)
        ensures
            r@ == ip_text(*self),
    {
        match *self {
            IpAddress::V4(a, b, c, d) => ipv4_str(a, b, c, d),
            IpAddress::V6(a, b, c, d, e, f, g, h) => {
                let mut segs: Vec<u16> = Vec::new();
                segs.push(a);
                segs.push(b);
                segs.push(c);
                segs.push(d);
                segs.push(e);
                segs.push(f);
                segs.push(g);
                segs.push(h);
                proof {
                    assert(segs@ =~= segments(*self));
                }
                ipv6_str(&segs)
            },
        }
    }
}

} // verus!
