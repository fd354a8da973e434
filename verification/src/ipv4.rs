//! Dotted-quad IPv4 addresses: reading one from text and writing one out.
//!
//! An address is accepted in exactly the form that writing it produces:
//! four decimal octets separated by dots, each without a leading zero.
use vstd::prelude::*;

verus! {

/// The four octets of an IPv4 address, most significant first.
#[derive(Clone, Copy, Debug, PartialEq, Eq, Structural)]
pub struct Ipv4Address(pub u8, pub u8, pub u8, pub u8);

/// The character of the decimal digit `d`.
pub open spec fn digit_char(d: int) -> char {
    (48 + d) as char
}

/// An ASCII decimal digit.
pub open spec fn is_digit(c: char) -> bool {
    48 <= c as u32 <= 57
}

/// The value of an ASCII decimal digit.
pub open spec fn digit_value(c: char) -> int {
    c as u32 - 48
}

/// The decimal form of an octet, without leading zeros.
pub open spec fn decimal_text(v: u8) -> Seq<char> {
    let n: int = v as int;
    if n < 10 {
        seq![digit_char(n)]
    } else if n < 100 {
        seq![digit_char(n / 10), digit_char(n % 10)]
    } else {
        seq![digit_char(n / 100), digit_char((n / 10) % 10), digit_char(n % 10)]
    }
}

/// The dotted-quad form of an address.
pub open spec fn ipv4_text(a: Ipv4Address) -> Seq<char> {
    decimal_text(a.0) + seq!['.'] + decimal_text(a.1) + seq!['.'] + decimal_text(a.2) + seq!['.']
        + decimal_text(a.3)
}

/// Text that is the dotted-quad form of some address.
pub open spec fn is_ipv4_text(s: Seq<char>) -> bool {
    exists|a: Ipv4Address| #[trigger] ipv4_text(a) == s
}

/// The address that `s` is the dotted-quad form of, if it is one.
pub open spec fn ipv4_from_text(s: Seq<char>) -> Option<Ipv4Address> {
    if is_ipv4_text(s) {
        Some(choose|a: Ipv4Address| #[trigger] ipv4_text(a) == s)
    } else {
        None
    }
}

/// The shape of the decimal form of an octet: one to three digits, no leading
/// zero, and the digits give back the octet.
pub proof fn lemma_decimal_text_shape(v: u8)
    ensures
        1 <= decimal_text(v).len() <= 3,
        forall|k: int| 0 <= k < decimal_text(v).len() ==> is_digit(#[trigger] decimal_text(v)[k]),
        forall|k: int| 0 <= k < decimal_text(v).len() ==> #[trigger] decimal_text(v)[k] != '.',
        decimal_text(v).len() == 1 <==> v < 10,
        decimal_text(v).len() == 2 <==> 10 <= v < 100,
        decimal_text(v).len() == 3 <==> 100 <= v,
        decimal_text(v).len() > 1 ==> decimal_text(v)[0] != '0',
        decimal_text(v).len() == 1 ==> digit_value(decimal_text(v)[0]) == v,
        decimal_text(v).len() == 2 ==> digit_value(decimal_text(v)[0]) * 10 + digit_value(
            decimal_text(v)[1],
        ) == v,
        decimal_text(v).len() == 3 ==> digit_value(decimal_text(v)[0]) * 100 + digit_value(
            decimal_text(v)[1],
        ) * 10 + digit_value(decimal_text(v)[2]) == v,
{
    assert('0' as u32 == 48);
    assert('.' as u32 == 46);
}

/// Where the dots of the dotted-quad form of `a` stand.
pub open spec fn first_dot(a: Ipv4Address) -> int {
    decimal_text(a.0).len() as int
}

/// Where the second dot of the dotted-quad form of `a` stands.
pub open spec fn second_dot(a: Ipv4Address) -> int {
    first_dot(a) + 1 + decimal_text(a.1).len()
}

/// Where the third dot of the dotted-quad form of `a` stands.
pub open spec fn third_dot(a: Ipv4Address) -> int {
    second_dot(a) + 1 + decimal_text(a.2).len()
}

/// The dotted-quad form of `a` has dots at three known places, none
/// elsewhere, and the octets' decimal forms between them.
pub proof fn lemma_ipv4_text_structure(a: Ipv4Address)
    ensures
        ipv4_text(a).len() == third_dot(a) + 1 + decimal_text(a.3).len(),
        0 < first_dot(a) < second_dot(a) - 1,
        second_dot(a) < third_dot(a) - 1,
        third_dot(a) < ipv4_text(a).len() - 1,
        ipv4_text(a)[first_dot(a)] == '.',
        ipv4_text(a)[second_dot(a)] == '.',
        ipv4_text(a)[third_dot(a)] == '.',
        forall|k: int|
            0 <= k < ipv4_text(a).len() && k != first_dot(a) && k != second_dot(a) && k
                != third_dot(a) ==> #[trigger] ipv4_text(a)[k] != '.',
        ipv4_text(a).subrange(0, first_dot(a)) == decimal_text(a.0),
        ipv4_text(a).subrange(first_dot(a) + 1, second_dot(a)) == decimal_text(a.1),
        ipv4_text(a).subrange(second_dot(a) + 1, third_dot(a)) == decimal_text(a.2),
        ipv4_text(a).subrange(third_dot(a) + 1, ipv4_text(a).len() as int) == decimal_text(a.3),
{
    lemma_decimal_text_shape(a.0);
    lemma_decimal_text_shape(a.1);
    lemma_decimal_text_shape(a.2);
    lemma_decimal_text_shape(a.3);
    let t = ipv4_text(a);
    let d0 = decimal_text(a.0);
    let d1 = decimal_text(a.1);
    let d2 = decimal_text(a.2);
    let d3 = decimal_text(a.3);
    let p0: int = first_dot(a);
    let p1: int = second_dot(a);
    let p2: int = third_dot(a);
    assert forall|k: int| 0 <= k < t.len() implies t[k] == (if k < p0 {
        d0[k]
    } else if k == p0 {
        '.'
    } else if k < p1 {
        d1[k - p0 - 1]
    } else if k == p1 {
        '.'
    } else if k < p2 {
        d2[k - p1 - 1]
    } else if k == p2 {
        '.'
    } else {
        d3[k - p2 - 1]
    }) by {}
    assert(t.subrange(0, p0) =~= d0);
    assert(t.subrange(p0 + 1, p1) =~= d1);
    assert(t.subrange(p1 + 1, p2) =~= d2);
    assert(t.subrange(p2 + 1, t.len() as int) =~= d3);
}

/// The first position at or after `from` that holds `c`, or the length of
/// `s` where there is none.
fn find_char_from(s: &str, c: char, from: usize) -> (r: usize)
    requires
        from <= s@.len(),
    ensures
        from <= r <= s@.len(),
        forall|k: int| from <= k < r ==> s@[k] != c,
        r < s@.len() ==> s@[r as int] == c,
{
    let n: usize = s.unicode_len();
    let mut i: usize = from;
    while i < n
        invariant
            n == s@.len(),
            from <= i <= n,
            forall|k: int| from <= k < i ==> s@[k] != c,
        decreases n - i,
    {
        if s.get_char(i) == c {
            return i;
        }
        i = i + 1;
    }
    i
}

/// Reads the octet written in `s` from `lo` up to `hi`.
fn parse_octet(s: &str, lo: usize, hi: usize) -> (r: Option<u8>)
    requires
        lo <= hi <= s@.len(),
    ensures
        r matches Some(v) ==> s@.subrange(lo as int, hi as int) == decimal_text(v),
        r is None ==> forall|v: u8| #[trigger] decimal_text(v) != s@.subrange(lo as int, hi as int),
{
    let ghost f = s@.subrange(lo as int, hi as int);
    let len: usize = hi - lo;
    if len == 0 || len > 3 {
        proof {
            assert forall|v: u8| #[trigger] decimal_text(v) != f by {
                lemma_decimal_text_shape(v);
            }
        }
        return None;
    }
    let c0: u32 = s.get_char(lo) as u32;
    let c1: u32 = if len > 1 {
        s.get_char(lo + 1) as u32
    } else {
        48
    };
    let c2: u32 = if len > 2 {
        s.get_char(lo + 2) as u32
    } else {
        48
    };
    assert(f[0] == s@[lo as int]);
    assert(len > 1 ==> f[1] == s@[lo + 1]);
    assert(len > 2 ==> f[2] == s@[lo + 2]);
    if c0 < 48 || c0 > 57 || c1 < 48 || c1 > 57 || c2 < 48 || c2 > 57 || (len > 1 && c0 == 48) {
        proof {
            assert forall|v: u8| #[trigger] decimal_text(v) != f by {
                lemma_decimal_text_shape(v);
                if decimal_text(v) == f {
                    assert(is_digit(f[0]));
                    assert(len > 1 ==> is_digit(f[1]));
                    assert(len > 2 ==> is_digit(f[2]));
                }
            }
        }
        return None;
    }
    let value: u32 = if len == 1 {
        c0 - 48
    } else if len == 2 {
        (c0 - 48) * 10 + (c1 - 48)
    } else {
        (c0 - 48) * 100 + (c1 - 48) * 10 + (c2 - 48)
    };
    if value > 255 {
        proof {
            assert forall|v: u8| #[trigger] decimal_text(v) != f by {
                lemma_decimal_text_shape(v);
            }
        }
        return None;
    }
    let v: u8 = value as u8;
    proof {
        lemma_decimal_text_shape(v);
        assert(f =~= decimal_text(v));
    }
    Some(v)
}

/// A scan for a dot that starts at `from` stops at the first dot at or after
/// `from`.
proof fn lemma_scan_stops_at(s: Seq<char>, from: int, r: int, p: int)
    requires
        0 <= from <= p < s.len(),
        s[p] == '.',
        forall|k: int| from <= k < p ==> s[k] != '.',
        from <= r <= s.len(),
        forall|k: int| from <= k < r ==> s[k] != '.',
        r < s.len() ==> s[r] == '.',
    ensures
        r == p,
{
    if r < p {
        assert(s[r] != '.');
    }
    if r > p {
        assert(s[p] != '.');
    }
}

/// On the dotted-quad form of `a`, a scan for a dot from `from` stops at
/// `next`, where the dot after `from` stands.
proof fn lemma_scan_on_ipv4_text(a: Ipv4Address, from: int, next: int, r: int)
    requires
        (from == 0 && next == first_dot(a)) || (from == first_dot(a) + 1 && next == second_dot(a))
            || (from == second_dot(a) + 1 && next == third_dot(a)),
        from <= r <= ipv4_text(a).len(),
        forall|k: int| from <= k < r ==> ipv4_text(a)[k] != '.',
        r < ipv4_text(a).len() ==> ipv4_text(a)[r] == '.',
    ensures
        r == next,
        next < ipv4_text(a).len(),
{
    lemma_ipv4_text_structure(a);
    let t = ipv4_text(a);
    assert forall|k: int| from <= k < next implies t[k] != '.' by {}
    lemma_scan_stops_at(t, from, r, next);
}

/// On the dotted-quad form of `a`, no dot follows the third.
proof fn lemma_scan_past_last_dot(a: Ipv4Address, r: int)
    requires
        third_dot(a) + 1 <= r <= ipv4_text(a).len(),
        r < ipv4_text(a).len() ==> ipv4_text(a)[r] == '.',
    ensures
        r == ipv4_text(a).len(),
{
    lemma_ipv4_text_structure(a);
}

/// Reads a dotted-quad IPv4 address, as `Ipv4Addr`'s `FromStr` does: four
/// decimal octets separated by dots, each of one to three digits without a
/// leading zero and at most 255; nothing else may stand in the text.
pub fn parse_ipv4(s: &str) -> (r: Option<Ipv4Address>)
    ensures
        r == ipv4_from_text(s@),
{
    let n: usize = s.unicode_len();
    let d0: usize = find_char_from(s, '.', 0);
    if d0 == n {
        proof {
            assert forall|a: Ipv4Address| #[trigger] ipv4_text(a) != s@ by {
                if ipv4_text(a) == s@ {
                    lemma_scan_on_ipv4_text(a, 0, first_dot(a), d0 as int);
                }
            }
        }
        return None;
    }
    let d1: usize = find_char_from(s, '.', d0 + 1);
    if d1 == n {
        proof {
            assert forall|a: Ipv4Address| #[trigger] ipv4_text(a) != s@ by {
                if ipv4_text(a) == s@ {
                    lemma_scan_on_ipv4_text(a, 0, first_dot(a), d0 as int);
                    lemma_scan_on_ipv4_text(a, d0 + 1, second_dot(a), d1 as int);
                }
            }
        }
        return None;
    }
    let d2: usize = find_char_from(s, '.', d1 + 1);
    if d2 == n {
        proof {
            assert forall|a: Ipv4Address| #[trigger] ipv4_text(a) != s@ by {
                if ipv4_text(a) == s@ {
                    lemma_scan_on_ipv4_text(a, 0, first_dot(a), d0 as int);
                    lemma_scan_on_ipv4_text(a, d0 + 1, second_dot(a), d1 as int);
                    lemma_scan_on_ipv4_text(a, d1 + 1, third_dot(a), d2 as int);
                }
            }
        }
        return None;
    }
    let d3: usize = find_char_from(s, '.', d2 + 1);
    if d3 != n {
        proof {
            assert forall|a: Ipv4Address| #[trigger] ipv4_text(a) != s@ by {
                if ipv4_text(a) == s@ {
                    lemma_scan_on_ipv4_text(a, 0, first_dot(a), d0 as int);
                    lemma_scan_on_ipv4_text(a, d0 + 1, second_dot(a), d1 as int);
                    lemma_scan_on_ipv4_text(a, d1 + 1, third_dot(a), d2 as int);
                    lemma_scan_past_last_dot(a, d3 as int);
                }
            }
        }
        return None;
    }
    let o0 = parse_octet(s, 0, d0);
    let o1 = parse_octet(s, d0 + 1, d1);
    let o2 = parse_octet(s, d1 + 1, d2);
    let o3 = parse_octet(s, d2 + 1, n);
    match (o0, o1, o2, o3) {
        (Some(a0), Some(a1), Some(a2), Some(a3)) => {
            let a = Ipv4Address(a0, a1, a2, a3);
            proof {
                assert(s@ =~= s@.subrange(0, d0 as int) + seq!['.'] + s@.subrange(
                    d0 + 1,
                    d1 as int,
                ) + seq!['.'] + s@.subrange(d1 + 1, d2 as int) + seq!['.'] + s@.subrange(
                    d2 + 1,
                    n as int,
                ));
                assert(ipv4_text(a) == s@);
                let b = choose|b: Ipv4Address| ipv4_text(b) == s@;
                lemma_ipv4_text_injective(a, b);
            }
            Some(a)
        },
        _ => {
            proof {
                assert forall|a: Ipv4Address| #[trigger] ipv4_text(a) != s@ by {
                    if ipv4_text(a) == s@ {
                        lemma_scan_on_ipv4_text(a, 0, first_dot(a), d0 as int);
                        lemma_scan_on_ipv4_text(a, d0 + 1, second_dot(a), d1 as int);
                        lemma_scan_on_ipv4_text(a, d1 + 1, third_dot(a), d2 as int);
                        lemma_ipv4_text_structure(a);
                    }
                }
            }
            None
        },
    }
}

/// Different octets have different decimal forms.
pub proof fn lemma_decimal_text_injective(v: u8, w: u8)
    requires
        decimal_text(v) == decimal_text(w),
    ensures
        v == w,
{
    lemma_decimal_text_shape(v);
    lemma_decimal_text_shape(w);
}

/// Different addresses have different dotted-quad forms.
pub proof fn lemma_ipv4_text_injective(a: Ipv4Address, b: Ipv4Address)
    requires
        ipv4_text(a) == ipv4_text(b),
    ensures
        a == b,
{
    lemma_ipv4_text_structure(a);
    lemma_ipv4_text_structure(b);
    let t = ipv4_text(a);
    lemma_scan_on_ipv4_text(b, 0, first_dot(b), first_dot(a));
    lemma_scan_on_ipv4_text(b, first_dot(a) + 1, second_dot(b), second_dot(a));
    lemma_scan_on_ipv4_text(b, second_dot(a) + 1, third_dot(b), third_dot(a));
    lemma_decimal_text_injective(a.0, b.0);
    lemma_decimal_text_injective(a.1, b.1);
    lemma_decimal_text_injective(a.2, b.2);
    lemma_decimal_text_injective(a.3, b.3);
}

/// Reading the written form of an address gives back that address.
pub proof fn law_ipv4_read_after_write(a: Ipv4Address)
    ensures
        ipv4_from_text(ipv4_text(a)) == Some(a),
{
    assert(is_ipv4_text(ipv4_text(a)));
    let b = choose|b: Ipv4Address| ipv4_text(b) == ipv4_text(a);
    lemma_ipv4_text_injective(a, b);
}

/// Text that reads as an address is exactly that address written out.
pub proof fn law_ipv4_write_after_read(s: Seq<char>)
    ensures
        ipv4_from_text(s) matches Some(a) ==> ipv4_text(a) == s,
{
}

/// The one-character text of the decimal digit `d`.
fn digit_str(d: u8) -> (r: &'static str)
    requires
        d < 10,
    ensures
        r@ == seq![digit_char(d as int)],
{
    proof {
        assert('0' as u32 == 48);
    }
    match d {
        0 => {
            proof {
                reveal_strlit("0");
            }
            "0"
        },
        1 => {
            proof {
                reveal_strlit("1");
            }
            "1"
        },
        2 => {
            proof {
                reveal_strlit("2");
            }
            "2"
        },
        3 => {
            proof {
                reveal_strlit("3");
            }
            "3"
        },
        4 => {
            proof {
                reveal_strlit("4");
            }
            "4"
        },
        5 => {
            proof {
                reveal_strlit("5");
            }
            "5"
        },
        6 => {
            proof {
                reveal_strlit("6");
            }
            "6"
        },
        7 => {
            proof {
                reveal_strlit("7");
            }
            "7"
        },
        8 => {
            proof {
                reveal_strlit("8");
            }
            "8"
        },
        _ => {
            proof {
                reveal_strlit("9");
            }
            "9"
        },
    }
}

/// Appends the decimal form of `v` to `out`.
fn push_decimal(out: &mut String, v: u8)
    ensures
        final(out)@ == old(out)@ + decimal_text(v),
{
    if v >= 100 {
        out.append(digit_str(v / 100));
    }
    if v >= 10 {
        out.append(digit_str((v / 10) % 10));
    }
    out.append(digit_str(v % 10));
    proof {
        let n: int = v as int;
        if n >= 100 {
            assert(decimal_text(v) =~= seq![digit_char(n / 100)] + seq![digit_char((n / 10) % 10)]
                + seq![digit_char(n % 10)]);
        } else if n >= 10 {
            assert(decimal_text(v) =~= seq![digit_char(n / 10)] + seq![digit_char(n % 10)]);
        }
    }
}

/// Writes an address in dotted-quad form, as `Ipv4Addr`'s `Display` does.
pub fn ipv4_to_string(a: Ipv4Address) -> (r: String)
    ensures
        r@ == ipv4_text(a),
{
    proof {
        reveal_strlit(".");
    }
    let mut out = String::new();
    push_decimal(&mut out, a.0);
    out.append(".");
    push_decimal(&mut out, a.1);
    out.append(".");
    push_decimal(&mut out, a.2);
    out.append(".");
    push_decimal(&mut out, a.3);
    assert(out@ =~= ipv4_text(a));
    out
}

} // verus!
