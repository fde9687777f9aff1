use vstd::prelude::*;
use crate::addr::Ipv4Address;
use crate::config::{ConfigError, Either};

verus! {

/// An ASCII decimal digit.
pub open spec fn is_digit(c: char) -> bool {
    '0' <= c <= '9'
}

/// The value of an ASCII decimal digit.
pub open spec fn digit_value(c: char) -> int {
    c as int - 48
}

/// The ASCII character of the decimal digit `d`.
pub open spec fn digit_char(d: int) -> char {
    (d + 48) as char
}

/// The decimal text of an octet, with no sign and no leading zero.
pub open spec fn octet_text(n: u8) -> Seq<char> {
    let n = n as int;
    if n < 10 {
        seq![digit_char(n)]
    } else if n < 100 {
        seq![digit_char(n / 10), digit_char(n % 10)]
    } else {
        seq![digit_char(n / 100), digit_char((n / 10) % 10), digit_char(n % 10)]
    }
}

/// The dotted-quad text of an IPv4 address. Every text that denotes an IPv4
/// address is of this form: four octets, each written without a leading zero.
#[verifier::opaque]
pub open spec fn ipv4_text(a: Ipv4Address) -> Seq<char> {
    octet_text(a.0) + seq!['.'] + octet_text(a.1) + seq!['.'] + octet_text(a.2) + seq!['.']
        + octet_text(a.3)
}

/// `s[i..]` starts with the text of `n`, followed by a dot or the end of `s`.
pub open spec fn octet_at(s: Seq<char>, i: int, n: u8) -> bool {
    let e = i + octet_text(n).len();
    &&& 0 <= i
    &&& e <= s.len()
    &&& s.subrange(i, e) == octet_text(n)
    &&& (e == s.len() || s[e] == '.')
}

proof fn lemma_digit_char(k: int)
    requires
        0 <= k <= 9,
    ensures
        is_digit(digit_char(k)),
        digit_value(digit_char(k)) == k,
{
}

proof fn lemma_octet_text(n: u8)
    ensures
        1 <= octet_text(n).len() <= 3,
        octet_text(n).len() == 3 <==> n >= 100,
        forall|k: int| 0 <= k < octet_text(n).len() ==> is_digit(#[trigger] octet_text(n)[k]),
        digit_value(octet_text(n)[0]) == if n >= 100 { n as int / 100 } else if n >= 10 { n as int / 10 } else { n as int },
        octet_text(n).len() >= 2 ==> digit_value(octet_text(n)[1]) == if n >= 100 { (n as int / 10) % 10 } else { n as int % 10 },
        octet_text(n).len() == 3 ==> digit_value(octet_text(n)[2]) == n as int % 10,
{
    let m = n as int;
    lemma_digit_char(m % 10);
    lemma_digit_char((m / 10) % 10);
    if m < 10 {
        lemma_digit_char(m);
    } else if m < 100 {
        lemma_digit_char(m / 10);
    } else {
        lemma_digit_char(m / 100);
    }
}

proof fn lemma_octet_first(s: Seq<char>, i: int, n: u8)
    requires
        octet_at(s, i, n),
    ensures
        i < s.len(),
        is_digit(s[i]),
        s[i] == '0' <==> n == 0,
        n == 0 ==> octet_text(n).len() == 1,
{
    assert(s[i] == s.subrange(i, i + octet_text(n).len())[0]);
}

proof fn lemma_octet_unique(s: Seq<char>, i: int, n: u8, v: u8, e: int)
    requires
        octet_at(s, i, n),
        i < e <= s.len(),
        s.subrange(i, e) == octet_text(v),
        e == s.len() || !is_digit(s[e]) || e - i == 3,
    ensures
        n == v,
        e == i + octet_text(n).len(),
{
    let ln = octet_text(n).len() as int;
    let lv = e - i;
    lemma_octet_text(n);
    lemma_octet_text(v);
    if ln < lv {
        assert(s[i + ln] == s.subrange(i, e)[ln]);
    } else if lv < ln {
        assert(s[e] == s.subrange(i, i + ln)[lv]);
    } else {
        assert(octet_text(n)[0] == octet_text(v)[0]);
        if ln > 1 {
            assert(octet_text(n)[1] == octet_text(v)[1]);
        }
        if ln > 2 {
            assert(octet_text(n)[2] == octet_text(v)[2]);
        }
        if n >= 100 {
            assert(n as int == 100 * (n / 100) + 10 * ((n / 10) % 10) + n % 10);
            assert(v as int == 100 * (v / 100) + 10 * ((v / 10) % 10) + v % 10);
        } else if n >= 10 {
            assert(n as int == 10 * (n / 10) + n % 10);
            assert(v as int == 10 * (v / 10) + v % 10);
        }
    }
}

/// Reads the octet written at `s[i..]`: one to three digits, without a
/// leading zero, of value at most 255. Returns the octet and where its text ends.
fn parse_octet(s: &str, len: usize, i: usize) -> (r: Option<(u8, usize)>)
    requires
        len == s@.len(),
        i <= len,
    ensures
        r matches Some((v, e)) ==> i < e <= len && s@.subrange(i as int, e as int)
            == octet_text(v),
        forall|n: u8| #[trigger] octet_at(s@, i as int, n) ==> r == Some((n, (i + octet_text(n).len()) as usize)),
{
    if i >= len {
        proof {
            assert forall|n: u8| !octet_at(s@, i as int, n) by {
                if octet_at(s@, i as int, n) {
                    lemma_octet_first(s@, i as int, n);
                }
            }
        }
        return None;
    }
    let c0 = s.get_char(i);
    if !('0' <= c0 && c0 <= '9') {
        proof {
            assert forall|n: u8| !octet_at(s@, i as int, n) by {
                if octet_at(s@, i as int, n) {
                    lemma_octet_first(s@, i as int, n);
                }
            }
        }
        return None;
    }
    let d0 = (c0 as u32) - 48;
    if d0 == 0 {
        proof {
            assert forall|n: u8| octet_at(s@, i as int, n) implies n == 0 && octet_text(n).len() == 1 by {
                lemma_octet_first(s@, i as int, n);
            }
        }
        assert(s@.subrange(i as int, i + 1) =~= octet_text(0));
        return Some((0, i + 1));
    }
    let mut v: u32 = d0;
    let mut e: usize = i + 1;
    if e < len {
        let c1 = s.get_char(e);
        if '0' <= c1 && c1 <= '9' {
            v = v * 10 + ((c1 as u32) - 48);
            e = e + 1;
            if e < len {
                let c2 = s.get_char(e);
                if '0' <= c2 && c2 <= '9' {
                    v = v * 10 + ((c2 as u32) - 48);
                    e = e + 1;
                }
            }
        }
    }
    if v > 255 {
        return None;
    }
    assert(s@.subrange(i as int, e as int) =~= octet_text(v as u8));
    proof {
        assert forall|n: u8| octet_at(s@, i as int, n) implies n == v && e == i + octet_text(n).len() by {
            lemma_octet_unique(s@, i as int, n, v as u8, e as int);
        }
    }
    Some((v as u8, e))
}

} // verus!

verus! {

/// `s[i..]` starts with the text of `n`, followed by a dot, or, for the
/// last field, by the end of `s`.
pub open spec fn field_at(s: Seq<char>, i: int, n: u8, last: bool) -> bool {
    &&& octet_at(s, i, n)
    &&& if last {
        i + octet_text(n).len() == s.len()
    } else {
        i + octet_text(n).len() < s.len()
    }
}

proof fn lemma_fields_of_text(s: Seq<char>, a: Ipv4Address)
    requires
        s == ipv4_text(a),
    ensures
        ({
            let l0 = octet_text(a.0).len() as int;
            let l1 = octet_text(a.1).len() as int;
            let l2 = octet_text(a.2).len() as int;
            &&& field_at(s, 0, a.0, false)
            &&& field_at(s, l0 + 1, a.1, false)
            &&& field_at(s, l0 + l1 + 2, a.2, false)
            &&& field_at(s, l0 + l1 + l2 + 3, a.3, true)
        }),
{
    reveal(ipv4_text);
    let l0 = octet_text(a.0).len() as int;
    let l1 = octet_text(a.1).len() as int;
    let l2 = octet_text(a.2).len() as int;
    assert(s.subrange(0, l0) =~= octet_text(a.0));
    assert(s.subrange(l0 + 1, l0 + l1 + 1) =~= octet_text(a.1));
    assert(s.subrange(l0 + l1 + 2, l0 + l1 + l2 + 2) =~= octet_text(a.2));
    assert(s.subrange(l0 + l1 + l2 + 3, s.len() as int) =~= octet_text(a.3));
}

proof fn lemma_text_of_fields(s: Seq<char>, a: Ipv4Address, e0: int, e1: int, e2: int)
    requires
        0 < e0 < e1 < e2 < s.len(),
        s.subrange(0, e0) == octet_text(a.0),
        s[e0] == '.',
        s.subrange(e0 + 1, e1) == octet_text(a.1),
        s[e1] == '.',
        s.subrange(e1 + 1, e2) == octet_text(a.2),
        s[e2] == '.',
        s.subrange(e2 + 1, s.len() as int) == octet_text(a.3),
    ensures
        s == ipv4_text(a),
{
    reveal(ipv4_text);
    assert(s =~= s.subrange(0, e0) + seq!['.'] + s.subrange(e0 + 1, e1) + seq!['.'] + s.subrange(
        e1 + 1,
        e2,
    ) + seq!['.'] + s.subrange(e2 + 1, s.len() as int));
}

/// Reads the octet at `s[i..]` and the dot after it, or, for the last field,
/// checks that the text ends there. Returns the octet and where its text ends.
fn parse_field(s: &str, len: usize, i: usize, last: bool) -> (r: Option<(u8, usize)>)
    requires
        len == s@.len(),
        i <= len,
    ensures
        r matches Some((v, e)) ==> {
            &&& i < e <= len
            &&& s@.subrange(i as int, e as int) == octet_text(v)
            &&& if last {
                e == len
            } else {
                e < len && s@[e as int] == '.'
            }
        },
        forall|n: u8| #[trigger]
            field_at(s@, i as int, n, last) ==> r == Some((n, (i + octet_text(n).len()) as usize)),
{
    match parse_octet(s, len, i) {
        Some((v, e)) => {
            let ok = if last {
                e == len
            } else {
                e < len && s.get_char(e) == '.'
            };
            if ok {
                Some((v, e))
            } else {
                None
            }
        },
        None => None,
    }
}

/// Reads an IPv4 address written as a dotted quad; the text must hold
/// nothing else.
pub fn parse_ipv4(s: &str) -> (r: Option<Ipv4Address>)
    ensures
        forall|a: Ipv4Address| r == Some(a) <==> s@ == #[trigger] ipv4_text(a),
{
    let len = s.unicode_len();
    let r = match parse_field(s, len, 0, false) {
        None => None,
        Some((a0, e0)) => match parse_field(s, len, e0 + 1, false) {
            None => None,
            Some((a1, e1)) => match parse_field(s, len, e1 + 1, false) {
                None => None,
                Some((a2, e2)) => match parse_field(s, len, e2 + 1, true) {
                    None => None,
                    Some((a3, _)) => {
                        let a = Ipv4Address(a0, a1, a2, a3);
                        proof {
                            lemma_text_of_fields(s@, a, e0 as int, e1 as int, e2 as int);
                        }
                        Some(a)
                    },
                },
            },
        },
    };
    proof {
        assert forall|a: Ipv4Address| s@ == #[trigger] ipv4_text(a) implies r == Some(a) by {
            lemma_fields_of_text(s@, a);
        }
    }
    r
}

} // verus!

verus! {

/// The digits of an unsigned decimal text, after an optional leading `+`.
pub open spec fn unsigned_digits(s: Seq<char>) -> Seq<char> {
    if s.len() > 0 && s[0] == '+' {
        s.drop_first()
    } else {
        s
    }
}

/// A non-empty text of ASCII decimal digits.
pub open spec fn all_digits(t: Seq<char>) -> bool {
    t.len() > 0 && forall|k: int| 0 <= k < t.len() ==> is_digit(#[trigger] t[k])
}

/// The value of a text of decimal digits, most significant first.
pub open spec fn decimal_value(t: Seq<char>) -> int
    decreases t.len(),
{
    if t.len() == 0 {
        0
    } else {
        10 * decimal_value(t.drop_last()) + digit_value(t.last())
    }
}

/// `s` is the decimal text of a `u32`: an optional `+`, then one or more
/// digits (leading zeros allowed) whose value fits in 32 bits.
pub open spec fn is_u32_text(s: Seq<char>) -> bool {
    all_digits(unsigned_digits(s)) && decimal_value(unsigned_digits(s)) <= u32::MAX
}

/// The value that an unsigned decimal text denotes.
pub open spec fn u32_text_value(s: Seq<char>) -> int {
    decimal_value(unsigned_digits(s))
}

/// No dotted quad is also the text of an integer.
pub proof fn lemma_ipv4_text_is_not_u32_text(a: Ipv4Address)
    ensures
        !is_u32_text(ipv4_text(a)),
{
    let t = ipv4_text(a);
    lemma_fields_of_text(t, a);
    lemma_octet_text(a.0);
    let l0 = octet_text(a.0).len() as int;
    assert(t[0] == t.subrange(0, l0)[0]);
    assert(t[l0] == '.');
    assert(unsigned_digits(t) == t);
    assert(!is_digit(t[l0]));
}

/// Relies on `str::parse::<u32>`: it accepts exactly an optional `+` followed
/// by ASCII digits whose value fits in a `u32`, and returns that value.
#[verifier::external_body]
fn parse_u32(s: &str) -> (r: Option<u32>)
    ensures
        r is Some <==> is_u32_text(s@),
        r matches Some(v) ==> v == u32_text_value(s@),
{
    s.parse::<u32>().ok()
}

/// Reads an interface selector: an interface index when the text is an
/// unsigned 32-bit integer, else an interface given by its IPv4 address.
pub fn parse_interface(s: &str) -> (r: Result<Either<u32, Ipv4Address>, ConfigError>)
    ensures
        is_u32_text(s@) ==> r == Ok::<Either<u32, Ipv4Address>, ConfigError>(
            Either::Left(u32_text_value(s@) as u32),
        ),
        !is_u32_text(s@) ==> forall|a: Ipv4Address|
            r == Ok::<Either<u32, Ipv4Address>, ConfigError>(Either::Right(a)) <==> s@
                == #[trigger] ipv4_text(a),
        forall|a: Ipv4Address| s@ == #[trigger] ipv4_text(a) ==> r == Ok::<
            Either<u32, Ipv4Address>,
            ConfigError,
        >(Either::Right(a)),
        r is Err <==> !is_u32_text(s@) && forall|a: Ipv4Address| s@ != #[trigger] ipv4_text(a),
        r is Err ==> r == Err::<Either<u32, Ipv4Address>, ConfigError>(ConfigError::InvalidInterface),
{
    proof {
        assert forall|a: Ipv4Address| s@ == #[trigger] ipv4_text(a) implies !is_u32_text(s@) by {
            lemma_ipv4_text_is_not_u32_text(a);
        }
    }
    match parse_u32(s) {
        Some(index) => Ok(Either::Left(index)),
        None => match parse_ipv4(s) {
            Some(a) => {
                assert(s@ == ipv4_text(a));
                Ok(Either::Right(a))
            },
            None => Err(ConfigError::InvalidInterface),
        },
    }
}

} // verus!
