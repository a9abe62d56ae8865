//! IPv4 addresses and their dotted-quad text.
use vstd::prelude::*;
use crate::text::{
    chars_of, decimal, digit_char, digit_value, is_digit, lemma_decimal_digits, push_decimal, trim,
    trim_bounds,
};

verus! {

/// An IPv4 address, held as its four octets in network order.
#[derive(Clone, Copy, Debug, PartialEq, Eq, Structural)]
pub struct Ipv4 {
    pub a: u8,
    pub b: u8,
    pub c: u8,
    pub d: u8,
}

/// The one-character sequence that separates two octets.
pub open spec fn dot() -> Seq<char> {
    seq!['.']
}

/// The address that `text` is the dotted quad of, if it is that of any.
pub open spec fn address_of(text: Seq<char>) -> Option<Ipv4> {
    if exists|ip: Ipv4| text == #[trigger] ip.dotted() {
        Some(choose|ip: Ipv4| text == #[trigger] ip.dotted())
    } else {
        None
    }
}

impl Ipv4 {
    /// The dotted-quad text of the address: the decimal numerals of its four
    /// octets, separated by dots.
    pub open spec fn dotted(self) -> Seq<char> {
        decimal(self.a as nat) + dot() + decimal(self.b as nat) + dot() + decimal(self.c as nat)
            + dot() + decimal(self.d as nat)
    }

    /// Builds an address from its four octets.
    pub fn new(a: u8, b: u8, c: u8, d: u8) -> (ip: Ipv4)
        ensures
            ip == (Ipv4 { a, b, c, d }),
    {
        Ipv4 { a, b, c, d }
    }

    /// Appends the dotted-quad text of the address to `out`.
    pub fn push_to(&self, out: &mut String)
        ensures
            final(out)@ == old(out)@ + self.dotted(),
    {
        push_decimal(out, self.a as u64);
        out.push('.');
        push_decimal(out, self.b as u64);
        out.push('.');
        push_decimal(out, self.c as u64);
        out.push('.');
        push_decimal(out, self.d as u64);
        assert(out@ == old(out)@ + self.dotted());
    }

    /// The dotted-quad text of the address.
    pub fn to_text(&self) -> (t: String)
        ensures
            t@ == self.dotted(),
    {
        let mut t = String::new();
        self.push_to(&mut t);
        assert(t@ == self.dotted());
        t
    }

    /// Reads an address from its dotted-quad text: four decimal octets from
    /// 0 to 255, written without leading zeros and separated by single dots,
    /// with nothing before, between or after them.
    pub fn parse(text: &str) -> (r: Option<Ipv4>)
        ensures
            r == address_of(text@),
            match r {
                Some(ip) => text@ == ip.dotted(),
                None => forall|ip: Ipv4| text@ != #[trigger] ip.dotted(),
            },
    {
        let v = chars_of(text);
        parse_chars(&v)
    }

    /// Reads an address from text that may carry whitespace before and after
    /// the dotted quad, as the body of a reply does.
    pub fn parse_trimmed(text: &str) -> (r: Option<Ipv4>)
        ensures
            r == address_of(trim(text@)),
            match r {
                Some(ip) => trim(text@) == ip.dotted(),
                None => forall|ip: Ipv4| trim(text@) != #[trigger] ip.dotted(),
            },
    {
        let v = chars_of(text);
        let (start, end) = trim_bounds(&v);
        let mut inner: Vec<char> = Vec::new();
        let mut i: usize = start;
        while i < end
            invariant
                start <= i <= end <= v.len(),
                inner@ == v@.subrange(start as int, i as int),
            decreases end - i,
        {
            inner.push(v[i]);
            assert(v@.subrange(start as int, i + 1) == v@.subrange(start as int, i as int).push(
                v@[i as int],
            ));
            i += 1;
        }
        parse_chars(&inner)
    }
}

/// The numeral of an octet has one, two or three digits, as its size asks.
pub proof fn lemma_octet_numeral(n: u8)
    ensures
        n < 10 ==> decimal(n as nat) == seq![digit_char(n as nat)],
        10 <= n < 100 ==> decimal(n as nat) == seq![
            digit_char((n / 10) as nat),
            digit_char((n % 10) as nat),
        ],
        100 <= n ==> decimal(n as nat) == seq![
            digit_char((n / 100) as nat),
            digit_char((n / 10 % 10) as nat),
            digit_char((n % 10) as nat),
        ],
{
    reveal_with_fuel(decimal, 3);
    if 100 <= n {
        assert((n as nat / 10) / 10 == n as nat / 100);
    }
}

/// What the numeral of an octet looks like: one to three digits, the first
/// of them not `0` unless it is the only one, and the octet is their value.
pub proof fn lemma_octet_shape(n: u8)
    ensures
        1 <= decimal(n as nat).len() <= 3,
        forall|i: int|
            0 <= i < decimal(n as nat).len() ==> is_digit(#[trigger] decimal(n as nat)[i]),
        decimal(n as nat).len() >= 2 ==> decimal(n as nat)[0] != '0',
        decimal(n as nat).len() == 1 ==> n == digit_value(decimal(n as nat)[0]),
        decimal(n as nat).len() == 2 ==> n == 10 * digit_value(decimal(n as nat)[0]) + digit_value(
            decimal(n as nat)[1],
        ),
        decimal(n as nat).len() == 3 ==> n == 100 * digit_value(decimal(n as nat)[0]) + 10
            * digit_value(decimal(n as nat)[1]) + digit_value(decimal(n as nat)[2]),
{
    lemma_octet_numeral(n);
    lemma_decimal_digits(n as nat);
    let x = decimal(n as nat);
    if n < 10 {
        assert(x[0] == digit_char(n as nat));
    } else if n < 100 {
        assert(x[0] == digit_char((n / 10) as nat));
        assert(x[1] == digit_char((n % 10) as nat));
    } else {
        assert(x[0] == digit_char((n / 100) as nat));
        assert(x[1] == digit_char((n / 10 % 10) as nat));
        assert(x[2] == digit_char((n % 10) as nat));
    }
}

/// Whether the numeral of the octet `n` stands in `s` from `start` to `end`
/// and no digit follows it.
pub open spec fn octet_at(s: Seq<char>, start: int, n: u8, end: int) -> bool {
    &&& 0 <= start < end <= s.len()
    &&& s.subrange(start, end) == decimal(n as nat)
    &&& (end == s.len() || !is_digit(s[end]))
}

fn char_is_digit(c: char) -> (r: bool)
    ensures
        r == is_digit(c),
{
    '0' <= c && c <= '9'
}

fn value_of_digit(c: char) -> (d: u8)
    requires
        is_digit(c),
    ensures
        d < 10,
        d == digit_value(c),
        c == digit_char(d as nat),
{
    (c as u8) - 48u8
}

/// A place holds the numeral of at most one octet, and that numeral ends at
/// one position only.
pub proof fn lemma_octet_at_unique(
    s: Seq<char>,
    start: int,
    n: u8,
    end: int,
    m: u8,
    stop: int,
)
    requires
        octet_at(s, start, n, end),
        octet_at(s, start, m, stop),
    ensures
        n == m,
        end == stop,
{
    lemma_decimal_digits(n as nat);
    lemma_decimal_digits(m as nat);
    if end < stop {
        assert(s.subrange(start, stop)[end - start] == s[end]);
        assert(is_digit(decimal(m as nat)[end - start]));
    }
    if stop < end {
        assert(s.subrange(start, end)[stop - start] == s[stop]);
        assert(is_digit(decimal(n as nat)[stop - start]));
    }
    lemma_octet_shape(n);
    lemma_octet_shape(m);
}

/// Reads the numeral of an octet that starts at `start` and is followed by
/// no further digit.
fn read_octet(v: &Vec<char>, start: usize) -> (r: Option<(u8, usize)>)
    requires
        start <= v.len(),
    ensures
        match r {
            Some((n, end)) => octet_at(v@, start as int, n, end as int),
            None => forall|n: u8, end: int| !octet_at(v@, start as int, n, end),
        },
{
    let len = v.len();
    let ghost s = v@;
    let ghost at = start as int;
    if start >= len || !char_is_digit(v[start]) {
        assert forall|n: u8, end: int| !octet_at(s, at, n, end) by {
            if octet_at(s, at, n, end) {
                lemma_decimal_digits(n as nat);
                assert(s.subrange(at, end)[0] == s[at]);
            }
        }
        return None;
    }
    let d0 = value_of_digit(v[start]);
    if start + 1 >= len || !char_is_digit(v[start + 1]) {
        proof {
            lemma_octet_numeral(d0);
            assert(s.subrange(at, at + 1) == seq![digit_char(d0 as nat)]);
        }
        return Some((d0, start + 1));
    }
    let d1 = value_of_digit(v[start + 1]);
    if d0 == 0 {
        assert forall|n: u8, end: int| !octet_at(s, at, n, end) by {
            if octet_at(s, at, n, end) {
                lemma_octet_shape(n);
                assert(s.subrange(at, end)[0] == s[at]);
                if end == at + 1 {
                    assert(is_digit(s[end]));
                }
            }
        }
        return None;
    }
    if start + 2 >= len || !char_is_digit(v[start + 2]) {
        let n: u8 = d0 * 10 + d1;
        proof {
            lemma_octet_numeral(n);
            assert(n / 10 == d0 && n % 10 == d1);
            assert(s.subrange(at, at + 2) == seq![digit_char(d0 as nat), digit_char(d1 as nat)]);
        }
        return Some((n, start + 2));
    }
    let d2 = value_of_digit(v[start + 2]);
    let wide: u16 = (d0 as u16) * 100 + (d1 as u16) * 10 + (d2 as u16);
    if wide > 255 || (start + 3 < len && char_is_digit(v[start + 3])) {
        assert forall|n: u8, end: int| !octet_at(s, at, n, end) by {
            if octet_at(s, at, n, end) {
                lemma_octet_shape(n);
                let x = s.subrange(at, end);
                assert(x[0] == s[at]);
                if end >= at + 2 {
                    assert(x[1] == s[at + 1]);
                }
                if end >= at + 3 {
                    assert(x[2] == s[at + 2]);
                }
                if end == at + 1 {
                    assert(is_digit(s[end]));
                }
                if end == at + 2 {
                    assert(is_digit(s[end]));
                }
            }
        }
        return None;
    }
    let n: u8 = wide as u8;
    proof {
        lemma_octet_numeral(n);
        assert(n / 100 == d0 && n / 10 % 10 == d1 && n % 10 == d2);
        assert(s.subrange(at, at + 3) == seq![
            digit_char(d0 as nat),
            digit_char(d1 as nat),
            digit_char(d2 as nat),
        ]);
    }
    Some((n, start + 3))
}

/// Where the four numerals and the three dots of a dotted quad stand.
pub proof fn lemma_dotted_layout(ip: Ipv4)
    ensures
        ({
            let s = ip.dotted();
            let p1 = decimal(ip.a as nat).len() as int;
            let p2 = p1 + 1 + decimal(ip.b as nat).len();
            let p3 = p2 + 1 + decimal(ip.c as nat).len();
            &&& octet_at(s, 0, ip.a, p1)
            &&& s[p1] == '.'
            &&& octet_at(s, p1 + 1, ip.b, p2)
            &&& s[p2] == '.'
            &&& octet_at(s, p2 + 1, ip.c, p3)
            &&& s[p3] == '.'
            &&& octet_at(s, p3 + 1, ip.d, s.len() as int)
        }),
{
    let s = ip.dotted();
    let na = decimal(ip.a as nat);
    let nb = decimal(ip.b as nat);
    let nc = decimal(ip.c as nat);
    let nd = decimal(ip.d as nat);
    lemma_decimal_digits(ip.a as nat);
    lemma_decimal_digits(ip.b as nat);
    lemma_decimal_digits(ip.c as nat);
    lemma_decimal_digits(ip.d as nat);
    let p1 = na.len() as int;
    let p2 = p1 + 1 + nb.len();
    let p3 = p2 + 1 + nc.len();
    assert(s.len() == p3 + 1 + nd.len());
    assert(s.subrange(0, p1) == na);
    assert(s.subrange(p1 + 1, p2) == nb);
    assert(s.subrange(p2 + 1, p3) == nc);
    assert(s.subrange(p3 + 1, s.len() as int) == nd);
}

/// A dotted quad is made of digits and dots only.
pub proof fn lemma_dotted_chars(ip: Ipv4)
    ensures
        forall|i: int|
            0 <= i < ip.dotted().len() ==> is_digit(#[trigger] ip.dotted()[i]) || ip.dotted()[i]
                == '.',
{
    lemma_decimal_digits(ip.a as nat);
    lemma_decimal_digits(ip.b as nat);
    lemma_decimal_digits(ip.c as nat);
    lemma_decimal_digits(ip.d as nat);
}

/// Two addresses with the same dotted-quad text are the same address.
pub proof fn lemma_dotted_injective(x: Ipv4, y: Ipv4)
    requires
        x.dotted() == y.dotted(),
    ensures
        x == y,
{
    let s = x.dotted();
    lemma_dotted_layout(x);
    lemma_dotted_layout(y);
    let p1 = decimal(x.a as nat).len() as int;
    let q1 = decimal(y.a as nat).len() as int;
    lemma_octet_at_unique(s, 0, x.a, p1, y.a, q1);
    let p2 = p1 + 1 + decimal(x.b as nat).len();
    let q2 = q1 + 1 + decimal(y.b as nat).len();
    lemma_octet_at_unique(s, p1 + 1, x.b, p2, y.b, q2);
    let p3 = p2 + 1 + decimal(x.c as nat).len();
    let q3 = q2 + 1 + decimal(y.c as nat).len();
    lemma_octet_at_unique(s, p2 + 1, x.c, p3, y.c, q3);
    lemma_octet_at_unique(s, p3 + 1, x.d, s.len() as int, y.d, s.len() as int);
}

/// Reading the dotted quad of an address gives that address back.
pub proof fn lemma_address_of(ip: Ipv4)
    ensures
        address_of(ip.dotted()) == Some(ip),
{
    let found = choose|other: Ipv4| ip.dotted() == #[trigger] other.dotted();
    lemma_dotted_injective(found, ip);
}

/// Reads a dotted quad that fills `v` from its first character to its last.
pub fn parse_chars(v: &Vec<char>) -> (r: Option<Ipv4>)
    ensures
        r == address_of(v@),
        match r {
            Some(ip) => v@ == ip.dotted(),
            None => forall|ip: Ipv4| v@ != #[trigger] ip.dotted(),
        },
{
    let len = v.len();
    let ghost s = v@;
    let (a, e1) = match read_octet(v, 0) {
        Some(found) => found,
        None => {
            assert forall|ip: Ipv4| s != #[trigger] ip.dotted() by {
                lemma_dotted_layout(ip);
            }
            return None;
        },
    };
    if e1 >= len || v[e1] != '.' {
        assert forall|ip: Ipv4| s != #[trigger] ip.dotted() by {
            if s == ip.dotted() {
                lemma_dotted_layout(ip);
                lemma_octet_at_unique(s, 0, a, e1 as int, ip.a, decimal(ip.a as nat).len() as int);
            }
        }
        return None;
    }
    let (b, e2) = match read_octet(v, e1 + 1) {
        Some(found) => found,
        None => {
            assert forall|ip: Ipv4| s != #[trigger] ip.dotted() by {
                if s == ip.dotted() {
                    lemma_dotted_layout(ip);
                    lemma_octet_at_unique(
                        s,
                        0,
                        a,
                        e1 as int,
                        ip.a,
                        decimal(ip.a as nat).len() as int,
                    );
                }
            }
            return None;
        },
    };
    if e2 >= len || v[e2] != '.' {
        assert forall|ip: Ipv4| s != #[trigger] ip.dotted() by {
            if s == ip.dotted() {
                lemma_dotted_layout(ip);
                let p1 = decimal(ip.a as nat).len() as int;
                let p2 = p1 + 1 + decimal(ip.b as nat).len();
                lemma_octet_at_unique(s, 0, a, e1 as int, ip.a, p1);
                lemma_octet_at_unique(s, e1 + 1, b, e2 as int, ip.b, p2);
            }
        }
        return None;
    }
    let (c, e3) = match read_octet(v, e2 + 1) {
        Some(found) => found,
        None => {
            assert forall|ip: Ipv4| s != #[trigger] ip.dotted() by {
                if s == ip.dotted() {
                    lemma_dotted_layout(ip);
                    let p1 = decimal(ip.a as nat).len() as int;
                    let p2 = p1 + 1 + decimal(ip.b as nat).len();
                    lemma_octet_at_unique(s, 0, a, e1 as int, ip.a, p1);
                    lemma_octet_at_unique(s, e1 + 1, b, e2 as int, ip.b, p2);
                }
            }
            return None;
        },
    };
    if e3 >= len || v[e3] != '.' {
        assert forall|ip: Ipv4| s != #[trigger] ip.dotted() by {
            if s == ip.dotted() {
                lemma_dotted_layout(ip);
                let p1 = decimal(ip.a as nat).len() as int;
                let p2 = p1 + 1 + decimal(ip.b as nat).len();
                let p3 = p2 + 1 + decimal(ip.c as nat).len();
                lemma_octet_at_unique(s, 0, a, e1 as int, ip.a, p1);
                lemma_octet_at_unique(s, e1 + 1, b, e2 as int, ip.b, p2);
                lemma_octet_at_unique(s, e2 + 1, c, e3 as int, ip.c, p3);
            }
        }
        return None;
    }
    let (d, e4) = match read_octet(v, e3 + 1) {
        Some(found) => found,
        None => {
            assert forall|ip: Ipv4| s != #[trigger] ip.dotted() by {
                if s == ip.dotted() {
                    lemma_dotted_layout(ip);
                    let p1 = decimal(ip.a as nat).len() as int;
                    let p2 = p1 + 1 + decimal(ip.b as nat).len();
                    let p3 = p2 + 1 + decimal(ip.c as nat).len();
                    lemma_octet_at_unique(s, 0, a, e1 as int, ip.a, p1);
                    lemma_octet_at_unique(s, e1 + 1, b, e2 as int, ip.b, p2);
                    lemma_octet_at_unique(s, e2 + 1, c, e3 as int, ip.c, p3);
                }
            }
            return None;
        },
    };
    if e4 != len {
        assert forall|ip: Ipv4| s != #[trigger] ip.dotted() by {
            if s == ip.dotted() {
                lemma_dotted_layout(ip);
                let p1 = decimal(ip.a as nat).len() as int;
                let p2 = p1 + 1 + decimal(ip.b as nat).len();
                let p3 = p2 + 1 + decimal(ip.c as nat).len();
                lemma_octet_at_unique(s, 0, a, e1 as int, ip.a, p1);
                lemma_octet_at_unique(s, e1 + 1, b, e2 as int, ip.b, p2);
                lemma_octet_at_unique(s, e2 + 1, c, e3 as int, ip.c, p3);
                lemma_octet_at_unique(s, e3 + 1, d, e4 as int, ip.d, s.len() as int);
            }
        }
        return None;
    }
    let ip = Ipv4 { a, b, c, d };
    proof {
        let e1 = e1 as int;
        let e2 = e2 as int;
        let e3 = e3 as int;
        assert(s == s.subrange(0, e1) + dot() + s.subrange(e1 + 1, e2) + dot() + s.subrange(
            e2 + 1,
            e3,
        ) + dot() + s.subrange(e3 + 1, s.len() as int));
        lemma_address_of(ip);
    }
    Some(ip)
}

} // verus!
