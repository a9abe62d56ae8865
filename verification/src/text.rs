//! Text as sequences of characters: decimal numerals, surrounding whitespace,
//! and the few string operations the rest of the crate builds on.
use vstd::prelude::*;

verus! {

/// `String::push` of the standard library: the character is added at the end
/// and nothing else changes.
pub assume_specification[ String::push ](s: &mut String, ch: char)
    ensures
        final(s)@ == old(s)@.push(ch),
;

/// The texts of a list of strings, in order.
pub open spec fn string_views(strings: Seq<String>) -> Seq<Seq<char>> {
    strings.map_values(|s: String| s@)
}

/// The decimal digit that stands for `d`.
pub open spec fn digit_char(d: nat) -> char
    recommends
        d < 10,
{
    (('0' as nat) + d) as char
}

/// Whether `c` is one of `0` to `9`.
pub open spec fn is_digit(c: char) -> bool {
    '0' <= c <= '9'
}

/// The value of the decimal digit `c`.
pub open spec fn digit_value(c: char) -> nat
    recommends
        is_digit(c),
{
    (c as nat - '0' as nat) as nat
}

/// The decimal numeral of `n`: most significant digit first, no sign, no
/// leading zero (the numeral of zero is `0`).
pub open spec fn decimal(n: nat) -> Seq<char>
    decreases n,
{
    if n < 10 {
        seq![digit_char(n)]
    } else {
        decimal(n / 10).push(digit_char(n % 10))
    }
}

/// Every character of a decimal numeral is a digit, and the numeral is not
/// empty.
pub proof fn lemma_decimal_digits(n: nat)
    ensures
        decimal(n).len() >= 1,
        forall|i: int| 0 <= i < decimal(n).len() ==> is_digit(#[trigger] decimal(n)[i]),
    decreases n,
{
    if n >= 10 {
        lemma_decimal_digits(n / 10);
    }
}

/// Whether `c` is whitespace that may surround a value: space, tab, line
/// feed, vertical tab, form feed or carriage return.
pub open spec fn is_space(c: char) -> bool {
    c == ' ' || c == '\t' || c == '\n' || c == '\u{0B}' || c == '\u{0C}' || c == '\r'
}

/// `s` without the whitespace at its start.
pub open spec fn trim_start(s: Seq<char>) -> Seq<char>
    decreases s.len(),
{
    if s.len() > 0 && is_space(s.first()) {
        trim_start(s.drop_first())
    } else {
        s
    }
}

/// `s` without the whitespace at its end.
pub open spec fn trim_end(s: Seq<char>) -> Seq<char>
    decreases s.len(),
{
    if s.len() > 0 && is_space(s.last()) {
        trim_end(s.drop_last())
    } else {
        s
    }
}

/// `s` without the whitespace at either end.
pub open spec fn trim(s: Seq<char>) -> Seq<char> {
    trim_end(trim_start(s))
}

/// The characters of `s`, in order.
pub fn chars_of(s: &str) -> (v: Vec<char>)
    ensures
        v@ == s@,
{
    let mut v: Vec<char> = Vec::new();
    for c in it: s.chars()
        invariant
            v@ == it.seq().take(it.index() as int),
            it.seq() == s@,
    {
        v.push(c);
    }
    v
}

/// Whether `c` is whitespace in the sense of [`is_space`].
pub fn char_is_space(c: char) -> (r: bool)
    ensures
        r == is_space(c),
{
    c == ' ' || c == '\t' || c == '\n' || c == '\u{0B}' || c == '\u{0C}' || c == '\r'
}

/// The bounds of the trimmed part of `v`: it begins where the whitespace at
/// the start of `v` ends, and `v@.subrange(start, end)` is `trim(v@)`.
pub fn trim_bounds(v: &Vec<char>) -> (r: (usize, usize))
    ensures
        r.0 <= r.1 <= v.len(),
        r.0 == v.len() - trim_start(v@).len(),
        v@.subrange(r.0 as int, r.1 as int) == trim(v@),
{
    let mut start: usize = 0;
    assert(v@.subrange(0, v.len() as int) == v@);
    while start < v.len() && char_is_space(v[start])
        invariant
            start <= v.len(),
            trim_start(v@) == trim_start(v@.subrange(start as int, v.len() as int)),
        decreases v.len() - start,
    {
        proof {
            let rest = v@.subrange(start as int, v.len() as int);
            assert(rest.drop_first() == v@.subrange(start + 1, v.len() as int));
        }
        start += 1;
    }
    let mut end: usize = v.len();
    while end > start && char_is_space(v[end - 1])
        invariant
            start <= end <= v.len(),
            trim_start(v@) == v@.subrange(start as int, v.len() as int),
            trim(v@) == trim_end(v@.subrange(start as int, end as int)),
        decreases end,
    {
        proof {
            let part = v@.subrange(start as int, end as int);
            assert(part.drop_last() == v@.subrange(start as int, end - 1));
        }
        end -= 1;
    }
    (start, end)
}

/// The character for the decimal digit `d`.
pub(crate) fn digit_of(d: u8) -> (c: char)
    requires
        d < 10,
    ensures
        c == digit_char(d as nat),
{
    (48u8 + d) as char
}

/// Appends the decimal numeral of `n` to `out`.
pub fn push_decimal(out: &mut String, n: u64)
    ensures
        final(out)@ == old(out)@ + decimal(n as nat),
    decreases n,
{
    if n >= 10 {
        push_decimal(out, n / 10);
    }
    out.push(digit_of((n % 10) as u8));
}

/// The parts of `parts` in order, with `sep` between each two neighbours.
pub open spec fn joined(parts: Seq<Seq<char>>, sep: Seq<char>) -> Seq<char>
    decreases parts.len(),
{
    if parts.len() == 0 {
        Seq::empty()
    } else if parts.len() == 1 {
        parts[0]
    } else {
        joined(parts.drop_last(), sep) + sep + parts.last()
    }
}

/// The strings of `parts` in order, with `sep` between each two neighbours.
pub fn join(parts: &Vec<String>, sep: &str) -> (out: String)
    ensures
        out@ == joined(string_views(parts@), sep@),
{
    let ghost views = string_views(parts@);
    let mut out = String::new();
    let mut i: usize = 0;
    proof {
        assert(views.take(0) == Seq::<Seq<char>>::empty());
    }
    while i < parts.len()
        invariant
            i <= parts.len(),
            views == string_views(parts@),
            out@ == joined(views.take(i as int), sep@),
        decreases parts.len() - i,
    {
        proof {
            assert(views.take(i + 1).drop_last() == views.take(i as int));
            assert(views.take(i + 1).last() == parts[i as int]@);
        }
        if i > 0 {
            out.append(sep);
        }
        out.append(parts[i].as_str());
        proof {
            if i == 0 {
                assert(out@ == views.take(1)[0]);
            }
        }
        i += 1;
    }
    proof {
        assert(views.take(parts.len() as int) == views);
    }
    out
}

/// Whether `part` stands somewhere in `text`, unbroken.
pub open spec fn occurs_in(part: Seq<char>, text: Seq<char>) -> bool {
    exists|i: int, j: int| 0 <= i <= j <= text.len() && #[trigger] text.subrange(i, j) == part
}

/// What stands in a text stands in every text around it.
pub proof fn lemma_occurs_in_middle(
    part: Seq<char>,
    before: Seq<char>,
    text: Seq<char>,
    after: Seq<char>,
)
    requires
        occurs_in(part, text),
    ensures
        occurs_in(part, before + text + after),
{
    let (i, j) = choose|i: int, j: int|
        0 <= i <= j <= text.len() && #[trigger] text.subrange(i, j) == part;
    let whole = before + text + after;
    assert(whole.subrange(before.len() + i, before.len() + j) == part);
}

/// What stands in a part of a text stands in the text.
pub proof fn lemma_occurs_in_chain(inner: Seq<char>, part: Seq<char>, text: Seq<char>)
    requires
        occurs_in(inner, part),
        occurs_in(part, text),
    ensures
        occurs_in(inner, text),
{
    let (i, j) = choose|i: int, j: int|
        0 <= i <= j <= text.len() && #[trigger] text.subrange(i, j) == part;
    let (k, l) = choose|k: int, l: int|
        0 <= k <= l <= part.len() && #[trigger] part.subrange(k, l) == inner;
    assert(text.subrange(i + k, i + l) == inner);
}

/// Each of the parts that were joined stands in the result.
pub proof fn lemma_joined_holds_part(parts: Seq<Seq<char>>, sep: Seq<char>, k: int)
    requires
        0 <= k < parts.len(),
    ensures
        occurs_in(parts[k], joined(parts, sep)),
    decreases parts.len(),
{
    let whole = joined(parts, sep);
    if parts.len() == 1 {
        assert(whole.subrange(0, whole.len() as int) == parts[0]);
    } else if k == parts.len() - 1 {
        let start = whole.len() - parts.last().len();
        assert(whole.subrange(start, whole.len() as int) == parts.last());
    } else {
        let front = parts.drop_last();
        lemma_joined_holds_part(front, sep, k);
        assert(front[k] == parts[k]);
        assert(whole == Seq::<char>::empty() + joined(front, sep) + (sep + parts.last()));
        lemma_occurs_in_middle(parts[k], Seq::empty(), joined(front, sep), sep + parts.last());
    }
}

} // verus!
