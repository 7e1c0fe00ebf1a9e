use vstd::prelude::*;

verus! {

/// The characters of `s`, in order.
pub fn chars_of(s: &str) -> (v: Vec<char>)
    ensures
        v@ == s@,
{
    let mut v: Vec<char> = Vec::new();
    for c in it: s.chars()
        invariant
            v@ == it.seq().take(it.index() as int),
    {
        v.push(c);
    }
    v
}

/// `needle` occurs in `hay` at position `i`.
pub open spec fn occurs_at(hay: Seq<char>, needle: Seq<char>, i: int) -> bool {
    0 <= i && i + needle.len() <= hay.len() && hay.subrange(i, i + needle.len()) == needle
}

/// `needle` occurs somewhere in `hay` (the empty sequence occurs everywhere).
pub open spec fn contains_seq(hay: Seq<char>, needle: Seq<char>) -> bool {
    exists|i: int| occurs_at(hay, needle, i)
}

/// A match of `needle` at `i` lines up every character of `needle`, the
/// first one included, with the character of `hay` at the same offset from
/// `i`; so `hay` contains `needle` only where it holds each of its
/// characters, and a needle whose first character `hay` lacks is not found.
pub proof fn lemma_occurs_at_matches_every_char(hay: Seq<char>, needle: Seq<char>, i: int)
    ensures
        occurs_at(hay, needle, i) <==> (0 <= i && i + needle.len() <= hay.len() && forall|k: int|
            0 <= k < needle.len() ==> #[trigger] hay[i + k] == needle[k]),
        contains_seq(hay, needle) ==> forall|k: int| 0 <= k < needle.len() ==> hay.contains(
            #[trigger] needle[k],
        ),
        needle.len() > 0 && !hay.contains(needle[0]) ==> !contains_seq(hay, needle),
{
    if occurs_at(hay, needle, i) {
        assert forall|k: int| 0 <= k < needle.len() implies #[trigger] hay[i + k] == needle[k] by {
            assert(hay.subrange(i, i + needle.len())[k] == needle[k]);
        }
    }
    if 0 <= i && i + needle.len() <= hay.len() && (forall|k: int|
        0 <= k < needle.len() ==> #[trigger] hay[i + k] == needle[k]) {
        assert forall|k: int| 0 <= k < needle.len() implies hay.subrange(i, i + needle.len())[k]
            == needle[k] by {
            assert(hay[i + k] == needle[k]);
        }
        assert(hay.subrange(i, i + needle.len()) =~= needle);
    }
    if contains_seq(hay, needle) {
        let j = choose|j: int| occurs_at(hay, needle, j);
        assert forall|k: int| 0 <= k < needle.len() implies hay.contains(#[trigger] needle[k]) by {
            assert(hay.subrange(j, j + needle.len())[k] == needle[k]);
            assert(hay[j + k] == needle[k]);
        }
    }
}

fn occurs_at_exec(hay: &Vec<char>, needle: &Vec<char>, i: usize) -> (b: bool)
    requires
        i + needle.len() <= hay.len(),
    ensures
        b == occurs_at(hay@, needle@, i as int),
{
    let n = needle.len();
    let mut j: usize = 0;
    while j < n
        invariant
            n == needle.len(),
            i + n <= hay.len(),
            j <= n,
            forall|k: int| 0 <= k < j ==> hay@[i + k] == needle@[k],
        decreases n - j,
    {
        if hay[i + j] != needle[j] {
            assert(hay@.subrange(i as int, i + n)[j as int] != needle@[j as int]);
            return false;
        }
        j = j + 1;
    }
    assert(hay@.subrange(i as int, i + n) =~= needle@);
    true
}

/// Whether `needle` occurs in `hay`, as `str::contains` with a `&str` pattern answers.
pub fn contains_str(hay: &str, needle: &str) -> (b: bool)
    ensures
        b == contains_seq(hay@, needle@),
{
    let h = chars_of(hay);
    let n = chars_of(needle);
    if n.len() > h.len() {
        assert forall|i: int| !occurs_at(hay@, needle@, i) by {}
        return false;
    }
    let last = h.len() - n.len();
    let mut i: usize = 0;
    loop
        invariant
            h@ == hay@,
            n@ == needle@,
            last + n.len() == h.len(),
            i <= last,
            forall|k: int| 0 <= k < i ==> !occurs_at(hay@, needle@, k),
        decreases last - i,
    {
        if occurs_at_exec(&h, &n, i) {
            return true;
        }
        if i == last {
            assert forall|k: int| !occurs_at(hay@, needle@, k) by {
                if 0 <= k <= i {
                }
            }
            return false;
        }
        i = i + 1;
    }
}

/// The characters that `char::is_whitespace` accepts: those with the Unicode
/// `White_Space` property.
pub open spec fn is_unicode_whitespace(c: char) -> bool {
    let u = c as u32;
    ||| 0x9 <= u <= 0xd
    ||| u == 0x20
    ||| u == 0x85
    ||| u == 0xa0
    ||| u == 0x1680
    ||| 0x2000 <= u <= 0x200a
    ||| u == 0x2028
    ||| u == 0x2029
    ||| u == 0x202f
    ||| u == 0x205f
    ||| u == 0x3000
}

pub fn is_whitespace_char(c: char) -> (b: bool)
    ensures
        b == is_unicode_whitespace(c),
{
    let u = c as u32;
    (0x9 <= u && u <= 0xd) || u == 0x20 || u == 0x85 || u == 0xa0 || u == 0x1680 || (0x2000 <= u
        && u <= 0x200a) || u == 0x2028 || u == 0x2029 || u == 0x202f || u == 0x205f || u == 0x3000
}

/// `s` without its leading whitespace.
pub open spec fn trim_start_seq(s: Seq<char>) -> Seq<char>
    decreases s.len(),
{
    if s.len() > 0 && is_unicode_whitespace(s[0]) {
        trim_start_seq(s.drop_first())
    } else {
        s
    }
}

/// `s` without its trailing whitespace.
pub open spec fn trim_end_seq(s: Seq<char>) -> Seq<char>
    decreases s.len(),
{
    if s.len() > 0 && is_unicode_whitespace(s.last()) {
        trim_end_seq(s.drop_last())
    } else {
        s
    }
}

/// `s` without leading and trailing whitespace, as `str::trim` gives it.
pub open spec fn trim_seq(s: Seq<char>) -> Seq<char> {
    trim_end_seq(trim_start_seq(s))
}

/// The code of `c` with ASCII upper-case letters mapped to lower case.
pub open spec fn ascii_lower_code(c: char) -> int {
    let u = c as u32;
    if 65 <= u <= 90 {
        u + 32
    } else {
        u as int
    }
}

/// `a` and `b` are equal up to ASCII case, as `str::eq_ignore_ascii_case` decides.
pub open spec fn eq_ignore_ascii_case_seq(a: Seq<char>, b: Seq<char>) -> bool {
    a.len() == b.len() && forall|i: int|
        0 <= i < a.len() ==> #[trigger] ascii_lower_code(a[i]) == ascii_lower_code(b[i])
}

fn lower_code(c: char) -> (r: u32)
    ensures
        r == ascii_lower_code(c),
{
    let u = c as u32;
    if 65 <= u && u <= 90 {
        u + 32
    } else {
        u
    }
}

/// The bounds `lo..hi` of `s@` that `trim_seq` keeps.
fn trim_bounds(s: &Vec<char>) -> (r: (usize, usize))
    ensures
        r.0 <= r.1 <= s.len(),
        s@.subrange(r.0 as int, r.1 as int) == trim_seq(s@),
{
    let len = s.len();
    let mut lo: usize = 0;
    assert(s@.subrange(0, len as int) =~= s@);
    while lo < len && is_whitespace_char(s[lo])
        invariant
            len == s.len(),
            lo <= len,
            trim_start_seq(s@) == trim_start_seq(s@.subrange(lo as int, len as int)),
        decreases len - lo,
    {
        let ghost t = s@.subrange(lo as int, len as int);
        assert(t.drop_first() =~= s@.subrange(lo + 1, len as int));
        lo = lo + 1;
    }
    let ghost start = s@.subrange(lo as int, len as int);
    assert(trim_start_seq(start) == start);
    let mut hi: usize = len;
    while hi > lo && is_whitespace_char(s[hi - 1])
        invariant
            len == s.len(),
            lo <= hi <= len,
            start == s@.subrange(lo as int, len as int),
            trim_end_seq(start) == trim_end_seq(s@.subrange(lo as int, hi as int)),
        decreases hi - lo,
    {
        let ghost t = s@.subrange(lo as int, hi as int);
        assert(t.drop_last() =~= s@.subrange(lo as int, hi - 1));
        hi = hi - 1;
    }
    (lo, hi)
}

/// Whether a line typed by the user asks to leave the interactive session:
/// the line, trimmed, equals `exit` in any ASCII case.
pub fn is_exit_command(input: &str) -> (b: bool)
    ensures
        b == eq_ignore_ascii_case_seq(trim_seq(input@), seq!['e', 'x', 'i', 't']),
{
    let s = chars_of(input);
    let (lo, hi) = trim_bounds(&s);
    let ghost t = trim_seq(input@);
    let ghost word = seq!['e', 'x', 'i', 't'];
    if hi - lo != 4 {
        return false;
    }
    let a = lower_code(s[lo]) == 101;
    let b = lower_code(s[lo + 1]) == 120;
    let c = lower_code(s[lo + 2]) == 105;
    let d = lower_code(s[lo + 3]) == 116;
    assert(t[0] == s@[lo as int] && t[1] == s@[lo + 1] && t[2] == s@[lo + 2] && t[3] == s@[lo + 3]);
    assert(ascii_lower_code(word[0]) == 101 && ascii_lower_code(word[1]) == 120);
    assert(ascii_lower_code(word[2]) == 105 && ascii_lower_code(word[3]) == 116);
    if a && b && c && d {
        assert forall|i: int| 0 <= i < t.len() implies #[trigger] ascii_lower_code(t[i])
            == ascii_lower_code(word[i]) by {
            if i == 0 {
            } else if i == 1 {
            } else if i == 2 {
            } else {
            }
        }
        true
    } else {
        if !a {
            assert(ascii_lower_code(t[0]) != ascii_lower_code(word[0]));
        } else if !b {
            assert(ascii_lower_code(t[1]) != ascii_lower_code(word[1]));
        } else if !c {
            assert(ascii_lower_code(t[2]) != ascii_lower_code(word[2]));
        } else {
            assert(ascii_lower_code(t[3]) != ascii_lower_code(word[3]));
        }
        false
    }
}

/// An ASCII decimal digit.
pub open spec fn is_ascii_digit(c: char) -> bool {
    48 <= c as u32 <= 57
}

/// The number that a sequence of decimal digits denotes.
pub open spec fn decimal_value(d: Seq<char>) -> nat
    decreases d.len(),
{
    if d.len() == 0 {
        0
    } else {
        (decimal_value(d.drop_last()) * 10 + (d.last() as u32 - 48)) as nat
    }
}

/// The digits of an unsigned number, after the optional `+` that
/// `str::parse` accepts for unsigned integer types.
pub open spec fn unsigned_digits(s: Seq<char>) -> Seq<char> {
    if s.len() > 0 && s[0] == '+' {
        s.drop_first()
    } else {
        s
    }
}

/// `s` is accepted by `str::parse` for an unsigned integer type whose
/// largest value is `max`: an optional `+`, then at least one ASCII digit,
/// denoting at most `max`.
pub open spec fn parses_as_unsigned(s: Seq<char>, max: u64) -> bool {
    let d = unsigned_digits(s);
    &&& d.len() > 0
    &&& forall|i: int| 0 <= i < d.len() ==> #[trigger] is_ascii_digit(d[i])
    &&& decimal_value(d) <= max
}

/// `s` is accepted by `str::parse::<u16>`.
pub open spec fn parses_as_port(s: Seq<char>) -> bool {
    parses_as_unsigned(s, 65535)
}

/// The port that `s` denotes, where `parses_as_port(s)`.
pub open spec fn port_value(s: Seq<char>) -> u16 {
    decimal_value(unsigned_digits(s)) as u16
}

proof fn lemma_decimal_prefix_le(d: Seq<char>, k: int)
    requires
        0 <= k <= d.len(),
        forall|i: int| 0 <= i < d.len() ==> #[trigger] is_ascii_digit(d[i]),
    ensures
        decimal_value(d.take(k)) <= decimal_value(d),
    decreases d.len(),
{
    if k == d.len() {
        assert(d.take(k) =~= d);
    } else {
        let p = d.drop_last();
        assert(p.take(k) =~= d.take(k));
        assert forall|i: int| 0 <= i < p.len() implies #[trigger] is_ascii_digit(p[i]) by {
            assert(is_ascii_digit(d[i]));
        }
        lemma_decimal_prefix_le(p, k);
        assert(is_ascii_digit(d[d.len() - 1]));
    }
}

/// Parses an unsigned number no greater than `max`, as `str::parse` does for
/// the unsigned integer type whose largest value is `max`.
pub fn parse_unsigned(s: &str, max: u64) -> (r: Option<u64>)
    ensures
        r is Some <==> parses_as_unsigned(s@, max),
        r matches Some(v) ==> v == decimal_value(unsigned_digits(s@)),
{
    let c = chars_of(s);
    let len = c.len();
    let ghost d = unsigned_digits(s@);
    let start: usize = if len > 0 && c[0] == '+' {
        1
    } else {
        0
    };
    assert(d =~= s@.subrange(start as int, len as int));
    if start == len {
        return None;
    }
    let mut acc: u128 = 0;
    let mut i: usize = start;
    assert(d.take(0) =~= Seq::<char>::empty());
    while i < len
        invariant
            len == c.len(),
            c@ == s@,
            start <= i <= len,
            d == unsigned_digits(s@),
            d =~= s@.subrange(start as int, len as int),
            acc <= max,
            acc == decimal_value(d.take(i - start)),
            forall|j: int| 0 <= j < i - start ==> #[trigger] is_ascii_digit(d[j]),
        decreases len - i,
    {
        let ch = c[i];
        let u = ch as u32;
        let ghost k = i - start;
        assert(d[k] == ch);
        if u < 48 || u > 57 {
            assert(!is_ascii_digit(d[k]));
            return None;
        }
        let next: u128 = acc * 10 + (u - 48) as u128;
        assert(d.take(k + 1).drop_last() =~= d.take(k));
        assert(d.take(k + 1).last() == ch);
        assert(decimal_value(d.take(k + 1)) == next);
        if next > max as u128 {
            proof {
                if forall|j: int| 0 <= j < d.len() ==> #[trigger] is_ascii_digit(d[j]) {
                    lemma_decimal_prefix_le(d, k + 1);
                }
            }
            return None;
        }
        acc = next;
        i = i + 1;
    }
    assert(d.take(len - start) =~= d);
    Some(acc as u64)
}

/// Parses a port number as `str::parse::<u16>` does.
pub fn parse_port(s: &str) -> (r: Option<u16>)
    ensures
        r is Some <==> parses_as_port(s@),
        r matches Some(v) ==> v == port_value(s@),
{
    match parse_unsigned(s, 65535) {
        Some(v) => Some(v as u16),
        None => None,
    }
}

} // verus!
