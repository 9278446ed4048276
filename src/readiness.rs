//! Recognising the line a driver prints once it accepts connections, and the
//! port it names.
use vstd::prelude::*;

use crate::port::Port;

verus! {

/// The characters trimmed at one stage of extracting the port token.
#[derive(Debug, Clone, Copy, PartialEq, Eq, Structural)]
pub enum Trimmed {
    /// Unicode white space.
    Space,
    /// Double quotes.
    Quote,
    /// Full stops.
    Dot,
}

pub open spec fn is_space(c: char) -> bool {
    let u = c as u32;
    (0x09 <= u <= 0x0d) || u == 0x20 || u == 0x85 || u == 0xa0 || u == 0x1680 || (0x2000 <= u
        <= 0x200a) || u == 0x2028 || u == 0x2029 || u == 0x202f || u == 0x205f || u == 0x3000
}

pub open spec fn in_class(c: char, k: Trimmed) -> bool {
    match k {
        Trimmed::Space => is_space(c),
        Trimmed::Quote => c == '"',
        Trimmed::Dot => c == '.',
    }
}

fn is_in_class(c: char, k: Trimmed) -> (r: bool)
    ensures
        r == in_class(c, k),
{
    let u = c as u32;
    match k {
        Trimmed::Space => (0x09 <= u && u <= 0x0d) || u == 0x20 || u == 0x85 || u == 0xa0 || u
            == 0x1680 || (0x2000 <= u && u <= 0x200a) || u == 0x2028 || u == 0x2029 || u == 0x202f
            || u == 0x205f || u == 0x3000,
        Trimmed::Quote => c == '"',
        Trimmed::Dot => c == '.',
    }
}

/// `s` without its leading characters of class `k`.
pub open spec fn strip_front(s: Seq<char>, k: Trimmed) -> Seq<char>
    decreases s.len(),
{
    if s.len() > 0 && in_class(s[0], k) {
        strip_front(s.drop_first(), k)
    } else {
        s
    }
}

/// `s` without its trailing characters of class `k`.
pub open spec fn strip_back(s: Seq<char>, k: Trimmed) -> Seq<char>
    decreases s.len(),
{
    if s.len() > 0 && in_class(s.last(), k) {
        strip_back(s.drop_last(), k)
    } else {
        s
    }
}

/// What follows the last space of `s`; all of `s` where it has none.
pub open spec fn after_last_space(s: Seq<char>) -> Seq<char>
    decreases s.len(),
{
    if s.len() == 0 {
        s
    } else if s.last() == ' ' {
        Seq::empty()
    } else {
        after_last_space(s.drop_last()).push(s.last())
    }
}

/// The token that names the port: the line trimmed of white space, then of
/// double quotes at both ends, then of trailing full stops, and cut after its
/// last space.
pub open spec fn port_token(line: Seq<char>) -> Seq<char> {
    let trimmed = strip_back(strip_front(line, Trimmed::Space), Trimmed::Space);
    let unquoted = strip_back(strip_front(trimmed, Trimmed::Quote), Trimmed::Quote);
    after_last_space(strip_back(unquoted, Trimmed::Dot))
}

pub open spec fn is_digit(c: char) -> bool {
    '0' <= c <= '9'
}

pub open spec fn digit_value(c: char) -> nat {
    (c as u32 - '0' as u32) as nat
}

/// The number that the decimal digits `d` spell.
pub open spec fn digits_value(d: Seq<char>) -> nat
    decreases d.len(),
{
    if d.len() == 0 {
        0
    } else {
        digits_value(d.drop_last()) * 10 + digit_value(d.last())
    }
}

/// `t` without a leading `+`.
pub open spec fn unsigned_part(t: Seq<char>) -> Seq<char> {
    if t.len() > 0 && t[0] == '+' {
        t.drop_first()
    } else {
        t
    }
}

pub open spec fn all_digits(d: Seq<char>) -> bool {
    forall|i: int| 0 <= i < d.len() ==> is_digit(#[trigger] d[i])
}

/// Decimal digits `d` read as a 16-bit unsigned number: one or more digits,
/// of value at most 65535.
pub open spec fn parse_digits(d: Seq<char>) -> Option<u16> {
    if d.len() > 0 && all_digits(d) && digits_value(d) <= 65535 {
        Some(digits_value(d) as u16)
    } else {
        None
    }
}

/// `t` read as a 16-bit unsigned decimal number: an optional `+`, then one or
/// more digits, of value at most 65535.
pub open spec fn parse_u16(t: Seq<char>) -> Option<u16> {
    parse_digits(unsigned_part(t))
}

/// The marker a driver prints once it listens.
pub open spec fn marker() -> Seq<char> {
    "started successfully on port"@
}

/// `c` with ASCII upper-case letters taken to lower case, as a code point.
pub open spec fn folded(c: char) -> u32 {
    if 'A' <= c <= 'Z' {
        (c as u32 + 32) as u32
    } else {
        c as u32
    }
}

pub open spec fn matches_at(s: Seq<char>, m: Seq<char>, i: int) -> bool {
    forall|k: int| 0 <= k < m.len() ==> folded(#[trigger] s[i + k]) == folded(m[k])
}

/// `s` holds `m`, ignoring ASCII case.
pub open spec fn contains_folded(s: Seq<char>, m: Seq<char>) -> bool {
    exists|i: int| 0 <= i && i + m.len() <= s.len() && matches_at(s, m, i)
}

/// The port a readiness line reports: present exactly when the line holds the
/// marker (in any ASCII case) and its port token is a 16-bit number.
pub open spec fn reported_port(line: Seq<char>) -> Option<Port> {
    if contains_folded(line, marker()) {
        match parse_u16(port_token(line)) {
            Some(n) => Some(Port(n)),
            None => None,
        }
    } else {
        None
    }
}

fn fold(c: char) -> (r: u32)
    ensures
        r == folded(c),
{
    if 'A' <= c && c <= 'Z' {
        c as u32 + 32
    } else {
        c as u32
    }
}

fn chars_of(s: &str) -> (r: Vec<char>)
    ensures
        r@ == s@,
{
    let n = s.unicode_len();
    let mut r: Vec<char> = Vec::new();
    let mut i: usize = 0;
    while i < n
        invariant
            n == s@.len(),
            i <= n,
            r@ == s@.subrange(0, i as int),
        decreases n - i,
    {
        r.push(s.get_char(i));
        i = i + 1;
        assert(r@ =~= s@.subrange(0, i as int));
    }
    assert(s@.subrange(0, n as int) =~= s@);
    r
}

fn find_folded(s: &Vec<char>, m: &Vec<char>) -> (r: bool)
    ensures
        r == contains_folded(s@, m@),
{
    let n = s.len();
    let k = m.len();
    if k > n {
        return false;
    }
    let mut i: usize = 0;
    while i <= n - k
        invariant
            n == s@.len(),
            k == m@.len(),
            k <= n,
            i <= n - k + 1,
            forall|j: int| 0 <= j < i ==> !matches_at(s@, m@, j),
        decreases n - i,
    {
        let mut q: usize = 0;
        let mut ok = true;
        while q < k
            invariant
                n == s@.len(),
                k == m@.len(),
                i + k <= n,
                q <= k,
                ok == (forall|p: int| 0 <= p < q ==> folded(#[trigger] s@[i + p]) == folded(m@[p])),
            decreases k - q,
        {
            if fold(s[i + q]) != fold(m[q]) {
                ok = false;
            }
            q = q + 1;
        }
        if ok {
            assert(matches_at(s@, m@, i as int));
            return true;
        }
        i = i + 1;
    }
    false
}

proof fn lemma_strip_front_step(s: Seq<char>, lo: int, hi: int, k: Trimmed)
    requires
        0 <= lo < hi <= s.len(),
        in_class(s[lo], k),
    ensures
        strip_front(s.subrange(lo, hi), k) == strip_front(s.subrange(lo + 1, hi), k),
{
    assert(s.subrange(lo, hi).drop_first() =~= s.subrange(lo + 1, hi));
}

proof fn lemma_strip_back_step(s: Seq<char>, lo: int, hi: int, k: Trimmed)
    requires
        0 <= lo < hi <= s.len(),
        in_class(s[hi - 1], k),
    ensures
        strip_back(s.subrange(lo, hi), k) == strip_back(s.subrange(lo, hi - 1), k),
{
    assert(s.subrange(lo, hi).drop_last() =~= s.subrange(lo, hi - 1));
}

/// The start of `s[lo..hi]` once its leading characters of class `k` are gone.
fn skip_front(s: &Vec<char>, lo: usize, hi: usize, k: Trimmed) -> (r: usize)
    requires
        lo <= hi <= s@.len(),
    ensures
        lo <= r <= hi,
        strip_front(s@.subrange(lo as int, hi as int), k) == s@.subrange(r as int, hi as int),
{
    let mut i = lo;
    while i < hi && is_in_class(s[i], k)
        invariant
            lo <= i <= hi <= s@.len(),
            strip_front(s@.subrange(lo as int, hi as int), k) == strip_front(s@.subrange(i as int, hi as int), k),
        decreases hi - i,
    {
        proof {
            lemma_strip_front_step(s@, i as int, hi as int, k);
        }
        i = i + 1;
    }
    proof {
        let rest = s@.subrange(i as int, hi as int);
        if rest.len() > 0 {
            assert(rest[0] == s@[i as int]);
        }
    }
    i
}

/// The end of `s[lo..hi]` once its trailing characters of class `k` are gone.
fn skip_back(s: &Vec<char>, lo: usize, hi: usize, k: Trimmed) -> (r: usize)
    requires
        lo <= hi <= s@.len(),
    ensures
        lo <= r <= hi,
        strip_back(s@.subrange(lo as int, hi as int), k) == s@.subrange(lo as int, r as int),
{
    let mut j = hi;
    while j > lo && is_in_class(s[j - 1], k)
        invariant
            lo <= j <= hi <= s@.len(),
            strip_back(s@.subrange(lo as int, hi as int), k) == strip_back(s@.subrange(lo as int, j as int), k),
        decreases j - lo,
    {
        proof {
            lemma_strip_back_step(s@, lo as int, j as int, k);
        }
        j = j - 1;
    }
    proof {
        let rest = s@.subrange(lo as int, j as int);
        if rest.len() > 0 {
            assert(rest.last() == s@[j - 1]);
        }
    }
    j
}

/// The start of what follows the last space of `s[lo..hi]`.
fn last_space_cut(s: &Vec<char>, lo: usize, hi: usize) -> (r: usize)
    requires
        lo <= hi <= s@.len(),
    ensures
        lo <= r <= hi,
        after_last_space(s@.subrange(lo as int, hi as int)) == s@.subrange(r as int, hi as int),
{
    let mut j = hi;
    while j > lo && s[j - 1] != ' '
        invariant
            lo <= j <= hi <= s@.len(),
            after_last_space(s@.subrange(lo as int, hi as int)) == after_last_space(s@.subrange(lo as int, j as int)) + s@.subrange(j as int, hi as int),
        decreases j - lo,
    {
        proof {
            let cur = s@.subrange(lo as int, j as int);
            assert(cur.drop_last() =~= s@.subrange(lo as int, j - 1));
            assert(cur.last() == s@[j - 1]);
            assert(after_last_space(cur) == after_last_space(cur.drop_last()).push(s@[j - 1]));
            assert(s@.subrange(j - 1, hi as int) =~= seq![s@[j - 1]] + s@.subrange(j as int, hi as int));
            assert(after_last_space(cur.drop_last()).push(s@[j - 1]) + s@.subrange(j as int, hi as int)
                =~= after_last_space(cur.drop_last()) + s@.subrange(j - 1, hi as int));
        }
        j = j - 1;
    }
    proof {
        let cur = s@.subrange(lo as int, j as int);
        if j > lo {
            assert(cur.last() == s@[j - 1]);
        }
        assert(after_last_space(cur) =~= Seq::<char>::empty());
        assert(Seq::<char>::empty() + s@.subrange(j as int, hi as int) =~= s@.subrange(j as int, hi as int));
    }
    j
}

proof fn lemma_digits_push(d: Seq<char>, c: char)
    ensures
        digits_value(d.push(c)) == digits_value(d) * 10 + digit_value(c),
{
    assert(d.push(c).drop_last() =~= d);
}

/// Reads `s[lo..hi]` as a 16-bit unsigned decimal number.
fn parse_port_number(s: &Vec<char>, lo: usize, hi: usize) -> (r: Option<u16>)
    requires
        lo <= hi <= s@.len(),
    ensures
        r == parse_u16(s@.subrange(lo as int, hi as int)),
{
    let ghost t = s@.subrange(lo as int, hi as int);
    let mut start = lo;
    if lo < hi {
        assert(t[0] == s@[lo as int]);
    }
    if lo < hi && s[lo] == '+' {
        start = lo + 1;
        assert(t.drop_first() =~= s@.subrange(start as int, hi as int));
    } else {
        assert(t =~= s@.subrange(start as int, hi as int));
    }
    let ghost d = s@.subrange(start as int, hi as int);
    assert(d == unsigned_part(t));
    if start == hi {
        return None;
    }
    let mut acc: u32 = 0;
    let mut i = start;
    while i < hi
        invariant
            lo <= start <= i <= hi <= s@.len(),
            d == s@.subrange(start as int, hi as int),
            t == s@.subrange(lo as int, hi as int),
            d == unsigned_part(t),
            forall|p: int| start <= p < i ==> is_digit(#[trigger] s@[p]),
            acc <= 65536,
            acc == if digits_value(s@.subrange(start as int, i as int)) <= 65536 {
                digits_value(s@.subrange(start as int, i as int))
            } else {
                65536
            },
        decreases hi - i,
    {
        let c = s[i];
        if !('0' <= c && c <= '9') {
            assert(d[i - start] == c);
            assert(!is_digit(d[i - start]));
            assert(!all_digits(d));
            return None;
        }
        let ghost before = s@.subrange(start as int, i as int);
        proof {
            assert(s@.subrange(start as int, i + 1) =~= before.push(c));
            lemma_digits_push(before, c);
        }
        let dv = (c as u32) - ('0' as u32);
        let next = acc * 10 + dv;
        proof {
            let v = digits_value(before);
            if v > 65536 {
                assert(v * 10 + dv > 65536) by (nonlinear_arith)
                    requires v > 65536;
            }
            if v == 65536 {
                assert(v * 10 + dv > 65536);
            }
        }
        if next > 65536 {
            acc = 65536;
        } else {
            acc = next;
        }
        i = i + 1;
    }
    assert(s@.subrange(start as int, hi as int) == d);
    assert forall|p: int| 0 <= p < d.len() implies is_digit(#[trigger] d[p]) by {
        assert(d[p] == s@[start + p]);
    }
    assert(all_digits(d));
    if acc > 65535 {
        None
    } else {
        Some(acc as u16)
    }
}

/// The port a driver's stdout line reports, if it is the readiness line: the
/// line must hold `started successfully on port` (in any ASCII case), and its
/// last word, trimmed of quotes and trailing full stops, must be a port
/// number.
pub fn ready_port(line: &str) -> (r: Option<Port>)
    ensures
        r == reported_port(line@),
{
    let s = chars_of(line);
    let m = chars_of("started successfully on port");
    if !find_folded(&s, &m) {
        return None;
    }
    let n = s.len();
    assert(s@.subrange(0, n as int) =~= s@);
    let a = skip_front(&s, 0, n, Trimmed::Space);
    let b = skip_back(&s, a, n, Trimmed::Space);
    let c = skip_front(&s, a, b, Trimmed::Quote);
    let d = skip_back(&s, c, b, Trimmed::Quote);
    let e = skip_back(&s, c, d, Trimmed::Dot);
    let f = last_space_cut(&s, c, e);
    match parse_port_number(&s, f, e) {
        Some(p) => Some(Port(p)),
        None => None,
    }
}

} // verus!
