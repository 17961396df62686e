use vstd::prelude::*;
use vstd::std_specs::iter::IteratorSpec;

verus! {

broadcast use vstd::string::group_string_axioms;

/// Character classes used by the header grammar.
#[derive(Clone, Copy, Debug, PartialEq, Eq)]
pub enum CharClass {
    /// `[A-Za-z0-9_]`
    Ident,
    /// space or tab
    Blank,
    /// space, tab, carriage return or newline
    Space,
    /// `[0-9]`
    Digit,
    /// `*`
    Star,
}

pub open spec fn is_ident_char(c: char) -> bool {
    ('a' <= c && c <= 'z') || ('A' <= c && c <= 'Z') || ('0' <= c && c <= '9') || c == '_'
}

pub open spec fn is_digit(c: char) -> bool {
    '0' <= c && c <= '9'
}

pub open spec fn in_class(c: char, k: CharClass) -> bool {
    match k {
        CharClass::Ident => is_ident_char(c),
        CharClass::Blank => c == ' ' || c == '\t',
        CharClass::Space => c == ' ' || c == '\t' || c == '\n' || c == '\r',
        CharClass::Digit => is_digit(c),
        CharClass::Star => c == '*',
    }
}

/// The end of the longest run of characters of class `k` that starts at `i`.
pub open spec fn span_end(t: Seq<char>, i: int, k: CharClass) -> int
    decreases t.len() - i,
{
    if 0 <= i < t.len() && in_class(t[i], k) {
        span_end(t, i + 1, k)
    } else {
        i
    }
}

/// The first index at or after `i` that holds `c`, or the length of `t`.
pub open spec fn find_char(t: Seq<char>, i: int, c: char) -> int
    decreases t.len() - i,
{
    if i >= t.len() {
        t.len() as int
    } else if t[i] == c {
        i
    } else {
        find_char(t, i + 1, c)
    }
}

/// `w` occurs in `t` at index `i`.
pub open spec fn has_at(t: Seq<char>, i: int, w: Seq<char>) -> bool {
    0 <= i && i + w.len() <= t.len() && t.subrange(i, i + w.len()) == w
}

/// No identifier character stands right before index `i`.
pub open spec fn boundary_before(t: Seq<char>, i: int) -> bool {
    i == 0 || (0 < i <= t.len() && !is_ident_char(t[i - 1]))
}

pub open spec fn digit_char(d: nat) -> char {
    if d == 0 { '0' } else if d == 1 { '1' } else if d == 2 { '2' } else if d == 3 { '3' }
    else if d == 4 { '4' } else if d == 5 { '5' } else if d == 6 { '6' } else if d == 7 { '7' }
    else if d == 8 { '8' } else { '9' }
}

/// The decimal numeral of `n`, without leading zeros.
pub open spec fn decimal(n: nat) -> Seq<char>
    decreases n,
{
    if n < 10 {
        seq![digit_char(n)]
    } else {
        decimal(n / 10).push(digit_char(n % 10))
    }
}

/// The value of a string of decimal digits.
pub open spec fn digits_value(ds: Seq<char>) -> nat
    decreases ds.len(),
{
    if ds.len() == 0 {
        0
    } else {
        digits_value(ds.drop_last()) * 10 + ((ds.last() as int - '0' as int) as nat)
    }
}

/// The characters of `s`, in order.
pub fn to_chars(s: &str) -> (r: Vec<char>)
    ensures
        r@ == s@,
{
    let mut it = s.chars();
    let mut out: Vec<char> = Vec::new();
    loop
        invariant
            it.obeys_prophetic_iter_laws(),
            out@ + it.remaining() == s@,
            it.decrease() is Some,
        decreases it.decrease()->0,
    {
        match it.next() {
            Some(c) => {
                out.push(c);
            },
            None => {
                return out;
            },
        }
    }
}

/// Relies on String::push: appends one character at the end.
#[verifier::external_body]
pub(crate) fn push_char(s: &mut String, c: char)
    ensures
        final(s)@ == old(s)@.push(c),
{
    s.push(c)
}

/// Appends `t[lo..hi]` to `s`.
pub fn push_slice(s: &mut String, t: &Vec<char>, lo: usize, hi: usize)
    requires
        lo <= hi <= t@.len(),
    ensures
        final(s)@ == old(s)@ + t@.subrange(lo as int, hi as int),
{
    let ghost s0 = s@;
    let mut i: usize = lo;
    while i < hi
        invariant
            lo <= i <= hi,
            hi <= t@.len(),
            s@ == s0 + t@.subrange(lo as int, i as int),
        decreases hi - i,
    {
        push_char(s, t[i]);
        assert(t@.subrange(lo as int, i + 1) == t@.subrange(lo as int, i as int).push(t@[i as int]));
        i += 1;
    }
}

/// The characters of `t[lo..hi]` as a string.
pub fn slice_string(t: &Vec<char>, lo: usize, hi: usize) -> (r: String)
    requires
        lo <= hi <= t@.len(),
    ensures
        r@ == t@.subrange(lo as int, hi as int),
{
    let mut s = String::new();
    push_slice(&mut s, t, lo, hi);
    s
}

pub fn char_in_class(c: char, k: CharClass) -> (r: bool)
    ensures
        r == in_class(c, k),
{
    match k {
        CharClass::Ident => ('a' <= c && c <= 'z') || ('A' <= c && c <= 'Z') || ('0' <= c && c
            <= '9') || c == '_',
        CharClass::Blank => c == ' ' || c == '\t',
        CharClass::Space => c == ' ' || c == '\t' || c == '\n' || c == '\r',
        CharClass::Digit => '0' <= c && c <= '9',
        CharClass::Star => c == '*',
    }
}

/// The end of the run of class `k` that starts at `i`.
pub fn run_end(t: &Vec<char>, i: usize, k: CharClass) -> (r: usize)
    requires
        i <= t@.len(),
    ensures
        r as int == span_end(t@, i as int, k),
        i <= r <= t@.len(),
{
    let mut j: usize = i;
    while j < t.len() && char_in_class(t[j], k)
        invariant
            i <= j <= t@.len(),
            span_end(t@, i as int, k) == span_end(t@, j as int, k),
        decreases t@.len() - j,
    {
        j += 1;
    }
    j
}

/// The first index at or after `i` that holds `c`, or the length of `t`.
pub fn find(t: &Vec<char>, i: usize, c: char) -> (r: usize)
    requires
        i <= t@.len(),
    ensures
        r as int == find_char(t@, i as int, c),
        i <= r <= t@.len(),
{
    let mut j: usize = i;
    while j < t.len() && t[j] != c
        invariant
            i <= j <= t@.len(),
            find_char(t@, i as int, c) == find_char(t@, j as int, c),
        decreases t@.len() - j,
    {
        j += 1;
    }
    j
}

/// Whether the characters of `w` occur in `t` at index `i`.
pub fn occurs_at(t: &Vec<char>, i: usize, w: &str) -> (r: bool)
    ensures
        r == has_at(t@, i as int, w@),
{
    let wc = to_chars(w);
    if i > t.len() || wc.len() > t.len() - i {
        return false;
    }
    let mut j: usize = 0;
    let n = t.len();
    while j < wc.len()
        invariant
            n == t@.len(),
            j <= wc@.len(),
            i + wc@.len() <= t@.len(),
            t@.len() <= usize::MAX,
            wc@ == w@,
            forall|m: int| 0 <= m < j ==> t@[i + m] == wc@[m],
        decreases wc@.len() - j,
    {
        if t[i + j] != wc[j] {
            assert(t@.subrange(i as int, i + wc@.len())[j as int] != w@[j as int]);
            return false;
        }
        j += 1;
    }
    assert(t@.subrange(i as int, i + wc@.len()) =~= w@);
    true
}

/// Whether `t[lo..hi]` is exactly the characters of `w`.
pub fn slice_is(t: &Vec<char>, lo: usize, hi: usize, w: &str) -> (r: bool)
    requires
        lo <= hi <= t@.len(),
    ensures
        r == (t@.subrange(lo as int, hi as int) == w@),
{
    let wc = to_chars(w);
    if wc.len() != hi - lo {
        return false;
    }
    let r = occurs_at(t, lo, w);
    r
}

/// Appends the decimal numeral of `n` to `s`.
pub fn push_decimal(s: &mut String, n: usize)
    ensures
        final(s)@ == old(s)@ + decimal(n as nat),
    decreases n,
{
    if n >= 10 {
        push_decimal(s, n / 10);
    }
    let d = n % 10;
    let c = if d == 0 { '0' } else if d == 1 { '1' } else if d == 2 { '2' } else if d == 3 { '3' }
    else if d == 4 { '4' } else if d == 5 { '5' } else if d == 6 { '6' } else if d == 7 { '7' }
    else if d == 8 { '8' } else { '9' };
    push_char(s, c);
    proof {
        if n >= 10 {
            assert(decimal(n as nat) == decimal((n / 10) as nat).push(digit_char((n % 10) as nat)));
        }
    }
}

} // verus!
