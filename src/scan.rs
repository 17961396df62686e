use vstd::prelude::*;
use crate::text::{
    boundary_before, char_in_class, find, find_char, has_at, is_digit, occurs_at, run_end,
    slice_string, span_end, to_chars, CharClass,
};

verus! {

/// The index where the run of digits that ends right before `e` starts.
pub open spec fn digits_back(n: Seq<char>, e: int) -> int
    decreases e,
{
    if 0 < e <= n.len() && is_digit(n[e - 1]) {
        digits_back(n, e - 1)
    } else {
        e
    }
}

/// The start of the rank digits of an array type name.
pub open spec fn rank_start(n: Seq<char>) -> int {
    digits_back(n, n.len() - 1)
}

/// `n` has the shape `futhark_<element>_<digits>d` with a non-empty element token.
pub open spec fn array_name_ok(n: Seq<char>) -> bool {
    &&& n.len() >= 1
    &&& has_at(n, 0, "futhark_"@)
    &&& n[n.len() - 1] == 'd'
    &&& rank_start(n) < n.len() - 1
    &&& rank_start(n) >= "futhark_"@.len() + 2
    &&& n[rank_start(n) - 1] == '_'
}

/// Where the identifier of an array declaration at `i` starts.
pub open spec fn decl_name_start(t: Seq<char>, i: int) -> int {
    span_end(t, i + "struct"@.len(), CharClass::Blank)
}

pub open spec fn decl_name_end(t: Seq<char>, i: int) -> int {
    span_end(t, decl_name_start(t, i), CharClass::Ident)
}

/// An array type declaration `struct <name> ;` starts at index `i`.
pub open spec fn decl_at(t: Seq<char>, i: int) -> bool {
    let k = decl_name_start(t, i);
    let e = decl_name_end(t, i);
    let f = span_end(t, e, CharClass::Space);
    &&& boundary_before(t, i)
    &&& has_at(t, i, "struct"@)
    &&& k > i + "struct"@.len()
    &&& array_name_ok(t.subrange(k, e))
    &&& f < t.len()
    &&& t[f] == ';'
}

/// The names of the array type declarations of `t` from index `i` on, in order.
pub open spec fn array_decls(t: Seq<char>, i: int) -> Seq<Seq<char>>
    decreases t.len() - i,
{
    if i < 0 || i >= t.len() {
        Seq::empty()
    } else if decl_at(t, i) {
        seq![t.subrange(decl_name_start(t, i), decl_name_end(t, i))] + array_decls(t, i + 1)
    } else {
        array_decls(t, i + 1)
    }
}

/// An entry point prototype `int futhark_entry_...` starts at index `i`.
pub open spec fn proto_at(t: Seq<char>, i: int) -> bool {
    let k = span_end(t, i + "int"@.len(), CharClass::Blank);
    &&& boundary_before(t, i)
    &&& has_at(t, i, "int"@)
    &&& k > i + "int"@.len()
    &&& has_at(t, k, "futhark_entry_"@)
}

/// The prototype statements of `t` from index `i` on, each up to and with its `;`;
/// or the index of the first prototype that no `;` ends.
pub open spec fn entry_stmts(t: Seq<char>, i: int) -> Result<Seq<Seq<char>>, int>
    decreases t.len() - i
    via entry_stmts_decreases
{
    if i < 0 || i >= t.len() {
        Ok(Seq::empty())
    } else if proto_at(t, i) {
        let s = find_char(t, i, ';');
        if s >= t.len() {
            Err(i)
        } else {
            match entry_stmts(t, s + 1) {
                Ok(rest) => Ok(seq![t.subrange(i, s + 1)] + rest),
                Err(p) => Err(p),
            }
        }
    } else {
        entry_stmts(t, i + 1)
    }
}

#[via_fn]
proof fn entry_stmts_decreases(t: Seq<char>, i: int) {
    if 0 <= i < t.len() {
        lemma_find_char_bounds(t, i, ';');
    }
}

pub proof fn lemma_find_char_bounds(t: Seq<char>, i: int, c: char)
    requires
        0 <= i <= t.len(),
    ensures
        i <= find_char(t, i, c) <= t.len(),
        find_char(t, i, c) < t.len() ==> t[find_char(t, i, c)] == c,
        forall|m: int| i <= m < find_char(t, i, c) ==> t[m] != c,
    decreases t.len() - i,
{
    if i < t.len() && t[i] != c {
        lemma_find_char_bounds(t, i + 1, c);
    }
}

/// Why a header could not be scanned.
#[derive(Clone, Copy, Debug, PartialEq, Eq, Structural)]
pub enum ScanError {
    /// A prototype starts at this character offset and no `;` ends it.
    Unterminated { position: usize },
    /// The header is not empty and declares no entry point.
    NoEntryPoints,
}

/// The raw declarations found in one header.
#[derive(Clone, Debug)]
pub struct HeaderDecls {
    /// Array type names, in source order.
    pub array_types: Vec<String>,
    /// Entry point statements, in source order.
    pub entry_points: Vec<String>,
}

pub open spec fn strings_view(v: Seq<String>) -> Seq<Seq<char>> {
    v.map_values(|s: String| s@)
}

/// What scanning the header text `t` gives.
pub open spec fn header_scan(t: Seq<char>) -> Result<(Seq<Seq<char>>, Seq<Seq<char>>), ScanError> {
    match entry_stmts(t, 0) {
        Err(p) => Err(ScanError::Unterminated { position: p as usize }),
        Ok(es) => if es.len() == 0 && t.len() > 0 {
            Err(ScanError::NoEntryPoints)
        } else {
            Ok((array_decls(t, 0), es))
        },
    }
}

/// Whether `n` is an array type name.
pub fn is_array_name(n: &Vec<char>) -> (r: bool)
    ensures
        r == array_name_ok(n@),
{
    if n.len() < 1 {
        return false;
    }
    let e = n.len() - 1;
    let mut ds: usize = e;
    while ds > 0 && '0' <= n[ds - 1] && n[ds - 1] <= '9'
        invariant
            ds <= e,
            e == n@.len() - 1,
            digits_back(n@, ds as int) == digits_back(n@, e as int),
        decreases ds,
    {
        ds -= 1;
    }
    let pre = "futhark_";
    let prefix_ok = occurs_at(n, 0, pre);
    let pc = to_chars(pre);
    prefix_ok && n[e] == 'd' && ds < e && ds >= 2 && ds - 2 >= pc.len() && n[ds - 1] == '_'
}

/// The span of the name of an array declaration at `i`, if one starts there.
fn decl_span(t: &Vec<char>, i: usize) -> (r: Option<(usize, usize)>)
    requires
        i < t@.len(),
    ensures
        r is Some <==> decl_at(t@, i as int),
        r matches Some((k, e)) ==> k == decl_name_start(t@, i as int) && e == decl_name_end(
            t@,
            i as int,
        ) && k <= e <= t@.len(),
{
    let n = t.len();
    if i > 0 && char_in_class(t[i - 1], CharClass::Ident) {
        return None;
    }
    let kw = "struct";
    if !occurs_at(t, i, kw) {
        return None;
    }
    let kwc = to_chars(kw);
    let k = run_end(t, i + kwc.len(), CharClass::Blank);
    if k == i + kwc.len() {
        return None;
    }
    let e = run_end(t, k, CharClass::Ident);
    let name = slice_chars(t, k, e);
    if !is_array_name(&name) {
        return None;
    }
    let f = run_end(t, e, CharClass::Space);
    if f < t.len() && t[f] == ';' {
        Some((k, e))
    } else {
        None
    }
}

/// The characters `t[lo..hi]`.
pub fn slice_chars(t: &Vec<char>, lo: usize, hi: usize) -> (r: Vec<char>)
    requires
        lo <= hi <= t@.len(),
    ensures
        r@ == t@.subrange(lo as int, hi as int),
{
    let mut out: Vec<char> = Vec::new();
    let mut i: usize = lo;
    while i < hi
        invariant
            lo <= i <= hi <= t@.len(),
            out@ == t@.subrange(lo as int, i as int),
        decreases hi - i,
    {
        out.push(t[i]);
        assert(t@.subrange(lo as int, i + 1) == t@.subrange(lo as int, i as int).push(t@[i as int]));
        i += 1;
    }
    out
}

/// The names of all array type declarations of `t`, in source order.
pub fn scan_array_types(t: &Vec<char>) -> (r: Vec<String>)
    ensures
        strings_view(r@) == array_decls(t@, 0),
{
    let mut out: Vec<String> = Vec::new();
    let mut i: usize = 0;
    while i < t.len()
        invariant
            i <= t@.len(),
            strings_view(out@) + array_decls(t@, i as int) == array_decls(t@, 0),
        decreases t@.len() - i,
    {
        let ghost before = strings_view(out@);
        match decl_span(t, i) {
            Some((k, e)) => {
                let s = slice_string(t, k, e);
                out.push(s);
                assert(strings_view(out@) == before.push(s@));
                assert(array_decls(t@, i as int) == seq![s@] + array_decls(t@, i + 1));
                assert(before.push(s@) + array_decls(t@, i + 1) == before + (seq![s@] + array_decls(t@, i + 1)));
            },
            None => {},
        }
        i += 1;
    }
    assert(array_decls(t@, i as int) == Seq::<Seq<char>>::empty());
    assert(strings_view(out@) + Seq::<Seq<char>>::empty() == strings_view(out@));
    out
}

/// `r` with `p` put before its statements.
pub open spec fn prepend(p: Seq<Seq<char>>, r: Result<Seq<Seq<char>>, int>) -> Result<Seq<Seq<char>>, int> {
    match r {
        Ok(rest) => Ok(p + rest),
        Err(x) => Err(x),
    }
}

/// Whether an entry point prototype starts at `i`.
fn proto_starts(t: &Vec<char>, i: usize) -> (r: bool)
    requires
        i < t@.len(),
    ensures
        r == proto_at(t@, i as int),
{
    let n = t.len();
    if i > 0 && char_in_class(t[i - 1], CharClass::Ident) {
        return false;
    }
    let kw = "int";
    if !occurs_at(t, i, kw) {
        return false;
    }
    let kwc = to_chars(kw);
    let k = run_end(t, i + kwc.len(), CharClass::Blank);
    k > i + kwc.len() && occurs_at(t, k, "futhark_entry_")
}

/// The entry point statements of `t`, in source order.
pub fn scan_entry_points(t: &Vec<char>) -> (r: Result<Vec<String>, usize>)
    ensures
        match r {
            Ok(v) => entry_stmts(t@, 0) == Ok::<Seq<Seq<char>>, int>(strings_view(v@)),
            Err(p) => entry_stmts(t@, 0) == Err::<Seq<Seq<char>>, int>(p as int),
        },
{
    let mut out: Vec<String> = Vec::new();
    let mut i: usize = 0;
    while i < t.len()
        invariant
            i <= t@.len(),
            entry_stmts(t@, 0) == prepend(strings_view(out@), entry_stmts(t@, i as int)),
        decreases t@.len() - i,
    {
        if proto_starts(t, i) {
            let s = find(t, i, ';');
            if s >= t.len() {
                return Err(i);
            }
            let st = slice_string(t, i, s + 1);
            let ghost before = strings_view(out@);
            out.push(st);
            proof {
                assert(strings_view(out@) == before.push(st@));
                assert(before.push(st@) == before + seq![st@]);
                match entry_stmts(t@, s + 1) {
                    Ok(rest) => {
                        assert(before + (seq![st@] + rest) == before + seq![st@] + rest);
                    },
                    Err(_) => {},
                }
            }
            i = s + 1;
        } else {
            i += 1;
        }
    }
    proof {
        assert(strings_view(out@) + Seq::<Seq<char>>::empty() == strings_view(out@));
    }
    Ok(out)
}

/// Scans one header: its array type declarations and its entry point prototypes.
pub fn scan_header(text: &str) -> (r: Result<HeaderDecls, ScanError>)
    ensures
        match (r, header_scan(text@)) {
            (Ok(d), Ok((arrays, entries))) => strings_view(d.array_types@) == arrays
                && strings_view(d.entry_points@) == entries,
            (Err(e), Err(f)) => e == f,
            _ => false,
        },
{
    let t = to_chars(text);
    match scan_entry_points(&t) {
        Err(p) => Err(ScanError::Unterminated { position: p }),
        Ok(entries) => {
            if entries.len() == 0 && t.len() > 0 {
                Err(ScanError::NoEntryPoints)
            } else {
                let arrays = scan_array_types(&t);
                Ok(HeaderDecls { array_types: arrays, entry_points: entries })
            }
        },
    }
}

} // verus!
