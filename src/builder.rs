use vstd::prelude::*;
use crate::model::{
    ApiModel, ApiModelSpec, ArrayTypeDescriptor, ArrayTypeSpec, Direction, ElementType,
    EntryPointDescriptor, EntryPointSpec, ParamDescriptor, ParamKind, ParamSpec,
};
use crate::scan::{array_name_ok, is_array_name, rank_start, slice_chars, strings_view};
use crate::text::{
    digits_value, find, find_char, has_at, in_class, occurs_at, run_end, slice_is,
    slice_string, span_end, to_chars, CharClass,
};

verus! {

/// Why a scanned declaration could not be understood.
#[derive(Clone, Copy, Debug, PartialEq, Eq, Structural)]
pub enum ParseError {
    /// An array type name without the shape `futhark_<element>_<rank>d`.
    MalformedArrayType,
    /// An element token outside the element table.
    UnknownElementType,
    /// A rank that is zero, has a leading zero or does not fit a `usize`.
    BadRank,
    /// An entry point statement outside the prototype grammar.
    MalformedEntryPoint,
    /// A parameter outside the parameter grammar, or with a pointer depth that fits no direction.
    MalformedParameter,
    /// A parameter type that is neither a known scalar nor an array type.
    UnknownParameterType,
}

/// The element type that an array name's element token denotes.
pub open spec fn element_of(tok: Seq<char>) -> Option<ElementType> {
    if tok == "i8"@ { Some(ElementType::I8) }
    else if tok == "i16"@ { Some(ElementType::I16) }
    else if tok == "i32"@ { Some(ElementType::I32) }
    else if tok == "i64"@ { Some(ElementType::I64) }
    else if tok == "u8"@ { Some(ElementType::U8) }
    else if tok == "u16"@ { Some(ElementType::U16) }
    else if tok == "u32"@ { Some(ElementType::U32) }
    else if tok == "u64"@ { Some(ElementType::U64) }
    else if tok == "f16"@ { Some(ElementType::F16) }
    else if tok == "f32"@ { Some(ElementType::F32) }
    else if tok == "f64"@ { Some(ElementType::F64) }
    else if tok == "bool"@ { Some(ElementType::Bool) }
    else { None }
}

/// The element type that a C scalar type name denotes.
pub open spec fn c_scalar_of(ty: Seq<char>) -> Option<ElementType> {
    if ty == "int8_t"@ { Some(ElementType::I8) }
    else if ty == "int16_t"@ { Some(ElementType::I16) }
    else if ty == "int32_t"@ { Some(ElementType::I32) }
    else if ty == "int64_t"@ { Some(ElementType::I64) }
    else if ty == "uint8_t"@ { Some(ElementType::U8) }
    else if ty == "uint16_t"@ { Some(ElementType::U16) }
    else if ty == "uint32_t"@ { Some(ElementType::U32) }
    else if ty == "uint64_t"@ { Some(ElementType::U64) }
    else if ty == "float"@ { Some(ElementType::F32) }
    else if ty == "double"@ { Some(ElementType::F64) }
    else if ty == "bool"@ { Some(ElementType::Bool) }
    else { None }
}

/// The model of the array type named `n`.
pub open spec fn array_type_spec(n: Seq<char>) -> Result<ArrayTypeSpec, ParseError> {
    if !array_name_ok(n) {
        Err(ParseError::MalformedArrayType)
    } else {
        let tok = n.subrange("futhark_"@.len() as int, rank_start(n) - 1);
        let ds = n.subrange(rank_start(n), n.len() - 1);
        match element_of(tok) {
            None => Err(ParseError::UnknownElementType),
            Some(e) => if ds[0] == '0' || digits_value(ds) > usize::MAX {
                Err(ParseError::BadRank)
            } else {
                Ok(ArrayTypeSpec { name: n, element: e, rank: digits_value(ds) })
            },
        }
    }
}

fn element_from(t: &Vec<char>, lo: usize, hi: usize) -> (r: Option<ElementType>)
    requires
        lo <= hi <= t@.len(),
    ensures
        r == element_of(t@.subrange(lo as int, hi as int)),
{
    if slice_is(t, lo, hi, "i8") { Some(ElementType::I8) }
    else if slice_is(t, lo, hi, "i16") { Some(ElementType::I16) }
    else if slice_is(t, lo, hi, "i32") { Some(ElementType::I32) }
    else if slice_is(t, lo, hi, "i64") { Some(ElementType::I64) }
    else if slice_is(t, lo, hi, "u8") { Some(ElementType::U8) }
    else if slice_is(t, lo, hi, "u16") { Some(ElementType::U16) }
    else if slice_is(t, lo, hi, "u32") { Some(ElementType::U32) }
    else if slice_is(t, lo, hi, "u64") { Some(ElementType::U64) }
    else if slice_is(t, lo, hi, "f16") { Some(ElementType::F16) }
    else if slice_is(t, lo, hi, "f32") { Some(ElementType::F32) }
    else if slice_is(t, lo, hi, "f64") { Some(ElementType::F64) }
    else if slice_is(t, lo, hi, "bool") { Some(ElementType::Bool) }
    else { None }
}

fn c_scalar_from(t: &Vec<char>, lo: usize, hi: usize) -> (r: Option<ElementType>)
    requires
        lo <= hi <= t@.len(),
    ensures
        r == c_scalar_of(t@.subrange(lo as int, hi as int)),
{
    if slice_is(t, lo, hi, "int8_t") { Some(ElementType::I8) }
    else if slice_is(t, lo, hi, "int16_t") { Some(ElementType::I16) }
    else if slice_is(t, lo, hi, "int32_t") { Some(ElementType::I32) }
    else if slice_is(t, lo, hi, "int64_t") { Some(ElementType::I64) }
    else if slice_is(t, lo, hi, "uint8_t") { Some(ElementType::U8) }
    else if slice_is(t, lo, hi, "uint16_t") { Some(ElementType::U16) }
    else if slice_is(t, lo, hi, "uint32_t") { Some(ElementType::U32) }
    else if slice_is(t, lo, hi, "uint64_t") { Some(ElementType::U64) }
    else if slice_is(t, lo, hi, "float") { Some(ElementType::F32) }
    else if slice_is(t, lo, hi, "double") { Some(ElementType::F64) }
    else if slice_is(t, lo, hi, "bool") { Some(ElementType::Bool) }
    else { None }
}

/// The value of the digits `t[lo..hi]`, or `None` where it exceeds a `usize`.
fn digits_to_usize(t: &Vec<char>, lo: usize, hi: usize) -> (r: Option<usize>)
    requires
        lo <= hi <= t@.len(),
        forall|m: int| lo <= m < hi ==> '0' <= #[trigger] t@[m] <= '9',
    ensures
        match r {
            Some(v) => v as nat == digits_value(t@.subrange(lo as int, hi as int)),
            None => digits_value(t@.subrange(lo as int, hi as int)) > usize::MAX,
        },
{
    let mut v: usize = 0;
    let mut i: usize = lo;
    while i < hi
        invariant
            lo <= i <= hi <= t@.len(),
            forall|m: int| lo <= m < hi ==> '0' <= #[trigger] t@[m] <= '9',
            v as nat == digits_value(t@.subrange(lo as int, i as int)),
        decreases hi - i,
    {
        let ghost prev = t@.subrange(lo as int, i as int);
        let ghost next = t@.subrange(lo as int, i + 1);
        assert(next.drop_last() == prev);
        assert(next.last() == t@[i as int]);
        let d = (t[i] as u32 - '0' as u32) as usize;
        match v.checked_mul(10) {
            None => {
                proof {
                    assert(t@.subrange(lo as int, hi as int).subrange(0, i + 1 - lo) == next);
                    lemma_digits_value_prefix(t@.subrange(lo as int, hi as int), i + 1 - lo);
                }
                return None;
            },
            Some(w) => match w.checked_add(d) {
                None => {
                    proof {
                        assert(t@.subrange(lo as int, hi as int).subrange(0, i + 1 - lo) == next);
                        lemma_digits_value_prefix(t@.subrange(lo as int, hi as int), i + 1 - lo);
                    }
                    return None;
                },
                Some(x) => {
                    v = x;
                },
            },
        }
        i += 1;
    }
    assert(t@.subrange(lo as int, i as int) == t@.subrange(lo as int, hi as int));
    Some(v)
}

proof fn lemma_digits_value_prefix(ds: Seq<char>, k: int)
    requires
        0 <= k <= ds.len(),
    ensures
        digits_value(ds.subrange(0, k)) <= digits_value(ds),
    decreases ds.len(),
{
    if k == ds.len() {
        assert(ds.subrange(0, k) == ds);
    } else {
        assert(ds.drop_last().subrange(0, k) == ds.subrange(0, k));
        lemma_digits_value_prefix(ds.drop_last(), k);
    }
}

/// Parses an array type name into its element type and rank.
pub fn parse_array_type(name: &String) -> (r: Result<ArrayTypeDescriptor, ParseError>)
    ensures
        match (r, array_type_spec(name@)) {
            (Ok(d), Ok(s)) => d@ == s,
            (Err(e), Err(f)) => e == f,
            _ => false,
        },
{
    let n = to_chars(name.as_str());
    if !is_array_name(&n) {
        return Err(ParseError::MalformedArrayType);
    }
    let ghost rs = rank_start(n@);
    let e = n.len() - 1;
    let mut ds: usize = e;
    while ds > 0 && '0' <= n[ds - 1] && n[ds - 1] <= '9'
        invariant
            ds <= e,
            e == n@.len() - 1,
            crate::scan::digits_back(n@, ds as int) == rs,
            forall|m: int| ds <= m < e ==> '0' <= #[trigger] n@[m] <= '9',
        decreases ds,
    {
        ds -= 1;
    }
    let pre = to_chars("futhark_");
    let element = match element_from(&n, pre.len(), ds - 1) {
        None => {
            return Err(ParseError::UnknownElementType);
        },
        Some(el) => el,
    };
    if n[ds] == '0' {
        return Err(ParseError::BadRank);
    }
    match digits_to_usize(&n, ds, e) {
        None => Err(ParseError::BadRank),
        Some(rank) => Ok(ArrayTypeDescriptor { name: name.clone(), element, rank }),
    }
}

/// The keyword `kw` stands at `a` and a space follows it.
pub open spec fn keyword_at(p: Seq<char>, a: int, kw: Seq<char>) -> bool {
    has_at(p, a, kw) && a + kw.len() < p.len() && in_class(p[a + kw.len()], CharClass::Space)
}

/// Where the type name of parameter text `p` starts, after `const` and `struct`.
pub open spec fn param_type_start(p: Seq<char>) -> int {
    let a = span_end(p, 0, CharClass::Space);
    let a1 = if keyword_at(p, a, "const"@) {
        span_end(p, a + "const"@.len(), CharClass::Space)
    } else {
        a
    };
    if keyword_at(p, a1, "struct"@) {
        span_end(p, a1 + "struct"@.len(), CharClass::Space)
    } else {
        a1
    }
}

/// Parameter text `p` names a `struct` type.
pub open spec fn param_is_struct(p: Seq<char>) -> bool {
    let a = span_end(p, 0, CharClass::Space);
    let a1 = if keyword_at(p, a, "const"@) {
        span_end(p, a + "const"@.len(), CharClass::Space)
    } else {
        a
    };
    keyword_at(p, a1, "struct"@)
}

/// The model of one parameter, from its text
/// `[const] [struct] <type> <stars> <name>` with spaces around the parts.
pub open spec fn param_spec(p: Seq<char>) -> Result<ParamSpec, ParseError> {
    let a2 = param_type_start(p);
    let te = span_end(p, a2, CharClass::Ident);
    let b = span_end(p, te, CharClass::Space);
    let c = span_end(p, b, CharClass::Star);
    let d = span_end(p, c, CharClass::Space);
    let ne = span_end(p, d, CharClass::Ident);
    let z = span_end(p, ne, CharClass::Space);
    if te == a2 || ne == d || z != p.len() {
        Err(ParseError::MalformedParameter)
    } else {
        let ty = p.subrange(a2, te);
        let stars = c - b;
        let name = p.subrange(d, ne);
        if param_is_struct(p) {
            match array_type_spec(ty) {
                Ok(at) => if stars == 1 {
                    Ok(ParamSpec { direction: Direction::In, kind: ParamKind::Array(at.element, at.rank as usize), name })
                } else if stars == 2 {
                    Ok(ParamSpec { direction: Direction::Out, kind: ParamKind::Array(at.element, at.rank as usize), name })
                } else {
                    Err(ParseError::MalformedParameter)
                },
                Err(_) => Err(ParseError::UnknownParameterType),
            }
        } else {
            match c_scalar_of(ty) {
                Some(e) => if stars == 0 {
                    Ok(ParamSpec { direction: Direction::In, kind: ParamKind::Scalar(e), name })
                } else if stars == 1 {
                    Ok(ParamSpec { direction: Direction::Out, kind: ParamKind::Scalar(e), name })
                } else {
                    Err(ParseError::MalformedParameter)
                },
                None => Err(ParseError::UnknownParameterType),
            }
        }
    }
}

/// The index right after keyword `kw` at `a`, where it stands there.
fn keyword_here(p: &Vec<char>, a: usize, kw: &str) -> (r: Option<usize>)
    requires
        a <= p@.len(),
    ensures
        r is Some <==> keyword_at(p@, a as int, kw@),
        r matches Some(v) ==> v == a + kw@.len() && v < p@.len(),
{
    let n = p.len();
    if !occurs_at(p, a, kw) {
        return None;
    }
    let k = to_chars(kw);
    if a + k.len() < n && crate::text::char_in_class(p[a + k.len()], CharClass::Space) {
        Some(a + k.len())
    } else {
        None
    }
}

/// Parses the text of one parameter.
pub fn parse_param(p: &Vec<char>) -> (r: Result<ParamDescriptor, ParseError>)
    ensures
        match (r, param_spec(p@)) {
            (Ok(d), Ok(s)) => d@ == s,
            (Err(e), Err(f)) => e == f,
            _ => false,
        },
{
    let a = run_end(p, 0, CharClass::Space);
    let a1 = match keyword_here(p, a, "const") {
        Some(v) => run_end(p, v, CharClass::Space),
        None => a,
    };
    let kw_struct = keyword_here(p, a1, "struct");
    let is_struct = kw_struct.is_some();
    let a2 = match kw_struct {
        Some(v) => run_end(p, v, CharClass::Space),
        None => a1,
    };
    let te = run_end(p, a2, CharClass::Ident);
    let b = run_end(p, te, CharClass::Space);
    let c = run_end(p, b, CharClass::Star);
    let d = run_end(p, c, CharClass::Space);
    let ne = run_end(p, d, CharClass::Ident);
    let z = run_end(p, ne, CharClass::Space);
    if te == a2 || ne == d || z != p.len() {
        return Err(ParseError::MalformedParameter);
    }
    let stars = c - b;
    let name = slice_string(p, d, ne);
    if is_struct {
        let ty = slice_string(p, a2, te);
        match parse_array_type(&ty) {
            Ok(at) => if stars == 1 {
                Ok(ParamDescriptor { direction: Direction::In, kind: ParamKind::Array(at.element, at.rank), name })
            } else if stars == 2 {
                Ok(ParamDescriptor { direction: Direction::Out, kind: ParamKind::Array(at.element, at.rank), name })
            } else {
                Err(ParseError::MalformedParameter)
            },
            Err(_) => Err(ParseError::UnknownParameterType),
        }
    } else {
        match c_scalar_from(p, a2, te) {
            Some(e) => if stars == 0 {
                Ok(ParamDescriptor { direction: Direction::In, kind: ParamKind::Scalar(e), name })
            } else if stars == 1 {
                Ok(ParamDescriptor { direction: Direction::Out, kind: ParamKind::Scalar(e), name })
            } else {
                Err(ParseError::MalformedParameter)
            },
            None => Err(ParseError::UnknownParameterType),
        }
    }
}

/// The comma separated pieces of `s` from index `k` on.
pub open spec fn split_from(s: Seq<char>, k: int) -> Seq<Seq<char>>
    decreases s.len() - k
    via split_from_decreases
{
    let c = find_char(s, k, ',');
    if k < 0 || k > s.len() || c >= s.len() {
        seq![s.subrange(k, s.len() as int)]
    } else {
        seq![s.subrange(k, c)] + split_from(s, c + 1)
    }
}

#[via_fn]
proof fn split_from_decreases(s: Seq<char>, k: int) {
    if 0 <= k <= s.len() {
        crate::scan::lemma_find_char_bounds(s, k, ',');
    }
}

/// The models of the parameters `segs`, or the first error among them.
pub open spec fn params_spec(segs: Seq<Seq<char>>) -> Result<Seq<ParamSpec>, ParseError>
    decreases segs.len(),
{
    if segs.len() == 0 {
        Ok(Seq::empty())
    } else {
        match params_spec(segs.drop_last()) {
            Err(e) => Err(e),
            Ok(ps) => match param_spec(segs.last()) {
                Err(e) => Err(e),
                Ok(p) => Ok(ps.push(p)),
            },
        }
    }
}

proof fn lemma_params_error_persists(segs: Seq<Seq<char>>, j: int)
    requires
        0 <= j <= segs.len(),
        params_spec(segs.take(j)) is Err,
    ensures
        params_spec(segs) == params_spec(segs.take(j)),
    decreases segs.len(),
{
    if j == segs.len() {
        assert(segs.take(j) == segs);
    } else {
        assert(segs.drop_last().take(j) == segs.take(j));
        lemma_params_error_persists(segs.drop_last(), j);
    }
}

pub open spec fn context_param() -> ParamSpec {
    ParamSpec { direction: Direction::In, kind: ParamKind::Context, name: "ctx"@ }
}

/// Where the name of the entry point in statement `st` starts.
pub open spec fn entry_name_start(st: Seq<char>) -> int {
    span_end(st, "int"@.len() as int, CharClass::Blank) + "futhark_entry_"@.len()
}

pub open spec fn entry_name_end(st: Seq<char>) -> int {
    span_end(st, entry_name_start(st), CharClass::Ident)
}

/// Where the text of the parameters after the context starts.
pub open spec fn entry_rest_start(st: Seq<char>) -> int {
    entry_name_end(st) + "(struct futhark_context *ctx"@.len()
}

/// The texts of the parameters after the context.
pub open spec fn entry_param_texts(st: Seq<char>) -> Seq<Seq<char>> {
    let mid = st.subrange(entry_rest_start(st), st.len() - 2);
    if mid.len() == 0 {
        Seq::empty()
    } else {
        split_from(mid, 1)
    }
}

/// The statement has the prototype shape
/// `int futhark_entry_<name>(struct futhark_context *ctx[, <param>]*);`.
pub open spec fn entry_shape_ok(st: Seq<char>) -> bool {
    let k = span_end(st, "int"@.len() as int, CharClass::Blank);
    let mid_len = st.len() - 2 - entry_rest_start(st);
    &&& has_at(st, 0, "int"@)
    &&& k > "int"@.len()
    &&& has_at(st, k, "futhark_entry_"@)
    &&& entry_name_end(st) > entry_name_start(st)
    &&& has_at(st, entry_name_end(st), "(struct futhark_context *ctx"@)
    &&& st.len() >= entry_rest_start(st) + 2
    &&& has_at(st, st.len() - 2, ");"@)
    &&& (mid_len == 0 || st[entry_rest_start(st)] == ',')
}

/// The model of the entry point that statement `st` declares.
pub open spec fn entry_spec(st: Seq<char>) -> Result<EntryPointSpec, ParseError> {
    if !entry_shape_ok(st) {
        Err(ParseError::MalformedEntryPoint)
    } else {
        match params_spec(entry_param_texts(st)) {
            Err(e) => Err(e),
            Ok(ps) => Ok(EntryPointSpec {
                name: st.subrange(entry_name_start(st), entry_name_end(st)),
                params: seq![context_param()] + ps,
            }),
        }
    }
}

pub open spec fn params_view(v: Seq<ParamDescriptor>) -> Seq<ParamSpec> {
    v.map_values(|p: ParamDescriptor| p@)
}

/// Splits `s[k..]` at its commas.
fn split_commas(s: &Vec<char>, k: usize) -> (r: Vec<Vec<char>>)
    requires
        k <= s@.len(),
    ensures
        r@.map_values(|v: Vec<char>| v@) == split_from(s@, k as int),
{
    let mut out: Vec<Vec<char>> = Vec::new();
    let mut i: usize = k;
    loop
        invariant
            k <= i <= s@.len(),
            out@.map_values(|v: Vec<char>| v@) + split_from(s@, i as int) == split_from(s@, k as int),
        decreases s@.len() - i,
    {
        let ghost before = out@.map_values(|v: Vec<char>| v@);
        let c = find(s, i, ',');
        if c >= s.len() {
            let piece = slice_chars(s, i, s.len());
            out.push(piece);
            assert(out@.map_values(|v: Vec<char>| v@) == before + split_from(s@, i as int));
            return out;
        }
        let piece = slice_chars(s, i, c);
        out.push(piece);
        assert(out@.map_values(|v: Vec<char>| v@) == before.push(piece@));
        assert(split_from(s@, i as int) == seq![piece@] + split_from(s@, c + 1));
        assert(before.push(piece@) + split_from(s@, c + 1) == before + (seq![piece@] + split_from(s@, c + 1)));
        i = c + 1;
    }
}

/// Parses one entry point statement into its name and classified parameters.
pub fn parse_entry_point(stmt: &String) -> (r: Result<EntryPointDescriptor, ParseError>)
    ensures
        match (r, entry_spec(stmt@)) {
            (Ok(d), Ok(s)) => d@ == s,
            (Err(e), Err(f)) => e == f,
            _ => false,
        },
{
    let st = to_chars(stmt.as_str());
    let n = st.len();
    if !occurs_at(&st, 0, "int") {
        return Err(ParseError::MalformedEntryPoint);
    }
    let kw = to_chars("int");
    let k = run_end(&st, kw.len(), CharClass::Blank);
    if k <= kw.len() || !occurs_at(&st, k, "futhark_entry_") {
        return Err(ParseError::MalformedEntryPoint);
    }
    let ns = k + to_chars("futhark_entry_").len();
    let ne = run_end(&st, ns, CharClass::Ident);
    let ctx_text = "(struct futhark_context *ctx";
    if ne <= ns || !occurs_at(&st, ne, ctx_text) {
        return Err(ParseError::MalformedEntryPoint);
    }
    let rs = ne + to_chars(ctx_text).len();
    if n < 2 || n - 2 < rs || !occurs_at(&st, n - 2, ");") {
        return Err(ParseError::MalformedEntryPoint);
    }
    let mid = slice_chars(&st, rs, n - 2);
    if mid.len() > 0 && mid[0] != ',' {
        return Err(ParseError::MalformedEntryPoint);
    }
    let segs: Vec<Vec<char>> = if mid.len() == 0 {
        Vec::new()
    } else {
        split_commas(&mid, 1)
    };
    let ghost seg_texts = segs@.map_values(|v: Vec<char>| v@);
    assert(seg_texts == entry_param_texts(st@));
    assert(entry_shape_ok(st@));
    let mut params: Vec<ParamDescriptor> = Vec::new();
    params.push(ParamDescriptor { direction: Direction::In, kind: ParamKind::Context, name: String::from_str("ctx") });
    let mut i: usize = 0;
    assert(seg_texts.take(0) == Seq::<Seq<char>>::empty());
    assert(params_view(params@).drop_first() == Seq::<ParamSpec>::empty());
    while i < segs.len()
        invariant
            i <= segs@.len(),
            seg_texts == segs@.map_values(|v: Vec<char>| v@),
            seg_texts == entry_param_texts(st@),
            entry_shape_ok(st@),
            st@ == stmt@,
            params@.len() >= 1,
            params@[0]@ == context_param(),
            params_spec(seg_texts.take(i as int)) == Ok::<Seq<ParamSpec>, ParseError>(params_view(params@).drop_first()),
        decreases segs@.len() - i,
    {
        assert(seg_texts.take(i + 1).drop_last() == seg_texts.take(i as int));
        assert(seg_texts.take(i + 1).last() == segs@[i as int]@);
        match parse_param(&segs[i]) {
            Err(e) => {
                proof {
                    assert(param_spec(seg_texts.take(i + 1).last()) == Err::<ParamSpec, ParseError>(e));
                    assert(params_spec(seg_texts.take(i + 1)) == Err::<Seq<ParamSpec>, ParseError>(e));
                    lemma_params_error_persists(seg_texts, i + 1);
                }
                return Err(e);
            },
            Ok(p) => {
                let ghost pv = params_view(params@);
                params.push(p);
                assert(params_view(params@) == pv.push(p@));
                assert(pv.push(p@).drop_first() == pv.drop_first().push(p@));
            },
        }
        i += 1;
    }
    assert(seg_texts.take(i as int) == seg_texts);
    assert(params_view(params@) == seq![context_param()] + params_view(params@).drop_first());
    Ok(EntryPointDescriptor { name: slice_string(&st, ns, ne), params })
}

/// The models of the array types `names`, or the first error among them.
pub open spec fn arrays_spec(names: Seq<Seq<char>>) -> Result<Seq<ArrayTypeSpec>, ParseError>
    decreases names.len(),
{
    if names.len() == 0 {
        Ok(Seq::empty())
    } else {
        match arrays_spec(names.drop_last()) {
            Err(e) => Err(e),
            Ok(ats) => match array_type_spec(names.last()) {
                Err(e) => Err(e),
                Ok(a) => Ok(ats.push(a)),
            },
        }
    }
}

/// The models of the entry point statements `stmts`, or the first error among them.
pub open spec fn entries_spec(stmts: Seq<Seq<char>>) -> Result<Seq<EntryPointSpec>, ParseError>
    decreases stmts.len(),
{
    if stmts.len() == 0 {
        Ok(Seq::empty())
    } else {
        match entries_spec(stmts.drop_last()) {
            Err(e) => Err(e),
            Ok(eps) => match entry_spec(stmts.last()) {
                Err(e) => Err(e),
                Ok(ep) => Ok(eps.push(ep)),
            },
        }
    }
}

/// The model of a header's declarations: array types first, then entry points.
pub open spec fn model_spec(arrays: Seq<Seq<char>>, entries: Seq<Seq<char>>) -> Result<ApiModelSpec, ParseError> {
    match arrays_spec(arrays) {
        Err(e) => Err(e),
        Ok(ats) => match entries_spec(entries) {
            Err(e) => Err(e),
            Ok(eps) => Ok(ApiModelSpec { array_types: ats, entry_points: eps }),
        },
    }
}

proof fn lemma_arrays_error_persists(names: Seq<Seq<char>>, j: int)
    requires
        0 <= j <= names.len(),
        arrays_spec(names.take(j)) is Err,
    ensures
        arrays_spec(names) == arrays_spec(names.take(j)),
    decreases names.len(),
{
    if j == names.len() {
        assert(names.take(j) == names);
    } else {
        assert(names.drop_last().take(j) == names.take(j));
        lemma_arrays_error_persists(names.drop_last(), j);
    }
}

proof fn lemma_entries_error_persists(stmts: Seq<Seq<char>>, j: int)
    requires
        0 <= j <= stmts.len(),
        entries_spec(stmts.take(j)) is Err,
    ensures
        entries_spec(stmts) == entries_spec(stmts.take(j)),
    decreases stmts.len(),
{
    if j == stmts.len() {
        assert(stmts.take(j) == stmts);
    } else {
        assert(stmts.drop_last().take(j) == stmts.take(j));
        lemma_entries_error_persists(stmts.drop_last(), j);
    }
}

pub open spec fn arrays_view(v: Seq<ArrayTypeDescriptor>) -> Seq<ArrayTypeSpec> {
    v.map_values(|a: ArrayTypeDescriptor| a@)
}

pub open spec fn entries_view(v: Seq<EntryPointDescriptor>) -> Seq<EntryPointSpec> {
    v.map_values(|e: EntryPointDescriptor| e@)
}

/// Builds the model of one backend from the raw declarations of its header.
pub fn build_model(array_names: &Vec<String>, entry_stmts: &Vec<String>) -> (r: Result<ApiModel, ParseError>)
    ensures
        match (r, model_spec(strings_view(array_names@), strings_view(entry_stmts@))) {
            (Ok(m), Ok(s)) => m@ == s,
            (Err(e), Err(f)) => e == f,
            _ => false,
        },
{
    let ghost names = strings_view(array_names@);
    let ghost stmts = strings_view(entry_stmts@);
    let mut arrays: Vec<ArrayTypeDescriptor> = Vec::new();
    let mut i: usize = 0;
    assert(names.take(0) == Seq::<Seq<char>>::empty());
    assert(arrays_view(arrays@) == Seq::<ArrayTypeSpec>::empty());
    while i < array_names.len()
        invariant
            i <= array_names@.len(),
            names == strings_view(array_names@),
            arrays_spec(names.take(i as int)) == Ok::<Seq<ArrayTypeSpec>, ParseError>(arrays_view(arrays@)),
        decreases array_names@.len() - i,
    {
        assert(names.take(i + 1).drop_last() == names.take(i as int));
        assert(names.take(i + 1).last() == array_names@[i as int]@);
        match parse_array_type(&array_names[i]) {
            Err(e) => {
                proof {
                    assert(arrays_spec(names.take(i + 1)) == Err::<Seq<ArrayTypeSpec>, ParseError>(e));
                    lemma_arrays_error_persists(names, i + 1);
                }
                return Err(e);
            },
            Ok(a) => {
                let ghost av = arrays_view(arrays@);
                arrays.push(a);
                assert(arrays_view(arrays@) == av.push(a@));
            },
        }
        i += 1;
    }
    assert(names.take(i as int) == names);
    let mut entries: Vec<EntryPointDescriptor> = Vec::new();
    let mut j: usize = 0;
    assert(stmts.take(0) == Seq::<Seq<char>>::empty());
    assert(entries_view(entries@) == Seq::<EntryPointSpec>::empty());
    while j < entry_stmts.len()
        invariant
            j <= entry_stmts@.len(),
            stmts == strings_view(entry_stmts@),
            names == strings_view(array_names@),
            arrays_spec(names) == Ok::<Seq<ArrayTypeSpec>, ParseError>(arrays_view(arrays@)),
            entries_spec(stmts.take(j as int)) == Ok::<Seq<EntryPointSpec>, ParseError>(entries_view(entries@)),
        decreases entry_stmts@.len() - j,
    {
        assert(stmts.take(j + 1).drop_last() == stmts.take(j as int));
        assert(stmts.take(j + 1).last() == entry_stmts@[j as int]@);
        match parse_entry_point(&entry_stmts[j]) {
            Err(e) => {
                proof {
                    assert(entries_spec(stmts.take(j + 1)) == Err::<Seq<EntryPointSpec>, ParseError>(e));
                    lemma_entries_error_persists(stmts, j + 1);
                }
                return Err(e);
            },
            Ok(ep) => {
                let ghost ev = entries_view(entries@);
                entries.push(ep);
                assert(entries_view(entries@) == ev.push(ep@));
            },
        }
        j += 1;
    }
    assert(stmts.take(j as int) == stmts);
    Ok(ApiModel { array_types: arrays, entry_points: entries })
}

proof fn lemma_params_spec_shape(segs: Seq<Seq<char>>)
    ensures
        params_spec(segs) matches Ok(ps) ==> ps.len() == segs.len() && forall|i: int|
            0 <= i < ps.len() ==> !(#[trigger] ps[i].kind is Context),
    decreases segs.len(),
{
    if segs.len() > 0 {
        lemma_params_spec_shape(segs.drop_last());
    }
}

/// A prototype with K parameters after the context gives an entry point with
/// K + 1 parameters: the context first, then K parameters, none of them a context.
pub proof fn lemma_entry_param_count(st: Seq<char>)
    ensures
        entry_spec(st) matches Ok(ep) ==> {
            &&& ep.params.len() == entry_param_texts(st).len() + 1
            &&& ep.params[0] == context_param()
            &&& forall|i: int| 1 <= i < ep.params.len() ==> !(#[trigger] ep.params[i].kind is Context)
        },
{
    lemma_params_spec_shape(entry_param_texts(st));
    if let Ok(ep) = entry_spec(st) {
        if let Ok(ps) = params_spec(entry_param_texts(st)) {
            assert forall|i: int| 1 <= i < ep.params.len() implies !(#[trigger] ep.params[i].kind is Context) by {
                assert(ep.params[i] == ps[i - 1]);
            }
        }
    }
}

proof fn lemma_arrays_spec_names(names: Seq<Seq<char>>)
    ensures
        arrays_spec(names) matches Ok(ats) ==> ats.len() == names.len() && forall|i: int|
            0 <= i < ats.len() ==> #[trigger] array_type_spec(names[i]) == Ok::<ArrayTypeSpec, ParseError>(ats[i]),
    decreases names.len(),
{
    if names.len() > 0 {
        lemma_arrays_spec_names(names.drop_last());
        if let Ok(ats) = arrays_spec(names) {
            let prev = names.drop_last();
            assert forall|i: int| 0 <= i < ats.len() implies #[trigger] array_type_spec(names[i]) == Ok::<ArrayTypeSpec, ParseError>(ats[i]) by {
                if i < ats.len() - 1 {
                    assert(names[i] == prev[i]);
                }
            }
        }
    }
}

/// A built model holds one array type per declared name, in the order of the
/// names, each with that name and the rank its digits give.
pub proof fn lemma_array_types_preserved(names: Seq<Seq<char>>, entries: Seq<Seq<char>>)
    ensures
        model_spec(names, entries) matches Ok(m) ==> {
            &&& m.array_types.len() == names.len()
            &&& forall|i: int| 0 <= i < names.len() ==> {
                &&& (#[trigger] m.array_types[i]).name == names[i]
                &&& m.array_types[i].rank == digits_value(names[i].subrange(rank_start(names[i]), names[i].len() - 1))
            }
        },
{
    lemma_arrays_spec_names(names);
    if let Ok(m) = model_spec(names, entries) {
        assert forall|i: int| 0 <= i < names.len() implies {
            &&& (#[trigger] m.array_types[i]).name == names[i]
            &&& m.array_types[i].rank == digits_value(names[i].subrange(rank_start(names[i]), names[i].len() - 1))
        } by {
            assert(array_type_spec(names[i]) == Ok::<ArrayTypeSpec, ParseError>(m.array_types[i]));
        }
    }
}

} // verus!
