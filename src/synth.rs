use vstd::prelude::*;
use crate::builder::{arrays_view, entries_view, params_view};
use crate::model::{
    ApiModel, ApiModelSpec, ArrayTypeDescriptor, ArrayTypeSpec, Direction, ElementType,
    EntryPointDescriptor, EntryPointSpec, ParamDescriptor, ParamKind, ParamSpec,
};
use crate::text::{decimal, push_decimal};

verus! {

/// The token that names the element type inside array type names.
pub open spec fn elem_token_spec(e: ElementType) -> Seq<char> {
    match e {
        ElementType::I8 => "i8"@,
        ElementType::I16 => "i16"@,
        ElementType::I32 => "i32"@,
        ElementType::I64 => "i64"@,
        ElementType::U8 => "u8"@,
        ElementType::U16 => "u16"@,
        ElementType::U32 => "u32"@,
        ElementType::U64 => "u64"@,
        ElementType::F16 => "f16"@,
        ElementType::F32 => "f32"@,
        ElementType::F64 => "f64"@,
        ElementType::Bool => "bool"@,
    }
}

pub fn elem_token(e: ElementType) -> (r: &'static str)
    ensures
        r@ == elem_token_spec(e),
{
    match e {
        ElementType::I8 => "i8",
        ElementType::I16 => "i16",
        ElementType::I32 => "i32",
        ElementType::I64 => "i64",
        ElementType::U8 => "u8",
        ElementType::U16 => "u16",
        ElementType::U32 => "u32",
        ElementType::U64 => "u64",
        ElementType::F16 => "f16",
        ElementType::F32 => "f32",
        ElementType::F64 => "f64",
        ElementType::Bool => "bool",
    }
}

/// The host type that holds one element, of the same width.
pub open spec fn rust_elem_spec(e: ElementType) -> Seq<char> {
    match e {
        ElementType::I8 => "i8"@,
        ElementType::I16 => "i16"@,
        ElementType::I32 => "i32"@,
        ElementType::I64 => "i64"@,
        ElementType::U8 => "u8"@,
        ElementType::U16 => "u16"@,
        ElementType::U32 => "u32"@,
        ElementType::U64 => "u64"@,
        ElementType::F16 => "half::f16"@,
        ElementType::F32 => "f32"@,
        ElementType::F64 => "f64"@,
        ElementType::Bool => "bool"@,
    }
}

pub fn rust_elem(e: ElementType) -> (r: &'static str)
    ensures
        r@ == rust_elem_spec(e),
{
    match e {
        ElementType::I8 => "i8",
        ElementType::I16 => "i16",
        ElementType::I32 => "i32",
        ElementType::I64 => "i64",
        ElementType::U8 => "u8",
        ElementType::U16 => "u16",
        ElementType::U32 => "u32",
        ElementType::U64 => "u64",
        ElementType::F16 => "half::f16",
        ElementType::F32 => "f32",
        ElementType::F64 => "f64",
        ElementType::Bool => "bool",
    }
}

/// `<element>_<rank>d`, the part of an array type name after `futhark_`.
pub open spec fn suffix(e: ElementType, r: nat) -> Seq<char> {
    elem_token_spec(e) + "_"@ + decimal(r) + "d"@
}

fn push_suffix(s: &mut String, e: ElementType, r: usize)
    ensures
        final(s)@ == old(s)@ + suffix(e, r as nat),
{
    let ghost s0 = s@;
    s.append(elem_token(e));
    s.append("_");
    push_decimal(s, r);
    s.append("d");
    assert(s@ =~= s0 + suffix(e, r as nat));
}

/// `, shape[0], ..., shape[r - 1]`: the dimensions handed to a constructor.
pub open spec fn shape_args(r: nat) -> Seq<char>
    decreases r,
{
    if r == 0 {
        Seq::empty()
    } else {
        shape_args((r - 1) as nat) + ", shape["@ + decimal((r - 1) as nat) + "]"@
    }
}

fn push_shape_args(s: &mut String, r: usize)
    ensures
        final(s)@ == old(s)@ + shape_args(r as nat),
{
    let ghost s0 = s@;
    let mut i: usize = 0;
    while i < r
        invariant
            i <= r,
            s@ == s0 + shape_args(i as nat),
        decreases r - i,
    {
        let ghost s1 = s@;
        s.append(", shape[");
        push_decimal(s, i);
        s.append("]");
        assert(s@ =~= s0 + shape_args((i + 1) as nat));
        i += 1;
    }
    assert(shape_args(0) =~= Seq::<char>::empty());
}

/// The declaration of the owning wrapper of an array type.
pub open spec fn array_struct_text(e: ElementType, r: nat) -> Seq<char> {
    "\npub struct Array_"@
        + suffix(e, r)
        + " {\n    ptr: *mut bindings::futhark_"@
        + suffix(e, r)
        + ",\n    ctx: *mut bindings::futhark_context,\n}\n"@
}

fn emit_array_struct_text(s: &mut String, e: ElementType, r: usize)
    ensures
        final(s)@ == old(s)@ + array_struct_text(e, r as nat),
{
    let ghost s0 = s@;
    s.append("\npub struct Array_");
    push_suffix(s, e, r);
    s.append(" {\n    ptr: *mut bindings::futhark_");
    push_suffix(s, e, r);
    s.append(",\n    ctx: *mut bindings::futhark_context,\n}\n");
    assert(s@ =~= s0 + array_struct_text(e, r as nat));
}

/// Construction of an array from a host buffer and a shape.
pub open spec fn array_new_text(e: ElementType, r: nat) -> Seq<char> {
    "\nimpl Array_"@
        + suffix(e, r)
        + " {\n    /// Copies `data`, laid out row-major in the given shape, into a new array.\n    pub fn from_slice(ctx: &mut FutharkContext, data: &["@
        + rust_elem_spec(e)
        + "], shape: &[i64; "@
        + decimal(r)
        + "]) -> Result<Self, Error> {\n        check_shape(data.len(), shape)?;\n        let ctx = ctx.ptr();\n        let ptr = unsafe { bindings::futhark_new_"@
        + suffix(e, r)
        + "(ctx, data.as_ptr()"@
        + shape_args(r)
        + ") };\n        if ptr.is_null() {\n            return Err(Error::from_context(ctx));\n        }\n        Ok(Self { ptr, ctx })\n    }\n"@
}

fn emit_array_new_text(s: &mut String, e: ElementType, r: usize)
    ensures
        final(s)@ == old(s)@ + array_new_text(e, r as nat),
{
    let ghost s0 = s@;
    s.append("\nimpl Array_");
    push_suffix(s, e, r);
    s.append(" {\n    /// Copies `data`, laid out row-major in the given shape, into a new array.\n    pub fn from_slice(ctx: &mut FutharkContext, data: &[");
    s.append(rust_elem(e));
    s.append("], shape: &[i64; ");
    push_decimal(s, r);
    s.append("]) -> Result<Self, Error> {\n        check_shape(data.len(), shape)?;\n        let ctx = ctx.ptr();\n        let ptr = unsafe { bindings::futhark_new_");
    push_suffix(s, e, r);
    s.append("(ctx, data.as_ptr()");
    push_shape_args(s, r);
    s.append(") };\n        if ptr.is_null() {\n            return Err(Error::from_context(ctx));\n        }\n        Ok(Self { ptr, ctx })\n    }\n");
    assert(s@ =~= s0 + array_new_text(e, r as nat));
}

/// The shape query of an array.
pub open spec fn array_shape_text(e: ElementType, r: nat) -> Seq<char> {
    "\n    /// The size of each dimension.\n    pub fn shape(&self) -> [i64; "@
        + decimal(r)
        + "] {\n        let dims = unsafe { bindings::futhark_shape_"@
        + suffix(e, r)
        + "(self.ctx, self.ptr) };\n        let mut out = [0i64; "@
        + decimal(r)
        + "];\n        for (i, d) in out.iter_mut().enumerate() {\n            *d = unsafe { *dims.add(i) };\n        }\n        out\n    }\n"@
}

fn emit_array_shape_text(s: &mut String, e: ElementType, r: usize)
    ensures
        final(s)@ == old(s)@ + array_shape_text(e, r as nat),
{
    let ghost s0 = s@;
    s.append("\n    /// The size of each dimension.\n    pub fn shape(&self) -> [i64; ");
    push_decimal(s, r);
    s.append("] {\n        let dims = unsafe { bindings::futhark_shape_");
    push_suffix(s, e, r);
    s.append("(self.ctx, self.ptr) };\n        let mut out = [0i64; ");
    push_decimal(s, r);
    s.append("];\n        for (i, d) in out.iter_mut().enumerate() {\n            *d = unsafe { *dims.add(i) };\n        }\n        out\n    }\n");
    assert(s@ =~= s0 + array_shape_text(e, r as nat));
}

/// The copy-out of an array's contents.
pub open spec fn array_values_text(e: ElementType, r: nat) -> Seq<char> {
    "\n    /// Copies the contents out, row-major.\n    pub fn to_vec(&self) -> Result<Vec<"@
        + rust_elem_spec(e)
        + ">, Error> {\n        let len = self.shape().iter().product::<i64>() as usize;\n        let mut out = Vec::with_capacity(len);\n        let status = unsafe { bindings::futhark_values_"@
        + suffix(e, r)
        + "(self.ctx, self.ptr, out.as_mut_ptr()) };\n        if status != 0 || unsafe { bindings::futhark_context_sync(self.ctx) } != 0 {\n            return Err(Error::from_context(self.ctx));\n        }\n        unsafe { out.set_len(len) };\n        Ok(out)\n    }\n"@
}

fn emit_array_values_text(s: &mut String, e: ElementType, r: usize)
    ensures
        final(s)@ == old(s)@ + array_values_text(e, r as nat),
{
    let ghost s0 = s@;
    s.append("\n    /// Copies the contents out, row-major.\n    pub fn to_vec(&self) -> Result<Vec<");
    s.append(rust_elem(e));
    s.append(">, Error> {\n        let len = self.shape().iter().product::<i64>() as usize;\n        let mut out = Vec::with_capacity(len);\n        let status = unsafe { bindings::futhark_values_");
    push_suffix(s, e, r);
    s.append("(self.ctx, self.ptr, out.as_mut_ptr()) };\n        if status != 0 || unsafe { bindings::futhark_context_sync(self.ctx) } != 0 {\n            return Err(Error::from_context(self.ctx));\n        }\n        unsafe { out.set_len(len) };\n        Ok(out)\n    }\n");
    assert(s@ =~= s0 + array_values_text(e, r as nat));
}

/// Access to the raw handle, and adoption of a handle that an entry point returned.
pub open spec fn array_raw_text(e: ElementType, r: nat) -> Seq<char> {
    "\n    pub(crate) fn as_raw(&self) -> *mut bindings::futhark_"@
        + suffix(e, r)
        + " {\n        self.ptr\n    }\n\n    pub(crate) fn from_raw(ctx: *mut bindings::futhark_context, ptr: *mut bindings::futhark_"@
        + suffix(e, r)
        + ") -> Self {\n        Self { ptr, ctx }\n    }\n}\n"@
}

fn emit_array_raw_text(s: &mut String, e: ElementType, r: usize)
    ensures
        final(s)@ == old(s)@ + array_raw_text(e, r as nat),
{
    let ghost s0 = s@;
    s.append("\n    pub(crate) fn as_raw(&self) -> *mut bindings::futhark_");
    push_suffix(s, e, r);
    s.append(" {\n        self.ptr\n    }\n\n    pub(crate) fn from_raw(ctx: *mut bindings::futhark_context, ptr: *mut bindings::futhark_");
    push_suffix(s, e, r);
    s.append(") -> Self {\n        Self { ptr, ctx }\n    }\n}\n");
    assert(s@ =~= s0 + array_raw_text(e, r as nat));
}

/// The release of an array's backend resource, run once when its owner drops it.
pub open spec fn array_drop_text(e: ElementType, r: nat) -> Seq<char> {
    "\nimpl Drop for Array_"@
        + suffix(e, r)
        + " {\n    fn drop(&mut self) {\n        unsafe {\n            bindings::futhark_free_"@
        + suffix(e, r)
        + "(self.ctx, self.ptr);\n        }\n    }\n}\n"@
}

fn emit_array_drop_text(s: &mut String, e: ElementType, r: usize)
    ensures
        final(s)@ == old(s)@ + array_drop_text(e, r as nat),
{
    let ghost s0 = s@;
    s.append("\nimpl Drop for Array_");
    push_suffix(s, e, r);
    s.append(" {\n    fn drop(&mut self) {\n        unsafe {\n            bindings::futhark_free_");
    push_suffix(s, e, r);
    s.append("(self.ctx, self.ptr);\n        }\n    }\n}\n");
    assert(s@ =~= s0 + array_drop_text(e, r as nat));
}

/// The start of the signature of an entry point wrapper.
pub open spec fn entry_head_text(name: Seq<char>) -> Seq<char> {
    "\n/// Calls the entry point `"@
        + name
        + "`.\npub fn "@
        + name
        + "(ctx: &mut FutharkContext"@
}

fn emit_entry_head_text(s: &mut String, name: &String)
    ensures
        final(s)@ == old(s)@ + entry_head_text(name@),
{
    let ghost s0 = s@;
    s.append("\n/// Calls the entry point `");
    s.append(name.as_str());
    s.append("`.\npub fn ");
    s.append(name.as_str());
    s.append("(ctx: &mut FutharkContext");
    assert(s@ =~= s0 + entry_head_text(name@));
}

/// The start of the raw call of an entry point.
pub open spec fn entry_body_head_text(name: Seq<char>) -> Seq<char> {
    "    let status = unsafe { bindings::futhark_entry_"@
        + name
        + "(raw_ctx"@
}

fn emit_entry_body_head_text(s: &mut String, name: &String)
    ensures
        final(s)@ == old(s)@ + entry_body_head_text(name@),
{
    let ghost s0 = s@;
    s.append("    let status = unsafe { bindings::futhark_entry_");
    s.append(name.as_str());
    s.append("(raw_ctx");
    assert(s@ =~= s0 + entry_body_head_text(name@));
}

/// The whole wrapper of one array type.
pub open spec fn array_impl_text(a: ArrayTypeSpec) -> Seq<char> {
    array_struct_text(a.element, a.rank) + array_new_text(a.element, a.rank) + array_shape_text(
        a.element,
        a.rank,
    ) + array_values_text(a.element, a.rank) + array_raw_text(a.element, a.rank)
        + array_drop_text(a.element, a.rank)
}

fn emit_array_impl(s: &mut String, a: &ArrayTypeDescriptor)
    ensures
        final(s)@ == old(s)@ + array_impl_text(a@),
{
    let ghost s0 = s@;
    emit_array_struct_text(s, a.element, a.rank);
    emit_array_new_text(s, a.element, a.rank);
    emit_array_shape_text(s, a.element, a.rank);
    emit_array_values_text(s, a.element, a.rank);
    emit_array_raw_text(s, a.element, a.rank);
    emit_array_drop_text(s, a.element, a.rank);
    assert(s@ =~= s0 + array_impl_text(a@));
}

/// The wrappers of the array types `ats`, in order.
pub open spec fn arrays_text(ats: Seq<ArrayTypeSpec>) -> Seq<char>
    decreases ats.len(),
{
    if ats.len() == 0 {
        Seq::empty()
    } else {
        arrays_text(ats.drop_last()) + array_impl_text(ats.last())
    }
}

/// The host type of a parameter's value.
pub open spec fn param_type_text(k: ParamKind) -> Seq<char> {
    match k {
        ParamKind::Scalar(e) => rust_elem_spec(e),
        ParamKind::Array(e, r) => "Array_"@ + suffix(e, r as nat),
        ParamKind::Context => "FutharkContext"@,
    }
}

fn emit_param_type(s: &mut String, k: ParamKind)
    ensures
        final(s)@ == old(s)@ + param_type_text(k),
{
    match k {
        ParamKind::Scalar(e) => {
            s.append(rust_elem(e));
        },
        ParamKind::Array(e, r) => {
            let ghost s0 = s@;
            s.append("Array_");
            push_suffix(s, e, r);
            assert(s@ =~= s0 + param_type_text(k));
        },
        ParamKind::Context => {
            s.append("FutharkContext");
        },
    }
}

/// The wrapper's own parameter for an in-parameter: a scalar, or a reference to an owned array.
pub open spec fn in_param_text(p: ParamSpec) -> Seq<char> {
    match (p.direction, p.kind) {
        (Direction::In, ParamKind::Scalar(_)) => ", "@ + p.name + ": "@ + param_type_text(p.kind),
        (Direction::In, ParamKind::Array(_, _)) => ", "@ + p.name + ": &"@ + param_type_text(p.kind),
        _ => Seq::empty(),
    }
}

/// The storage the wrapper allocates for an out-parameter.
pub open spec fn out_decl_text(p: ParamSpec) -> Seq<char> {
    match (p.direction, p.kind) {
        (Direction::Out, ParamKind::Scalar(e)) => "    let mut "@ + p.name
            + " = std::mem::MaybeUninit::<"@ + rust_elem_spec(e) + ">::uninit();\n"@,
        (Direction::Out, ParamKind::Array(e, r)) => "    let mut "@ + p.name
            + ": *mut bindings::futhark_"@ + suffix(e, r as nat) + " = std::ptr::null_mut();\n"@,
        _ => Seq::empty(),
    }
}

/// What the raw call receives for a parameter after the context.
pub open spec fn call_arg_text(p: ParamSpec) -> Seq<char> {
    match (p.direction, p.kind) {
        (_, ParamKind::Context) => Seq::empty(),
        (Direction::In, ParamKind::Scalar(_)) => ", "@ + p.name,
        (Direction::In, ParamKind::Array(_, _)) => ", "@ + p.name + ".as_raw()"@,
        (Direction::Out, ParamKind::Scalar(_)) => ", "@ + p.name + ".as_mut_ptr()"@,
        (Direction::Out, ParamKind::Array(_, _)) => ", &mut "@ + p.name,
    }
}

/// The typed value of an out-parameter after a successful call.
pub open spec fn out_value_text(p: ParamSpec) -> Seq<char> {
    match p.kind {
        ParamKind::Array(e, r) => "Array_"@ + suffix(e, r as nat) + "::from_raw(raw_ctx, "@ + p.name + ")"@,
        _ => "unsafe { "@ + p.name + ".assume_init() }"@,
    }
}

pub open spec fn is_out(p: ParamSpec) -> bool {
    p.direction == Direction::Out && !(p.kind is Context)
}

fn emit_in_param(s: &mut String, p: &ParamDescriptor)
    ensures
        final(s)@ == old(s)@ + in_param_text(p@),
{
    let ghost s0 = s@;
    match (p.direction, p.kind) {
        (Direction::In, ParamKind::Scalar(_)) => {
            s.append(", ");
            s.append(p.name.as_str());
            s.append(": ");
            emit_param_type(s, p.kind);
        },
        (Direction::In, ParamKind::Array(_, _)) => {
            s.append(", ");
            s.append(p.name.as_str());
            s.append(": &");
            emit_param_type(s, p.kind);
        },
        _ => {},
    }
    assert(s@ =~= s0 + in_param_text(p@));
}

fn emit_out_decl(s: &mut String, p: &ParamDescriptor)
    ensures
        final(s)@ == old(s)@ + out_decl_text(p@),
{
    let ghost s0 = s@;
    match (p.direction, p.kind) {
        (Direction::Out, ParamKind::Scalar(e)) => {
            s.append("    let mut ");
            s.append(p.name.as_str());
            s.append(" = std::mem::MaybeUninit::<");
            s.append(rust_elem(e));
            s.append(">::uninit();\n");
        },
        (Direction::Out, ParamKind::Array(e, r)) => {
            s.append("    let mut ");
            s.append(p.name.as_str());
            s.append(": *mut bindings::futhark_");
            push_suffix(s, e, r);
            s.append(" = std::ptr::null_mut();\n");
        },
        _ => {},
    }
    assert(s@ =~= s0 + out_decl_text(p@));
}

fn emit_call_arg(s: &mut String, p: &ParamDescriptor)
    ensures
        final(s)@ == old(s)@ + call_arg_text(p@),
{
    let ghost s0 = s@;
    match (p.direction, p.kind) {
        (_, ParamKind::Context) => {},
        (Direction::In, ParamKind::Scalar(_)) => {
            s.append(", ");
            s.append(p.name.as_str());
        },
        (Direction::In, ParamKind::Array(_, _)) => {
            s.append(", ");
            s.append(p.name.as_str());
            s.append(".as_raw()");
        },
        (Direction::Out, ParamKind::Scalar(_)) => {
            s.append(", ");
            s.append(p.name.as_str());
            s.append(".as_mut_ptr()");
        },
        (Direction::Out, ParamKind::Array(_, _)) => {
            s.append(", &mut ");
            s.append(p.name.as_str());
        },
    }
    assert(s@ =~= s0 + call_arg_text(p@));
}

fn emit_out_value(s: &mut String, p: &ParamDescriptor)
    ensures
        final(s)@ == old(s)@ + out_value_text(p@),
{
    let ghost s0 = s@;
    match p.kind {
        ParamKind::Array(e, r) => {
            s.append("Array_");
            push_suffix(s, e, r);
            s.append("::from_raw(raw_ctx, ");
            s.append(p.name.as_str());
            s.append(")");
        },
        _ => {
            s.append("unsafe { ");
            s.append(p.name.as_str());
            s.append(".assume_init() }");
        },
    }
    assert(s@ =~= s0 + out_value_text(p@));
}

/// The pieces `f(p)` for each `p` of `ps`, in order.
pub open spec fn concat_map(ps: Seq<ParamSpec>, f: spec_fn(ParamSpec) -> Seq<char>) -> Seq<char>
    decreases ps.len(),
{
    if ps.len() == 0 {
        Seq::empty()
    } else {
        concat_map(ps.drop_last(), f) + f(ps.last())
    }
}

/// The number of out-parameters among `ps`.
pub open spec fn out_count(ps: Seq<ParamSpec>) -> nat
    decreases ps.len(),
{
    if ps.len() == 0 {
        0
    } else {
        out_count(ps.drop_last()) + if is_out(ps.last()) { 1nat } else { 0nat }
    }
}

/// The pieces `f(p)` of the out-parameters `p` of `ps`, separated by `, `.
pub open spec fn out_list(ps: Seq<ParamSpec>, f: spec_fn(ParamSpec) -> Seq<char>) -> Seq<char>
    decreases ps.len(),
{
    if ps.len() == 0 {
        Seq::empty()
    } else if !is_out(ps.last()) {
        out_list(ps.drop_last(), f)
    } else if out_count(ps.drop_last()) == 0 {
        f(ps.last())
    } else {
        out_list(ps.drop_last(), f) + ", "@ + f(ps.last())
    }
}

proof fn lemma_out_list_empty(ps: Seq<ParamSpec>, f: spec_fn(ParamSpec) -> Seq<char>)
    requires
        out_count(ps) == 0,
    ensures
        out_list(ps, f) == Seq::<char>::empty(),
    decreases ps.len(),
{
    if ps.len() > 0 {
        lemma_out_list_empty(ps.drop_last(), f);
    }
}

pub open spec fn out_type_text(p: ParamSpec) -> Seq<char> {
    param_type_text(p.kind)
}

/// `()`, the one out type, or a tuple of the out types.
pub open spec fn wrap_outs(k: nat, items: Seq<char>, empty: Seq<char>) -> Seq<char> {
    if k == 0 {
        empty
    } else if k == 1 {
        items
    } else {
        "("@ + items + ")"@
    }
}

pub open spec fn return_type_text(ps: Seq<ParamSpec>) -> Seq<char> {
    wrap_outs(out_count(ps), out_list(ps, |p: ParamSpec| out_type_text(p)), "()"@)
}

pub open spec fn return_value_text(ps: Seq<ParamSpec>) -> Seq<char> {
    wrap_outs(out_count(ps), out_list(ps, |p: ParamSpec| out_value_text(p)), "()"@)
}

/// The wrapper of one entry point: it takes the in-parameters, allocates the
/// out-parameters, calls the raw entry point, and returns the out values only
/// where the status is zero.
pub open spec fn entry_text(ep: EntryPointSpec) -> Seq<char> {
    entry_head_text(ep.name) + concat_map(ep.params, |p: ParamSpec| in_param_text(p))
        + ") -> Result<"@ + return_type_text(ep.params)
        + ", Error> {\n    let raw_ctx = ctx.ptr();\n"@ + concat_map(ep.params, |p: ParamSpec| out_decl_text(p))
        + entry_body_head_text(ep.name) + concat_map(ep.params, |p: ParamSpec| call_arg_text(p))
        + ") };\n    if status != 0 {\n        return Err(Error::from_context(raw_ctx));\n    }\n    Ok("@
        + return_value_text(ep.params) + ")\n}\n"@
}

/// The wrappers of the entry points `eps`, in order.
pub open spec fn entries_text(eps: Seq<EntryPointSpec>) -> Seq<char>
    decreases eps.len(),
{
    if eps.len() == 0 {
        Seq::empty()
    } else {
        entries_text(eps.drop_last()) + entry_text(eps.last())
    }
}

fn emit_in_params(s: &mut String, ps: &Vec<ParamDescriptor>)
    ensures
        final(s)@ == old(s)@ + concat_map(params_view(ps@), |p: ParamSpec| in_param_text(p)),
{
    let ghost s0 = s@;
    let ghost pv = params_view(ps@);
    let mut i: usize = 0;
    assert(pv.take(0) =~= Seq::<ParamSpec>::empty());
    while i < ps.len()
        invariant
            i <= ps@.len(),
            pv == params_view(ps@),
            s@ == s0 + concat_map(pv.take(i as int), |p: ParamSpec| in_param_text(p)),
        decreases ps@.len() - i,
    {
        emit_in_param(s, &ps[i]);
        assert(pv.take(i + 1).drop_last() =~= pv.take(i as int));
        assert(pv.take(i + 1).last() == ps@[i as int]@);
        assert(s@ =~= s0 + concat_map(pv.take(i + 1), |p: ParamSpec| in_param_text(p)));
        i += 1;
    }
    assert(pv.take(i as int) =~= pv);
}

fn emit_out_decls(s: &mut String, ps: &Vec<ParamDescriptor>)
    ensures
        final(s)@ == old(s)@ + concat_map(params_view(ps@), |p: ParamSpec| out_decl_text(p)),
{
    let ghost s0 = s@;
    let ghost pv = params_view(ps@);
    let mut i: usize = 0;
    assert(pv.take(0) =~= Seq::<ParamSpec>::empty());
    while i < ps.len()
        invariant
            i <= ps@.len(),
            pv == params_view(ps@),
            s@ == s0 + concat_map(pv.take(i as int), |p: ParamSpec| out_decl_text(p)),
        decreases ps@.len() - i,
    {
        emit_out_decl(s, &ps[i]);
        assert(pv.take(i + 1).drop_last() =~= pv.take(i as int));
        assert(pv.take(i + 1).last() == ps@[i as int]@);
        assert(s@ =~= s0 + concat_map(pv.take(i + 1), |p: ParamSpec| out_decl_text(p)));
        i += 1;
    }
    assert(pv.take(i as int) =~= pv);
}

fn emit_call_args(s: &mut String, ps: &Vec<ParamDescriptor>)
    ensures
        final(s)@ == old(s)@ + concat_map(params_view(ps@), |p: ParamSpec| call_arg_text(p)),
{
    let ghost s0 = s@;
    let ghost pv = params_view(ps@);
    let mut i: usize = 0;
    assert(pv.take(0) =~= Seq::<ParamSpec>::empty());
    while i < ps.len()
        invariant
            i <= ps@.len(),
            pv == params_view(ps@),
            s@ == s0 + concat_map(pv.take(i as int), |p: ParamSpec| call_arg_text(p)),
        decreases ps@.len() - i,
    {
        emit_call_arg(s, &ps[i]);
        assert(pv.take(i + 1).drop_last() =~= pv.take(i as int));
        assert(pv.take(i + 1).last() == ps@[i as int]@);
        assert(s@ =~= s0 + concat_map(pv.take(i + 1), |p: ParamSpec| call_arg_text(p)));
        i += 1;
    }
    assert(pv.take(i as int) =~= pv);
}

fn emit_out_types(s: &mut String, ps: &Vec<ParamDescriptor>) -> (k: usize)
    ensures
        final(s)@ == old(s)@ + out_list(params_view(ps@), |p: ParamSpec| out_type_text(p)),
        k == out_count(params_view(ps@)),
{
    let ghost s0 = s@;
    let ghost pv = params_view(ps@);
    let mut i: usize = 0;
    let mut k: usize = 0;
    assert(pv.take(0) =~= Seq::<ParamSpec>::empty());
    while i < ps.len()
        invariant
            i <= ps@.len(),
            k <= i,
            pv == params_view(ps@),
            k == out_count(pv.take(i as int)),
            s@ == s0 + out_list(pv.take(i as int), |p: ParamSpec| out_type_text(p)),
        decreases ps@.len() - i,
    {
        assert(pv.take(i + 1).drop_last() =~= pv.take(i as int));
        assert(pv.take(i + 1).last() == ps@[i as int]@);
        let p = &ps[i];
        if p.direction == Direction::Out && !matches!(p.kind, ParamKind::Context) {
            if k > 0 {
                s.append(", ");
            }
            emit_out_type(s, p);
            k += 1;
        }
        proof {
            let f = |p: ParamSpec| out_type_text(p);
            let t1 = pv.take(i + 1);
            if is_out(t1.last()) {
                if out_count(t1.drop_last()) == 0 {
                    assert(out_list(t1, f) == f(t1.last()));
                    assert(out_list(t1.drop_last(), f) =~= Seq::<char>::empty()) by {
                        lemma_out_list_empty(t1.drop_last(), f);
                    }
                } else {
                    assert(out_list(t1, f) == out_list(t1.drop_last(), f) + ", "@ + f(t1.last()));
                }
            } else {
                assert(out_list(t1, f) == out_list(t1.drop_last(), f));
            }
        }
        assert(s@ =~= s0 + out_list(pv.take(i + 1), |p: ParamSpec| out_type_text(p)));
        i += 1;
    }
    assert(pv.take(i as int) =~= pv);
    k
}

fn emit_out_values(s: &mut String, ps: &Vec<ParamDescriptor>) -> (k: usize)
    ensures
        final(s)@ == old(s)@ + out_list(params_view(ps@), |p: ParamSpec| out_value_text(p)),
        k == out_count(params_view(ps@)),
{
    let ghost s0 = s@;
    let ghost pv = params_view(ps@);
    let mut i: usize = 0;
    let mut k: usize = 0;
    assert(pv.take(0) =~= Seq::<ParamSpec>::empty());
    while i < ps.len()
        invariant
            i <= ps@.len(),
            k <= i,
            pv == params_view(ps@),
            k == out_count(pv.take(i as int)),
            s@ == s0 + out_list(pv.take(i as int), |p: ParamSpec| out_value_text(p)),
        decreases ps@.len() - i,
    {
        assert(pv.take(i + 1).drop_last() =~= pv.take(i as int));
        assert(pv.take(i + 1).last() == ps@[i as int]@);
        let p = &ps[i];
        if p.direction == Direction::Out && !matches!(p.kind, ParamKind::Context) {
            if k > 0 {
                s.append(", ");
            }
            emit_out_value(s, p);
            k += 1;
        }
        proof {
            let f = |p: ParamSpec| out_value_text(p);
            let t1 = pv.take(i + 1);
            if is_out(t1.last()) {
                if out_count(t1.drop_last()) == 0 {
                    assert(out_list(t1, f) == f(t1.last()));
                    assert(out_list(t1.drop_last(), f) =~= Seq::<char>::empty()) by {
                        lemma_out_list_empty(t1.drop_last(), f);
                    }
                } else {
                    assert(out_list(t1, f) == out_list(t1.drop_last(), f) + ", "@ + f(t1.last()));
                }
            } else {
                assert(out_list(t1, f) == out_list(t1.drop_last(), f));
            }
        }
        assert(s@ =~= s0 + out_list(pv.take(i + 1), |p: ParamSpec| out_value_text(p)));
        i += 1;
    }
    assert(pv.take(i as int) =~= pv);
    k
}

fn emit_out_type(s: &mut String, p: &ParamDescriptor)
    ensures
        final(s)@ == old(s)@ + out_type_text(p@),
{
    emit_param_type(s, p.kind);
}

fn emit_wrapped(s: &mut String, k: usize, items: &String)
    ensures
        final(s)@ == old(s)@ + wrap_outs(k as nat, items@, "()"@),
{
    let ghost s0 = s@;
    if k == 0 {
        s.append("()");
    } else if k == 1 {
        s.append(items.as_str());
    } else {
        s.append("(");
        s.append(items.as_str());
        s.append(")");
    }
    assert(s@ =~= s0 + wrap_outs(k as nat, items@, "()"@));
}

fn emit_entry(s: &mut String, ep: &EntryPointDescriptor)
    ensures
        final(s)@ == old(s)@ + entry_text(ep@),
{
    let ghost s0 = s@;
    let ps = &ep.params;
    emit_entry_head_text(s, &ep.name);
    emit_in_params(s, ps);
    s.append(") -> Result<");
    let mut types = String::new();
    let k = emit_out_types(&mut types, ps);
    emit_wrapped(s, k, &types);
    s.append(", Error> {\n    let raw_ctx = ctx.ptr();\n");
    emit_out_decls(s, ps);
    emit_entry_body_head_text(s, &ep.name);
    emit_call_args(s, ps);
    s.append(") };\n    if status != 0 {\n        return Err(Error::from_context(raw_ctx));\n    }\n    Ok(");
    let mut values = String::new();
    let k2 = emit_out_values(&mut values, ps);
    emit_wrapped(s, k2, &values);
    s.append(")\n}\n");
    assert(s@ =~= s0 + entry_text(ep@));
}

/// Generated source text for the canonical model.
#[derive(Clone, Debug)]
pub struct GeneratedSources {
    /// One owning wrapper per array type.
    pub arrays: String,
    /// One call wrapper per entry point.
    pub entry_points: String,
}

/// Synthesizes the array wrappers of `array_types`, in order.
pub fn gen_impl_futhark_types(array_types: &Vec<ArrayTypeDescriptor>) -> (r: String)
    ensures
        r@ == arrays_text(arrays_view(array_types@)),
{
    let ghost av = arrays_view(array_types@);
    let mut s = String::new();
    let mut i: usize = 0;
    assert(av.take(0) =~= Seq::<ArrayTypeSpec>::empty());
    while i < array_types.len()
        invariant
            i <= array_types@.len(),
            av == arrays_view(array_types@),
            s@ == arrays_text(av.take(i as int)),
        decreases array_types@.len() - i,
    {
        emit_array_impl(&mut s, &array_types[i]);
        assert(av.take(i + 1).drop_last() =~= av.take(i as int));
        assert(av.take(i + 1).last() == array_types@[i as int]@);
        i += 1;
    }
    assert(av.take(i as int) =~= av);
    s
}

/// Synthesizes the call wrappers of `entry_points`, in order.
pub fn gen_entry_points(entry_points: &Vec<EntryPointDescriptor>) -> (r: String)
    ensures
        r@ == entries_text(entries_view(entry_points@)),
{
    let ghost ev = entries_view(entry_points@);
    let mut s = String::new();
    let mut i: usize = 0;
    assert(ev.take(0) =~= Seq::<EntryPointSpec>::empty());
    while i < entry_points.len()
        invariant
            i <= entry_points@.len(),
            ev == entries_view(entry_points@),
            s@ == entries_text(ev.take(i as int)),
        decreases entry_points@.len() - i,
    {
        emit_entry(&mut s, &entry_points[i]);
        assert(ev.take(i + 1).drop_last() =~= ev.take(i as int));
        assert(ev.take(i + 1).last() == entry_points@[i as int]@);
        i += 1;
    }
    assert(ev.take(i as int) =~= ev);
    s
}

/// Synthesizes the wrapper sources of a model.
pub fn synthesize(model: &ApiModel) -> (r: GeneratedSources)
    ensures
        r.arrays@ == arrays_text(model@.array_types),
        r.entry_points@ == entries_text(model@.entry_points),
{
    GeneratedSources {
        arrays: gen_impl_futhark_types(&model.array_types),
        entry_points: gen_entry_points(&model.entry_points),
    }
}

} // verus!
