use vstd::prelude::*;

verus! {

/// Element kinds of an opaque array, each mapped one to one to a host type.
#[derive(Clone, Copy, Debug, PartialEq, Eq, Structural)]
pub enum ElementType {
    I8,
    I16,
    I32,
    I64,
    U8,
    U16,
    U32,
    U64,
    F16,
    F32,
    F64,
    Bool,
}

/// An opaque array type declared by the header.
#[derive(Clone, Debug)]
pub struct ArrayTypeDescriptor {
    pub name: String,
    pub element: ElementType,
    pub rank: usize,
}

pub struct ArrayTypeSpec {
    pub name: Seq<char>,
    pub element: ElementType,
    pub rank: nat,
}

impl View for ArrayTypeDescriptor {
    type V = ArrayTypeSpec;

    open spec fn view(&self) -> ArrayTypeSpec {
        ArrayTypeSpec { name: self.name@, element: self.element, rank: self.rank as nat }
    }
}

#[derive(Clone, Copy, Debug, PartialEq, Eq, Structural)]
pub enum Direction {
    In,
    Out,
}

/// What a parameter of an entry point refers to.
#[derive(Clone, Copy, Debug, PartialEq, Eq, Structural)]
pub enum ParamKind {
    /// The context handle, always the first parameter.
    Context,
    Scalar(ElementType),
    /// An opaque array of the given element type and rank.
    Array(ElementType, usize),
}

#[derive(Clone, Debug)]
pub struct ParamDescriptor {
    pub direction: Direction,
    pub kind: ParamKind,
    pub name: String,
}

pub struct ParamSpec {
    pub direction: Direction,
    pub kind: ParamKind,
    pub name: Seq<char>,
}

impl View for ParamDescriptor {
    type V = ParamSpec;

    open spec fn view(&self) -> ParamSpec {
        ParamSpec { direction: self.direction, kind: self.kind, name: self.name@ }
    }
}

#[derive(Clone, Debug)]
pub struct EntryPointDescriptor {
    pub name: String,
    pub params: Vec<ParamDescriptor>,
}

pub struct EntryPointSpec {
    pub name: Seq<char>,
    pub params: Seq<ParamSpec>,
}

impl View for EntryPointDescriptor {
    type V = EntryPointSpec;

    open spec fn view(&self) -> EntryPointSpec {
        EntryPointSpec { name: self.name@, params: self.params@.map_values(|p: ParamDescriptor| p@) }
    }
}

/// The exported interface of one backend, as its header declares it.
#[derive(Clone, Debug)]
pub struct ApiModel {
    pub array_types: Vec<ArrayTypeDescriptor>,
    pub entry_points: Vec<EntryPointDescriptor>,
}

pub struct ApiModelSpec {
    pub array_types: Seq<ArrayTypeSpec>,
    pub entry_points: Seq<EntryPointSpec>,
}

impl View for ApiModel {
    type V = ApiModelSpec;

    open spec fn view(&self) -> ApiModelSpec {
        ApiModelSpec {
            array_types: self.array_types@.map_values(|a: ArrayTypeDescriptor| a@),
            entry_points: self.entry_points@.map_values(|e: EntryPointDescriptor| e@),
        }
    }
}

/// A compute target the kernel is compiled for.
#[derive(Clone, Copy, Debug, PartialEq, Eq, Structural)]
pub enum BackendTarget {
    Sequential,
    Cuda,
    OpenCl,
}

impl BackendTarget {
    /// The directory suffix and feature name of the backend.
    pub fn name(&self) -> (r: &'static str)
        ensures
            r@ == backend_name(*self),
    {
        match self {
            BackendTarget::Sequential => "sequential_c",
            BackendTarget::Cuda => "cuda",
            BackendTarget::OpenCl => "opencl",
        }
    }

    /// The subcommand of the kernel compiler that targets the backend.
    pub fn compiler_subcommand(&self) -> (r: &'static str)
        ensures
            r@ == backend_subcommand(*self),
    {
        match self {
            BackendTarget::Sequential => "c",
            BackendTarget::Cuda => "cuda",
            BackendTarget::OpenCl => "opencl",
        }
    }
}

pub open spec fn backend_name(b: BackendTarget) -> Seq<char> {
    match b {
        BackendTarget::Sequential => "sequential_c"@,
        BackendTarget::Cuda => "cuda"@,
        BackendTarget::OpenCl => "opencl"@,
    }
}

pub open spec fn backend_subcommand(b: BackendTarget) -> Seq<char> {
    match b {
        BackendTarget::Sequential => "c"@,
        BackendTarget::Cuda => "cuda"@,
        BackendTarget::OpenCl => "opencl"@,
    }
}

} // verus!
