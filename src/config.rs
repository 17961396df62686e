use vstd::prelude::*;
use crate::model::BackendTarget;

verus! {

pub const DEFAULT_CUDA_INCLUDE_PATH: &'static str = "/opt/cuda/include";

pub const DEFAULT_CUDA_LIBRARY_PATH: &'static str = "/opt/cuda/lib64";

pub const DEFAULT_OPENCL_INCLUDE_PATH: &'static str = "/usr/include";

pub const DEFAULT_OPENCL_LIBRARY_PATH: &'static str = "/usr/lib";

/// The options of one generation run, resolved once at startup.
#[derive(Clone, Debug)]
pub struct Opt {
    /// Name of the generated library and of its output directory.
    pub name: String,
    /// The kernel source file.
    pub file: String,
    pub license: String,
    pub author: String,
    pub version: String,
    pub description: String,
    pub cuda_include_path: Option<String>,
    pub cuda_library_path: Option<String>,
    pub opencl_include_path: Option<String>,
    pub opencl_library_path: Option<String>,
}

/// The given path, else the default.
pub open spec fn path_or(p: Option<String>, default: Seq<char>) -> Seq<char> {
    match p {
        Some(s) => s@,
        None => default,
    }
}

fn resolve(p: &Option<String>, default: &str) -> (r: String)
    ensures
        r@ == path_or(*p, default@),
{
    match p {
        Some(s) => s.clone(),
        None => String::from_str(default),
    }
}

impl Opt {
    /// Options with the given library name and kernel file, and defaults for the rest.
    pub fn new(name: String, file: String) -> (r: Opt)
        ensures
            r.name == name,
            r.file == file,
            r.license@ == "MIT"@,
            r.author@ == "Name <name@example.com>"@,
            r.version@ == "0.1.0"@,
            r.description@ == "Rust interface to Futhark library"@,
            r.cuda_include_path is None,
            r.cuda_library_path is None,
            r.opencl_include_path is None,
            r.opencl_library_path is None,
    {
        Opt {
            name,
            file,
            license: String::from_str("MIT"),
            author: String::from_str("Name <name@example.com>"),
            version: String::from_str("0.1.0"),
            description: String::from_str("Rust interface to Futhark library"),
            cuda_include_path: None,
            cuda_library_path: None,
            opencl_include_path: None,
            opencl_library_path: None,
        }
    }

    pub fn cuda_include_dir(&self) -> (r: String)
        ensures
            r@ == path_or(self.cuda_include_path, DEFAULT_CUDA_INCLUDE_PATH@),
    {
        resolve(&self.cuda_include_path, DEFAULT_CUDA_INCLUDE_PATH)
    }

    pub fn cuda_library_dir(&self) -> (r: String)
        ensures
            r@ == path_or(self.cuda_library_path, DEFAULT_CUDA_LIBRARY_PATH@),
    {
        resolve(&self.cuda_library_path, DEFAULT_CUDA_LIBRARY_PATH)
    }

    pub fn opencl_include_dir(&self) -> (r: String)
        ensures
            r@ == path_or(self.opencl_include_path, DEFAULT_OPENCL_INCLUDE_PATH@),
    {
        resolve(&self.opencl_include_path, DEFAULT_OPENCL_INCLUDE_PATH)
    }

    pub fn opencl_library_dir(&self) -> (r: String)
        ensures
            r@ == path_or(self.opencl_library_path, DEFAULT_OPENCL_LIBRARY_PATH@),
    {
        resolve(&self.opencl_library_path, DEFAULT_OPENCL_LIBRARY_PATH)
    }

    /// The system include directory handed to the raw binding generator for `backend`.
    pub fn include_path_for(&self, backend: BackendTarget) -> (r: Option<String>)
        ensures
            match backend {
                BackendTarget::Sequential => r is None,
                BackendTarget::Cuda => r matches Some(p) && p@ == path_or(self.cuda_include_path, DEFAULT_CUDA_INCLUDE_PATH@),
                BackendTarget::OpenCl => r matches Some(p) && p@ == path_or(self.opencl_include_path, DEFAULT_OPENCL_INCLUDE_PATH@),
            },
    {
        match backend {
            BackendTarget::Sequential => None,
            BackendTarget::Cuda => Some(self.cuda_include_dir()),
            BackendTarget::OpenCl => Some(self.opencl_include_dir()),
        }
    }

    /// The output directory, `./<name>`.
    pub fn out_dir(&self) -> (r: String)
        ensures
            r@ == "./"@ + self.name@,
    {
        let mut s = String::from_str("./");
        s.append(self.name.as_str());
        s
    }
}

/// The directory of `backend` inside the output directory, `lib_<backend>`.
pub fn backend_dir(backend: BackendTarget) -> (r: String)
    ensures
        r@ == "lib_"@ + crate::model::backend_name(backend),
{
    let mut s = String::from_str("lib_");
    s.append(backend.name());
    s
}

} // verus!
