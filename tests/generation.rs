use genfut::config::{backend_dir, DEFAULT_CUDA_INCLUDE_PATH, DEFAULT_OPENCL_INCLUDE_PATH};
use genfut::equiv::{check_equivalent, check_pair, EquivError};
use genfut::model::{ArrayTypeDescriptor, BackendTarget, ElementType};
use genfut::pipeline::{generate, model_header, GenError, HeaderError};
use genfut::synth::{gen_impl_futhark_types, synthesize};
use genfut::Opt;

const ADD: &str = "int futhark_entry_add(struct futhark_context *ctx, int32_t *out0, const int32_t x, const int32_t y);\n";

#[test]
fn identical_models_are_equivalent() {
    let a = model_header(ADD).unwrap();
    let b = model_header(ADD).unwrap();
    let canon = check_equivalent(vec![(BackendTarget::Sequential, a), (BackendTarget::Cuda, b)]).unwrap();
    assert_eq!(canon.entry_points.len(), 1);
    assert_eq!(canon.entry_points[0].name, "add");
    assert!(canon.array_types.is_empty());
}

#[test]
fn differing_array_types_name_both_backends() {
    let a = model_header(ADD).unwrap();
    let b = model_header(&format!("struct futhark_i32_1d;\n{}", ADD)).unwrap();
    let r = check_equivalent(vec![(BackendTarget::Sequential, a), (BackendTarget::OpenCl, b)]);
    assert!(matches!(
        r,
        Err(EquivError::ArrayTypesDiffer { previous: BackendTarget::Sequential, current: BackendTarget::OpenCl })
    ));
}

#[test]
fn differing_entry_points_name_both_backends() {
    let a = model_header(ADD).unwrap();
    let b = model_header(&ADD.replace("const int32_t y", "const int64_t y")).unwrap();
    let r = check_pair(BackendTarget::Cuda, &a, BackendTarget::OpenCl, &b);
    assert!(matches!(
        r,
        Err(EquivError::EntryPointsDiffer { previous: BackendTarget::Cuda, current: BackendTarget::OpenCl })
    ));
    let c = model_header(ADD).unwrap();
    assert!(check_pair(BackendTarget::Cuda, &a, BackendTarget::OpenCl, &c).is_ok());
}

#[test]
fn no_backend_is_an_error() {
    assert!(matches!(check_equivalent(Vec::new()), Err(EquivError::NoBackends)));
    assert!(matches!(generate(&Vec::new()), Err(GenError::Equiv(EquivError::NoBackends))));
}

#[test]
fn two_dimensional_i32_wrapper() {
    let d = ArrayTypeDescriptor { name: "futhark_i32_2d".to_string(), element: ElementType::I32, rank: 2 };
    let text = gen_impl_futhark_types(&vec![d]);
    assert!(text.contains("pub struct Array_i32_2d {"));
    assert!(text.contains("pub fn from_slice(ctx: &mut FutharkContext, data: &[i32], shape: &[i64; 2]) -> Result<Self, Error> {"));
    assert!(text.contains("bindings::futhark_new_i32_2d(ctx, data.as_ptr(), shape[0], shape[1])"));
    assert!(text.contains("pub fn shape(&self) -> [i64; 2] {"));
    assert!(text.contains("bindings::futhark_shape_i32_2d(self.ctx, self.ptr)"));
    assert!(text.contains("pub fn to_vec(&self) -> Result<Vec<i32>, Error> {"));
    assert!(text.contains("bindings::futhark_values_i32_2d(self.ctx, self.ptr, out.as_mut_ptr())"));
    assert_eq!(text.matches("impl Drop for Array_i32_2d").count(), 1);
    assert_eq!(text.matches("bindings::futhark_free_i32_2d(self.ctx, self.ptr);").count(), 1);
}

#[test]
fn failed_status_exposes_no_out_value() {
    let m = model_header(ADD).unwrap();
    let g = synthesize(&m);
    let text = g.entry_points;
    let err = text.find("if status != 0 {\n        return Err(Error::from_context(raw_ctx));\n    }").unwrap();
    let ok = text.find("Ok(unsafe { out0.assume_init() })").unwrap();
    let call = text.find("bindings::futhark_entry_add(raw_ctx, out0.as_mut_ptr(), x, y)").unwrap();
    assert!(call < err && err < ok);
    assert_eq!(text.matches("assume_init").count(), 1);
}

#[test]
fn add_end_to_end() {
    let headers = vec![
        (BackendTarget::Sequential, format!("struct futhark_context;\n{}", ADD)),
        (BackendTarget::Cuda, format!("struct futhark_context;\n{}", ADD)),
    ];
    let (model, g) = generate(&headers).unwrap();
    assert_eq!(model.entry_points.len(), 1);
    assert!(g.arrays.is_empty());
    assert_eq!(g.entry_points.matches("pub fn ").count(), 1);
    assert!(g.entry_points.contains("pub fn add(ctx: &mut FutharkContext, x: i32, y: i32) -> Result<i32, Error> {"));
    assert!(g.entry_points.contains("    let mut out0 = std::mem::MaybeUninit::<i32>::uninit();\n"));
}

#[test]
fn multiple_outputs_form_a_tuple() {
    let h = "int futhark_entry_g(struct futhark_context *ctx, struct futhark_f32_3d **out0, bool *out1, const uint8_t in0);";
    let g = synthesize(&model_header(h).unwrap());
    assert!(g.entry_points.contains("pub fn g(ctx: &mut FutharkContext, in0: u8) -> Result<(Array_f32_3d, bool), Error> {"));
    assert!(g.entry_points.contains("    let mut out0: *mut bindings::futhark_f32_3d = std::ptr::null_mut();\n"));
    assert!(g.entry_points.contains("(raw_ctx, &mut out0, out1.as_mut_ptr(), in0)"));
    assert!(g.entry_points.contains("Ok((Array_f32_3d::from_raw(raw_ctx, out0), unsafe { out1.assume_init() }))"));
}

#[test]
fn no_outputs_return_unit() {
    let h = "int futhark_entry_h(struct futhark_context *ctx, const struct futhark_i64_1d *xs);";
    let g = synthesize(&model_header(h).unwrap());
    assert!(g.entry_points.contains("pub fn h(ctx: &mut FutharkContext, xs: &Array_i64_1d) -> Result<(), Error> {"));
    assert!(g.entry_points.contains("(raw_ctx, xs.as_raw())"));
    assert!(g.entry_points.contains("Ok(())"));
}

#[test]
fn generation_stops_at_first_bad_header() {
    let headers = vec![
        (BackendTarget::Sequential, ADD.to_string()),
        (BackendTarget::OpenCl, "struct futhark_i32_1d;\n".to_string()),
    ];
    assert!(matches!(
        generate(&headers),
        Err(GenError::Header { backend: BackendTarget::OpenCl, error: HeaderError::Scan(_) })
    ));
}

#[test]
fn generation_reports_divergent_backends() {
    let headers = vec![
        (BackendTarget::Sequential, ADD.to_string()),
        (BackendTarget::Cuda, ADD.to_string()),
        (BackendTarget::OpenCl, ADD.replace("add", "sub")),
    ];
    assert!(matches!(
        generate(&headers),
        Err(GenError::Equiv(EquivError::EntryPointsDiffer { previous: BackendTarget::Cuda, current: BackendTarget::OpenCl }))
    ));
}

#[test]
fn options_resolve_defaults() {
    let mut opt = Opt::new("mylib".to_string(), "a.fut".to_string());
    assert_eq!(opt.license, "MIT");
    assert_eq!(opt.out_dir(), "./mylib");
    assert_eq!(opt.include_path_for(BackendTarget::Sequential), None);
    assert_eq!(opt.include_path_for(BackendTarget::Cuda), Some(DEFAULT_CUDA_INCLUDE_PATH.to_string()));
    assert_eq!(opt.include_path_for(BackendTarget::OpenCl), Some(DEFAULT_OPENCL_INCLUDE_PATH.to_string()));
    opt.cuda_include_path = Some("/x/include".to_string());
    assert_eq!(opt.cuda_include_dir(), "/x/include");
    assert_eq!(opt.cuda_library_dir(), "/opt/cuda/lib64");
    assert_eq!(backend_dir(BackendTarget::Sequential), "lib_sequential_c");
    assert_eq!(BackendTarget::OpenCl.compiler_subcommand(), "opencl");
}
