use genfut::builder::{parse_array_type, parse_entry_point, ParseError};
use genfut::model::{Direction, ElementType, ParamKind};
use genfut::pipeline::{model_header, HeaderError};
use genfut::scan::{scan_header, ScanError};

const HEADER: &str = "#pragma once\n\
struct futhark_context;\n\
struct futhark_i32_2d ;\n\
struct futhark_f64_1d;\n\
struct futhark_i32_2d *futhark_new_i32_2d(struct futhark_context *ctx, const int32_t *data, int64_t dim0, int64_t dim1);\n\
int futhark_entry_sum(struct futhark_context *ctx, double *out0, const struct futhark_f64_1d *in0);\n\
int futhark_entry_transpose(struct futhark_context *ctx, struct futhark_i32_2d **out0, const struct futhark_i32_2d *in0);\n";

#[test]
fn scanner_yields_array_types_in_source_order() {
    let decls = scan_header(HEADER).unwrap();
    assert_eq!(decls.array_types, vec!["futhark_i32_2d".to_string(), "futhark_f64_1d".to_string()]);
    assert_eq!(decls.entry_points.len(), 2);
    assert!(decls.entry_points[0].starts_with("int futhark_entry_sum("));
    assert!(decls.entry_points[1].ends_with("*in0);"));
}

#[test]
fn scanner_counts_many_declarations() {
    let mut h = String::new();
    for r in 1..=12 {
        h.push_str(&format!("struct futhark_u8_{}d;\n", r));
    }
    h.push_str("int futhark_entry_main(struct futhark_context *ctx);\n");
    let decls = scan_header(&h).unwrap();
    assert_eq!(decls.array_types.len(), 12);
    assert_eq!(decls.array_types[9], "futhark_u8_10d");
    let m = model_header(&h).unwrap();
    assert_eq!(m.array_types[11].rank, 12);
    assert_eq!(m.array_types[11].element, ElementType::U8);
}

#[test]
fn scanner_ignores_non_declarations() {
    let h = "struct futhark_context;\nmystruct futhark_i32_1d;\nstruct futhark_i32_1d *p;\nint futhark_entry_f(struct futhark_context *ctx);";
    let decls = scan_header(h).unwrap();
    assert!(decls.array_types.is_empty());
    assert_eq!(decls.entry_points, vec!["int futhark_entry_f(struct futhark_context *ctx);".to_string()]);
}

#[test]
fn header_without_entry_points_is_an_error() {
    let h = "struct futhark_i32_1d;\n";
    assert!(matches!(scan_header(h), Err(ScanError::NoEntryPoints)));
    assert!(matches!(model_header(h), Err(HeaderError::Scan(ScanError::NoEntryPoints))));
}

#[test]
fn empty_header_is_empty_result() {
    let decls = scan_header("").unwrap();
    assert!(decls.array_types.is_empty());
    assert!(decls.entry_points.is_empty());
}

#[test]
fn unterminated_prototype_is_an_error() {
    let h = "\nint futhark_entry_f(struct futhark_context *ctx";
    assert!(matches!(scan_header(h), Err(ScanError::Unterminated { position: 1 })));
}

#[test]
fn array_type_name_gives_element_and_rank() {
    let d = parse_array_type(&"futhark_i32_2d".to_string()).unwrap();
    assert_eq!(d.name, "futhark_i32_2d");
    assert_eq!(d.element, ElementType::I32);
    assert_eq!(d.rank, 2);
    let d = parse_array_type(&"futhark_bool_10d".to_string()).unwrap();
    assert_eq!(d.element, ElementType::Bool);
    assert_eq!(d.rank, 10);
    let d = parse_array_type(&"futhark_f16_3d".to_string()).unwrap();
    assert_eq!(d.element, ElementType::F16);
}

#[test]
fn array_type_errors() {
    assert!(matches!(parse_array_type(&"futhark_q7_1d".to_string()), Err(ParseError::UnknownElementType)));
    assert!(matches!(parse_array_type(&"futhark_i32_0d".to_string()), Err(ParseError::BadRank)));
    assert!(matches!(parse_array_type(&"futhark_i32_02d".to_string()), Err(ParseError::BadRank)));
    assert!(matches!(
        parse_array_type(&"futhark_i32_99999999999999999999999d".to_string()),
        Err(ParseError::BadRank)
    ));
    assert!(matches!(parse_array_type(&"futhark_i32_d".to_string()), Err(ParseError::MalformedArrayType)));
    assert!(matches!(parse_array_type(&"other_i32_1d".to_string()), Err(ParseError::MalformedArrayType)));
}

#[test]
fn entry_point_without_parameters() {
    let ep = parse_entry_point(&"int futhark_entry_main(struct futhark_context *ctx);".to_string()).unwrap();
    assert_eq!(ep.name, "main");
    assert_eq!(ep.params.len(), 1);
    assert_eq!(ep.params[0].kind, ParamKind::Context);
}

#[test]
fn entry_point_parameters_are_classified() {
    let st = "int futhark_entry_f(struct futhark_context *ctx, struct futhark_i32_1d **out0, int64_t *out1, const struct futhark_i32_1d *in0, const float in1);";
    let ep = parse_entry_point(&st.to_string()).unwrap();
    assert_eq!(ep.name, "f");
    assert_eq!(ep.params.len(), 5);
    assert_eq!(ep.params[0].kind, ParamKind::Context);
    assert_eq!(ep.params[1].direction, Direction::Out);
    assert_eq!(ep.params[1].kind, ParamKind::Array(ElementType::I32, 1));
    assert_eq!(ep.params[1].name, "out0");
    assert_eq!(ep.params[2].direction, Direction::Out);
    assert_eq!(ep.params[2].kind, ParamKind::Scalar(ElementType::I64));
    assert_eq!(ep.params[3].direction, Direction::In);
    assert_eq!(ep.params[3].kind, ParamKind::Array(ElementType::I32, 1));
    assert_eq!(ep.params[4].direction, Direction::In);
    assert_eq!(ep.params[4].kind, ParamKind::Scalar(ElementType::F32));
    assert_eq!(ep.params[4].name, "in1");
    for p in &ep.params[1..] {
        assert_ne!(p.kind, ParamKind::Context);
    }
}

#[test]
fn entry_point_parameter_errors() {
    let bad_depth = "int futhark_entry_f(struct futhark_context *ctx, int32_t ***out0);";
    assert!(matches!(parse_entry_point(&bad_depth.to_string()), Err(ParseError::MalformedParameter)));
    let unknown = "int futhark_entry_f(struct futhark_context *ctx, char in0);";
    assert!(matches!(parse_entry_point(&unknown.to_string()), Err(ParseError::UnknownParameterType)));
    let no_ctx = "int futhark_entry_f(int32_t in0);";
    assert!(matches!(parse_entry_point(&no_ctx.to_string()), Err(ParseError::MalformedEntryPoint)));
    let array_by_value = "int futhark_entry_f(struct futhark_context *ctx, struct futhark_i32_1d in0);";
    assert!(matches!(parse_entry_point(&array_by_value.to_string()), Err(ParseError::MalformedParameter)));
}

#[test]
fn header_model_reports_parse_errors() {
    let h = "struct futhark_c64_1d;\nint futhark_entry_f(struct futhark_context *ctx);";
    assert!(matches!(model_header(h), Err(HeaderError::Parse(ParseError::UnknownElementType))));
}
