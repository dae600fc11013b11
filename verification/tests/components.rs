//! Tests of the individual pipeline components: parser, normalizer,
//! assembler, emitter, and the descriptor capability surface.

use tonic_rpc::descriptor::assemble;
use tonic_rpc::emit::assemble_output;
use tonic_rpc::emit::emit_aliases;
use tonic_rpc::normalize::build_alias;
use tonic_rpc::normalize::make_method;
use tonic_rpc::normalize::normalize_methods;
use tonic_rpc::normalize::split_param;
use tonic_rpc::parse::parse_interface;
use tonic_rpc::tonic_rpc;
use tonic_rpc::Codec;
use tonic_rpc::TransformError;

#[test]
fn parser_decomposes_methods() {
    let src = "trait S {\n    #[server_streaming]\n    fn f(x: A) -> B;\n    fn g(y: C);\n}";
    let iface = parse_interface(src).unwrap();
    assert_eq!(iface.name, "S");
    assert_eq!(iface.methods.len(), 2);
    assert_eq!(iface.methods[0].name, "f");
    assert_eq!(iface.methods[0].params, ["x: A"]);
    assert_eq!(iface.methods[0].ret.as_deref(), Some("B"));
    assert!(iface.methods[0].server_streaming);
    assert_eq!(iface.methods[1].name, "g");
    assert_eq!(iface.methods[1].params, ["y: C"]);
    assert_eq!(iface.methods[1].ret, None);
    assert!(!iface.methods[1].server_streaming);
}

#[test]
fn parser_keeps_every_parameter_piece() {
    let src = "trait S { fn f(x: A, y: B) -> C; }";
    let iface = parse_interface(src).unwrap();
    assert_eq!(iface.methods[0].params, ["x: A", " y: B"]);
}

#[test]
fn parser_rejects_unbalanced_body() {
    assert!(matches!(
        parse_interface("trait S { fn f(x: (A; }"),
        Err(TransformError::Syntax)
    ));
}

#[test]
fn split_param_takes_text_after_first_bare_colon() {
    assert_eq!(split_param("x: Pair").as_deref(), Some("Pair"));
    assert_eq!(split_param("x: std::vec::Vec<u8>").as_deref(), Some("std::vec::Vec<u8>"));
    assert_eq!(split_param("  x  :  A  ").as_deref(), Some("A"));
    assert_eq!(split_param("self"), None);
    assert_eq!(split_param("x:"), None);
    assert_eq!(split_param(": A"), None);
}

#[test]
fn normalizer_derives_both_aliases() {
    let iface = parse_interface("trait Calc { fn add(x: Pair) -> i32; }").unwrap();
    let d = make_method(&iface.methods[0], "Calc").unwrap();
    assert_eq!(d.request_alias, "__generated_Calc_add_request");
    assert_eq!(d.response_alias, "__generated_Calc_add_response");
    assert_eq!(build_alias("Calc", "add", "_request"), d.request_alias);
}

#[test]
fn assembler_is_pure_aggregation() {
    let iface = parse_interface("trait S { fn f(x: A); fn g(y: B) -> C; }").unwrap();
    let ds = normalize_methods(&iface.methods, &iface.name).unwrap();
    let service = assemble(iface.name.clone(), ds);
    assert_eq!(service.name(), "S");
    assert_eq!(service.package(), "S");
    assert_eq!(service.identifier(), "S");
    assert!(service.comment().is_empty());
    assert_eq!(service.methods().len(), 2);
    assert_eq!(service.methods()[0].name(), "f");
}

#[test]
fn method_capability_surface() {
    let g = tonic_rpc("trait S { fn f(x: A) -> B; }", Codec::Json).unwrap();
    let m = &g.service.methods[0];
    assert_eq!(m.name(), "f");
    assert_eq!(m.identifier(), "f");
    assert!(m.comment().is_empty());
    assert!(!m.client_streaming());
    assert!(!m.server_streaming());
    let (req, resp) = m.request_response_name("");
    assert_eq!(req, "super::__generated_S_f_request");
    assert_eq!(resp, "super::__generated_S_f_response");
}

#[test]
fn emitter_orders_aliases_by_method() {
    let iface = parse_interface("trait S { fn b(x: A); fn a(y: C) -> D; }").unwrap();
    let ds = normalize_methods(&iface.methods, &iface.name).unwrap();
    let block = emit_aliases(&ds);
    assert_eq!(
        block,
        "type __generated_S_b_request = A;\ntype __generated_S_b_response = ();\n\
         type __generated_S_a_request = C;\ntype __generated_S_a_response = D;\n"
    );
}

#[test]
fn output_concatenation_order() {
    assert_eq!(assemble_output("aliases\n", "client\n", "server\n"), "aliases\nclient\nserver\n");
    assert_eq!(assemble_output("", "", ""), "");
}
