//! End-to-end tests of the transformation pipeline.

use tonic_rpc::tonic_rpc;
use tonic_rpc::Codec;
use tonic_rpc::TransformError;

#[test]
fn calc_add_scenario() {
    let src = "trait Calc { fn add(x: Pair) -> i32; }";
    let g = tonic_rpc(src, Codec::Json).unwrap();
    assert_eq!(g.service.name, "Calc");
    assert_eq!(g.service.methods.len(), 1);
    let m = &g.service.methods[0];
    assert_eq!(m.name, "add");
    assert_eq!(m.request_type, "Pair");
    assert_eq!(m.response_type, "i32");
    assert!(!m.client_streaming);
    assert!(!m.server_streaming);
    assert_eq!(m.request_alias, "__generated_Calc_add_request");
    assert_eq!(m.response_alias, "__generated_Calc_add_response");
    assert_eq!(
        g.type_aliases,
        "type __generated_Calc_add_request = Pair;\ntype __generated_Calc_add_response = i32;\n"
    );
    assert_eq!(g.codec_path, "tonic_rpc::json_codec::MyCodec");
}

#[test]
fn server_streaming_scenario() {
    let src = "trait Pubsub {\n    #[server_streaming]\n    fn watch(topic: String) -> Event;\n}";
    let g = tonic_rpc(src, Codec::Json).unwrap();
    assert_eq!(g.service.methods.len(), 1);
    let m = &g.service.methods[0];
    assert_eq!(m.name, "watch");
    assert_eq!(m.request_type, "String");
    assert_eq!(m.response_type, "Event");
    assert!(m.server_streaming);
    assert!(!m.client_streaming);
}

#[test]
fn unannotated_method_streams_nothing() {
    let src = "trait S { fn f(x: A) -> B; }";
    let g = tonic_rpc(src, Codec::Json).unwrap();
    let m = &g.service.methods[0];
    assert!(!m.server_streaming);
    assert!(!m.client_streaming);
}

#[test]
fn other_attributes_are_ignored() {
    let src = "trait S { #[inline] fn f(x: A) -> B; #[deprecated] #[server_streaming] fn g(x: A); }";
    let g = tonic_rpc(src, Codec::Json).unwrap();
    assert!(!g.service.methods[0].server_streaming);
    assert!(g.service.methods[1].server_streaming);
}

#[test]
fn transformation_is_deterministic() {
    let src = "trait Twice {\n    fn one(x: A) -> B;\n    #[server_streaming]\n    fn two(y: C);\n}";
    let g1 = tonic_rpc(src, Codec::Cbor).unwrap();
    let g2 = tonic_rpc(src, Codec::Cbor).unwrap();
    assert_eq!(g1.service.name, g2.service.name);
    assert_eq!(g1.type_aliases, g2.type_aliases);
    assert_eq!(g1.codec_path, g2.codec_path);
    assert_eq!(g1.service.methods.len(), g2.service.methods.len());
    for (m1, m2) in g1.service.methods.iter().zip(g2.service.methods.iter()) {
        assert_eq!(m1.name, m2.name);
        assert_eq!(m1.request_type, m2.request_type);
        assert_eq!(m1.response_type, m2.response_type);
        assert_eq!(m1.request_alias, m2.request_alias);
        assert_eq!(m1.response_alias, m2.response_alias);
        assert_eq!(m1.client_streaming, m2.client_streaming);
        assert_eq!(m1.server_streaming, m2.server_streaming);
    }
}

#[test]
fn zero_parameters_rejected() {
    let src = "trait S { fn f() -> i32; }";
    match tonic_rpc(src, Codec::Json) {
        Err(TransformError::InvalidRpcArgument { method }) => assert_eq!(method, "f"),
        _ => panic!("a declaration without a parameter must be rejected"),
    }
}

#[test]
fn two_parameters_rejected() {
    let src = "trait S { fn f(x: A, y: B) -> C; }";
    match tonic_rpc(src, Codec::Json) {
        Err(TransformError::InvalidRpcArgument { method }) => assert_eq!(method, "f"),
        _ => panic!("a declaration with two parameters must be rejected"),
    }
}

#[test]
fn trailing_comma_rejected() {
    let src = "trait S { fn f(x: A,) -> C; }";
    assert!(matches!(
        tonic_rpc(src, Codec::Json),
        Err(TransformError::InvalidRpcArgument { .. })
    ));
}

#[test]
fn receiver_parameter_rejected() {
    let src = "trait S { fn f(self) -> C; }";
    assert!(matches!(
        tonic_rpc(src, Codec::Json),
        Err(TransformError::InvalidRpcArgument { .. })
    ));
}

#[test]
fn first_bad_method_is_reported() {
    let src = "trait S { fn ok(x: A) -> B; fn bad() -> C; fn worse(a: A, b: B); }";
    match tonic_rpc(src, Codec::Json) {
        Err(TransformError::InvalidRpcArgument { method }) => assert_eq!(method, "bad"),
        _ => panic!("the first malformed declaration must be reported"),
    }
}

#[test]
fn omitted_return_type_defaults_to_unit() {
    let src = "trait S { fn ping(x: u8); }";
    let g = tonic_rpc(src, Codec::Json).unwrap();
    let m = &g.service.methods[0];
    assert_eq!(m.response_type, "()");
    assert_eq!(
        g.type_aliases,
        "type __generated_S_ping_request = u8;\ntype __generated_S_ping_response = ();\n"
    );
}

#[test]
fn method_order_is_preserved() {
    let src = "trait S { fn c(x: A); fn a(x: A); fn b(x: A); }";
    let g = tonic_rpc(src, Codec::Json).unwrap();
    let names: Vec<&str> = g.service.methods.iter().map(|m| m.name.as_str()).collect();
    assert_eq!(names, ["c", "a", "b"]);
}

#[test]
fn aliases_are_unique_per_method() {
    let src = "trait S { fn a(x: A); fn b(x: A); }";
    let g = tonic_rpc(src, Codec::Json).unwrap();
    let m0 = &g.service.methods[0];
    let m1 = &g.service.methods[1];
    assert_ne!(m0.request_alias, m1.request_alias);
    assert_ne!(m0.response_alias, m1.response_alias);
    assert_ne!(m0.request_alias, m0.response_alias);
}

#[test]
fn non_method_items_are_skipped() {
    let src = "trait S { type X = Y; fn f(x: A) -> B; const N: u32 = 5; fn g(y: C); }";
    let g = tonic_rpc(src, Codec::Json).unwrap();
    assert_eq!(g.service.methods.len(), 2);
    assert_eq!(g.service.methods[0].name, "f");
    assert_eq!(g.service.methods[1].name, "g");
}

#[test]
fn complex_type_text_is_preserved() {
    let src = "trait S { fn f(x: Vec<(i32, String)>) -> std::collections::HashMap<String, u64>; }";
    let g = tonic_rpc(src, Codec::Json).unwrap();
    let m = &g.service.methods[0];
    assert_eq!(m.request_type, "Vec<(i32, String)>");
    assert_eq!(m.response_type, "std::collections::HashMap<String, u64>");
}

#[test]
fn function_type_parameter_is_preserved() {
    let src = "trait S { fn f(x: Box<dyn Fn(A) -> B>) -> C; }";
    let g = tonic_rpc(src, Codec::Json).unwrap();
    assert_eq!(g.service.methods[0].request_type, "Box<dyn Fn(A) -> B>");
}

#[test]
fn syntax_errors_are_reported() {
    for src in [
        "",
        "trait",
        "trait S",
        "trait S {",
        "trait S { fn }",
        "trait S { fn f(x: A) }",
        "trait S { fn f(x: A) -> ; }",
        "struct S { }",
        "trait S { } extra",
        "trait 9S { fn f(x: A); }",
    ] {
        assert!(
            matches!(tonic_rpc(src, Codec::Json), Err(TransformError::Syntax)),
            "not rejected: {:?}",
            src
        );
    }
}

#[test]
fn empty_interface_is_accepted() {
    let g = tonic_rpc("trait Empty { }", Codec::Json).unwrap();
    assert_eq!(g.service.name, "Empty");
    assert!(g.service.methods.is_empty());
    assert_eq!(g.type_aliases, "");
}

#[test]
fn type_text_outside_identifiers_may_be_non_ascii() {
    let g = tonic_rpc("trait S { fn f(x: Größe) -> B; }", Codec::Json).unwrap();
    assert_eq!(g.service.methods[0].request_type, "Größe");
}

#[test]
fn heavy_whitespace_is_tolerated() {
    let src = "  trait   S  {\n\n\t fn  f (  x :  A  )  ->  B ;\n }\n\n";
    let g = tonic_rpc(src, Codec::Json).unwrap();
    assert_eq!(g.service.name, "S");
    assert_eq!(g.service.methods[0].name, "f");
    assert_eq!(g.service.methods[0].request_type, "A");
    assert_eq!(g.service.methods[0].response_type, "B");
}

#[test]
fn every_codec_has_its_path() {
    let src = "trait S { fn f(x: A); }";
    let cases = [
        (Codec::Json, "tonic_rpc::json_codec::MyCodec"),
        (Codec::Bincode, "tonic_rpc::bincode_codec::MyCodec"),
        (Codec::Cbor, "tonic_rpc::cbor_codec::MyCodec"),
        (Codec::MessagePack, "tonic_rpc::messagepack_codec::MyCodec"),
    ];
    for (codec, path) in cases {
        let g = tonic_rpc(src, codec).unwrap();
        assert_eq!(g.codec_path, path);
        assert_eq!(codec.path(), path);
    }
}
