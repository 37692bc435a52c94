use idl_ir::decode::{decode, decode_handle_subtype, decode_literal, parse_library};
use idl_ir::json::JsonValue;
use idl_ir::query::{resolve, walk_type, LocalDeclRef, Resolved};
use idl_ir::schema::{DecodeError, DeclarationKind, HandleSubtype, Literal, Type};
use idl_ir::validate::validate_library;

fn s(x: &str) -> JsonValue {
    JsonValue::Str(x.to_owned())
}

fn n(x: u64) -> JsonValue {
    JsonValue::Num(x)
}

fn b(x: bool) -> JsonValue {
    JsonValue::Bool(x)
}

fn arr(xs: Vec<JsonValue>) -> JsonValue {
    JsonValue::Arr(xs)
}

fn obj(fields: Vec<(&str, JsonValue)>) -> JsonValue {
    JsonValue::Obj(fields.into_iter().map(|(k, v)| (k.to_owned(), v)).collect())
}

fn empty_library_fields() -> Vec<(&'static str, JsonValue)> {
    vec![
        ("version", s("0.0.1")),
        ("name", s("example.lib")),
        ("const_declarations", arr(vec![])),
        ("enum_declarations", arr(vec![])),
        ("interface_declarations", arr(vec![])),
        ("struct_declarations", arr(vec![])),
        ("table_declarations", arr(vec![])),
        ("union_declarations", arr(vec![])),
        ("xunion_declarations", arr(vec![])),
        ("declaration_order", arr(vec![])),
        ("declarations", obj(vec![])),
        ("library_dependencies", arr(vec![])),
    ]
}

fn set(
    fields: Vec<(&'static str, JsonValue)>,
    key: &'static str,
    value: JsonValue,
) -> Vec<(&'static str, JsonValue)> {
    let mut slot = Some(value);
    let mut out: Vec<(&'static str, JsonValue)> = Vec::new();
    for (k, v) in fields {
        if k == key {
            out.push((k, slot.take().expect("key set twice")));
        } else {
            out.push((k, v));
        }
    }
    out
}

fn primitive(subtype: &str) -> JsonValue {
    obj(vec![("kind", s("primitive")), ("subtype", s(subtype))])
}

fn literal_constant(value: JsonValue) -> JsonValue {
    obj(vec![("kind", s("literal")), ("literal", value)])
}

fn const_decl(name: &str) -> JsonValue {
    obj(vec![
        ("name", s(name)),
        ("type", primitive("uint8")),
        ("value", literal_constant(obj(vec![("kind", s("numeric")), ("value", s("7"))]))),
    ])
}

#[test]
fn minimal_library_decodes() {
    let doc = obj(empty_library_fields());
    let lib = decode(&doc).expect("minimal library should decode");
    assert_eq!(lib.version, "0.0.1");
    assert_eq!(lib.name, "example.lib");
    assert!(lib.const_declarations.is_empty());
    assert!(lib.declaration_order.is_empty());
    assert!(lib.library_dependencies.is_empty());
}

#[test]
fn const_declaration_round_trips_names_and_kinds() {
    let fields = empty_library_fields();
    let fields = set(fields, "const_declarations", arr(vec![const_decl("example.lib/K")]));
    let fields = set(fields, "declaration_order", arr(vec![s("example.lib/K")]));
    let doc = obj(set(fields, "declarations", obj(vec![("example.lib/K", s("const"))])));
    let lib = decode(&doc).expect("library with one const should decode");
    assert_eq!(lib.const_declarations.len(), 1);
    assert_eq!(lib.const_declarations[0].name, "example.lib/K");
    assert_eq!(lib.declaration_order, vec!["example.lib/K".to_owned()]);
    assert_eq!(lib.declarations.len(), 1);
    assert_eq!(lib.declarations[0].0, "example.lib/K");
    assert_eq!(lib.declarations[0].1, DeclarationKind::Const);
}

#[test]
fn table_with_reserved_member_decodes() {
    let table = obj(vec![
        ("name", s("example.lib/T")),
        (
            "members",
            arr(vec![
                obj(vec![
                    ("reserved", b(false)),
                    ("ordinal", n(1)),
                    ("name", s("a")),
                    ("type", primitive("uint8")),
                    ("size", n(1)),
                    ("max_out_of_line", n(0)),
                    ("alignment", n(1)),
                    ("offset", n(0)),
                ]),
                obj(vec![("reserved", b(true)), ("ordinal", n(2))]),
            ]),
        ),
        ("size", n(16)),
        ("max_out_of_line", n(0)),
    ]);
    let fields = set(empty_library_fields(), "table_declarations", arr(vec![table]));
    let doc = obj(set(fields, "declaration_order", arr(vec![s("example.lib/T")])));
    let lib = decode(&doc).expect("table with a reserved member should decode");
    assert_eq!(lib.table_declarations.len(), 1);
    let t = &lib.table_declarations[0];
    assert_eq!(t.members.len(), 2);
    assert!(!t.members[0].reserved);
    assert_eq!(t.members[0].name.as_deref(), Some("a"));
    assert!(t.members[1].reserved);
    assert_eq!(t.members[1].ordinal, 2);
    assert!(t.members[1].name.is_none());
    assert!(t.members[1].ty.is_none());
    assert!(t.members[1].size.is_none());
}

#[test]
fn missing_order_entry_names_the_constant() {
    let doc = obj(set(empty_library_fields(), "const_declarations", arr(vec![const_decl(
        "example.lib/K",
    )])));
    let err = decode(&doc).expect_err("missing order entry must fail");
    assert_eq!(err, DecodeError::MissingOrderEntry { name: "example.lib/K".to_owned() });
}

#[test]
fn dangling_order_entry_is_rejected() {
    let doc = obj(set(empty_library_fields(), "declaration_order", arr(vec![s("example.lib/Ghost")])));
    let err = decode(&doc).expect_err("dangling order entry must fail");
    assert_eq!(err, DecodeError::DanglingOrderEntry { name: "example.lib/Ghost".to_owned() });
}

#[test]
fn duplicate_declaration_is_rejected() {
    let fields = set(
        empty_library_fields(),
        "const_declarations",
        arr(vec![const_decl("example.lib/K"), const_decl("example.lib/K")]),
    );
    let doc = obj(set(
        fields,
        "declaration_order",
        arr(vec![s("example.lib/K"), s("example.lib/K")]),
    ));
    let err = decode(&doc).expect_err("duplicate declarations must fail");
    assert_eq!(err, DecodeError::DuplicateDeclaration { name: "example.lib/K".to_owned() });
}

#[test]
fn empty_method_is_rejected() {
    let protocol = obj(vec![
        ("name", s("example.lib/P")),
        (
            "methods",
            arr(vec![obj(vec![
                ("name", s("Nothing")),
                ("ordinal", n(1)),
                ("generated_ordinal", n(1)),
                ("has_request", b(false)),
                ("has_response", b(false)),
            ])]),
        ),
    ]);
    let fields = set(empty_library_fields(), "interface_declarations", arr(vec![protocol]));
    let doc = obj(set(fields, "declaration_order", arr(vec![s("example.lib/P")])));
    let err = decode(&doc).expect_err("a method with neither side must fail");
    assert_eq!(
        err,
        DecodeError::EmptyMethod { protocol: "example.lib/P".to_owned(), method: "Nothing".to_owned() }
    );
}

#[test]
fn one_way_and_reply_only_methods_decode() {
    let protocol = obj(vec![
        ("name", s("example.lib/P")),
        (
            "methods",
            arr(vec![
                obj(vec![
                    ("name", s("OneWay")),
                    ("ordinal", n(1)),
                    ("generated_ordinal", n(1)),
                    ("has_request", b(true)),
                    ("maybe_request", arr(vec![])),
                    ("maybe_request_size", n(16)),
                    ("maybe_request_alignment", n(8)),
                    ("has_response", b(false)),
                ]),
                obj(vec![
                    ("name", s("ReplyOnly")),
                    ("ordinal", n(2)),
                    ("generated_ordinal", n(2)),
                    ("has_request", b(false)),
                    ("has_response", b(true)),
                    ("maybe_response", arr(vec![])),
                    ("maybe_response_size", n(16)),
                    ("maybe_response_alignment", n(8)),
                ]),
            ]),
        ),
    ]);
    let fields = set(empty_library_fields(), "interface_declarations", arr(vec![protocol]));
    let doc = obj(set(fields, "declaration_order", arr(vec![s("example.lib/P")])));
    let lib = decode(&doc).expect("one-way and reply-only methods should decode");
    let p = &lib.interface_declarations[0];
    assert!(p.methods[0].has_request && !p.methods[0].has_response);
    assert!(p.methods[0].maybe_request.is_some());
    assert!(p.methods[0].maybe_response.is_none());
    assert!(!p.methods[1].has_request && p.methods[1].has_response);
}

#[test]
fn unresolved_identifier_decodes_but_does_not_resolve() {
    let st = obj(vec![
        ("name", s("example.lib/S")),
        (
            "members",
            arr(vec![obj(vec![
                ("name", s("f")),
                (
                    "type",
                    obj(vec![
                        ("kind", s("identifier")),
                        ("identifier", s("other.lib/Foo")),
                        ("nullable", b(true)),
                    ]),
                ),
                ("size", n(8)),
                ("max_out_of_line", n(0)),
                ("alignment", n(8)),
                ("offset", n(0)),
            ])]),
        ),
        ("size", n(8)),
        ("max_out_of_line", n(0)),
    ]);
    let fields = set(empty_library_fields(), "struct_declarations", arr(vec![st]));
    let doc = obj(set(fields, "declaration_order", arr(vec![s("example.lib/S")])));
    let lib = decode(&doc).expect("an unresolvable identifier is a structural success");
    assert!(resolve(&lib, "other.lib/Foo").is_none());
}

#[test]
fn resolve_finds_local_declaration() {
    let fields = set(empty_library_fields(), "const_declarations", arr(vec![const_decl(
        "example.lib/K",
    )]));
    let doc = obj(set(fields, "declaration_order", arr(vec![s("example.lib/K")])));
    let lib = decode(&doc).expect("library should decode");
    match resolve(&lib, "example.lib/K") {
        Some(Resolved::Local { kind, decl }) => {
            assert_eq!(kind, DeclarationKind::Const);
            match decl {
                LocalDeclRef::Const(c) => assert_eq!(c.name, "example.lib/K"),
                other => panic!("wrong declaration kind: {:?}", other),
            }
        }
        other => panic!("expected a local hit, got {:?}", other),
    }
}

#[test]
fn resolve_dependency_name_yields_kind_only() {
    let dep = obj(vec![
        ("name", s("other.lib")),
        ("declarations", obj(vec![("other.lib/Foo", s("struct"))])),
    ]);
    let doc = obj(set(empty_library_fields(), "library_dependencies", arr(vec![dep])));
    let lib = decode(&doc).expect("library with one dependency should decode");
    match resolve(&lib, "other.lib/Foo") {
        Some(Resolved::Foreign { kind }) => assert_eq!(kind, DeclarationKind::Struct),
        other => panic!("expected a foreign hit, got {:?}", other),
    }
}

#[test]
fn walk_visits_vector_array_primitive_in_order() {
    let prim = Type::Primitive { subtype: "uint8".to_owned() };
    let array = Type::Array { element_type: Box::new(prim), element_count: 4 };
    let vector = Type::Vector {
        element_type: Box::new(array),
        nullable: false,
        maybe_element_count: None,
    };
    let visits = walk_type(&vector);
    assert_eq!(visits.len(), 3);
    assert!(matches!(visits[0].0, Type::Vector { .. }));
    assert!(visits[0].1.is_none());
    assert!(matches!(visits[1].0, Type::Array { .. }));
    assert!(matches!(visits[1].1, Some(Type::Vector { .. })));
    assert!(matches!(visits[2].0, Type::Primitive { .. }));
    assert!(matches!(visits[2].1, Some(Type::Array { .. })));
    let again = walk_type(&vector);
    assert_eq!(visits, again);
}

#[test]
fn unknown_type_tag_is_rejected() {
    let doc = obj(set(
        empty_library_fields(),
        "const_declarations",
        arr(vec![obj(vec![
            ("name", s("example.lib/K")),
            ("type", obj(vec![("kind", s("matrix"))])),
            ("value", literal_constant(obj(vec![("kind", s("true"))]))),
        ])]),
    ));
    let err = decode(&doc).expect_err("an unknown type tag must fail");
    assert_eq!(
        err,
        DecodeError::UnknownVariant { context: "example.lib/K".to_owned(), tag: "matrix".to_owned() }
    );
}

#[test]
fn missing_required_field_is_reported() {
    let doc = obj(vec![("version", s("0.0.1"))]);
    let err = parse_library(&doc).expect_err("a document without a name must fail");
    assert_eq!(
        err,
        DecodeError::MissingField { context: "library".to_owned(), field: "name".to_owned() }
    );
}

#[test]
fn non_object_document_is_malformed() {
    let doc = s("not a library");
    let err = decode(&doc).expect_err("a non-object document must fail");
    assert_eq!(err, DecodeError::MalformedDocument { context: "library".to_owned() });
}

#[test]
fn table_ordinal_gap_is_rejected() {
    let table = obj(vec![
        ("name", s("example.lib/T")),
        (
            "members",
            arr(vec![
                obj(vec![("reserved", b(true)), ("ordinal", n(1))]),
                obj(vec![("reserved", b(true)), ("ordinal", n(3))]),
            ]),
        ),
        ("size", n(16)),
        ("max_out_of_line", n(0)),
    ]);
    let fields = set(empty_library_fields(), "table_declarations", arr(vec![table]));
    let doc = obj(set(fields, "declaration_order", arr(vec![s("example.lib/T")])));
    let err = decode(&doc).expect_err("a gapped ordinal range must fail");
    assert_eq!(err, DecodeError::MalformedDocument { context: "example.lib/T".to_owned() });
}

#[test]
fn numeric_literal_keeps_its_text() {
    let node = obj(vec![("kind", s("numeric")), ("value", s("18446744073709551616"))]);
    let lit = decode_literal(&node, "ctx").expect("numeric literal should decode");
    assert_eq!(lit, Literal::Numeric { value: "18446744073709551616".to_owned() });
}

#[test]
fn literal_variants_decode() {
    let t = decode_literal(&obj(vec![("kind", s("true"))]), "ctx").unwrap();
    assert_eq!(t, Literal::True);
    let f = decode_literal(&obj(vec![("kind", s("false"))]), "ctx").unwrap();
    assert_eq!(f, Literal::False);
    let d = decode_literal(&obj(vec![("kind", s("default"))]), "ctx").unwrap();
    assert_eq!(d, Literal::DefaultVal);
    let st = decode_literal(&obj(vec![("kind", s("string")), ("value", s("hi"))]), "ctx").unwrap();
    assert_eq!(st, Literal::Str { value: "hi".to_owned() });
}

#[test]
fn handle_subtype_tags_decode() {
    assert_eq!(decode_handle_subtype("vmo"), Some(HandleSubtype::Vmo));
    assert_eq!(decode_handle_subtype("eventpair"), Some(HandleSubtype::EventPair));
    assert_eq!(decode_handle_subtype("teleport"), None);
}

#[test]
fn absent_attributes_decode_as_empty() {
    let fields = set(empty_library_fields(), "const_declarations", arr(vec![const_decl(
        "example.lib/K",
    )]));
    let doc = obj(set(fields, "declaration_order", arr(vec![s("example.lib/K")])));
    let lib = decode(&doc).expect("library should decode");
    assert!(lib.const_declarations[0].attributes.is_empty());
}

#[test]
fn validate_accepts_what_decode_built() {
    let doc = obj(empty_library_fields());
    let lib = decode(&doc).expect("minimal library should decode");
    assert!(validate_library(&lib).is_ok());
}

#[test]
fn kind_tags_map_to_model_kinds() {
    let doc = obj(set(
        empty_library_fields(),
        "declarations",
        obj(vec![
            ("example.lib/A", s("const")),
            ("example.lib/B", s("bits")),
            ("example.lib/C", s("enum")),
            ("example.lib/D", s("interface")),
            ("example.lib/E", s("struct")),
            ("example.lib/F", s("table")),
            ("example.lib/G", s("union")),
            ("example.lib/H", s("xunion")),
        ]),
    ));
    let lib = decode(&doc).expect("kind map should decode");
    let kinds: Vec<DeclarationKind> = lib.declarations.iter().map(|p| p.1).collect();
    assert_eq!(
        kinds,
        vec![
            DeclarationKind::Const,
            DeclarationKind::Bits,
            DeclarationKind::Enum,
            DeclarationKind::Protocol,
            DeclarationKind::Struct,
            DeclarationKind::Table,
            DeclarationKind::Union,
            DeclarationKind::ExtensibleUnion,
        ]
    );
}

#[test]
fn unknown_kind_tag_in_map_is_rejected() {
    let doc = obj(set(
        empty_library_fields(),
        "declarations",
        obj(vec![("example.lib/A", s("service"))]),
    ));
    let err = decode(&doc).expect_err("an unknown kind tag must fail");
    assert!(matches!(err, DecodeError::UnknownVariant { .. }));
}

#[test]
fn nested_vector_type_decodes() {
    let ty = obj(vec![
        ("kind", s("vector")),
        (
            "element_type",
            obj(vec![
                ("kind", s("handle")),
                ("subtype", s("channel")),
                ("nullable", b(true)),
            ]),
        ),
        ("nullable", b(false)),
        ("maybe_element_count", n(16)),
    ]);
    let member = obj(vec![
        ("name", s("f")),
        ("type", ty),
        ("size", n(16)),
        ("max_out_of_line", n(0)),
        ("alignment", n(8)),
        ("offset", n(0)),
    ]);
    let st = obj(vec![
        ("name", s("example.lib/S")),
        ("members", arr(vec![member])),
        ("size", n(16)),
        ("max_out_of_line", n(0)),
    ]);
    let fields = set(empty_library_fields(), "struct_declarations", arr(vec![st]));
    let doc = obj(set(fields, "declaration_order", arr(vec![s("example.lib/S")])));
    let lib = decode(&doc).expect("nested vector type should decode");
    match &lib.struct_declarations[0].members[0].ty {
        Type::Vector { element_type, nullable, maybe_element_count } => {
            assert!(!nullable);
            assert_eq!(*maybe_element_count, Some(16));
            match element_type.as_ref() {
                Type::Handle { subtype, nullable } => {
                    assert_eq!(*subtype, HandleSubtype::Channel);
                    assert!(*nullable);
                }
                other => panic!("wrong element type: {:?}", other),
            }
        }
        other => panic!("wrong type: {:?}", other),
    }
}

#[test]
fn local_declaration_shadows_dependency() {
    let dep = obj(vec![
        ("name", s("example.lib")),
        ("declarations", obj(vec![("example.lib/K", s("struct"))])),
    ]);
    let fields = set(empty_library_fields(), "const_declarations", arr(vec![const_decl(
        "example.lib/K",
    )]));
    let fields = set(fields, "declaration_order", arr(vec![s("example.lib/K")]));
    let doc = obj(set(fields, "library_dependencies", arr(vec![dep])));
    let lib = decode(&doc).expect("library should decode");
    match resolve(&lib, "example.lib/K") {
        Some(Resolved::Local { kind, .. }) => assert_eq!(kind, DeclarationKind::Const),
        other => panic!("the local declaration must win, got {:?}", other),
    }
}

#[test]
fn first_dependency_wins_resolution() {
    let dep1 = obj(vec![
        ("name", s("first.lib")),
        ("declarations", obj(vec![("shared/Name", s("table"))])),
    ]);
    let dep2 = obj(vec![
        ("name", s("second.lib")),
        ("declarations", obj(vec![("shared/Name", s("union"))])),
    ]);
    let doc = obj(set(empty_library_fields(), "library_dependencies", arr(vec![dep1, dep2])));
    let lib = decode(&doc).expect("library should decode");
    match resolve(&lib, "shared/Name") {
        Some(Resolved::Foreign { kind }) => assert_eq!(kind, DeclarationKind::Table),
        other => panic!("the first dependency must win, got {:?}", other),
    }
}

#[test]
fn zero_table_ordinal_is_rejected() {
    let table = obj(vec![
        ("name", s("example.lib/T")),
        ("members", arr(vec![obj(vec![("reserved", b(true)), ("ordinal", n(0))])])),
        ("size", n(16)),
        ("max_out_of_line", n(0)),
    ]);
    let fields = set(empty_library_fields(), "table_declarations", arr(vec![table]));
    let doc = obj(set(fields, "declaration_order", arr(vec![s("example.lib/T")])));
    let err = decode(&doc).expect_err("a zero ordinal must fail");
    assert_eq!(err, DecodeError::MalformedDocument { context: "example.lib/T".to_owned() });
}

#[test]
fn attributes_are_preserved() {
    let decl = obj(vec![
        ("name", s("example.lib/K")),
        ("type", primitive("uint8")),
        ("value", literal_constant(obj(vec![("kind", s("numeric")), ("value", s("7"))]))),
        (
            "maybe_attributes",
            arr(vec![obj(vec![("name", s("doc")), ("value", s("a constant"))])]),
        ),
    ]);
    let fields = set(empty_library_fields(), "const_declarations", arr(vec![decl]));
    let doc = obj(set(fields, "declaration_order", arr(vec![s("example.lib/K")])));
    let lib = decode(&doc).expect("attributed const should decode");
    let attrs = &lib.const_declarations[0].attributes;
    assert_eq!(attrs.len(), 1);
    assert_eq!(attrs[0].name, "doc");
    assert_eq!(attrs[0].value, "a constant");
}

#[test]
fn enum_members_decode() {
    let e = obj(vec![
        ("name", s("example.lib/E")),
        ("type", s("uint32")),
        (
            "members",
            arr(vec![obj(vec![
                ("name", s("A")),
                ("value", literal_constant(obj(vec![("kind", s("numeric")), ("value", s("1"))]))),
            ])]),
        ),
    ]);
    let fields = set(empty_library_fields(), "enum_declarations", arr(vec![e]));
    let doc = obj(set(fields, "declaration_order", arr(vec![s("example.lib/E")])));
    let lib = decode(&doc).expect("enum should decode");
    let e = &lib.enum_declarations[0];
    assert_eq!(e.ty, "uint32");
    assert_eq!(e.members.len(), 1);
    assert_eq!(e.members[0].name, "A");
}

#[test]
fn wrong_type_for_optional_count_is_rejected() {
    let ty = obj(vec![
        ("kind", s("string")),
        ("nullable", b(false)),
        ("maybe_element_count", s("five")),
    ]);
    let decl = obj(vec![
        ("name", s("example.lib/K")),
        ("type", ty),
        ("value", literal_constant(obj(vec![("kind", s("true"))]))),
    ]);
    let fields = set(empty_library_fields(), "const_declarations", arr(vec![decl]));
    let doc = obj(set(fields, "declaration_order", arr(vec![s("example.lib/K")])));
    let err = decode(&doc).expect_err("a non-numeric bound must fail");
    assert!(matches!(err, DecodeError::MalformedDocument { .. }));
}

#[test]
fn out_of_range_element_count_is_rejected() {
    let ty = obj(vec![
        ("kind", s("array")),
        ("element_type", primitive("uint8")),
        ("element_count", n(u64::from(u32::MAX) + 1)),
    ]);
    let decl = obj(vec![
        ("name", s("example.lib/K")),
        ("type", ty),
        ("value", literal_constant(obj(vec![("kind", s("true"))]))),
    ]);
    let fields = set(empty_library_fields(), "const_declarations", arr(vec![decl]));
    let doc = obj(set(fields, "declaration_order", arr(vec![s("example.lib/K")])));
    let err = decode(&doc).expect_err("an element count beyond the field width must fail");
    assert!(matches!(err, DecodeError::MissingField { .. }));
}

#[test]
fn request_and_identifier_types_decode() {
    let req = obj(vec![("kind", s("request")), ("subtype", s("example.lib/P")), ("nullable", b(false))]);
    let decl = obj(vec![
        ("name", s("example.lib/K")),
        ("type", req),
        ("value", literal_constant(obj(vec![("kind", s("true"))]))),
    ]);
    let fields = set(empty_library_fields(), "const_declarations", arr(vec![decl]));
    let doc = obj(set(fields, "declaration_order", arr(vec![s("example.lib/K")])));
    let lib = decode(&doc).expect("request type should decode");
    match &lib.const_declarations[0].ty {
        Type::Request { subtype, nullable } => {
            assert_eq!(subtype, "example.lib/P");
            assert!(!nullable);
        }
        other => panic!("wrong type: {:?}", other),
    }
}

#[test]
fn nested_type_error_names_the_member() {
    let member = obj(vec![
        ("name", s("f")),
        (
            "type",
            obj(vec![
                ("kind", s("vector")),
                ("element_type", obj(vec![("kind", s("tensor"))])),
                ("nullable", b(false)),
            ]),
        ),
        ("size", n(16)),
        ("max_out_of_line", n(0)),
        ("alignment", n(8)),
        ("offset", n(0)),
    ]);
    let st = obj(vec![
        ("name", s("example.lib/S")),
        ("members", arr(vec![member])),
        ("size", n(16)),
        ("max_out_of_line", n(0)),
    ]);
    let fields = set(empty_library_fields(), "struct_declarations", arr(vec![st]));
    let doc = obj(set(fields, "declaration_order", arr(vec![s("example.lib/S")])));
    let err = decode(&doc).expect_err("an unknown nested tag must fail");
    assert_eq!(
        err,
        DecodeError::UnknownVariant { context: "f".to_owned(), tag: "tensor".to_owned() }
    );
}

#[test]
fn unknown_literal_tag_inside_constant_names_the_tag() {
    let c = obj(vec![
        ("kind", s("literal")),
        ("literal", obj(vec![("kind", s("imaginary"))])),
    ]);
    let err = idl_ir::decode::decode_constant(&c, "ctx").expect_err("unknown literal tag");
    assert_eq!(
        err,
        DecodeError::UnknownVariant { context: "ctx".to_owned(), tag: "imaginary".to_owned() }
    );
}
