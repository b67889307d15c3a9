use new_array::caps::Capability;
use new_array::caps::DependentCapability;
use new_array::config::Attr;
use new_array::config::BodyShape;
use new_array::config::Declaration;
use new_array::config::ErrorKind;
use new_array::config::FieldDecl;
use new_array::config::FieldType;
use new_array::config::LenShape;
use new_array::config::Meta;
use new_array::config::Nested;
use new_array::validate::validate;

fn ident(name: &str, span: u64) -> Nested {
    Nested::Meta(Meta::Path { ident: Some(name.to_string()), span })
}

fn group(name: &str, path_span: u64, span: u64, entries: Vec<Nested>) -> Nested {
    Nested::Meta(Meta::List {
        ident: Some(name.to_string()),
        path_span,
        items: entries,
        span,
    })
}

fn block(span: u64, groups: Vec<Nested>) -> Attr {
    Attr {
        outer: true,
        meta: Some(Meta::List {
            ident: Some("new_array".to_string()),
            path_span: span,
            items: groups,
            span,
        }),
        span,
    }
}

fn u8_field(length: usize) -> FieldDecl {
    FieldDecl {
        attrs: Vec::new(),
        ty: FieldType::Array {
            elem_is_u8: true,
            elem_span: 90,
            len: LenShape::IntLit { value: length, span: 91 },
        },
        span: 92,
    }
}

fn decl(length: usize, attrs: Vec<Attr>) -> Declaration {
    Declaration {
        name: "ByteN".to_string(),
        name_span: 1,
        span: 2,
        attrs,
        body: BodyShape::StructUnnamed { fields: vec![u8_field(length)] },
    }
}

#[test]
fn accepts_full_request_with_two_groups() {
    let d = decl(
        33,
        vec![block(
            10,
            vec![
                group(
                    "derive",
                    11,
                    12,
                    vec![
                        ident("Default", 21),
                        ident("PartialEq", 22),
                        ident("Eq", 23),
                        ident("Debug", 24),
                        ident("Drop", 25),
                    ],
                ),
                group("derive_with_deps", 13, 14, vec![ident("Display", 26)]),
            ],
        )],
    );
    let (td, cs) = validate(&d).expect("a valid request must be accepted");
    assert_eq!(td.name, "ByteN");
    assert_eq!(td.length, 33);
    assert_eq!(
        cs.simple,
        vec![
            Capability::DefaultValue,
            Capability::Equality,
            Capability::TotalEquality,
            Capability::DebugFormat,
            Capability::SecureErase,
        ]
    );
    assert_eq!(cs.dependent, vec![DependentCapability::DisplayFormat]);
}

#[test]
fn keeps_request_order_across_groups_and_blocks() {
    let d = decl(
        40,
        vec![
            block(10, vec![group("derive", 11, 12, vec![ident("Hash", 21), ident("Ord", 22)])]),
            block(
                15,
                vec![group("derive", 16, 17, vec![ident("Default", 23), ident("AsRef", 24)])],
            ),
        ],
    );
    let (_, cs) = validate(&d).expect("a valid request must be accepted");
    assert_eq!(
        cs.simple,
        vec![
            Capability::Hashing,
            Capability::TotalOrdering,
            Capability::DefaultValue,
            Capability::AsByteSlice,
        ]
    );
    assert!(cs.dependent.is_empty());
}

#[test]
fn accepts_every_simple_capability_once() {
    let names = [
        "Default", "PartialEq", "PartialOrd", "Eq", "Ord", "Hash", "AsRef", "AsMut", "From",
        "Into", "Borrow", "BorrowMut", "Debug", "Drop",
    ];
    let entries: Vec<Nested> =
        names.iter().enumerate().map(|(k, n)| ident(n, 100 + k as u64)).collect();
    let d = decl(33, vec![block(10, vec![group("derive", 11, 12, entries)])]);
    let (_, cs) = validate(&d).expect("a valid request must be accepted");
    assert_eq!(cs.simple.len(), 14);
}

#[test]
fn rejects_length_at_threshold() {
    let d = decl(32, vec![block(10, vec![group("derive", 11, 12, vec![ident("Hash", 21)])])]);
    let e = validate(&d).expect_err("length 32 must be rejected");
    assert_eq!(e.kind, ErrorKind::LengthTooSmall);
    assert_eq!(e.span, 91);
}

#[test]
fn rejects_small_length_regardless_of_request() {
    let d = decl(2, Vec::new());
    let e = validate(&d).expect_err("length 2 must be rejected");
    assert_eq!(e.kind, ErrorKind::LengthTooSmall);
}

#[test]
fn rejects_duplicate_within_one_group() {
    let d = decl(
        33,
        vec![block(
            10,
            vec![group("derive", 11, 12, vec![ident("Hash", 21), ident("Hash", 22)])],
        )],
    );
    let e = validate(&d).expect_err("a repeated capability must be rejected");
    assert_eq!(e.kind, ErrorKind::DuplicateCapability);
    assert_eq!(e.span, 22, "the second occurrence is the offending token");
}

#[test]
fn rejects_duplicate_across_groups_of_same_kind() {
    let d = decl(
        33,
        vec![
            block(10, vec![group("derive", 11, 12, vec![ident("Hash", 21)])]),
            block(15, vec![group("derive", 16, 17, vec![ident("Hash", 31)])]),
        ],
    );
    let e = validate(&d).expect_err("a repeat across groups must be rejected");
    assert_eq!(e.kind, ErrorKind::DuplicateCapability);
    assert_eq!(e.span, 31);
}

#[test]
fn rejects_unknown_capability_at_its_own_token() {
    let d = decl(
        33,
        vec![block(
            10,
            vec![group("derive", 11, 12, vec![ident("Default", 21), ident("Wombat", 22)])],
        )],
    );
    let e = validate(&d).expect_err("an unknown identifier must be rejected");
    assert_eq!(e.kind, ErrorKind::UnknownCapability);
    assert_eq!(e.span, 22, "the identifier's token, not the group's");
}

#[test]
fn rejects_dependent_name_in_simple_group() {
    let d = decl(33, vec![block(10, vec![group("derive", 11, 12, vec![ident("Display", 21)])])]);
    let e = validate(&d).expect_err("Display is not a simple capability");
    assert_eq!(e.kind, ErrorKind::UnknownCapability);
    assert_eq!(e.span, 21);
}

#[test]
fn rejects_simple_name_in_dependent_group() {
    let d = decl(
        33,
        vec![block(10, vec![group("derive_with_deps", 11, 12, vec![ident("Default", 21)])])],
    );
    let e = validate(&d).expect_err("Default is not a dependent capability");
    assert_eq!(e.kind, ErrorKind::UnknownCapability);
    assert_eq!(e.span, 21);
}

#[test]
fn rejects_group_with_longer_path_name() {
    let d = decl(
        33,
        vec![block(
            10,
            vec![Nested::Meta(Meta::List {
                ident: None,
                path_span: 11,
                items: vec![ident("Hash", 21)],
                span: 12,
            })],
        )],
    );
    let e = validate(&d).expect_err("a multi-segment group path is not recognized");
    assert_eq!(e.kind, ErrorKind::UnknownAttribute);
    assert_eq!(e.span, 11);
}

#[test]
fn rejects_unknown_group_name() {
    let d = decl(33, vec![block(10, vec![group("derives", 11, 12, vec![ident("Hash", 21)])])]);
    let e = validate(&d).expect_err("an unrecognized group name must be rejected");
    assert_eq!(e.kind, ErrorKind::UnknownAttribute);
    assert_eq!(e.span, 11, "the group's path is the offending token");
}

#[test]
fn rejects_empty_group() {
    let d = decl(33, vec![block(10, vec![group("derive", 11, 12, Vec::new())])]);
    let e = validate(&d).expect_err("an empty group must be rejected");
    assert_eq!(e.kind, ErrorKind::EmptyAttributeList);
    assert_eq!(e.span, 12);
}

#[test]
fn rejects_empty_block() {
    let d = decl(33, vec![block(10, Vec::new())]);
    let e = validate(&d).expect_err("an empty block must be rejected");
    assert_eq!(e.kind, ErrorKind::EmptyAttributeList);
    assert_eq!(e.span, 10);
}

#[test]
fn rejects_literal_group_entry() {
    let d = decl(
        33,
        vec![block(
            10,
            vec![group("derive", 11, 12, vec![ident("Hash", 21), Nested::Lit { span: 22 }])],
        )],
    );
    let e = validate(&d).expect_err("a literal entry must be rejected");
    assert_eq!(e.kind, ErrorKind::MalformedAttributeShape);
    assert_eq!(e.span, 22);
}

#[test]
fn rejects_nested_group_entry() {
    let d = decl(
        33,
        vec![block(
            10,
            vec![group(
                "derive",
                11,
                12,
                vec![group("derive", 31, 32, vec![ident("Hash", 33)])],
            )],
        )],
    );
    let e = validate(&d).expect_err("a group inside a group must be rejected");
    assert_eq!(e.kind, ErrorKind::MalformedAttributeShape);
    assert_eq!(e.span, 32);
}

#[test]
fn rejects_unparsable_struct_attribute_at_declaration() {
    let d = decl(33, vec![Attr { outer: true, meta: None, span: 70 }]);
    let e = validate(&d).expect_err("an unparsable attribute must be rejected");
    assert_eq!(e.kind, ErrorKind::MalformedAttributeShape);
    assert_eq!(e.span, 2, "reported at the whole declaration");
}

#[test]
fn rejects_name_value_group() {
    let d = decl(
        33,
        vec![block(
            10,
            vec![Nested::Meta(Meta::NameValue {
                ident: Some("derive".to_string()),
                path_span: 11,
                span: 12,
            })],
        )],
    );
    let e = validate(&d).expect_err("a key-value group must be rejected");
    assert_eq!(e.kind, ErrorKind::MalformedAttributeShape);
    assert_eq!(e.span, 12);
}

#[test]
fn rejects_non_struct() {
    let d = Declaration {
        name: "ByteN".to_string(),
        name_span: 1,
        span: 2,
        attrs: Vec::new(),
        body: BodyShape::NotStruct,
    };
    let e = validate(&d).expect_err("an enum must be rejected");
    assert_eq!(e.kind, ErrorKind::NotAStruct);
    assert_eq!(e.span, 1);
}

#[test]
fn rejects_named_fields() {
    let d = Declaration {
        name: "ByteN".to_string(),
        name_span: 1,
        span: 2,
        attrs: Vec::new(),
        body: BodyShape::StructOther,
    };
    let e = validate(&d).expect_err("named fields must be rejected");
    assert_eq!(e.kind, ErrorKind::WrongFieldShape);
}

#[test]
fn rejects_two_fields() {
    let d = Declaration {
        name: "ByteN".to_string(),
        name_span: 1,
        span: 2,
        attrs: Vec::new(),
        body: BodyShape::StructUnnamed { fields: vec![u8_field(33), u8_field(33)] },
    };
    let e = validate(&d).expect_err("two fields must be rejected");
    assert_eq!(e.kind, ErrorKind::WrongFieldShape);
    assert_eq!(e.span, 1);
}

#[test]
fn rejects_metadata_on_the_field() {
    let mut f = u8_field(33);
    f.attrs.push(Attr {
        outer: true,
        meta: Some(Meta::Path { ident: Some("new_array".to_string()), span: 50 }),
        span: 51,
    });
    let d = Declaration {
        name: "ByteN".to_string(),
        name_span: 1,
        span: 2,
        attrs: Vec::new(),
        body: BodyShape::StructUnnamed { fields: vec![f] },
    };
    let e = validate(&d).expect_err("field metadata must be rejected");
    assert_eq!(e.kind, ErrorKind::MisplacedMetadata);
    assert_eq!(e.span, 50);
}

#[test]
fn rejects_non_array_field() {
    let d = Declaration {
        name: "ByteN".to_string(),
        name_span: 1,
        span: 2,
        attrs: Vec::new(),
        body: BodyShape::StructUnnamed {
            fields: vec![FieldDecl { attrs: Vec::new(), ty: FieldType::NotArray, span: 92 }],
        },
    };
    let e = validate(&d).expect_err("a non-array field must be rejected");
    assert_eq!(e.kind, ErrorKind::NotFixedArray);
    assert_eq!(e.span, 92);
}

#[test]
fn rejects_wrong_element_type() {
    let d = Declaration {
        name: "ByteN".to_string(),
        name_span: 1,
        span: 2,
        attrs: Vec::new(),
        body: BodyShape::StructUnnamed {
            fields: vec![FieldDecl {
                attrs: Vec::new(),
                ty: FieldType::Array {
                    elem_is_u8: false,
                    elem_span: 90,
                    len: LenShape::IntLit { value: 33, span: 91 },
                },
                span: 92,
            }],
        },
    };
    let e = validate(&d).expect_err("a non-u8 element must be rejected");
    assert_eq!(e.kind, ErrorKind::WrongElementType);
    assert_eq!(e.span, 90);
}

#[test]
fn rejects_non_literal_length() {
    let d = Declaration {
        name: "ByteN".to_string(),
        name_span: 1,
        span: 2,
        attrs: Vec::new(),
        body: BodyShape::StructUnnamed {
            fields: vec![FieldDecl {
                attrs: Vec::new(),
                ty: FieldType::Array {
                    elem_is_u8: true,
                    elem_span: 90,
                    len: LenShape::NotIntLit { span: 91 },
                },
                span: 92,
            }],
        },
    };
    let e = validate(&d).expect_err("a non-literal length must be rejected");
    assert_eq!(e.kind, ErrorKind::LengthNotLiteral);
    assert_eq!(e.span, 91);
}

#[test]
fn ignores_attributes_under_other_names() {
    let d = decl(
        33,
        vec![
            Attr {
                outer: true,
                meta: Some(Meta::Path { ident: Some("repr".to_string()), span: 60 }),
                span: 61,
            },
            block(10, vec![group("derive", 11, 12, vec![ident("Hash", 21)])]),
        ],
    );
    let (_, cs) = validate(&d).expect("unrelated attributes are ignored");
    assert_eq!(cs.simple, vec![Capability::Hashing]);
}

#[test]
fn accepts_request_with_no_blocks() {
    let d = decl(33, Vec::new());
    let (td, cs) = validate(&d).expect("a bare declaration is accepted");
    assert_eq!(td.length, 33);
    assert!(cs.simple.is_empty());
    assert!(cs.dependent.is_empty());
}

#[test]
fn accepts_parse_from_string_request() {
    let d = decl(
        33,
        vec![block(10, vec![group("derive_with_deps", 11, 12, vec![ident("FromStr", 21)])])],
    );
    let (_, cs) = validate(&d).expect("FromStr stays in the accepted vocabulary");
    assert_eq!(cs.dependent, vec![DependentCapability::ParseFromString]);
}
