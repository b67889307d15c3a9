use new_array::caps::Capability;
use new_array::caps::DependentCapability;
use new_array::config::Attr;
use new_array::config::BodyShape;
use new_array::config::Declaration;
use new_array::config::FieldDecl;
use new_array::config::FieldType;
use new_array::config::LenShape;
use new_array::config::Meta;
use new_array::config::Nested;
use new_array::demo::ByteN;
use new_array::emit::generate;
use new_array::validate::validate;

fn ident(name: &str, span: u64) -> Nested {
    Nested::Meta(Meta::Path { ident: Some(name.to_string()), span })
}

/// The whole path at once: a 33-byte wrapper requests five simple
/// capabilities in one group and one dependent capability in another;
/// validation accepts both groups, generation yields one fragment per
/// capability, the default instance equals itself, and erasing an
/// instance zeroes it.
#[test]
fn end_to_end_thirty_three_byte_wrapper() {
    let d = Declaration {
        name: "ByteN".to_string(),
        name_span: 1,
        span: 2,
        attrs: vec![Attr {
            outer: true,
            meta: Some(Meta::List {
                ident: Some("new_array".to_string()),
                path_span: 10,
                items: vec![
                    Nested::Meta(Meta::List {
                        ident: Some("derive".to_string()),
                        path_span: 11,
                        items: vec![
                            ident("Default", 21),
                            ident("PartialEq", 22),
                            ident("Eq", 23),
                            ident("Debug", 24),
                            ident("Drop", 25),
                        ],
                        span: 12,
                    }),
                    Nested::Meta(Meta::List {
                        ident: Some("derive_with_deps".to_string()),
                        path_span: 13,
                        items: vec![ident("Display", 26)],
                        span: 14,
                    }),
                ],
                span: 15,
            }),
            span: 16,
        }],
        body: BodyShape::StructUnnamed {
            fields: vec![FieldDecl {
                attrs: Vec::new(),
                ty: FieldType::Array {
                    elem_is_u8: true,
                    elem_span: 90,
                    len: LenShape::IntLit { value: 33, span: 91 },
                },
                span: 92,
            }],
        },
    };

    let (td, cs) = validate(&d).expect("the scenario's request is valid");
    assert_eq!(td.name, "ByteN");
    assert_eq!(td.length, 33);
    assert_eq!(cs.simple.len(), 5);
    assert_eq!(cs.dependent.len(), 1);
    assert_eq!(cs.simple[0], Capability::DefaultValue);
    assert_eq!(cs.dependent[0], DependentCapability::DisplayFormat);

    let frags = generate(&td, &cs);
    assert_eq!(frags.len(), 6, "one fragment per requested capability");
    assert!(frags.iter().all(|f| !f.is_empty()));

    let a = ByteN::default();
    let b = ByteN::default();
    assert!(a == b, "the default instance equals itself");

    let mut filled = ByteN::from_array([0xabu8; 33]);
    filled.erase();
    assert!(filled.as_slice().iter().all(|&v| v == 0), "erasure zeroes every byte");
}
