use new_array::caps::Capability;
use new_array::caps::DependentCapability;
use new_array::config::Attr;
use new_array::config::BodyShape;
use new_array::config::CapabilitySet;
use new_array::config::Declaration;
use new_array::config::FieldDecl;
use new_array::config::FieldType;
use new_array::config::LenShape;
use new_array::config::Meta;
use new_array::config::Nested;
use new_array::config::TargetDeclaration;
use new_array::emit::expand;
use new_array::emit::generate;

fn target(name: &str, length: usize) -> TargetDeclaration {
    TargetDeclaration { name: name.to_string(), length }
}

#[test]
fn total_equality_fragment_text() {
    let s = Capability::TotalEquality.implement("ByteN", 33);
    assert_eq!(s, "impl ::core::cmp::Eq for ByteN {}");
}

#[test]
fn default_fragment_text() {
    let s = Capability::DefaultValue.implement("ByteN", 33);
    assert_eq!(
        s,
        "impl ::core::default::Default for ByteN { #[inline] fn default() -> Self { Self([0; 33]) } }"
    );
}

#[test]
fn equality_fragment_text() {
    let s = Capability::Equality.implement("ByteN", 33);
    assert_eq!(
        s,
        "impl ::core::cmp::PartialEq for ByteN { #[inline] fn eq(&self, other: &Self) -> bool { (&self.0[..]).eq(&other.0[..]) } }"
    );
}

#[test]
fn from_fragment_repeats_the_length() {
    let s = Capability::FromFixedArray.implement("Wide", 257);
    assert_eq!(
        s,
        "impl ::core::convert::From<[u8; 257]> for Wide { #[inline] fn from(inner: [u8; 257]) -> Self { Self(inner) } }"
    );
}

#[test]
fn into_fragment_repeats_the_length() {
    let s = Capability::IntoFixedArray.implement("Wide", 257);
    assert_eq!(
        s,
        "impl ::core::convert::Into<[u8; 257]> for Wide { #[inline] fn into(self) -> [u8; 257] { self.0 } }"
    );
}

#[test]
fn secure_erase_fragment_overwrites_and_fences() {
    let s = Capability::SecureErase.implement("ByteN", 33);
    assert!(s.starts_with("impl ::core::ops::Drop for ByteN"));
    assert!(s.contains("write_volatile(elem, 0)"));
    assert!(s.contains("compiler_fence"));
}

#[test]
fn debug_fragment_names_the_type_in_its_output() {
    let s = Capability::DebugFormat.implement("ByteN", 33);
    assert!(s.starts_with("impl ::core::fmt::Debug for ByteN"));
    assert!(s.contains("write!(f, \"ByteN\")"));
    assert!(s.contains("{:#04x}"));
}

#[test]
fn display_fragment_mirrors_debug() {
    let debug = Capability::DebugFormat.implement("ByteN", 33);
    let display = DependentCapability::DisplayFormat.implement("ByteN", 33);
    let debug_body = debug.strip_prefix("impl ::core::fmt::Debug").unwrap();
    let display_body = display.strip_prefix("impl ::core::fmt::Display").unwrap();
    assert_eq!(debug_body, display_body, "the two renderings never diverge");
}

#[test]
fn parse_from_string_fragment_is_empty() {
    let s = DependentCapability::ParseFromString.implement("ByteN", 33);
    assert_eq!(s, "");
}

#[test]
fn generates_one_fragment_per_capability_in_order() {
    let td = target("ByteN", 33);
    let cs = CapabilitySet {
        simple: vec![
            Capability::DefaultValue,
            Capability::Equality,
            Capability::TotalEquality,
            Capability::DebugFormat,
            Capability::SecureErase,
        ],
        dependent: vec![DependentCapability::DisplayFormat],
    };
    let frags = generate(&td, &cs);
    assert_eq!(frags.len(), 6);
    assert!(frags[0].starts_with("impl ::core::default::Default for ByteN"));
    assert!(frags[1].starts_with("impl ::core::cmp::PartialEq for ByteN"));
    assert!(frags[2].starts_with("impl ::core::cmp::Eq for ByteN"));
    assert!(frags[3].starts_with("impl ::core::fmt::Debug for ByteN"));
    assert!(frags[4].starts_with("impl ::core::ops::Drop for ByteN"));
    assert!(frags[5].starts_with("impl ::core::fmt::Display for ByteN"));
}

fn ident(name: &str, span: u64) -> Nested {
    Nested::Meta(Meta::Path { ident: Some(name.to_string()), span })
}

#[test]
fn expand_concatenates_the_fragments() {
    let d = Declaration {
        name: "ByteN".to_string(),
        name_span: 1,
        span: 2,
        attrs: vec![Attr {
            outer: true,
            meta: Some(Meta::List {
                ident: Some("new_array".to_string()),
                path_span: 10,
                items: vec![Nested::Meta(Meta::List {
                    ident: Some("derive".to_string()),
                    path_span: 11,
                    items: vec![ident("Default", 21), ident("Eq", 22)],
                    span: 12,
                })],
                span: 13,
            }),
            span: 14,
        }],
        body: BodyShape::StructUnnamed {
            fields: vec![FieldDecl {
                attrs: Vec::new(),
                ty: FieldType::Array {
                    elem_is_u8: true,
                    elem_span: 90,
                    len: LenShape::IntLit { value: 33, span: 91 },
                },
                span: 92,
            }],
        },
    };
    let s = expand(&d).expect("a valid request expands");
    let expected = Capability::DefaultValue.implement("ByteN", 33)
        + &Capability::TotalEquality.implement("ByteN", 33);
    assert_eq!(s, expected);
}
