//! The configuration model: the plain-data form of a declaration with its
//! attached capability requests, the validated configuration that comes out
//! of it, and the diagnostics that validation can report.
//!
//! Positions are carried as opaque span identifiers (`u64`): the front end
//! that builds a [`Declaration`] assigns one to every token of interest and
//! keeps the mapping back to concrete source positions for itself.  The
//! validator only moves the identifiers around, so a diagnostic always
//! points at the specific offending token.

use vstd::prelude::*;

use crate::caps::Capability;
use crate::caps::DependentCapability;

verus! {

/// Why a declaration was rejected.
#[derive(Clone, Copy, Debug, PartialEq, Eq, Structural)]
pub enum ErrorKind {
    /// The declared subject is an enum or a union, not a structure.
    NotAStruct,
    /// The structure does not have exactly one unnamed field.
    WrongFieldShape,
    /// Capability metadata is attached to the field instead of the structure.
    MisplacedMetadata,
    /// The field's type is not a fixed-size array.
    NotFixedArray,
    /// The array's element type is not an 8-bit unsigned integer.
    WrongElementType,
    /// The array length is 32 or less; such arrays have native support and
    /// do not need generated implementations.
    LengthTooSmall,
    /// The array length is not an integer literal.
    LengthNotLiteral,
    /// A capability group is introduced by an unrecognized name.
    UnknownAttribute,
    /// A metadata block or group is not a parenthesized list of bare
    /// identifiers.
    MalformedAttributeShape,
    /// A metadata block or capability group carries no entries.
    EmptyAttributeList,
    /// An identifier does not resolve to a member of the closed capability
    /// enumeration.
    UnknownCapability,
    /// The same capability is requested twice.
    DuplicateCapability,
}

/// A structured error: what went wrong, and the span identifier of the
/// offending token.
#[derive(Clone, Copy, Debug, PartialEq, Eq, Structural)]
pub struct Diagnostic {
    pub kind: ErrorKind,
    pub span: u64,
}

/// One piece of structured metadata, mirroring the three shapes an
/// attachment can take: a bare path, a parenthesized list, or a key-value
/// pair.  `ident` is the path's identifier when the path is a single bare
/// identifier, and `None` otherwise.
pub enum Meta {
    Path { ident: Option<String>, span: u64 },
    List { ident: Option<String>, path_span: u64, items: Vec<Nested>, span: u64 },
    NameValue { ident: Option<String>, path_span: u64, span: u64 },
}

/// An entry inside a metadata list: either nested metadata or a literal.
pub enum Nested {
    Meta(Meta),
    Lit { span: u64 },
}

/// One attribute attached to the structure or to its field.  `meta` is
/// `None` when the attribute could not be parsed into structured metadata.
pub struct Attr {
    pub outer: bool,
    pub meta: Option<Meta>,
    pub span: u64,
}

/// The shape of the array length expression.
pub enum LenShape {
    IntLit { value: usize, span: u64 },
    NotIntLit { span: u64 },
}

/// The shape of the single field's type.
pub enum FieldType {
    Array { elem_is_u8: bool, elem_span: u64, len: LenShape },
    NotArray,
}

/// The single field of the structure: its own attributes, its type shape,
/// and its span.
pub struct FieldDecl {
    pub attrs: Vec<Attr>,
    pub ty: FieldType,
    pub span: u64,
}

/// The body of the declared item.
pub enum BodyShape {
    /// A structure with unnamed (positional) fields.
    StructUnnamed { fields: Vec<FieldDecl> },
    /// A structure with named fields, or a unit structure.
    StructOther,
    /// An enum or a union.
    NotStruct,
}

/// The full declaration handed to the validator: the subject's name, the
/// span identifiers of its name and of the whole declaration, the
/// attributes attached to it, and its body.
pub struct Declaration {
    pub name: String,
    pub name_span: u64,
    pub span: u64,
    pub attrs: Vec<Attr>,
    pub body: BodyShape,
}

/// The validated subject of generation: its name and the element count of
/// its byte array.  Immutable once constructed.
#[derive(Debug)]
pub struct TargetDeclaration {
    pub name: String,
    pub length: usize,
}

impl TargetDeclaration {
    /// Validation only ever constructs targets above the threshold under
    /// which native array semantics suffice.
    pub open spec fn wf(self) -> bool {
        self.length > 32
    }
}

/// No element appears twice in `s`.
pub open spec fn distinct<T>(s: Seq<T>) -> bool {
    forall|i: int, j: int| 0 <= i < j < s.len() ==> s[i] != s[j]
}

/// The validated configuration: the requested simple and dependent
/// capabilities, each collection with set semantics (no duplicates), in
/// request order.
#[derive(Debug)]
pub struct CapabilitySet {
    pub simple: Vec<Capability>,
    pub dependent: Vec<DependentCapability>,
}

impl CapabilitySet {
    /// Set semantics: a capability appears at most once per collection.
    pub open spec fn wf(self) -> bool {
        distinct(self.simple@) && distinct(self.dependent@)
    }
}

} // verus!
