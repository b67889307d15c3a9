//! The configuration parser/validator.
//!
//! [`validate`] turns a [`Declaration`] into a validated
//! `(TargetDeclaration, CapabilitySet)` pair, or reports the first violated
//! rule as a [`Diagnostic`] tied to the offending token.  The checks run in
//! a fixed order: the subject must be a structure with exactly one unnamed
//! field; the field must carry no capability metadata of its own; its type
//! must be a fixed-size `u8` array with a literal length above 32; and the
//! attached metadata must consist of well-formed, non-empty capability
//! groups of known, unrepeated identifiers.
//!
//! The specification functions in this module ([`validate_spec`] and its
//! helpers) state the whole sequence as a mathematical fold; the executable
//! functions are proved to return exactly what the fold says.

use vstd::prelude::*;

use crate::caps::dep_of_name;
use crate::caps::resolve_dep;
use crate::caps::resolve_simple;
use crate::caps::simple_of_name;
use crate::caps::Capability;
use crate::caps::DependentCapability;
use crate::config::Attr;
use crate::config::BodyShape;
use crate::config::CapabilitySet;
use crate::config::Declaration;
use crate::config::Diagnostic;
use crate::config::ErrorKind;
use crate::config::FieldType;
use crate::config::LenShape;
use crate::config::Meta;
use crate::config::Nested;
use crate::config::TargetDeclaration;
use vstd::pervasive::unreached;

verus! {

/// The identifier a piece of metadata is introduced by, when its path is a
/// single bare identifier.
pub open spec fn meta_ident(m: Meta) -> Option<Seq<char>> {
    match m {
        Meta::Path { ident, .. } => match ident {
            Some(s) => Some(s@),
            None => None,
        },
        Meta::List { ident, .. } => match ident {
            Some(s) => Some(s@),
            None => None,
        },
        Meta::NameValue { ident, .. } => match ident {
            Some(s) => Some(s@),
            None => None,
        },
    }
}

/// The span identifier of a whole piece of metadata.
pub open spec fn meta_span(m: Meta) -> u64 {
    match m {
        Meta::Path { span, .. } => span,
        Meta::List { span, .. } => span,
        Meta::NameValue { span, .. } => span,
    }
}

/// The span identifier of a piece of metadata's introducing path.
pub open spec fn meta_path_span(m: Meta) -> u64 {
    match m {
        Meta::Path { span, .. } => span,
        Meta::List { path_span, .. } => path_span,
        Meta::NameValue { path_span, .. } => path_span,
    }
}

/// The first shape violation among a group's entries from position `i` on:
/// every entry must be a bare identifier, not a literal, a nested list, a
/// key-value pair, or a longer path.
pub open spec fn idents_ok(items: Seq<Nested>, i: int) -> Option<Diagnostic>
    decreases items.len() - i,
{
    if i < 0 || i >= items.len() {
        None
    } else {
        match items[i] {
            Nested::Lit { span } => Some(
                Diagnostic { kind: ErrorKind::MalformedAttributeShape, span },
            ),
            Nested::Meta(m) => match m {
                Meta::Path { ident, span } => match ident {
                    Some(_) => idents_ok(items, i + 1),
                    None => Some(Diagnostic { kind: ErrorKind::MalformedAttributeShape, span }),
                },
                _ => Some(
                    Diagnostic { kind: ErrorKind::MalformedAttributeShape, span: meta_span(m) },
                ),
            },
        }
    }
}

/// The identifier and span of a group entry; meaningful only for entries
/// that [`idents_ok`] accepts.
pub open spec fn ident_of(n: Nested) -> (Seq<char>, u64) {
    match n {
        Nested::Meta(m) => match m {
            Meta::Path { ident, span } => match ident {
                Some(s) => (s@, span),
                None => (Seq::<char>::empty(), span),
            },
            _ => (Seq::<char>::empty(), 0),
        },
        Nested::Lit { .. } => (Seq::<char>::empty(), 0),
    }
}

/// Resolves the entries of a `derive` group from position `i` on, adding
/// each simple capability to `caps`: an unresolved identifier or a repeat
/// stops the fold with the corresponding diagnostic at that identifier.
pub open spec fn add_simple(caps: Seq<Capability>, items: Seq<Nested>, i: int) -> Result<
    Seq<Capability>,
    Diagnostic,
>
    decreases items.len() - i,
{
    if i < 0 || i >= items.len() {
        Ok(caps)
    } else {
        let (name, span) = ident_of(items[i]);
        match simple_of_name(name) {
            None => Err(Diagnostic { kind: ErrorKind::UnknownCapability, span }),
            Some(c) => if caps.contains(c) {
                Err(Diagnostic { kind: ErrorKind::DuplicateCapability, span })
            } else {
                add_simple(caps.push(c), items, i + 1)
            },
        }
    }
}

/// As [`add_simple`], for a `derive_with_deps` group.
pub open spec fn add_dep(deps: Seq<DependentCapability>, items: Seq<Nested>, i: int) -> Result<
    Seq<DependentCapability>,
    Diagnostic,
>
    decreases items.len() - i,
{
    if i < 0 || i >= items.len() {
        Ok(deps)
    } else {
        let (name, span) = ident_of(items[i]);
        match dep_of_name(name) {
            None => Err(Diagnostic { kind: ErrorKind::UnknownCapability, span }),
            Some(c) => if deps.contains(c) {
                Err(Diagnostic { kind: ErrorKind::DuplicateCapability, span })
            } else {
                add_dep(deps.push(c), items, i + 1)
            },
        }
    }
}

/// Processes one capability group: its name must be `derive` or
/// `derive_with_deps`, it must be a parenthesized list of bare
/// identifiers, it must be non-empty, and its entries must resolve without
/// repetition.
pub open spec fn apply_group(
    simple: Seq<Capability>,
    deps: Seq<DependentCapability>,
    m: Meta,
) -> Result<(Seq<Capability>, Seq<DependentCapability>), Diagnostic> {
    let gname = meta_ident(m);
    if gname != Some("derive"@) && gname != Some("derive_with_deps"@) {
        Err(Diagnostic { kind: ErrorKind::UnknownAttribute, span: meta_path_span(m) })
    } else {
        match m {
            Meta::Path { span, .. } => Err(
                Diagnostic { kind: ErrorKind::MalformedAttributeShape, span },
            ),
            Meta::NameValue { span, .. } => Err(
                Diagnostic { kind: ErrorKind::MalformedAttributeShape, span },
            ),
            Meta::List { items, span, .. } => match idents_ok(items@, 0) {
                Some(d) => Err(d),
                None => if items@.len() == 0 {
                    Err(Diagnostic { kind: ErrorKind::EmptyAttributeList, span })
                } else if gname == Some("derive"@) {
                    match add_simple(simple, items@, 0) {
                        Ok(s2) => Ok((s2, deps)),
                        Err(e) => Err(e),
                    }
                } else {
                    match add_dep(deps, items@, 0) {
                        Ok(d2) => Ok((simple, d2)),
                        Err(e) => Err(e),
                    }
                },
            },
        }
    }
}

/// Processes the capability groups inside one metadata block from position
/// `i` on; a literal among them is a shape violation.
pub open spec fn apply_groups(
    simple: Seq<Capability>,
    deps: Seq<DependentCapability>,
    items: Seq<Nested>,
    i: int,
) -> Result<(Seq<Capability>, Seq<DependentCapability>), Diagnostic>
    decreases items.len() - i,
{
    if i < 0 || i >= items.len() {
        Ok((simple, deps))
    } else {
        match items[i] {
            Nested::Lit { span } => Err(
                Diagnostic { kind: ErrorKind::MalformedAttributeShape, span },
            ),
            Nested::Meta(m) => match apply_group(simple, deps, m) {
                Ok(p) => apply_groups(p.0, p.1, items, i + 1),
                Err(e) => Err(e),
            },
        }
    }
}

/// Scans the structure's attributes from position `i` on, folding every
/// recognized metadata block into the configuration.  A block must be a
/// non-empty parenthesized list; attributes under other names are ignored.
pub open spec fn scan_attrs(
    simple: Seq<Capability>,
    deps: Seq<DependentCapability>,
    attrs: Seq<Attr>,
    i: int,
    decl_span: u64,
) -> Result<(Seq<Capability>, Seq<DependentCapability>), Diagnostic>
    decreases attrs.len() - i,
{
    if i < 0 || i >= attrs.len() {
        Ok((simple, deps))
    } else {
        let a = attrs[i];
        if !a.outer {
            scan_attrs(simple, deps, attrs, i + 1, decl_span)
        } else {
            match a.meta {
                None => Err(
                    Diagnostic { kind: ErrorKind::MalformedAttributeShape, span: decl_span },
                ),
                Some(m) => if meta_ident(m) == Some("new_array"@) {
                    match m {
                        Meta::Path { span, .. } => Err(
                            Diagnostic { kind: ErrorKind::MalformedAttributeShape, span },
                        ),
                        Meta::NameValue { span, .. } => Err(
                            Diagnostic { kind: ErrorKind::MalformedAttributeShape, span },
                        ),
                        Meta::List { items, span, .. } => if items@.len() == 0 {
                            Err(Diagnostic { kind: ErrorKind::EmptyAttributeList, span })
                        } else {
                            match apply_groups(simple, deps, items@, 0) {
                                Ok(p) => scan_attrs(p.0, p.1, attrs, i + 1, decl_span),
                                Err(e) => Err(e),
                            }
                        },
                    }
                } else {
                    scan_attrs(simple, deps, attrs, i + 1, decl_span)
                },
            }
        }
    }
}

/// The first violation among the field's own attributes from position `i`
/// on: an unparsable attribute, or capability metadata attached to the
/// field rather than to the structure.
pub open spec fn field_metadata_diag(attrs: Seq<Attr>, i: int) -> Option<Diagnostic>
    decreases attrs.len() - i,
{
    if i < 0 || i >= attrs.len() {
        None
    } else {
        let a = attrs[i];
        if !a.outer {
            field_metadata_diag(attrs, i + 1)
        } else {
            match a.meta {
                None => Some(
                    Diagnostic { kind: ErrorKind::MalformedAttributeShape, span: a.span },
                ),
                Some(m) => if meta_ident(m) == Some("new_array"@) {
                    Some(Diagnostic { kind: ErrorKind::MisplacedMetadata, span: meta_span(m) })
                } else {
                    field_metadata_diag(attrs, i + 1)
                },
            }
        }
    }
}

/// What validation returns on `d`: the target's name and length together
/// with the requested capability sequences, or the first violated rule.
pub open spec fn validate_spec(d: Declaration) -> Result<
    (Seq<char>, int, Seq<Capability>, Seq<DependentCapability>),
    Diagnostic,
> {
    match d.body {
        BodyShape::NotStruct => Err(Diagnostic { kind: ErrorKind::NotAStruct, span: d.name_span }),
        BodyShape::StructOther => Err(
            Diagnostic { kind: ErrorKind::WrongFieldShape, span: d.name_span },
        ),
        BodyShape::StructUnnamed { fields } => if fields@.len() != 1 {
            Err(Diagnostic { kind: ErrorKind::WrongFieldShape, span: d.name_span })
        } else {
            let f = fields@[0];
            match field_metadata_diag(f.attrs@, 0) {
                Some(diag) => Err(diag),
                None => match f.ty {
                    FieldType::NotArray => Err(
                        Diagnostic { kind: ErrorKind::NotFixedArray, span: f.span },
                    ),
                    FieldType::Array { elem_is_u8, elem_span, len } => if !elem_is_u8 {
                        Err(Diagnostic { kind: ErrorKind::WrongElementType, span: elem_span })
                    } else {
                        match len {
                            LenShape::NotIntLit { span } => Err(
                                Diagnostic { kind: ErrorKind::LengthNotLiteral, span },
                            ),
                            LenShape::IntLit { value, span } => if value <= 32 {
                                Err(Diagnostic { kind: ErrorKind::LengthTooSmall, span })
                            } else {
                                match scan_attrs(
                                    Seq::<Capability>::empty(),
                                    Seq::<DependentCapability>::empty(),
                                    d.attrs@,
                                    0,
                                    d.span,
                                ) {
                                    Ok(p) => Ok((d.name@, value as int, p.0, p.1)),
                                    Err(e) => Err(e),
                                }
                            },
                        }
                    },
                },
            }
        },
    }
}

/// Whether `m` is introduced by exactly the bare identifier `lit`.
fn meta_is(m: &Meta, lit: &str) -> (r: bool)
    ensures
        r == (meta_ident(*m) == Some(lit@)),
{
    let id = match m {
        Meta::Path { ident, .. } => ident,
        Meta::List { ident, .. } => ident,
        Meta::NameValue { ident, .. } => ident,
    };
    match id {
        Some(s) => crate::caps::str_is(s, lit),
        None => false,
    }
}

/// The span identifier of a whole piece of metadata.
fn meta_span_of(m: &Meta) -> (r: u64)
    ensures
        r == meta_span(*m),
{
    match m {
        Meta::Path { span, .. } => *span,
        Meta::List { span, .. } => *span,
        Meta::NameValue { span, .. } => *span,
    }
}

/// The span identifier of a piece of metadata's introducing path.
fn meta_path_span_of(m: &Meta) -> (r: u64)
    ensures
        r == meta_path_span(*m),
{
    match m {
        Meta::Path { span, .. } => *span,
        Meta::List { path_span, .. } => *path_span,
        Meta::NameValue { path_span, .. } => *path_span,
    }
}

/// Whether `c` already stands in `v`.
fn contains_cap(v: &Vec<Capability>, c: Capability) -> (r: bool)
    ensures
        r == v@.contains(c),
{
    let mut k: usize = 0;
    while k < v.len()
        invariant
            k <= v@.len(),
            forall|t: int| 0 <= t < k ==> v@[t] != c,
        decreases v@.len() - k,
    {
        if v[k] == c {
            assert(v@[k as int] == c);
            return true;
        }
        k += 1;
    }
    false
}

/// Whether `c` already stands in `v`.
fn contains_dep(v: &Vec<DependentCapability>, c: DependentCapability) -> (r: bool)
    ensures
        r == v@.contains(c),
{
    let mut k: usize = 0;
    while k < v.len()
        invariant
            k <= v@.len(),
            forall|t: int| 0 <= t < k ==> v@[t] != c,
        decreases v@.len() - k,
    {
        if v[k] == c {
            assert(v@[k as int] == c);
            return true;
        }
        k += 1;
    }
    false
}

/// The group-shape pass of [`idents_ok`], executably.
fn check_items(items: &Vec<Nested>, i: usize) -> (r: Option<Diagnostic>)
    requires
        i <= items@.len(),
    ensures
        r == idents_ok(items@, i as int),
    decreases items@.len() - i,
{
    if i >= items.len() {
        return None;
    }
    match &items[i] {
        Nested::Lit { span } => Some(
            Diagnostic { kind: ErrorKind::MalformedAttributeShape, span: *span },
        ),
        Nested::Meta(m) => match m {
            Meta::Path { ident, span } => match ident {
                Some(_) => check_items(items, i + 1),
                None => Some(Diagnostic { kind: ErrorKind::MalformedAttributeShape, span: *span }),
            },
            _ => Some(
                Diagnostic { kind: ErrorKind::MalformedAttributeShape, span: meta_span_of(m) },
            ),
        },
    }
}

/// The resolution pass of [`add_simple`], executably.
fn push_simple(caps: Vec<Capability>, items: &Vec<Nested>, i: usize) -> (r: Result<
    Vec<Capability>,
    Diagnostic,
>)
    requires
        i <= items@.len(),
        idents_ok(items@, i as int) is None,
    ensures
        match r {
            Ok(c2) => add_simple(caps@, items@, i as int) == Ok::<_, Diagnostic>(c2@),
            Err(e) => add_simple(caps@, items@, i as int) == Err::<Seq<Capability>, _>(e),
        },
    decreases items@.len() - i,
{
    if i >= items.len() {
        return Ok(caps);
    }
    match &items[i] {
        Nested::Meta(m) => match m {
            Meta::Path { ident: Some(s), span } => match resolve_simple(s) {
                None => Err(Diagnostic { kind: ErrorKind::UnknownCapability, span: *span }),
                Some(c) => if contains_cap(&caps, c) {
                    Err(Diagnostic { kind: ErrorKind::DuplicateCapability, span: *span })
                } else {
                    let mut caps2 = caps;
                    caps2.push(c);
                    push_simple(caps2, items, i + 1)
                },
            },
            _ => unreached(),
        },
        Nested::Lit { .. } => unreached(),
    }
}

/// The resolution pass of [`add_dep`], executably.
fn push_dep(deps: Vec<DependentCapability>, items: &Vec<Nested>, i: usize) -> (r: Result<
    Vec<DependentCapability>,
    Diagnostic,
>)
    requires
        i <= items@.len(),
        idents_ok(items@, i as int) is None,
    ensures
        match r {
            Ok(d2) => add_dep(deps@, items@, i as int) == Ok::<_, Diagnostic>(d2@),
            Err(e) => add_dep(deps@, items@, i as int) == Err::<Seq<DependentCapability>, _>(e),
        },
    decreases items@.len() - i,
{
    if i >= items.len() {
        return Ok(deps);
    }
    match &items[i] {
        Nested::Meta(m) => match m {
            Meta::Path { ident: Some(s), span } => match resolve_dep(s) {
                None => Err(Diagnostic { kind: ErrorKind::UnknownCapability, span: *span }),
                Some(c) => if contains_dep(&deps, c) {
                    Err(Diagnostic { kind: ErrorKind::DuplicateCapability, span: *span })
                } else {
                    let mut deps2 = deps;
                    deps2.push(c);
                    push_dep(deps2, items, i + 1)
                },
            },
            _ => unreached(),
        },
        Nested::Lit { .. } => unreached(),
    }
}

/// One capability group, executably; mirrors [`apply_group`].
fn apply_group_caps(simple: Vec<Capability>, deps: Vec<DependentCapability>, m: &Meta) -> (r:
    Result<(Vec<Capability>, Vec<DependentCapability>), Diagnostic>)
    ensures
        match r {
            Ok(p) => apply_group(simple@, deps@, *m) == Ok::<_, Diagnostic>((p.0@, p.1@)),
            Err(e) => apply_group(simple@, deps@, *m) == Err::<
                (Seq<Capability>, Seq<DependentCapability>),
                _,
            >(e),
        },
{
    let is_derive = meta_is(m, "derive");
    let is_dwd = meta_is(m, "derive_with_deps");
    if !is_derive && !is_dwd {
        return Err(
            Diagnostic { kind: ErrorKind::UnknownAttribute, span: meta_path_span_of(m) },
        );
    }
    match m {
        Meta::Path { span, .. } => Err(
            Diagnostic { kind: ErrorKind::MalformedAttributeShape, span: *span },
        ),
        Meta::NameValue { span, .. } => Err(
            Diagnostic { kind: ErrorKind::MalformedAttributeShape, span: *span },
        ),
        Meta::List { items, span, .. } => match check_items(items, 0) {
            Some(d) => Err(d),
            None => if items.len() == 0 {
                Err(Diagnostic { kind: ErrorKind::EmptyAttributeList, span: *span })
            } else if is_derive {
                match push_simple(simple, items, 0) {
                    Ok(s2) => Ok((s2, deps)),
                    Err(e) => Err(e),
                }
            } else {
                match push_dep(deps, items, 0) {
                    Ok(d2) => Ok((simple, d2)),
                    Err(e) => Err(e),
                }
            },
        },
    }
}

/// The groups of one metadata block, executably; mirrors [`apply_groups`].
fn apply_groups_caps(
    simple: Vec<Capability>,
    deps: Vec<DependentCapability>,
    items: &Vec<Nested>,
    i: usize,
) -> (r: Result<(Vec<Capability>, Vec<DependentCapability>), Diagnostic>)
    requires
        i <= items@.len(),
    ensures
        match r {
            Ok(p) => apply_groups(simple@, deps@, items@, i as int) == Ok::<_, Diagnostic>(
                (p.0@, p.1@),
            ),
            Err(e) => apply_groups(simple@, deps@, items@, i as int) == Err::<
                (Seq<Capability>, Seq<DependentCapability>),
                _,
            >(e),
        },
    decreases items@.len() - i,
{
    if i >= items.len() {
        return Ok((simple, deps));
    }
    match &items[i] {
        Nested::Lit { span } => Err(
            Diagnostic { kind: ErrorKind::MalformedAttributeShape, span: *span },
        ),
        Nested::Meta(m) => match apply_group_caps(simple, deps, m) {
            Ok(p) => apply_groups_caps(p.0, p.1, items, i + 1),
            Err(e) => Err(e),
        },
    }
}

/// The structure's attribute scan, executably; mirrors [`scan_attrs`].
fn scan_attrs_caps(
    simple: Vec<Capability>,
    deps: Vec<DependentCapability>,
    attrs: &Vec<Attr>,
    i: usize,
    decl_span: u64,
) -> (r: Result<(Vec<Capability>, Vec<DependentCapability>), Diagnostic>)
    requires
        i <= attrs@.len(),
    ensures
        match r {
            Ok(p) => scan_attrs(simple@, deps@, attrs@, i as int, decl_span) == Ok::<
                _,
                Diagnostic,
            >((p.0@, p.1@)),
            Err(e) => scan_attrs(simple@, deps@, attrs@, i as int, decl_span) == Err::<
                (Seq<Capability>, Seq<DependentCapability>),
                _,
            >(e),
        },
    decreases attrs@.len() - i,
{
    if i >= attrs.len() {
        return Ok((simple, deps));
    }
    let a = &attrs[i];
    if !a.outer {
        return scan_attrs_caps(simple, deps, attrs, i + 1, decl_span);
    }
    match &a.meta {
        None => Err(Diagnostic { kind: ErrorKind::MalformedAttributeShape, span: decl_span }),
        Some(m) => if meta_is(m, "new_array") {
            match m {
                Meta::Path { span, .. } => Err(
                    Diagnostic { kind: ErrorKind::MalformedAttributeShape, span: *span },
                ),
                Meta::NameValue { span, .. } => Err(
                    Diagnostic { kind: ErrorKind::MalformedAttributeShape, span: *span },
                ),
                Meta::List { items, span, .. } => if items.len() == 0 {
                    Err(Diagnostic { kind: ErrorKind::EmptyAttributeList, span: *span })
                } else {
                    match apply_groups_caps(simple, deps, items, 0) {
                        Ok(p) => scan_attrs_caps(p.0, p.1, attrs, i + 1, decl_span),
                        Err(e) => Err(e),
                    }
                },
            }
        } else {
            scan_attrs_caps(simple, deps, attrs, i + 1, decl_span)
        },
    }
}

/// The field's own attribute check, executably; mirrors
/// [`field_metadata_diag`].
fn field_attrs_scan(attrs: &Vec<Attr>, i: usize) -> (r: Option<Diagnostic>)
    requires
        i <= attrs@.len(),
    ensures
        r == field_metadata_diag(attrs@, i as int),
    decreases attrs@.len() - i,
{
    if i >= attrs.len() {
        return None;
    }
    let a = &attrs[i];
    if !a.outer {
        return field_attrs_scan(attrs, i + 1);
    }
    match &a.meta {
        None => Some(Diagnostic { kind: ErrorKind::MalformedAttributeShape, span: a.span }),
        Some(m) => if meta_is(m, "new_array") {
            Some(Diagnostic { kind: ErrorKind::MisplacedMetadata, span: meta_span_of(m) })
        } else {
            field_attrs_scan(attrs, i + 1)
        },
    }
}

/// Validates a declaration into the target and its capability set, or the
/// first violated rule as a diagnostic.  The result is exactly what
/// [`validate_spec`] states; on success the target's length exceeds the
/// threshold and each capability collection is duplicate-free.
pub fn validate(d: &Declaration) -> (r: Result<(TargetDeclaration, CapabilitySet), Diagnostic>)
    ensures
        match r {
            Ok(p) => validate_spec(*d) == Ok::<_, Diagnostic>(
                (p.0.name@, p.0.length as int, p.1.simple@, p.1.dependent@),
            ),
            Err(e) => validate_spec(*d) == Err::<
                (Seq<char>, int, Seq<Capability>, Seq<DependentCapability>),
                _,
            >(e),
        },
        match r {
            Ok(p) => p.0.wf() && p.1.wf(),
            Err(_) => true,
        },
{
    let fields = match &d.body {
        BodyShape::NotStruct => {
            return Err(Diagnostic { kind: ErrorKind::NotAStruct, span: d.name_span });
        },
        BodyShape::StructOther => {
            return Err(Diagnostic { kind: ErrorKind::WrongFieldShape, span: d.name_span });
        },
        BodyShape::StructUnnamed { fields } => fields,
    };
    if fields.len() != 1 {
        return Err(Diagnostic { kind: ErrorKind::WrongFieldShape, span: d.name_span });
    }
    let f = &fields[0];
    if let Some(diag) = field_attrs_scan(&f.attrs, 0) {
        return Err(diag);
    }
    let (elem_is_u8, elem_span, len) = match &f.ty {
        FieldType::NotArray => {
            return Err(Diagnostic { kind: ErrorKind::NotFixedArray, span: f.span });
        },
        FieldType::Array { elem_is_u8, elem_span, len } => (*elem_is_u8, *elem_span, len),
    };
    if !elem_is_u8 {
        return Err(Diagnostic { kind: ErrorKind::WrongElementType, span: elem_span });
    }
    let (value, _len_span) = match len {
        LenShape::NotIntLit { span } => {
            return Err(Diagnostic { kind: ErrorKind::LengthNotLiteral, span: *span });
        },
        LenShape::IntLit { value, span } => {
            if *value <= 32 {
                return Err(Diagnostic { kind: ErrorKind::LengthTooSmall, span: *span });
            }
            (*value, *span)
        },
    };
    match scan_attrs_caps(Vec::new(), Vec::new(), &d.attrs, 0, d.span) {
        Ok(p) => {
            proof {
                crate::laws::lemma_scan_distinct(
                    Seq::<Capability>::empty(),
                    Seq::<DependentCapability>::empty(),
                    d.attrs@,
                    0,
                    d.span,
                );
            }
            Ok(
                (
                    TargetDeclaration { name: d.name.clone(), length: value },
                    CapabilitySet { simple: p.0, dependent: p.1 },
                ),
            )
        },
        Err(e) => Err(e),
    }
}

} // verus!
