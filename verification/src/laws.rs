//! Laws of the validator, proved against [`validate_spec`].
//!
//! The public lemmas at the end of this module state, for every
//! declaration: a well-shaped request with distinct, known capability
//! names is accepted with exactly the requested capabilities, in request
//! order, each exactly once; a length at or below the threshold is
//! rejected as too small whatever was requested; a repeated capability,
//! within one group or across groups of the same kind, is rejected as a
//! duplicate; and an identifier outside the closed enumeration is rejected
//! as unknown, at the identifier's own token.

use vstd::prelude::*;

use crate::caps::dep_of_name;
use crate::caps::simple_of_name;
use crate::caps::Capability;
use crate::caps::DependentCapability;
use crate::config::distinct;
use crate::config::Attr;
use crate::config::BodyShape;
use crate::config::Declaration;
use crate::config::Diagnostic;
use crate::config::ErrorKind;
use crate::config::FieldType;
use crate::config::LenShape;
use crate::config::Meta;
use crate::config::Nested;
use crate::validate::add_dep;
use crate::validate::add_simple;
use crate::validate::apply_group;
use crate::validate::apply_groups;
use crate::validate::field_metadata_diag;
use crate::validate::idents_ok;
use crate::validate::ident_of;
use crate::validate::meta_ident;
use crate::validate::scan_attrs;
use crate::validate::validate_spec;

verus! {

/// A group entry that is a bare identifier.
pub open spec fn is_bare_ident(n: Nested) -> bool {
    match n {
        Nested::Meta(m) => match m {
            Meta::Path { ident, .. } => ident is Some,
            _ => false,
        },
        Nested::Lit { .. } => false,
    }
}

/// Every entry from position `i` on is a bare identifier.
pub open spec fn all_bare(items: Seq<Nested>, i: int) -> bool {
    forall|k: int| i <= k < items.len() ==> is_bare_ident(#[trigger] items[k])
}

/// The simple capability an entry resolves to.
pub open spec fn cap_at(items: Seq<Nested>, k: int) -> Capability {
    simple_of_name(ident_of(items[k]).0)->Some_0
}

/// The dependent capability an entry resolves to.
pub open spec fn dep_at(items: Seq<Nested>, k: int) -> DependentCapability {
    dep_of_name(ident_of(items[k]).0)->Some_0
}

/// The simple capabilities of the entries in `[i, j)`, in order.
pub open spec fn caps_from(items: Seq<Nested>, i: int, j: int) -> Seq<Capability> {
    Seq::new((j - i) as nat, |k: int| cap_at(items, i + k))
}

/// The dependent capabilities of the entries in `[i, j)`, in order.
pub open spec fn deps_from(items: Seq<Nested>, i: int, j: int) -> Seq<DependentCapability> {
    Seq::new((j - i) as nat, |k: int| dep_at(items, i + k))
}

/// Every entry from position `i` on resolves to a simple capability.
pub open spec fn simple_known(items: Seq<Nested>, i: int) -> bool {
    forall|k: int| i <= k < items.len() ==> simple_of_name(ident_of(#[trigger] items[k]).0) is Some
}

/// Every entry from position `i` on resolves to a dependent capability.
pub open spec fn dep_known(items: Seq<Nested>, i: int) -> bool {
    forall|k: int| i <= k < items.len() ==> dep_of_name(ident_of(#[trigger] items[k]).0) is Some
}

/// The entries of a group (empty for non-list metadata).
pub open spec fn group_items(m: Meta) -> Seq<Nested> {
    match m {
        Meta::List { items, .. } => items@,
        _ => Seq::<Nested>::empty(),
    }
}

/// A group that requests simple capabilities.
pub open spec fn group_is_simple(m: Meta) -> bool {
    meta_ident(m) == Some("derive"@)
}

/// A well-shaped group: a recognized name introducing a non-empty
/// parenthesized list of bare identifiers.
pub open spec fn group_shape_ok(m: Meta) -> bool {
    &&& (meta_ident(m) == Some("derive"@) || meta_ident(m) == Some("derive_with_deps"@))
    &&& m is List
    &&& group_items(m).len() > 0
    &&& all_bare(group_items(m), 0)
}

/// Every identifier of the group resolves in its enumeration.
pub open spec fn group_known(m: Meta) -> bool {
    if group_is_simple(m) {
        simple_known(group_items(m), 0)
    } else {
        dep_known(group_items(m), 0)
    }
}

/// The simple capabilities one group requests.
pub open spec fn group_simple_caps(m: Meta) -> Seq<Capability> {
    if group_is_simple(m) {
        caps_from(group_items(m), 0, group_items(m).len() as int)
    } else {
        Seq::<Capability>::empty()
    }
}

/// The dependent capabilities one group requests.
pub open spec fn group_dep_caps(m: Meta) -> Seq<DependentCapability> {
    if group_is_simple(m) {
        Seq::<DependentCapability>::empty()
    } else {
        deps_from(group_items(m), 0, group_items(m).len() as int)
    }
}

/// A block entry that is a well-shaped group of known identifiers.
pub open spec fn group_entry_ok(n: Nested) -> bool {
    match n {
        Nested::Meta(m) => group_shape_ok(m) && group_known(m),
        Nested::Lit { .. } => false,
    }
}

/// Every block entry from position `i` on is a well-shaped group of known
/// identifiers.
pub open spec fn block_groups_ok(items: Seq<Nested>, i: int) -> bool {
    forall|k: int| i <= k < items.len() ==> group_entry_ok(#[trigger] items[k])
}

/// The simple capabilities a block's entries request from position `i` on.
pub open spec fn block_simple_caps(items: Seq<Nested>, i: int) -> Seq<Capability>
    decreases items.len() - i,
{
    if i < 0 || i >= items.len() {
        Seq::<Capability>::empty()
    } else {
        (match items[i] {
            Nested::Meta(m) => group_simple_caps(m),
            Nested::Lit { .. } => Seq::<Capability>::empty(),
        }) + block_simple_caps(items, i + 1)
    }
}

/// The dependent capabilities a block's entries request from position `i`
/// on.
pub open spec fn block_dep_caps(items: Seq<Nested>, i: int) -> Seq<DependentCapability>
    decreases items.len() - i,
{
    if i < 0 || i >= items.len() {
        Seq::<DependentCapability>::empty()
    } else {
        (match items[i] {
            Nested::Meta(m) => group_dep_caps(m),
            Nested::Lit { .. } => Seq::<DependentCapability>::empty(),
        }) + block_dep_caps(items, i + 1)
    }
}

/// An attribute the scan accepts: skipped entirely, parsed metadata under
/// another name, or a recognized block that is a non-empty list of
/// well-shaped groups with known identifiers.
pub open spec fn attr_benign(a: Attr) -> bool {
    !a.outer || (a.meta is Some && {
        let m = a.meta->0;
        meta_ident(m) != Some("new_array"@) || (m is List && group_items(m).len() > 0
            && block_groups_ok(group_items(m), 0))
    })
}

/// Every attribute from position `i` on is benign.
pub open spec fn attrs_benign(attrs: Seq<Attr>, i: int) -> bool {
    forall|k: int| i <= k < attrs.len() ==> attr_benign(#[trigger] attrs[k])
}

/// The simple capabilities one attribute requests.
pub open spec fn attr_simple_caps(a: Attr) -> Seq<Capability> {
    if a.outer && a.meta is Some && meta_ident(a.meta->0) == Some("new_array"@) {
        block_simple_caps(group_items(a.meta->0), 0)
    } else {
        Seq::<Capability>::empty()
    }
}

/// The dependent capabilities one attribute requests.
pub open spec fn attr_dep_caps(a: Attr) -> Seq<DependentCapability> {
    if a.outer && a.meta is Some && meta_ident(a.meta->0) == Some("new_array"@) {
        block_dep_caps(group_items(a.meta->0), 0)
    } else {
        Seq::<DependentCapability>::empty()
    }
}

/// The simple capabilities the attributes request from position `i` on.
pub open spec fn attrs_simple_caps(attrs: Seq<Attr>, i: int) -> Seq<Capability>
    decreases attrs.len() - i,
{
    if i < 0 || i >= attrs.len() {
        Seq::<Capability>::empty()
    } else {
        attr_simple_caps(attrs[i]) + attrs_simple_caps(attrs, i + 1)
    }
}

/// The dependent capabilities the attributes request from position `i` on.
pub open spec fn attrs_dep_caps(attrs: Seq<Attr>, i: int) -> Seq<DependentCapability>
    decreases attrs.len() - i,
{
    if i < 0 || i >= attrs.len() {
        Seq::<DependentCapability>::empty()
    } else {
        attr_dep_caps(attrs[i]) + attrs_dep_caps(attrs, i + 1)
    }
}

/// A field attribute list that carries no capability metadata and nothing
/// unparsable.
pub open spec fn field_attrs_clean(attrs: Seq<Attr>) -> bool {
    forall|k: int|
        0 <= k < attrs.len() ==> (!(#[trigger] attrs[k]).outer || (attrs[k].meta is Some
            && meta_ident(attrs[k].meta->0) != Some("new_array"@)))
}

/// A declaration that is a structure with exactly one unnamed field of
/// fixed-size `u8`-array type with a literal length, the field free of
/// capability metadata.
pub open spec fn decl_shape_ok(d: Declaration) -> bool {
    match d.body {
        BodyShape::StructUnnamed { fields } => fields@.len() == 1 && {
            let f = fields@[0];
            field_attrs_clean(f.attrs@) && match f.ty {
                FieldType::Array { elem_is_u8, len, .. } => elem_is_u8 && len is IntLit,
                FieldType::NotArray => false,
            }
        },
        _ => false,
    }
}

/// The literal array length of a shape-correct declaration.
pub open spec fn declared_length(d: Declaration) -> int {
    match d.body {
        BodyShape::StructUnnamed { fields } => match fields@[0].ty {
            FieldType::Array { len, .. } => match len {
                LenShape::IntLit { value, .. } => value as int,
                LenShape::NotIntLit { .. } => 0,
            },
            FieldType::NotArray => 0,
        },
        _ => 0,
    }
}

/// A sequence with a repeat keeps it under extension on the right.
proof fn lemma_not_distinct_extends<T>(a: Seq<T>, b: Seq<T>)
    requires
        !distinct(a),
    ensures
        !distinct(a + b),
{
    let (x, y): (int, int) = choose|x: int, y: int| 0 <= x < y < a.len() && a[x] == a[y];
    assert((a + b)[x] == a[x]);
    assert((a + b)[y] == a[y]);
}

/// Bare identifiers pass the shape pass.
proof fn lemma_idents_ok_of_bare(items: Seq<Nested>, i: int)
    requires
        0 <= i <= items.len(),
        all_bare(items, i),
    ensures
        idents_ok(items, i) is None,
    decreases items.len() - i,
{
    if i < items.len() {
        lemma_idents_ok_of_bare(items, i + 1);
    }
}

/// A clean field attribute list passes the field check.
proof fn lemma_field_clean(attrs: Seq<Attr>, i: int)
    requires
        0 <= i <= attrs.len(),
        field_attrs_clean(attrs),
    ensures
        field_metadata_diag(attrs, i) is None,
    decreases attrs.len() - i,
{
    if i < attrs.len() {
        lemma_field_clean(attrs, i + 1);
    }
}

/// Resolving a `derive` group whose identifiers are all bare and known
/// either appends exactly the requested capabilities, keeping the whole
/// collection duplicate-free, or stops on a repeat with a duplicate
/// diagnostic.
proof fn lemma_add_simple_dichotomy(caps: Seq<Capability>, items: Seq<Nested>, i: int)
    requires
        0 <= i <= items.len(),
        all_bare(items, i),
        simple_known(items, i),
        distinct(caps),
    ensures
        match add_simple(caps, items, i) {
            Ok(r) => r == caps + caps_from(items, i, items.len() as int) && distinct(r),
            Err(e) => e.kind == ErrorKind::DuplicateCapability && !distinct(
                caps + caps_from(items, i, items.len() as int),
            ),
        },
    decreases items.len() - i,
{
    let full = caps + caps_from(items, i, items.len() as int);
    if i >= items.len() {
        assert(full =~= caps);
    } else {
        let c = cap_at(items, i);
        assert(full[caps.len() as int] == c);
        if caps.contains(c) {
            let j: int = choose|j: int| 0 <= j < caps.len() && caps[j] == c;
            assert(full[j] == c);
            assert(!distinct(full));
        } else {
            assert(distinct(caps.push(c)));
            lemma_add_simple_dichotomy(caps.push(c), items, i + 1);
            assert(caps.push(c) + caps_from(items, i + 1, items.len() as int) =~= full);
        }
    }
}

/// As [`lemma_add_simple_dichotomy`], for a `derive_with_deps` group.
proof fn lemma_add_dep_dichotomy(deps: Seq<DependentCapability>, items: Seq<Nested>, i: int)
    requires
        0 <= i <= items.len(),
        all_bare(items, i),
        dep_known(items, i),
        distinct(deps),
    ensures
        match add_dep(deps, items, i) {
            Ok(r) => r == deps + deps_from(items, i, items.len() as int) && distinct(r),
            Err(e) => e.kind == ErrorKind::DuplicateCapability && !distinct(
                deps + deps_from(items, i, items.len() as int),
            ),
        },
    decreases items.len() - i,
{
    let full = deps + deps_from(items, i, items.len() as int);
    if i >= items.len() {
        assert(full =~= deps);
    } else {
        let c = dep_at(items, i);
        assert(full[deps.len() as int] == c);
        if deps.contains(c) {
            let j: int = choose|j: int| 0 <= j < deps.len() && deps[j] == c;
            assert(full[j] == c);
            assert(!distinct(full));
        } else {
            assert(distinct(deps.push(c)));
            lemma_add_dep_dichotomy(deps.push(c), items, i + 1);
            assert(deps.push(c) + deps_from(items, i + 1, items.len() as int) =~= full);
        }
    }
}

/// A well-shaped group of known identifiers either extends the
/// configuration by exactly what it requests, or stops on a repeat with a
/// duplicate diagnostic.
proof fn lemma_group_dichotomy(simple: Seq<Capability>, deps: Seq<DependentCapability>, m: Meta)
    requires
        group_shape_ok(m),
        group_known(m),
        distinct(simple),
        distinct(deps),
    ensures
        match apply_group(simple, deps, m) {
            Ok(p) => p.0 == simple + group_simple_caps(m) && p.1 == deps + group_dep_caps(m)
                && distinct(p.0) && distinct(p.1),
            Err(e) => e.kind == ErrorKind::DuplicateCapability && (!distinct(
                simple + group_simple_caps(m),
            ) || !distinct(deps + group_dep_caps(m))),
        },
{
    let items = group_items(m);
    lemma_idents_ok_of_bare(items, 0);
    if group_is_simple(m) {
        lemma_add_simple_dichotomy(simple, items, 0);
        assert(deps + group_dep_caps(m) =~= deps);
    } else {
        lemma_add_dep_dichotomy(deps, items, 0);
        assert(simple + group_simple_caps(m) =~= simple);
    }
}

/// A block of well-shaped groups with known identifiers either extends the
/// configuration by exactly what its groups request, in order, or stops on
/// a repeat with a duplicate diagnostic.
proof fn lemma_block_dichotomy(
    simple: Seq<Capability>,
    deps: Seq<DependentCapability>,
    items: Seq<Nested>,
    i: int,
)
    requires
        0 <= i <= items.len(),
        block_groups_ok(items, i),
        distinct(simple),
        distinct(deps),
    ensures
        match apply_groups(simple, deps, items, i) {
            Ok(p) => p.0 == simple + block_simple_caps(items, i) && p.1 == deps + block_dep_caps(
                items,
                i,
            ) && distinct(p.0) && distinct(p.1),
            Err(e) => e.kind == ErrorKind::DuplicateCapability && (!distinct(
                simple + block_simple_caps(items, i),
            ) || !distinct(deps + block_dep_caps(items, i))),
        },
    decreases items.len() - i,
{
    let full_s = simple + block_simple_caps(items, i);
    let full_d = deps + block_dep_caps(items, i);
    if i >= items.len() {
        assert(full_s =~= simple);
        assert(full_d =~= deps);
    } else {
        let m = items[i]->Meta_0;
        lemma_group_dichotomy(simple, deps, m);
        match apply_group(simple, deps, m) {
            Ok(p) => {
                lemma_block_dichotomy(p.0, p.1, items, i + 1);
                assert((simple + group_simple_caps(m)) + block_simple_caps(items, i + 1)
                    =~= full_s);
                assert((deps + group_dep_caps(m)) + block_dep_caps(items, i + 1) =~= full_d);
                match apply_groups(p.0, p.1, items, i + 1) {
                    Ok(_) => {
                    },
                    Err(_) => {
                    },
                }
            },
            Err(_) => {
                if !distinct(simple + group_simple_caps(m)) {
                    lemma_not_distinct_extends(
                        simple + group_simple_caps(m),
                        block_simple_caps(items, i + 1),
                    );
                    assert((simple + group_simple_caps(m)) + block_simple_caps(items, i + 1)
                        =~= full_s);
                } else {
                    lemma_not_distinct_extends(
                        deps + group_dep_caps(m),
                        block_dep_caps(items, i + 1),
                    );
                    assert((deps + group_dep_caps(m)) + block_dep_caps(items, i + 1) =~= full_d);
                }
            },
        }
    }
}

/// Scanning benign attributes either collects exactly the requested
/// capabilities of every recognized block, in order, or stops on a repeat
/// with a duplicate diagnostic.
proof fn lemma_scan_dichotomy(
    simple: Seq<Capability>,
    deps: Seq<DependentCapability>,
    attrs: Seq<Attr>,
    i: int,
    decl_span: u64,
)
    requires
        0 <= i <= attrs.len(),
        attrs_benign(attrs, i),
        distinct(simple),
        distinct(deps),
    ensures
        match scan_attrs(simple, deps, attrs, i, decl_span) {
            Ok(p) => p.0 == simple + attrs_simple_caps(attrs, i) && p.1 == deps + attrs_dep_caps(
                attrs,
                i,
            ) && distinct(p.0) && distinct(p.1),
            Err(e) => e.kind == ErrorKind::DuplicateCapability && (!distinct(
                simple + attrs_simple_caps(attrs, i),
            ) || !distinct(deps + attrs_dep_caps(attrs, i))),
        },
    decreases attrs.len() - i,
{
    let full_s = simple + attrs_simple_caps(attrs, i);
    let full_d = deps + attrs_dep_caps(attrs, i);
    if i >= attrs.len() {
        assert(full_s =~= simple);
        assert(full_d =~= deps);
    } else {
        let a = attrs[i];
        if a.outer && a.meta is Some && meta_ident(a.meta->0) == Some("new_array"@) {
            let m = a.meta->0;
            lemma_block_dichotomy(simple, deps, group_items(m), 0);
            match apply_groups(simple, deps, group_items(m), 0) {
                Ok(p) => {
                    lemma_scan_dichotomy(p.0, p.1, attrs, i + 1, decl_span);
                    assert((simple + block_simple_caps(group_items(m), 0)) + attrs_simple_caps(
                        attrs,
                        i + 1,
                    ) =~= full_s);
                    assert((deps + block_dep_caps(group_items(m), 0)) + attrs_dep_caps(
                        attrs,
                        i + 1,
                    ) =~= full_d);
                },
                Err(_) => {
                    if !distinct(simple + block_simple_caps(group_items(m), 0)) {
                        lemma_not_distinct_extends(
                            simple + block_simple_caps(group_items(m), 0),
                            attrs_simple_caps(attrs, i + 1),
                        );
                        assert((simple + block_simple_caps(group_items(m), 0))
                            + attrs_simple_caps(attrs, i + 1) =~= full_s);
                    } else {
                        lemma_not_distinct_extends(
                            deps + block_dep_caps(group_items(m), 0),
                            attrs_dep_caps(attrs, i + 1),
                        );
                        assert((deps + block_dep_caps(group_items(m), 0)) + attrs_dep_caps(
                            attrs,
                            i + 1,
                        ) =~= full_d);
                    }
                },
            }
        } else {
            lemma_scan_dichotomy(simple, deps, attrs, i + 1, decl_span);
            assert(attrs_simple_caps(attrs, i) =~= attrs_simple_caps(attrs, i + 1));
            assert(attrs_dep_caps(attrs, i) =~= attrs_dep_caps(attrs, i + 1));
        }
    }
}

/// Whatever the input, a `derive` group can only extend a duplicate-free
/// collection into a duplicate-free collection.
pub proof fn lemma_add_simple_distinct(caps: Seq<Capability>, items: Seq<Nested>, i: int)
    requires
        0 <= i <= items.len(),
        distinct(caps),
    ensures
        add_simple(caps, items, i) is Ok ==> distinct(add_simple(caps, items, i)->Ok_0),
    decreases items.len() - i,
{
    if i < items.len() {
        let (name, _) = ident_of(items[i]);
        match simple_of_name(name) {
            Some(c) => {
                if !caps.contains(c) {
                    assert(distinct(caps.push(c)));
                    lemma_add_simple_distinct(caps.push(c), items, i + 1);
                }
            },
            None => {
            },
        }
    }
}

/// As [`lemma_add_simple_distinct`], for a `derive_with_deps` group.
pub proof fn lemma_add_dep_distinct(deps: Seq<DependentCapability>, items: Seq<Nested>, i: int)
    requires
        0 <= i <= items.len(),
        distinct(deps),
    ensures
        add_dep(deps, items, i) is Ok ==> distinct(add_dep(deps, items, i)->Ok_0),
    decreases items.len() - i,
{
    if i < items.len() {
        let (name, _) = ident_of(items[i]);
        match dep_of_name(name) {
            Some(c) => {
                if !deps.contains(c) {
                    assert(distinct(deps.push(c)));
                    lemma_add_dep_distinct(deps.push(c), items, i + 1);
                }
            },
            None => {
            },
        }
    }
}

/// Whatever the input, one group keeps both collections duplicate-free.
proof fn lemma_group_distinct(simple: Seq<Capability>, deps: Seq<DependentCapability>, m: Meta)
    requires
        distinct(simple),
        distinct(deps),
    ensures
        apply_group(simple, deps, m) is Ok ==> distinct(apply_group(simple, deps, m)->Ok_0.0)
            && distinct(apply_group(simple, deps, m)->Ok_0.1),
{
    match m {
        Meta::List { items, .. } => {
            lemma_add_simple_distinct(simple, items@, 0);
            lemma_add_dep_distinct(deps, items@, 0);
        },
        _ => {
        },
    }
}

/// Whatever the input, a block of groups keeps both collections
/// duplicate-free.
proof fn lemma_block_distinct(
    simple: Seq<Capability>,
    deps: Seq<DependentCapability>,
    items: Seq<Nested>,
    i: int,
)
    requires
        0 <= i <= items.len(),
        distinct(simple),
        distinct(deps),
    ensures
        apply_groups(simple, deps, items, i) is Ok ==> distinct(
            apply_groups(simple, deps, items, i)->Ok_0.0,
        ) && distinct(apply_groups(simple, deps, items, i)->Ok_0.1),
    decreases items.len() - i,
{
    if i < items.len() {
        match items[i] {
            Nested::Meta(m) => {
                lemma_group_distinct(simple, deps, m);
                match apply_group(simple, deps, m) {
                    Ok(p) => {
                        lemma_block_distinct(p.0, p.1, items, i + 1);
                    },
                    Err(_) => {
                    },
                }
            },
            Nested::Lit { .. } => {
            },
        }
    }
}

/// Whatever the input, the attribute scan can only return duplicate-free
/// collections: every insertion checks for a repeat first.
pub proof fn lemma_scan_distinct(
    simple: Seq<Capability>,
    deps: Seq<DependentCapability>,
    attrs: Seq<Attr>,
    i: int,
    decl_span: u64,
)
    requires
        0 <= i <= attrs.len(),
        distinct(simple),
        distinct(deps),
    ensures
        scan_attrs(simple, deps, attrs, i, decl_span) is Ok ==> distinct(
            scan_attrs(simple, deps, attrs, i, decl_span)->Ok_0.0,
        ) && distinct(scan_attrs(simple, deps, attrs, i, decl_span)->Ok_0.1),
    decreases attrs.len() - i,
{
    if i < attrs.len() {
        let a = attrs[i];
        if !a.outer {
            lemma_scan_distinct(simple, deps, attrs, i + 1, decl_span);
        } else {
            match a.meta {
                None => {
                },
                Some(m) => if meta_ident(m) == Some("new_array"@) {
                    match m {
                        Meta::List { items, .. } => if items@.len() > 0 {
                            lemma_block_distinct(simple, deps, items@, 0);
                            match apply_groups(simple, deps, items@, 0) {
                                Ok(p) => {
                                    lemma_scan_distinct(p.0, p.1, attrs, i + 1, decl_span);
                                },
                                Err(_) => {
                                },
                            }
                        },
                        _ => {
                        },
                    }
                } else {
                    lemma_scan_distinct(simple, deps, attrs, i + 1, decl_span);
                },
            }
        }
    }
}

/// A valid request is accepted with exactly what it asked for: for every
/// declaration of the right shape whose length exceeds 32 and whose
/// attributes are benign blocks of well-shaped groups with known,
/// unrepeated identifiers, validation succeeds, keeps the declared name
/// and length, and returns precisely the requested capabilities of each
/// kind, in request order, each exactly once — however they were spread
/// across groups and blocks.
pub proof fn lemma_valid_request_accepted(d: Declaration)
    requires
        decl_shape_ok(d),
        declared_length(d) > 32,
        attrs_benign(d.attrs@, 0),
        distinct(attrs_simple_caps(d.attrs@, 0)),
        distinct(attrs_dep_caps(d.attrs@, 0)),
    ensures
        validate_spec(d) is Ok,
        validate_spec(d)->Ok_0.0 == d.name@,
        validate_spec(d)->Ok_0.1 == declared_length(d),
        validate_spec(d)->Ok_0.2 == attrs_simple_caps(d.attrs@, 0),
        validate_spec(d)->Ok_0.3 == attrs_dep_caps(d.attrs@, 0),
{
    let fields = d.body->StructUnnamed_fields;
    lemma_field_clean(fields@[0].attrs@, 0);
    lemma_scan_dichotomy(
        Seq::<Capability>::empty(),
        Seq::<DependentCapability>::empty(),
        d.attrs@,
        0,
        d.span,
    );
    assert(Seq::<Capability>::empty() + attrs_simple_caps(d.attrs@, 0) =~= attrs_simple_caps(
        d.attrs@,
        0,
    ));
    assert(Seq::<DependentCapability>::empty() + attrs_dep_caps(d.attrs@, 0) =~= attrs_dep_caps(
        d.attrs@,
        0,
    ));
}

/// A length at or below 32 is rejected as too small, whatever was
/// requested: the structure's shape is in order, so the length rule is the
/// first one violated.
pub proof fn lemma_undersized_length_rejected(d: Declaration)
    requires
        decl_shape_ok(d),
        declared_length(d) <= 32,
    ensures
        validate_spec(d) is Err,
        validate_spec(d)->Err_0.kind == ErrorKind::LengthTooSmall,
{
    let fields = d.body->StructUnnamed_fields;
    lemma_field_clean(fields@[0].attrs@, 0);
}

/// A repeated capability is rejected as a duplicate: with everything else
/// in order — shape, length, group forms, known identifiers — a repeat of
/// a simple or a dependent capability, within one group or across groups
/// of the same kind, makes validation fail with `DuplicateCapability`.
pub proof fn lemma_duplicate_request_rejected(d: Declaration)
    requires
        decl_shape_ok(d),
        declared_length(d) > 32,
        attrs_benign(d.attrs@, 0),
        !distinct(attrs_simple_caps(d.attrs@, 0)) || !distinct(attrs_dep_caps(d.attrs@, 0)),
    ensures
        validate_spec(d) is Err,
        validate_spec(d)->Err_0.kind == ErrorKind::DuplicateCapability,
{
    let fields = d.body->StructUnnamed_fields;
    lemma_field_clean(fields@[0].attrs@, 0);
    lemma_scan_dichotomy(
        Seq::<Capability>::empty(),
        Seq::<DependentCapability>::empty(),
        d.attrs@,
        0,
        d.span,
    );
    assert(Seq::<Capability>::empty() + attrs_simple_caps(d.attrs@, 0) =~= attrs_simple_caps(
        d.attrs@,
        0,
    ));
    assert(Seq::<DependentCapability>::empty() + attrs_dep_caps(d.attrs@, 0) =~= attrs_dep_caps(
        d.attrs@,
        0,
    ));
}

/// The simple capabilities the attributes in `[i, j)` request.
pub open spec fn attrs_simple_upto(attrs: Seq<Attr>, i: int, j: int) -> Seq<Capability>
    decreases j - i,
{
    if i < 0 || i >= j {
        Seq::<Capability>::empty()
    } else {
        attr_simple_caps(attrs[i]) + attrs_simple_upto(attrs, i + 1, j)
    }
}

/// The dependent capabilities the attributes in `[i, j)` request.
pub open spec fn attrs_dep_upto(attrs: Seq<Attr>, i: int, j: int) -> Seq<DependentCapability>
    decreases j - i,
{
    if i < 0 || i >= j {
        Seq::<DependentCapability>::empty()
    } else {
        attr_dep_caps(attrs[i]) + attrs_dep_upto(attrs, i + 1, j)
    }
}

/// The simple capabilities a block's entries in `[i, j)` request.
pub open spec fn block_simple_upto(items: Seq<Nested>, i: int, j: int) -> Seq<Capability>
    decreases j - i,
{
    if i < 0 || i >= j {
        Seq::<Capability>::empty()
    } else {
        (match items[i] {
            Nested::Meta(m) => group_simple_caps(m),
            Nested::Lit { .. } => Seq::<Capability>::empty(),
        }) + block_simple_upto(items, i + 1, j)
    }
}

/// The dependent capabilities a block's entries in `[i, j)` request.
pub open spec fn block_dep_upto(items: Seq<Nested>, i: int, j: int) -> Seq<DependentCapability>
    decreases j - i,
{
    if i < 0 || i >= j {
        Seq::<DependentCapability>::empty()
    } else {
        (match items[i] {
            Nested::Meta(m) => group_dep_caps(m),
            Nested::Lit { .. } => Seq::<DependentCapability>::empty(),
        }) + block_dep_upto(items, i + 1, j)
    }
}

/// An attribute that is a recognized metadata block in list form.
pub open spec fn attr_is_block_list(a: Attr) -> bool {
    a.outer && a.meta is Some && meta_ident(a.meta->0) == Some("new_array"@) && a.meta->0 is List
}

/// The entries of an attribute's metadata block.
pub open spec fn attr_block_items(a: Attr) -> Seq<Nested> {
    match a.meta {
        Some(m) => group_items(m),
        None => Seq::<Nested>::empty(),
    }
}

/// A duplicate-free concatenation is duplicate-free on its left part.
proof fn lemma_distinct_take<T>(a: Seq<T>, b: Seq<T>)
    requires
        distinct(a + b),
    ensures
        distinct(a),
{
    if !distinct(a) {
        lemma_not_distinct_extends(a, b);
        assert(false);
    }
}

/// A scan whose attributes fold cleanly up to a block inherits that
/// block's error.
proof fn lemma_scan_stops_at(
    simple: Seq<Capability>,
    deps: Seq<DependentCapability>,
    attrs: Seq<Attr>,
    i: int,
    ai: int,
    decl_span: u64,
    e: Diagnostic,
)
    requires
        0 <= i <= ai < attrs.len(),
        forall|k: int| i <= k < ai ==> attr_benign(#[trigger] attrs[k]),
        distinct(simple),
        distinct(deps),
        distinct(simple + attrs_simple_upto(attrs, i, ai)),
        distinct(deps + attrs_dep_upto(attrs, i, ai)),
        attr_is_block_list(attrs[ai]),
        attr_block_items(attrs[ai]).len() > 0,
        apply_groups(
            simple + attrs_simple_upto(attrs, i, ai),
            deps + attrs_dep_upto(attrs, i, ai),
            attr_block_items(attrs[ai]),
            0,
        ) == Err::<(Seq<Capability>, Seq<DependentCapability>), _>(e),
    ensures
        scan_attrs(simple, deps, attrs, i, decl_span) == Err::<
            (Seq<Capability>, Seq<DependentCapability>),
            _,
        >(e),
    decreases ai - i,
{
    if i == ai {
        assert(simple + attrs_simple_upto(attrs, i, ai) =~= simple);
        assert(deps + attrs_dep_upto(attrs, i, ai) =~= deps);
    } else {
        let a = attrs[i];
        if a.outer && a.meta is Some && meta_ident(a.meta->0) == Some("new_array"@) {
            let m = a.meta->0;
            lemma_block_dichotomy(simple, deps, group_items(m), 0);
            assert((simple + block_simple_caps(group_items(m), 0)) + attrs_simple_upto(
                attrs,
                i + 1,
                ai,
            ) =~= simple + attrs_simple_upto(attrs, i, ai));
            assert((deps + block_dep_caps(group_items(m), 0)) + attrs_dep_upto(attrs, i + 1, ai)
                =~= deps + attrs_dep_upto(attrs, i, ai));
            match apply_groups(simple, deps, group_items(m), 0) {
                Ok(p) => {
                    lemma_scan_stops_at(p.0, p.1, attrs, i + 1, ai, decl_span, e);
                },
                Err(_) => {
                    if !distinct(simple + block_simple_caps(group_items(m), 0)) {
                        lemma_not_distinct_extends(
                            simple + block_simple_caps(group_items(m), 0),
                            attrs_simple_upto(attrs, i + 1, ai),
                        );
                    } else {
                        lemma_not_distinct_extends(
                            deps + block_dep_caps(group_items(m), 0),
                            attrs_dep_upto(attrs, i + 1, ai),
                        );
                    }
                    assert(false);
                },
            }
        } else {
            assert(attrs_simple_upto(attrs, i, ai) =~= attrs_simple_upto(attrs, i + 1, ai));
            assert(attrs_dep_upto(attrs, i, ai) =~= attrs_dep_upto(attrs, i + 1, ai));
            lemma_scan_stops_at(simple, deps, attrs, i + 1, ai, decl_span, e);
        }
    }
}

/// A block whose groups fold cleanly up to one group inherits that
/// group's error.
proof fn lemma_block_stops_at(
    simple: Seq<Capability>,
    deps: Seq<DependentCapability>,
    items: Seq<Nested>,
    i: int,
    gi: int,
    e: Diagnostic,
)
    requires
        0 <= i <= gi < items.len(),
        forall|k: int| i <= k < gi ==> group_entry_ok(#[trigger] items[k]),
        distinct(simple),
        distinct(deps),
        distinct(simple + block_simple_upto(items, i, gi)),
        distinct(deps + block_dep_upto(items, i, gi)),
        items[gi] is Meta,
        apply_group(
            simple + block_simple_upto(items, i, gi),
            deps + block_dep_upto(items, i, gi),
            items[gi]->Meta_0,
        ) == Err::<(Seq<Capability>, Seq<DependentCapability>), _>(e),
    ensures
        apply_groups(simple, deps, items, i) == Err::<
            (Seq<Capability>, Seq<DependentCapability>),
            _,
        >(e),
    decreases gi - i,
{
    if i == gi {
        assert(simple + block_simple_upto(items, i, gi) =~= simple);
        assert(deps + block_dep_upto(items, i, gi) =~= deps);
    } else {
        let m = items[i]->Meta_0;
        lemma_group_dichotomy(simple, deps, m);
        assert((simple + group_simple_caps(m)) + block_simple_upto(items, i + 1, gi) =~= simple
            + block_simple_upto(items, i, gi));
        assert((deps + group_dep_caps(m)) + block_dep_upto(items, i + 1, gi) =~= deps
            + block_dep_upto(items, i, gi));
        match apply_group(simple, deps, m) {
            Ok(p) => {
                lemma_block_stops_at(p.0, p.1, items, i + 1, gi, e);
            },
            Err(_) => {
                if !distinct(simple + group_simple_caps(m)) {
                    lemma_not_distinct_extends(
                        simple + group_simple_caps(m),
                        block_simple_upto(items, i + 1, gi),
                    );
                } else {
                    lemma_not_distinct_extends(
                        deps + group_dep_caps(m),
                        block_dep_upto(items, i + 1, gi),
                    );
                }
                assert(false);
            },
        }
    }
}

/// Resolving a `derive` group stops at the first unknown identifier with
/// an unknown-capability diagnostic at that identifier's own token.
proof fn lemma_add_simple_unknown(caps: Seq<Capability>, items: Seq<Nested>, i: int, u: int)
    requires
        0 <= i <= u < items.len(),
        all_bare(items, i),
        forall|k: int| i <= k < u ==> simple_of_name(ident_of(#[trigger] items[k]).0) is Some,
        simple_of_name(ident_of(items[u]).0) is None,
        distinct(caps),
        distinct(caps + caps_from(items, i, u)),
    ensures
        add_simple(caps, items, i) == Err::<Seq<Capability>, _>(
            Diagnostic { kind: ErrorKind::UnknownCapability, span: ident_of(items[u]).1 },
        ),
    decreases u - i,
{
    if i < u {
        let c = cap_at(items, i);
        let part = caps + caps_from(items, i, u);
        assert(part[caps.len() as int] == c);
        if caps.contains(c) {
            let j: int = choose|j: int| 0 <= j < caps.len() && caps[j] == c;
            assert(part[j] == c);
            assert(false);
        }
        assert(distinct(caps.push(c))) by {
            assert(forall|t: int| 0 <= t < caps.len() ==> part[t] == caps[t]);
        }
        assert(caps.push(c) + caps_from(items, i + 1, u) =~= part);
        lemma_add_simple_unknown(caps.push(c), items, i + 1, u);
    }
}

/// An identifier outside the closed enumeration is rejected as unknown, at
/// the identifier's own token, not the group's: in a well-shaped `derive`
/// group whose earlier entries resolve without repetition, the first
/// unknown identifier determines the diagnostic and its position.
pub proof fn lemma_unknown_identifier_rejected(
    simple: Seq<Capability>,
    deps: Seq<DependentCapability>,
    m: Meta,
    u: int,
)
    requires
        group_shape_ok(m),
        group_is_simple(m),
        0 <= u < group_items(m).len(),
        forall|k: int|
            0 <= k < u ==> simple_of_name(ident_of(#[trigger] group_items(m)[k]).0) is Some,
        simple_of_name(ident_of(group_items(m)[u]).0) is None,
        distinct(simple),
        distinct(simple + caps_from(group_items(m), 0, u)),
    ensures
        apply_group(simple, deps, m) == Err::<(Seq<Capability>, Seq<DependentCapability>), _>(
            Diagnostic {
                kind: ErrorKind::UnknownCapability,
                span: ident_of(group_items(m)[u]).1,
            },
        ),
{
    lemma_idents_ok_of_bare(group_items(m), 0);
    lemma_add_simple_unknown(simple, group_items(m), 0, u);
}

/// An identifier outside the closed enumeration stops validation of the
/// whole declaration as unknown, at the identifier's own token, wherever
/// it stands: with the shape and length in order, every block, group and
/// identifier scanned before it clean, known and unrepeated, the
/// diagnostic is `UnknownCapability` with that identifier's span — not
/// the group's, not the block's.
pub proof fn lemma_unknown_identifier_stops_validation(d: Declaration, ai: int, gi: int, u: int)
    requires
        decl_shape_ok(d),
        declared_length(d) > 32,
        0 <= ai < d.attrs@.len(),
        forall|k: int| 0 <= k < ai ==> attr_benign(#[trigger] d.attrs@[k]),
        attr_is_block_list(d.attrs@[ai]),
        0 <= gi < attr_block_items(d.attrs@[ai]).len(),
        forall|k: int|
            0 <= k < gi ==> group_entry_ok(#[trigger] attr_block_items(d.attrs@[ai])[k]),
        attr_block_items(d.attrs@[ai])[gi] is Meta,
        group_shape_ok(attr_block_items(d.attrs@[ai])[gi]->Meta_0),
        group_is_simple(attr_block_items(d.attrs@[ai])[gi]->Meta_0),
        0 <= u < group_items(attr_block_items(d.attrs@[ai])[gi]->Meta_0).len(),
        forall|k: int|
            0 <= k < u ==> simple_of_name(
                ident_of(
                    #[trigger] group_items(attr_block_items(d.attrs@[ai])[gi]->Meta_0)[k],
                ).0,
            ) is Some,
        simple_of_name(
            ident_of(group_items(attr_block_items(d.attrs@[ai])[gi]->Meta_0)[u]).0,
        ) is None,
        distinct(
            attrs_simple_upto(d.attrs@, 0, ai) + block_simple_upto(
                attr_block_items(d.attrs@[ai]),
                0,
                gi,
            ) + caps_from(group_items(attr_block_items(d.attrs@[ai])[gi]->Meta_0), 0, u),
        ),
        distinct(
            attrs_dep_upto(d.attrs@, 0, ai) + block_dep_upto(
                attr_block_items(d.attrs@[ai]),
                0,
                gi,
            ),
        ),
    ensures
        validate_spec(d) == Err::<(Seq<char>, int, Seq<Capability>, Seq<DependentCapability>), _>(
            Diagnostic {
                kind: ErrorKind::UnknownCapability,
                span: ident_of(group_items(attr_block_items(d.attrs@[ai])[gi]->Meta_0)[u]).1,
            },
        ),
{
    let attrs = d.attrs@;
    let items = attr_block_items(attrs[ai]);
    let m = items[gi]->Meta_0;
    let g_items = group_items(m);
    let s0 = attrs_simple_upto(attrs, 0, ai);
    let d0 = attrs_dep_upto(attrs, 0, ai);
    let s1 = s0 + block_simple_upto(items, 0, gi);
    let d1 = d0 + block_dep_upto(items, 0, gi);
    let diag = Diagnostic { kind: ErrorKind::UnknownCapability, span: ident_of(g_items[u]).1 };
    lemma_distinct_take(s1, caps_from(g_items, 0, u));
    lemma_distinct_take(s0, block_simple_upto(items, 0, gi));
    lemma_distinct_take(d0, block_dep_upto(items, 0, gi));
    lemma_unknown_identifier_rejected(s1, d1, m, u);
    lemma_block_stops_at(s0, d0, items, 0, gi, diag);
    let fields = d.body->StructUnnamed_fields;
    lemma_field_clean(fields@[0].attrs@, 0);
    assert(Seq::<Capability>::empty() + s0 =~= s0);
    assert(Seq::<DependentCapability>::empty() + d0 =~= d0);
    lemma_scan_stops_at(
        Seq::<Capability>::empty(),
        Seq::<DependentCapability>::empty(),
        attrs,
        0,
        ai,
        d.span,
        diag,
    );
}

} // verus!
