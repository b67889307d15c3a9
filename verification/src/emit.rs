//! The capability catalog and generator.
//!
//! For each validated capability this module deterministically produces one
//! self-contained implementation fragment, parameterized by the target's
//! name and array length.  [`simple_fragment`] and [`dep_fragment`] state
//! the exact text of every fragment; the executable emitters are proved to
//! return it.  Generation is total over validated input: no error path
//! exists here.  The one deliberate gap is `ParseFromString`, whose
//! fragment is empty: the request is accepted but nothing is realized for
//! it.

use vstd::prelude::*;
use vstd::string::StringExecFns;

use crate::caps::Capability;
use crate::caps::DependentCapability;
use crate::config::CapabilitySet;
use crate::config::Declaration;
use crate::config::Diagnostic;
use crate::config::TargetDeclaration;
use crate::digits::dec_of;
use crate::digits::dec_string;
use crate::validate::validate;
use crate::validate::validate_spec;

verus! {

/// The text of the implementation fragment for a simple capability, for a
/// target named `name` wrapping `[u8; len]`.
pub open spec fn simple_fragment(c: Capability, name: Seq<char>, len: nat) -> Seq<char> {
    match c {
        Capability::DefaultValue => "impl ::core::default::Default for "@ + name
            + " { #[inline] fn default() -> Self { Self([0; "@ + dec_of(len) + "]) } }"@,
        Capability::Equality => "impl ::core::cmp::PartialEq for "@ + name
            + " { #[inline] fn eq(&self, other: &Self) -> bool { (&self.0[..]).eq(&other.0[..]) } }"@,
        Capability::TotalEquality => "impl ::core::cmp::Eq for "@ + name + " {}"@,
        Capability::PartialOrdering => "impl ::core::cmp::PartialOrd for "@ + name
            + " { #[inline] fn partial_cmp(&self, other: &Self) -> Option<::core::cmp::Ordering> { (&self.0[..]).partial_cmp(&other.0[..]) } }"@,
        Capability::TotalOrdering => "impl ::core::cmp::Ord for "@ + name
            + " { #[inline] fn cmp(&self, other: &Self) -> ::core::cmp::Ordering { (&self.0[..]).cmp(&other.0[..]) } }"@,
        Capability::Hashing => "impl ::core::hash::Hash for "@ + name
            + " { #[inline] fn hash<H: ::core::hash::Hasher>(&self, state: &mut H) { ::core::hash::Hash::hash(&self.0[..], state) } }"@,
        Capability::AsByteSlice => "impl ::core::convert::AsRef<[u8]> for "@ + name
            + " { #[inline] fn as_ref(&self) -> &[u8] { &self.0[..] } }"@,
        Capability::AsMutableByteSlice => "impl ::core::convert::AsMut<[u8]> for "@ + name
            + " { #[inline] fn as_mut(&mut self) -> &mut [u8] { &mut self.0[..] } }"@,
        Capability::FromFixedArray => "impl ::core::convert::From<[u8; "@ + dec_of(len)
            + "]> for "@ + name + " { #[inline] fn from(inner: [u8; "@ + dec_of(len)
            + "]) -> Self { Self(inner) } }"@,
        Capability::IntoFixedArray => "impl ::core::convert::Into<[u8; "@ + dec_of(len)
            + "]> for "@ + name + " { #[inline] fn into(self) -> [u8; "@ + dec_of(len)
            + "] { self.0 } }"@,
        Capability::BorrowByteSlice => "impl ::core::borrow::Borrow<[u8]> for "@ + name
            + " { #[inline] fn borrow(&self) -> &[u8] { &self.0[..] } }"@,
        Capability::BorrowMutableByteSlice => "impl ::core::borrow::BorrowMut<[u8]> for "@ + name
            + " { #[inline] fn borrow_mut(&mut self) -> &mut [u8] { &mut self.0[..] } }"@,
        Capability::DebugFormat => "impl ::core::fmt::Debug for "@ + name
            + " { fn fmt(&self, f: &mut ::core::fmt::Formatter) -> ::core::fmt::Result { let s = &self.0[..]; if f.alternate() { write!(f, \""@
            + name + "\")?; write!(f, \"([{:#04x}\", s[0])?; for v in &s[1..] { write!(f, \", {:#04x}\", v)?; } } else { write!(f, \""@
            + name + "\")?; write!(f, \"([{}\", s[0])?; for v in &s[1..] { write!(f, \", {}\", v)?; } } write!(f, \"])\") } }"@,
        Capability::SecureErase => "impl ::core::ops::Drop for "@ + name
            + " { #[inline] fn drop(&mut self) { for elem in self.0.iter_mut() { unsafe { ::core::ptr::write_volatile(elem, 0); } ::core::sync::atomic::compiler_fence(::core::sync::atomic::Ordering::SeqCst); } } }"@,
    }
}

/// The text of the implementation fragment for a dependent capability.
/// `DisplayFormat` mirrors `DebugFormat`'s textual contract exactly;
/// `ParseFromString` is accepted but realized by no fragment.
pub open spec fn dep_fragment(c: DependentCapability, name: Seq<char>, len: nat) -> Seq<char> {
    match c {
        DependentCapability::DisplayFormat => "impl ::core::fmt::Display for "@ + name
            + " { fn fmt(&self, f: &mut ::core::fmt::Formatter) -> ::core::fmt::Result { let s = &self.0[..]; if f.alternate() { write!(f, \""@
            + name + "\")?; write!(f, \"([{:#04x}\", s[0])?; for v in &s[1..] { write!(f, \", {:#04x}\", v)?; } } else { write!(f, \""@
            + name + "\")?; write!(f, \"([{}\", s[0])?; for v in &s[1..] { write!(f, \", {}\", v)?; } } write!(f, \"])\") } }"@,
        DependentCapability::ParseFromString => Seq::<char>::empty(),
    }
}

impl Capability {
    /// Emits this capability's implementation fragment for a target named
    /// `name` wrapping `[u8; length]`.
    pub fn implement(self, name: &str, length: usize) -> (r: String)
        ensures
            r@ == simple_fragment(self, name@, length as nat),
    {
        let r: String = match self {
            Capability::DefaultValue => {
                let mut s: String = "impl ::core::default::Default for ".to_owned();
                s.append(name);
                s.append(" { #[inline] fn default() -> Self { Self([0; ");
                let d = dec_string(length);
                s.append(d.as_str());
                s.append("]) } }");
                s
            },
            Capability::Equality => {
                let mut s: String = "impl ::core::cmp::PartialEq for ".to_owned();
                s.append(name);
                s.append(
                    " { #[inline] fn eq(&self, other: &Self) -> bool { (&self.0[..]).eq(&other.0[..]) } }",
                );
                s
            },
            Capability::TotalEquality => {
                let mut s: String = "impl ::core::cmp::Eq for ".to_owned();
                s.append(name);
                s.append(" {}");
                s
            },
            Capability::PartialOrdering => {
                let mut s: String = "impl ::core::cmp::PartialOrd for ".to_owned();
                s.append(name);
                s.append(
                    " { #[inline] fn partial_cmp(&self, other: &Self) -> Option<::core::cmp::Ordering> { (&self.0[..]).partial_cmp(&other.0[..]) } }",
                );
                s
            },
            Capability::TotalOrdering => {
                let mut s: String = "impl ::core::cmp::Ord for ".to_owned();
                s.append(name);
                s.append(
                    " { #[inline] fn cmp(&self, other: &Self) -> ::core::cmp::Ordering { (&self.0[..]).cmp(&other.0[..]) } }",
                );
                s
            },
            Capability::Hashing => {
                let mut s: String = "impl ::core::hash::Hash for ".to_owned();
                s.append(name);
                s.append(
                    " { #[inline] fn hash<H: ::core::hash::Hasher>(&self, state: &mut H) { ::core::hash::Hash::hash(&self.0[..], state) } }",
                );
                s
            },
            Capability::AsByteSlice => {
                let mut s: String = "impl ::core::convert::AsRef<[u8]> for ".to_owned();
                s.append(name);
                s.append(" { #[inline] fn as_ref(&self) -> &[u8] { &self.0[..] } }");
                s
            },
            Capability::AsMutableByteSlice => {
                let mut s: String = "impl ::core::convert::AsMut<[u8]> for ".to_owned();
                s.append(name);
                s.append(" { #[inline] fn as_mut(&mut self) -> &mut [u8] { &mut self.0[..] } }");
                s
            },
            Capability::FromFixedArray => {
                let d = dec_string(length);
                let mut s: String = "impl ::core::convert::From<[u8; ".to_owned();
                s.append(d.as_str());
                s.append("]> for ");
                s.append(name);
                s.append(" { #[inline] fn from(inner: [u8; ");
                s.append(d.as_str());
                s.append("]) -> Self { Self(inner) } }");
                s
            },
            Capability::IntoFixedArray => {
                let d = dec_string(length);
                let mut s: String = "impl ::core::convert::Into<[u8; ".to_owned();
                s.append(d.as_str());
                s.append("]> for ");
                s.append(name);
                s.append(" { #[inline] fn into(self) -> [u8; ");
                s.append(d.as_str());
                s.append("] { self.0 } }");
                s
            },
            Capability::BorrowByteSlice => {
                let mut s: String = "impl ::core::borrow::Borrow<[u8]> for ".to_owned();
                s.append(name);
                s.append(" { #[inline] fn borrow(&self) -> &[u8] { &self.0[..] } }");
                s
            },
            Capability::BorrowMutableByteSlice => {
                let mut s: String = "impl ::core::borrow::BorrowMut<[u8]> for ".to_owned();
                s.append(name);
                s.append(
                    " { #[inline] fn borrow_mut(&mut self) -> &mut [u8] { &mut self.0[..] } }",
                );
                s
            },
            Capability::DebugFormat => {
                let mut s: String = "impl ::core::fmt::Debug for ".to_owned();
                s.append(name);
                s.append(
                    " { fn fmt(&self, f: &mut ::core::fmt::Formatter) -> ::core::fmt::Result { let s = &self.0[..]; if f.alternate() { write!(f, \"",
                );
                s.append(name);
                s.append(
                    "\")?; write!(f, \"([{:#04x}\", s[0])?; for v in &s[1..] { write!(f, \", {:#04x}\", v)?; } } else { write!(f, \"",
                );
                s.append(name);
                s.append(
                    "\")?; write!(f, \"([{}\", s[0])?; for v in &s[1..] { write!(f, \", {}\", v)?; } } write!(f, \"])\") } }",
                );
                s
            },
            Capability::SecureErase => {
                let mut s: String = "impl ::core::ops::Drop for ".to_owned();
                s.append(name);
                s.append(
                    " { #[inline] fn drop(&mut self) { for elem in self.0.iter_mut() { unsafe { ::core::ptr::write_volatile(elem, 0); } ::core::sync::atomic::compiler_fence(::core::sync::atomic::Ordering::SeqCst); } } }",
                );
                s
            },
        };
        assert(r@ =~= simple_fragment(self, name@, length as nat));
        r
    }
}

impl DependentCapability {
    /// Emits this capability's implementation fragment, or the empty
    /// fragment where none is realized.
    pub fn implement(self, name: &str, length: usize) -> (r: String)
        ensures
            r@ == dep_fragment(self, name@, length as nat),
    {
        let r: String = match self {
            DependentCapability::DisplayFormat => {
                let mut s: String = "impl ::core::fmt::Display for ".to_owned();
                s.append(name);
                s.append(
                    " { fn fmt(&self, f: &mut ::core::fmt::Formatter) -> ::core::fmt::Result { let s = &self.0[..]; if f.alternate() { write!(f, \"",
                );
                s.append(name);
                s.append(
                    "\")?; write!(f, \"([{:#04x}\", s[0])?; for v in &s[1..] { write!(f, \", {:#04x}\", v)?; } } else { write!(f, \"",
                );
                s.append(name);
                s.append(
                    "\")?; write!(f, \"([{}\", s[0])?; for v in &s[1..] { write!(f, \", {}\", v)?; } } write!(f, \"])\") } }",
                );
                s
            },
            DependentCapability::ParseFromString => String::new(),
        };
        assert(r@ =~= dep_fragment(self, name@, length as nat));
        r
    }
}

/// Produces one fragment per requested capability: all simple capabilities
/// in request order, then all dependent capabilities in request order.
pub fn generate(td: &TargetDeclaration, cs: &CapabilitySet) -> (r: Vec<String>)
    ensures
        r@.len() == cs.simple@.len() + cs.dependent@.len(),
        forall|i: int|
            0 <= i < cs.simple@.len() ==> (#[trigger] r@[i])@ == simple_fragment(
                cs.simple@[i],
                td.name@,
                td.length as nat,
            ),
        forall|i: int|
            0 <= i < cs.dependent@.len() ==> (#[trigger] r@[cs.simple@.len() + i])@
                == dep_fragment(cs.dependent@[i], td.name@, td.length as nat),
{
    let mut out: Vec<String> = Vec::new();
    let mut i: usize = 0;
    while i < cs.simple.len()
        invariant
            i <= cs.simple@.len(),
            out@.len() == i,
            forall|j: int|
                0 <= j < i ==> (#[trigger] out@[j])@ == simple_fragment(
                    cs.simple@[j],
                    td.name@,
                    td.length as nat,
                ),
        decreases cs.simple@.len() - i,
    {
        let f = cs.simple[i].implement(td.name.as_str(), td.length);
        out.push(f);
        i += 1;
    }
    let mut k: usize = 0;
    while k < cs.dependent.len()
        invariant
            k <= cs.dependent@.len(),
            out@.len() == cs.simple@.len() + k,
            forall|j: int|
                0 <= j < cs.simple@.len() ==> (#[trigger] out@[j])@ == simple_fragment(
                    cs.simple@[j],
                    td.name@,
                    td.length as nat,
                ),
            forall|j: int|
                0 <= j < k ==> (#[trigger] out@[cs.simple@.len() + j])@ == dep_fragment(
                    cs.dependent@[j],
                    td.name@,
                    td.length as nat,
                ),
        decreases cs.dependent@.len() - k,
    {
        let f = cs.dependent[k].implement(td.name.as_str(), td.length);
        out.push(f);
        k += 1;
    }
    out
}

/// The concatenation of the simple fragments from position `i` on.
pub open spec fn simple_concat(caps: Seq<Capability>, name: Seq<char>, len: nat, i: int) -> Seq<
    char,
>
    decreases caps.len() - i,
{
    if i < 0 || i >= caps.len() {
        Seq::<char>::empty()
    } else {
        simple_fragment(caps[i], name, len) + simple_concat(caps, name, len, i + 1)
    }
}

/// The concatenation of the dependent fragments from position `i` on.
pub open spec fn dep_concat(deps: Seq<DependentCapability>, name: Seq<char>, len: nat, i: int) -> Seq<
    char,
>
    decreases deps.len() - i,
{
    if i < 0 || i >= deps.len() {
        Seq::<char>::empty()
    } else {
        dep_fragment(deps[i], name, len) + dep_concat(deps, name, len, i + 1)
    }
}

/// The whole generated text for a validated configuration: every simple
/// fragment in request order, then every dependent fragment in request
/// order.
pub open spec fn expansion(
    name: Seq<char>,
    len: nat,
    simple: Seq<Capability>,
    deps: Seq<DependentCapability>,
) -> Seq<char> {
    simple_concat(simple, name, len, 0) + dep_concat(deps, name, len, 0)
}

/// Appends the simple fragments from position `i` on to `acc`.
fn concat_simple(acc: String, caps: &Vec<Capability>, name: &str, length: usize, i: usize) -> (r:
    String)
    requires
        i <= caps@.len(),
    ensures
        r@ == acc@ + simple_concat(caps@, name@, length as nat, i as int),
    decreases caps@.len() - i,
{
    if i >= caps.len() {
        assert(acc@ =~= acc@ + simple_concat(caps@, name@, length as nat, i as int));
        return acc;
    }
    let frag = caps[i].implement(name, length);
    let mut acc2 = acc;
    acc2.append(frag.as_str());
    let r = concat_simple(acc2, caps, name, length, i + 1);
    assert(r@ =~= acc@ + simple_concat(caps@, name@, length as nat, i as int));
    r
}

/// Appends the dependent fragments from position `i` on to `acc`.
fn concat_dep(acc: String, deps: &Vec<DependentCapability>, name: &str, length: usize, i: usize) -> (r:
    String)
    requires
        i <= deps@.len(),
    ensures
        r@ == acc@ + dep_concat(deps@, name@, length as nat, i as int),
    decreases deps@.len() - i,
{
    if i >= deps.len() {
        assert(acc@ =~= acc@ + dep_concat(deps@, name@, length as nat, i as int));
        return acc;
    }
    let frag = deps[i].implement(name, length);
    let mut acc2 = acc;
    acc2.append(frag.as_str());
    let r = concat_dep(acc2, deps, name, length, i + 1);
    assert(r@ =~= acc@ + dep_concat(deps@, name@, length as nat, i as int));
    r
}

/// Validates a declaration and, on success, returns the concatenation of
/// every generated fragment; otherwise the diagnostic of the first
/// violated rule.
pub fn expand(d: &Declaration) -> (r: Result<String, Diagnostic>)
    ensures
        match r {
            Ok(s) => match validate_spec(*d) {
                Ok(t) => s@ == expansion(t.0, t.1 as nat, t.2, t.3),
                Err(_) => false,
            },
            Err(e) => validate_spec(*d) == Err::<
                (Seq<char>, int, Seq<Capability>, Seq<crate::caps::DependentCapability>),
                _,
            >(e),
        },
{
    match validate(d) {
        Err(e) => Err(e),
        Ok((td, cs)) => {
            let s1 = concat_simple(String::new(), &cs.simple, td.name.as_str(), td.length, 0);
            let s2 = concat_dep(s1, &cs.dependent, td.name.as_str(), td.length, 0);
            proof {
                let t = validate_spec(*d)->Ok_0;
                assert(s2@ =~= expansion(t.0, t.1 as nat, t.2, t.3));
            }
            Ok(s2)
        },
    }
}

} // verus!
