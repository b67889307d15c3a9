//! The capability taxonomy: the closed enumerations of generable
//! capabilities and the resolution of surface identifiers to them.
//!
//! A capability is a named, independently requestable unit of generated
//! behaviour.  Simple capabilities are generated directly from the raw
//! fixed-size-array representation; dependent capabilities are expressed in
//! terms of another capability's already-generated contract.

use vstd::prelude::*;

verus! {

/// A simple capability: generable directly from the wrapped byte array.
///
/// Each variant is requested under the exact surface identifier given by
/// [`simple_of_name`]; the vocabulary is closed and case-sensitive.
#[derive(Clone, Copy, Debug, PartialEq, Eq, Structural)]
pub enum Capability {
    /// Surface name `Default`: an instance whose every byte is zero.
    DefaultValue,
    /// Surface name `PartialEq`: element-wise equality over the full array.
    Equality,
    /// Surface name `Eq`: marks the element-wise equality as total.
    TotalEquality,
    /// Surface name `PartialOrd`: lexicographic partial ordering.
    PartialOrdering,
    /// Surface name `Ord`: lexicographic total ordering.
    TotalOrdering,
    /// Surface name `Hash`: feeds the full byte sequence to a hasher.
    Hashing,
    /// Surface name `AsRef`: borrow the bytes as an immutable slice.
    AsByteSlice,
    /// Surface name `AsMut`: borrow the bytes as a mutable slice.
    AsMutableByteSlice,
    /// Surface name `From`: construct the wrapper from the raw array.
    FromFixedArray,
    /// Surface name `Into`: recover the raw array from the wrapper.
    IntoFixedArray,
    /// Surface name `Borrow`: the generic borrowed view of the bytes.
    BorrowByteSlice,
    /// Surface name `BorrowMut`: the generic mutable borrowed view.
    BorrowMutableByteSlice,
    /// Surface name `Debug`: renders `Name([b0, b1, ...])`.
    DebugFormat,
    /// Surface name `Drop`: zeroes the backing array on destruction.
    SecureErase,
}

/// A dependent capability: expressed in terms of another capability's
/// contract rather than the raw field directly.
#[derive(Clone, Copy, Debug, PartialEq, Eq, Structural)]
pub enum DependentCapability {
    /// Surface name `Display`: identical textual contract to `DebugFormat`.
    DisplayFormat,
    /// Surface name `FromStr`: accepted by validation, but no fragment is
    /// realized for it.
    ParseFromString,
}

/// The simple capability requested by a surface identifier, or `None` when
/// the identifier lies outside the closed enumeration.
pub open spec fn simple_of_name(s: Seq<char>) -> Option<Capability> {
    if s == "Default"@ {
        Some(Capability::DefaultValue)
    } else if s == "PartialEq"@ {
        Some(Capability::Equality)
    } else if s == "Eq"@ {
        Some(Capability::TotalEquality)
    } else if s == "PartialOrd"@ {
        Some(Capability::PartialOrdering)
    } else if s == "Ord"@ {
        Some(Capability::TotalOrdering)
    } else if s == "Hash"@ {
        Some(Capability::Hashing)
    } else if s == "AsRef"@ {
        Some(Capability::AsByteSlice)
    } else if s == "AsMut"@ {
        Some(Capability::AsMutableByteSlice)
    } else if s == "From"@ {
        Some(Capability::FromFixedArray)
    } else if s == "Into"@ {
        Some(Capability::IntoFixedArray)
    } else if s == "Borrow"@ {
        Some(Capability::BorrowByteSlice)
    } else if s == "BorrowMut"@ {
        Some(Capability::BorrowMutableByteSlice)
    } else if s == "Debug"@ {
        Some(Capability::DebugFormat)
    } else if s == "Drop"@ {
        Some(Capability::SecureErase)
    } else {
        None
    }
}

/// The dependent capability requested by a surface identifier, or `None`
/// when the identifier lies outside the closed enumeration.
pub open spec fn dep_of_name(s: Seq<char>) -> Option<DependentCapability> {
    if s == "Display"@ {
        Some(DependentCapability::DisplayFormat)
    } else if s == "FromStr"@ {
        Some(DependentCapability::ParseFromString)
    } else {
        None
    }
}

/// Whether `s` spells the same characters as `lit`.
pub(crate) fn str_is(s: &String, lit: &str) -> (r: bool)
    ensures
        r == (s@ == lit@),
{
    let l: String = lit.to_owned();
    *s == l
}

/// Resolves a surface identifier to a simple capability.
pub fn resolve_simple(s: &String) -> (r: Option<Capability>)
    ensures
        r == simple_of_name(s@),
{
    if str_is(s, "Default") {
        Some(Capability::DefaultValue)
    } else if str_is(s, "PartialEq") {
        Some(Capability::Equality)
    } else if str_is(s, "Eq") {
        Some(Capability::TotalEquality)
    } else if str_is(s, "PartialOrd") {
        Some(Capability::PartialOrdering)
    } else if str_is(s, "Ord") {
        Some(Capability::TotalOrdering)
    } else if str_is(s, "Hash") {
        Some(Capability::Hashing)
    } else if str_is(s, "AsRef") {
        Some(Capability::AsByteSlice)
    } else if str_is(s, "AsMut") {
        Some(Capability::AsMutableByteSlice)
    } else if str_is(s, "From") {
        Some(Capability::FromFixedArray)
    } else if str_is(s, "Into") {
        Some(Capability::IntoFixedArray)
    } else if str_is(s, "Borrow") {
        Some(Capability::BorrowByteSlice)
    } else if str_is(s, "BorrowMut") {
        Some(Capability::BorrowMutableByteSlice)
    } else if str_is(s, "Debug") {
        Some(Capability::DebugFormat)
    } else if str_is(s, "Drop") {
        Some(Capability::SecureErase)
    } else {
        None
    }
}

/// Resolves a surface identifier to a dependent capability.
pub fn resolve_dep(s: &String) -> (r: Option<DependentCapability>)
    ensures
        r == dep_of_name(s@),
{
    if str_is(s, "Display") {
        Some(DependentCapability::DisplayFormat)
    } else if str_is(s, "FromStr") {
        Some(DependentCapability::ParseFromString)
    } else {
        None
    }
}

} // verus!
