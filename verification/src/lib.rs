//! A declarative generator of trait implementations for single-field wrapper
//! types around fixed-size byte arrays.
//!
//! The crate validates a declaration (a structure with one unnamed
//! `[u8; N]` field, `N > 32`, and attached capability requests) into a
//! [`config::TargetDeclaration`] and a [`config::CapabilitySet`], and then
//! emits one self-contained implementation fragment per requested
//! capability.  A thin, unverified front end is expected to translate the
//! concrete attachment syntax into the plain [`config::Declaration`] model
//! and to hand the emitted fragments back to the consumer.

pub mod caps;
pub mod config;
pub mod demo;
pub mod digits;
pub mod emit;
pub mod laws;
pub mod validate;

pub use caps::Capability;
pub use caps::DependentCapability;
