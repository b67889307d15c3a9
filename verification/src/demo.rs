//! The illustrative consumer types, with the capability semantics the
//! generator promises realized and proved on the byte level.
//!
//! [`ByteN`] is a wrapper around a 33-byte array, one element above the
//! threshold at which generated support begins to pay off.  Each method
//! here carries the contract that the corresponding generated fragment
//! must satisfy: zero initialization, element-wise equality, lexicographic
//! ordering consistent with equality, hashing over the full byte sequence,
//! lossless array conversion, borrowed byte views, the exact `Debug` /
//! `Display` rendering, and erasure of every byte.  [`Byte2`] is the
//! contrast case below the threshold, left to native array semantics.

use vstd::prelude::*;
use vstd::std_specs::cmp::PartialEqSpec;
use vstd::string::StringExecFns;
use core::cmp::Ordering;

use crate::digits::dec_of;
use crate::digits::dec_string;
use crate::digits::hex_byte_string;
use crate::digits::hex_of_byte;

verus! {

broadcast use vstd::array::group_array_axioms;

/// A wrapper around a fixed-size byte array of 33 elements.
pub struct ByteN(pub [u8; 33]);

impl View for ByteN {
    type V = Seq<u8>;

    open spec fn view(&self) -> Seq<u8> {
        self.0@
    }
}

/// The all-zero byte sequence of `ByteN`'s length.
pub open spec fn zero_bytes() -> Seq<u8> {
    Seq::new(33, |i: int| 0u8)
}

/// Lexicographic order over byte sequences: the first differing element
/// decides; a proper prefix precedes the longer sequence.
pub open spec fn lex_ord(a: Seq<u8>, b: Seq<u8>) -> Ordering
    decreases a.len(),
{
    if a.len() == 0 && b.len() == 0 {
        Ordering::Equal
    } else if a.len() == 0 {
        Ordering::Less
    } else if b.len() == 0 {
        Ordering::Greater
    } else if a[0] < b[0] {
        Ordering::Less
    } else if a[0] > b[0] {
        Ordering::Greater
    } else {
        lex_ord(a.skip(1), b.skip(1))
    }
}

/// Comparing two sequences that agree on their first `i` elements comes
/// down to comparing what remains.
proof fn lemma_lex_prefix(a: Seq<u8>, b: Seq<u8>, i: int)
    requires
        a.len() == b.len(),
        0 <= i <= a.len(),
        forall|k: int| 0 <= k < i ==> a[k] == b[k],
    ensures
        lex_ord(a, b) == lex_ord(a.skip(i), b.skip(i)),
    decreases i,
{
    if i == 0 {
        assert(a.skip(0) =~= a);
        assert(b.skip(0) =~= b);
    } else {
        assert(a[0] == b[0]);
        assert(forall|k: int| 0 <= k < i - 1 ==> a.skip(1)[k] == b.skip(1)[k]);
        lemma_lex_prefix(a.skip(1), b.skip(1), i - 1);
        assert(a.skip(1).skip(i - 1) =~= a.skip(i));
        assert(b.skip(1).skip(i - 1) =~= b.skip(i));
    }
}

/// Lexicographic order is consistent with element-wise equality: two
/// sequences of the same length compare `Equal` exactly when they are
/// equal.
pub proof fn lemma_lex_consistent_with_eq(a: Seq<u8>, b: Seq<u8>)
    requires
        a.len() == b.len(),
    ensures
        (lex_ord(a, b) == Ordering::Equal) <==> (a == b),
    decreases a.len(),
{
    if a.len() == 0 {
        assert(b.len() == 0);
        assert(forall|i: int| 0 <= i < a.len() ==> a[i] == b[i]);
        assert(a =~= b);
    } else if a[0] == b[0] {
        lemma_lex_consistent_with_eq(a.skip(1), b.skip(1));
        if lex_ord(a, b) == Ordering::Equal {
            assert(a.skip(1) == b.skip(1));
            assert(forall|i: int| 1 <= i < a.len() ==> a[i] == a.skip(1)[i - 1]);
            assert(forall|i: int| 1 <= i < b.len() ==> b[i] == b.skip(1)[i - 1]);
            assert(a =~= b);
        }
        if a == b {
            assert(a.skip(1) =~= b.skip(1));
        }
    } else {
        assert(a != b);
    }
}

impl core::default::Default for ByteN {
    /// An instance whose every byte is zero.
    fn default() -> (r: ByteN)
        ensures
            r@ == zero_bytes(),
    {
        let r = ByteN([0u8; 33]);
        proof {
            assert(r@ =~= zero_bytes());
        }
        r
    }
}

impl PartialEq for ByteN {
    /// Two instances are equal exactly when every corresponding byte is
    /// equal.
    fn eq(&self, other: &ByteN) -> (r: bool) {
        let mut i: usize = 0;
        while i < 33
            invariant
                i <= 33,
                forall|k: int| 0 <= k < i ==> self@[k] == other@[k],
            decreases 33 - i,
        {
            if self.0[i] != other.0[i] {
                return false;
            }
            i += 1;
        }
        proof {
            assert(self@ =~= other@);
        }
        true
    }
}

impl vstd::std_specs::cmp::PartialEqSpecImpl for ByteN {
    open spec fn obeys_eq_spec() -> bool {
        true
    }

    open spec fn eq_spec(&self, other: &ByteN) -> bool {
        self@ == other@
    }
}

impl Eq for ByteN {

}

impl ByteN {
    /// Lexicographic comparison over the full byte sequence.
    pub fn cmp_bytes(&self, other: &ByteN) -> (r: Ordering)
        ensures
            r == lex_ord(self@, other@),
    {
        let mut i: usize = 0;
        while i < 33
            invariant
                i <= 33,
                forall|k: int| 0 <= k < i ==> self@[k] == other@[k],
            decreases 33 - i,
        {
            let a = self.0[i];
            let b = other.0[i];
            if a < b {
                proof {
                    lemma_lex_prefix(self@, other@, i as int);
                }
                return Ordering::Less;
            }
            if a > b {
                proof {
                    lemma_lex_prefix(self@, other@, i as int);
                }
                return Ordering::Greater;
            }
            i += 1;
        }
        proof {
            lemma_lex_prefix(self@, other@, 33);
        }
        Ordering::Equal
    }

    /// Lossless construction from the raw fixed-size array.
    pub fn from_array(a: [u8; 33]) -> (r: ByteN)
        ensures
            r == from_array_spec(a),
    {
        ByteN(a)
    }

    /// Lossless recovery of the raw fixed-size array.
    pub fn into_array(self) -> (r: [u8; 33])
        ensures
            r == into_array_spec(self),
    {
        self.0
    }

    /// The backing bytes as a borrowed, zero-copy view.
    pub fn as_slice(&self) -> (r: &[u8])
        ensures
            r@ == self@,
    {
        self.0.as_slice()
    }

    /// The byte sequence that hashing feeds, in order, to the hash
    /// accumulator.
    pub fn hash_input(&self) -> (r: &[u8])
        ensures
            r@ == self@,
    {
        self.0.as_slice()
    }

    /// Writes one byte of the mutable view.
    pub fn set_byte(&mut self, i: usize, v: u8)
        requires
            i < 33,
        ensures
            final(self)@ == old(self)@.update(i as int, v),
    {
        self.0[i] = v;
    }

    /// Overwrites every byte of the backing array with zero.
    pub fn erase(&mut self)
        ensures
            final(self)@ == zero_bytes(),
    {
        self.0 = [0u8; 33];
        proof {
            assert(self@ =~= zero_bytes());
        }
    }

    /// The `Debug` rendering: `ByteN([b0, b1, ...])`, each byte decimal in
    /// default mode and fixed-width hexadecimal in alternate mode.
    pub fn debug_text(&self, alternate: bool) -> (r: String)
        ensures
            r@ == render_text("ByteN"@, self@, alternate),
    {
        let mut s: String = "ByteN".to_owned();
        s.append("([");
        let b0 = byte_string(self.0[0], alternate);
        s.append(b0.as_str());
        proof {
            assert(self@.take(1) =~= seq![self@[0]]);
        }
        let mut i: usize = 1;
        while i < 33
            invariant
                1 <= i <= 33,
                s@ == "ByteN"@ + "(["@ + bytes_body(self@.take(i as int), alternate),
            decreases 33 - i,
        {
            s.append(", ");
            let bi = byte_string(self.0[i], alternate);
            s.append(bi.as_str());
            proof {
                assert(self@.take(i + 1).drop_last() =~= self@.take(i as int));
                assert(self@.take(i + 1).last() == self@[i as int]);
                assert(s@ =~= "ByteN"@ + "(["@ + bytes_body(self@.take(i + 1), alternate));
            }
            i += 1;
        }
        s.append("])");
        proof {
            assert(self@.take(33) =~= self@);
            assert(s@ =~= render_text("ByteN"@, self@, alternate));
        }
        s
    }

    /// The `Display` rendering: a thin pass-through to the `Debug`
    /// rendering, so the two never diverge.
    pub fn display_text(&self, alternate: bool) -> (r: String)
        ensures
            r@ == render_text("ByteN"@, self@, alternate),
    {
        self.debug_text(alternate)
    }
}

/// What construction from a raw array yields.
pub open spec fn from_array_spec(a: [u8; 33]) -> ByteN {
    ByteN(a)
}

/// What conversion back to the raw array yields.
pub open spec fn into_array_spec(x: ByteN) -> [u8; 33] {
    x.0
}

/// Round trip: converting a wrapper built from any raw array back to the
/// array returns that array unchanged.
pub proof fn lemma_array_round_trip(a: [u8; 33])
    ensures
        into_array_spec(from_array_spec(a)) == a,
{
}

/// Round trip the other way: rebuilding a wrapper from its raw array
/// yields the same wrapper.
pub proof fn lemma_wrapper_round_trip(x: ByteN)
    ensures
        from_array_spec(into_array_spec(x)) == x,
{
}

/// Equal instances hash equally: instance equality is byte-view equality,
/// and hashing feeds exactly the byte view (`hash_input`) to the
/// accumulator, so equal instances hand the accumulator identical input.
pub proof fn lemma_equal_instances_hash_alike(x: ByteN, y: ByteN)
    requires
        x.eq_spec(&y),
    ensures
        x@ == y@,
{
}

/// The rendering of one byte value: decimal, or `0x` and two hexadecimal
/// digits in alternate mode.
pub open spec fn byte_text(b: u8, alternate: bool) -> Seq<char> {
    if alternate {
        hex_of_byte(b as nat)
    } else {
        dec_of(b as nat)
    }
}

/// The comma-separated rendering of a byte sequence.
pub open spec fn bytes_body(s: Seq<u8>, alternate: bool) -> Seq<char>
    decreases s.len(),
{
    if s.len() == 0 {
        Seq::<char>::empty()
    } else if s.len() == 1 {
        byte_text(s[0], alternate)
    } else {
        bytes_body(s.drop_last(), alternate) + ", "@ + byte_text(s.last(), alternate)
    }
}

/// The full rendering of a named byte sequence:
/// `<name>([<b0>, <b1>, ...])`.
pub open spec fn render_text(name: Seq<char>, bytes: Seq<u8>, alternate: bool) -> Seq<char> {
    name + "(["@ + bytes_body(bytes, alternate) + "])"@
}

/// Renders one byte value as [`byte_text`] says.
fn byte_string(b: u8, alternate: bool) -> (r: String)
    ensures
        r@ == byte_text(b, alternate),
{
    if alternate {
        hex_byte_string(b)
    } else {
        dec_string(b as usize)
    }
}

/// A wrapper around a two-byte array: at or below the threshold, native
/// array semantics suffice and no support is generated.
#[derive(Debug)]
pub struct Byte2(pub [u8; 2]);

} // verus!

