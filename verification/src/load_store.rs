//! The binary codec interface of the persistence format.
//!
//! Persisted world state is a flat stream of fixed-width records with no
//! header and no count: every serializable value has one fixed byte
//! width, serialisation is injective on well-formed values, and
//! deserialisation of any byte block of the right width yields a
//! well-formed value that serialises back to exactly those bytes. Those
//! three facts together make the stream round-trip exactly.

use vstd::prelude::*;

verus! {

/// A value with a fixed-width, reversible binary encoding.
pub trait Serializeable: Sized {
    /// Well-formedness of the value (the invariant encodable values
    /// satisfy).
    spec fn wf(&self) -> bool;

    /// The fixed width, in bytes, of every encoded value.
    spec fn spec_len() -> int;

    /// The byte sequence this value encodes to.
    spec fn spec_serialize(&self) -> Seq<u8>;

    /// Every well-formed value encodes to exactly `spec_len` bytes.
    proof fn lemma_serialized_len(&self)
        requires
            self.wf(),
        ensures
            self.spec_serialize().len() == Self::spec_len(),
    ;

    /// Encodes this value.
    fn serialize(&self) -> (r: Vec<u8>)
        requires
            self.wf(),
        ensures
            r@ == self.spec_serialize(),
    ;

    /// Decodes one fixed-width block of bytes. The decoded value is
    /// well-formed and encodes back to exactly the given bytes; together
    /// with injectivity of the encoding this makes decoding undo
    /// encoding.
    fn deserialize(data: &[u8]) -> (r: Self)
        requires
            data@.len() == Self::spec_len(),
        ensures
            r.wf(),
            r.spec_serialize() == data@,
    ;
}

} // verus!
