//! Encrypted payloads and the symmetric keys that seal and open them.
//!
//! The cipher itself is not part of this library. A key type brings it along by
//! implementing [`SymmetricCryptoKey`], whose contract is all that the
//! conversions rely on: opening is a function of key material and payload, and
//! whatever sealing returns opens again to what was sealed.

use vstd::prelude::*;

verus! {

/// An encrypted payload: ciphertext together with whatever the cipher needs to
/// authenticate it. The library carries payloads and never looks inside.
#[derive(Debug, PartialEq, Eq)]
pub struct EncString {
    data: Vec<u8>,
}

impl View for EncString {
    type V = Seq<u8>;

    closed spec fn view(&self) -> Seq<u8> {
        self.data@
    }
}

impl DeepView for EncString {
    type V = Seq<u8>;

    open spec fn deep_view(&self) -> Seq<u8> {
        self@
    }
}

impl EncString {
    /// The payload that consists of `data`.
    pub fn new(data: Vec<u8>) -> (payload: EncString)
        ensures
            payload@ == data@,
    {
        EncString { data }
    }

    /// The bytes of the payload.
    pub fn as_bytes(&self) -> (bytes: &[u8])
        ensures
            bytes@ == self@,
    {
        self.data.as_slice()
    }
}

impl Clone for EncString {
    fn clone(&self) -> (copy: EncString)
        ensures
            copy@ == self@,
    {
        EncString { data: self.data.clone() }
    }
}

/// A symmetric key together with the authenticated cipher it is used with.
///
/// The view of a key is its material. The cipher is described by three
/// functions of plain byte sequences; an implementation proves that its
/// operations compute them.
pub trait SymmetricCryptoKey: Sized + View<V = Seq<u8>> {
    /// Whether `material` is well-formed key material.
    spec fn valid_material(material: Seq<u8>) -> bool;

    /// What `payload` opens to under `material`; `None` where the payload is
    /// malformed, was tampered with, or was sealed under other material.
    spec fn opened(material: Seq<u8>, payload: Seq<u8>) -> Option<Seq<u8>>;

    /// Whether `plain` can be sealed under `material`.
    spec fn sealable(material: Seq<u8>, plain: Seq<u8>) -> bool;

    /// Builds a key from raw material, or `None` where the material is not
    /// well-formed.
    fn from_bytes(material: &[u8]) -> (key: Option<Self>)
        ensures
            key is Some <==> Self::valid_material(material@),
            key matches Some(k) ==> k@ == material@,
    ;

    /// Opens `payload`.
    fn open(&self, payload: &EncString) -> (plain: Option<Vec<u8>>)
        ensures
            plain is Some <==> Self::opened(self@, payload@) is Some,
            plain matches Some(p) ==> Self::opened(self@, payload@) == Some(p@),
    ;

    /// Seals `plain`. The payload may differ from call to call; every payload
    /// returned opens to `plain` under this key.
    fn seal(&self, plain: &[u8]) -> (payload: Option<EncString>)
        ensures
            payload is Some <==> Self::sealable(self@, plain@),
            payload matches Some(p) ==> Self::opened(self@, p@) == Some(plain@),
    ;
}

} // verus!
