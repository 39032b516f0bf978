//! Message-authentication primitive: a 128-bit key and the AES-CMAC
//! operations on it. The cipher itself lives in the `cmac` and `aes`
//! crates; this module states what those calls return and nothing more.

use vstd::prelude::*;

use crate::types::{MacTag, MAC_KEY_LEN};

verus! {

/// The AES-CMAC tag of `msg` under `key`. The tag is a pure function of the
/// key and the message bytes alone; its definition is the cipher's business,
/// so it is left uninterpreted here.
pub uninterp spec fn cmac_of(key: Seq<u8>, msg: Seq<u8>) -> Seq<u8>;

/// A message-authentication key (the "SMK" derived from the Diffie-Hellman
/// shared secret), together with the two CMAC operations that use it.
#[derive(Clone, Debug, PartialEq, Eq)]
pub struct Cmac {
    pub key: Vec<u8>,
}

impl Cmac {
    pub open spec fn wf(&self) -> bool {
        self.key@.len() == MAC_KEY_LEN
    }

    pub fn new(key: Vec<u8>) -> (r: Self)
        requires
            key@.len() == MAC_KEY_LEN,
        ensures
            r.wf(),
            r@ == key@,
    {
        Cmac { key }
    }

    /// Relies on `cmac::Cmac<aes::Aes128>` through `digest::Mac`
    /// (`new_from_slice`, `update`, `finalize`): the result is the 16-byte
    /// AES-CMAC of `data` under this key, a function of the two arguments
    /// alone.
    #[verifier::external_body]
    pub(crate) fn sign(&self, data: &Vec<u8>) -> (r: MacTag)
        requires
            self.wf(),
        ensures
            r.wf(),
            r@ == cmac_of(self.key@, data@),
    {
        let mut m = <cmac::Cmac<aes::Aes128> as cmac::KeyInit>::new_from_slice(
            self.key.as_slice(),
        ).unwrap();
        cmac::Mac::update(&mut m, data.as_slice());
        let out = cmac::Mac::finalize(m).into_bytes();
        MacTag { bytes: out.to_vec() }
    }

    /// Relies on `digest::Mac::verify_slice` for `cmac::Cmac<aes::Aes128>`:
    /// it returns `Ok` exactly when `tag` equals the AES-CMAC of `data`
    /// under this key, compared in constant time with respect to the tag
    /// value.
    #[verifier::external_body]
    pub(crate) fn ct_verify(&self, data: &Vec<u8>, tag: &MacTag) -> (r: bool)
        requires
            self.wf(),
            tag.wf(),
        ensures
            r == (tag@ == cmac_of(self.key@, data@)),
    {
        let mut m = <cmac::Cmac<aes::Aes128> as cmac::KeyInit>::new_from_slice(
            self.key.as_slice(),
        ).unwrap();
        cmac::Mac::update(&mut m, data.as_slice());
        cmac::Mac::verify_slice(m, tag.bytes.as_slice()).is_ok()
    }
}

impl View for Cmac {
    type V = Seq<u8>;

    open spec fn view(&self) -> Seq<u8> {
        self.key@
    }
}

} // verus!
