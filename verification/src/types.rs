//! Wire value types: fixed-size opaque byte blobs wrapped in one newtype per
//! semantic kind, so that call sites cannot swap fields of equal length.

use vstd::prelude::*;

verus! {

/// Length in bytes of an EPID group identifier.
pub const GID_LEN: usize = 4;

/// Length in bytes of a service-provider identifier.
pub const SPID_LEN: usize = 16;

/// Length in bytes of a Diffie-Hellman public value.
pub const DH_PUBLIC_LEN: usize = 32;

/// Length in bytes of the asymmetric signature over the two DH public values.
pub const SIGNATURE_LEN: usize = 64;

/// Length in bytes of a message-authentication tag.
pub const MAC_TAG_LEN: usize = 16;

/// Length in bytes of the MAC key.
pub const MAC_KEY_LEN: usize = 16;

/// Length in bytes of a platform security-property descriptor.
pub const PS_SEC_PROP_LEN: usize = 256;

/// Length in bytes of an attestation quote in the reference deployment.
pub const QUOTE_LEN: usize = 1116;

/// Errors surfaced by this message layer. Structural decode failures and
/// authentication failures are deliberately the only two kinds; a tag
/// mismatch never says whether the key or the content was wrong.
#[derive(Clone, Copy, Debug, PartialEq, Eq, Structural)]
pub enum RaError {
    /// The input is shorter than the fixed layout requires, a discriminant
    /// falls outside its defined set, or a length field is inconsistent.
    MalformedMessage,
    /// The recomputed tag does not match the embedded tag.
    AuthenticationFailure,
}

/// 4-byte opaque identifier of the attesting platform's EPID group.
#[derive(Clone, Debug, PartialEq, Eq)]
pub struct Gid {
    pub bytes: Vec<u8>,
}

impl Gid {
    pub open spec fn wf(&self) -> bool {
        self.bytes@.len() == GID_LEN
    }

    pub fn new(bytes: Vec<u8>) -> (r: Self)
        requires
            bytes@.len() == GID_LEN,
        ensures
            r.wf(),
            r@ == bytes@,
    {
        Gid { bytes }
    }
}

impl View for Gid {
    type V = Seq<u8>;

    open spec fn view(&self) -> Seq<u8> {
        self.bytes@
    }
}

/// 16-byte opaque identifier of the requesting service provider.
#[derive(Clone, Debug, PartialEq, Eq)]
pub struct Spid {
    pub bytes: Vec<u8>,
}

impl Spid {
    pub open spec fn wf(&self) -> bool {
        self.bytes@.len() == SPID_LEN
    }

    pub fn new(bytes: Vec<u8>) -> (r: Self)
        requires
            bytes@.len() == SPID_LEN,
        ensures
            r.wf(),
            r@ == bytes@,
    {
        Spid { bytes }
    }
}

impl View for Spid {
    type V = Seq<u8>;

    open spec fn view(&self) -> Seq<u8> {
        self.bytes@
    }
}

/// Fixed-size public Diffie-Hellman share ("g_a" or "g_b").
#[derive(Clone, Debug, PartialEq, Eq)]
pub struct DhPublicKey {
    pub bytes: Vec<u8>,
}

impl DhPublicKey {
    pub open spec fn wf(&self) -> bool {
        self.bytes@.len() == DH_PUBLIC_LEN
    }

    pub fn new(bytes: Vec<u8>) -> (r: Self)
        requires
            bytes@.len() == DH_PUBLIC_LEN,
        ensures
            r.wf(),
            r@ == bytes@,
    {
        DhPublicKey { bytes }
    }
}

impl View for DhPublicKey {
    type V = Seq<u8>;

    open spec fn view(&self) -> Seq<u8> {
        self.bytes@
    }
}

/// Fixed-size asymmetric signature over the concatenation of both parties'
/// DH public values.
#[derive(Clone, Debug, PartialEq, Eq)]
pub struct Signature {
    pub bytes: Vec<u8>,
}

impl Signature {
    pub open spec fn wf(&self) -> bool {
        self.bytes@.len() == SIGNATURE_LEN
    }

    pub fn new(bytes: Vec<u8>) -> (r: Self)
        requires
            bytes@.len() == SIGNATURE_LEN,
        ensures
            r.wf(),
            r@ == bytes@,
    {
        Signature { bytes }
    }
}

impl View for Signature {
    type V = Seq<u8>;

    open spec fn view(&self) -> Seq<u8> {
        self.bytes@
    }
}

/// Fixed-size message-authentication tag over a canonically encoded
/// byte string.
#[derive(Clone, Debug, PartialEq, Eq)]
pub struct MacTag {
    pub bytes: Vec<u8>,
}

impl MacTag {
    pub open spec fn wf(&self) -> bool {
        self.bytes@.len() == MAC_TAG_LEN
    }

    pub fn new(bytes: Vec<u8>) -> (r: Self)
        requires
            bytes@.len() == MAC_TAG_LEN,
        ensures
            r.wf(),
            r@ == bytes@,
    {
        MacTag { bytes }
    }
}

impl View for MacTag {
    type V = Seq<u8>;

    open spec fn view(&self) -> Seq<u8> {
        self.bytes@
    }
}

/// Fixed-size opaque attestation evidence blob produced by the platform's
/// quoting mechanism. Treated as opaque: never parsed here.
#[derive(Clone, Debug, PartialEq, Eq)]
pub struct Quote {
    pub bytes: Vec<u8>,
}

impl Quote {
    pub open spec fn wf(&self) -> bool {
        self.bytes@.len() == QUOTE_LEN
    }

    pub fn new(bytes: Vec<u8>) -> (r: Self)
        requires
            bytes@.len() == QUOTE_LEN,
        ensures
            r.wf(),
            r@ == bytes@,
    {
        Quote { bytes }
    }
}

impl View for Quote {
    type V = Seq<u8>;

    open spec fn view(&self) -> Seq<u8> {
        self.bytes@
    }
}

/// Fixed-size (256-byte) opaque platform security-property descriptor;
/// its presence in a message is negotiated out of band.
#[derive(Clone, Debug, PartialEq, Eq)]
pub struct PsSecPropDescInternal {
    pub inner: Vec<u8>,
}

impl PsSecPropDescInternal {
    pub open spec fn wf(&self) -> bool {
        self.inner@.len() == PS_SEC_PROP_LEN
    }

    pub fn new(inner: Vec<u8>) -> (r: Self)
        requires
            inner@.len() == PS_SEC_PROP_LEN,
        ensures
            r.wf(),
            r@ == inner@,
    {
        PsSecPropDescInternal { inner }
    }
}

impl View for PsSecPropDescInternal {
    type V = Seq<u8>;

    open spec fn view(&self) -> Seq<u8> {
        self.inner@
    }
}

} // verus!
