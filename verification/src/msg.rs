//! The five protocol messages, the canonical byte string each
//! authentication tag covers, and tag computation and verification.

use vstd::prelude::*;

use crate::codec::{append_bytes, push_u16_le, u16_le, zero_vec};
use crate::mac::{cmac_of, Cmac};
use crate::types::{
    DhPublicKey, Gid, MacTag, PsSecPropDescInternal, Quote, RaError, Signature, Spid, MAC_TAG_LEN,
    PS_SEC_PROP_LEN, QUOTE_LEN,
};

verus! {

/// First message of the exchange: the extended EPID group id.
/// Unauthenticated: no shared key exists yet.
#[derive(Clone, Copy, Debug, PartialEq, Eq, Structural)]
pub struct RaMsg0 {
    pub exgid: u32,
}

/// Prover's opening message: its EPID group id and its DH public value.
/// Unauthenticated: no shared key exists yet.
#[derive(Clone, Debug, PartialEq, Eq)]
pub struct RaMsg1 {
    pub gid: Gid,
    pub g_a: DhPublicKey,
}

impl RaMsg1 {
    pub open spec fn wf(&self) -> bool {
        self.gid.wf() && self.g_a.wf()
    }
}

/// Verifier's authenticated response: its DH public value, the service
/// provider id, the quote type it requests, its signature over both DH
/// values, the tag over the four preceding fields, and an optional
/// signature revocation list that the tag deliberately does not cover.
#[derive(Clone, Debug, PartialEq, Eq)]
pub struct RaMsg2 {
    pub g_b: DhPublicKey,
    pub spid: Spid,
    /// Unlinkable quote (0) or linkable quote (1); no other value is valid.
    pub quote_type: u16,
    pub sign_gb_ga: Signature,
    pub mac: MacTag,
    pub sig_rl: Option<Vec<u8>>,
}

impl RaMsg2 {
    pub open spec fn wf(&self) -> bool {
        &&& self.g_b.wf()
        &&& self.spid.wf()
        &&& self.quote_type <= 1
        &&& self.sign_gb_ga.wf()
        &&& self.mac.wf()
        &&& match self.sig_rl {
            Some(rl) => rl@.len() <= u32::MAX,
            None => true,
        }
    }

    /// The canonical byte string this message's tag covers: DH public value,
    /// then service-provider id, then the quote type as two little-endian
    /// bytes, then the signature. The revocation list and the tag itself are
    /// excluded by protocol design.
    pub open spec fn mac_input(&self) -> Seq<u8> {
        self.g_b@ + self.spid@ + u16_le(self.quote_type) + self.sign_gb_ga@
    }

    /// The embedded tag is the MAC of this message's canonical byte string
    /// under `smk`.
    pub open spec fn mac_ok(&self, smk: Cmac) -> bool {
        self.mac@ == cmac_of(smk@, self.mac_input())
    }

    /// Builds the message: populates the fields and embeds the tag computed
    /// over the canonical encoding of the MAC-covered fields under `smk`.
    pub fn new(
        smk: &Cmac,
        g_b: DhPublicKey,
        spid: Spid,
        quote_type: u16,
        sign_gb_ga: Signature,
        sig_rl: Option<Vec<u8>>,
    ) -> (r: Self)
        requires
            smk.wf(),
            g_b.wf(),
            spid.wf(),
            quote_type <= 1,
            sign_gb_ga.wf(),
            sig_rl matches Some(rl) ==> rl@.len() <= u32::MAX,
        ensures
            r.wf(),
            r.g_b == g_b,
            r.spid == spid,
            r.quote_type == quote_type,
            r.sign_gb_ga == sign_gb_ga,
            r.sig_rl == sig_rl,
            r.mac_ok(*smk),
    {
        let mut msg2 = RaMsg2 {
            g_b,
            spid,
            quote_type,
            sign_gb_ga,
            mac: MacTag { bytes: zero_vec(MAC_TAG_LEN) },
            sig_rl,
        };
        let a = msg2.get_a();
        msg2.mac = smk.sign(&a);
        msg2
    }

    /// Recomputes the canonical encoding from the message's own fields,
    /// computes the expected tag under `smk`, and compares it against the
    /// embedded tag in constant time. Succeeds exactly when they match;
    /// a mismatch never says whether the key or the content was wrong.
    pub fn verify_mac(&self, smk: &Cmac) -> (r: Result<(), RaError>)
        requires
            smk.wf(),
            self.mac.wf(),
        ensures
            r is Ok <==> self.mac_ok(*smk),
            r is Err ==> r == Result::<(), RaError>::Err(RaError::AuthenticationFailure),
    {
        let a = self.get_a();
        if smk.ct_verify(&a, &self.mac) {
            Ok(())
        } else {
            Err(RaError::AuthenticationFailure)
        }
    }

    /// Assembles the canonical MAC input from this message's fields.
    pub fn get_a(&self) -> (r: Vec<u8>)
        ensures
            r@ == self.mac_input(),
    {
        let mut a: Vec<u8> = Vec::new();
        append_bytes(&mut a, self.g_b.bytes.as_slice());
        append_bytes(&mut a, self.spid.bytes.as_slice());
        push_u16_le(&mut a, self.quote_type);
        append_bytes(&mut a, self.sign_gb_ga.bytes.as_slice());
        proof {
            assert(a@ =~= self.mac_input());
        }
        a
    }
}

/// Prover's authenticated evidence message: the tag, an optional security
/// property descriptor, and the attestation quote. The tag covers the
/// descriptor (only when present, contributing nothing when absent)
/// followed by the quote.
#[derive(Clone, Debug, PartialEq, Eq)]
pub struct RaMsg3 {
    pub mac: MacTag,
    pub ps_sec_prop: Option<PsSecPropDescInternal>,
    pub quote: Quote,
}

impl RaMsg3 {
    pub open spec fn wf(&self) -> bool {
        &&& self.mac.wf()
        &&& match self.ps_sec_prop {
            Some(p) => p.wf(),
            None => true,
        }
        &&& self.quote.wf()
    }

    /// The canonical byte string this message's tag covers: the security
    /// property descriptor bytes when present — nothing, not zero padding,
    /// when absent — followed by the quote bytes.
    pub open spec fn mac_input(&self) -> Seq<u8> {
        (match self.ps_sec_prop {
            Some(p) => p@,
            None => Seq::<u8>::empty(),
        }) + self.quote@
    }

    /// The embedded tag is the MAC of this message's canonical byte string
    /// under `smk`.
    pub open spec fn mac_ok(&self, smk: Cmac) -> bool {
        self.mac@ == cmac_of(smk@, self.mac_input())
    }

    /// Builds the message: wraps the optional descriptor, populates the
    /// fields and embeds the tag computed over the canonical encoding
    /// under `smk`.
    pub fn new(smk: &Cmac, ps_sec_prop: Option<Vec<u8>>, quote: Quote) -> (r: Self)
        requires
            smk.wf(),
            ps_sec_prop matches Some(v) ==> v@.len() == PS_SEC_PROP_LEN,
            quote.wf(),
        ensures
            r.wf(),
            match (ps_sec_prop, r.ps_sec_prop) {
                (Some(v), Some(p)) => p@ == v@,
                (None, None) => true,
                _ => false,
            },
            r.quote == quote,
            r.mac_ok(*smk),
    {
        let ps_sec_prop = match ps_sec_prop {
            Some(v) => Some(PsSecPropDescInternal { inner: v }),
            None => None,
        };
        let mut msg3 = RaMsg3 { mac: MacTag { bytes: zero_vec(MAC_TAG_LEN) }, ps_sec_prop, quote };
        let m = msg3.get_m();
        msg3.mac = smk.sign(&m);
        msg3
    }

    /// Recomputes the canonical encoding from the message's own fields,
    /// computes the expected tag under `smk`, and compares it against the
    /// embedded tag in constant time. Succeeds exactly when they match.
    pub fn verify_mac(&self, smk: &Cmac) -> (r: Result<(), RaError>)
        requires
            smk.wf(),
            self.mac.wf(),
        ensures
            r is Ok <==> self.mac_ok(*smk),
            r is Err ==> r == Result::<(), RaError>::Err(RaError::AuthenticationFailure),
    {
        let m = self.get_m();
        if smk.ct_verify(&m, &self.mac) {
            Ok(())
        } else {
            Err(RaError::AuthenticationFailure)
        }
    }

    /// Assembles the canonical MAC input from this message's fields.
    pub fn get_m(&self) -> (r: Vec<u8>)
        ensures
            r@ == self.mac_input(),
    {
        let mut m: Vec<u8> = Vec::new();
        match &self.ps_sec_prop {
            Some(p) => {
                append_bytes(&mut m, p.inner.as_slice());
            },
            None => {},
        }
        append_bytes(&mut m, self.quote.bytes.as_slice());
        proof {
            assert(m@ =~= self.mac_input());
        }
        m
    }
}

/// Tag stability, end to end: building a Msg2 and then verifying it under
/// the same key always succeeds, for every key and every valid combination
/// of fields. The returned message is the one that was checked.
pub fn msg2_build_then_verify(
    smk: &Cmac,
    g_b: DhPublicKey,
    spid: Spid,
    quote_type: u16,
    sign_gb_ga: Signature,
    sig_rl: Option<Vec<u8>>,
) -> (r: Result<RaMsg2, RaError>)
    requires
        smk.wf(),
        g_b.wf(),
        spid.wf(),
        quote_type <= 1,
        sign_gb_ga.wf(),
        sig_rl matches Some(rl) ==> rl@.len() <= u32::MAX,
    ensures
        r is Ok,
        r matches Ok(m) ==> m.wf() && m.mac_ok(*smk),
{
    let m = RaMsg2::new(smk, g_b, spid, quote_type, sign_gb_ga, sig_rl);
    match m.verify_mac(smk) {
        Ok(()) => Ok(m),
        Err(e) => Err(e),
    }
}

/// Tag stability, end to end: building a Msg3 and then verifying it under
/// the same key always succeeds, for every key, optional descriptor and
/// quote. The returned message is the one that was checked.
pub fn msg3_build_then_verify(smk: &Cmac, ps_sec_prop: Option<Vec<u8>>, quote: Quote) -> (r:
    Result<RaMsg3, RaError>)
    requires
        smk.wf(),
        ps_sec_prop matches Some(v) ==> v@.len() == PS_SEC_PROP_LEN,
        quote.wf(),
    ensures
        r is Ok,
        r matches Ok(m) ==> m.wf() && m.mac_ok(*smk),
{
    let m = RaMsg3::new(smk, ps_sec_prop, quote);
    match m.verify_mac(smk) {
        Ok(()) => Ok(m),
        Err(e) => Err(e),
    }
}

/// Optional-field exclusion: the canonical MAC input of Msg2 is computed
/// from the DH value, service-provider id, quote type and signature alone.
/// Two messages that agree on those fields have the same MAC input, and if
/// they also carry the same tag, the same verification outcome under every
/// key — whatever their revocation lists.
pub proof fn lemma_msg2_sig_rl_excluded(m1: RaMsg2, m2: RaMsg2)
    requires
        m1.g_b@ == m2.g_b@,
        m1.spid@ == m2.spid@,
        m1.quote_type == m2.quote_type,
        m1.sign_gb_ga@ == m2.sign_gb_ga@,
    ensures
        m1.mac_input() == m2.mac_input(),
        m1.mac@ == m2.mac@ ==> forall|smk: Cmac| m1.mac_ok(smk) == m2.mac_ok(smk),
{
}

/// Tamper sensitivity at the encoding level: the canonical MAC input of
/// Msg2 determines every MAC-covered field. Contrapositively, flipping any
/// bit of the DH value, service-provider id, quote type or signature yields
/// a different MAC input, so the embedded tag no longer matches unless the
/// MAC itself collides on the two inputs.
pub proof fn lemma_msg2_mac_input_injective(m1: RaMsg2, m2: RaMsg2)
    requires
        m1.wf(),
        m2.wf(),
        m1.mac_input() == m2.mac_input(),
    ensures
        m1.g_b@ == m2.g_b@,
        m1.spid@ == m2.spid@,
        m1.quote_type == m2.quote_type,
        m1.sign_gb_ga@ == m2.sign_gb_ga@,
{
    crate::codec::lemma_concat_parts_equal(
        m1.g_b@ + m1.spid@ + u16_le(m1.quote_type),
        m1.sign_gb_ga@,
        m2.g_b@ + m2.spid@ + u16_le(m2.quote_type),
        m2.sign_gb_ga@,
    );
    crate::codec::lemma_concat_parts_equal(
        m1.g_b@ + m1.spid@,
        u16_le(m1.quote_type),
        m2.g_b@ + m2.spid@,
        u16_le(m2.quote_type),
    );
    crate::codec::lemma_concat_parts_equal(m1.g_b@, m1.spid@, m2.g_b@, m2.spid@);
    crate::codec::lemma_u16_le_injective(m1.quote_type, m2.quote_type);
}

/// Tamper sensitivity at the encoding level: the canonical MAC input of
/// Msg3 determines both the presence and the contents of the security
/// property descriptor, and the quote. The two possible input lengths
/// differ, so presence can never be confused with absence.
pub proof fn lemma_msg3_mac_input_injective(m1: RaMsg3, m2: RaMsg3)
    requires
        m1.wf(),
        m2.wf(),
        m1.mac_input() == m2.mac_input(),
    ensures
        match (m1.ps_sec_prop, m2.ps_sec_prop) {
            (Some(p1), Some(p2)) => p1@ == p2@,
            (None, None) => true,
            _ => false,
        },
        m1.quote@ == m2.quote@,
{
    assert(m1.mac_input().len() == m2.mac_input().len());
    match (m1.ps_sec_prop, m2.ps_sec_prop) {
        (Some(p1), Some(p2)) => {
            crate::codec::lemma_concat_parts_equal(p1@, m1.quote@, p2@, m2.quote@);
        },
        (None, None) => {
            crate::codec::lemma_concat_parts_equal(
                Seq::<u8>::empty(),
                m1.quote@,
                Seq::<u8>::empty(),
                m2.quote@,
            );
        },
        (Some(p1), None) => {
            assert(m1.mac_input().len() == PS_SEC_PROP_LEN + QUOTE_LEN);
            assert(m2.mac_input().len() == QUOTE_LEN);
        },
        (None, Some(p2)) => {
            assert(m1.mac_input().len() == QUOTE_LEN);
            assert(m2.mac_input().len() == PS_SEC_PROP_LEN + QUOTE_LEN);
        },
    }
}

/// Verifier's trust decision: whether the enclave is trusted, optionally
/// whether the platform-services manifest is trusted, and an optional
/// platform-info blob. Carried over an already-authenticated channel.
#[derive(Clone, Debug, PartialEq, Eq)]
pub struct RaMsg4 {
    pub is_enclave_trusted: bool,
    pub is_pse_manifest_trusted: Option<bool>,
    pub pib: Option<String>,
}

} // verus!
