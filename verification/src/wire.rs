//! Transport encoding: each message serializes as the concatenation of its
//! fields in declaration order, little-endian for all integer fields.
//! Optional fields are preceded by a one-byte presence flag (0 or 1) and,
//! for the variable-length ones, a four-byte little-endian byte count.
//! Fixed-size opaque fields occupy their full declared length with no
//! length prefix. Decoding rejects inputs that are too short, carry an
//! unknown discriminant (quote type, presence flag, boolean), have an
//! inconsistent length, or hold malformed text.

use vstd::prelude::*;

use crate::codec::{
    append_bytes, bytes_range, push_u16_le, push_u32_le, read_u16_le, read_u32_le, u16_from_pair,
    u16_le, u32_from_quad, u32_le,
};
use crate::msg::{RaMsg0, RaMsg1, RaMsg2, RaMsg3, RaMsg4};
use crate::types::{
    DhPublicKey, Gid, MacTag, PsSecPropDescInternal, Quote, RaError, Signature, Spid,
    DH_PUBLIC_LEN, GID_LEN, MAC_TAG_LEN, PS_SEC_PROP_LEN, QUOTE_LEN, SIGNATURE_LEN, SPID_LEN,
};
use vstd::utf8::{decode_utf8, encode_utf8, valid_utf8};

verus! {

broadcast use
    vstd::seq::group_seq_axioms,
    vstd::utf8::encode_utf8_valid_utf8,
    vstd::utf8::encode_utf8_decode_utf8,
    vstd::utf8::decode_utf8_encode_utf8;

/// The byte encoding a boolean: 1 for true, 0 for false.
pub open spec fn bool_byte(b: bool) -> u8 {
    if b {
        1u8
    } else {
        0u8
    }
}

/// Encoding of an optional variable-length blob: a presence flag, then a
/// four-byte little-endian byte count and the bytes when present.
pub open spec fn opt_blob_bytes(o: Option<Seq<u8>>) -> Seq<u8> {
    match o {
        None => seq![0u8],
        Some(bs) => seq![1u8] + u32_le(bs.len() as u32) + bs,
    }
}

/// Mathematical image of a Msg1 on the wire.
#[verifier::ext_equal]
pub ghost struct Msg1Model {
    pub gid: Seq<u8>,
    pub g_a: Seq<u8>,
}

impl Msg1Model {
    pub open spec fn wf(&self) -> bool {
        self.gid.len() == GID_LEN && self.g_a.len() == DH_PUBLIC_LEN
    }
}

impl View for RaMsg1 {
    type V = Msg1Model;

    open spec fn view(&self) -> Msg1Model {
        Msg1Model { gid: self.gid@, g_a: self.g_a@ }
    }
}

/// Mathematical image of a Msg2 on the wire.
#[verifier::ext_equal]
pub ghost struct Msg2Model {
    pub g_b: Seq<u8>,
    pub spid: Seq<u8>,
    pub quote_type: u16,
    pub sign_gb_ga: Seq<u8>,
    pub mac: Seq<u8>,
    pub sig_rl: Option<Seq<u8>>,
}

impl Msg2Model {
    pub open spec fn wf(&self) -> bool {
        &&& self.g_b.len() == DH_PUBLIC_LEN
        &&& self.spid.len() == SPID_LEN
        &&& self.quote_type <= 1
        &&& self.sign_gb_ga.len() == SIGNATURE_LEN
        &&& self.mac.len() == MAC_TAG_LEN
        &&& match self.sig_rl {
            Some(rl) => rl.len() <= u32::MAX,
            None => true,
        }
    }
}

impl View for RaMsg2 {
    type V = Msg2Model;

    open spec fn view(&self) -> Msg2Model {
        Msg2Model {
            g_b: self.g_b@,
            spid: self.spid@,
            quote_type: self.quote_type,
            sign_gb_ga: self.sign_gb_ga@,
            mac: self.mac@,
            sig_rl: match self.sig_rl {
                Some(rl) => Some(rl@),
                None => None,
            },
        }
    }
}

/// Mathematical image of a Msg3 on the wire.
#[verifier::ext_equal]
pub ghost struct Msg3Model {
    pub mac: Seq<u8>,
    pub ps_sec_prop: Option<Seq<u8>>,
    pub quote: Seq<u8>,
}

impl Msg3Model {
    pub open spec fn wf(&self) -> bool {
        &&& self.mac.len() == MAC_TAG_LEN
        &&& match self.ps_sec_prop {
            Some(p) => p.len() == PS_SEC_PROP_LEN,
            None => true,
        }
        &&& self.quote.len() == QUOTE_LEN
    }
}

impl View for RaMsg3 {
    type V = Msg3Model;

    open spec fn view(&self) -> Msg3Model {
        Msg3Model {
            mac: self.mac@,
            ps_sec_prop: match self.ps_sec_prop {
                Some(p) => Some(p@),
                None => None,
            },
            quote: self.quote@,
        }
    }
}

/// Mathematical image of a Msg4 on the wire.
#[verifier::ext_equal]
pub ghost struct Msg4Model {
    pub is_enclave_trusted: bool,
    pub is_pse_manifest_trusted: Option<bool>,
    pub pib: Option<Seq<char>>,
}

impl Msg4Model {
    pub open spec fn wf(&self) -> bool {
        match self.pib {
            Some(s) => encode_utf8(s).len() <= u32::MAX,
            None => true,
        }
    }
}

impl View for RaMsg4 {
    type V = Msg4Model;

    open spec fn view(&self) -> Msg4Model {
        Msg4Model {
            is_enclave_trusted: self.is_enclave_trusted,
            is_pse_manifest_trusted: self.is_pse_manifest_trusted,
            pib: match self.pib {
                Some(s) => Some(s@),
                None => None,
            },
        }
    }
}

/// Wire image of a Msg0: the extended group id alone.
pub open spec fn spec_encode_msg0(m: RaMsg0) -> Seq<u8> {
    u32_le(m.exgid)
}

/// Wire parse of a Msg0: exactly four bytes.
pub open spec fn spec_decode_msg0(b: Seq<u8>) -> Option<RaMsg0> {
    if b.len() == 4 {
        Some(RaMsg0 { exgid: u32_from_quad(b[0], b[1], b[2], b[3]) })
    } else {
        None
    }
}

/// Wire image of a Msg1: group id, then DH public value.
pub open spec fn spec_encode_msg1(m: Msg1Model) -> Seq<u8> {
    m.gid + m.g_a
}

/// Wire parse of a Msg1: exactly the two fixed-size fields.
pub open spec fn spec_decode_msg1(b: Seq<u8>) -> Option<Msg1Model> {
    if b.len() == GID_LEN + DH_PUBLIC_LEN {
        Some(
            Msg1Model {
                gid: b.subrange(0, GID_LEN as int),
                g_a: b.subrange(GID_LEN as int, (GID_LEN + DH_PUBLIC_LEN) as int),
            },
        )
    } else {
        None
    }
}

/// Wire image of a Msg2: the four MAC-covered fields, the tag, then the
/// optional revocation list with its presence flag and byte count.
pub open spec fn spec_encode_msg2(m: Msg2Model) -> Seq<u8> {
    m.g_b + m.spid + u16_le(m.quote_type) + m.sign_gb_ga + m.mac + opt_blob_bytes(m.sig_rl)
}

/// Offset of the quote-type field inside an encoded Msg2.
pub open spec fn msg2_qt_off() -> int {
    DH_PUBLIC_LEN + SPID_LEN
}

/// Offset of the presence flag inside an encoded Msg2.
pub open spec fn msg2_flag_off() -> int {
    DH_PUBLIC_LEN + SPID_LEN + 2 + SIGNATURE_LEN + MAC_TAG_LEN
}

/// Wire parse of a Msg2. Rejects a quote type outside {0, 1}, a presence
/// flag outside {0, 1}, and any length that does not match the layout.
pub open spec fn spec_decode_msg2(b: Seq<u8>) -> Option<Msg2Model> {
    if b.len() < msg2_flag_off() + 1 {
        None
    } else {
        let qt = u16_from_pair(b[msg2_qt_off()], b[msg2_qt_off() + 1]);
        let flag = b[msg2_flag_off()];
        if qt > 1 {
            None
        } else if flag == 0 {
            if b.len() == msg2_flag_off() + 1 {
                Some(
                    Msg2Model {
                        g_b: b.subrange(0, DH_PUBLIC_LEN as int),
                        spid: b.subrange(DH_PUBLIC_LEN as int, msg2_qt_off()),
                        quote_type: qt,
                        sign_gb_ga: b.subrange(msg2_qt_off() + 2, msg2_qt_off() + 2
                            + SIGNATURE_LEN),
                        mac: b.subrange(msg2_qt_off() + 2 + SIGNATURE_LEN, msg2_flag_off()),
                        sig_rl: None,
                    },
                )
            } else {
                None
            }
        } else if flag == 1 {
            if b.len() < msg2_flag_off() + 5 {
                None
            } else {
                let n = u32_from_quad(
                    b[msg2_flag_off() + 1],
                    b[msg2_flag_off() + 2],
                    b[msg2_flag_off() + 3],
                    b[msg2_flag_off() + 4],
                ) as int;
                if b.len() == msg2_flag_off() + 5 + n {
                    Some(
                        Msg2Model {
                            g_b: b.subrange(0, DH_PUBLIC_LEN as int),
                            spid: b.subrange(DH_PUBLIC_LEN as int, msg2_qt_off()),
                            quote_type: qt,
                            sign_gb_ga: b.subrange(msg2_qt_off() + 2, msg2_qt_off() + 2
                                + SIGNATURE_LEN),
                            mac: b.subrange(msg2_qt_off() + 2 + SIGNATURE_LEN, msg2_flag_off()),
                            sig_rl: Some(b.subrange(msg2_flag_off() + 5, msg2_flag_off() + 5 + n)),
                        },
                    )
                } else {
                    None
                }
            }
        } else {
            None
        }
    }
}

/// Wire image of a Msg3: the tag, the optional fixed-size descriptor with
/// its presence flag, then the quote.
pub open spec fn spec_encode_msg3(m: Msg3Model) -> Seq<u8> {
    m.mac + (match m.ps_sec_prop {
        None => seq![0u8],
        Some(p) => seq![1u8] + p,
    }) + m.quote
}

/// Wire parse of a Msg3. Rejects a presence flag outside {0, 1} and any
/// length that does not match the layout the flag announces.
pub open spec fn spec_decode_msg3(b: Seq<u8>) -> Option<Msg3Model> {
    if b.len() < MAC_TAG_LEN + 1 {
        None
    } else {
        let flag = b[MAC_TAG_LEN as int];
        if flag == 0 {
            if b.len() == MAC_TAG_LEN + 1 + QUOTE_LEN {
                Some(
                    Msg3Model {
                        mac: b.subrange(0, MAC_TAG_LEN as int),
                        ps_sec_prop: None,
                        quote: b.subrange(MAC_TAG_LEN + 1, MAC_TAG_LEN + 1 + QUOTE_LEN),
                    },
                )
            } else {
                None
            }
        } else if flag == 1 {
            if b.len() == MAC_TAG_LEN + 1 + PS_SEC_PROP_LEN + QUOTE_LEN {
                Some(
                    Msg3Model {
                        mac: b.subrange(0, MAC_TAG_LEN as int),
                        ps_sec_prop: Some(
                            b.subrange(MAC_TAG_LEN + 1, MAC_TAG_LEN + 1 + PS_SEC_PROP_LEN),
                        ),
                        quote: b.subrange(
                            MAC_TAG_LEN + 1 + PS_SEC_PROP_LEN,
                            MAC_TAG_LEN + 1 + PS_SEC_PROP_LEN + QUOTE_LEN,
                        ),
                    },
                )
            } else {
                None
            }
        } else {
            None
        }
    }
}

/// Wire image of a Msg4: the trust verdict byte, the optional manifest
/// verdict with its presence flag, then the optional platform-info blob
/// as a presence flag, byte count and UTF-8 bytes.
pub open spec fn spec_encode_msg4(m: Msg4Model) -> Seq<u8> {
    seq![bool_byte(m.is_enclave_trusted)] + (match m.is_pse_manifest_trusted {
        None => seq![0u8],
        Some(v) => seq![1u8, bool_byte(v)],
    }) + (match m.pib {
        None => seq![0u8],
        Some(s) => seq![1u8] + u32_le(encode_utf8(s).len() as u32) + encode_utf8(s),
    })
}

/// Wire parse of the trailing optional platform-info blob starting at
/// `off`: a presence flag, and a byte count plus that many bytes of valid
/// UTF-8 when present, reaching exactly the end of the input.
pub open spec fn spec_decode_pib(b: Seq<u8>, off: int) -> Option<Option<Seq<char>>> {
    if b.len() < off + 1 {
        None
    } else {
        let flag = b[off];
        if flag == 0 {
            if b.len() == off + 1 {
                Some(None)
            } else {
                None
            }
        } else if flag == 1 {
            if b.len() < off + 5 {
                None
            } else {
                let n = u32_from_quad(b[off + 1], b[off + 2], b[off + 3], b[off + 4]) as int;
                if b.len() == off + 5 + n {
                    let p = b.subrange(off + 5, off + 5 + n);
                    if valid_utf8(p) {
                        Some(Some(decode_utf8(p)))
                    } else {
                        None
                    }
                } else {
                    None
                }
            }
        } else {
            None
        }
    }
}

/// Wire parse of a Msg4. Rejects any boolean or presence byte outside
/// {0, 1}, a length that does not match the layout, and a platform-info
/// blob that is not valid UTF-8.
pub open spec fn spec_decode_msg4(b: Seq<u8>) -> Option<Msg4Model> {
    if b.len() < 2 {
        None
    } else {
        let t = b[0];
        if t > 1 {
            None
        } else {
            let f1 = b[1];
            if f1 == 0 {
                match spec_decode_pib(b, 2) {
                    Some(pib) => Some(
                        Msg4Model {
                            is_enclave_trusted: t == 1,
                            is_pse_manifest_trusted: None,
                            pib,
                        },
                    ),
                    None => None,
                }
            } else if f1 == 1 {
                if b.len() < 3 {
                    None
                } else {
                    let mv = b[2];
                    if mv > 1 {
                        None
                    } else {
                        match spec_decode_pib(b, 3) {
                            Some(pib) => Some(
                                Msg4Model {
                                    is_enclave_trusted: t == 1,
                                    is_pse_manifest_trusted: Some(mv == 1),
                                    pib,
                                },
                            ),
                            None => None,
                        }
                    }
                }
            } else {
                None
            }
        }
    }
}

impl RaMsg0 {
    /// Serializes this message into its wire bytes.
    pub fn encode(&self) -> (r: Vec<u8>)
        ensures
            r@ == spec_encode_msg0(*self),
    {
        let mut out: Vec<u8> = Vec::new();
        push_u32_le(&mut out, self.exgid);
        proof {
            assert(out@ =~= spec_encode_msg0(*self));
        }
        out
    }

    /// Parses a message from its wire bytes; fails on any input that is
    /// not exactly the encoding of some message.
    pub fn decode(input: &Vec<u8>) -> (r: Result<RaMsg0, RaError>)
        ensures
            match r {
                Ok(m) => spec_decode_msg0(input@) == Some(m),
                Err(e) => spec_decode_msg0(input@) is None && e == RaError::MalformedMessage,
            },
    {
        if input.len() != 4 {
            return Err(RaError::MalformedMessage);
        }
        let exgid = read_u32_le(input, 0);
        Ok(RaMsg0 { exgid })
    }
}

/// Round trip: decoding an encoded Msg0 gives back the message.
pub proof fn lemma_msg0_round_trip(m: RaMsg0)
    ensures
        spec_decode_msg0(spec_encode_msg0(m)) == Some(m),
{
    crate::codec::lemma_u32_le_from_quad(m.exgid);
}

impl RaMsg1 {
    /// Serializes this message into its wire bytes.
    pub fn encode(&self) -> (r: Vec<u8>)
        ensures
            r@ == spec_encode_msg1(self@),
    {
        let mut out: Vec<u8> = Vec::new();
        append_bytes(&mut out, self.gid.bytes.as_slice());
        append_bytes(&mut out, self.g_a.bytes.as_slice());
        proof {
            assert(out@ =~= spec_encode_msg1(self@));
        }
        out
    }

    /// Parses a message from its wire bytes; fails on any input that is
    /// not exactly the encoding of some message.
    pub fn decode(input: &Vec<u8>) -> (r: Result<RaMsg1, RaError>)
        ensures
            match r {
                Ok(m) => m.wf() && spec_decode_msg1(input@) == Some(m@),
                Err(e) => spec_decode_msg1(input@) is None && e == RaError::MalformedMessage,
            },
    {
        if input.len() != GID_LEN + DH_PUBLIC_LEN {
            return Err(RaError::MalformedMessage);
        }
        let m = RaMsg1 {
            gid: Gid { bytes: bytes_range(input, 0, GID_LEN) },
            g_a: DhPublicKey { bytes: bytes_range(input, GID_LEN, GID_LEN + DH_PUBLIC_LEN) },
        };
        proof {
            let d = spec_decode_msg1(input@);
            assert(d is Some);
            assert(m@ =~= d.unwrap());
        }
        Ok(m)
    }
}

/// Completeness: the Msg0 parse accepts exactly the encodings, so a
/// successful decode re-encodes to the very bytes received.
pub proof fn lemma_msg0_decode_complete(b: Seq<u8>, m: RaMsg0)
    requires
        spec_decode_msg0(b) == Some(m),
    ensures
        spec_encode_msg0(m) == b,
{
    crate::codec::lemma_u32_quad_le(b[0], b[1], b[2], b[3]);
    assert(spec_encode_msg0(m) =~= b);
}

/// Round trip: decoding an encoded Msg1 gives back the message.
pub proof fn lemma_msg1_round_trip(m: Msg1Model)
    requires
        m.wf(),
    ensures
        spec_decode_msg1(spec_encode_msg1(m)) == Some(m),
{
    let b = spec_encode_msg1(m);
    assert(b.len() == GID_LEN + DH_PUBLIC_LEN);
    assert(b.subrange(0, GID_LEN as int) =~= m.gid);
    assert(b.subrange(GID_LEN as int, (GID_LEN + DH_PUBLIC_LEN) as int) =~= m.g_a);
    assert(spec_decode_msg1(b).unwrap() =~= m);
}

/// Completeness: the Msg1 parse accepts exactly the encodings, so a
/// successful decode yields a well-formed message that re-encodes to the
/// very bytes received.
pub proof fn lemma_msg1_decode_complete(b: Seq<u8>, m: Msg1Model)
    requires
        spec_decode_msg1(b) == Some(m),
    ensures
        m.wf(),
        spec_encode_msg1(m) == b,
{
    assert(spec_encode_msg1(m) =~= b);
}

impl RaMsg2 {
    /// Serializes this message into its wire bytes.
    pub fn encode(&self) -> (r: Vec<u8>)
        requires
            self.sig_rl matches Some(rl) ==> rl@.len() <= u32::MAX,
        ensures
            r@ == spec_encode_msg2(self@),
    {
        let mut out: Vec<u8> = Vec::new();
        append_bytes(&mut out, self.g_b.bytes.as_slice());
        append_bytes(&mut out, self.spid.bytes.as_slice());
        push_u16_le(&mut out, self.quote_type);
        append_bytes(&mut out, self.sign_gb_ga.bytes.as_slice());
        append_bytes(&mut out, self.mac.bytes.as_slice());
        match &self.sig_rl {
            None => {
                out.push(0u8);
            },
            Some(rl) => {
                out.push(1u8);
                let n = rl.len();
                push_u32_le(&mut out, n as u32);
                append_bytes(&mut out, rl.as_slice());
            },
        }
        proof {
            assert(out@ =~= spec_encode_msg2(self@));
        }
        out
    }

    /// Parses a message from its wire bytes; fails on any input that is
    /// not exactly the encoding of some message, in particular on a quote
    /// type or presence flag outside {0, 1} and on an inconsistent length.
    pub fn decode(input: &Vec<u8>) -> (r: Result<RaMsg2, RaError>)
        ensures
            match r {
                Ok(m) => m.wf() && spec_decode_msg2(input@) == Some(m@),
                Err(e) => spec_decode_msg2(input@) is None && e == RaError::MalformedMessage,
            },
    {
        let qt_off: usize = DH_PUBLIC_LEN + SPID_LEN;
        let sig_off: usize = qt_off + 2;
        let mac_off: usize = sig_off + SIGNATURE_LEN;
        let flag_off: usize = mac_off + MAC_TAG_LEN;
        let n = input.len();
        if n < flag_off + 1 {
            return Err(RaError::MalformedMessage);
        }
        let quote_type = read_u16_le(input, qt_off);
        if quote_type > 1 {
            return Err(RaError::MalformedMessage);
        }
        let flag = input[flag_off];
        let sig_rl: Option<Vec<u8>> = if flag == 0 {
            if n != flag_off + 1 {
                return Err(RaError::MalformedMessage);
            }
            None
        } else if flag == 1 {
            if n < flag_off + 5 {
                return Err(RaError::MalformedMessage);
            }
            let len32 = read_u32_le(input, flag_off + 1);
            if len32 as usize != n - (flag_off + 5) {
                return Err(RaError::MalformedMessage);
            }
            Some(bytes_range(input, flag_off + 5, n))
        } else {
            return Err(RaError::MalformedMessage);
        };
        let m = RaMsg2 {
            g_b: DhPublicKey { bytes: bytes_range(input, 0, DH_PUBLIC_LEN) },
            spid: Spid { bytes: bytes_range(input, DH_PUBLIC_LEN, qt_off) },
            quote_type,
            sign_gb_ga: Signature { bytes: bytes_range(input, sig_off, mac_off) },
            mac: MacTag { bytes: bytes_range(input, mac_off, flag_off) },
            sig_rl,
        };
        proof {
            let d = spec_decode_msg2(input@);
            assert(d is Some);
            assert(m@ =~= d.unwrap());
        }
        Ok(m)
    }
}

/// Round trip: decoding an encoded Msg2 gives back the message.
pub proof fn lemma_msg2_round_trip(m: Msg2Model)
    requires
        m.wf(),
    ensures
        spec_decode_msg2(spec_encode_msg2(m)) == Some(m),
{
    let b = spec_encode_msg2(m);
    let front = m.g_b + m.spid + u16_le(m.quote_type) + m.sign_gb_ga + m.mac;
    assert((m.g_b + m.spid).len() == msg2_qt_off());
    assert((m.g_b + m.spid + u16_le(m.quote_type)).len() == msg2_qt_off() + 2);
    assert((m.g_b + m.spid + u16_le(m.quote_type) + m.sign_gb_ga).len() == msg2_qt_off() + 2
        + SIGNATURE_LEN);
    assert(front.len() == msg2_flag_off());
    assert(b == front + opt_blob_bytes(m.sig_rl));
    assert(b[msg2_qt_off()] == u16_le(m.quote_type)[0]);
    assert(b[msg2_qt_off() + 1] == u16_le(m.quote_type)[1]);
    crate::codec::lemma_u16_le_from_pair(m.quote_type);
    assert(b.len() >= msg2_flag_off() + 1);
    assert(b[msg2_flag_off()] == opt_blob_bytes(m.sig_rl)[0]);
    assert(b.subrange(0, DH_PUBLIC_LEN as int) =~= m.g_b);
    assert(b.subrange(DH_PUBLIC_LEN as int, msg2_qt_off()) =~= m.spid);
    assert(b.subrange(msg2_qt_off() + 2, msg2_qt_off() + 2 + SIGNATURE_LEN) =~= m.sign_gb_ga);
    assert(b.subrange(msg2_qt_off() + 2 + SIGNATURE_LEN, msg2_flag_off()) =~= m.mac);
    match m.sig_rl {
        None => {
            assert(b[msg2_flag_off()] == 0);
            assert(b.len() == msg2_flag_off() + 1);
            assert(spec_decode_msg2(b).unwrap() =~= m);
        },
        Some(rl) => {
            let tail = opt_blob_bytes(m.sig_rl);
            assert(tail == seq![1u8] + u32_le(rl.len() as u32) + rl);
            assert(b[msg2_flag_off()] == 1);
            crate::codec::lemma_u32_le_from_quad(rl.len() as u32);
            assert((seq![1u8] + u32_le(rl.len() as u32)).len() == 5);
            assert(b[msg2_flag_off() + 1] == u32_le(rl.len() as u32)[0]);
            assert(b[msg2_flag_off() + 2] == u32_le(rl.len() as u32)[1]);
            assert(b[msg2_flag_off() + 3] == u32_le(rl.len() as u32)[2]);
            assert(b[msg2_flag_off() + 4] == u32_le(rl.len() as u32)[3]);
            assert(u32_from_quad(
                b[msg2_flag_off() + 1],
                b[msg2_flag_off() + 2],
                b[msg2_flag_off() + 3],
                b[msg2_flag_off() + 4],
            ) == rl.len() as u32);
            assert(rl.len() as u32 as int == rl.len());
            assert(b.len() == msg2_flag_off() + 5 + rl.len());
            assert(b.subrange(msg2_flag_off() + 5, msg2_flag_off() + 5 + rl.len() as int)
                =~= rl);
            assert(spec_decode_msg2(b).unwrap() =~= m);
        },
    }
}

/// Completeness: the Msg2 parse accepts exactly the encodings, so a
/// successful decode yields a well-formed message that re-encodes to the
/// very bytes received.
pub proof fn lemma_msg2_decode_complete(b: Seq<u8>, m: Msg2Model)
    requires
        spec_decode_msg2(b) == Some(m),
    ensures
        m.wf(),
        spec_encode_msg2(m) == b,
{
    crate::codec::lemma_u16_pair_le(b[msg2_qt_off()], b[msg2_qt_off() + 1]);
    assert(u16_le(m.quote_type) =~= seq![b[msg2_qt_off()], b[msg2_qt_off() + 1]]);
    let flag = b[msg2_flag_off()];
    if flag == 0 {
        assert(opt_blob_bytes(m.sig_rl) =~= seq![b[msg2_flag_off()]]);
        assert(spec_encode_msg2(m) =~= b);
    } else {
        let n = u32_from_quad(
            b[msg2_flag_off() + 1],
            b[msg2_flag_off() + 2],
            b[msg2_flag_off() + 3],
            b[msg2_flag_off() + 4],
        );
        crate::codec::lemma_u32_quad_le(
            b[msg2_flag_off() + 1],
            b[msg2_flag_off() + 2],
            b[msg2_flag_off() + 3],
            b[msg2_flag_off() + 4],
        );
        let rl = b.subrange(msg2_flag_off() + 5, msg2_flag_off() + 5 + n as int);
        assert(m.sig_rl == Some(rl));
        assert(rl.len() as u32 == n);
        assert(opt_blob_bytes(m.sig_rl) == seq![1u8] + u32_le(n) + rl);
        assert(spec_encode_msg2(m) =~= b);
    }
}

/// Quote-type validation: any wire image whose quote-type field holds a
/// value outside {0, 1} is rejected by the Msg2 parse, whatever the rest
/// of the bytes hold.
pub proof fn lemma_msg2_rejects_unknown_quote_type(b: Seq<u8>)
    requires
        b.len() >= msg2_flag_off() + 1,
        u16_from_pair(b[msg2_qt_off()], b[msg2_qt_off() + 1]) > 1,
    ensures
        spec_decode_msg2(b) is None,
{
}

impl RaMsg3 {
    /// Serializes this message into its wire bytes.
    pub fn encode(&self) -> (r: Vec<u8>)
        ensures
            r@ == spec_encode_msg3(self@),
    {
        let mut out: Vec<u8> = Vec::new();
        append_bytes(&mut out, self.mac.bytes.as_slice());
        match &self.ps_sec_prop {
            None => {
                out.push(0u8);
            },
            Some(p) => {
                out.push(1u8);
                append_bytes(&mut out, p.inner.as_slice());
            },
        }
        append_bytes(&mut out, self.quote.bytes.as_slice());
        proof {
            assert(out@ =~= spec_encode_msg3(self@));
        }
        out
    }

    /// Parses a message from its wire bytes; fails on any input that is
    /// not exactly the encoding of some message, in particular on a
    /// presence flag outside {0, 1} and on an inconsistent length.
    pub fn decode(input: &Vec<u8>) -> (r: Result<RaMsg3, RaError>)
        ensures
            match r {
                Ok(m) => m.wf() && spec_decode_msg3(input@) == Some(m@),
                Err(e) => spec_decode_msg3(input@) is None && e == RaError::MalformedMessage,
            },
    {
        let n = input.len();
        if n < MAC_TAG_LEN + 1 {
            return Err(RaError::MalformedMessage);
        }
        let flag = input[MAC_TAG_LEN];
        let (ps_sec_prop, quote_off): (Option<PsSecPropDescInternal>, usize) = if flag == 0 {
            if n != MAC_TAG_LEN + 1 + QUOTE_LEN {
                return Err(RaError::MalformedMessage);
            }
            (None, MAC_TAG_LEN + 1)
        } else if flag == 1 {
            if n != MAC_TAG_LEN + 1 + PS_SEC_PROP_LEN + QUOTE_LEN {
                return Err(RaError::MalformedMessage);
            }
            let p = PsSecPropDescInternal {
                inner: bytes_range(input, MAC_TAG_LEN + 1, MAC_TAG_LEN + 1 + PS_SEC_PROP_LEN),
            };
            (Some(p), MAC_TAG_LEN + 1 + PS_SEC_PROP_LEN)
        } else {
            return Err(RaError::MalformedMessage);
        };
        let m = RaMsg3 {
            mac: MacTag { bytes: bytes_range(input, 0, MAC_TAG_LEN) },
            ps_sec_prop,
            quote: Quote { bytes: bytes_range(input, quote_off, quote_off + QUOTE_LEN) },
        };
        proof {
            let d = spec_decode_msg3(input@);
            assert(d is Some);
            assert(m@ =~= d.unwrap());
        }
        Ok(m)
    }
}

/// Round trip: decoding an encoded Msg3 gives back the message.
pub proof fn lemma_msg3_round_trip(m: Msg3Model)
    requires
        m.wf(),
    ensures
        spec_decode_msg3(spec_encode_msg3(m)) == Some(m),
{
    let b = spec_encode_msg3(m);
    let mid = match m.ps_sec_prop {
        None => seq![0u8],
        Some(p) => seq![1u8] + p,
    };
    assert(b == m.mac + mid + m.quote);
    assert((m.mac + mid).len() == MAC_TAG_LEN + mid.len());
    assert(b[MAC_TAG_LEN as int] == mid[0]);
    assert(b.subrange(0, MAC_TAG_LEN as int) =~= m.mac);
    match m.ps_sec_prop {
        None => {
            assert(b.len() == MAC_TAG_LEN + 1 + QUOTE_LEN);
            assert(b[MAC_TAG_LEN as int] == 0);
            assert(b.subrange(MAC_TAG_LEN + 1, MAC_TAG_LEN + 1 + QUOTE_LEN) =~= m.quote);
            assert(spec_decode_msg3(b).unwrap() =~= m);
        },
        Some(p) => {
            assert(b.len() == MAC_TAG_LEN + 1 + PS_SEC_PROP_LEN + QUOTE_LEN);
            assert(b[MAC_TAG_LEN as int] == 1);
            assert(b.subrange(MAC_TAG_LEN + 1, MAC_TAG_LEN + 1 + PS_SEC_PROP_LEN) =~= p);
            assert(b.subrange(
                MAC_TAG_LEN + 1 + PS_SEC_PROP_LEN,
                MAC_TAG_LEN + 1 + PS_SEC_PROP_LEN + QUOTE_LEN,
            ) =~= m.quote);
            assert(spec_decode_msg3(b).unwrap() =~= m);
        },
    }
}

/// Completeness: the Msg3 parse accepts exactly the encodings, so a
/// successful decode yields a well-formed message that re-encodes to the
/// very bytes received.
pub proof fn lemma_msg3_decode_complete(b: Seq<u8>, m: Msg3Model)
    requires
        spec_decode_msg3(b) == Some(m),
    ensures
        m.wf(),
        spec_encode_msg3(m) == b,
{
    let flag = b[MAC_TAG_LEN as int];
    if flag == 0 {
        assert(spec_encode_msg3(m) =~= b);
    } else {
        assert(spec_encode_msg3(m) =~= b);
    }
}

/// Relies on `String::from_utf8`: it succeeds exactly on valid UTF-8 input,
/// and the returned string's UTF-8 encoding is the input itself.
#[verifier::external_body]
fn string_from_utf8(v: Vec<u8>) -> (r: Option<String>)
    ensures
        match r {
            Some(s) => valid_utf8(v@) && encode_utf8(s@) == v@,
            None => !valid_utf8(v@),
        },
{
    String::from_utf8(v).ok()
}

impl RaMsg4 {
    /// Serializes this message into its wire bytes; the platform-info blob
    /// travels as its UTF-8 encoding behind a byte count.
    pub fn encode(&self) -> (r: Vec<u8>)
        requires
            self@.wf(),
        ensures
            r@ == spec_encode_msg4(self@),
    {
        let mut out: Vec<u8> = Vec::new();
        out.push(if self.is_enclave_trusted { 1u8 } else { 0u8 });
        match &self.is_pse_manifest_trusted {
            None => {
                out.push(0u8);
            },
            Some(v) => {
                out.push(1u8);
                out.push(if *v { 1u8 } else { 0u8 });
            },
        }
        match &self.pib {
            None => {
                out.push(0u8);
            },
            Some(s) => {
                out.push(1u8);
                let bs = s.as_str().as_bytes();
                let n = bs.len();
                push_u32_le(&mut out, n as u32);
                append_bytes(&mut out, bs);
            },
        }
        proof {
            assert(out@ =~= spec_encode_msg4(self@));
        }
        out
    }

    /// Parses a message from its wire bytes; fails on any input that is
    /// not exactly the encoding of some message, in particular on a
    /// boolean or presence byte outside {0, 1}, an inconsistent length,
    /// or a platform-info blob that is not valid UTF-8.
    pub fn decode(input: &Vec<u8>) -> (r: Result<RaMsg4, RaError>)
        ensures
            match r {
                Ok(m) => m@.wf() && spec_decode_msg4(input@) == Some(m@),
                Err(e) => spec_decode_msg4(input@) is None && e == RaError::MalformedMessage,
            },
    {
        let n = input.len();
        if n < 2 {
            return Err(RaError::MalformedMessage);
        }
        let t = input[0];
        if t > 1 {
            return Err(RaError::MalformedMessage);
        }
        let f1 = input[1];
        let (is_pse_manifest_trusted, off): (Option<bool>, usize) = if f1 == 0 {
            (None, 2)
        } else if f1 == 1 {
            if n < 3 {
                return Err(RaError::MalformedMessage);
            }
            let mv = input[2];
            if mv > 1 {
                return Err(RaError::MalformedMessage);
            }
            (Some(mv == 1), 3)
        } else {
            return Err(RaError::MalformedMessage);
        };
        if n < off + 1 {
            return Err(RaError::MalformedMessage);
        }
        let f2 = input[off];
        let pib: Option<String> = if f2 == 0 {
            if n != off + 1 {
                return Err(RaError::MalformedMessage);
            }
            None
        } else if f2 == 1 {
            if n < off + 5 {
                return Err(RaError::MalformedMessage);
            }
            let len32 = read_u32_le(input, off + 1);
            if len32 as usize != n - (off + 5) {
                return Err(RaError::MalformedMessage);
            }
            let pb = bytes_range(input, off + 5, n);
            match string_from_utf8(pb) {
                Some(s) => Some(s),
                None => {
                    return Err(RaError::MalformedMessage);
                },
            }
        } else {
            return Err(RaError::MalformedMessage);
        };
        let m = RaMsg4 { is_enclave_trusted: t == 1, is_pse_manifest_trusted, pib };
        proof {
            let d = spec_decode_msg4(input@);
            assert(d is Some);
            assert(m@ =~= d.unwrap());
        }
        Ok(m)
    }
}

/// Round trip: decoding an encoded Msg4 gives back the message.
pub proof fn lemma_msg4_round_trip(m: Msg4Model)
    requires
        m.wf(),
    ensures
        spec_decode_msg4(spec_encode_msg4(m)) == Some(m),
{
    let b = spec_encode_msg4(m);
    let head = seq![bool_byte(m.is_enclave_trusted)] + (match m.is_pse_manifest_trusted {
        None => seq![0u8],
        Some(v) => seq![1u8, bool_byte(v)],
    });
    let tail = match m.pib {
        None => seq![0u8],
        Some(s) => seq![1u8] + u32_le(encode_utf8(s).len() as u32) + encode_utf8(s),
    };
    assert(b == head + tail);
    let off = head.len() as int;
    match m.is_pse_manifest_trusted {
        None => {
            assert(off == 2);
            assert(b[1] == 0);
        },
        Some(v) => {
            assert(off == 3);
            assert(b[1] == 1);
            assert(b[2] == bool_byte(v));
            assert((b[2] == 1) == v);
        },
    }
    assert(b[0] == bool_byte(m.is_enclave_trusted));
    assert((b[0] == 1) == m.is_enclave_trusted);
    assert(b[off] == tail[0]);
    match m.pib {
        None => {
            assert(b[off] == 0);
            assert(b.len() == off + 1);
            assert(spec_decode_pib(b, off) == Some(None::<Seq<char>>));
        },
        Some(s) => {
            let e = encode_utf8(s);
            let nlen = e.len() as int;
            assert(nlen <= u32::MAX);
            assert(tail == seq![1u8] + u32_le(e.len() as u32) + e);
            assert((seq![1u8] + u32_le(e.len() as u32)).len() == 5);
            assert(b[off] == 1);
            crate::codec::lemma_u32_le_from_quad(e.len() as u32);
            assert(b[off + 1] == u32_le(e.len() as u32)[0]);
            assert(b[off + 2] == u32_le(e.len() as u32)[1]);
            assert(b[off + 3] == u32_le(e.len() as u32)[2]);
            assert(b[off + 4] == u32_le(e.len() as u32)[3]);
            assert(u32_from_quad(b[off + 1], b[off + 2], b[off + 3], b[off + 4]) as int == nlen);
            assert(b.len() == off + 5 + nlen);
            assert(b.subrange(off + 5, off + 5 + nlen) =~= e);
            assert(valid_utf8(e));
            assert(decode_utf8(e) == s);
            assert(spec_decode_pib(b, off) == Some(Some(s)));
        },
    }
    assert(spec_decode_msg4(b).unwrap() =~= m);
}

/// Completeness: the Msg4 parse accepts exactly the encodings, so a
/// successful decode yields a well-formed message that re-encodes to the
/// very bytes received.
pub proof fn lemma_msg4_decode_complete(b: Seq<u8>, m: Msg4Model)
    requires
        spec_decode_msg4(b) == Some(m),
    ensures
        m.wf(),
        spec_encode_msg4(m) == b,
{
    let f1 = b[1];
    let off: int = if f1 == 0 {
        2
    } else {
        3
    };
    assert(bool_byte(m.is_enclave_trusted) == b[0]);
    let f2 = b[off];
    if f2 == 0 {
        assert(spec_encode_msg4(m) =~= b);
    } else {
        let n = u32_from_quad(b[off + 1], b[off + 2], b[off + 3], b[off + 4]);
        crate::codec::lemma_u32_quad_le(b[off + 1], b[off + 2], b[off + 3], b[off + 4]);
        let p = b.subrange(off + 5, off + 5 + n as int);
        assert(valid_utf8(p));
        assert(m.pib == Some(decode_utf8(p)));
        assert(encode_utf8(decode_utf8(p)) == p);
        assert(p.len() as u32 == n);
        assert(spec_encode_msg4(m) =~= b);
    }
}

} // verus!
