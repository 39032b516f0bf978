//! Authentication behaviour: tag stability, tamper sensitivity, key
//! sensitivity, the revocation-list exclusion, and a fixed reference tag.

use ra_common::mac::Cmac;
use ra_common::msg::{msg2_build_then_verify, msg3_build_then_verify, RaMsg2, RaMsg3};
use ra_common::types::{DhPublicKey, MacTag, Quote, RaError, Signature, Spid};

fn key(byte: u8) -> Cmac {
    Cmac::new(vec![byte; 16])
}

fn sample_g_b() -> DhPublicKey {
    let mut v = Vec::new();
    for i in 0..32u8 {
        v.push(i + 1);
    }
    DhPublicKey::new(v)
}

fn sample_spid() -> Spid {
    Spid::new(vec![0u8; 16])
}

fn sample_sig() -> Signature {
    Signature::new(vec![0xa5u8; 64])
}

fn sample_msg2(smk: &Cmac, sig_rl: Option<Vec<u8>>) -> RaMsg2 {
    RaMsg2::new(smk, sample_g_b(), sample_spid(), 0, sample_sig(), sig_rl)
}

fn sample_quote() -> Quote {
    Quote::new(vec![7u8; 1116])
}

/// The canonical MAC input of the sample Msg2, assembled by hand:
/// DH value, sp-id, quote type as two little-endian bytes, signature.
fn sample_msg2_mac_input() -> Vec<u8> {
    let mut a = Vec::new();
    a.extend_from_slice(&sample_g_b().bytes);
    a.extend_from_slice(&sample_spid().bytes);
    a.extend_from_slice(&[0u8, 0u8]);
    a.extend_from_slice(&sample_sig().bytes);
    a
}

fn reference_cmac(key_bytes: &[u8], data: &[u8]) -> Vec<u8> {
    let mut m =
        <cmac::Cmac<aes::Aes128> as cmac::KeyInit>::new_from_slice(key_bytes).unwrap();
    cmac::Mac::update(&mut m, data);
    cmac::Mac::finalize(m).into_bytes().to_vec()
}

#[test]
fn aes_cmac_standard_vector() {
    // RFC 4493 example 1: AES-CMAC of the empty message under the
    // standard AES-128 example key. Anchors the MAC primitive to the
    // published algorithm.
    let key = [
        0x2bu8, 0x7e, 0x15, 0x16, 0x28, 0xae, 0xd2, 0xa6, 0xab, 0xf7, 0x15, 0x88, 0x09, 0xcf,
        0x4f, 0x3c,
    ];
    let tag = reference_cmac(&key, b"");
    let expected = vec![
        0xbbu8, 0x1d, 0x69, 0x29, 0xe9, 0x59, 0x37, 0x28, 0x7f, 0xa3, 0x7d, 0x12, 0x9b, 0x75,
        0x67, 0x46,
    ];
    assert_eq!(tag, expected);
}

#[test]
fn tag_stability_msg2() {
    let smk = key(0x2b);
    let m = sample_msg2(&smk, None);
    assert_eq!(m.verify_mac(&smk), Ok(()));
    assert!(msg2_build_then_verify(&smk, sample_g_b(), sample_spid(), 1, sample_sig(), None)
        .is_ok());
}

#[test]
fn tag_stability_msg3() {
    let smk = key(0x2b);
    let m = RaMsg3::new(&smk, Some(vec![3u8; 256]), sample_quote());
    assert_eq!(m.verify_mac(&smk), Ok(()));
    let m2 = RaMsg3::new(&smk, None, sample_quote());
    assert_eq!(m2.verify_mac(&smk), Ok(()));
    assert!(msg3_build_then_verify(&smk, None, sample_quote()).is_ok());
}

#[test]
fn tamper_msg2_covered_fields_fail() {
    let smk = key(0x11);
    // Flip one bit in each MAC-covered field in turn.
    let mut m = sample_msg2(&smk, Some(vec![9u8, 8u8, 7u8]));
    m.g_b.bytes[0] ^= 0x01;
    assert_eq!(m.verify_mac(&smk), Err(RaError::AuthenticationFailure));

    let mut m = sample_msg2(&smk, Some(vec![9u8, 8u8, 7u8]));
    m.spid.bytes[15] ^= 0x80;
    assert_eq!(m.verify_mac(&smk), Err(RaError::AuthenticationFailure));

    let mut m = sample_msg2(&smk, Some(vec![9u8, 8u8, 7u8]));
    m.quote_type ^= 1;
    assert_eq!(m.verify_mac(&smk), Err(RaError::AuthenticationFailure));

    let mut m = sample_msg2(&smk, Some(vec![9u8, 8u8, 7u8]));
    m.sign_gb_ga.bytes[63] ^= 0x10;
    assert_eq!(m.verify_mac(&smk), Err(RaError::AuthenticationFailure));
}

#[test]
fn tamper_msg2_excluded_sig_rl_still_verifies() {
    let smk = key(0x11);
    let mut m = sample_msg2(&smk, Some(vec![9u8, 8u8, 7u8]));
    m.sig_rl.as_mut().unwrap()[1] ^= 0x40;
    assert_eq!(m.verify_mac(&smk), Ok(()));
}

#[test]
fn tamper_msg3_covered_fields_fail() {
    let smk = key(0x42);
    let mut m = RaMsg3::new(&smk, Some(vec![3u8; 256]), sample_quote());
    m.ps_sec_prop.as_mut().unwrap().inner[255] ^= 0x02;
    assert_eq!(m.verify_mac(&smk), Err(RaError::AuthenticationFailure));

    let mut m = RaMsg3::new(&smk, Some(vec![3u8; 256]), sample_quote());
    m.quote.bytes[1115] ^= 0x01;
    assert_eq!(m.verify_mac(&smk), Err(RaError::AuthenticationFailure));
}

#[test]
fn key_sensitivity() {
    let k1 = key(0x01);
    let k2 = key(0x02);
    let m2 = sample_msg2(&k1, None);
    assert_eq!(m2.verify_mac(&k2), Err(RaError::AuthenticationFailure));
    let m3 = RaMsg3::new(&k1, None, sample_quote());
    assert_eq!(m3.verify_mac(&k2), Err(RaError::AuthenticationFailure));
}

#[test]
fn optional_field_exclusion() {
    let smk = key(0x33);
    let with_rl = sample_msg2(&smk, Some(vec![1u8, 2u8, 3u8, 4u8]));
    let without_rl = sample_msg2(&smk, None);
    // Identical MAC input, hence identical tags, despite the different
    // revocation lists.
    assert_eq!(with_rl.get_a(), without_rl.get_a());
    assert_eq!(with_rl.mac, without_rl.mac);
}

#[test]
fn msg2_reference_tag() {
    // Fixed 32-byte DH value, all-zero sp-id, quote type 0, fixed 64-byte
    // signature, known key.
    let smk = key(0x2b);
    let m = sample_msg2(&smk, None);
    let expected = reference_cmac(&[0x2bu8; 16], &sample_msg2_mac_input());
    assert_eq!(m.mac.bytes, expected);
    assert_eq!(m.mac, MacTag::new(expected));
    assert_eq!(m.verify_mac(&smk), Ok(()));
    let all_ones = key(0xff);
    assert_eq!(m.verify_mac(&all_ones), Err(RaError::AuthenticationFailure));
}

#[test]
fn msg3_reference_tag() {
    let smk = key(0x5c);
    let desc = vec![0xd1u8; 256];
    let m = RaMsg3::new(&smk, Some(desc.clone()), sample_quote());
    let mut input = Vec::new();
    input.extend_from_slice(&desc);
    input.extend_from_slice(&sample_quote().bytes);
    let expected = reference_cmac(&[0x5cu8; 16], &input);
    assert_eq!(m.mac.bytes, expected);
    // Absent descriptor: the MAC input is the quote alone, not zero padding.
    let m2 = RaMsg3::new(&smk, None, sample_quote());
    let expected2 = reference_cmac(&[0x5cu8; 16], &sample_quote().bytes);
    assert_eq!(m2.mac.bytes, expected2);
}
