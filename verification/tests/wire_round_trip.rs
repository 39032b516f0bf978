//! Transport encoding: round trips for every message and rejection of
//! malformed inputs.

use ra_common::mac::Cmac;
use ra_common::msg::{RaMsg0, RaMsg1, RaMsg2, RaMsg3, RaMsg4};
use ra_common::types::{DhPublicKey, Gid, Quote, RaError, Signature, Spid};

fn key(byte: u8) -> Cmac {
    Cmac::new(vec![byte; 16])
}

fn sample_msg2(sig_rl: Option<Vec<u8>>) -> RaMsg2 {
    let mut dh = Vec::new();
    for i in 0..32u8 {
        dh.push(0xe0 ^ i);
    }
    RaMsg2::new(
        &key(0x77),
        DhPublicKey::new(dh),
        Spid::new(vec![0x0fu8; 16]),
        1,
        Signature::new(vec![0x51u8; 64]),
        sig_rl,
    )
}

#[test]
fn msg0_round_trip() {
    let m = RaMsg0 { exgid: 0x12345678 };
    let b = m.encode();
    // Little-endian layout of the one integer field.
    assert_eq!(b, vec![0x78u8, 0x56, 0x34, 0x12]);
    assert_eq!(RaMsg0::decode(&b), Ok(m));
}

#[test]
fn msg0_rejects_wrong_length() {
    assert_eq!(RaMsg0::decode(&vec![1u8, 2, 3]), Err(RaError::MalformedMessage));
    assert_eq!(RaMsg0::decode(&vec![1u8, 2, 3, 4, 5]), Err(RaError::MalformedMessage));
}

#[test]
fn msg1_round_trip() {
    let m = RaMsg1 { gid: Gid::new(vec![1u8, 2, 3, 4]), g_a: DhPublicKey::new(vec![0xabu8; 32]) };
    let b = m.encode();
    assert_eq!(b.len(), 36);
    assert_eq!(&b[0..4], &[1u8, 2, 3, 4]);
    let d = RaMsg1::decode(&b).unwrap();
    assert_eq!(d, m);
}

#[test]
fn msg1_rejects_wrong_length() {
    assert_eq!(RaMsg1::decode(&vec![0u8; 35]), Err(RaError::MalformedMessage));
    assert_eq!(RaMsg1::decode(&vec![0u8; 37]), Err(RaError::MalformedMessage));
}

#[test]
fn msg2_round_trip_without_sig_rl() {
    let m = sample_msg2(None);
    let b = m.encode();
    assert_eq!(b.len(), 131);
    assert_eq!(b[130], 0);
    assert_eq!(RaMsg2::decode(&b).unwrap(), m);
}

#[test]
fn msg2_round_trip_with_sig_rl() {
    let m = sample_msg2(Some(vec![0xddu8, 0xee, 0xff]));
    let b = m.encode();
    assert_eq!(b.len(), 131 + 4 + 3);
    assert_eq!(b[130], 1);
    // Four-byte little-endian byte count of the revocation list.
    assert_eq!(&b[131..135], &[3u8, 0, 0, 0]);
    assert_eq!(RaMsg2::decode(&b).unwrap(), m);
}

#[test]
fn msg2_round_trip_empty_sig_rl() {
    let m = sample_msg2(Some(Vec::new()));
    let b = m.encode();
    assert_eq!(b.len(), 135);
    let d = RaMsg2::decode(&b).unwrap();
    assert_eq!(d, m);
    assert_eq!(d.sig_rl, Some(Vec::new()));
}

#[test]
fn msg2_rejects_quote_type_two() {
    let mut b = sample_msg2(None).encode();
    // The quote-type field sits after the DH value and the sp-id.
    b[48] = 2;
    b[49] = 0;
    assert_eq!(RaMsg2::decode(&b), Err(RaError::MalformedMessage));
}

#[test]
fn msg2_rejects_malformed() {
    // Too short.
    assert_eq!(RaMsg2::decode(&vec![0u8; 130]), Err(RaError::MalformedMessage));
    // Unknown presence flag.
    let mut b = sample_msg2(None).encode();
    b[130] = 2;
    assert_eq!(RaMsg2::decode(&b), Err(RaError::MalformedMessage));
    // Trailing bytes after a message without a revocation list.
    let mut b = sample_msg2(None).encode();
    b.push(0);
    assert_eq!(RaMsg2::decode(&b), Err(RaError::MalformedMessage));
    // Byte count that disagrees with the actual length.
    let mut b = sample_msg2(Some(vec![1u8, 2u8])).encode();
    b[131] = 3;
    assert_eq!(RaMsg2::decode(&b), Err(RaError::MalformedMessage));
}

#[test]
fn msg3_round_trip() {
    let smk = key(0x09);
    let quote = Quote::new(vec![0xc3u8; 1116]);
    let with_desc = RaMsg3::new(&smk, Some(vec![0x44u8; 256]), quote.clone());
    let b = with_desc.encode();
    assert_eq!(b.len(), 16 + 1 + 256 + 1116);
    assert_eq!(b[16], 1);
    assert_eq!(RaMsg3::decode(&b).unwrap(), with_desc);

    let without_desc = RaMsg3::new(&smk, None, quote);
    let b2 = without_desc.encode();
    assert_eq!(b2.len(), 16 + 1 + 1116);
    assert_eq!(b2[16], 0);
    assert_eq!(RaMsg3::decode(&b2).unwrap(), without_desc);
}

#[test]
fn msg3_rejects_malformed() {
    assert_eq!(RaMsg3::decode(&vec![0u8; 16]), Err(RaError::MalformedMessage));
    let smk = key(0x09);
    let m = RaMsg3::new(&smk, None, Quote::new(vec![0u8; 1116]));
    let mut b = m.encode();
    b[16] = 9;
    assert_eq!(RaMsg3::decode(&b), Err(RaError::MalformedMessage));
    let mut b = m.encode();
    b.pop();
    assert_eq!(RaMsg3::decode(&b), Err(RaError::MalformedMessage));
}

#[test]
fn msg4_round_trip_all_fields() {
    let m = RaMsg4 {
        is_enclave_trusted: true,
        is_pse_manifest_trusted: Some(false),
        pib: Some(String::from("platform info: \u{00e9}\u{4e16}\u{754c}")),
    };
    let b = m.encode();
    assert_eq!(RaMsg4::decode(&b).unwrap(), m);
}

#[test]
fn msg4_round_trip_minimal() {
    let m = RaMsg4 { is_enclave_trusted: false, is_pse_manifest_trusted: None, pib: None };
    let b = m.encode();
    assert_eq!(b, vec![0u8, 0, 0]);
    assert_eq!(RaMsg4::decode(&b).unwrap(), m);
}

#[test]
fn msg4_round_trip_empty_pib() {
    let m = RaMsg4 {
        is_enclave_trusted: true,
        is_pse_manifest_trusted: Some(true),
        pib: Some(String::new()),
    };
    let b = m.encode();
    assert_eq!(b, vec![1u8, 1, 1, 1, 0, 0, 0, 0]);
    assert_eq!(RaMsg4::decode(&b).unwrap(), m);
}

#[test]
fn msg4_rejects_malformed() {
    // Too short.
    assert_eq!(RaMsg4::decode(&vec![1u8]), Err(RaError::MalformedMessage));
    // Verdict byte outside {0, 1}.
    assert_eq!(RaMsg4::decode(&vec![2u8, 0, 0]), Err(RaError::MalformedMessage));
    // Manifest flag outside {0, 1}.
    assert_eq!(RaMsg4::decode(&vec![1u8, 3, 0]), Err(RaError::MalformedMessage));
    // Platform-info bytes that are not valid UTF-8.
    assert_eq!(
        RaMsg4::decode(&vec![1u8, 0, 1, 1, 0, 0, 0, 0xff]),
        Err(RaError::MalformedMessage),
    );
    // Byte count that disagrees with the actual length.
    assert_eq!(RaMsg4::decode(&vec![1u8, 0, 1, 2, 0, 0, 0, 0x61]), Err(RaError::MalformedMessage));
}
