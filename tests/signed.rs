use mapper_lora::keys::file::File;
use mapper_lora::keys::KeyTrait;
use mapper_lora::lora_payload::{append_signature, expand_signature, IntoFromLoraPayload};
use mapper_lora::{AttachCandidate, Beacon, CellAttach, CellAttachResult, CellScanResult, Decimal, Error, Gps};

fn sample_beacon() -> Beacon {
    Beacon {
        gps: Gps {
            timestamp: Gps::rounded().timestamp,
            lat: Decimal::new(-50_12345, 5),
            lon: Decimal::new(120_12345, 5),
            hdop: Decimal::new(10_05, 2),
            altitude: Decimal::new(10_25, 2),
            num_sats: 5,
            speed: Decimal::new(50_50, 2),
        },
        signature: vec![0xAB, 0xCD],
    }
}

#[test]
fn beacon_payload_roundtrip_lora_signed() {
    let key = File::create_key().unwrap();
    let payload = sample_beacon();
    let bytes = payload.clone().into_lora_bytes_with_signature(&key).unwrap();
    let payload_returned =
        Beacon::from_lora_vec_with_verified_signature(&key.pubkey().unwrap(), bytes.to_vec())
            .unwrap();
    assert_eq!(payload, payload_returned);
}

#[test]
fn cell_attach_payload_roundtrip_lora_signed() {
    let key = File::create_key().unwrap();
    let payload = CellAttach {
        attach_counter: 5,
        gps: Gps::rounded(),
        candidate: AttachCandidate::from(CellScanResult::random()),
        result: CellAttachResult::Connected,
    };
    let bytes = payload.into_lora_bytes_with_signature(&key).unwrap();
    let payload_returned =
        CellAttach::from_lora_vec_with_verified_signature(&key.pubkey().unwrap(), bytes.to_vec())
            .unwrap();
    assert_eq!(payload, payload_returned);
}

#[test]
fn signed_vector_layout() {
    let key = File::create_key().unwrap();
    let payload = sample_beacon();
    let frame = payload.clone().into_lora_bytes();
    let bytes = payload.into_lora_bytes_with_signature(&key).unwrap();
    assert_eq!(&bytes[..17], &frame[..]);
    // a DER secp256k1 signature is 70 to 72 bytes; its two-byte header is left out
    assert!(bytes.len() >= 17 + 68 && bytes.len() <= 17 + 70);
    let signature = expand_signature(&bytes[17..]);
    assert_eq!(signature[0], 0x30);
    assert_eq!(signature[1] as usize, bytes.len() - 17);
}

#[test]
fn tampered_signature_fails_verification() {
    let key = File::create_key().unwrap();
    let mut bytes = sample_beacon().into_lora_bytes_with_signature(&key).unwrap();
    let last = bytes.len() - 1;
    bytes[last] ^= 0x01;
    match Beacon::from_lora_vec_with_verified_signature(&key.pubkey().unwrap(), bytes.clone()) {
        Err(Error::SignatureVerification { pubkey, msg, signature }) => {
            assert_eq!(*pubkey, key.pubkey().unwrap());
            assert_eq!(msg, bytes[..17].to_vec());
            assert_eq!(signature, expand_signature(&bytes[17..]));
        }
        other => panic!("unexpected {:?}", other),
    }
}

#[test]
fn tampered_frame_fails_verification() {
    let key = File::create_key().unwrap();
    let mut bytes = sample_beacon().into_lora_bytes_with_signature(&key).unwrap();
    bytes[3] ^= 0x80;
    assert!(matches!(
        Beacon::from_lora_vec_with_verified_signature(&key.pubkey().unwrap(), bytes),
        Err(Error::SignatureVerification { .. })
    ));
}

#[test]
fn other_key_fails_verification() {
    let key = File::create_key().unwrap();
    let other = File::create_key().unwrap();
    let bytes = sample_beacon().into_lora_bytes_with_signature(&key).unwrap();
    assert!(matches!(
        Beacon::from_lora_vec_with_verified_signature(&other.pubkey().unwrap(), bytes),
        Err(Error::SignatureVerification { .. })
    ));
}

#[test]
fn short_vector_is_malformed() {
    let key = File::create_key().unwrap();
    for size in [0usize, 1, 16] {
        match Beacon::from_lora_vec_with_verified_signature(&key.pubkey().unwrap(), vec![0; size]) {
            Err(Error::InvalidVecForParsingLoraPayload { payload, size: s }) => {
                assert_eq!(payload, "Beacon");
                assert_eq!(s, size);
            }
            other => panic!("unexpected {:?}", other),
        }
    }
    match CellAttach::from_lora_vec_with_verified_signature(&key.pubkey().unwrap(), vec![0; 31]) {
        Err(Error::InvalidVecForParsingLoraPayload { payload, size }) => {
            assert_eq!(payload, "CellAttach");
            assert_eq!(size, 31);
        }
        other => panic!("unexpected {:?}", other),
    }
}

#[test]
fn frame_without_signature_fails_verification() {
    let key = File::create_key().unwrap();
    let frame = sample_beacon().into_lora_bytes().to_vec();
    match Beacon::from_lora_vec_with_verified_signature(&key.pubkey().unwrap(), frame.clone()) {
        Err(Error::SignatureVerification { msg, signature, .. }) => {
            assert_eq!(msg, frame);
            assert_eq!(signature, vec![0x30, 0]);
        }
        other => panic!("unexpected {:?}", other),
    }
}

#[test]
fn append_and_expand_signature() {
    let frame = [1u8, 2, 3];
    let signature = [0x30u8, 3, 9, 8, 7];
    let signed = append_signature(&frame, &signature).unwrap();
    assert_eq!(signed, vec![1, 2, 3, 9, 8, 7]);
    assert_eq!(expand_signature(&signed[3..]), signature.to_vec());
    assert_eq!(expand_signature(&[]), vec![0x30, 0]);
}

#[test]
fn unexpected_signature_header() {
    for signature in [vec![], vec![0x30], vec![0x31, 1, 0], vec![0x30, 2, 0]] {
        match append_signature(&[1, 2], &signature) {
            Err(Error::UnexpectedSignatureHeader { signature: s }) => assert_eq!(s, signature),
            other => panic!("unexpected {:?}", other),
        }
    }
}

#[test]
fn key_file_signs_and_reports_public_key() {
    let key = File::create_key().unwrap();
    let signature = key.sign(b"hello").unwrap();
    assert_eq!(signature[0], 0x30);
    assert_eq!(signature[1] as usize, signature.len() - 2);
    assert_eq!(key.pubkey().unwrap(), *key.keypair.public_key());
}

#[test]
fn checked_frame_follows_the_verifier() {
    let key = File::create_key().unwrap();
    let payload = sample_beacon();
    let bytes = payload.clone().into_lora_bytes();
    let pubkey = key.pubkey().unwrap();
    let decoded = Beacon::from_checked_frame(&pubkey, bytes, vec![0x30, 0], true).unwrap();
    assert_eq!(decoded, payload);
    match Beacon::from_checked_frame(&pubkey, bytes, vec![0x30, 1, 7], false) {
        Err(Error::SignatureVerification { pubkey: k, msg, signature }) => {
            assert_eq!(*k, pubkey);
            assert_eq!(msg, bytes.to_vec());
            assert_eq!(signature, vec![0x30, 1, 7]);
        }
        other => panic!("unexpected {:?}", other),
    }
}
