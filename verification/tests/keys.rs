use olivia::curve::{AttestScalar, Secp256k1};
use olivia::event::Event;
use olivia::keychain::KeyChain;
use olivia::outcome::WireEventOutcome;
use schnorr_fun::fun::marker::{Mark, NonZero, Normal};
use schnorr_fun::fun::{op, Scalar, G};
use olivia::event::EventId;
use olivia::hex::{decode_hex, encode_hex, HexError};
use olivia::oracle_info::OracleInfo;
use olivia::outcome::StampedOutcome;
use olivia::seed::Seed;
use olivia::time::{start_of_minute, Timestamp};

#[test]
fn hex_round_trip() {
    let bytes = [0u8, 1, 0x7f, 0x80, 0xab, 0xff];
    let text = encode_hex(&bytes);
    assert_eq!(text, "00017f80abff");
    assert_eq!(decode_hex(text.as_bytes(), bytes.len()).unwrap(), bytes.to_vec());
    assert_eq!(decode_hex(b"ABff", 2).unwrap(), vec![0xab, 0xff]);
}

#[test]
fn hex_errors() {
    assert_eq!(decode_hex(b"abc", 2), Err(HexError::InvalidHex));
    assert_eq!(decode_hex(b"abcd", 3), Err(HexError::InvalidLength));
    assert_eq!(decode_hex(b"zz", 1), Err(HexError::InvalidHex));
    assert_eq!(HexError::InvalidLength.to_message(), "hex string had an invalid (odd) length");
}

#[test]
fn test_key_pairs_are_fixed() {
    let kp = Secp256k1::test_keypair().unwrap();
    let again = Secp256k1::test_keypair().unwrap();
    assert_eq!(kp.public_key().0, again.public_key().0);
    let nonce = Secp256k1::test_nonce_keypair().unwrap();
    assert_ne!(kp.public_key().0, nonce.public_nonce().0);
    let info = OracleInfo::test_oracle_info().unwrap();
    assert_eq!(info.id, "oracle.test");
    assert_eq!(info.oracle_keys.announcement.0, kp.public_key().0);
    assert_eq!(Secp256k1::name(), "secp256k1");
}

#[test]
fn seed_children_differ_by_tag() {
    let seed = Seed::new([42u8; 64]);
    let a = seed.child(b"a");
    let b = seed.child(b"b");
    assert_ne!(a.as_ref()[..], b.as_ref()[..]);
    assert_eq!(seed.child(b"a").as_ref()[..], a.as_ref()[..]);
    assert_ne!(seed.hash_32(b"a")[..], seed.hash_32(b"b")[..]);
}

#[test]
fn stamped_test_instance_is_the_last_outcome() {
    let id = EventId::from_str("/a/FOO_BAR.vs").unwrap();
    let stamped = StampedOutcome::test_instance(&id);
    assert_eq!(stamped.outcome.value, 2);
    assert_eq!(stamped.outcome.id, id);
}

#[test]
fn minutes_start_on_whole_minutes() {
    assert_eq!(start_of_minute(Timestamp { secs: 125, nanos: 9 }), Timestamp { secs: 120, nanos: 0 });
    assert_eq!(start_of_minute(Timestamp { secs: -1, nanos: 0 }), Timestamp { secs: -60, nanos: 0 });
}

/// The compressed encoding of `s * G`.
fn times_g(s: &AttestScalar) -> [u8; 33] {
    let s = Scalar::from_bytes(s.0).unwrap();
    op::scalar_mul_point(&s, G).mark::<NonZero>().unwrap().mark::<Normal>().to_bytes()
}

#[test]
fn anticipate_vs_attest() {
    let oracle_key = Secp256k1::test_keypair().unwrap();
    let nonce_key = Secp256k1::test_nonce_keypair().unwrap();
    let attestation_points =
        Secp256k1::anticipate_attestations(&oracle_key.public_key(), &nonce_key.public_nonce(), 5).unwrap();
    let expected = (0..5)
        .map(|i| Some(times_g(&Secp256k1::reveal_attest_scalar(&oracle_key, &nonce_key, i))))
        .collect::<Vec<_>>();
    let got = attestation_points.iter().map(|p| p.0).collect::<Vec<_>>();
    assert_eq!(got, expected);
}

#[test]
fn anticipated_points_of_an_announced_event_match_its_attestations() {
    let kc = KeyChain::new(Seed::new([7u8; 64])).unwrap();
    let id = EventId::from_str("/foo/bar/FOO_BAR.vs").unwrap();
    let oracle_event = kc.oracle_event_for(Event::from_id(id.clone())).unwrap();
    let key = kc.oracle_public_keys().olivia_v1.unwrap();
    let points = oracle_event.anticipate_attestations_olivia_v1(&key, 0).unwrap();
    assert_eq!(points.len(), 3);
    for (i, outcome) in ["FOO_win", "BAR_win", "draw"].iter().enumerate() {
        let stamped = StampedOutcome::try_from_wire_at(
            WireEventOutcome { event_id: id.clone(), outcome: outcome.to_string(), time: None },
            Timestamp { secs: 0, nanos: 0 },
        )
        .unwrap();
        let scalars = kc.olivia_v1_scalars_for_event_outcome(&stamped).unwrap();
        assert_eq!(Some(times_g(&scalars[0])), points[i].0, "outcome {}", outcome);
    }
    let mut without_olivia = oracle_event.clone();
    without_olivia.schemes.olivia_v1 = None;
    assert!(without_olivia.anticipate_attestations_olivia_v1(&key, 0).is_none());
}

#[test]
fn anticipation_refuses_bytes_that_are_no_point() {
    let kp = Secp256k1::test_keypair().unwrap();
    let nonce = Secp256k1::test_nonce_keypair().unwrap();
    // 2^256 - 1 is above the field's modulus, so it is no x-coordinate
    let not_a_point = olivia::curve::PublicKey([0xff; 32]);
    assert!(Secp256k1::anticipate_attestations(&not_a_point, &nonce.public_nonce(), 2).is_none());
    assert_eq!(Secp256k1::anticipate_attestations(&kp.public_key(), &nonce.public_nonce(), 0).unwrap().len(), 0);
}

#[test]
fn attestation_scalars_verify_only_for_their_outcome() {
    let key = Secp256k1::test_keypair().unwrap();
    let nonce = Secp256k1::test_nonce_keypair().unwrap();
    let s = Secp256k1::reveal_attest_scalar(&key, &nonce, 2);
    assert!(Secp256k1::verify_attest_scalar(&key.public_key(), &nonce.public_nonce(), 2, &s));
    assert!(!Secp256k1::verify_attest_scalar(&key.public_key(), &nonce.public_nonce(), 1, &s));
    assert!(!Secp256k1::verify_attest_scalar(&nonce.public_key(), &key.public_nonce(), 2, &s));
    assert!(!Secp256k1::verify_attest_scalar(&key.public_key(), &nonce.public_nonce(), 2, &AttestScalar([0xff; 32])));
}
