use rgb_core::fungible::{
    BlindingFactor, FieldOrderOverflow, FungibleState, FungibleType, ParseFungibleError,
    PedersenCommitment, RangeProof, RevealedValue,
};
use rgb_core::misuse::MisuseError;
use std::collections::HashSet;

fn blinding(bytes: [u8; 32]) -> BlindingFactor {
    BlindingFactor::with_bytes(bytes).expect("valid scalar")
}

#[test]
fn commitments_determinism() {
    let value = RevealedValue::new(15);

    let generators = (0..10)
        .map(|_| value.commit_encode())
        .collect::<HashSet<_>>();
    assert_eq!(generators.len(), 1);
}

#[test]
fn commitment_changes_with_value() {
    let b = blinding([1u8; 32]);
    let a = RevealedValue::with(FungibleState::Bits64(1), b);
    let c = RevealedValue::with(FungibleState::Bits64(2), b);
    assert_ne!(a.commit_encode(), c.commit_encode());
}

#[test]
fn commitment_changes_with_blinding() {
    let a = RevealedValue::with(FungibleState::Bits64(7), blinding([1u8; 32]));
    let c = RevealedValue::with(FungibleState::Bits64(7), blinding([2u8; 32]));
    assert_ne!(a.commit_encode(), c.commit_encode());
}

#[test]
fn fungible_state_accessors() {
    let v = FungibleState::Bits64(1234);
    assert_eq!(v.as_u64(), 1234);
    assert!(matches!(v.fungible_type(), FungibleType::Unsigned64Bit));
    assert_eq!(FungibleState::default().as_u64(), 0);
}

#[test]
fn blinding_factor_rejects_out_of_field_bytes() {
    assert!(matches!(
        BlindingFactor::with_bytes([0u8; 32]),
        Err(FieldOrderOverflow)
    ));
    assert!(matches!(
        BlindingFactor::with_bytes([0xFFu8; 32]),
        Err(FieldOrderOverflow)
    ));
    let ok = BlindingFactor::with_bytes([1u8; 32]).expect("valid scalar");
    assert_eq!(ok.to_bytes(), [1u8; 32]);
}

#[test]
fn random_blinding_factors_differ() {
    let a = BlindingFactor::random();
    let b = BlindingFactor::random();
    assert_ne!(a.to_bytes(), b.to_bytes());
}

#[test]
fn conceal_always_fails() {
    let value = RevealedValue::new(5);
    assert!(matches!(
        value.conceal(),
        Err(MisuseError::BulletproofsUnsupported)
    ));
}

#[test]
fn placeholder_range_proof_never_verifies() {
    let value = RevealedValue::new(5);
    let concealed = rgb_core::fungible::ConcealedValue {
        commitment: PedersenCommitment::commit(&value),
        range_proof: RangeProof::placeholder(),
    };
    assert!(!concealed.verify());
    assert!(matches!(
        concealed.verify_range_proof(),
        Err(rgb_core::fungible::RangeProofError::BulletproofsAbsent)
    ));
    assert_eq!(concealed.commit_encode(), value.commit_encode());
}

#[test]
fn pedersen_commitment_serialization_round_trip() {
    let value = RevealedValue::with(FungibleState::Bits64(999), blinding([3u8; 32]));
    let commitment = PedersenCommitment::commit(&value);
    let bytes = commitment.serialize();
    assert_eq!(bytes.len(), 33);
    let parsed = PedersenCommitment::deserialize(&bytes).expect("canonical bytes parse");
    assert_eq!(parsed.serialize(), bytes);
}

#[test]
fn pedersen_commitment_rejects_malformed_bytes() {
    assert!(PedersenCommitment::deserialize(&vec![0u8; 32]).is_err());
    assert!(PedersenCommitment::deserialize(&vec![0u8; 33]).is_err());
}

#[test]
fn revealed_values_order_by_value_first() {
    let small = RevealedValue::with(FungibleState::Bits64(1), blinding([9u8; 32]));
    let large = RevealedValue::with(FungibleState::Bits64(2), blinding([1u8; 32]));
    assert!(small < large);
    assert!(large > small);
}

#[test]
fn revealed_values_break_ties_by_blinding() {
    let a = RevealedValue::with(FungibleState::Bits64(7), blinding([1u8; 32]));
    let b = RevealedValue::with(FungibleState::Bits64(7), blinding([2u8; 32]));
    assert!(a < b);
    assert!(a == a);
    assert!(a != b);
}

#[test]
fn fungible_state_parses_plain_integers() {
    assert_eq!(
        FungibleState::from_decimal(b"123"),
        Ok(FungibleState::Bits64(123))
    );
    assert_eq!(
        "18446744073709551615".parse::<FungibleState>(),
        Ok(FungibleState::Bits64(u64::MAX))
    );
    assert_eq!(
        "0".parse::<FungibleState>(),
        Ok(FungibleState::Bits64(0))
    );
}

#[test]
fn fungible_state_parse_errors_are_distinct() {
    assert_eq!(
        FungibleState::from_decimal(b""),
        Err(ParseFungibleError::Empty)
    );
    assert_eq!(
        FungibleState::from_decimal(b"12a"),
        Err(ParseFungibleError::InvalidDigit)
    );
    assert_eq!(
        FungibleState::from_decimal(b"18446744073709551616"),
        Err(ParseFungibleError::Overflow)
    );
}
