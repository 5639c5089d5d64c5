use rgb_core::attachment::{AttachId, ConcealedAttach, RevealedAttach};
use rgb_core::fungible::{
    BlindingFactor, ConcealedValue, FungibleState, FungibleType, PedersenCommitment, RangeProof,
    RevealedValue,
};
use rgb_core::media::MediaType;
use rgb_core::state::{
    Assign, ConcealedData, Failure, Info, OpId, RevealedData, SemId, StateCommitment, StateData,
    StateSchema, StateType, Status,
};
use strict_types::TypeSystem;

fn schema(kind: usize) -> StateSchema {
    match kind {
        0 => StateSchema::Declarative,
        1 => StateSchema::Fungible(FungibleType::Unsigned64Bit),
        2 => StateSchema::Structured(SemId([9u8; 32])),
        _ => StateSchema::Attachment(MediaType::with(b"image".to_vec(), b"*".to_vec())),
    }
}

fn commitment(kind: usize) -> StateCommitment {
    match kind {
        0 => StateCommitment::Void,
        1 => {
            let value = RevealedValue::with(
                FungibleState::Bits64(5),
                BlindingFactor::with_bytes([1u8; 32]).unwrap(),
            );
            StateCommitment::Fungible(ConcealedValue {
                commitment: PedersenCommitment::commit(&value),
                range_proof: RangeProof::placeholder(),
            })
        }
        2 => StateCommitment::Structured(ConcealedData([1u8; 32])),
        _ => StateCommitment::Attachment(ConcealedAttach([2u8; 32])),
    }
}

fn validate_concealed_pair(schema_kind: usize, state_kind: usize) -> Status {
    let opid = OpId([3u8; 32]);
    let assign = Assign::Confidential { state: commitment(state_kind) };
    schema(schema_kind).validate(&TypeSystem::new(), &opid, 16, &assign)
}

#[test]
fn concealed_matching_table() {
    for schema_kind in 0..4 {
        for state_kind in 0..4 {
            let status = validate_concealed_pair(schema_kind, state_kind);
            match (schema_kind, state_kind) {
                (0, 0) => {
                    assert!(status.failures.is_empty());
                    assert!(status.info.is_empty());
                }
                (1, 1) => {
                    assert_eq!(status.failures.len(), 1);
                    assert!(matches!(
                        status.failures[0],
                        Failure::BulletproofsInvalid { .. }
                    ));
                    assert!(status.info.is_empty());
                }
                (2, 2) | (3, 3) => {
                    assert!(status.failures.is_empty());
                    assert_eq!(status.info.len(), 1);
                    assert!(matches!(
                        status.info[0],
                        Info::UncheckableConfidentialState { .. }
                    ));
                }
                _ => {
                    assert_eq!(status.failures.len(), 1);
                    assert!(matches!(
                        status.failures[0],
                        Failure::StateTypeMismatch { .. }
                    ));
                    assert!(status.info.is_empty());
                }
            }
        }
    }
}

#[test]
fn concealed_mismatch_names_both_kinds() {
    let status = validate_concealed_pair(1, 3);
    match &status.failures[0] {
        Failure::StateTypeMismatch { opid, state_type, expected, found } => {
            assert_eq!(opid.0, [3u8; 32]);
            assert_eq!(*state_type, 16);
            assert!(matches!(expected, StateType::Fungible));
            assert!(matches!(found, StateType::Attachment));
        }
        _ => panic!("expected a state type mismatch"),
    }
}

#[test]
fn revealed_declarative_is_valid() {
    let opid = OpId([3u8; 32]);
    let assign = Assign::Revealed { state: StateData::Void };
    let status = StateSchema::Declarative.validate(&TypeSystem::new(), &opid, 1, &assign);
    assert!(status.is_valid());
    assert!(status.info.is_empty());
}

#[test]
fn revealed_fungible_matching_subtype_is_valid() {
    let opid = OpId([3u8; 32]);
    let value = RevealedValue::new(10);
    let assign = Assign::ConfidentialSeal { state: StateData::Fungible(value) };
    let status = schema(1).validate(&TypeSystem::new(), &opid, 1, &assign);
    assert!(status.is_valid());
}

#[test]
fn revealed_attachment_conforming_media_type_is_valid() {
    let opid = OpId([3u8; 32]);
    let attach = RevealedAttach {
        id: AttachId([7u8; 32]),
        media_type: MediaType::with(b"image".to_vec(), b"png".to_vec()),
        salt: 1,
    };
    let assign = Assign::Revealed { state: StateData::Attachment(attach) };
    let status = schema(3).validate(&TypeSystem::new(), &opid, 1, &assign);
    assert!(status.is_valid());
}

#[test]
fn revealed_attachment_media_type_mismatch_names_both_values() {
    let opid = OpId([3u8; 32]);
    let attach = RevealedAttach {
        id: AttachId([7u8; 32]),
        media_type: MediaType::with(b"video".to_vec(), b"mp4".to_vec()),
        salt: 1,
    };
    let assign = Assign::Revealed { state: StateData::Attachment(attach) };
    let status = schema(3).validate(&TypeSystem::new(), &opid, 1, &assign);
    assert_eq!(status.failures.len(), 1);
    match &status.failures[0] {
        Failure::MediaTypeMismatch { expected, found, .. } => {
            assert_eq!(expected.ty, b"image".to_vec());
            assert_eq!(expected.subtype, b"*".to_vec());
            assert_eq!(found.ty, b"video".to_vec());
            assert_eq!(found.subtype, b"mp4".to_vec());
        }
        _ => panic!("expected a media type mismatch"),
    }
}

#[test]
fn revealed_structured_payload_fails_against_empty_type_system() {
    let opid = OpId([3u8; 32]);
    let assign = Assign::Revealed { state: StateData::Structured(RevealedData(vec![1, 2, 3])) };
    let status = schema(2).validate(&TypeSystem::new(), &opid, 8, &assign);
    assert_eq!(status.failures.len(), 1);
    match &status.failures[0] {
        Failure::SchemaInvalidOwnedValue { sem_id, state_type, .. } => {
            assert_eq!(sem_id.0, [9u8; 32]);
            assert_eq!(*state_type, 8);
        }
        _ => panic!("expected a semantic type failure"),
    }
}

#[test]
fn revealed_mismatch_is_fatal() {
    let opid = OpId([3u8; 32]);
    let value = RevealedValue::new(10);
    let assign = Assign::Revealed { state: StateData::Fungible(value) };
    let status = StateSchema::Declarative.validate(&TypeSystem::new(), &opid, 1, &assign);
    assert!(!status.is_valid());
    assert!(matches!(
        status.failures[0],
        Failure::StateTypeMismatch { .. }
    ));
}

#[test]
fn status_accumulates_in_order() {
    let mut status = Status::new();
    assert!(status.is_valid());
    status.add_info(Info::UncheckableConfidentialState { opid: OpId([0u8; 32]), state_type: 1 });
    assert!(status.is_valid());
    status.add_failure(Failure::StateTypeMismatch {
        opid: OpId([0u8; 32]),
        state_type: 1,
        expected: StateType::Void,
        found: StateType::Fungible,
    });
    assert!(!status.is_valid());
    assert_eq!(status.failures.len(), 1);
    assert_eq!(status.info.len(), 1);
}
