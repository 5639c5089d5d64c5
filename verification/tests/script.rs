use amplify::confinement::SmallBlob;
use rgb_core::misuse::MisuseError;
use rgb_core::script::{
    AluScript, ContainerOverflow, DecodeError, EntryPoint, Lib, LibId, LibSite, SerializeError,
};
use strict_types::encoding::StrictSerialize;

/// A valid bytecode library whose data segment holds the given bytes.
fn lib_blob(data: Vec<u8>) -> Vec<u8> {
    let lib = aluvm::Lib {
        isae: Default::default(),
        code: SmallBlob::default(),
        data: SmallBlob::try_from(data).expect("within bound"),
        libs: Default::default(),
    };
    lib.to_strict_serialized::<0xFFFFFF>().expect("serializable").release()
}

fn small_lib() -> Lib {
    Lib::with(lib_blob(vec![1, 2, 3])).expect("valid library")
}

fn lib_id(n: usize) -> LibId {
    let mut id = [0u8; 32];
    id[0] = (n % 256) as u8;
    id[1] = (n / 256) as u8;
    LibId(id)
}

#[test]
fn entry_point_wire_form() {
    assert_eq!(EntryPoint::ValidateGenesis.strict_encode(), vec![0, 0, 0]);
    assert_eq!(
        EntryPoint::ValidateTransition(0x1234).strict_encode(),
        vec![1, 0x34, 0x12]
    );
    assert_eq!(
        EntryPoint::ValidateExtension(7).strict_encode(),
        vec![2, 7, 0]
    );
    assert_eq!(
        EntryPoint::ValidateGlobalState(0xFFFF).strict_encode(),
        vec![3, 0xFF, 0xFF]
    );
    assert_eq!(
        EntryPoint::ValidateOwnedState(1).strict_encode(),
        vec![4, 1, 0]
    );
}

#[test]
fn entry_point_decode_round_trip() {
    let points = vec![
        EntryPoint::ValidateGenesis,
        EntryPoint::ValidateTransition(0x1234),
        EntryPoint::ValidateExtension(7),
        EntryPoint::ValidateGlobalState(0xFFFF),
        EntryPoint::ValidateOwnedState(1),
    ];
    for ep in points {
        let bytes = ep.strict_encode();
        assert_eq!(EntryPoint::strict_decode(&bytes), Ok(ep));
    }
}

#[test]
fn entry_point_decode_rejects_malformed_input() {
    assert_eq!(
        EntryPoint::strict_decode(&vec![5, 0, 0]),
        Err(DecodeError::UnknownEntryPointTag(5))
    );
    assert_eq!(
        EntryPoint::strict_decode(&vec![1, 0]),
        Err(DecodeError::UnexpectedEnd)
    );
    assert_eq!(
        EntryPoint::strict_decode(&vec![1, 0, 0, 0]),
        Err(DecodeError::TrailingBytes)
    );
}

#[test]
fn lib_accepts_only_valid_bytecode() {
    assert!(Lib::with(vec![1, 2, 3]).is_err());
    let lib = small_lib();
    assert_eq!(lib.serialized(), &lib_blob(vec![1, 2, 3]));
}

#[test]
fn lib_id_matches_the_virtual_machine() {
    let blob = lib_blob(vec![9, 9]);
    let lib = Lib::with(blob.clone()).expect("valid library");
    let direct = aluvm::Lib {
        isae: Default::default(),
        code: SmallBlob::default(),
        data: SmallBlob::try_from(vec![9, 9]).unwrap(),
        libs: Default::default(),
    };
    assert_eq!(lib.lib_id().0, direct.lib_id().to_byte_array());
}

#[test]
fn library_set_holds_at_most_1024_libraries() {
    let blob = lib_blob(vec![4]);
    let mut script = AluScript::new();
    for n in 0..1024 {
        let lib = Lib::with(blob.clone()).unwrap();
        assert!(script.add_lib(lib_id(n), lib).is_ok());
    }
    let lib = Lib::with(blob.clone()).unwrap();
    assert_eq!(
        script.add_lib(lib_id(1024), lib),
        Err(ContainerOverflow::Libs)
    );
    assert_eq!(script.lib_count(), 1024);
}

#[test]
fn serializing_more_than_255_libraries_fails() {
    let blob = lib_blob(vec![4]);
    let mut script = AluScript::new();
    for n in 0..256 {
        let lib = Lib::with(blob.clone()).unwrap();
        assert!(script.add_lib(lib_id(n), lib).is_ok());
    }
    assert_eq!(script.strict_encode(), Err(SerializeError::TooManyLibs));
}

#[test]
fn serializing_an_oversized_library_fails() {
    let big = lib_blob(vec![7u8; 0xFFFF]);
    assert!(big.len() > 0xFFFF);
    let lib = Lib::with(big).expect("valid library");
    let mut script = AluScript::new();
    assert!(script.add_lib(lib_id(1), lib).is_ok());
    assert_eq!(script.strict_encode(), Err(SerializeError::LibTooLarge));
}

#[test]
fn add_lib_replaces_under_the_same_id() {
    let mut script = AluScript::new();
    let a = Lib::with(lib_blob(vec![1])).unwrap();
    let b = Lib::with(lib_blob(vec![2])).unwrap();
    assert!(script.add_lib(lib_id(1), a).is_ok());
    assert!(script.add_lib(lib_id(1), b).is_ok());
    assert_eq!(script.lib_count(), 1);
    let held = script.lib(&lib_id(1)).expect("present");
    assert_eq!(held.serialized(), &lib_blob(vec![2]));
    assert!(script.lib(&lib_id(2)).is_none());
}

#[test]
fn entry_point_lookup() {
    let mut script = AluScript::new();
    let site = LibSite::new(lib_id(5), 77);
    assert!(script
        .add_entry_point(EntryPoint::ValidateTransition(3), site)
        .is_ok());
    let found = script.site(EntryPoint::ValidateTransition(3)).expect("present");
    assert_eq!(found.lib_id.0, lib_id(5).0);
    assert_eq!(found.offset, 77);
    assert!(script.site(EntryPoint::ValidateTransition(4)).is_none());
    assert!(script.site(EntryPoint::ValidateGenesis).is_none());
}

#[test]
fn no_universal_entry_point() {
    let mut script = AluScript::new();
    assert!(matches!(
        script.entrypoint(),
        Err(MisuseError::NoUniversalEntryPoint)
    ));
    let site = LibSite::new(lib_id(5), 0);
    script.add_entry_point(EntryPoint::ValidateGenesis, site).unwrap();
    assert!(matches!(
        script.entrypoint(),
        Err(MisuseError::NoUniversalEntryPoint)
    ));
}

fn sample_script() -> AluScript {
    let mut script = AluScript::new();
    script.add_lib(lib_id(1), Lib::with(lib_blob(vec![1])).unwrap()).unwrap();
    script.add_lib(lib_id(2), Lib::with(lib_blob(vec![2, 2])).unwrap()).unwrap();
    script
        .add_entry_point(EntryPoint::ValidateGenesis, LibSite::new(lib_id(1), 0))
        .unwrap();
    script
        .add_entry_point(EntryPoint::ValidateTransition(9), LibSite::new(lib_id(2), 4))
        .unwrap();
    script
}

#[test]
fn script_wire_round_trip() {
    let script = sample_script();
    let bytes = script.strict_encode().expect("within wire bounds");
    let parsed = AluScript::strict_decode(&bytes).expect("canonical bytes parse");
    assert_eq!(parsed.lib_count(), 2);
    assert_eq!(parsed.libs().len(), script.libs().len());
    for (left, right) in parsed.libs().iter().zip(script.libs().iter()) {
        assert_eq!(left.0.0, right.0.0);
        assert_eq!(left.1.serialized(), right.1.serialized());
    }
    assert_eq!(parsed.entry_points().len(), 2);
    for (left, right) in parsed.entry_points().iter().zip(script.entry_points().iter()) {
        assert_eq!(left.0, right.0);
        assert_eq!(left.1.lib_id.0, right.1.lib_id.0);
        assert_eq!(left.1.offset, right.1.offset);
    }
    assert_eq!(parsed.strict_encode().expect("within wire bounds"), bytes);
}

#[test]
fn script_decode_rejects_malformed_input() {
    let script = sample_script();
    let bytes = script.strict_encode().unwrap();

    let truncated = bytes[..bytes.len() - 1].to_vec();
    assert!(matches!(
        AluScript::strict_decode(&truncated),
        Err(DecodeError::UnexpectedEnd)
    ));

    let mut trailing = bytes.clone();
    trailing.push(0);
    assert!(matches!(
        AluScript::strict_decode(&trailing),
        Err(DecodeError::TrailingBytes)
    ));

    assert!(matches!(
        AluScript::strict_decode(&vec![]),
        Err(DecodeError::UnexpectedEnd)
    ));
}

#[test]
fn script_decode_rejects_invalid_library_blob() {
    // One library whose 3-byte body is not a valid bytecode library.
    let mut bytes = vec![1u8];
    bytes.extend([0u8; 32]);
    bytes.extend([3, 0]);
    bytes.extend([9, 9, 9]);
    bytes.extend([0, 0]);
    assert!(matches!(
        AluScript::strict_decode(&bytes),
        Err(DecodeError::InvalidLib)
    ));
}

#[test]
fn script_decode_rejects_duplicate_library_ids() {
    let blob = lib_blob(vec![1]);
    let mut bytes = vec![2u8];
    for _ in 0..2 {
        bytes.extend([5u8; 32]);
        bytes.extend((blob.len() as u16).to_le_bytes());
        bytes.extend(blob.iter().copied());
    }
    bytes.extend([0, 0]);
    assert!(matches!(
        AluScript::strict_decode(&bytes),
        Err(DecodeError::DuplicateLib)
    ));
}

#[test]
fn script_decode_rejects_unknown_hook_tag() {
    let mut bytes = vec![0u8];
    bytes.extend([1, 0]);
    bytes.extend([9, 0, 0]);
    bytes.extend([0u8; 32]);
    bytes.extend([0, 0]);
    assert!(matches!(
        AluScript::strict_decode(&bytes),
        Err(DecodeError::UnknownEntryPointTag(9))
    ));
}

#[test]
fn script_decode_rejects_noncanonical_genesis() {
    let mut bytes = vec![0u8];
    bytes.extend([1, 0]);
    bytes.extend([0, 1, 0]);
    bytes.extend([0u8; 32]);
    bytes.extend([0, 0]);
    assert!(matches!(
        AluScript::strict_decode(&bytes),
        Err(DecodeError::NonCanonicalGenesis)
    ));
}

#[test]
fn script_decode_rejects_duplicate_hooks() {
    let mut bytes = vec![0u8];
    bytes.extend([2, 0]);
    for _ in 0..2 {
        bytes.extend([1, 3, 0]);
        bytes.extend([0u8; 32]);
        bytes.extend([0, 0]);
    }
    assert!(matches!(
        AluScript::strict_decode(&bytes),
        Err(DecodeError::DuplicateEntryPoint)
    ));
}
