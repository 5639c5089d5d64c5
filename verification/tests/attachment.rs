use commit_verify::{Digest, Sha256};
use rgb_core::attachment::{AttachId, ConcealedAttach, RevealedAttach};
use rgb_core::media::MediaType;

fn image_png() -> MediaType {
    MediaType::with(b"image".to_vec(), b"png".to_vec())
}

#[test]
fn conceal_is_deterministic() {
    let attach = RevealedAttach { id: AttachId([7u8; 32]), media_type: image_png(), salt: 42 };
    let first = attach.conceal();
    let second = attach.conceal();
    assert_eq!(first.0, second.0);
}

#[test]
fn conceal_changes_with_salt() {
    let a = RevealedAttach { id: AttachId([7u8; 32]), media_type: image_png(), salt: 42 };
    let b = RevealedAttach { id: AttachId([7u8; 32]), media_type: image_png(), salt: 43 };
    assert_ne!(a.conceal().0, b.conceal().0);
}

#[test]
fn conceal_changes_with_id() {
    let a = RevealedAttach { id: AttachId([7u8; 32]), media_type: image_png(), salt: 42 };
    let b = RevealedAttach { id: AttachId([8u8; 32]), media_type: image_png(), salt: 42 };
    assert_ne!(a.conceal().0, b.conceal().0);
}

#[test]
fn conceal_is_sha256_of_canonical_encoding() {
    let attach = RevealedAttach { id: AttachId([9u8; 32]), media_type: image_png(), salt: 7 };
    let encoding = attach.commit_encoding();
    let expected: [u8; 32] = Sha256::digest(&encoding).into();
    assert_eq!(attach.conceal().0, expected);
    assert_eq!(ConcealedAttach::commit(&attach).0, expected);
}

#[test]
fn canonical_encoding_layout() {
    let attach = RevealedAttach { id: AttachId([1u8; 32]), media_type: image_png(), salt: 2 };
    let encoding = attach.commit_encoding();
    assert_eq!(&encoding[..32], &[1u8; 32]);
    assert_eq!(&encoding[32..40], &[5, 0, 0, 0, 0, 0, 0, 0]);
    assert_eq!(&encoding[40..45], b"image");
    assert_eq!(&encoding[45..53], &[3, 0, 0, 0, 0, 0, 0, 0]);
    assert_eq!(&encoding[53..56], b"png");
    assert_eq!(&encoding[56..64], &[2, 0, 0, 0, 0, 0, 0, 0]);
    assert_eq!(encoding.len(), 64);
}

#[test]
fn fresh_attachments_draw_distinct_salts() {
    let a = RevealedAttach::new(AttachId([7u8; 32]), image_png());
    let b = RevealedAttach::new(AttachId([7u8; 32]), image_png());
    assert_ne!(a.salt, b.salt);
}

#[test]
fn attach_id_text_form_matches_baid58() {
    let id = AttachId([5u8; 32]);
    let text = id.to_baid58_string();
    let expected = format!("{}", baid58::Baid58::<32>::with("att", [5u8; 32]));
    assert_eq!(text, expected);
    assert!(!text.is_empty());
}

#[test]
fn media_type_conformance_rules() {
    let png = image_png();
    let any_image = MediaType::with(b"image".to_vec(), b"*".to_vec());
    let anything = MediaType::with(b"*".to_vec(), b"*".to_vec());
    let video = MediaType::with(b"video".to_vec(), b"*".to_vec());
    assert!(png.conforms(&png));
    assert!(png.conforms(&any_image));
    assert!(png.conforms(&anything));
    assert!(!png.conforms(&video));
    assert!(!any_image.conforms(&png));
}

#[test]
fn attach_ids_order_bytewise() {
    let mut low = [0u8; 32];
    low[31] = 1;
    let mut high = [0u8; 32];
    high[0] = 1;
    assert!(AttachId(low) < AttachId(high));
    assert!(AttachId(low) == AttachId(low));
    assert!(AttachId(low) != AttachId(high));
}
