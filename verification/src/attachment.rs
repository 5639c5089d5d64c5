//! Attachment state: typed binary payloads referenced by content id.
//!
//! A revealed attachment carries the payload's content id, its media type
//! and a random 64-bit salt blinding low-entropy pairs against guessing.
//! Concealment is total and deterministic: a hash commitment over the
//! attachment's canonical encoding.

use crate::media::MediaType;
use crate::wire::{
    bytes32_eq, bytes32_lex, lemma_u64_le_bytes_injective, lex_cmp, push_bytes, push_u64_le,
    u64_le_bytes,
};
use commit_verify::Digest;
use secp256k1_zkp::rand::RngCore;
use vstd::prelude::*;

verus! {

/// The 32-byte SHA-256 digest of a byte string.
pub uninterp spec fn sha256_of(data: Seq<u8>) -> Seq<u8>;

/// The base-58 rendering of a 32-byte attachment id under the fixed
/// human-readable identifier `att`.
pub uninterp spec fn baid58_att_of(payload: Seq<u8>) -> Seq<char>;

/// Relies on `sha2::Sha256` (re-exported by commit_verify): the digest is
/// a deterministic function of the input bytes alone.
#[verifier::external_body]
fn sha256(data: &Vec<u8>) -> (r: [u8; 32])
    ensures
        r@ == sha256_of(data@),
{
    commit_verify::Sha256::digest(data.as_slice()).into()
}

/// Relies on rand's `RngCore::next_u64` through the thread-local secure
/// generator. Nothing can be promised of the result.
#[verifier::external_body]
fn random_u64() -> (r: u64) {
    secp256k1_zkp::rand::thread_rng().next_u64()
}

/// Relies on `baid58::Baid58::with` and its plain display form: the
/// base-58 string is a deterministic function of the payload under the
/// fixed identifier `att`.
#[verifier::external_body]
fn baid58_att(payload: &[u8; 32]) -> (r: String)
    ensures
        r@ == baid58_att_of(payload@),
{
    format!("{}", baid58::Baid58::<32>::with("att", *payload))
}

/// Unique content identifier of an attachment payload: a 32-byte digest,
/// ordered bytewise, rendered as a fixed-prefix base-58 string.
#[derive(Clone, Copy)]
pub struct AttachId(pub [u8; 32]);

impl View for AttachId {
    type V = Seq<u8>;

    open spec fn view(&self) -> Seq<u8> {
        self.0@
    }
}

impl AttachId {
    /// The stable text form of the id under the `att` prefix.
    pub fn to_baid58_string(&self) -> (r: String)
        ensures
            r@ == baid58_att_of(self@),
    {
        baid58_att(&self.0)
    }
}

impl PartialEq for AttachId {
    fn eq(&self, other: &Self) -> (r: bool) {
        bytes32_eq(&self.0, &other.0)
    }
}

impl vstd::std_specs::cmp::PartialEqSpecImpl for AttachId {
    open spec fn obeys_eq_spec() -> bool {
        true
    }

    open spec fn eq_spec(&self, other: &Self) -> bool {
        self@ == other@
    }
}

impl PartialOrd for AttachId {
    /// Ids order bytewise, lexicographically over their raw bytes.
    fn partial_cmp(&self, other: &Self) -> (r: Option<core::cmp::Ordering>) {
        Some(bytes32_lex(&self.0, &other.0))
    }
}

impl vstd::std_specs::cmp::PartialOrdSpecImpl for AttachId {
    open spec fn obeys_partial_cmp_spec() -> bool {
        true
    }

    open spec fn partial_cmp_spec(&self, other: &Self) -> Option<core::cmp::Ordering> {
        Some(lex_cmp(self@, other@))
    }
}

/// Disclosed attachment state. The salt is drawn from a secure generator
/// at construction, so that commitments to low-entropy id/media pairs
/// cannot be confirmed by guessing.
pub struct RevealedAttach {
    /// Content id of the attachment payload.
    pub id: AttachId,
    /// Media type of the payload. No registry is enforced, since
    /// non-standard types can also be used.
    pub media_type: MediaType,
    /// Blinding salt.
    pub salt: u64,
}

/// The canonical byte encoding of a revealed attachment, over which its
/// concealing commitment is computed: the 32 id bytes, each media name
/// length-prefixed, and the salt, all integers little-endian.
pub open spec fn attach_commit_encoding(a: RevealedAttach) -> Seq<u8> {
    a.id@ + u64_le_bytes(a.media_type.ty@.len() as u64) + a.media_type.ty@ + u64_le_bytes(
        a.media_type.subtype@.len() as u64,
    ) + a.media_type.subtype@ + u64_le_bytes(a.salt)
}

impl RevealedAttach {
    /// Creates new revealed attachment state for an attachment id and
    /// media type, drawing the salt from the thread-local secure
    /// generator.
    pub fn new(id: AttachId, media_type: MediaType) -> (r: Self)
        ensures
            r.id@ == id@,
            r.media_type@ == media_type@,
    {
        RevealedAttach { id, media_type, salt: random_u64() }
    }

    /// The canonical encoding the concealing commitment is computed over.
    pub fn commit_encoding(&self) -> (r: Vec<u8>)
        ensures
            r@ == attach_commit_encoding(*self),
    {
        let mut out: Vec<u8> = Vec::new();
        push_bytes(&mut out, self.id.0.as_slice());
        push_u64_le(&mut out, self.media_type.ty.len() as u64);
        push_bytes(&mut out, self.media_type.ty.as_slice());
        push_u64_le(&mut out, self.media_type.subtype.len() as u64);
        push_bytes(&mut out, self.media_type.subtype.as_slice());
        push_u64_le(&mut out, self.salt);
        out
    }

    /// Conceals the attachment into its commitment: the SHA-256 digest of
    /// the canonical encoding. Total and deterministic.
    pub fn conceal(&self) -> (r: ConcealedAttach)
        ensures
            r@ == sha256_of(attach_commit_encoding(*self)),
    {
        ConcealedAttach::commit(self)
    }
}

impl Clone for RevealedAttach {
    fn clone(&self) -> (r: Self)
        ensures
            r.id@ == self.id@,
            r.media_type@ == self.media_type@,
            r.salt == self.salt,
    {
        RevealedAttach { id: self.id, media_type: self.media_type.clone(), salt: self.salt }
    }
}

/// Commitment standing in for an attachment that is not disclosed: a
/// 32-byte digest, a pure deterministic function of the revealed form.
#[derive(Clone, Copy)]
pub struct ConcealedAttach(pub [u8; 32]);

impl View for ConcealedAttach {
    type V = Seq<u8>;

    open spec fn view(&self) -> Seq<u8> {
        self.0@
    }
}

impl ConcealedAttach {
    /// Computes the commitment to a revealed attachment.
    pub fn commit(revealed: &RevealedAttach) -> (r: ConcealedAttach)
        ensures
            r@ == sha256_of(attach_commit_encoding(*revealed)),
    {
        ConcealedAttach(sha256(&revealed.commit_encoding()))
    }
}

/// Concealment is deterministic: attachments equal in id, media type and
/// salt commit to the same digest, however often concealment is repeated.
pub proof fn lemma_attach_conceal_determinism(a: RevealedAttach, b: RevealedAttach)
    requires
        a.id@ == b.id@,
        a.media_type@ == b.media_type@,
        a.salt == b.salt,
    ensures
        sha256_of(attach_commit_encoding(a)) == sha256_of(attach_commit_encoding(b)),
{
    assert(attach_commit_encoding(a) == attach_commit_encoding(b));
}

/// Changing the salt alone changes the canonical encoding the commitment
/// is computed over: the two digests then differ unless SHA-256 collides
/// on them.
#[verifier::rlimit(50)]
pub proof fn lemma_attach_encoding_salt_injective(a: RevealedAttach, b: RevealedAttach)
    requires
        a.id@ == b.id@,
        a.media_type@ == b.media_type@,
        a.salt != b.salt,
    ensures
        attach_commit_encoding(a) != attach_commit_encoding(b),
{
    let ea = attach_commit_encoding(a);
    let eb = attach_commit_encoding(b);
    if ea == eb {
        let n = ea.len() as int;
        assert(ea.subrange(n - 8, n) =~= u64_le_bytes(a.salt));
        assert(eb.subrange(n - 8, n) =~= u64_le_bytes(b.salt));
        lemma_u64_le_bytes_injective(a.salt, b.salt);
    }
}

} // verus!
