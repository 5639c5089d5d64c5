//! Atomic fungible values and their homomorphic commitment scheme.
//!
//! A fungible state atom is an integer number of indivisible units. It can
//! be committed to with a Pedersen commitment over the secp256k1 curve, so
//! that sums of committed values can later be proven without revealing the
//! values themselves. Concealing a revealed value, however, is a fatal
//! misuse: no sound range-proof backend is linked, and a commitment without
//! a range proof must never be presented as concealed state.

use commit_verify::Digest;
use secp256k1_zkp::rand::Rng;
use crate::misuse::MisuseError;
use crate::wire::{bytes32_eq, bytes32_lex, lex_cmp};
use vstd::prelude::*;

verus! {

/// Whether 32 bytes are a valid, nonzero scalar of the secp256k1 field;
/// exactly the inputs `secp256k1_zkp::SecretKey::from_slice` accepts.
pub uninterp spec fn secp_scalar_ok(bytes: Seq<u8>) -> bool;

/// The 33-byte serialized Pedersen commitment to `value` under blinding
/// factor `blinding`, over the fixed generator this library derives from
/// the curve's base point.
pub uninterp spec fn pedersen_of(value: u64, blinding: Seq<u8>) -> Seq<u8>;

/// Whether bytes parse as a serialized Pedersen commitment; exactly the
/// inputs `secp256k1_zkp::PedersenCommitment::from_slice` accepts.
pub uninterp spec fn pedersen_bytes_ok(bytes: Seq<u8>) -> bool;

/// Relies on `secp256k1_zkp::SecretKey::new`: rejection-samples a
/// uniformly random valid scalar from the thread-local secure generator.
#[verifier::external_body]
fn secp_random_scalar() -> (r: [u8; 32])
    ensures
        secp_scalar_ok(r@),
{
    secp256k1_zkp::SecretKey::new(&mut secp256k1_zkp::rand::thread_rng()).secret_bytes()
}

/// Relies on `secp256k1_zkp::SecretKey::from_slice`: succeeds exactly when
/// the 32 bytes are a nonzero scalar below the secp256k1 field order.
#[verifier::external_body]
fn secp_scalar_check(bytes: &[u8; 32]) -> (r: bool)
    ensures
        r == secp_scalar_ok(bytes@),
{
    secp256k1_zkp::SecretKey::from_slice(bytes).is_ok()
}

/// Relies on `secp256k1_zkp::PedersenCommitment::new` and `serialize`: the
/// commitment is a deterministic function of the value, the blinding
/// factor and the generator (fixed here, derived from a tagged hash of the
/// curve base point); `serialize` yields its stable 33-byte form, which
/// `from_slice` accepts back.
#[verifier::external_body]
fn secp_pedersen(value: u64, blinding: &[u8; 32]) -> (r: [u8; 33])
    requires
        secp_scalar_ok(blinding@),
    ensures
        r@ == pedersen_of(value, blinding@),
        pedersen_bytes_ok(r@),
{
    let secp = secp256k1_zkp::Secp256k1::new();
    let tweak = secp256k1_zkp::Tweak::from_inner(*blinding).expect("valid scalar");
    let one = secp256k1_zkp::SecretKey::from_slice(&secp256k1_zkp::constants::ONE).expect("one");
    let g = secp256k1_zkp::PublicKey::from_secret_key(&secp, &one);
    let h: [u8; 32] = commit_verify::Sha256::digest(g.serialize_uncompressed()).into();
    let generator = secp256k1_zkp::Generator::new_unblinded(&secp, secp256k1_zkp::Tag::from(h));
    secp256k1_zkp::PedersenCommitment::new(&secp, value, tweak, generator).serialize()
}

/// Relies on `secp256k1_zkp::PedersenCommitment::from_slice`: succeeds
/// exactly on the 33-byte serialized form of a commitment point.
#[verifier::external_body]
fn secp_pedersen_check(bytes: &Vec<u8>) -> (r: bool)
    ensures
        r == (bytes@.len() == 33 && pedersen_bytes_ok(bytes@)),
{
    secp256k1_zkp::PedersenCommitment::from_slice(bytes).is_ok()
}

/// Concrete representation kinds a fungible atom may use.
#[derive(Clone, Copy, PartialEq, Eq, Structural, Hash, Debug)]
pub enum FungibleType {
    /// 64-bit unsigned integer.
    Unsigned64Bit,
}

/// An atom of an additive state: an integer number of indivisible units.
/// The tag space is reserved for further bit widths.
#[derive(Clone, Copy, PartialEq, Eq, Structural, Hash, Debug)]
pub enum FungibleState {
    /// 64-bit value.
    Bits64(u64),
}

impl FungibleState {
    /// The integer carried by the atom.
    pub open spec fn spec_u64(self) -> u64 {
        match self {
            FungibleState::Bits64(v) => v,
        }
    }

    /// The representation kind the atom uses.
    pub fn fungible_type(&self) -> (r: FungibleType)
        ensures
            r == FungibleType::Unsigned64Bit,
    {
        match self {
            FungibleState::Bits64(_) => FungibleType::Unsigned64Bit,
        }
    }

    /// The value as a plain 64-bit integer.
    pub fn as_u64(&self) -> (r: u64)
        ensures
            r == self.spec_u64(),
    {
        match self {
            FungibleState::Bits64(v) => *v,
        }
    }
}

/// The textual form of a fungible amount could not be parsed.
#[derive(Clone, Copy, PartialEq, Eq, Structural, Debug)]
pub enum ParseFungibleError {
    /// The input was empty.
    Empty,
    /// The input held a byte that is not an ASCII decimal digit.
    InvalidDigit,
    /// The number does not fit in 64 bits.
    Overflow,
}

/// Whether every byte is an ASCII decimal digit.
pub open spec fn spec_all_digits(s: Seq<u8>) -> bool {
    forall|i: int| 0 <= i < s.len() ==> 48 <= #[trigger] s[i] <= 57
}

/// The number a string of ASCII digits denotes in base 10.
pub open spec fn spec_decimal_value(s: Seq<u8>) -> int
    decreases s.len(),
{
    if s.len() == 0 {
        0
    } else {
        spec_decimal_value(s.drop_last()) * 10 + (s.last() - 48)
    }
}

proof fn lemma_decimal_value_nonneg(s: Seq<u8>)
    requires
        spec_all_digits(s),
    ensures
        spec_decimal_value(s) >= 0,
    decreases s.len(),
{
    if s.len() > 0 {
        assert(spec_all_digits(s.drop_last()));
        lemma_decimal_value_nonneg(s.drop_last());
    }
}

proof fn lemma_decimal_prefix_le(s: Seq<u8>, i: int)
    requires
        spec_all_digits(s),
        0 <= i <= s.len(),
    ensures
        spec_decimal_value(s.subrange(0, i)) <= spec_decimal_value(s),
    decreases s.len() - i,
{
    if i < s.len() {
        let p = s.subrange(0, i);
        let p1 = s.subrange(0, i + 1);
        assert(p1.drop_last() =~= p);
        assert(spec_all_digits(p)) by {
            assert(forall|k: int| 0 <= k < p.len() ==> p[k] == s[k]);
        }
        lemma_decimal_value_nonneg(p);
        assert(spec_decimal_value(p1) == spec_decimal_value(p) * 10 + (p1.last() - 48));
        lemma_decimal_prefix_le(s, i + 1);
    } else {
        assert(s.subrange(0, i) =~= s);
    }
}

impl FungibleState {
    /// Parses the textual form of an amount: a plain base-10 integer
    /// into the 64-bit variant. Empty input, a byte that is no decimal
    /// digit, and a number that does not fit 64 bits are each a distinct
    /// error.
    pub fn from_decimal(digits: &[u8]) -> (r: Result<FungibleState, ParseFungibleError>)
        ensures
            match r {
                Ok(v) => digits@.len() > 0 && spec_all_digits(digits@) && spec_decimal_value(
                    digits@,
                ) <= u64::MAX && v == FungibleState::Bits64(spec_decimal_value(digits@) as u64),
                Err(ParseFungibleError::Empty) => digits@.len() == 0,
                Err(ParseFungibleError::InvalidDigit) => digits@.len() > 0 && !spec_all_digits(
                    digits@,
                ),
                Err(ParseFungibleError::Overflow) => spec_all_digits(digits@)
                    && spec_decimal_value(digits@) > u64::MAX,
            },
    {
        let n = digits.len();
        if n == 0 {
            return Err(ParseFungibleError::Empty);
        }
        let mut i: usize = 0;
        while i < n
            invariant
                0 <= i <= n,
                n == digits@.len(),
                forall|j: int| 0 <= j < i ==> 48 <= #[trigger] digits@[j] <= 57,
            decreases n - i,
        {
            let d = digits[i];
            if d < 48 || d > 57 {
                return Err(ParseFungibleError::InvalidDigit);
            }
            i += 1;
        }
        let mut acc: u64 = 0;
        let mut k: usize = 0;
        while k < n
            invariant
                0 <= k <= n,
                n == digits@.len(),
                spec_all_digits(digits@),
                acc == spec_decimal_value(digits@.subrange(0, k as int)),
            decreases n - k,
        {
            proof {
                assert(48 <= digits@[k as int] <= 57);
            }
            let d = (digits[k] - 48) as u64;
            proof {
                let p1 = digits@.subrange(0, k + 1);
                assert(p1.drop_last() =~= digits@.subrange(0, k as int));
                assert(spec_decimal_value(p1) == acc * 10 + d);
            }
            if acc > 1844674407370955161u64 || (acc == 1844674407370955161u64 && d > 5) {
                proof {
                    lemma_decimal_prefix_le(digits@, k + 1);
                }
                return Err(ParseFungibleError::Overflow);
            }
            acc = acc * 10 + d;
            k += 1;
        }
        proof {
            assert(digits@.subrange(0, n as int) =~= digits@);
        }
        Ok(FungibleState::Bits64(acc))
    }
}

impl core::str::FromStr for FungibleState {
    type Err = ParseFungibleError;

    /// Parses the textual form of an amount into the default variant.
    fn from_str(s: &str) -> Result<Self, Self::Err> {
        FungibleState::from_decimal(s.as_bytes())
    }
}

impl Default for FungibleState {
    /// The zero amount.
    fn default() -> (r: Self)
        ensures
            r == FungibleState::Bits64(0u64),
    {
        FungibleState::Bits64(0)
    }
}

/// The 32 bytes given for a blinding factor are not a valid scalar of the
/// secp256k1 prime field.
#[derive(Clone, Copy, PartialEq, Eq, Structural, Debug)]
pub struct FieldOrderOverflow;

/// Blinding factor mixed into a Pedersen commitment to hide the committed
/// value. Always a valid, nonzero scalar of the curve's field; construction
/// from arbitrary bytes fails with [`FieldOrderOverflow`] otherwise.
#[derive(Clone, Copy)]
pub struct BlindingFactor {
    bytes: [u8; 32],
}

impl View for BlindingFactor {
    type V = Seq<u8>;

    closed spec fn view(&self) -> Seq<u8> {
        self.bytes@
    }
}

impl BlindingFactor {
    #[verifier::type_invariant]
    spec fn inv(self) -> bool {
        secp_scalar_ok(self.bytes@)
    }

    /// Accepts exactly the 32-byte buffers lying in the scalar field.
    pub fn with_bytes(bytes: [u8; 32]) -> (r: Result<BlindingFactor, FieldOrderOverflow>)
        ensures
            match r {
                Ok(b) => b@ == bytes@ && secp_scalar_ok(bytes@),
                Err(_) => !secp_scalar_ok(bytes@),
            },
    {
        if secp_scalar_check(&bytes) {
            Ok(BlindingFactor { bytes })
        } else {
            Err(FieldOrderOverflow)
        }
    }

    /// Draws a fresh blinding factor from the thread-local secure
    /// generator.
    pub fn random() -> (r: BlindingFactor)
        ensures
            secp_scalar_ok(r@),
    {
        BlindingFactor { bytes: secp_random_scalar() }
    }

    /// The raw scalar bytes.
    pub fn to_bytes(&self) -> (r: [u8; 32])
        ensures
            r@ == self@,
            secp_scalar_ok(self@),
    {
        proof {
            use_type_invariant(self);
        }
        self.bytes
    }
}

/// Disclosed fungible state: the value together with the blinding factor
/// of its commitment. Immutable once constructed.
#[derive(Clone, Copy)]
pub struct RevealedValue {
    /// Original value in the smallest indivisible units.
    pub value: FungibleState,
    /// Blinding factor used in the Pedersen commitment.
    pub blinding: BlindingFactor,
}

impl RevealedValue {
    /// Constructs new state for a value, drawing a fresh blinding factor
    /// from the thread-local secure generator.
    pub fn new(value: u64) -> (r: Self)
        ensures
            r.value == FungibleState::Bits64(value),
    {
        RevealedValue { value: FungibleState::Bits64(value), blinding: BlindingFactor::random() }
    }

    /// Constructs state from a value and an explicit blinding factor, for
    /// deterministic construction.
    pub fn with(value: FungibleState, blinding: BlindingFactor) -> (r: Self)
        ensures
            r.value == value,
            r.blinding == blinding,
    {
        RevealedValue { value, blinding }
    }

    /// Concealing fungible state is a fatal misuse while no range-proof
    /// backend exists: it always fails, and never fabricates a proof.
    pub fn conceal(&self) -> (r: Result<ConcealedValue, MisuseError>)
        ensures
            r == Err::<ConcealedValue, MisuseError>(MisuseError::BulletproofsUnsupported),
    {
        Err(MisuseError::BulletproofsUnsupported)
    }

    /// The commitment serialization this value contributes to a state
    /// digest: its Pedersen commitment, and nothing else.
    pub fn commit_encode(&self) -> (r: Vec<u8>)
        ensures
            r@ == pedersen_of(self.value.spec_u64(), self.blinding@),
    {
        PedersenCommitment::commit(self).serialize()
    }
}

/// The ordering of revealed values: by value first, with the blinding
/// factor bytes as tiebreaker.
pub open spec fn spec_revealed_value_cmp(a: RevealedValue, b: RevealedValue) -> core::cmp::Ordering {
    if a.value.spec_u64() < b.value.spec_u64() {
        core::cmp::Ordering::Less
    } else if a.value.spec_u64() > b.value.spec_u64() {
        core::cmp::Ordering::Greater
    } else {
        lex_cmp(a.blinding@, b.blinding@)
    }
}

impl PartialEq for RevealedValue {
    fn eq(&self, other: &Self) -> (r: bool) {
        self.value.as_u64() == other.value.as_u64() && bytes32_eq(
            &self.blinding.to_bytes(),
            &other.blinding.to_bytes(),
        )
    }
}

impl vstd::std_specs::cmp::PartialEqSpecImpl for RevealedValue {
    open spec fn obeys_eq_spec() -> bool {
        true
    }

    open spec fn eq_spec(&self, other: &Self) -> bool {
        self.value == other.value && self.blinding@ == other.blinding@
    }
}

impl PartialOrd for RevealedValue {
    fn partial_cmp(&self, other: &Self) -> (r: Option<core::cmp::Ordering>) {
        let av = self.value.as_u64();
        let bv = other.value.as_u64();
        if av < bv {
            Some(core::cmp::Ordering::Less)
        } else if av > bv {
            Some(core::cmp::Ordering::Greater)
        } else {
            Some(bytes32_lex(&self.blinding.to_bytes(), &other.blinding.to_bytes()))
        }
    }
}

impl vstd::std_specs::cmp::PartialOrdSpecImpl for RevealedValue {
    open spec fn obeys_partial_cmp_spec() -> bool {
        true
    }

    open spec fn partial_cmp_spec(&self, other: &Self) -> Option<core::cmp::Ordering> {
        Some(spec_revealed_value_cmp(*self, *other))
    }
}

/// The bytes given for a commitment do not parse as a compressed Pedersen
/// commitment point.
#[derive(Clone, Copy, PartialEq, Eq, Structural, Debug)]
pub struct InvalidCommitmentData;

/// Opaque 33-byte Pedersen commitment to a [`FungibleState`].
#[derive(Clone, Copy)]
pub struct PedersenCommitment {
    bytes: [u8; 33],
}

impl View for PedersenCommitment {
    type V = Seq<u8>;

    closed spec fn view(&self) -> Seq<u8> {
        self.bytes@
    }
}

impl PedersenCommitment {
    #[verifier::type_invariant]
    spec fn inv(self) -> bool {
        pedersen_bytes_ok(self.bytes@)
    }

    /// Commits to the value under its blinding factor. Deterministic: the
    /// commitment bytes are a function of value and blinding factor alone.
    pub fn commit(revealed: &RevealedValue) -> (r: Self)
        ensures
            r@ == pedersen_of(revealed.value.spec_u64(), revealed.blinding@),
    {
        let value = revealed.value.as_u64();
        let blinding = revealed.blinding.to_bytes();
        PedersenCommitment { bytes: secp_pedersen(value, &blinding) }
    }

    /// The 33-byte serialized commitment, which is also its wire form.
    pub fn serialize(&self) -> (r: Vec<u8>)
        ensures
            r@ == self@,
            self@.len() == 33,
            pedersen_bytes_ok(self@),
    {
        proof {
            use_type_invariant(self);
        }
        vstd::slice::slice_to_vec(self.bytes.as_slice())
    }

    /// Parses a commitment from its wire form: exactly 33 bytes that parse
    /// as a commitment point.
    pub fn deserialize(bytes: &Vec<u8>) -> (r: Result<Self, InvalidCommitmentData>)
        ensures
            match r {
                Ok(c) => c@ == bytes@ && bytes@.len() == 33 && pedersen_bytes_ok(bytes@),
                Err(_) => !(bytes@.len() == 33 && pedersen_bytes_ok(bytes@)),
            },
    {
        if bytes.len() == 33 && secp_pedersen_check(bytes) {
            let mut arr = [0u8; 33];
            let mut i: usize = 0;
            while i < 33
                invariant
                    0 <= i <= 33,
                    bytes@.len() == 33,
                    pedersen_bytes_ok(bytes@),
                    arr@.len() == 33,
                    forall|j: int| 0 <= j < i ==> arr@[j] == bytes@[j],
                decreases 33 - i,
            {
                arr[i] = bytes[i];
                i += 1;
            }
            proof {
                assert(arr@ =~= bytes@);
            }
            Ok(PedersenCommitment { bytes: arr })
        } else {
            Err(InvalidCommitmentData)
        }
    }
}

/// Committing a revealed value is deterministic: two commitments to the
/// same value under the same blinding factor are byte-identical, however
/// often they are recomputed.
pub proof fn lemma_commitment_determinism(a: RevealedValue, b: RevealedValue)
    requires
        a.value == b.value,
        a.blinding@ == b.blinding@,
    ensures
        pedersen_of(a.value.spec_u64(), a.blinding@) == pedersen_of(b.value.spec_u64(), b.blinding@),
{
}

/// Relies on rand's `Rng::fill` through the thread-local secure generator:
/// fills a buffer with random bytes. Nothing can be promised of them.
#[verifier::external_body]
fn random_noise() -> (r: [u8; 512])
{
    let mut noise = [0u8; 512];
    secp256k1_zkp::rand::thread_rng().fill(&mut noise[..]);
    noise
}

/// A dumb placeholder for a future range-proof backend: unstructured
/// noise of the size a real proof would occupy.
#[derive(Clone, Copy)]
pub struct NoiseDumb {
    /// The noise bytes; drawn at random so that a placeholder carries no
    /// structure whatsoever.
    pub bytes: [u8; 512],
}

impl NoiseDumb {
    /// Fresh random noise.
    pub fn random() -> (r: NoiseDumb) {
        NoiseDumb { bytes: random_noise() }
    }
}

/// Range proof accompanying a Pedersen commitment, showing the committed
/// value does not overflow under commitment arithmetic. Only a placeholder
/// variant exists today, and it always fails verification.
#[derive(Clone, Copy)]
pub enum RangeProof {
    /// Value used while no range-proof backend is available. Always fails
    /// validation.
    Placeholder(NoiseDumb),
}

impl RangeProof {
    /// The only constructible proof today: random placeholder noise.
    pub fn placeholder() -> (r: RangeProof) {
        RangeProof::Placeholder(NoiseDumb::random())
    }
}

/// Marker of the Pedersen commitment protocol under which fungible state
/// is concealed.
pub struct PedersenProtocol;

/// Errors verifying range proofs.
#[derive(Clone, Copy)]
pub enum RangeProofError {
    /// The blinding factor is invalid for the commitment.
    InvalidBlinding(BlindingFactor),
    /// No range-proof backend is linked into this build, so no proof can
    /// be verified at all.
    BulletproofsAbsent,
}

/// Concealed fungible state: the commitment, and a range proof that is
/// auxiliary to it. Only the commitment enters the state's cryptographic
/// digest.
#[derive(Clone, Copy)]
pub struct ConcealedValue {
    /// Pedersen commitment to the original [`FungibleState`].
    pub commitment: PedersenCommitment,
    /// Range proof that the committed value stays within type bounds.
    pub range_proof: RangeProof,
}

impl ConcealedValue {
    /// Verifies the range proof against the commitment. The placeholder
    /// proof never verifies: an unproven concealed amount is never valid.
    pub fn verify(&self) -> (r: bool)
        ensures
            !r,
    {
        match self.range_proof {
            RangeProof::Placeholder(_) => false,
        }
    }

    /// Reports the validity of the range proof. Always the distinguished
    /// "no backend" error today, so that callers surface the gap instead
    /// of trusting an unproven amount.
    pub fn verify_range_proof(&self) -> (r: Result<bool, RangeProofError>)
        ensures
            r == Err::<bool, RangeProofError>(RangeProofError::BulletproofsAbsent),
    {
        Err(RangeProofError::BulletproofsAbsent)
    }

    /// The commitment serialization this state contributes to a digest:
    /// the Pedersen commitment alone, with the range proof excluded.
    pub fn commit_encode(&self) -> (r: Vec<u8>)
        ensures
            r@ == self.commitment@,
    {
        self.commitment.serialize()
    }
}

} // verus!
