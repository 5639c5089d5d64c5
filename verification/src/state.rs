//! Schema-driven validation of disclosed assignment state.
//!
//! For one assignment slot of one contract operation, the engine decides
//! whether the disclosed state — revealed or concealed — is consistent
//! with the schema declared for that slot, and records the outcome as
//! failures (fatal) and informational notes (non-fatal) in an
//! accumulating status. It is a pure function of its inputs; structured
//! payloads are checked against an ambient type system.

use crate::attachment::{ConcealedAttach, RevealedAttach};
use crate::fungible::{ConcealedValue, FungibleType, RangeProofError, RevealedValue};
use crate::media::{spec_conforms, MediaType, MediaTypeV};
use vstd::prelude::*;

verus! {

/// Unique identifier of a contract operation.
#[derive(Clone, Copy)]
pub struct OpId(pub [u8; 32]);

impl View for OpId {
    type V = Seq<u8>;

    open spec fn view(&self) -> Seq<u8> {
        self.0@
    }
}

/// Identifier of an assignment slot type within a schema.
pub type AssignmentType = u16;

/// Semantic identifier of a data type in the ambient type system.
#[derive(Clone, Copy)]
pub struct SemId(pub [u8; 32]);

impl View for SemId {
    type V = Seq<u8>;

    open spec fn view(&self) -> Seq<u8> {
        self.0@
    }
}

/// Raw structured state payload, to be interpreted against a semantic
/// type of the ambient type system.
pub struct RevealedData(pub Vec<u8>);

impl View for RevealedData {
    type V = Seq<u8>;

    open spec fn view(&self) -> Seq<u8> {
        self.0@
    }
}

/// Commitment standing in for structured state that is not disclosed.
#[derive(Clone, Copy)]
pub struct ConcealedData(pub [u8; 32]);

impl View for ConcealedData {
    type V = Seq<u8>;

    open spec fn view(&self) -> Seq<u8> {
        self.0@
    }
}

/// Kinds of state an assignment slot may hold.
#[derive(Clone, Copy, PartialEq, Eq, Structural, Debug)]
pub enum StateType {
    /// Declarative state holding no value.
    Void,
    /// Fungible atomic value.
    Fungible,
    /// Structured data payload.
    Structured,
    /// Media attachment reference.
    Attachment,
}

/// Schema declared for one assignment slot: which kind of state the slot
/// holds, and the constraint specific to that kind.
pub enum StateSchema {
    /// The slot holds no value.
    Declarative,
    /// The slot holds a fungible value of the given representation.
    Fungible(FungibleType),
    /// The slot holds structured data of the given semantic type.
    Structured(SemId),
    /// The slot holds an attachment whose media type the given one must
    /// permit.
    Attachment(MediaType),
}

/// Disclosed (plaintext) state carried by an assignment.
pub enum StateData {
    /// Declarative state holding no value.
    Void,
    /// Fungible value with its blinding factor.
    Fungible(RevealedValue),
    /// Raw structured payload.
    Structured(RevealedData),
    /// Attachment reference.
    Attachment(RevealedAttach),
}

/// Commitment-only state carried by an assignment.
#[derive(Clone, Copy)]
pub enum StateCommitment {
    /// Declarative state: nothing to commit to.
    Void,
    /// Pedersen commitment with its range proof.
    Fungible(ConcealedValue),
    /// Hash commitment to a structured payload.
    Structured(ConcealedData),
    /// Hash commitment to an attachment.
    Attachment(ConcealedAttach),
}

/// One assignment as disclosed to a validator. State and seal are
/// disclosed independently; only the state axis matters here, so each
/// variant records the state at its disclosure level.
pub enum Assign {
    /// Both state and seal concealed.
    Confidential {
        /// The state commitment.
        state: StateCommitment,
    },
    /// State concealed, seal revealed.
    ConfidentialState {
        /// The state commitment.
        state: StateCommitment,
    },
    /// Both state and seal revealed.
    Revealed {
        /// The plaintext state.
        state: StateData,
    },
    /// State revealed, seal concealed.
    ConfidentialSeal {
        /// The plaintext state.
        state: StateData,
    },
}

impl StateSchema {
    /// The kind of state this schema declares.
    pub open spec fn spec_state_type(self) -> StateType {
        match self {
            StateSchema::Declarative => StateType::Void,
            StateSchema::Fungible(_) => StateType::Fungible,
            StateSchema::Structured(_) => StateType::Structured,
            StateSchema::Attachment(_) => StateType::Attachment,
        }
    }

    /// The kind of state this schema declares.
    pub fn state_type(&self) -> (r: StateType)
        ensures
            r == self.spec_state_type(),
    {
        match self {
            StateSchema::Declarative => StateType::Void,
            StateSchema::Fungible(_) => StateType::Fungible,
            StateSchema::Structured(_) => StateType::Structured,
            StateSchema::Attachment(_) => StateType::Attachment,
        }
    }
}

impl StateData {
    /// The kind of state this plaintext carries.
    pub open spec fn spec_state_type(self) -> StateType {
        match self {
            StateData::Void => StateType::Void,
            StateData::Fungible(_) => StateType::Fungible,
            StateData::Structured(_) => StateType::Structured,
            StateData::Attachment(_) => StateType::Attachment,
        }
    }

    /// The kind of state this plaintext carries.
    pub fn state_type(&self) -> (r: StateType)
        ensures
            r == self.spec_state_type(),
    {
        match self {
            StateData::Void => StateType::Void,
            StateData::Fungible(_) => StateType::Fungible,
            StateData::Structured(_) => StateType::Structured,
            StateData::Attachment(_) => StateType::Attachment,
        }
    }
}

impl StateCommitment {
    /// The kind of state this commitment stands in for.
    pub open spec fn spec_state_type(self) -> StateType {
        match self {
            StateCommitment::Void => StateType::Void,
            StateCommitment::Fungible(_) => StateType::Fungible,
            StateCommitment::Structured(_) => StateType::Structured,
            StateCommitment::Attachment(_) => StateType::Attachment,
        }
    }

    /// The kind of state this commitment stands in for.
    pub fn state_type(&self) -> (r: StateType)
        ensures
            r == self.spec_state_type(),
    {
        match self {
            StateCommitment::Void => StateType::Void,
            StateCommitment::Fungible(_) => StateType::Fungible,
            StateCommitment::Structured(_) => StateType::Structured,
            StateCommitment::Attachment(_) => StateType::Attachment,
        }
    }
}

impl RevealedValue {
    /// The kind of state this value is.
    pub fn state_type(&self) -> (r: StateType)
        ensures
            r == StateType::Fungible,
    {
        StateType::Fungible
    }

    /// This value as disclosed assignment state.
    pub fn state_data(&self) -> (r: StateData)
        ensures
            r == StateData::Fungible(*self),
    {
        StateData::Fungible(*self)
    }
}

impl ConcealedValue {
    /// The kind of state this commitment stands in for.
    pub fn state_type(&self) -> (r: StateType)
        ensures
            r == StateType::Fungible,
    {
        StateType::Fungible
    }

    /// This commitment as concealed assignment state.
    pub fn state_commitment(&self) -> (r: StateCommitment)
        ensures
            r == StateCommitment::Fungible(*self),
    {
        StateCommitment::Fungible(*self)
    }
}

impl RevealedAttach {
    /// The kind of state this attachment is.
    pub fn state_type(&self) -> (r: StateType)
        ensures
            r == StateType::Attachment,
    {
        StateType::Attachment
    }

    /// This attachment as disclosed assignment state.
    pub fn state_data(&self) -> (r: StateData)
        ensures
            r matches StateData::Attachment(a) && a.id@ == self.id@ && a.media_type@
                == self.media_type@ && a.salt == self.salt,
    {
        StateData::Attachment(self.clone())
    }
}

impl ConcealedAttach {
    /// The kind of state this commitment stands in for.
    pub fn state_type(&self) -> (r: StateType)
        ensures
            r == StateType::Attachment,
    {
        StateType::Attachment
    }

    /// This commitment as concealed assignment state.
    pub fn state_commitment(&self) -> (r: StateCommitment)
        ensures
            r == StateCommitment::Attachment(*self),
    {
        StateCommitment::Attachment(*self)
    }
}

/// Ghost image of a range-proof verification error.
pub ghost enum RangeProofErrorV {
    /// The blinding factor bytes were invalid.
    InvalidBlinding(Seq<u8>),
    /// No range-proof backend is linked.
    BulletproofsAbsent,
}

impl DeepView for RangeProofError {
    type V = RangeProofErrorV;

    open spec fn deep_view(&self) -> RangeProofErrorV {
        match *self {
            RangeProofError::InvalidBlinding(b) => RangeProofErrorV::InvalidBlinding(b@),
            RangeProofError::BulletproofsAbsent => RangeProofErrorV::BulletproofsAbsent,
        }
    }
}

/// Ghost image of a validation failure.
pub ghost enum FailureV {
    /// The disclosed state kind does not match the schema's.
    StateTypeMismatch { opid: Seq<u8>, state_type: AssignmentType, expected: StateType, found: StateType },
    /// The range proof of a concealed fungible value did not verify.
    BulletproofsInvalid { opid: Seq<u8>, state_type: AssignmentType, error: RangeProofErrorV },
    /// The attachment's media type is not permitted by the schema's.
    MediaTypeMismatch { opid: Seq<u8>, state_type: AssignmentType, expected: MediaTypeV, found: MediaTypeV },
    /// The fungible representation does not match the schema's.
    FungibleTypeMismatch { opid: Seq<u8>, state_type: AssignmentType, expected: FungibleType, found: FungibleType },
    /// The structured payload does not deserialize as the semantic type.
    SchemaInvalidOwnedValue { opid: Seq<u8>, state_type: AssignmentType, sem_id: Seq<u8> },
}

/// A fatal validation failure: its presence invalidates the operation.
/// Each failure names the operation, the slot type and the specific
/// condition with its parameters.
pub enum Failure {
    /// The disclosed state kind does not match the schema's.
    StateTypeMismatch {
        /// Operation under validation.
        opid: OpId,
        /// Assignment slot type.
        state_type: AssignmentType,
        /// Kind the schema declares.
        expected: StateType,
        /// Kind the disclosed state carries.
        found: StateType,
    },
    /// The range proof of a concealed fungible value did not verify.
    BulletproofsInvalid {
        /// Operation under validation.
        opid: OpId,
        /// Assignment slot type.
        state_type: AssignmentType,
        /// The verification error.
        error: RangeProofError,
    },
    /// The attachment's media type is not permitted by the schema's.
    MediaTypeMismatch {
        /// Operation under validation.
        opid: OpId,
        /// Assignment slot type.
        state_type: AssignmentType,
        /// Media type the schema declares.
        expected: MediaType,
        /// Media type the attachment carries.
        found: MediaType,
    },
    /// The fungible representation does not match the schema's.
    FungibleTypeMismatch {
        /// Operation under validation.
        opid: OpId,
        /// Assignment slot type.
        state_type: AssignmentType,
        /// Representation the schema declares.
        expected: FungibleType,
        /// Representation the value carries.
        found: FungibleType,
    },
    /// The structured payload does not deserialize as the semantic type.
    SchemaInvalidOwnedValue {
        /// Operation under validation.
        opid: OpId,
        /// Assignment slot type.
        state_type: AssignmentType,
        /// The semantic type the schema names.
        sem_id: SemId,
    },
}

impl DeepView for Failure {
    type V = FailureV;

    open spec fn deep_view(&self) -> FailureV {
        match self {
            Failure::StateTypeMismatch { opid, state_type, expected, found } => (
            FailureV::StateTypeMismatch {
                opid: opid@,
                state_type: *state_type,
                expected: *expected,
                found: *found,
            }),
            Failure::BulletproofsInvalid { opid, state_type, error } => (
            FailureV::BulletproofsInvalid {
                opid: opid@,
                state_type: *state_type,
                error: error.deep_view(),
            }),
            Failure::MediaTypeMismatch { opid, state_type, expected, found } => (
            FailureV::MediaTypeMismatch {
                opid: opid@,
                state_type: *state_type,
                expected: expected@,
                found: found@,
            }),
            Failure::FungibleTypeMismatch { opid, state_type, expected, found } => (
            FailureV::FungibleTypeMismatch {
                opid: opid@,
                state_type: *state_type,
                expected: *expected,
                found: *found,
            }),
            Failure::SchemaInvalidOwnedValue { opid, state_type, sem_id } => (
            FailureV::SchemaInvalidOwnedValue {
                opid: opid@,
                state_type: *state_type,
                sem_id: sem_id@,
            }),
        }
    }
}

/// Ghost image of an informational note.
pub ghost enum InfoV {
    /// Concealed state of this kind cannot be checked without plaintext.
    UncheckableConfidentialState { opid: Seq<u8>, state_type: AssignmentType },
}

/// A non-fatal informational note surfaced to the caller; it never
/// invalidates the operation by itself.
pub enum Info {
    /// Concealed state of this kind cannot be checked without the
    /// plaintext; the revealed form may still arrive later.
    UncheckableConfidentialState {
        /// Operation under validation.
        opid: OpId,
        /// Assignment slot type.
        state_type: AssignmentType,
    },
}

impl DeepView for Info {
    type V = InfoV;

    open spec fn deep_view(&self) -> InfoV {
        match self {
            Info::UncheckableConfidentialState { opid, state_type } => (
            InfoV::UncheckableConfidentialState { opid: opid@, state_type: *state_type }),
        }
    }
}

/// Accumulated outcome of validating one operation: ordered failures and
/// ordered informational notes. Any failure means the operation is
/// invalid.
pub struct Status {
    /// Fatal failures, in the order they were found.
    pub failures: Vec<Failure>,
    /// Informational notes, in the order they were found.
    pub info: Vec<Info>,
}

impl Status {
    /// An empty status: nothing found yet.
    pub fn new() -> (r: Status)
        ensures
            r.failures@.len() == 0,
            r.info@.len() == 0,
    {
        Status { failures: Vec::new(), info: Vec::new() }
    }

    /// Records a fatal failure.
    pub fn add_failure(&mut self, failure: Failure)
        ensures
            final(self).failures@ == old(self).failures@.push(failure),
            final(self).info@ == old(self).info@,
    {
        self.failures.push(failure);
    }

    /// Records an informational note.
    pub fn add_info(&mut self, info: Info)
        ensures
            final(self).info@ == old(self).info@.push(info),
            final(self).failures@ == old(self).failures@,
    {
        self.info.push(info);
    }

    /// Whether the operation has passed: no failure was recorded.
    pub fn is_valid(&self) -> (r: bool)
        ensures
            r == (self.failures@.len() == 0),
    {
        self.failures.len() == 0
    }
}

/// Relies on `strict_types::TypeSystem`: the ambient system of semantic
/// types against which structured payloads are interpreted. Opaque here;
/// only its deserialization verdicts are consumed.
#[verifier::external_type_specification]
#[verifier::external_body]
pub struct ExTypeSystem(strict_types::TypeSystem);

/// Relies on `strict_types::TypeSystem::strict_deserialize_type`: reports
/// whether the bytes deserialize, entirely consumed, as the semantic type
/// in this type system. No verdict is assumed about any input.
#[verifier::external_body]
fn strict_deserialize_check(
    type_system: &strict_types::TypeSystem,
    sem_id: &[u8; 32],
    data: &Vec<u8>,
) -> (r: bool) {
    let sem_id = strict_types::SemId::from(*sem_id);
    type_system.strict_deserialize_type(sem_id, data.as_slice()).is_ok()
}

/// The failures concealed-state validation records for one slot: none for
/// a matching declarative or deferrable pairing, the distinguished
/// range-proof failure for a matching fungible pairing (the placeholder
/// backend refuses every proof), and a state-type mismatch for every
/// mixed pairing.
pub open spec fn concealed_failures(
    schema: StateSchema,
    state: StateCommitment,
    opid: Seq<u8>,
    state_type: AssignmentType,
) -> Seq<FailureV> {
    match (schema, state) {
        (StateSchema::Declarative, StateCommitment::Void) => Seq::empty(),
        (StateSchema::Fungible(_), StateCommitment::Fungible(_)) => seq![
            FailureV::BulletproofsInvalid {
                opid,
                state_type,
                error: RangeProofErrorV::BulletproofsAbsent,
            },
        ],
        (StateSchema::Structured(_), StateCommitment::Structured(_)) => Seq::empty(),
        (StateSchema::Attachment(_), StateCommitment::Attachment(_)) => Seq::empty(),
        _ => seq![
            FailureV::StateTypeMismatch {
                opid,
                state_type,
                expected: schema.spec_state_type(),
                found: state.spec_state_type(),
            },
        ],
    }
}

/// The informational notes concealed-state validation records: exactly
/// one deferral note for a matching structured or attachment pairing,
/// which cannot be checked without plaintext, and none otherwise.
pub open spec fn concealed_infos(
    schema: StateSchema,
    state: StateCommitment,
    opid: Seq<u8>,
    state_type: AssignmentType,
) -> Seq<InfoV> {
    match (schema, state) {
        (StateSchema::Structured(_), StateCommitment::Structured(_)) => seq![
            InfoV::UncheckableConfidentialState { opid, state_type },
        ],
        (StateSchema::Attachment(_), StateCommitment::Attachment(_)) => seq![
            InfoV::UncheckableConfidentialState { opid, state_type },
        ],
        _ => Seq::empty(),
    }
}

/// The failures revealed-state validation records for one slot, given the
/// type system's verdict `deser_ok` on the structured payload: none for a
/// matching declarative pairing; a media-type mismatch naming both values
/// when the schema's media type does not permit the attachment's; a
/// fungible-type mismatch when the representations differ; the
/// semantic-type failure when a structured payload does not deserialize;
/// and a state-type mismatch for every mixed pairing.
pub open spec fn revealed_failures(
    schema: StateSchema,
    state: StateData,
    opid: Seq<u8>,
    state_type: AssignmentType,
    deser_ok: bool,
) -> Seq<FailureV> {
    match (schema, state) {
        (StateSchema::Declarative, StateData::Void) => Seq::empty(),
        (StateSchema::Attachment(media_type), StateData::Attachment(attach)) => {
            if !spec_conforms(attach.media_type@, media_type@) {
                seq![
                    FailureV::MediaTypeMismatch {
                        opid,
                        state_type,
                        expected: media_type@,
                        found: attach.media_type@,
                    },
                ]
            } else {
                Seq::empty()
            }
        },
        (StateSchema::Fungible(schema_type), StateData::Fungible(_)) => {
            if schema_type != FungibleType::Unsigned64Bit {
                seq![
                    FailureV::FungibleTypeMismatch {
                        opid,
                        state_type,
                        expected: schema_type,
                        found: FungibleType::Unsigned64Bit,
                    },
                ]
            } else {
                Seq::empty()
            }
        },
        (StateSchema::Structured(sem_id), StateData::Structured(_)) => {
            if !deser_ok {
                seq![FailureV::SchemaInvalidOwnedValue { opid, state_type, sem_id: sem_id@ }]
            } else {
                Seq::empty()
            }
        },
        _ => seq![
            FailureV::StateTypeMismatch {
                opid,
                state_type,
                expected: schema.spec_state_type(),
                found: state.spec_state_type(),
            },
        ],
    }
}

/// What [`StateSchema::validate`] promises of its status for one
/// assignment: concealed state is classified exactly by the concealed
/// tables; revealed state records no notes and its failures follow the
/// revealed table under one of the two possible type-system verdicts.
pub open spec fn spec_validate_status(
    schema: StateSchema,
    assign: Assign,
    opid: Seq<u8>,
    state_type: AssignmentType,
    r: Status,
) -> bool {
    match assign {
        Assign::Confidential { state } => spec_concealed_status(
            schema,
            state,
            opid,
            state_type,
            r,
        ),
        Assign::ConfidentialState { state } => spec_concealed_status(
            schema,
            state,
            opid,
            state_type,
            r,
        ),
        Assign::Revealed { state } => spec_revealed_status_either(
            schema,
            state,
            opid,
            state_type,
            r,
        ),
        Assign::ConfidentialSeal { state } => spec_revealed_status_either(
            schema,
            state,
            opid,
            state_type,
            r,
        ),
    }
}

/// The exact status of concealed-state validation.
pub open spec fn spec_concealed_status(
    schema: StateSchema,
    state: StateCommitment,
    opid: Seq<u8>,
    state_type: AssignmentType,
    r: Status,
) -> bool {
    r.failures.deep_view() == concealed_failures(schema, state, opid, state_type)
        && r.failures@.len() == concealed_failures(schema, state, opid, state_type).len()
        && r.info.deep_view() == concealed_infos(schema, state, opid, state_type) && r.info@.len()
        == concealed_infos(schema, state, opid, state_type).len()
}

/// The exact status of revealed-state validation under a known
/// type-system verdict.
pub open spec fn spec_revealed_status(
    schema: StateSchema,
    state: StateData,
    opid: Seq<u8>,
    state_type: AssignmentType,
    deser_ok: bool,
    r: Status,
) -> bool {
    r.failures.deep_view() == revealed_failures(schema, state, opid, state_type, deser_ok)
        && r.failures@.len() == revealed_failures(schema, state, opid, state_type, deser_ok).len()
        && r.info@.len() == 0
}

/// The status of revealed-state validation when the type system's verdict
/// is not pinned: it follows the revealed table under one of the two
/// verdicts, which differ only on a structured payload.
pub open spec fn spec_revealed_status_either(
    schema: StateSchema,
    state: StateData,
    opid: Seq<u8>,
    state_type: AssignmentType,
    r: Status,
) -> bool {
    spec_revealed_status(schema, state, opid, state_type, true, r) || spec_revealed_status(
        schema,
        state,
        opid,
        state_type,
        false,
        r,
    )
}

impl StateSchema {
    /// Validates concealed state against this schema: a matching
    /// declarative commitment is valid; a matching fungible commitment
    /// always fails under the placeholder range proof; matching
    /// structured and attachment commitments only record a deferral note;
    /// any mixed pairing is a fatal state-type mismatch.
    pub fn validate_concealed(
        &self,
        state: &StateCommitment,
        opid: &OpId,
        state_type: AssignmentType,
    ) -> (r: Status)
        ensures
            spec_concealed_status(*self, *state, opid@, state_type, r),
    {
        let mut status = Status::new();
        match (self, state) {
            (StateSchema::Declarative, StateCommitment::Void) => {},
            (StateSchema::Fungible(_), StateCommitment::Fungible(value)) => {
                match value.verify_range_proof() {
                    Ok(_) => {},
                    Err(err) => {
                        status.add_failure(
                            Failure::BulletproofsInvalid { opid: *opid, state_type, error: err },
                        );
                    },
                }
            },
            (StateSchema::Structured(_), StateCommitment::Structured(_)) => {
                status.add_info(Info::UncheckableConfidentialState { opid: *opid, state_type });
            },
            (StateSchema::Attachment(_), StateCommitment::Attachment(_)) => {
                status.add_info(Info::UncheckableConfidentialState { opid: *opid, state_type });
            },
            (state_schema, found) => {
                status.add_failure(
                    Failure::StateTypeMismatch {
                        opid: *opid,
                        state_type,
                        expected: state_schema.state_type(),
                        found: found.state_type(),
                    },
                );
            },
        }
        proof {
            assert(status.failures.deep_view() =~= concealed_failures(
                *self,
                *state,
                opid@,
                state_type,
            ));
            assert(status.info.deep_view() =~= concealed_infos(*self, *state, opid@, state_type));
        }
        status
    }

    /// Validates revealed state against this schema under a known
    /// type-system verdict on the structured payload: the status follows
    /// the revealed table exactly.
    pub fn validate_revealed(
        &self,
        state: &StateData,
        opid: &OpId,
        state_type: AssignmentType,
        deser_ok: bool,
    ) -> (r: Status)
        ensures
            spec_revealed_status(*self, *state, opid@, state_type, deser_ok, r),
    {
        let mut status = Status::new();
        match (self, state) {
            (StateSchema::Declarative, StateData::Void) => {},
            (StateSchema::Attachment(media_type), StateData::Attachment(attach)) => {
                if !attach.media_type.conforms(media_type) {
                    status.add_failure(
                        Failure::MediaTypeMismatch {
                            opid: *opid,
                            state_type,
                            expected: media_type.clone(),
                            found: attach.media_type.clone(),
                        },
                    );
                }
            },
            (StateSchema::Fungible(schema_type), StateData::Fungible(value)) => {
                let found = value.value.fungible_type();
                if found != *schema_type {
                    status.add_failure(
                        Failure::FungibleTypeMismatch {
                            opid: *opid,
                            state_type,
                            expected: *schema_type,
                            found,
                        },
                    );
                }
            },
            (StateSchema::Structured(sem_id), StateData::Structured(_)) => {
                if !deser_ok {
                    status.add_failure(
                        Failure::SchemaInvalidOwnedValue {
                            opid: *opid,
                            state_type,
                            sem_id: *sem_id,
                        },
                    );
                }
            },
            (state_schema, found) => {
                status.add_failure(
                    Failure::StateTypeMismatch {
                        opid: *opid,
                        state_type,
                        expected: state_schema.state_type(),
                        found: found.state_type(),
                    },
                );
            },
        }
        proof {
            assert(status.failures.deep_view() =~= revealed_failures(
                *self,
                *state,
                opid@,
                state_type,
                deser_ok,
            ));
        }
        status
    }

    /// Validates the state of one disclosed assignment against this
    /// schema, consulting the ambient type system for structured
    /// payloads. Pure in its inputs; failures invalidate the operation,
    /// informational notes never do.
    pub fn validate(
        &self,
        type_system: &strict_types::TypeSystem,
        opid: &OpId,
        state_type: AssignmentType,
        data: &Assign,
    ) -> (r: Status)
        ensures
            spec_validate_status(*self, *data, opid@, state_type, r),
    {
        match data {
            Assign::Confidential { state } => self.validate_concealed(state, opid, state_type),
            Assign::ConfidentialState { state } => self.validate_concealed(
                state,
                opid,
                state_type,
            ),
            Assign::Revealed { state } => self.validate_revealed_with_system(
                type_system,
                state,
                opid,
                state_type,
            ),
            Assign::ConfidentialSeal { state } => self.validate_revealed_with_system(
                type_system,
                state,
                opid,
                state_type,
            ),
        }
    }

    fn validate_revealed_with_system(
        &self,
        type_system: &strict_types::TypeSystem,
        state: &StateData,
        opid: &OpId,
        state_type: AssignmentType,
    ) -> (r: Status)
        ensures
            spec_revealed_status_either(*self, *state, opid@, state_type, r),
    {
        let deser_ok: bool = match (self, state) {
            (StateSchema::Structured(sem_id), StateData::Structured(data)) => (
            strict_deserialize_check(type_system, &sem_id.0, &data.0)),
            _ => true,
        };
        self.validate_revealed(state, opid, state_type, deser_ok)
    }
}

/// Each recorded failure reads elementwise from the failure table: the
/// image of the failure at an index is the table entry at that index.
pub proof fn lemma_status_failure_at(s: Status, i: int)
    requires
        0 <= i < s.failures@.len(),
    ensures
        s.failures.deep_view()[i] == s.failures@[i].deep_view(),
{
}

/// Each recorded note reads elementwise from the note table.
pub proof fn lemma_status_info_at(s: Status, i: int)
    requires
        0 <= i < s.info@.len(),
    ensures
        s.info.deep_view()[i] == s.info@[i].deep_view(),
{
}

/// The concealed schema/state matching table, over every pairing of a
/// schema kind and a commitment kind: a matching declarative pairing is
/// valid with no note; a matching fungible pairing yields exactly the
/// range-proof failure, since the placeholder backend refuses every
/// proof; matching structured and attachment pairings yield exactly one
/// deferral note and no failure; and each of the mixed pairings yields
/// exactly one state-type mismatch naming both kinds.
pub proof fn lemma_concealed_matching_table(
    schema: StateSchema,
    state: StateCommitment,
    opid: Seq<u8>,
    state_type: AssignmentType,
)
    ensures
        (schema is Declarative && state is Void) ==> concealed_failures(
            schema,
            state,
            opid,
            state_type,
        ) == Seq::<FailureV>::empty() && concealed_infos(schema, state, opid, state_type)
            == Seq::<InfoV>::empty(),
        (schema is Fungible && state is Fungible) ==> concealed_failures(
            schema,
            state,
            opid,
            state_type,
        ) == seq![
            FailureV::BulletproofsInvalid {
                opid,
                state_type,
                error: RangeProofErrorV::BulletproofsAbsent,
            },
        ] && concealed_infos(schema, state, opid, state_type) == Seq::<InfoV>::empty(),
        (schema is Structured && state is Structured) || (schema is Attachment
            && state is Attachment) ==> concealed_failures(schema, state, opid, state_type)
            == Seq::<FailureV>::empty() && concealed_infos(schema, state, opid, state_type)
            == seq![InfoV::UncheckableConfidentialState { opid, state_type }],
        schema.spec_state_type() != state.spec_state_type() ==> concealed_failures(
            schema,
            state,
            opid,
            state_type,
        ) == seq![
            FailureV::StateTypeMismatch {
                opid,
                state_type,
                expected: schema.spec_state_type(),
                found: state.spec_state_type(),
            },
        ] && concealed_infos(schema, state, opid, state_type) == Seq::<InfoV>::empty(),
{
}

} // verus!
