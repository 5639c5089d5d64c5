//! Bytecode program container and entry-point dispatch.
//!
//! A contract's script is a bounded set of bytecode libraries together
//! with a mapping from validation hooks (entry points) to library
//! locations. At most 1024 libraries are held in memory; the wire form is
//! stricter, with at most 255 entries of at most 65535 bytes each. There
//! is intentionally no single universal entry point: the code to run is
//! always a function of which hook is being validated.

use crate::misuse::MisuseError;
use crate::state::AssignmentType;
use crate::wire::{
    lemma_u16_from_le_roundtrip, lemma_u16_le_roundtrip, push_bytes, push_u16_le, read_array32,
    read_u16_le, read_vec, u16_from_le, u16_le_bytes,
};
use strict_types::encoding::StrictDeserialize;
use vstd::prelude::*;

verus! {

/// Identifier of a state-transition type within a schema.
pub type TransitionType = u16;

/// Identifier of a state-extension type within a schema.
pub type ExtensionType = u16;

/// Identifier of a global-state type within a schema.
pub type GlobalStateType = u16;

/// Whether bytes parse, entirely consumed, as a valid bytecode library;
/// exactly the inputs aluvm's `Lib` deserialization accepts.
pub uninterp spec fn alu_lib_ok(bytes: Seq<u8>) -> bool;

/// The 32-byte identifier of the library serialized in `bytes`: a
/// cryptographic commitment to the library contents.
pub uninterp spec fn alu_lib_id_of(bytes: Seq<u8>) -> Seq<u8>;

/// Relies on aluvm's `Lib::from_strict_serialized` (at a cap far above
/// any possible library size): reports whether the bytes parse, entirely
/// consumed, as a valid library.
#[verifier::external_body]
fn alu_lib_check(bytes: &Vec<u8>) -> (r: bool)
    ensures
        r == alu_lib_ok(bytes@),
{
    match amplify::confinement::Confined::<Vec<u8>, 0, 0xFFFFFF>::try_from(bytes.clone()) {
        Ok(blob) => aluvm::Lib::from_strict_serialized::<0xFFFFFF>(blob).is_ok(),
        Err(_) => false,
    }
}

/// Relies on aluvm's `Lib::lib_id`: computes the library's identifier, a
/// commitment to the library contents and a function of them alone.
#[verifier::external_body]
fn alu_lib_id(bytes: &Vec<u8>) -> (r: [u8; 32])
    requires
        alu_lib_ok(bytes@),
    ensures
        r@ == alu_lib_id_of(bytes@),
{
    let blob = amplify::confinement::Confined::<Vec<u8>, 0, 0xFFFFFF>::try_from(bytes.clone())
        .expect("within cap");
    let lib = aluvm::Lib::from_strict_serialized::<0xFFFFFF>(blob).expect("valid library");
    lib.lib_id().to_byte_array()
}

/// Errors decoding wire data: malformed input, never a crash.
#[derive(Clone, Copy, PartialEq, Eq, Structural, Debug)]
pub enum DecodeError {
    /// The input ended before the announced structure was complete.
    UnexpectedEnd,
    /// The entry-point tag byte is not a known hook kind.
    UnknownEntryPointTag(u8),
    /// A library blob does not parse as a valid bytecode library.
    InvalidLib,
    /// Two library entries carry the same identifier.
    DuplicateLib,
    /// Two entry-point entries carry the same hook.
    DuplicateEntryPoint,
    /// A genesis entry point carried a nonzero subtype, which the
    /// canonical wire form writes as zero.
    NonCanonicalGenesis,
    /// Bytes remain after the announced structure was complete.
    TrailingBytes,
}

/// Errors serializing a program container whose in-memory form exceeds
/// the stricter wire bounds.
#[derive(Clone, Copy, PartialEq, Eq, Structural, Debug)]
pub enum SerializeError {
    /// More than 255 libraries cannot be persisted.
    TooManyLibs,
    /// A library serializing to more than 65535 bytes cannot be
    /// persisted.
    LibTooLarge,
}

/// A validation hook a script may implement. Each non-genesis hook
/// carries the 16-bit schema type that triggers it.
#[derive(Clone, Copy, PartialEq, Eq, Structural, Hash, Debug)]
pub enum EntryPoint {
    /// Validation of the contract genesis.
    ValidateGenesis,
    /// Validation of a state transition of the given type.
    ValidateTransition(TransitionType),
    /// Validation of a state extension of the given type.
    ValidateExtension(ExtensionType),
    /// Validation of global state of the given type.
    ValidateGlobalState(GlobalStateType),
    /// Validation of owned state of the given assignment type.
    ValidateOwnedState(AssignmentType),
}

/// The 3-byte wire form of an entry point: one tag byte and the subtype
/// in little-endian, zero for genesis.
pub open spec fn spec_entry_point_bytes(ep: EntryPoint) -> Seq<u8> {
    match ep {
        EntryPoint::ValidateGenesis => seq![0u8, 0u8, 0u8],
        EntryPoint::ValidateTransition(ty) => seq![1u8] + u16_le_bytes(ty),
        EntryPoint::ValidateExtension(ty) => seq![2u8] + u16_le_bytes(ty),
        EntryPoint::ValidateGlobalState(ty) => seq![3u8] + u16_le_bytes(ty),
        EntryPoint::ValidateOwnedState(ty) => seq![4u8] + u16_le_bytes(ty),
    }
}

/// The entry point read from 3 wire bytes: by tag, with the subtype
/// bytes ignored for genesis; an unknown tag reads as nothing.
pub open spec fn spec_entry_point_decode(b: Seq<u8>) -> Option<EntryPoint> {
    if b.len() != 3 {
        None
    } else {
        let subty = u16_from_le(b[1], b[2]);
        if b[0] == 0 {
            Some(EntryPoint::ValidateGenesis)
        } else if b[0] == 1 {
            Some(EntryPoint::ValidateTransition(subty))
        } else if b[0] == 2 {
            Some(EntryPoint::ValidateExtension(subty))
        } else if b[0] == 3 {
            Some(EntryPoint::ValidateGlobalState(subty))
        } else if b[0] == 4 {
            Some(EntryPoint::ValidateOwnedState(subty))
        } else {
            None
        }
    }
}

/// Every entry point survives the round trip through its wire form.
pub proof fn lemma_entry_point_roundtrip(ep: EntryPoint)
    ensures
        spec_entry_point_decode(spec_entry_point_bytes(ep)) == Some(ep),
{
    match ep {
        EntryPoint::ValidateGenesis => {},
        EntryPoint::ValidateTransition(ty) => lemma_u16_le_roundtrip(ty),
        EntryPoint::ValidateExtension(ty) => lemma_u16_le_roundtrip(ty),
        EntryPoint::ValidateGlobalState(ty) => lemma_u16_le_roundtrip(ty),
        EntryPoint::ValidateOwnedState(ty) => lemma_u16_le_roundtrip(ty),
    }
}

impl EntryPoint {
    /// Serializes the entry point to its 3-byte wire form.
    pub fn strict_encode(&self) -> (r: Vec<u8>)
        ensures
            r@ == spec_entry_point_bytes(*self),
            r@.len() == 3,
    {
        let mut out: Vec<u8> = Vec::new();
        match self {
            EntryPoint::ValidateGenesis => {
                out.push(0);
                out.push(0);
                out.push(0);
            },
            EntryPoint::ValidateTransition(ty) => {
                out.push(1);
                push_u16_le(&mut out, *ty);
            },
            EntryPoint::ValidateExtension(ty) => {
                out.push(2);
                push_u16_le(&mut out, *ty);
            },
            EntryPoint::ValidateGlobalState(ty) => {
                out.push(3);
                push_u16_le(&mut out, *ty);
            },
            EntryPoint::ValidateOwnedState(ty) => {
                out.push(4);
                push_u16_le(&mut out, *ty);
            },
        }
        proof {
            assert(out@ =~= spec_entry_point_bytes(*self));
        }
        out
    }

    /// Parses an entry point from exactly 3 wire bytes: accepts exactly
    /// the inputs the wire spec reads as a hook, and names an unknown tag
    /// in its error.
    pub fn strict_decode(bytes: &Vec<u8>) -> (r: Result<EntryPoint, DecodeError>)
        ensures
            match r {
                Ok(ep) => spec_entry_point_decode(bytes@) == Some(ep),
                Err(e) => spec_entry_point_decode(bytes@) is None && match e {
                    DecodeError::UnknownEntryPointTag(t) => bytes@.len() == 3 && t == bytes@[0]
                        && t > 4,
                    DecodeError::UnexpectedEnd => bytes@.len() < 3,
                    DecodeError::TrailingBytes => bytes@.len() > 3,
                    _ => false,
                },
            },
    {
        if bytes.len() < 3 {
            return Err(DecodeError::UnexpectedEnd);
        }
        if bytes.len() > 3 {
            return Err(DecodeError::TrailingBytes);
        }
        let tag = bytes[0];
        let subty = read_u16_le(bytes[1], bytes[2]);
        match tag {
            0 => Ok(EntryPoint::ValidateGenesis),
            1 => Ok(EntryPoint::ValidateTransition(subty)),
            2 => Ok(EntryPoint::ValidateExtension(subty)),
            3 => Ok(EntryPoint::ValidateGlobalState(subty)),
            4 => Ok(EntryPoint::ValidateOwnedState(subty)),
            _ => Err(DecodeError::UnknownEntryPointTag(tag)),
        }
    }
}

/// Identifier of a bytecode library: a 32-byte commitment to its
/// contents, used as the key under which the library is referenced.
#[derive(Clone, Copy, Debug)]
pub struct LibId(pub [u8; 32]);

impl View for LibId {
    type V = Seq<u8>;

    open spec fn view(&self) -> Seq<u8> {
        self.0@
    }
}

fn lib_id_eq(a: &LibId, b: &LibId) -> (r: bool)
    ensures
        r == (a@ == b@),
{
    let mut i: usize = 0;
    while i < 32
        invariant
            0 <= i <= 32,
            forall|j: int| 0 <= j < i ==> a@[j] == b@[j],
        decreases 32 - i,
    {
        if a.0[i] != b.0[i] {
            return false;
        }
        i += 1;
    }
    proof {
        assert(a@ =~= b@);
    }
    true
}

/// Location inside a bytecode library: the library's id and a code
/// offset within it.
#[derive(Clone, Copy, Debug)]
pub struct LibSite {
    /// The identifier of the library.
    pub lib_id: LibId,
    /// The offset within the library.
    pub offset: u16,
}

impl LibSite {
    /// Constructs a library site from an id and a code offset.
    pub fn new(lib_id: LibId, offset: u16) -> (r: LibSite)
        ensures
            r.lib_id@ == lib_id@,
            r.offset == offset,
    {
        LibSite { lib_id, offset }
    }
}

/// The bytes given for a library do not parse as a valid bytecode
/// library.
#[derive(Clone, Copy, PartialEq, Eq, Structural, Debug)]
pub struct InvalidLib;

/// A bytecode library body, held in its serialized form, which is always
/// a valid library per the virtual machine's own deserializer.
pub struct Lib {
    bytes: Vec<u8>,
}

impl View for Lib {
    type V = Seq<u8>;

    closed spec fn view(&self) -> Seq<u8> {
        self.bytes@
    }
}

impl Lib {
    #[verifier::type_invariant]
    spec fn inv(self) -> bool {
        alu_lib_ok(self.bytes@)
    }

    /// Reconstructs a library from its serialized body: accepts exactly
    /// the byte strings the virtual machine parses as a library.
    pub fn with(bytes: Vec<u8>) -> (r: Result<Lib, InvalidLib>)
        ensures
            match r {
                Ok(l) => l@ == bytes@ && alu_lib_ok(bytes@),
                Err(_) => !alu_lib_ok(bytes@),
            },
    {
        if alu_lib_check(&bytes) {
            Ok(Lib { bytes })
        } else {
            Err(InvalidLib)
        }
    }

    /// The serialized body of the library.
    pub fn serialized(&self) -> (r: &Vec<u8>)
        ensures
            r@ == self@,
            alu_lib_ok(self@),
    {
        proof {
            use_type_invariant(self);
        }
        &self.bytes
    }

    /// The number of bytes the library serializes to.
    pub fn serialized_len(&self) -> (r: usize)
        ensures
            r == self@.len(),
    {
        self.bytes.len()
    }

    /// The library's identifier: a cryptographic commitment to its
    /// contents.
    pub fn lib_id(&self) -> (r: LibId)
        ensures
            r@ == alu_lib_id_of(self@),
    {
        proof {
            use_type_invariant(self);
        }
        LibId(alu_lib_id(&self.bytes))
    }
}

/// A bound of the program container was exceeded.
#[derive(Clone, Copy, PartialEq, Eq, Structural, Debug)]
pub enum ContainerOverflow {
    /// More than 1024 libraries cannot be held by one program.
    Libs,
    /// More than 65535 entry points cannot be held by one program.
    EntryPoints,
}

/// Maximum total number of libraries which may be used by a single
/// program; i.e. the maximal number of nodes in a library dependency
/// tree.
pub const LIBS_MAX_TOTAL: usize = 1024;

/// Maximum number of entry points a single program may declare.
pub const ENTRY_POINTS_MAX: usize = 65535;

/// A contract's full script: the libraries its code may reference, keyed
/// by identifier, and the mapping from validation hooks to the locations
/// implementing them. Read-only at validation time.
pub struct AluScript {
    libs: Vec<(LibId, Lib)>,
    entry_points: Vec<(EntryPoint, LibSite)>,
}

impl AluScript {
    #[verifier::type_invariant]
    spec fn inv(self) -> bool {
        &&& self.libs@.len() <= LIBS_MAX_TOTAL
        &&& forall|i: int, j: int|
            0 <= i < j < self.libs@.len() ==> self.libs@[i].0@ != self.libs@[j].0@
        &&& self.entry_points@.len() <= ENTRY_POINTS_MAX
        &&& forall|i: int, j: int|
            0 <= i < j < self.entry_points@.len() ==> self.entry_points@[i].0
                != self.entry_points@[j].0
    }

    /// The library entries, in insertion order.
    pub closed spec fn libs_seq(self) -> Seq<(LibId, Lib)> {
        self.libs@
    }

    /// The entry-point entries, in insertion order.
    pub closed spec fn entry_points_seq(self) -> Seq<(EntryPoint, LibSite)> {
        self.entry_points@
    }

    /// Whether some library entry carries this identifier.
    pub open spec fn spec_contains_lib(self, id: Seq<u8>) -> bool {
        exists|i: int| 0 <= i < self.libs_seq().len() && self.libs_seq()[i].0@ == id
    }

    /// Whether some entry carries this hook.
    pub open spec fn spec_contains_entry(self, ep: EntryPoint) -> bool {
        exists|i: int| 0 <= i < self.entry_points_seq().len() && self.entry_points_seq()[i].0 == ep
    }

    /// An empty program: no libraries and no entry points.
    pub fn new() -> (r: AluScript)
        ensures
            r.libs_seq().len() == 0,
            r.entry_points_seq().len() == 0,
    {
        AluScript { libs: Vec::new(), entry_points: Vec::new() }
    }

    /// The number of libraries held.
    pub fn lib_count(&self) -> (r: u16)
        ensures
            r == self.libs_seq().len(),
    {
        proof {
            use_type_invariant(self);
        }
        self.libs.len() as u16
    }

    /// The library entries, in insertion order.
    pub fn libs(&self) -> (r: &Vec<(LibId, Lib)>)
        ensures
            r@ == self.libs_seq(),
    {
        &self.libs
    }

    /// The entry-point entries, in insertion order.
    pub fn entry_points(&self) -> (r: &Vec<(EntryPoint, LibSite)>)
        ensures
            r@ == self.entry_points_seq(),
    {
        &self.entry_points
    }

    /// Adds a library under an identifier, replacing any library already
    /// held under it; fails exactly when a new identifier would exceed
    /// the in-memory bound of 1024 libraries.
    pub fn add_lib(&mut self, id: LibId, lib: Lib) -> (r: Result<(), ContainerOverflow>)
        ensures
            match r {
                Ok(()) => final(self).entry_points_seq() == old(self).entry_points_seq() && (
                if old(self).spec_contains_lib(id@) {
                    exists|i: int|
                        0 <= i < old(self).libs_seq().len() && old(self).libs_seq()[i].0@ == id@
                            && final(self).libs_seq() == old(self).libs_seq().update(i, (id, lib))
                } else {
                    final(self).libs_seq() == old(self).libs_seq().push((id, lib))
                }),
                Err(e) => e == ContainerOverflow::Libs && old(self).libs_seq().len()
                    == LIBS_MAX_TOTAL && !old(self).spec_contains_lib(id@) && *final(self)
                    == *old(self),
            },
    {
        proof {
            use_type_invariant(&*self);
        }
        let n = self.libs.len();
        let mut i: usize = 0;
        while i < n
            invariant
                0 <= i <= n,
                n == self.libs@.len(),
                self.inv(),
                *self == *old(self),
                forall|j: int| 0 <= j < i ==> self.libs@[j].0@ != id@,
            decreases n - i,
        {
            if lib_id_eq(&self.libs[i].0, &id) {
                let ghost orig = self.libs@;
                let mut libs: Vec<(LibId, Lib)> = Vec::new();
                std::mem::swap(&mut libs, &mut self.libs);
                libs[i] = (id, lib);
                proof {
                    assert(libs@ =~= orig.update(i as int, (id, lib)));
                    assert forall|p: int, q: int|
                        0 <= p < q < libs@.len() implies libs@[p].0@ != libs@[q].0@ by {
                        assert(orig[p].0@ != orig[q].0@);
                    }
                }
                self.libs = libs;
                proof {
                    assert(self.libs_seq() =~= old(self).libs_seq().update(i as int, (id, lib)));
                    assert(old(self).libs_seq()[i as int].0@ == id@);
                }
                return Ok(());
            }
            i += 1;
        }
        if n >= LIBS_MAX_TOTAL {
            return Err(ContainerOverflow::Libs);
        }
        let mut libs: Vec<(LibId, Lib)> = Vec::new();
        std::mem::swap(&mut libs, &mut self.libs);
        libs.push((id, lib));
        self.libs = libs;
        Ok(())
    }

    /// Looks a library up by its identifier; absence means no library is
    /// held under it.
    pub fn lib(&self, id: &LibId) -> (r: Option<&Lib>)
        ensures
            match r {
                Some(l) => exists|i: int|
                    #![auto]
                    0 <= i < self.libs_seq().len() && self.libs_seq()[i].0@ == id@ && *l
                        == self.libs_seq()[i].1,
                None => !self.spec_contains_lib(id@),
            },
    {
        let n = self.libs.len();
        let mut i: usize = 0;
        while i < n
            invariant
                0 <= i <= n,
                n == self.libs@.len(),
                forall|j: int| 0 <= j < i ==> self.libs@[j].0@ != id@,
            decreases n - i,
        {
            if lib_id_eq(&self.libs[i].0, &id) {
                proof {
                    assert(self.libs_seq()[i as int].0@ == id@);
                }
                return Some(&self.libs[i].1);
            }
            i += 1;
        }
        None
    }

    /// Adds an entry point for a hook, replacing any location already
    /// mapped to it; fails exactly when a new hook would exceed the bound
    /// of 65535 entry points.
    pub fn add_entry_point(&mut self, ep: EntryPoint, site: LibSite) -> (r: Result<
        (),
        ContainerOverflow,
    >)
        ensures
            match r {
                Ok(()) => final(self).libs_seq() == old(self).libs_seq() && (
                if old(self).spec_contains_entry(ep) {
                    exists|i: int|
                        0 <= i < old(self).entry_points_seq().len() && old(
                            self,
                        ).entry_points_seq()[i].0 == ep && final(self).entry_points_seq() == old(
                            self,
                        ).entry_points_seq().update(i, (ep, site))
                } else {
                    final(self).entry_points_seq() == old(self).entry_points_seq().push((ep, site))
                }),
                Err(e) => e == ContainerOverflow::EntryPoints && old(self).entry_points_seq().len()
                    == ENTRY_POINTS_MAX && !old(self).spec_contains_entry(ep) && *final(self)
                    == *old(self),
            },
    {
        proof {
            use_type_invariant(&*self);
        }
        let n = self.entry_points.len();
        let mut i: usize = 0;
        while i < n
            invariant
                0 <= i <= n,
                n == self.entry_points@.len(),
                self.inv(),
                *self == *old(self),
                forall|j: int| 0 <= j < i ==> self.entry_points@[j].0 != ep,
            decreases n - i,
        {
            if self.entry_points[i].0 == ep {
                let ghost orig = self.entry_points@;
                let mut entry_points: Vec<(EntryPoint, LibSite)> = Vec::new();
                std::mem::swap(&mut entry_points, &mut self.entry_points);
                entry_points[i] = (ep, site);
                proof {
                    assert(entry_points@ =~= orig.update(i as int, (ep, site)));
                    assert forall|p: int, q: int|
                        0 <= p < q < entry_points@.len() implies entry_points@[p].0
                        != entry_points@[q].0 by {
                        assert(orig[p].0 != orig[q].0);
                    }
                }
                self.entry_points = entry_points;
                proof {
                    assert(self.entry_points_seq() =~= old(self).entry_points_seq().update(
                        i as int,
                        (ep, site),
                    ));
                    assert(old(self).entry_points_seq()[i as int].0 == ep);
                }
                return Ok(());
            }
            i += 1;
        }
        if n >= ENTRY_POINTS_MAX {
            return Err(ContainerOverflow::EntryPoints);
        }
        let mut entry_points: Vec<(EntryPoint, LibSite)> = Vec::new();
        std::mem::swap(&mut entry_points, &mut self.entry_points);
        entry_points.push((ep, site));
        self.entry_points = entry_points;
        Ok(())
    }

    /// Looks up the location implementing a hook; absence means no custom
    /// script exists for it, and schema-only validation applies.
    pub fn site(&self, ep: EntryPoint) -> (r: Option<LibSite>)
        ensures
            match r {
                Some(site) => exists|i: int|
                    #![auto]
                    0 <= i < self.entry_points_seq().len() && self.entry_points_seq()[i].0 == ep
                        && site == self.entry_points_seq()[i].1,
                None => !self.spec_contains_entry(ep),
            },
    {
        let n = self.entry_points.len();
        let mut i: usize = 0;
        while i < n
            invariant
                0 <= i <= n,
                n == self.entry_points@.len(),
                forall|j: int| 0 <= j < i ==> self.entry_points@[j].0 != ep,
            decreases n - i,
        {
            if self.entry_points[i].0 == ep {
                proof {
                    assert(self.entry_points_seq()[i as int].0 == ep);
                }
                return Some(self.entry_points[i].1);
            }
            i += 1;
        }
        None
    }

    /// A program has no single unconditional entry point: asking for one
    /// is a fatal misuse whatever the program holds, since the code to
    /// run is always a function of the hook under validation.
    pub fn entrypoint(&self) -> (r: Result<LibSite, MisuseError>)
        ensures
            r == Err::<LibSite, MisuseError>(MisuseError::NoUniversalEntryPoint),
    {
        Err(MisuseError::NoUniversalEntryPoint)
    }
}

/// The wire form of one library entry: the 32 identifier bytes, the body
/// length as 16 bits little-endian, and the body.
pub open spec fn spec_lib_entry_bytes(e: (LibId, Lib)) -> Seq<u8> {
    e.0@ + u16_le_bytes(e.1@.len() as u16) + e.1@
}

/// The wire form of a sequence of library entries, in order.
pub open spec fn spec_libs_bytes(s: Seq<(LibId, Lib)>) -> Seq<u8>
    decreases s.len(),
{
    if s.len() == 0 {
        Seq::empty()
    } else {
        spec_libs_bytes(s.drop_last()) + spec_lib_entry_bytes(s.last())
    }
}

/// The wire form of one entry-point entry: the 3 hook bytes, then its
/// location as 32 identifier bytes and the 16-bit offset little-endian.
pub open spec fn spec_entry_bytes(e: (EntryPoint, LibSite)) -> Seq<u8> {
    spec_entry_point_bytes(e.0) + e.1.lib_id@ + u16_le_bytes(e.1.offset)
}

/// The wire form of a sequence of entry-point entries, in order.
pub open spec fn spec_entries_bytes(s: Seq<(EntryPoint, LibSite)>) -> Seq<u8>
    decreases s.len(),
{
    if s.len() == 0 {
        Seq::empty()
    } else {
        spec_entries_bytes(s.drop_last()) + spec_entry_bytes(s.last())
    }
}

/// The wire form of a whole program: the library count as one byte, the
/// library entries, the entry-point count as 16 bits little-endian, and
/// the entry-point entries.
pub open spec fn spec_script_bytes(s: AluScript) -> Seq<u8> {
    seq![s.libs_seq().len() as u8] + spec_libs_bytes(s.libs_seq()) + u16_le_bytes(
        s.entry_points_seq().len() as u16,
    ) + spec_entries_bytes(s.entry_points_seq())
}

/// The images of library entries: each id and body as byte sequences.
pub open spec fn lib_entries_view(s: Seq<(LibId, Lib)>) -> Seq<(Seq<u8>, Seq<u8>)> {
    s.map_values(|e: (LibId, Lib)| (e.0@, e.1@))
}

/// The images of entry-point entries: the hook, and its location as id
/// bytes and offset.
pub open spec fn ep_entries_view(s: Seq<(EntryPoint, LibSite)>) -> Seq<(EntryPoint, (Seq<u8>, u16))> {
    s.map_values(|e: (EntryPoint, LibSite)| (e.0, (e.1.lib_id@, e.1.offset)))
}

/// One library entry read from the wire at `pos`: its id, its body —
/// which must parse as a valid library — and the position after it.
pub open spec fn spec_read_lib_entry(bytes: Seq<u8>, pos: int) -> Option<(Seq<u8>, Seq<u8>, int)> {
    if pos + 34 > bytes.len() {
        None
    } else {
        let blen = u16_from_le(bytes[pos + 32], bytes[pos + 33]) as int;
        if pos + 34 + blen > bytes.len() {
            None
        } else if !alu_lib_ok(bytes.subrange(pos + 34, pos + 34 + blen)) {
            None
        } else {
            Some((bytes.subrange(pos, pos + 32), bytes.subrange(pos + 34, pos + 34 + blen), pos + 34
                + blen))
        }
    }
}

/// `n` consecutive library entries read from the wire at `pos`, with the
/// position after them.
pub open spec fn spec_read_libs(bytes: Seq<u8>, pos: int, n: int) -> Option<
    (Seq<(Seq<u8>, Seq<u8>)>, int),
>
    decreases n,
{
    if n <= 0 {
        Some((Seq::empty(), pos))
    } else {
        match spec_read_lib_entry(bytes, pos) {
            None => None,
            Some((id, blob, end)) => match spec_read_libs(bytes, end, n - 1) {
                None => None,
                Some((rest, fin)) => Some((seq![(id, blob)] + rest, fin)),
            },
        }
    }
}

/// One entry-point entry read from the wire at `pos`: the hook — in its
/// canonical form, with a zero subtype for genesis — its location, and
/// the position after it.
pub open spec fn spec_read_ep_entry(bytes: Seq<u8>, pos: int) -> Option<
    (EntryPoint, (Seq<u8>, u16), int),
> {
    if pos + 37 > bytes.len() {
        None
    } else if bytes[pos] == 0 && !(bytes[pos + 1] == 0 && bytes[pos + 2] == 0) {
        None
    } else {
        match spec_entry_point_decode(bytes.subrange(pos, pos + 3)) {
            None => None,
            Some(ep) => Some(
                (
                    ep,
                    (bytes.subrange(pos + 3, pos + 35), u16_from_le(
                        bytes[pos + 35],
                        bytes[pos + 36],
                    )),
                    pos + 37,
                ),
            ),
        }
    }
}

/// `n` consecutive entry-point entries read from the wire at `pos`, with
/// the position after them.
pub open spec fn spec_read_eps(bytes: Seq<u8>, pos: int, n: int) -> Option<
    (Seq<(EntryPoint, (Seq<u8>, u16))>, int),
>
    decreases n,
{
    if n <= 0 {
        Some((Seq::empty(), pos))
    } else {
        match spec_read_ep_entry(bytes, pos) {
            None => None,
            Some((ep, site, end)) => match spec_read_eps(bytes, end, n - 1) {
                None => None,
                Some((rest, fin)) => Some((seq![(ep, site)] + rest, fin)),
            },
        }
    }
}

/// Whether the library ids of read entries are pairwise distinct.
pub open spec fn distinct_lib_entries(s: Seq<(Seq<u8>, Seq<u8>)>) -> bool {
    forall|p: int, q: int| 0 <= p < q < s.len() ==> s[p].0 != s[q].0
}

/// Whether the hooks of read entries are pairwise distinct.
pub open spec fn distinct_ep_entries(s: Seq<(EntryPoint, (Seq<u8>, u16))>) -> bool {
    forall|p: int, q: int| 0 <= p < q < s.len() ==> s[p].0 != s[q].0
}

/// The parse of a whole program wire form: the library count, that many
/// library entries, the entry-point count, that many entry-point
/// entries, nothing after them, and both key columns duplicate-free.
/// Exactly the inputs [`AluScript::strict_decode`] accepts.
pub open spec fn spec_script_parse(bytes: Seq<u8>) -> Option<
    (Seq<(Seq<u8>, Seq<u8>)>, Seq<(EntryPoint, (Seq<u8>, u16))>),
> {
    if bytes.len() < 1 {
        None
    } else {
        match spec_read_libs(bytes, 1, bytes[0] as int) {
            None => None,
            Some((libs, pos)) => {
                if pos + 2 > bytes.len() {
                    None
                } else {
                    match spec_read_eps(bytes, pos + 2, u16_from_le(
                        bytes[pos],
                        bytes[pos + 1],
                    ) as int) {
                        None => None,
                        Some((eps, end)) => {
                            if end != bytes.len() || !distinct_lib_entries(libs)
                                || !distinct_ep_entries(eps) {
                                None
                            } else {
                                Some((libs, eps))
                            }
                        },
                    }
                }
            },
        }
    }
}

spec fn libs_composed(
    bytes: Seq<u8>,
    count: int,
    done: Seq<(Seq<u8>, Seq<u8>)>,
    pos: int,
    left: int,
) -> bool {
    spec_read_libs(bytes, 1, count) == (match spec_read_libs(bytes, pos, left) {
        None => None::<(Seq<(Seq<u8>, Seq<u8>)>, int)>,
        Some((rest, fin)) => Some((done + rest, fin)),
    })
}

spec fn eps_composed(
    bytes: Seq<u8>,
    start: int,
    m: int,
    done: Seq<(EntryPoint, (Seq<u8>, u16))>,
    pos: int,
    left: int,
) -> bool {
    spec_read_eps(bytes, start, m) == (match spec_read_eps(bytes, pos, left) {
        None => None::<(Seq<(EntryPoint, (Seq<u8>, u16))>, int)>,
        Some((rest, fin)) => Some((done + rest, fin)),
    })
}

fn contains_lib_id(libs: &Vec<(LibId, Lib)>, id: &LibId) -> (r: bool)
    ensures
        r == exists|i: int| 0 <= i < libs@.len() && libs@[i].0@ == id@,
{
    let n = libs.len();
    let mut i: usize = 0;
    while i < n
        invariant
            0 <= i <= n,
            n == libs@.len(),
            forall|j: int| 0 <= j < i ==> libs@[j].0@ != id@,
        decreases n - i,
    {
        if lib_id_eq(&libs[i].0, id) {
            proof {
                assert(libs@[i as int].0@ == id@);
            }
            return true;
        }
        i += 1;
    }
    false
}

fn contains_entry(entries: &Vec<(EntryPoint, LibSite)>, ep: EntryPoint) -> (r: bool)
    ensures
        r == exists|i: int| 0 <= i < entries@.len() && entries@[i].0 == ep,
{
    let n = entries.len();
    let mut i: usize = 0;
    while i < n
        invariant
            0 <= i <= n,
            n == entries@.len(),
            forall|j: int| 0 <= j < i ==> entries@[j].0 != ep,
        decreases n - i,
    {
        if entries[i].0 == ep {
            proof {
                assert(entries@[i as int].0 == ep);
            }
            return true;
        }
        i += 1;
    }
    false
}

impl AluScript {
    /// Serializes the program to its wire form. The wire bounds are
    /// stricter than the in-memory ones: serialization fails exactly
    /// when the program holds more than 255 libraries, or, otherwise,
    /// when some library body exceeds 65535 bytes.
    pub fn strict_encode(&self) -> (r: Result<Vec<u8>, SerializeError>)
        ensures
            match r {
                Ok(bytes) => self.libs_seq().len() <= 255 && (forall|i: int|
                    #![auto]
                    0 <= i < self.libs_seq().len() ==> self.libs_seq()[i].1@.len() <= 65535)
                    && bytes@ == spec_script_bytes(*self),
                Err(SerializeError::TooManyLibs) => self.libs_seq().len() > 255,
                Err(SerializeError::LibTooLarge) => self.libs_seq().len() <= 255 && exists|i: int|
                    #![auto]
                    0 <= i < self.libs_seq().len() && self.libs_seq()[i].1@.len() > 65535,
            },
    {
        proof {
            use_type_invariant(self);
        }
        let n = self.libs.len();
        if n > 255 {
            return Err(SerializeError::TooManyLibs);
        }
        let mut out: Vec<u8> = Vec::new();
        out.push(n as u8);
        let mut i: usize = 0;
        while i < n
            invariant
                0 <= i <= n,
                n <= 255,
                n == self.libs@.len(),
                forall|j: int| #![auto] 0 <= j < i ==> self.libs@[j].1@.len() <= 65535,
                out@ == seq![(n as u8)] + spec_libs_bytes(self.libs@.subrange(0, i as int)),
            decreases n - i,
        {
            let len = self.libs[i].1.serialized_len();
            if len > 65535 {
                proof {
                    assert(self.libs_seq()[i as int].1@.len() > 65535);
                }
                return Err(SerializeError::LibTooLarge);
            }
            let ghost before = out@;
            push_bytes(&mut out, self.libs[i].0.0.as_slice());
            push_u16_le(&mut out, len as u16);
            push_bytes(&mut out, self.libs[i].1.serialized().as_slice());
            proof {
                let sub1 = self.libs@.subrange(0, i + 1);
                assert(sub1.drop_last() =~= self.libs@.subrange(0, i as int));
                assert(sub1.last() == self.libs@[i as int]);
                assert(out@ =~= seq![(n as u8)] + spec_libs_bytes(sub1));
            }
            i += 1;
        }
        proof {
            assert(self.libs@.subrange(0, n as int) =~= self.libs@);
        }
        let m = self.entry_points.len();
        let ghost head = seq![(n as u8)] + spec_libs_bytes(self.libs@) + u16_le_bytes(m as u16);
        push_u16_le(&mut out, m as u16);
        let mut k: usize = 0;
        while k < m
            invariant
                0 <= k <= m,
                m <= 65535,
                m == self.entry_points@.len(),
                head == seq![(self.libs@.len() as u8)] + spec_libs_bytes(self.libs@)
                    + u16_le_bytes(self.entry_points@.len() as u16),
                out@ == head + spec_entries_bytes(self.entry_points@.subrange(0, k as int)),
            decreases m - k,
        {
            let ep_bytes = self.entry_points[k].0.strict_encode();
            push_bytes(&mut out, ep_bytes.as_slice());
            push_bytes(&mut out, self.entry_points[k].1.lib_id.0.as_slice());
            push_u16_le(&mut out, self.entry_points[k].1.offset);
            proof {
                let sub1 = self.entry_points@.subrange(0, k + 1);
                assert(sub1.drop_last() =~= self.entry_points@.subrange(0, k as int));
                assert(sub1.last() == self.entry_points@[k as int]);
                assert(out@ =~= head + spec_entries_bytes(sub1));
            }
            k += 1;
        }
        proof {
            assert(self.entry_points@.subrange(0, m as int) =~= self.entry_points@);
            assert(out@ =~= spec_script_bytes(*self));
        }
        Ok(out)
    }

    /// Parses a program from its wire form: accepts exactly the byte
    /// strings [`spec_script_parse`] reads as a program, and a parsed
    /// program re-encodes to exactly the input bytes — the wire form is
    /// canonical. Malformed input — a truncated structure, an invalid
    /// library body, an unknown or non-canonical hook, a duplicate key,
    /// or trailing bytes — is a data-integrity error, never a crash.
    #[verifier::rlimit(50)]
    pub fn strict_decode(bytes: &Vec<u8>) -> (r: Result<AluScript, DecodeError>)
        ensures
            match r {
                Ok(s) => spec_script_bytes(s) == bytes@ && s.libs_seq().len() <= 255
                    && spec_script_parse(bytes@) == Some(
                    (lib_entries_view(s.libs_seq()), ep_entries_view(s.entry_points_seq())),
                ),
                Err(_) => spec_script_parse(bytes@) is None,
            },
    {
        let total = bytes.len();
        if total < 1 {
            return Err(DecodeError::UnexpectedEnd);
        }
        let count = bytes[0] as usize;
        let mut pos: usize = 1;
        let mut libs: Vec<(LibId, Lib)> = Vec::new();
        let mut i: usize = 0;
        proof {
            assert(lib_entries_view(libs@) =~= Seq::<(Seq<u8>, Seq<u8>)>::empty());
            match spec_read_libs(bytes@, 1, count as int) {
                None => {},
                Some((rest, fin)) => {
                    assert(lib_entries_view(libs@) + rest =~= rest);
                },
            }
        }
        while i < count
            invariant
                0 <= i <= count,
                count <= 255,
                total == bytes@.len(),
                1 <= pos <= total,
                libs@.len() == i,
                count == bytes@[0],
                forall|p: int, q: int| 0 <= p < q < libs@.len() ==> libs@[p].0@ != libs@[q].0@,
                seq![(count as u8)] + spec_libs_bytes(libs@) == bytes@.subrange(0, pos as int),
                libs_composed(bytes@, count as int, lib_entries_view(libs@), pos as int, count - i),
            decreases count - i,
        {
            if total - pos < 34 {
                proof {
                    assert(spec_read_lib_entry(bytes@, pos as int) is None);
                    assert(spec_read_libs(bytes@, pos as int, count - i) is None);
                    assert(spec_read_libs(bytes@, 1, count as int) is None);
                }
                return Err(DecodeError::UnexpectedEnd);
            }
            let id_arr = read_array32(bytes, pos);
            let len16 = read_u16_le(bytes[pos + 32], bytes[pos + 33]);
            let blob_len = len16 as usize;
            if total - pos - 34 < blob_len {
                proof {
                    assert(spec_read_lib_entry(bytes@, pos as int) is None);
                    assert(spec_read_libs(bytes@, pos as int, count - i) is None);
                    assert(spec_read_libs(bytes@, 1, count as int) is None);
                }
                return Err(DecodeError::UnexpectedEnd);
            }
            let blob = read_vec(bytes, pos + 34, blob_len);
            let lib = match Lib::with(blob) {
                Ok(lib) => lib,
                Err(_) => {
                    proof {
                        assert(spec_read_lib_entry(bytes@, pos as int) is None);
                        assert(spec_read_libs(bytes@, pos as int, count - i) is None);
                        assert(spec_read_libs(bytes@, 1, count as int) is None);
                    }
                    return Err(DecodeError::InvalidLib);
                },
            };
            let lib_id = LibId(id_arr);
            let ghost entry_view = (id_arr@, lib@);
            let ghost entry_end = pos + 34 + blob_len;
            proof {
                assert(spec_read_lib_entry(bytes@, pos as int) == Some(
                    (id_arr@, lib@, entry_end as int),
                ));
            }
            if contains_lib_id(&libs, &lib_id) {
                proof {
                    let j = choose|j: int| 0 <= j < libs@.len() && libs@[j].0@ == id_arr@;
                    match spec_read_libs(bytes@, entry_end as int, count - i - 1) {
                        None => {
                            assert(spec_read_libs(bytes@, pos as int, count - i) is None);
                            assert(spec_read_libs(bytes@, 1, count as int) is None);
                        },
                        Some((rest, fin)) => {
                            assert(spec_read_libs(bytes@, pos as int, count - i) == Some(
                                (seq![entry_view] + rest, fin),
                            ));
                            let all = lib_entries_view(libs@) + (seq![entry_view] + rest);
                            assert(spec_read_libs(bytes@, 1, count as int) == Some(
                                (all, fin),
                            ));
                            assert(all[j].0 == id_arr@);
                            assert(all[libs@.len() as int].0 == id_arr@);
                            assert(!distinct_lib_entries(all));
                            if fin + 2 <= bytes@.len() {
                                match spec_read_eps(
                                    bytes@,
                                    fin + 2,
                                    u16_from_le(bytes@[fin], bytes@[fin + 1]) as int,
                                ) {
                                    None => {},
                                    Some((eps, end)) => {},
                                }
                            }
                            assert(spec_script_parse(bytes@) is None);
                        },
                    }
                }
                return Err(DecodeError::DuplicateLib);
            }
            let ghost before = libs@;
            libs.push((lib_id, lib));
            proof {
                lemma_u16_from_le_roundtrip(bytes@[pos + 32], bytes@[pos + 33]);
                let entry = libs@.last();
                assert(libs@.drop_last() =~= before);
                assert(spec_lib_entry_bytes(entry) =~= bytes@.subrange(
                    pos as int,
                    pos + 34 + blob_len,
                ));
                assert(spec_libs_bytes(libs@) == spec_libs_bytes(before) + spec_lib_entry_bytes(
                    entry,
                ));
                assert(bytes@.subrange(0, pos + 34 + blob_len) =~= bytes@.subrange(0, pos as int)
                    + bytes@.subrange(pos as int, pos + 34 + blob_len));
                assert(seq![(count as u8)] + spec_libs_bytes(libs@) =~= bytes@.subrange(
                    0,
                    pos + 34 + blob_len,
                ));
                assert(lib_entries_view(libs@) =~= lib_entries_view(before) + seq![entry_view]);
                match spec_read_libs(bytes@, entry_end as int, count - i - 1) {
                    None => {
                        assert(spec_read_libs(bytes@, pos as int, count - i) is None);
                        assert(spec_read_libs(bytes@, 1, count as int) is None);
                    },
                    Some((rest, fin)) => {
                        assert(spec_read_libs(bytes@, pos as int, count - i) == Some(
                            (seq![entry_view] + rest, fin),
                        ));
                        assert(lib_entries_view(before) + (seq![entry_view] + rest) =~= (
                        lib_entries_view(before) + seq![entry_view]) + rest);
                        assert(spec_read_libs(bytes@, 1, count as int) == Some(
                            (lib_entries_view(libs@) + rest, fin),
                        ));
                    },
                }
            }
            pos = pos + 34 + blob_len;
            i += 1;
        }
        let ghost libs_all = lib_entries_view(libs@);
        let ghost lib_end = pos as int;
        proof {
            assert(spec_read_libs(bytes@, pos as int, 0) == Some(
                (Seq::<(Seq<u8>, Seq<u8>)>::empty(), pos as int),
            ));
            assert(libs_all + Seq::<(Seq<u8>, Seq<u8>)>::empty() =~= libs_all);
            assert(spec_read_libs(bytes@, 1, count as int) == Some((libs_all, lib_end)));
        }
        if total - pos < 2 {
            return Err(DecodeError::UnexpectedEnd);
        }
        let ep_count16 = read_u16_le(bytes[pos], bytes[pos + 1]);
        let ep_count = ep_count16 as usize;
        let ghost head = seq![(count as u8)] + spec_libs_bytes(libs@) + u16_le_bytes(ep_count16);
        proof {
            lemma_u16_from_le_roundtrip(bytes@[pos as int], bytes@[pos + 1]);
            assert(head =~= bytes@.subrange(0, pos + 2));
        }
        pos = pos + 2;
        let mut entry_points: Vec<(EntryPoint, LibSite)> = Vec::new();
        let mut k: usize = 0;
        proof {
            assert(ep_entries_view(entry_points@) =~= Seq::<(EntryPoint, (Seq<u8>, u16))>::empty());
            match spec_read_eps(bytes@, lib_end + 2, ep_count as int) {
                None => {},
                Some((rest, fin)) => {
                    assert(ep_entries_view(entry_points@) + rest =~= rest);
                },
            }
        }
        while k < ep_count
            invariant
                0 <= k <= ep_count,
                ep_count <= 65535,
                total == bytes@.len(),
                1 <= pos <= total,
                entry_points@.len() == k,
                count == bytes@[0],
                count == libs@.len(),
                libs_all == lib_entries_view(libs@),
                forall|p: int, q: int| 0 <= p < q < libs@.len() ==> libs@[p].0@ != libs@[q].0@,
                spec_read_libs(bytes@, 1, count as int) == Some((libs_all, lib_end)),
                lib_end + 2 <= total,
                ep_count == u16_from_le(bytes@[lib_end], bytes@[lib_end + 1]),
                forall|p: int, q: int|
                    0 <= p < q < entry_points@.len() ==> entry_points@[p].0
                        != entry_points@[q].0,
                head + spec_entries_bytes(entry_points@) == bytes@.subrange(0, pos as int),
                eps_composed(
                    bytes@,
                    lib_end + 2,
                    ep_count as int,
                    ep_entries_view(entry_points@),
                    pos as int,
                    ep_count - k,
                ),
            decreases ep_count - k,
        {
            if total - pos < 37 {
                proof {
                    assert(spec_read_ep_entry(bytes@, pos as int) is None);
                    assert(spec_read_eps(bytes@, pos as int, ep_count - k) is None);
                    assert(spec_read_eps(bytes@, lib_end + 2, ep_count as int) is None);
                }
                return Err(DecodeError::UnexpectedEnd);
            }
            let tag = bytes[pos];
            let b1 = bytes[pos + 1];
            let b2 = bytes[pos + 2];
            proof {
                assert(bytes@.subrange(pos as int, pos + 3) =~= seq![tag, b1, b2]);
            }
            let subty = read_u16_le(b1, b2);
            let ep = match tag {
                0 => {
                    if b1 != 0 || b2 != 0 {
                        proof {
                            assert(spec_read_ep_entry(bytes@, pos as int) is None);
                            assert(spec_read_eps(bytes@, pos as int, ep_count - k) is None);
                            assert(spec_read_eps(bytes@, lib_end + 2, ep_count as int) is None);
                        }
                        return Err(DecodeError::NonCanonicalGenesis);
                    }
                    EntryPoint::ValidateGenesis
                },
                1 => EntryPoint::ValidateTransition(subty),
                2 => EntryPoint::ValidateExtension(subty),
                3 => EntryPoint::ValidateGlobalState(subty),
                4 => EntryPoint::ValidateOwnedState(subty),
                _ => {
                    proof {
                        assert(spec_entry_point_decode(bytes@.subrange(pos as int, pos + 3))
                            is None);
                        assert(spec_read_ep_entry(bytes@, pos as int) is None);
                        assert(spec_read_eps(bytes@, pos as int, ep_count - k) is None);
                        assert(spec_read_eps(bytes@, lib_end + 2, ep_count as int) is None);
                    }
                    return Err(DecodeError::UnknownEntryPointTag(tag));
                },
            };
            let id_arr = read_array32(bytes, pos + 3);
            let offset = read_u16_le(bytes[pos + 35], bytes[pos + 36]);
            let site = LibSite { lib_id: LibId(id_arr), offset };
            let ghost entry_view = (ep, (id_arr@, offset));
            let ghost entry_end = pos + 37;
            proof {
                assert(spec_entry_point_decode(bytes@.subrange(pos as int, pos + 3)) == Some(ep));
                assert(bytes@.subrange(pos + 3, pos + 35) =~= id_arr@);
                assert(spec_read_ep_entry(bytes@, pos as int) == Some(
                    (ep, (id_arr@, offset), entry_end as int),
                ));
            }
            if contains_entry(&entry_points, ep) {
                proof {
                    let j = choose|j: int|
                        0 <= j < entry_points@.len() && entry_points@[j].0 == ep;
                    match spec_read_eps(bytes@, entry_end as int, ep_count - k - 1) {
                        None => {
                            assert(spec_read_eps(bytes@, pos as int, ep_count - k) is None);
                            assert(spec_read_eps(bytes@, lib_end + 2, ep_count as int) is None);
                        },
                        Some((rest, fin)) => {
                            assert(spec_read_eps(bytes@, pos as int, ep_count - k) == Some(
                                (seq![entry_view] + rest, fin),
                            ));
                            let all = ep_entries_view(entry_points@) + (seq![entry_view] + rest);
                            assert(spec_read_eps(bytes@, lib_end + 2, ep_count as int) == Some(
                                (all, fin),
                            ));
                            assert(all[j].0 == ep);
                            assert(all[entry_points@.len() as int].0 == ep);
                            assert(!distinct_ep_entries(all));
                            assert(spec_script_parse(bytes@) is None);
                        },
                    }
                }
                return Err(DecodeError::DuplicateEntryPoint);
            }
            let ghost before = entry_points@;
            entry_points.push((ep, site));
            proof {
                lemma_u16_from_le_roundtrip(b1, b2);
                lemma_u16_from_le_roundtrip(bytes@[pos + 35], bytes@[pos + 36]);
                let entry = entry_points@.last();
                assert(entry_points@.drop_last() =~= before);
                assert(spec_entry_point_bytes(ep) =~= bytes@.subrange(pos as int, pos + 3));
                assert(spec_entry_bytes(entry) =~= bytes@.subrange(pos as int, pos + 37));
                assert(spec_entries_bytes(entry_points@) == spec_entries_bytes(before)
                    + spec_entry_bytes(entry));
                assert(bytes@.subrange(0, pos + 37) =~= bytes@.subrange(0, pos as int)
                    + bytes@.subrange(pos as int, pos + 37));
                assert(head + spec_entries_bytes(entry_points@) =~= bytes@.subrange(0, pos + 37));
                assert(ep_entries_view(entry_points@) =~= ep_entries_view(before) + seq![
                    entry_view,
                ]);
                match spec_read_eps(bytes@, entry_end as int, ep_count - k - 1) {
                    None => {
                        assert(spec_read_eps(bytes@, pos as int, ep_count - k) is None);
                        assert(spec_read_eps(bytes@, lib_end + 2, ep_count as int) is None);
                    },
                    Some((rest, fin)) => {
                        assert(spec_read_eps(bytes@, pos as int, ep_count - k) == Some(
                            (seq![entry_view] + rest, fin),
                        ));
                        assert(ep_entries_view(before) + (seq![entry_view] + rest) =~= (
                        ep_entries_view(before) + seq![entry_view]) + rest);
                        assert(spec_read_eps(bytes@, lib_end + 2, ep_count as int) == Some(
                            (ep_entries_view(entry_points@) + rest, fin),
                        ));
                    },
                }
            }
            pos = pos + 37;
            k += 1;
        }
        let ghost eps_all = ep_entries_view(entry_points@);
        proof {
            assert(spec_read_eps(bytes@, pos as int, 0) == Some(
                (Seq::<(EntryPoint, (Seq<u8>, u16))>::empty(), pos as int),
            ));
            assert(eps_all + Seq::<(EntryPoint, (Seq<u8>, u16))>::empty() =~= eps_all);
            assert(spec_read_eps(bytes@, lib_end + 2, ep_count as int) == Some(
                (eps_all, pos as int),
            ));
        }
        if pos != total {
            return Err(DecodeError::TrailingBytes);
        }
        let script = AluScript { libs, entry_points };
        proof {
            assert(spec_script_bytes(script) =~= bytes@);
            assert forall|p: int, q: int|
                0 <= p < q < libs_all.len() implies libs_all[p].0 != libs_all[q].0 by {
                assert(libs_all[p].0 == script.libs@[p].0@);
                assert(libs_all[q].0 == script.libs@[q].0@);
            }
            assert forall|p: int, q: int|
                0 <= p < q < eps_all.len() implies eps_all[p].0 != eps_all[q].0 by {
                assert(eps_all[p].0 == script.entry_points@[p].0);
                assert(eps_all[q].0 == script.entry_points@[q].0);
            }
            assert(distinct_lib_entries(libs_all));
            assert(distinct_ep_entries(eps_all));
            assert(spec_script_parse(bytes@) == Some((libs_all, eps_all)));
        }
        Ok(script)
    }
}

} // verus!
