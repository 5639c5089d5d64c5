//! Media types of attachment payloads and their conformance rules.

use vstd::prelude::*;

verus! {

/// Ghost image of a [`MediaType`]: the two registered names as byte
/// sequences.
pub ghost struct MediaTypeV {
    pub ty: Seq<u8>,
    pub subtype: Seq<u8>,
}

/// Media (MIME-like) type of an attachment payload. No registry is
/// enforced, since non-standard types can also be used; either name may be
/// the single byte `*`, which in a schema position permits any name.
pub struct MediaType {
    /// Main type registered name.
    pub ty: Vec<u8>,
    /// Subtype registered name.
    pub subtype: Vec<u8>,
}

impl View for MediaType {
    type V = MediaTypeV;

    open spec fn view(&self) -> MediaTypeV {
        MediaTypeV { ty: self.ty@, subtype: self.subtype@ }
    }
}

/// The wildcard name: a single `*` byte.
pub open spec fn wildcard() -> Seq<u8> {
    seq![42u8]
}

/// One registered name permits another when it is the wildcard or the very
/// same name.
pub open spec fn name_permits(schema_name: Seq<u8>, found: Seq<u8>) -> bool {
    schema_name == wildcard() || schema_name == found
}

/// A found media type conforms to the one a schema declares when both of
/// its names are permitted by the schema's names.
pub open spec fn spec_conforms(found: MediaTypeV, schema: MediaTypeV) -> bool {
    name_permits(schema.ty, found.ty) && name_permits(schema.subtype, found.subtype)
}

fn is_wildcard(name: &Vec<u8>) -> (r: bool)
    ensures
        r == (name@ == wildcard()),
{
    let r = name.len() == 1 && name[0] == 42u8;
    proof {
        if r {
            assert(name@ =~= wildcard());
        }
        if name@ == wildcard() {
            assert(name@.len() == 1);
            assert(name@[0] == 42u8);
        }
    }
    r
}

fn bytes_eq(a: &Vec<u8>, b: &Vec<u8>) -> (r: bool)
    ensures
        r == (a@ == b@),
{
    let r = a == b;
    proof {
        if a@ =~= b@ {
            assert(a@ == b@);
        }
    }
    r
}

impl MediaType {
    /// Constructs a media type from its two names.
    pub fn with(ty: Vec<u8>, subtype: Vec<u8>) -> (r: MediaType)
        ensures
            r@.ty == ty@,
            r@.subtype == subtype@,
    {
        MediaType { ty, subtype }
    }

    /// Decides whether this media type matches or is permitted by the one
    /// declared by `schema`.
    pub fn conforms(&self, schema: &MediaType) -> (r: bool)
        ensures
            r == spec_conforms(self@, schema@),
    {
        (is_wildcard(&schema.ty) || bytes_eq(&schema.ty, &self.ty)) && (is_wildcard(
            &schema.subtype,
        ) || bytes_eq(&schema.subtype, &self.subtype))
    }
}

impl Clone for MediaType {
    fn clone(&self) -> (r: Self)
        ensures
            r@ == self@,
    {
        let r = MediaType { ty: self.ty.clone(), subtype: self.subtype.clone() };
        proof {
            assert(r.ty@ =~= self.ty@);
            assert(r.subtype@ =~= self.subtype@);
        }
        r
    }
}

} // verus!
