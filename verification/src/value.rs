use vstd::prelude::*;
use crate::types::{HostType, TypeShape, spec_type_id, spec_type_name};

verus! {

/// Mathematical content of an erased typed cell.
pub struct EvaluatedTermView {
    pub typ: HostType,
    pub bytes: Seq<u8>,
}

/// An erased typed cell: an opaque type identity paired with the value's
/// payload bytes. Dynamic functions exchange these, and the evaluator
/// returns one. The payload can be recovered only by a downcast that
/// names the right type.
#[derive(Debug)]
pub struct EvaluatedTerm {
    pub typ: HostType,
    pub bytes: Vec<u8>,
}

impl View for EvaluatedTerm {
    type V = EvaluatedTermView;

    open spec fn view(&self) -> EvaluatedTermView {
        EvaluatedTermView { typ: self.typ, bytes: self.bytes@ }
    }
}

impl EvaluatedTerm {
    /// Packs payload bytes under a type identity.
    pub fn new(typ: HostType, bytes: Vec<u8>) -> (r: EvaluatedTerm)
        ensures
            r@.typ == typ,
            r@.bytes == bytes@,
    {
        EvaluatedTerm { typ, bytes }
    }

    /// The runtime type identity of the value.
    pub fn host_type(&self) -> (r: HostType)
        ensures
            r == self@.typ,
    {
        self.typ
    }

    /// The runtime type shape of the value, built through the registry.
    pub fn type_shape(&self) -> (r: TypeShape)
        ensures
            r.id == spec_type_id(self@.typ),
            r.name@ == spec_type_name(self@.typ),
    {
        TypeShape::of(self.typ)
    }

    /// The typed payload, if the identity matches; `None` otherwise.
    pub fn downcast_ref(&self, t: HostType) -> (r: Option<&Vec<u8>>)
        ensures
            match r {
                Some(b) => self@.typ == t && b@ == self@.bytes,
                None => self@.typ != t,
            },
    {
        if self.typ == t {
            Some(&self.bytes)
        } else {
            None
        }
    }

    /// The byte encoding of the value: its payload.
    pub fn encode(&self) -> (r: Vec<u8>)
        ensures
            r@ == self@.bytes,
    {
        vstd::slice::slice_to_vec(self.bytes.as_slice())
    }

    /// A structural copy.
    pub fn duplicate(&self) -> (r: EvaluatedTerm)
        ensures
            r@ == self@,
    {
        EvaluatedTerm { typ: self.typ, bytes: vstd::slice::slice_to_vec(self.bytes.as_slice()) }
    }
}

impl Clone for EvaluatedTerm {
    /// Copies identity and payload.
    fn clone(&self) -> (r: Self)
        ensures
            r@ == self@,
    {
        self.duplicate()
    }
}

} // verus!
