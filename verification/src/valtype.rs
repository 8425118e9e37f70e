//! Value types of the interface-types section, their binary encoding, and
//! their relation to the value types of the host wasm module.

use vstd::prelude::*;

verus! {

/// The closed set of interface value types.
///
/// The last four (`String`, `Externref`, `I32`, `I64`) overlap with host wasm
/// types; the signed/unsigned narrow widths and `String` exist only on the
/// interface side.
#[derive(Clone, Copy, Debug, PartialEq, Eq, Structural, Hash)]
pub enum ValType {
    S8,
    S16,
    S32,
    S64,
    U8,
    U16,
    U32,
    U64,
    F32,
    F64,
    String,
    Externref,
    I32,
    I64,
}

/// Value types of the host wasm module that adapter instructions can see.
#[derive(Clone, Copy, Debug, PartialEq, Eq, Structural, Hash)]
pub enum HostValType {
    I32,
    I64,
    F32,
    F64,
    V128,
    FuncRef,
    Externref,
}

/// The byte that encodes an interface value type in the binary format.
pub open spec fn valtype_byte(v: ValType) -> u8 {
    match v {
        ValType::S8 => 0x00,
        ValType::S16 => 0x01,
        ValType::S32 => 0x02,
        ValType::S64 => 0x03,
        ValType::U8 => 0x04,
        ValType::U16 => 0x05,
        ValType::U32 => 0x06,
        ValType::U64 => 0x07,
        ValType::F32 => 0x08,
        ValType::F64 => 0x09,
        ValType::String => 0x0a,
        ValType::Externref => 0x0b,
        ValType::I32 => 0x0c,
        ValType::I64 => 0x0d,
    }
}

/// The interface value type a byte decodes to, if any.
pub open spec fn valtype_of_byte(b: u8) -> Option<ValType> {
    if b == 0x00 {
        Some(ValType::S8)
    } else if b == 0x01 {
        Some(ValType::S16)
    } else if b == 0x02 {
        Some(ValType::S32)
    } else if b == 0x03 {
        Some(ValType::S64)
    } else if b == 0x04 {
        Some(ValType::U8)
    } else if b == 0x05 {
        Some(ValType::U16)
    } else if b == 0x06 {
        Some(ValType::U32)
    } else if b == 0x07 {
        Some(ValType::U64)
    } else if b == 0x08 {
        Some(ValType::F32)
    } else if b == 0x09 {
        Some(ValType::F64)
    } else if b == 0x0a {
        Some(ValType::String)
    } else if b == 0x0b {
        Some(ValType::Externref)
    } else if b == 0x0c {
        Some(ValType::I32)
    } else if b == 0x0d {
        Some(ValType::I64)
    } else {
        None
    }
}

/// Decoding a type's encoding byte yields the type back.
pub broadcast proof fn lemma_valtype_byte_round_trip(v: ValType)
    ensures
        #[trigger] valtype_of_byte(valtype_byte(v)) == Some(v),
{
}

impl ValType {
    /// Encodes this value type as its binary byte.
    pub fn to_byte(self) -> (b: u8)
        ensures
            b == valtype_byte(self),
    {
        match self {
            ValType::S8 => 0x00,
            ValType::S16 => 0x01,
            ValType::S32 => 0x02,
            ValType::S64 => 0x03,
            ValType::U8 => 0x04,
            ValType::U16 => 0x05,
            ValType::U32 => 0x06,
            ValType::U64 => 0x07,
            ValType::F32 => 0x08,
            ValType::F64 => 0x09,
            ValType::String => 0x0a,
            ValType::Externref => 0x0b,
            ValType::I32 => 0x0c,
            ValType::I64 => 0x0d,
        }
    }

    /// Decodes a binary byte into a value type, if it is in range.
    pub fn from_byte(b: u8) -> (r: Option<ValType>)
        ensures
            r == valtype_of_byte(b),
    {
        match b {
            0x00 => Some(ValType::S8),
            0x01 => Some(ValType::S16),
            0x02 => Some(ValType::S32),
            0x03 => Some(ValType::S64),
            0x04 => Some(ValType::U8),
            0x05 => Some(ValType::U16),
            0x06 => Some(ValType::U32),
            0x07 => Some(ValType::U64),
            0x08 => Some(ValType::F32),
            0x09 => Some(ValType::F64),
            0x0a => Some(ValType::String),
            0x0b => Some(ValType::Externref),
            0x0c => Some(ValType::I32),
            0x0d => Some(ValType::I64),
            _ => None,
        }
    }
}

/// Whether an interface value type is the exact counterpart of a host wasm
/// value type: the equivalence table used by `call-core`, `defer-call-core`
/// and `implement` checks.
pub open spec fn spec_tys_match(a: ValType, b: HostValType) -> bool {
    match (a, b) {
        (ValType::I32, HostValType::I32) => true,
        (ValType::I64, HostValType::I64) => true,
        (ValType::F32, HostValType::F32) => true,
        (ValType::F64, HostValType::F64) => true,
        (ValType::Externref, HostValType::Externref) => true,
        _ => false,
    }
}

/// Executable form of the interface/host equivalence table.
pub fn tys_match(a: ValType, b: HostValType) -> (r: bool)
    ensures
        r == spec_tys_match(a, b),
{
    match (a, b) {
        (ValType::I32, HostValType::I32) => true,
        (ValType::I64, HostValType::I64) => true,
        (ValType::F32, HostValType::F32) => true,
        (ValType::F64, HostValType::F64) => true,
        (ValType::Externref, HostValType::Externref) => true,
        _ => false,
    }
}

/// The interface value type that stands for a host wasm value type, if any.
pub open spec fn spec_wasm2adapter(a: HostValType) -> Option<ValType> {
    match a {
        HostValType::I32 => Some(ValType::I32),
        HostValType::I64 => Some(ValType::I64),
        HostValType::F32 => Some(ValType::F32),
        HostValType::F64 => Some(ValType::F64),
        HostValType::Externref => Some(ValType::Externref),
        _ => None,
    }
}

/// Converts a host wasm value type to its interface counterpart, if one
/// exists (`v128` and `funcref` have none).
pub fn wasm2adapter(a: HostValType) -> (r: Option<ValType>)
    ensures
        r == spec_wasm2adapter(a),
{
    match a {
        HostValType::I32 => Some(ValType::I32),
        HostValType::I64 => Some(ValType::I64),
        HostValType::F32 => Some(ValType::F32),
        HostValType::F64 => Some(ValType::F64),
        HostValType::Externref => Some(ValType::Externref),
        _ => None,
    }
}

/// Compares two lists of value types for equality.
#[verifier::loop_isolation(false)]
pub fn valtypes_eq(a: &Vec<ValType>, b: &Vec<ValType>) -> (r: bool)
    ensures
        r == (a@ == b@),
{
    if a.len() != b.len() {
        return false;
    }
    let mut i: usize = 0;
    while i < a.len()
        invariant
            0 <= i <= a@.len(),
            a@.len() == b@.len(),
            forall|j: int| 0 <= j < i ==> a@[j] == b@[j],
        decreases a@.len() - i,
    {
        if a[i] != b[i] {
            return false;
        }
        i = i + 1;
    }
    proof {
        assert(a@ =~= b@);
    }
    true
}

} // verus!
