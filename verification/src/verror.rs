//! Validation errors: one structured variant per rule the validator
//! enforces, with the exact message text each produces.

use vstd::prelude::*;
use vstd::string::StringExecFns;
use crate::error::Error;
use crate::strings::{dec_digits, push_dec};
use crate::valtype::{ValType, HostValType};

verus! {

/// The origin of a core function: brought in by an import, or defined in
/// the module itself.
#[derive(Clone, Copy, Debug, PartialEq, Eq, Structural)]
pub enum CoreFunc {
    Import,
    Local,
}

/// Why validation rejected a module.
#[derive(Debug)]
pub enum VError {
    /// A structural decode error inside the interface section.
    Parse(Error),
    /// Two interface-types custom sections in one module.
    TwoSections,
    /// A section id that does not increase over the one before it; the
    /// payload is the section's name as used in messages.
    OutOfOrder(String),
    /// A core type index beyond the core type table.
    TypeIdxTooBig(u32),
    /// An adapter type index beyond the adapter type table.
    AdapterTypeIdxTooBig(u32),
    /// An adapter function index beyond the adapter function table.
    AdapterFuncIdxTooBig(u32),
    /// A core function index beyond the core function table.
    CoreFuncIdxTooBig(u32),
    /// An `arg.get` index beyond the declared parameters.
    ParamIdxOutOfBounds(u32),
    /// A memory index beyond the host memory count.
    MemoryIdxOutOfBounds(u32),
    /// A `string-to-memory` allocator whose signature is not `(i32) -> (i32)`.
    BadMallocSignature(u32),
    /// A `defer-call-core` of a core function that returns values.
    DeferredCallReturns,
    /// An `end` opcode in the middle of a body.
    ExtraEnd,
    /// A pop that expected a host-typed value; `None` when the stack was
    /// empty.
    ExpectedWasmType(HostValType, Option<ValType>),
    /// A pop that expected an interface-typed value; `None` when the stack
    /// was empty.
    ExpectedInterfaceType(ValType, Option<ValType>),
    /// Values left over on the stack at function exit.
    StackNotEmpty,
    /// An export name used twice within one section.
    DuplicateExport(String),
    /// An `implement` directive whose core function is locally defined.
    ImplementNotImport,
    /// An `implement` directive whose two signatures disagree; the core
    /// function index, then the adapter function index.
    SignatureMismatch(u32, u32),
    /// A host value type with no interface counterpart.
    NotAnAdapterType(HostValType),
}

/// Specification-level mirror of `VError`.
pub enum VErrView {
    Parse(crate::error::ErrView),
    TwoSections,
    OutOfOrder(Seq<char>),
    TypeIdxTooBig(u32),
    AdapterTypeIdxTooBig(u32),
    AdapterFuncIdxTooBig(u32),
    CoreFuncIdxTooBig(u32),
    ParamIdxOutOfBounds(u32),
    MemoryIdxOutOfBounds(u32),
    BadMallocSignature(u32),
    DeferredCallReturns,
    ExtraEnd,
    ExpectedWasmType(HostValType, Option<ValType>),
    ExpectedInterfaceType(ValType, Option<ValType>),
    StackNotEmpty,
    DuplicateExport(Seq<char>),
    ImplementNotImport,
    SignatureMismatch(u32, u32),
    NotAnAdapterType(HostValType),
}

impl View for VError {
    type V = VErrView;

    open spec fn view(&self) -> VErrView {
        match self {
            VError::Parse(e) => VErrView::Parse(e@),
            VError::TwoSections => VErrView::TwoSections,
            VError::OutOfOrder(s) => VErrView::OutOfOrder(s@),
            VError::TypeIdxTooBig(n) => VErrView::TypeIdxTooBig(*n),
            VError::AdapterTypeIdxTooBig(n) => VErrView::AdapterTypeIdxTooBig(*n),
            VError::AdapterFuncIdxTooBig(n) => VErrView::AdapterFuncIdxTooBig(*n),
            VError::CoreFuncIdxTooBig(n) => VErrView::CoreFuncIdxTooBig(*n),
            VError::ParamIdxOutOfBounds(n) => VErrView::ParamIdxOutOfBounds(*n),
            VError::MemoryIdxOutOfBounds(n) => VErrView::MemoryIdxOutOfBounds(*n),
            VError::BadMallocSignature(n) => VErrView::BadMallocSignature(*n),
            VError::DeferredCallReturns => VErrView::DeferredCallReturns,
            VError::ExtraEnd => VErrView::ExtraEnd,
            VError::ExpectedWasmType(e, f) => VErrView::ExpectedWasmType(*e, *f),
            VError::ExpectedInterfaceType(e, f) => VErrView::ExpectedInterfaceType(*e, *f),
            VError::StackNotEmpty => VErrView::StackNotEmpty,
            VError::DuplicateExport(s) => VErrView::DuplicateExport(s@),
            VError::ImplementNotImport => VErrView::ImplementNotImport,
            VError::SignatureMismatch(a, b) => VErrView::SignatureMismatch(*a, *b),
            VError::NotAnAdapterType(t) => VErrView::NotAnAdapterType(*t),
        }
    }
}

/// The display name of an interface value type, as messages print it.
pub open spec fn valtype_name(v: ValType) -> Seq<char> {
    match v {
        ValType::S8 => "S8"@,
        ValType::S16 => "S16"@,
        ValType::S32 => "S32"@,
        ValType::S64 => "S64"@,
        ValType::U8 => "U8"@,
        ValType::U16 => "U16"@,
        ValType::U32 => "U32"@,
        ValType::U64 => "U64"@,
        ValType::F32 => "F32"@,
        ValType::F64 => "F64"@,
        ValType::String => "String"@,
        ValType::Externref => "Externref"@,
        ValType::I32 => "I32"@,
        ValType::I64 => "I64"@,
    }
}

/// The display name of a host value type, as messages print it.
pub open spec fn host_valtype_name(v: HostValType) -> Seq<char> {
    match v {
        HostValType::I32 => "I32"@,
        HostValType::I64 => "I64"@,
        HostValType::F32 => "F32"@,
        HostValType::F64 => "F64"@,
        HostValType::V128 => "V128"@,
        HostValType::FuncRef => "FuncRef"@,
        HostValType::Externref => "ExternRef"@,
    }
}

/// The message text of a validation error.
pub open spec fn verror_message(e: VErrView) -> Seq<char> {
    match e {
        VErrView::Parse(pe) => crate::error::error_message(pe),
        VErrView::TwoSections => "found two `wasm-interface-types` custom sections"@,
        VErrView::OutOfOrder(name) => "found `"@ + name + "` section but was out of order"@,
        VErrView::TypeIdxTooBig(n) => "type index too large: "@ + dec_digits(n as nat),
        VErrView::AdapterTypeIdxTooBig(n) => "adapter type index too large: "@ + dec_digits(
            n as nat,
        ),
        VErrView::AdapterFuncIdxTooBig(n) => "adapter func index too large: "@ + dec_digits(
            n as nat,
        ),
        VErrView::CoreFuncIdxTooBig(n) => "func index too large: "@ + dec_digits(n as nat),
        VErrView::ParamIdxOutOfBounds(n) => "parameter index out of bounds: "@ + dec_digits(
            n as nat,
        ),
        VErrView::MemoryIdxOutOfBounds(n) => "memory index out of bounds: "@ + dec_digits(
            n as nat,
        ),
        VErrView::BadMallocSignature(n) => "malloc function "@ + dec_digits(n as nat)
            + " does not have correct signature"@,
        VErrView::DeferredCallReturns => "cannot have returned values in deferred calls"@,
        VErrView::ExtraEnd => "extra `end` instruction found"@,
        VErrView::ExpectedWasmType(exp, found) => "expected "@ + host_valtype_name(exp)
            + " on type stack, found "@ + match found {
            None => "nothing"@,
            Some(f) => valtype_name(f),
        },
        VErrView::ExpectedInterfaceType(exp, found) => "expected "@ + valtype_name(exp)
            + " on type stack, found "@ + match found {
            None => "nothing"@,
            Some(f) => valtype_name(f),
        },
        VErrView::StackNotEmpty => "value stack isn't empty on function exit"@,
        VErrView::DuplicateExport(name) => "found duplicate export `"@ + name + "`"@,
        VErrView::ImplementNotImport =>
            "implement directive must be connected to imported function in the core module"@,
        VErrView::SignatureMismatch(c, a) => "core function "@ + dec_digits(c as nat)
            + " has a different type signature than adapter function "@ + dec_digits(a as nat),
        VErrView::NotAnAdapterType(t) => "currently "@ + host_valtype_name(t)
            + " is not a valid wasm interface type"@,
    }
}

/// The display name of an interface value type.
fn valtype_name_str(v: ValType) -> (r: &'static str)
    ensures
        r@ == valtype_name(v),
{
    match v {
        ValType::S8 => "S8",
        ValType::S16 => "S16",
        ValType::S32 => "S32",
        ValType::S64 => "S64",
        ValType::U8 => "U8",
        ValType::U16 => "U16",
        ValType::U32 => "U32",
        ValType::U64 => "U64",
        ValType::F32 => "F32",
        ValType::F64 => "F64",
        ValType::String => "String",
        ValType::Externref => "Externref",
        ValType::I32 => "I32",
        ValType::I64 => "I64",
    }
}

/// The display name of a host value type.
fn host_valtype_name_str(v: HostValType) -> (r: &'static str)
    ensures
        r@ == host_valtype_name(v),
{
    match v {
        HostValType::I32 => "I32",
        HostValType::I64 => "I64",
        HostValType::F32 => "F32",
        HostValType::F64 => "F64",
        HostValType::V128 => "V128",
        HostValType::FuncRef => "FuncRef",
        HostValType::Externref => "ExternRef",
    }
}

impl VError {
    /// Renders this error as the message text the validator reports.
    pub fn message(&self) -> (r: String)
        ensures
            r@ == verror_message(self@),
    {
        match self {
            VError::Parse(pe) => pe.message(),
            VError::TwoSections => String::from_str("found two `wasm-interface-types` custom sections"),
            VError::OutOfOrder(name) => {
                let mut s = String::from_str("found `");
                s.append(name.as_str());
                s.append("` section but was out of order");
                proof {
                    assert(s@ =~= verror_message(self@));
                }
                s
            },
            VError::TypeIdxTooBig(n) => {
                let mut s = String::from_str("type index too large: ");
                push_dec(&mut s, *n as u64);
                proof {
                    assert(s@ =~= verror_message(self@));
                }
                s
            },
            VError::AdapterTypeIdxTooBig(n) => {
                let mut s = String::from_str("adapter type index too large: ");
                push_dec(&mut s, *n as u64);
                proof {
                    assert(s@ =~= verror_message(self@));
                }
                s
            },
            VError::AdapterFuncIdxTooBig(n) => {
                let mut s = String::from_str("adapter func index too large: ");
                push_dec(&mut s, *n as u64);
                proof {
                    assert(s@ =~= verror_message(self@));
                }
                s
            },
            VError::CoreFuncIdxTooBig(n) => {
                let mut s = String::from_str("func index too large: ");
                push_dec(&mut s, *n as u64);
                proof {
                    assert(s@ =~= verror_message(self@));
                }
                s
            },
            VError::ParamIdxOutOfBounds(n) => {
                let mut s = String::from_str("parameter index out of bounds: ");
                push_dec(&mut s, *n as u64);
                proof {
                    assert(s@ =~= verror_message(self@));
                }
                s
            },
            VError::MemoryIdxOutOfBounds(n) => {
                let mut s = String::from_str("memory index out of bounds: ");
                push_dec(&mut s, *n as u64);
                proof {
                    assert(s@ =~= verror_message(self@));
                }
                s
            },
            VError::BadMallocSignature(n) => {
                let mut s = String::from_str("malloc function ");
                push_dec(&mut s, *n as u64);
                s.append(" does not have correct signature");
                proof {
                    assert(s@ =~= verror_message(self@));
                }
                s
            },
            VError::DeferredCallReturns => String::from_str("cannot have returned values in deferred calls"),
            VError::ExtraEnd => String::from_str("extra `end` instruction found"),
            VError::ExpectedWasmType(exp, found) => {
                let mut s = String::from_str("expected ");
                s.append(host_valtype_name_str(*exp));
                s.append(" on type stack, found ");
                match found {
                    None => s.append("nothing"),
                    Some(f) => s.append(valtype_name_str(*f)),
                }
                proof {
                    assert(s@ =~= verror_message(self@));
                }
                s
            },
            VError::ExpectedInterfaceType(exp, found) => {
                let mut s = String::from_str("expected ");
                s.append(valtype_name_str(*exp));
                s.append(" on type stack, found ");
                match found {
                    None => s.append("nothing"),
                    Some(f) => s.append(valtype_name_str(*f)),
                }
                proof {
                    assert(s@ =~= verror_message(self@));
                }
                s
            },
            VError::StackNotEmpty => String::from_str("value stack isn't empty on function exit"),
            VError::DuplicateExport(name) => {
                let mut s = String::from_str("found duplicate export `");
                s.append(name.as_str());
                s.append("`");
                proof {
                    assert(s@ =~= verror_message(self@));
                }
                s
            },
            VError::ImplementNotImport => String::from_str(
                "implement directive must be connected to imported function in the core module",
            ),
            VError::SignatureMismatch(c, a) => {
                let mut s = String::from_str("core function ");
                push_dec(&mut s, *c as u64);
                s.append(" has a different type signature than adapter function ");
                push_dec(&mut s, *a as u64);
                proof {
                    assert(s@ =~= verror_message(self@));
                }
                s
            },
            VError::NotAnAdapterType(t) => {
                let mut s = String::from_str("currently ");
                s.append(host_valtype_name_str(*t));
                s.append(" is not a valid wasm interface type");
                proof {
                    assert(s@ =~= verror_message(self@));
                }
                s
            },
        }
    }
}

} // verus!
