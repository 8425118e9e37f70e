//! The binary reader: a cursor over the payload of the interface-types
//! custom section, the decode specification it is proved against, and
//! iterators over subsections and their items.
//!
//! Every decode step is specified by a `sd_*` spec function over the state
//! `St`: the remaining bytes plus the absolute offset of their first byte
//! (used only for error positions).

use vstd::prelude::*;
use vstd::utf8::{valid_utf8, decode_utf8};
use crate::error::{Error, ErrorKind, ErrView, KindView};
use crate::leb::{uleb_ok, uleb_raw, uleb_parse, lemma_uleb_raw_bound};
use crate::valtype::{ValType, valtype_of_byte};
use crate::schema::version_chars;
use crate::strings::bytes_to_str;

verus! {

/// The state of a decode in progress: the bytes not yet consumed, and the
/// absolute file offset of the first of them.
pub struct St {
    pub s: Seq<u8>,
    pub base: int,
}

/// A decode state the executable cursor can hold: its end offset fits the
/// machine.
pub open spec fn st_wf(st: St) -> bool {
    0 <= st.base && st.base + st.s.len() <= usize::MAX as int
}

/// Reads one byte.
pub open spec fn sd_u8(st: St) -> Result<(u8, St), ErrView> {
    if st.s.len() == 0 {
        Err(ErrView { at: st.base, kind: KindView::UnexpectedEof })
    } else {
        Ok((st.s[0], St { s: st.s.skip(1), base: st.base + 1 }))
    }
}

/// Reads a ULEB128-encoded integer of at most 32 bits.
pub open spec fn sd_u32(st: St) -> Result<(u32, St), ErrView> {
    match uleb_ok(st.s) {
        None => Err(ErrView { at: st.base, kind: KindView::UlebInvalid }),
        Some((v, l)) => if v <= 0xffff_ffff {
            Ok((v as u32, St { s: st.s.skip(l), base: st.base + l }))
        } else {
            Err(ErrView { at: st.base, kind: KindView::UlebTooBig(v as u64) })
        },
    }
}

/// Reads a length-prefixed run of bytes.
pub open spec fn sd_bytes(st: St) -> Result<(Seq<u8>, St), ErrView> {
    match sd_u32(st) {
        Err(e) => Err(e),
        Ok((len, st1)) => if len <= st1.s.len() {
            Ok(
                (
                    st1.s.take(len as int),
                    St { s: st1.s.skip(len as int), base: st1.base + len },
                ),
            )
        } else {
            Err(ErrView { at: st1.base, kind: KindView::Expected(len as int) })
        },
    }
}

/// Reads a length-prefixed UTF-8 string; on ill-formed UTF-8 the error
/// points back at the start of the length prefix.
pub open spec fn sd_str(st: St) -> Result<(Seq<char>, St), ErrView> {
    match sd_bytes(st) {
        Err(e) => Err(e),
        Ok((b, st1)) => if valid_utf8(b) {
            Ok((decode_utf8(b), st1))
        } else {
            Err(ErrView { at: st.base, kind: KindView::InvalidUtf8 })
        },
    }
}

/// Reads one value-type byte.
pub open spec fn sd_valtype(st: St) -> Result<(ValType, St), ErrView> {
    match sd_u8(st) {
        Err(e) => Err(e),
        Ok((b, st1)) => match valtype_of_byte(b) {
            Some(v) => Ok((v, st1)),
            None => Err(ErrView { at: st1.base, kind: KindView::InvalidValType(b) }),
        },
    }
}

/// Reads `cnt` value-type bytes.
pub open spec fn sd_valtypes(st: St, cnt: nat) -> Result<(Seq<ValType>, St), ErrView>
    decreases cnt,
{
    if cnt == 0 {
        Ok((Seq::empty(), st))
    } else {
        match sd_valtype(st) {
            Err(e) => Err(e),
            Ok((v, st1)) => match sd_valtypes(st1, (cnt - 1) as nat) {
                Err(e) => Err(e),
                Ok((rest, st2)) => Ok((seq![v] + rest, st2)),
            },
        }
    }
}

/// `sd_u32` consumes between one and ten bytes.
pub proof fn lemma_sd_u32_consumes(st: St)
    ensures
        sd_u32(st) matches Ok(t) ==> {
            let k = st.s.len() - t.1.s.len();
            1 <= k <= st.s.len() && t.1.base == st.base + k && t.1.s == st.s.skip(k as int)
        },
{
    lemma_uleb_raw_bound(st.s);
}

/// A type signature referenced by imports and functions: parameter and
/// result value types.
#[derive(Debug)]
pub struct Type {
    /// Each of the parameter value types of this type signature.
    pub params: Vec<ValType>,
    /// Each of the returned value types of this type signature.
    pub results: Vec<ValType>,
}

/// Specification-level mirror of `Type`.
pub struct TypeView {
    pub params: Seq<ValType>,
    pub results: Seq<ValType>,
}

impl View for Type {
    type V = TypeView;

    open spec fn view(&self) -> TypeView {
        TypeView { params: self.params@, results: self.results@ }
    }
}

/// An element of the import subsection: where the import comes from and its
/// adapter-type index.
#[derive(Debug)]
pub struct Import {
    /// The wasm module name this import comes from.
    pub module: String,
    /// The field of that module this import comes from.
    pub name: String,
    /// The adapter-type index of the imported function.
    pub ty: u32,
}

/// Specification-level mirror of `Import`.
pub struct ImportView {
    pub module: Seq<char>,
    pub name: Seq<char>,
    pub ty: u32,
}

impl View for Import {
    type V = ImportView;

    open spec fn view(&self) -> ImportView {
        ImportView { module: self.module@, name: self.name@, ty: self.ty }
    }
}

/// An element of the export subsection: an adapter-function index under an
/// export name.
#[derive(Debug)]
pub struct Export {
    /// The adapter function this export references.
    pub func: u32,
    /// The name this export is known by.
    pub name: String,
}

/// Specification-level mirror of `Export`.
pub struct ExportView {
    pub func: u32,
    pub name: Seq<char>,
}

impl View for Export {
    type V = ExportView;

    open spec fn view(&self) -> ExportView {
        ExportView { func: self.func, name: self.name@ }
    }
}

/// An element of the implement subsection: a core import implemented by an
/// adapter function.
#[derive(Clone, Copy, Debug, PartialEq, Eq, Structural)]
pub struct Implement {
    /// The imported core function being implemented.
    pub core_func: u32,
    /// The adapter function implementing it.
    pub adapter_func: u32,
}

/// Payload of the `string-to-memory` instruction.
#[derive(Clone, Copy, Debug, PartialEq, Eq, Structural, Hash)]
pub struct StringToMemory {
    /// The core function used to allocate room for the string; must take one
    /// `i32` and return one `i32`.
    pub malloc: u32,
    /// The host memory the string is placed into.
    pub mem: u32,
}

/// Operators of an adapter-function body.
#[derive(Clone, Copy, Debug, PartialEq, Eq, Structural, Hash)]
pub enum Instruction {
    ArgGet(u32),
    CallCore(u32),
    End,
    MemoryToString(u32),
    StringToMemory(StringToMemory),
    CallAdapter(u32),
    DeferCallCore(u32),
    I32ToS8,
    I32ToS8X,
    I32ToU8,
    I32ToS16,
    I32ToS16X,
    I32ToU16,
    I32ToS32,
    I32ToU32,
    I32ToS64,
    I32ToU64,
    I64ToS8,
    I64ToS8X,
    I64ToU8,
    I64ToS16,
    I64ToS16X,
    I64ToU16,
    I64ToS32,
    I64ToS32X,
    I64ToU32,
    I64ToS64,
    I64ToU64,
    S8ToI32,
    U8ToI32,
    S16ToI32,
    U16ToI32,
    S32ToI32,
    U32ToI32,
    S64ToI32,
    S64ToI32X,
    U64ToI32,
    U64ToI32X,
    S8ToI64,
    U8ToI64,
    S16ToI64,
    U16ToI64,
    S32ToI64,
    U32ToI64,
    S64ToI64,
    U64ToI64,
}

/// An element of the function subsection: an adapter-type index and the
/// decoded instruction list of the body, without the terminating `end`.
#[derive(Debug)]
pub struct Func {
    /// The adapter-type index of this function.
    pub ty: u32,
    /// The instructions of the body, in order.
    pub instrs: Vec<Instruction>,
}

/// Specification-level mirror of `Func`.
pub struct FuncView {
    pub ty: u32,
    pub instrs: Seq<Instruction>,
}

impl View for Func {
    type V = FuncView;

    open spec fn view(&self) -> FuncView {
        FuncView { ty: self.ty, instrs: self.instrs@ }
    }
}

impl Func {
    /// The instructions of this function's body.
    pub fn instrs(&self) -> (r: &Vec<Instruction>)
        ensures
            r@ == self@.instrs,
    {
        &self.instrs
    }
}

/// Reads one type signature: parameter count and types, then result count
/// and types.
pub open spec fn sd_type(st: St) -> Result<(TypeView, St), ErrView> {
    match sd_u32(st) {
        Err(e) => Err(e),
        Ok((np, st1)) => match sd_valtypes(st1, np as nat) {
            Err(e) => Err(e),
            Ok((params, st2)) => match sd_u32(st2) {
                Err(e) => Err(e),
                Ok((nr, st3)) => match sd_valtypes(st3, nr as nat) {
                    Err(e) => Err(e),
                    Ok((results, st4)) => Ok((TypeView { params, results }, st4)),
                },
            },
        },
    }
}

/// Reads one import: module name, field name, type index.
pub open spec fn sd_import(st: St) -> Result<(ImportView, St), ErrView> {
    match sd_str(st) {
        Err(e) => Err(e),
        Ok((module, st1)) => match sd_str(st1) {
            Err(e) => Err(e),
            Ok((name, st2)) => match sd_u32(st2) {
                Err(e) => Err(e),
                Ok((ty, st3)) => Ok((ImportView { module, name, ty }, st3)),
            },
        },
    }
}

/// Reads one export: function index, then name.
pub open spec fn sd_export(st: St) -> Result<(ExportView, St), ErrView> {
    match sd_u32(st) {
        Err(e) => Err(e),
        Ok((func, st1)) => match sd_str(st1) {
            Err(e) => Err(e),
            Ok((name, st2)) => Ok((ExportView { func, name }, st2)),
        },
    }
}

/// Reads one implement entry: core function index, then adapter function
/// index.
pub open spec fn sd_implement(st: St) -> Result<(Implement, St), ErrView> {
    match sd_u32(st) {
        Err(e) => Err(e),
        Ok((core_func, st1)) => match sd_u32(st1) {
            Err(e) => Err(e),
            Ok((adapter_func, st2)) => Ok((Implement { core_func, adapter_func }, st2)),
        },
    }
}

/// The conversion instruction a bare opcode in `0x07..=0x2d` stands for.
pub open spec fn conv_instr(op: u8) -> Instruction {
    if op == 0x07 {
        Instruction::I32ToS8
    } else if op == 0x08 {
        Instruction::I32ToS8X
    } else if op == 0x09 {
        Instruction::I32ToU8
    } else if op == 0x0a {
        Instruction::I32ToS16
    } else if op == 0x0b {
        Instruction::I32ToS16X
    } else if op == 0x0c {
        Instruction::I32ToU16
    } else if op == 0x0d {
        Instruction::I32ToS32
    } else if op == 0x0e {
        Instruction::I32ToU32
    } else if op == 0x0f {
        Instruction::I32ToS64
    } else if op == 0x10 {
        Instruction::I32ToU64
    } else if op == 0x11 {
        Instruction::I64ToS8
    } else if op == 0x12 {
        Instruction::I64ToS8X
    } else if op == 0x13 {
        Instruction::I64ToU8
    } else if op == 0x14 {
        Instruction::I64ToS16
    } else if op == 0x15 {
        Instruction::I64ToS16X
    } else if op == 0x16 {
        Instruction::I64ToU16
    } else if op == 0x17 {
        Instruction::I64ToS32
    } else if op == 0x18 {
        Instruction::I64ToS32X
    } else if op == 0x19 {
        Instruction::I64ToU32
    } else if op == 0x1a {
        Instruction::I64ToS64
    } else if op == 0x1b {
        Instruction::I64ToU64
    } else if op == 0x1c {
        Instruction::S8ToI32
    } else if op == 0x1d {
        Instruction::U8ToI32
    } else if op == 0x1e {
        Instruction::S16ToI32
    } else if op == 0x1f {
        Instruction::U16ToI32
    } else if op == 0x20 {
        Instruction::S32ToI32
    } else if op == 0x21 {
        Instruction::U32ToI32
    } else if op == 0x22 {
        Instruction::S64ToI32
    } else if op == 0x23 {
        Instruction::S64ToI32X
    } else if op == 0x24 {
        Instruction::U64ToI32
    } else if op == 0x25 {
        Instruction::U64ToI32X
    } else if op == 0x26 {
        Instruction::S8ToI64
    } else if op == 0x27 {
        Instruction::U8ToI64
    } else if op == 0x28 {
        Instruction::S16ToI64
    } else if op == 0x29 {
        Instruction::U16ToI64
    } else if op == 0x2a {
        Instruction::S32ToI64
    } else if op == 0x2b {
        Instruction::U32ToI64
    } else if op == 0x2c {
        Instruction::S64ToI64
    } else {
        Instruction::U64ToI64
    }
}


/// Converts a bare conversion opcode to its instruction.
fn conv_from_opcode(op: u8) -> (r: Instruction)
    requires
        0x07 <= op <= 0x2d,
    ensures
        r == conv_instr(op),
{
    match op {
        0x7 => Instruction::I32ToS8,
        0x8 => Instruction::I32ToS8X,
        0x9 => Instruction::I32ToU8,
        0xa => Instruction::I32ToS16,
        0xb => Instruction::I32ToS16X,
        0xc => Instruction::I32ToU16,
        0xd => Instruction::I32ToS32,
        0xe => Instruction::I32ToU32,
        0xf => Instruction::I32ToS64,
        0x10 => Instruction::I32ToU64,
        0x11 => Instruction::I64ToS8,
        0x12 => Instruction::I64ToS8X,
        0x13 => Instruction::I64ToU8,
        0x14 => Instruction::I64ToS16,
        0x15 => Instruction::I64ToS16X,
        0x16 => Instruction::I64ToU16,
        0x17 => Instruction::I64ToS32,
        0x18 => Instruction::I64ToS32X,
        0x19 => Instruction::I64ToU32,
        0x1a => Instruction::I64ToS64,
        0x1b => Instruction::I64ToU64,
        0x1c => Instruction::S8ToI32,
        0x1d => Instruction::U8ToI32,
        0x1e => Instruction::S16ToI32,
        0x1f => Instruction::U16ToI32,
        0x20 => Instruction::S32ToI32,
        0x21 => Instruction::U32ToI32,
        0x22 => Instruction::S64ToI32,
        0x23 => Instruction::S64ToI32X,
        0x24 => Instruction::U64ToI32,
        0x25 => Instruction::U64ToI32X,
        0x26 => Instruction::S8ToI64,
        0x27 => Instruction::U8ToI64,
        0x28 => Instruction::S16ToI64,
        0x29 => Instruction::U16ToI64,
        0x2a => Instruction::S32ToI64,
        0x2b => Instruction::U32ToI64,
        0x2c => Instruction::S64ToI64,
        _ => Instruction::U64ToI64,
    }
}

/// Reads one instruction: an opcode byte and its immediate operands. An
/// unknown opcode is reported at the opcode byte itself.
pub open spec fn sd_instr(st: St) -> Result<(Instruction, St), ErrView> {
    match sd_u8(st) {
        Err(e) => Err(e),
        Ok((op, st1)) => {
            if op == 0x00 {
                match sd_u32(st1) {
                    Err(e) => Err(e),
                    Ok((n, st2)) => Ok((Instruction::ArgGet(n), st2)),
                }
            } else if op == 0x01 {
                match sd_u32(st1) {
                    Err(e) => Err(e),
                    Ok((n, st2)) => Ok((Instruction::CallCore(n), st2)),
                }
            } else if op == 0x02 {
                Ok((Instruction::End, st1))
            } else if op == 0x03 {
                match sd_u32(st1) {
                    Err(e) => Err(e),
                    Ok((n, st2)) => Ok((Instruction::MemoryToString(n), st2)),
                }
            } else if op == 0x04 {
                match sd_u32(st1) {
                    Err(e) => Err(e),
                    Ok((malloc, st2)) => match sd_u32(st2) {
                        Err(e) => Err(e),
                        Ok((mem, st3)) => Ok(
                            (Instruction::StringToMemory(StringToMemory { malloc, mem }), st3),
                        ),
                    },
                }
            } else if op == 0x05 {
                match sd_u32(st1) {
                    Err(e) => Err(e),
                    Ok((n, st2)) => Ok((Instruction::CallAdapter(n), st2)),
                }
            } else if op == 0x06 {
                match sd_u32(st1) {
                    Err(e) => Err(e),
                    Ok((n, st2)) => Ok((Instruction::DeferCallCore(n), st2)),
                }
            } else if 0x07 <= op && op <= 0x2d {
                Ok((conv_instr(op), st1))
            } else {
                Err(ErrView { at: st.base, kind: KindView::InvalidInstruction(op) })
            }
        },
    }
}

/// `sd_instr` consumes at least the opcode byte.
pub proof fn lemma_sd_instr_consumes(st: St)
    ensures
        sd_instr(st) matches Ok(t) ==> {
            let k = st.s.len() - t.1.s.len();
            1 <= k <= st.s.len() && t.1.base == st.base + k && t.1.s == st.s.skip(k as int)
        },
{
    match sd_u8(st) {
        Err(_) => {}
        Ok((op, st1)) => {
            assert(st1.s =~= st.s.skip(1));
            lemma_sd_u32_consumes(st1);
            match sd_u32(st1) {
                Err(_) => {}
                Ok((_, st2)) => {
                    let k1 = st1.s.len() - st2.s.len();
                    assert(st1.s.skip(k1 as int) =~= st.s.skip(1 + k1));
                    lemma_sd_u32_consumes(st2);
                    match sd_u32(st2) {
                        Err(_) => {}
                        Ok((_, st3)) => {
                            let k2 = st2.s.len() - st3.s.len();
                            assert(st2.s.skip(k2 as int) =~= st.s.skip(1 + k1 + k2));
                        }
                    }
                }
            }
        }
    }
}

/// Reads instructions up to and including the terminating `end`, requiring
/// the remaining input to be empty right after it. The returned list does
/// not include the terminator.
pub open spec fn sd_instrs(st: St) -> Result<Seq<Instruction>, ErrView>
    decreases st.s.len(),
    via sd_instrs_decreases
{
    match sd_instr(st) {
        Err(e) => Err(e),
        Ok((instr, st1)) => {
            if instr == Instruction::End {
                if st1.s.len() == 0 {
                    Ok(Seq::empty())
                } else {
                    Err(ErrView { at: st1.base, kind: KindView::TrailingBytes })
                }
            } else {
                match sd_instrs(st1) {
                    Err(e) => Err(e),
                    Ok(rest) => Ok(seq![instr] + rest),
                }
            }
        },
    }
}

#[via_fn]
proof fn sd_instrs_decreases(st: St) {
    lemma_sd_instr_consumes(st);
}

/// Reads one function item: a length-prefixed body holding the type index
/// and the instruction stream.
pub open spec fn sd_func(st: St) -> Result<(FuncView, St), ErrView> {
    match sd_bytes(st) {
        Err(e) => Err(e),
        Ok((body, st1)) => {
            let sub = St { s: body, base: st1.base - body.len() };
            match sd_u32(sub) {
                Err(e) => Err(e),
                Ok((ty, sub1)) => match sd_instrs(sub1) {
                    Err(e) => Err(e),
                    Ok(instrs) => Ok((FuncView { ty, instrs }, st1)),
                },
            }
        },
    }
}

/// `sd_bytes` consumes at least one byte.
pub proof fn lemma_sd_bytes_consumes(st: St)
    ensures
        sd_bytes(st) matches Ok(t) ==> {
            let k = st.s.len() - t.1.s.len();
            1 <= k <= st.s.len() && t.1.base == st.base + k && t.1.s == st.s.skip(k as int)
                && t.0.len() <= k - 1
        },
{
    lemma_sd_u32_consumes(st);
    match sd_u32(st) {
        Err(_) => {}
        Ok((len, st1)) => {
            if len <= st1.s.len() {
                let k1 = st.s.len() - st1.s.len();
                assert(st1.s.skip(len as int) =~= st.s.skip(k1 + len));
            }
        }
    }
}

/// One decoded subsection, items in file order.
pub enum SectionView {
    Types(Seq<TypeView>),
    Imports(Seq<ImportView>),
    Funcs(Seq<FuncView>),
    Exports(Seq<ExportView>),
    Implements(Seq<Implement>),
}

/// Reads the `cnt` items of a type subsection; the subsection cursor must be
/// exhausted exactly when the count runs out.
pub open spec fn sd_types(st: St, cnt: nat) -> Result<Seq<TypeView>, ErrView>
    decreases cnt,
{
    if cnt == 0 {
        if st.s.len() != 0 {
            Err(ErrView { at: st.base, kind: KindView::TrailingBytes })
        } else {
            Ok(Seq::empty())
        }
    } else {
        match sd_type(st) {
            Err(e) => Err(e),
            Ok((t, st1)) => match sd_types(st1, (cnt - 1) as nat) {
                Err(e) => Err(e),
                Ok(rest) => Ok(seq![t] + rest),
            },
        }
    }
}

/// As `sd_types`, for the import subsection.
pub open spec fn sd_imports(st: St, cnt: nat) -> Result<Seq<ImportView>, ErrView>
    decreases cnt,
{
    if cnt == 0 {
        if st.s.len() != 0 {
            Err(ErrView { at: st.base, kind: KindView::TrailingBytes })
        } else {
            Ok(Seq::empty())
        }
    } else {
        match sd_import(st) {
            Err(e) => Err(e),
            Ok((t, st1)) => match sd_imports(st1, (cnt - 1) as nat) {
                Err(e) => Err(e),
                Ok(rest) => Ok(seq![t] + rest),
            },
        }
    }
}

/// As `sd_types`, for the function subsection.
pub open spec fn sd_funcs(st: St, cnt: nat) -> Result<Seq<FuncView>, ErrView>
    decreases cnt,
{
    if cnt == 0 {
        if st.s.len() != 0 {
            Err(ErrView { at: st.base, kind: KindView::TrailingBytes })
        } else {
            Ok(Seq::empty())
        }
    } else {
        match sd_func(st) {
            Err(e) => Err(e),
            Ok((t, st1)) => match sd_funcs(st1, (cnt - 1) as nat) {
                Err(e) => Err(e),
                Ok(rest) => Ok(seq![t] + rest),
            },
        }
    }
}

/// As `sd_types`, for the export subsection.
pub open spec fn sd_exports(st: St, cnt: nat) -> Result<Seq<ExportView>, ErrView>
    decreases cnt,
{
    if cnt == 0 {
        if st.s.len() != 0 {
            Err(ErrView { at: st.base, kind: KindView::TrailingBytes })
        } else {
            Ok(Seq::empty())
        }
    } else {
        match sd_export(st) {
            Err(e) => Err(e),
            Ok((t, st1)) => match sd_exports(st1, (cnt - 1) as nat) {
                Err(e) => Err(e),
                Ok(rest) => Ok(seq![t] + rest),
            },
        }
    }
}

/// As `sd_types`, for the implement subsection.
pub open spec fn sd_implements(st: St, cnt: nat) -> Result<Seq<Implement>, ErrView>
    decreases cnt,
{
    if cnt == 0 {
        if st.s.len() != 0 {
            Err(ErrView { at: st.base, kind: KindView::TrailingBytes })
        } else {
            Ok(Seq::empty())
        }
    } else {
        match sd_implement(st) {
            Err(e) => Err(e),
            Ok((t, st1)) => match sd_implements(st1, (cnt - 1) as nat) {
                Err(e) => Err(e),
                Ok(rest) => Ok(seq![t] + rest),
            },
        }
    }
}

/// Reads a subsection header: the id byte, the length-prefixed body, and the
/// body's leading item count. Yields the id, the count, the body cursor
/// positioned after the count, and the outer cursor positioned after the
/// body. An unknown id is reported at the id byte, after the body has been
/// read.
pub open spec fn sd_section_header(st: St) -> Result<(u8, u32, St, St), ErrView> {
    match sd_u8(st) {
        Err(e) => Err(e),
        Ok((id, st1)) => match sd_bytes(st1) {
            Err(e) => Err(e),
            Ok((body, st2)) => {
                let sub = St { s: body, base: st2.base - body.len() };
                if id <= 4 {
                    match sd_u32(sub) {
                        Err(e) => Err(e),
                        Ok((cnt, sub1)) => Ok((id, cnt, sub1, st2)),
                    }
                } else {
                    Err(ErrView { at: st.base, kind: KindView::InvalidSection(id) })
                }
            },
        },
    }
}

/// Reads one whole subsection: header, then all items, strictly.
pub open spec fn sd_section(st: St) -> Result<(SectionView, St), ErrView> {
    match sd_section_header(st) {
        Err(e) => Err(e),
        Ok((id, cnt, sub, rest)) => {
            if id == 0 {
                match sd_types(sub, cnt as nat) {
                    Err(e) => Err(e),
                    Ok(items) => Ok((SectionView::Types(items), rest)),
                }
            } else if id == 1 {
                match sd_imports(sub, cnt as nat) {
                    Err(e) => Err(e),
                    Ok(items) => Ok((SectionView::Imports(items), rest)),
                }
            } else if id == 2 {
                match sd_funcs(sub, cnt as nat) {
                    Err(e) => Err(e),
                    Ok(items) => Ok((SectionView::Funcs(items), rest)),
                }
            } else if id == 3 {
                match sd_exports(sub, cnt as nat) {
                    Err(e) => Err(e),
                    Ok(items) => Ok((SectionView::Exports(items), rest)),
                }
            } else {
                match sd_implements(sub, cnt as nat) {
                    Err(e) => Err(e),
                    Ok(items) => Ok((SectionView::Implements(items), rest)),
                }
            }
        },
    }
}

/// The header of a subsection consumes at least one byte of the outer
/// cursor.
pub proof fn lemma_sd_section_header_consumes(st: St)
    ensures
        sd_section_header(st) matches Ok(t) ==> {
            let k = st.s.len() - t.3.s.len();
            1 <= k <= st.s.len() && t.3.base == st.base + k && t.3.s == st.s.skip(k as int)
        },
{
    match sd_u8(st) {
        Err(_) => {}
        Ok((id, st1)) => {
            assert(st1.s =~= st.s.skip(1));
            lemma_sd_bytes_consumes(st1);
            match sd_bytes(st1) {
                Err(_) => {}
                Ok((_, st2)) => {
                    let k1 = st1.s.len() - st2.s.len();
                    assert(st1.s.skip(k1 as int) =~= st.s.skip(1 + k1));
                }
            }
        }
    }
}

/// Reads the header of the payload: the version string, which must equal
/// the schema version; a mismatch is reported at offset zero.
pub open spec fn sd_new(offset: int, s: Seq<u8>) -> Result<St, ErrView> {
    match sd_str(St { s, base: offset }) {
        Err(e) => Err(e),
        Ok((ver, st1)) => if ver == version_chars() {
            Ok(st1)
        } else {
            Err(ErrView { at: 0, kind: KindView::InvalidVersion(ver) })
        },
    }
}

/// Reads subsections until the payload is exhausted.
pub open spec fn sd_sections(st: St) -> Result<Seq<SectionView>, ErrView>
    decreases st.s.len(),
    via sd_sections_decreases
{
    if st.s.len() == 0 {
        Ok(Seq::empty())
    } else {
        match sd_section(st) {
            Err(e) => Err(e),
            Ok((sec, st1)) => match sd_sections(st1) {
                Err(e) => Err(e),
                Ok(rest) => Ok(seq![sec] + rest),
            },
        }
    }
}

#[via_fn]
proof fn sd_sections_decreases(st: St) {
    lemma_sd_section_header_consumes(st);
}

/// Decodes a whole payload: the version header, then every subsection.
pub open spec fn sd_payload(offset: int, s: Seq<u8>) -> Result<Seq<SectionView>, ErrView> {
    match sd_new(offset, s) {
        Err(e) => Err(e),
        Ok(st1) => sd_sections(st1),
    }
}

/// Top-level cursor over the payload of the interface-types custom section.
#[derive(Clone)]
pub struct Parser<'a> {
    bytes: &'a [u8],
    pos: usize,
}

impl<'a> View for Parser<'a> {
    type V = St;

    closed spec fn view(&self) -> St {
        St { s: self.bytes@, base: self.pos as int }
    }
}

impl<'a> Parser<'a> {
    /// Creates a parser over the payload of a `wasm-interface-types` custom
    /// section found at `offset` within its file, checking the leading
    /// version string.
    pub fn new(offset: usize, bytes: &'a [u8]) -> (r: Result<Parser<'a>, Error>)
        requires
            offset + bytes@.len() <= usize::MAX,
        ensures
            match sd_new(offset as int, bytes@) {
                Ok(st) => r matches Ok(p) && p@ == st && st_wf(st),
                Err(e) => r matches Err(er) && er@ == e,
            },
    {
        let mut parser = Parser { bytes, pos: offset };
        let version = match parser.parse_str() {
            Ok(v) => v,
            Err(e) => {
                return Err(e);
            },
        };
        let expected = crate::schema::schema_version();
        proof {
            vstd::utf8::encode_utf8_decode_utf8(version@);
            vstd::utf8::encode_utf8_decode_utf8(version_chars());
        }
        if crate::strings::bytes_eq(version.as_bytes(), expected.as_bytes()) {
            Ok(parser)
        } else {
            parser.pos = 0;
            Err(parser.error(ErrorKind::InvalidVersion(version.to_owned())))
        }
    }

    /// Whether all bytes of this cursor have been consumed.
    pub fn is_empty(&self) -> (r: bool)
        ensures
            r == (self@.s.len() == 0),
    {
        self.bytes.is_empty()
    }

    /// An error of the given kind at the cursor's current position.
    fn error(&self, kind: ErrorKind) -> (r: Error)
        ensures
            r@ == (ErrView { at: self@.base, kind: kind@ }),
    {
        Error { at: self.pos, kind }
    }

    /// Reads one byte.
    fn parse_u8(&mut self) -> (r: Result<u8, Error>)
        requires
            st_wf(old(self)@),
        ensures
            match sd_u8(old(self)@) {
                Ok(t) => r matches Ok(b) && b == t.0 && final(self)@ == t.1 && st_wf(t.1),
                Err(e) => r matches Err(er) && er@ == e,
            },
    {
        if self.bytes.is_empty() {
            return Err(self.error(ErrorKind::UnexpectedEof));
        }
        let b0: &'a [u8] = self.bytes;
        let byte = b0[0];
        self.bytes = &b0[1..b0.len()];
        self.pos = self.pos + 1;
        proof {
            assert(self.bytes@ =~= old(self)@.s.skip(1));
        }
        Ok(byte)
    }

    /// Reads a ULEB128 integer of at most 32 bits.
    fn parse_u32(&mut self) -> (r: Result<u32, Error>)
        requires
            st_wf(old(self)@),
        ensures
            match sd_u32(old(self)@) {
                Ok(t) => r matches Ok(n) && n == t.0 && final(self)@ == t.1 && st_wf(t.1),
                Err(e) => r matches Err(er) && er@ == e,
            },
    {
        match uleb_parse(self.bytes) {
            None => Err(self.error(ErrorKind::UlebInvalid)),
            Some((v, l)) => {
                if v <= 0xffff_ffff {
                    let b0: &'a [u8] = self.bytes;
                    proof {
                        lemma_uleb_raw_bound(b0@);
                    }
                    self.bytes = &b0[l..b0.len()];
                    self.pos = self.pos + l;
                    proof {
                        assert(self.bytes@ =~= old(self)@.s.skip(l as int));
                    }
                    Ok(v as u32)
                } else {
                    Err(self.error(ErrorKind::UlebTooBig(v)))
                }
            },
        }
    }

    /// Reads a length-prefixed run of bytes.
    fn parse_bytes(&mut self) -> (r: Result<&'a [u8], Error>)
        requires
            st_wf(old(self)@),
        ensures
            match sd_bytes(old(self)@) {
                Ok(t) => r matches Ok(b) && b@ == t.0 && final(self)@ == t.1 && st_wf(t.1),
                Err(e) => r matches Err(er) && er@ == e,
            },
    {
        let len_u32 = match self.parse_u32() {
            Ok(n) => n,
            Err(e) => {
                return Err(e);
            },
        };
        let len = len_u32 as usize;
        if len <= self.bytes.len() {
            let b0: &'a [u8] = self.bytes;
            let taken = &b0[0..len];
            self.bytes = &b0[len..b0.len()];
            self.pos = self.pos + len;
            proof {
                let st1 = sd_u32(old(self)@)->Ok_0.1;
                assert(taken@ =~= st1.s.take(len as int));
                assert(self.bytes@ =~= st1.s.skip(len as int));
            }
            Ok(taken)
        } else {
            Err(self.error(ErrorKind::Expected(len)))
        }
    }

    /// Reads a length-prefixed UTF-8 string, rewinding the error position to
    /// the start of the string on ill-formed UTF-8.
    fn parse_str(&mut self) -> (r: Result<&'a str, Error>)
        requires
            st_wf(old(self)@),
        ensures
            match sd_str(old(self)@) {
                Ok(t) => r matches Ok(s) && s@ == t.0 && final(self)@ == t.1 && st_wf(t.1),
                Err(e) => r matches Err(er) && er@ == e,
            },
    {
        let start = self.pos;
        let bytes = match self.parse_bytes() {
            Ok(b) => b,
            Err(e) => {
                return Err(e);
            },
        };
        match bytes_to_str(bytes) {
            Some(s) => Ok(s),
            None => Err(Error { at: start, kind: ErrorKind::InvalidUtf8 }),
        }
    }

    /// Reads one value-type byte.
    fn parse_valtype(&mut self) -> (r: Result<ValType, Error>)
        requires
            st_wf(old(self)@),
        ensures
            match sd_valtype(old(self)@) {
                Ok(t) => r matches Ok(v) && v == t.0 && final(self)@ == t.1 && st_wf(t.1),
                Err(e) => r matches Err(er) && er@ == e,
            },
    {
        let b = match self.parse_u8() {
            Ok(b) => b,
            Err(e) => {
                return Err(e);
            },
        };
        match ValType::from_byte(b) {
            Some(v) => Ok(v),
            None => Err(self.error(ErrorKind::InvalidValType(b))),
        }
    }

    /// Reads `cnt` value-type bytes.
    fn parse_valtypes(&mut self, cnt: u32) -> (r: Result<Vec<ValType>, Error>)
        requires
            st_wf(old(self)@),
        ensures
            match sd_valtypes(old(self)@, cnt as nat) {
                Ok(t) => r matches Ok(v) && v@ == t.0 && final(self)@ == t.1 && st_wf(t.1),
                Err(e) => r matches Err(er) && er@ == e,
            },
    {
        let ghost st0 = self@;
        let mut acc: Vec<ValType> = Vec::new();
        let mut i: u32 = 0;
        proof {
            match sd_valtypes(st0, cnt as nat) {
                Err(_) => {}
                Ok((rest, stf)) => {
                    assert(acc@ + rest =~= rest);
                }
            }
        }
        while i < cnt
            invariant
                0 <= i <= cnt,
                st0 == old(self)@,
                st_wf(self@),
                sd_valtypes(st0, cnt as nat) == match sd_valtypes(self@, (cnt - i) as nat) {
                    Err(e) => Err::<(Seq<ValType>, St), ErrView>(e),
                    Ok((rest, stf)) => Ok((acc@ + rest, stf)),
                },
            decreases cnt - i,
        {
            let ghost st_cur = self@;
            let ghost k = (cnt - i) as nat;
            let ghost acc0 = acc@;
            match self.parse_valtype() {
                Ok(v) => {
                    acc.push(v);
                    i = i + 1;
                    proof {
                        let (tv, st1) = sd_valtype(st_cur)->Ok_0;
                        assert(acc@ =~= acc0 + seq![tv]);
                        match sd_valtypes(st1, (k - 1) as nat) {
                            Err(_) => {}
                            Ok((rest, stf)) => {
                                assert(acc0 + (seq![tv] + rest) =~= acc@ + rest);
                            }
                        }
                    }
                },
                Err(e) => {
                    proof {
                        assert(k != 0);
                        let e0 = sd_valtype(st_cur)->Err_0;
                        assert(sd_valtype(st_cur) == Err::<(ValType, St), ErrView>(e0));
                        assert(sd_valtypes(st_cur, k) == Err::<(Seq<ValType>, St), ErrView>(e0));
                        assert(sd_valtypes(st0, cnt as nat) == Err::<
                            (Seq<ValType>, St),
                            ErrView,
                        >(e0));
                        assert(e@ == e0);
                    }
                    return Err(e);
                },
            }
        }
        proof {
            match sd_valtypes(self@, 0) {
                Err(_) => {}
                Ok((rest, stf)) => {
                    assert(acc@ + rest =~= acc@);
                }
            }
        }
        Ok(acc)
    }

    /// Reads one type signature.
    fn parse_type(&mut self) -> (r: Result<Type, Error>)
        requires
            st_wf(old(self)@),
        ensures
            match sd_type(old(self)@) {
                Ok(t) => r matches Ok(v) && v@ == t.0 && final(self)@ == t.1 && st_wf(t.1),
                Err(e) => r matches Err(er) && er@ == e,
            },
    {
        let np = match self.parse_u32() {
            Ok(n) => n,
            Err(e) => {
                return Err(e);
            },
        };
        let params = match self.parse_valtypes(np) {
            Ok(v) => v,
            Err(e) => {
                return Err(e);
            },
        };
        let nr = match self.parse_u32() {
            Ok(n) => n,
            Err(e) => {
                return Err(e);
            },
        };
        let results = match self.parse_valtypes(nr) {
            Ok(v) => v,
            Err(e) => {
                return Err(e);
            },
        };
        Ok(Type { params, results })
    }

    /// Reads one import entry.
    fn parse_import(&mut self) -> (r: Result<Import, Error>)
        requires
            st_wf(old(self)@),
        ensures
            match sd_import(old(self)@) {
                Ok(t) => r matches Ok(v) && v@ == t.0 && final(self)@ == t.1 && st_wf(t.1),
                Err(e) => r matches Err(er) && er@ == e,
            },
    {
        let module = match self.parse_str() {
            Ok(s) => s.to_owned(),
            Err(e) => {
                return Err(e);
            },
        };
        let name = match self.parse_str() {
            Ok(s) => s.to_owned(),
            Err(e) => {
                return Err(e);
            },
        };
        let ty = match self.parse_u32() {
            Ok(n) => n,
            Err(e) => {
                return Err(e);
            },
        };
        Ok(Import { module, name, ty })
    }

    /// Reads one export entry.
    fn parse_export(&mut self) -> (r: Result<Export, Error>)
        requires
            st_wf(old(self)@),
        ensures
            match sd_export(old(self)@) {
                Ok(t) => r matches Ok(v) && v@ == t.0 && final(self)@ == t.1 && st_wf(t.1),
                Err(e) => r matches Err(er) && er@ == e,
            },
    {
        let func = match self.parse_u32() {
            Ok(n) => n,
            Err(e) => {
                return Err(e);
            },
        };
        let name = match self.parse_str() {
            Ok(s) => s.to_owned(),
            Err(e) => {
                return Err(e);
            },
        };
        Ok(Export { func, name })
    }

    /// Reads one implement entry.
    fn parse_implement(&mut self) -> (r: Result<Implement, Error>)
        requires
            st_wf(old(self)@),
        ensures
            match sd_implement(old(self)@) {
                Ok(t) => r matches Ok(v) && v == t.0 && final(self)@ == t.1 && st_wf(t.1),
                Err(e) => r matches Err(er) && er@ == e,
            },
    {
        let core_func = match self.parse_u32() {
            Ok(n) => n,
            Err(e) => {
                return Err(e);
            },
        };
        let adapter_func = match self.parse_u32() {
            Ok(n) => n,
            Err(e) => {
                return Err(e);
            },
        };
        Ok(Implement { core_func, adapter_func })
    }

    /// Reads one instruction.
    fn parse_instr(&mut self) -> (r: Result<Instruction, Error>)
        requires
            st_wf(old(self)@),
        ensures
            match sd_instr(old(self)@) {
                Ok(t) => r matches Ok(v) && v == t.0 && final(self)@ == t.1 && st_wf(t.1),
                Err(e) => r matches Err(er) && er@ == e,
            },
    {
        let start = self.pos;
        let op = match self.parse_u8() {
            Ok(b) => b,
            Err(e) => {
                return Err(e);
            },
        };
        if op == 0x00 {
            match self.parse_u32() {
                Ok(n) => Ok(Instruction::ArgGet(n)),
                Err(e) => Err(e),
            }
        } else if op == 0x01 {
            match self.parse_u32() {
                Ok(n) => Ok(Instruction::CallCore(n)),
                Err(e) => Err(e),
            }
        } else if op == 0x02 {
            Ok(Instruction::End)
        } else if op == 0x03 {
            match self.parse_u32() {
                Ok(n) => Ok(Instruction::MemoryToString(n)),
                Err(e) => Err(e),
            }
        } else if op == 0x04 {
            let malloc = match self.parse_u32() {
                Ok(n) => n,
                Err(e) => {
                    return Err(e);
                },
            };
            match self.parse_u32() {
                Ok(mem) => Ok(Instruction::StringToMemory(StringToMemory { malloc, mem })),
                Err(e) => Err(e),
            }
        } else if op == 0x05 {
            match self.parse_u32() {
                Ok(n) => Ok(Instruction::CallAdapter(n)),
                Err(e) => Err(e),
            }
        } else if op == 0x06 {
            match self.parse_u32() {
                Ok(n) => Ok(Instruction::DeferCallCore(n)),
                Err(e) => Err(e),
            }
        } else if 0x07 <= op && op <= 0x2d {
            Ok(conv_from_opcode(op))
        } else {
            Err(Error { at: start, kind: ErrorKind::InvalidInstruction(op) })
        }
    }

    /// Reads instructions up to the terminating `end`, requiring the cursor
    /// to be exhausted right after it.
    #[verifier::loop_isolation(false)]
    fn parse_instrs(&mut self) -> (r: Result<Vec<Instruction>, Error>)
        requires
            st_wf(old(self)@),
        ensures
            match sd_instrs(old(self)@) {
                Ok(t) => r matches Ok(v) && v@ == t,
                Err(e) => r matches Err(er) && er@ == e,
            },
    {
        let mut acc: Vec<Instruction> = Vec::new();
        proof {
            match sd_instrs(self@) {
                Err(_) => {}
                Ok(rest) => {
                    assert(acc@ + rest =~= rest);
                }
            }
        }
        loop
            invariant
                st_wf(self@),
                sd_instrs(old(self)@) == match sd_instrs(self@) {
                    Err(e) => Err::<Seq<Instruction>, ErrView>(e),
                    Ok(rest) => Ok(acc@ + rest),
                },
            decreases self@.s.len(),
        {
            let ghost st_cur = self@;
            let ghost acc0 = acc@;
            match self.parse_instr() {
                Err(e) => {
                    return Err(e);
                },
                Ok(Instruction::End) => {
                    if self.bytes.is_empty() {
                        proof {
                            match sd_instrs(st_cur) {
                                Err(_) => {}
                                Ok(rest) => {
                                    assert(acc@ + rest =~= acc@);
                                }
                            }
                        }
                        return Ok(acc);
                    } else {
                        return Err(self.error(ErrorKind::TrailingBytes));
                    }
                },
                Ok(instr) => {
                    acc.push(instr);
                    proof {
                        lemma_sd_instr_consumes(st_cur);
                        let (iv, st1) = sd_instr(st_cur)->Ok_0;
                        assert(acc@ =~= acc0 + seq![iv]);
                        match sd_instrs(st1) {
                            Err(_) => {}
                            Ok(rest) => {
                                assert(acc0 + (seq![iv] + rest) =~= acc@ + rest);
                            }
                        }
                    }
                },
            }
        }
    }

    /// Reads one function item: its length-prefixed body, the type index,
    /// and the instruction stream.
    fn parse_func(&mut self) -> (r: Result<Func, Error>)
        requires
            st_wf(old(self)@),
        ensures
            match sd_func(old(self)@) {
                Ok(t) => r matches Ok(v) && v@ == t.0 && final(self)@ == t.1 && st_wf(t.1),
                Err(e) => r matches Err(er) && er@ == e,
            },
    {
        proof {
            lemma_sd_bytes_consumes(old(self)@);
        }
        let body = match self.parse_bytes() {
            Ok(b) => b,
            Err(e) => {
                return Err(e);
            },
        };
        let mut sub = Parser { bytes: body, pos: self.pos - body.len() };
        let ty = match sub.parse_u32() {
            Ok(n) => n,
            Err(e) => {
                return Err(e);
            },
        };
        let instrs = match sub.parse_instrs() {
            Ok(v) => v,
            Err(e) => {
                return Err(e);
            },
        };
        Ok(Func { ty, instrs })
    }

    /// Reads the header of the next subsection, returning iterators over its
    /// items.
    pub fn section(&mut self) -> (r: Result<Section<'a>, Error>)
        requires
            st_wf(old(self)@),
        ensures
            match sd_section_header(old(self)@) {
                Ok(t) => r matches Ok(sec) && final(self)@ == t.3 && st_wf(t.3) && st_wf(t.2)
                    && section_matches(sec, t.0, t.1, t.2),
                Err(e) => r matches Err(er) && er@ == e,
            },
    {
        let id_pos = self.pos;
        let id = match self.parse_u8() {
            Ok(b) => b,
            Err(e) => {
                return Err(e);
            },
        };
        proof {
            lemma_sd_bytes_consumes(sd_u8(old(self)@)->Ok_0.1);
        }
        let body = match self.parse_bytes() {
            Ok(b) => b,
            Err(e) => {
                return Err(e);
            },
        };
        let mut sub = Parser { bytes: body, pos: self.pos - body.len() };
        if id == 0 {
            let cnt = match sub.parse_u32() {
                Ok(n) => n,
                Err(e) => {
                    return Err(e);
                },
            };
            Ok(Section::Type(Types { parser: sub, cnt }))
        } else if id == 1 {
            let cnt = match sub.parse_u32() {
                Ok(n) => n,
                Err(e) => {
                    return Err(e);
                },
            };
            Ok(Section::Import(Imports { parser: sub, cnt }))
        } else if id == 2 {
            let cnt = match sub.parse_u32() {
                Ok(n) => n,
                Err(e) => {
                    return Err(e);
                },
            };
            Ok(Section::Func(Funcs { parser: sub, cnt }))
        } else if id == 3 {
            let cnt = match sub.parse_u32() {
                Ok(n) => n,
                Err(e) => {
                    return Err(e);
                },
            };
            Ok(Section::Export(Exports { parser: sub, cnt }))
        } else if id == 4 {
            let cnt = match sub.parse_u32() {
                Ok(n) => n,
                Err(e) => {
                    return Err(e);
                },
            };
            Ok(Section::Implement(Implements { parser: sub, cnt }))
        } else {
            Err(Error { at: id_pos, kind: ErrorKind::InvalidSection(id) })
        }
    }
}

/// The subsections that can appear in an interface-types section, each as an
/// iterator over its items.
pub enum Section<'a> {
    Type(Types<'a>),
    Import(Imports<'a>),
    Export(Exports<'a>),
    Func(Funcs<'a>),
    Implement(Implements<'a>),
}

/// Whether a `Section` value is the iterator the header `(id, cnt, sub)`
/// describes.
pub open spec fn section_matches(sec: Section<'_>, id: u8, cnt: u32, sub: St) -> bool {
    match sec {
        Section::Type(t) => id == 0 && t@ == (sub, cnt as int),
        Section::Import(t) => id == 1 && t@ == (sub, cnt as int),
        Section::Func(t) => id == 2 && t@ == (sub, cnt as int),
        Section::Export(t) => id == 3 && t@ == (sub, cnt as int),
        Section::Implement(t) => id == 4 && t@ == (sub, cnt as int),
    }
}

/// An iterator over the items of a type subsection.
pub struct Types<'a> {
    parser: Parser<'a>,
    cnt: u32,
}

/// An iterator over the items of an import subsection.
pub struct Imports<'a> {
    parser: Parser<'a>,
    cnt: u32,
}

/// An iterator over the items of an export subsection.
pub struct Exports<'a> {
    parser: Parser<'a>,
    cnt: u32,
}

/// An iterator over the items of a function subsection.
pub struct Funcs<'a> {
    parser: Parser<'a>,
    cnt: u32,
}

/// An iterator over the items of an implement subsection.
pub struct Implements<'a> {
    parser: Parser<'a>,
    cnt: u32,
}

impl<'a> View for Types<'a> {
    type V = (St, int);

    closed spec fn view(&self) -> (St, int) {
        (self.parser@, self.cnt as int)
    }
}

impl<'a> View for Imports<'a> {
    type V = (St, int);

    closed spec fn view(&self) -> (St, int) {
        (self.parser@, self.cnt as int)
    }
}

impl<'a> View for Exports<'a> {
    type V = (St, int);

    closed spec fn view(&self) -> (St, int) {
        (self.parser@, self.cnt as int)
    }
}

impl<'a> View for Funcs<'a> {
    type V = (St, int);

    closed spec fn view(&self) -> (St, int) {
        (self.parser@, self.cnt as int)
    }
}

impl<'a> View for Implements<'a> {
    type V = (St, int);

    closed spec fn view(&self) -> (St, int) {
        (self.parser@, self.cnt as int)
    }
}


impl<'a> Types<'a> {
    /// Parses the next item, or reports trailing bytes once the count is
    /// exhausted but the subsection is not.
    pub fn next(&mut self) -> (r: Option<Result<Type, Error>>)
        requires
            st_wf(old(self)@.0),
        ensures
            ({
                let st0 = old(self)@.0;
                let cnt0 = old(self)@.1;
                if cnt0 == 0 {
                    if st0.s.len() == 0 {
                        r is None && final(self)@ == old(self)@
                    } else {
                        r matches Some(Err(er)) && er@ == (ErrView {
                            at: st0.base,
                            kind: KindView::TrailingBytes,
                        })
                    }
                } else {
                    match sd_type(st0) {
                        Ok(t) => r matches Some(Ok(item)) && item@ == t.0 && final(self)@ == (t.1, cnt0 - 1) && st_wf(t.1),
                        Err(e) => r matches Some(Err(er)) && er@ == e,
                    }
                }
            }),
    {
        if self.cnt == 0 {
            if !self.parser.is_empty() {
                Some(Err(self.parser.error(ErrorKind::TrailingBytes)))
            } else {
                None
            }
        } else {
            self.cnt = self.cnt - 1;
            Some(self.parser.parse_type())
        }
    }
}


impl<'a> Imports<'a> {
    /// Parses the next item, or reports trailing bytes once the count is
    /// exhausted but the subsection is not.
    pub fn next(&mut self) -> (r: Option<Result<Import, Error>>)
        requires
            st_wf(old(self)@.0),
        ensures
            ({
                let st0 = old(self)@.0;
                let cnt0 = old(self)@.1;
                if cnt0 == 0 {
                    if st0.s.len() == 0 {
                        r is None && final(self)@ == old(self)@
                    } else {
                        r matches Some(Err(er)) && er@ == (ErrView {
                            at: st0.base,
                            kind: KindView::TrailingBytes,
                        })
                    }
                } else {
                    match sd_import(st0) {
                        Ok(t) => r matches Some(Ok(item)) && item@ == t.0 && final(self)@ == (t.1, cnt0 - 1) && st_wf(t.1),
                        Err(e) => r matches Some(Err(er)) && er@ == e,
                    }
                }
            }),
    {
        if self.cnt == 0 {
            if !self.parser.is_empty() {
                Some(Err(self.parser.error(ErrorKind::TrailingBytes)))
            } else {
                None
            }
        } else {
            self.cnt = self.cnt - 1;
            Some(self.parser.parse_import())
        }
    }
}


impl<'a> Exports<'a> {
    /// Parses the next item, or reports trailing bytes once the count is
    /// exhausted but the subsection is not.
    pub fn next(&mut self) -> (r: Option<Result<Export, Error>>)
        requires
            st_wf(old(self)@.0),
        ensures
            ({
                let st0 = old(self)@.0;
                let cnt0 = old(self)@.1;
                if cnt0 == 0 {
                    if st0.s.len() == 0 {
                        r is None && final(self)@ == old(self)@
                    } else {
                        r matches Some(Err(er)) && er@ == (ErrView {
                            at: st0.base,
                            kind: KindView::TrailingBytes,
                        })
                    }
                } else {
                    match sd_export(st0) {
                        Ok(t) => r matches Some(Ok(item)) && item@ == t.0 && final(self)@ == (t.1, cnt0 - 1) && st_wf(t.1),
                        Err(e) => r matches Some(Err(er)) && er@ == e,
                    }
                }
            }),
    {
        if self.cnt == 0 {
            if !self.parser.is_empty() {
                Some(Err(self.parser.error(ErrorKind::TrailingBytes)))
            } else {
                None
            }
        } else {
            self.cnt = self.cnt - 1;
            Some(self.parser.parse_export())
        }
    }
}


impl<'a> Funcs<'a> {
    /// Parses the next item, or reports trailing bytes once the count is
    /// exhausted but the subsection is not.
    pub fn next(&mut self) -> (r: Option<Result<Func, Error>>)
        requires
            st_wf(old(self)@.0),
        ensures
            ({
                let st0 = old(self)@.0;
                let cnt0 = old(self)@.1;
                if cnt0 == 0 {
                    if st0.s.len() == 0 {
                        r is None && final(self)@ == old(self)@
                    } else {
                        r matches Some(Err(er)) && er@ == (ErrView {
                            at: st0.base,
                            kind: KindView::TrailingBytes,
                        })
                    }
                } else {
                    match sd_func(st0) {
                        Ok(t) => r matches Some(Ok(item)) && item@ == t.0 && final(self)@ == (t.1, cnt0 - 1) && st_wf(t.1),
                        Err(e) => r matches Some(Err(er)) && er@ == e,
                    }
                }
            }),
    {
        if self.cnt == 0 {
            if !self.parser.is_empty() {
                Some(Err(self.parser.error(ErrorKind::TrailingBytes)))
            } else {
                None
            }
        } else {
            self.cnt = self.cnt - 1;
            Some(self.parser.parse_func())
        }
    }
}


impl<'a> Implements<'a> {
    /// Parses the next item, or reports trailing bytes once the count is
    /// exhausted but the subsection is not.
    pub fn next(&mut self) -> (r: Option<Result<Implement, Error>>)
        requires
            st_wf(old(self)@.0),
        ensures
            ({
                let st0 = old(self)@.0;
                let cnt0 = old(self)@.1;
                if cnt0 == 0 {
                    if st0.s.len() == 0 {
                        r is None && final(self)@ == old(self)@
                    } else {
                        r matches Some(Err(er)) && er@ == (ErrView {
                            at: st0.base,
                            kind: KindView::TrailingBytes,
                        })
                    }
                } else {
                    match sd_implement(st0) {
                        Ok(t) => r matches Some(Ok(item)) && item == t.0 && final(self)@ == (t.1, cnt0 - 1) && st_wf(t.1),
                        Err(e) => r matches Some(Err(er)) && er@ == e,
                    }
                }
            }),
    {
        if self.cnt == 0 {
            if !self.parser.is_empty() {
                Some(Err(self.parser.error(ErrorKind::TrailingBytes)))
            } else {
                None
            }
        } else {
            self.cnt = self.cnt - 1;
            Some(self.parser.parse_implement())
        }
    }
}

} // verus!

