//! The pretty-printer: renders a decoded interface-types section to its
//! canonical s-expression text, one `@interface` directive per line, bodies
//! indented by four spaces.

use vstd::prelude::*;
use vstd::string::StringExecFns;
use crate::decode::{WitSection, seq_view};
use crate::reader::{TypeView, ImportView, ExportView, FuncView, Implement, Instruction, Type,
    Import, Export, Func, SectionView};
use crate::strings::{dec_digits, push_dec};
use crate::valtype::ValType;

verus! {

/// Host-side function names, indexed by core function index, used to print
/// core function operands symbolically when the module names them.
pub struct HostNames {
    /// For each core function index, its symbolic name, if it has one.
    pub funcs: Vec<Option<String>>,
}

/// The view of one optional name.
pub open spec fn opt_name_view(o: Option<String>) -> Option<Seq<char>> {
    match o {
        None => None,
        Some(s) => Some(s@),
    }
}

impl View for HostNames {
    type V = Seq<Option<Seq<char>>>;

    open spec fn view(&self) -> Seq<Option<Seq<char>>> {
        self.funcs@.map_values(|o: Option<String>| opt_name_view(o))
    }
}

/// How a core function operand prints: by `$name` when the host module
/// names it, by index otherwise.
pub open spec fn sp_func_idx(names: Seq<Option<Seq<char>>>, i: u32) -> Seq<char> {
    if i < names.len() && names[i as int] is Some {
        seq!['$'] + names[i as int]->0
    } else {
        dec_digits(i as nat)
    }
}

/// The textual keyword of an interface value type.
pub open spec fn valtype_kw(v: ValType) -> Seq<char> {
    match v {
        ValType::S8 => "s8"@,
        ValType::S16 => "s16"@,
        ValType::S32 => "s32"@,
        ValType::S64 => "s64"@,
        ValType::U8 => "u8"@,
        ValType::U16 => "u16"@,
        ValType::U32 => "u32"@,
        ValType::U64 => "u64"@,
        ValType::F32 => "f32"@,
        ValType::F64 => "f64"@,
        ValType::String => "string"@,
        ValType::Externref => "externref"@,
        ValType::I32 => "i32"@,
        ValType::I64 => "i64"@,
    }
}

/// The mnemonic of a conversion instruction.
pub open spec fn conv_mnemonic(i: Instruction) -> Seq<char> {
    match i {
        Instruction::I32ToS8 => "i32-to-s8"@,
        Instruction::I32ToS8X => "i32-to-s8x"@,
        Instruction::I32ToU8 => "i32-to-u8"@,
        Instruction::I32ToS16 => "i32-to-s16"@,
        Instruction::I32ToS16X => "i32-to-s16x"@,
        Instruction::I32ToU16 => "i32-to-u16"@,
        Instruction::I32ToS32 => "i32-to-s32"@,
        Instruction::I32ToU32 => "i32-to-u32"@,
        Instruction::I32ToS64 => "i32-to-s64"@,
        Instruction::I32ToU64 => "i32-to-u64"@,
        Instruction::I64ToS8 => "i64-to-s8"@,
        Instruction::I64ToS8X => "i64-to-s8x"@,
        Instruction::I64ToU8 => "i64-to-u8"@,
        Instruction::I64ToS16 => "i64-to-s16"@,
        Instruction::I64ToS16X => "i64-to-s16x"@,
        Instruction::I64ToU16 => "i64-to-u16"@,
        Instruction::I64ToS32 => "i64-to-s32"@,
        Instruction::I64ToS32X => "i64-to-s32x"@,
        Instruction::I64ToU32 => "i64-to-u32"@,
        Instruction::I64ToS64 => "i64-to-s64"@,
        Instruction::I64ToU64 => "i64-to-u64"@,
        Instruction::S8ToI32 => "s8-to-i32"@,
        Instruction::U8ToI32 => "u8-to-i32"@,
        Instruction::S16ToI32 => "s16-to-i32"@,
        Instruction::U16ToI32 => "u16-to-i32"@,
        Instruction::S32ToI32 => "s32-to-i32"@,
        Instruction::U32ToI32 => "u32-to-i32"@,
        Instruction::S64ToI32 => "s64-to-i32"@,
        Instruction::S64ToI32X => "s64-to-i32x"@,
        Instruction::U64ToI32 => "u64-to-i32"@,
        Instruction::U64ToI32X => "u64-to-i32x"@,
        Instruction::S8ToI64 => "s8-to-i64"@,
        Instruction::U8ToI64 => "u8-to-i64"@,
        Instruction::S16ToI64 => "s16-to-i64"@,
        Instruction::U16ToI64 => "u16-to-i64"@,
        Instruction::S32ToI64 => "s32-to-i64"@,
        Instruction::U32ToI64 => "u32-to-i64"@,
        Instruction::S64ToI64 => "s64-to-i64"@,
        Instruction::U64ToI64 => "u64-to-i64"@,
        _ => ""@,
    }
}

/// How one instruction prints.
pub open spec fn sp_instr(names: Seq<Option<Seq<char>>>, i: Instruction) -> Seq<char> {
    match i {
        Instruction::ArgGet(n) => "arg.get "@ + dec_digits(n as nat),
        Instruction::CallCore(n) => "call-core "@ + sp_func_idx(names, n),
        Instruction::End => "end"@,
        Instruction::MemoryToString(mem) => "memory-to-string"@ + if mem != 0 {
            " "@ + dec_digits(mem as nat)
        } else {
            Seq::empty()
        },
        Instruction::StringToMemory(p) => "string-to-memory "@ + sp_func_idx(names, p.malloc)
            + if p.mem != 0 {
            " "@ + dec_digits(p.mem as nat)
        } else {
            Seq::empty()
        },
        Instruction::CallAdapter(n) => "call-adapter "@ + dec_digits(n as nat),
        Instruction::DeferCallCore(n) => "defer-call-core "@ + sp_func_idx(names, n),
        _ => conv_mnemonic(i),
    }
}

/// How the parameter declarations of a type print.
pub open spec fn sp_params(params: Seq<ValType>) -> Seq<char>
    decreases params.len(),
{
    if params.len() == 0 {
        Seq::empty()
    } else {
        " (param "@ + valtype_kw(params[0]) + ")"@ + sp_params(params.skip(1))
    }
}

/// How the result declarations of a type print.
pub open spec fn sp_results(results: Seq<ValType>) -> Seq<char>
    decreases results.len(),
{
    if results.len() == 0 {
        Seq::empty()
    } else {
        " (result "@ + valtype_kw(results[0]) + ")"@ + sp_results(results.skip(1))
    }
}

/// How the `i`-th type of a type subsection prints.
pub open spec fn sp_type(i: int, t: TypeView) -> Seq<char> {
    "\n  (@interface type (;"@ + dec_digits(i as nat) + ";) (func"@ + sp_params(t.params)
        + sp_results(t.results) + "))"@
}

/// How an import prints; `func` is the adapter-function index it occupies.
pub open spec fn sp_import(func: int, im: ImportView) -> Seq<char> {
    "\n  (@interface import \""@ + im.module + "\" \""@ + im.name + "\" (func (;"@ + dec_digits(
        func as nat,
    ) + ";) (type "@ + dec_digits(im.ty as nat) + ")))"@
}

/// How an export prints.
pub open spec fn sp_export(e: ExportView) -> Seq<char> {
    "\n  (@interface export \""@ + e.name + "\" (func "@ + dec_digits(e.func as nat) + "))"@
}

/// How the body instructions of a function print, one per line, indented.
pub open spec fn sp_instr_list(names: Seq<Option<Seq<char>>>, is: Seq<Instruction>) -> Seq<char>
    decreases is.len(),
{
    if is.len() == 0 {
        Seq::empty()
    } else {
        "\n    "@ + sp_instr(names, is[0]) + sp_instr_list(names, is.skip(1))
    }
}

/// How a function prints; `func` is the adapter-function index it occupies.
pub open spec fn sp_func(names: Seq<Option<Seq<char>>>, func: int, f: FuncView) -> Seq<char> {
    "\n  (@interface func (;"@ + dec_digits(func as nat) + ";) (type "@ + dec_digits(f.ty as nat)
        + ")"@ + sp_instr_list(names, f.instrs) + ")"@
}

/// How an implement directive prints.
pub open spec fn sp_implement(names: Seq<Option<Seq<char>>>, im: Implement) -> Seq<char> {
    "\n  (@interface implement (func "@ + sp_func_idx(names, im.core_func) + ") (func "@
        + dec_digits(im.adapter_func as nat) + "))"@
}

/// How the items of a type subsection print, numbered from zero.
pub open spec fn sp_type_list(i: int, items: Seq<TypeView>) -> Seq<char>
    decreases items.len(),
{
    if items.len() == 0 {
        Seq::empty()
    } else {
        sp_type(i, items[0]) + sp_type_list(i + 1, items.skip(1))
    }
}

/// How the items of an import subsection print; `func` numbers them in the
/// shared adapter-function namespace.
pub open spec fn sp_import_list(func: int, items: Seq<ImportView>) -> Seq<char>
    decreases items.len(),
{
    if items.len() == 0 {
        Seq::empty()
    } else {
        sp_import(func, items[0]) + sp_import_list(func + 1, items.skip(1))
    }
}

/// How the items of an export subsection print.
pub open spec fn sp_export_list(items: Seq<ExportView>) -> Seq<char>
    decreases items.len(),
{
    if items.len() == 0 {
        Seq::empty()
    } else {
        sp_export(items[0]) + sp_export_list(items.skip(1))
    }
}

/// How the items of a function subsection print, continuing the shared
/// adapter-function numbering.
pub open spec fn sp_func_list(
    names: Seq<Option<Seq<char>>>,
    func: int,
    items: Seq<FuncView>,
) -> Seq<char>
    decreases items.len(),
{
    if items.len() == 0 {
        Seq::empty()
    } else {
        sp_func(names, func, items[0]) + sp_func_list(names, func + 1, items.skip(1))
    }
}

/// How the items of an implement subsection print.
pub open spec fn sp_implement_list(names: Seq<Option<Seq<char>>>, items: Seq<Implement>) -> Seq<
    char,
>
    decreases items.len(),
{
    if items.len() == 0 {
        Seq::empty()
    } else {
        sp_implement(names, items[0]) + sp_implement_list(names, items.skip(1))
    }
}

/// How many adapter-function indices a subsection occupies.
pub open spec fn sp_func_count(sv: SectionView) -> int {
    match sv {
        SectionView::Imports(v) => v.len() as int,
        SectionView::Funcs(v) => v.len() as int,
        _ => 0,
    }
}

/// How one subsection prints, given the running adapter-function counter.
pub open spec fn sp_section(names: Seq<Option<Seq<char>>>, func: int, sv: SectionView) -> Seq<
    char,
> {
    match sv {
        SectionView::Types(v) => sp_type_list(0, v),
        SectionView::Imports(v) => sp_import_list(func, v),
        SectionView::Funcs(v) => sp_func_list(names, func, v),
        SectionView::Exports(v) => sp_export_list(v),
        SectionView::Implements(v) => sp_implement_list(names, v),
    }
}

/// How a whole decoded document prints.
pub open spec fn sp_doc_from(
    names: Seq<Option<Seq<char>>>,
    func: int,
    doc: Seq<SectionView>,
) -> Seq<char>
    decreases doc.len(),
{
    if doc.len() == 0 {
        Seq::empty()
    } else {
        sp_section(names, func, doc[0]) + sp_doc_from(
            names,
            func + sp_func_count(doc[0]),
            doc.skip(1),
        )
    }
}

/// The canonical text of a decoded interface-types section.
pub open spec fn sp_doc(names: Seq<Option<Seq<char>>>, doc: Seq<SectionView>) -> Seq<char> {
    sp_doc_from(names, 0, doc)
}

/// The total number of adapter-function indices a document occupies.
pub open spec fn total_funcs(doc: Seq<SectionView>) -> int
    decreases doc.len(),
{
    if doc.len() == 0 {
        0
    } else {
        sp_func_count(doc[0]) + total_funcs(doc.skip(1))
    }
}

/// The adapter-function count of a document is never negative.
proof fn lemma_total_funcs_nonneg(doc: Seq<SectionView>)
    ensures
        total_funcs(doc) >= 0,
    decreases doc.len(),
{
    if doc.len() > 0 {
        lemma_total_funcs_nonneg(doc.skip(1));
    }
}

/// The textual keyword of an interface value type.
fn valtype_kw_str(v: ValType) -> (r: &'static str)
    ensures
        r@ == valtype_kw(v),
{
    match v {
        ValType::S8 => "s8",
        ValType::S16 => "s16",
        ValType::S32 => "s32",
        ValType::S64 => "s64",
        ValType::U8 => "u8",
        ValType::U16 => "u16",
        ValType::U32 => "u32",
        ValType::U64 => "u64",
        ValType::F32 => "f32",
        ValType::F64 => "f64",
        ValType::String => "string",
        ValType::Externref => "externref",
        ValType::I32 => "i32",
        ValType::I64 => "i64",
    }
}

/// The mnemonic of a conversion instruction.
fn conv_mnemonic_str(i: &Instruction) -> (r: &'static str)
    ensures
        r@ == conv_mnemonic(*i),
{
    match i {
        Instruction::I32ToS8 => "i32-to-s8",
        Instruction::I32ToS8X => "i32-to-s8x",
        Instruction::I32ToU8 => "i32-to-u8",
        Instruction::I32ToS16 => "i32-to-s16",
        Instruction::I32ToS16X => "i32-to-s16x",
        Instruction::I32ToU16 => "i32-to-u16",
        Instruction::I32ToS32 => "i32-to-s32",
        Instruction::I32ToU32 => "i32-to-u32",
        Instruction::I32ToS64 => "i32-to-s64",
        Instruction::I32ToU64 => "i32-to-u64",
        Instruction::I64ToS8 => "i64-to-s8",
        Instruction::I64ToS8X => "i64-to-s8x",
        Instruction::I64ToU8 => "i64-to-u8",
        Instruction::I64ToS16 => "i64-to-s16",
        Instruction::I64ToS16X => "i64-to-s16x",
        Instruction::I64ToU16 => "i64-to-u16",
        Instruction::I64ToS32 => "i64-to-s32",
        Instruction::I64ToS32X => "i64-to-s32x",
        Instruction::I64ToU32 => "i64-to-u32",
        Instruction::I64ToS64 => "i64-to-s64",
        Instruction::I64ToU64 => "i64-to-u64",
        Instruction::S8ToI32 => "s8-to-i32",
        Instruction::U8ToI32 => "u8-to-i32",
        Instruction::S16ToI32 => "s16-to-i32",
        Instruction::U16ToI32 => "u16-to-i32",
        Instruction::S32ToI32 => "s32-to-i32",
        Instruction::U32ToI32 => "u32-to-i32",
        Instruction::S64ToI32 => "s64-to-i32",
        Instruction::S64ToI32X => "s64-to-i32x",
        Instruction::U64ToI32 => "u64-to-i32",
        Instruction::U64ToI32X => "u64-to-i32x",
        Instruction::S8ToI64 => "s8-to-i64",
        Instruction::U8ToI64 => "u8-to-i64",
        Instruction::S16ToI64 => "s16-to-i64",
        Instruction::U16ToI64 => "u16-to-i64",
        Instruction::S32ToI64 => "s32-to-i64",
        Instruction::U32ToI64 => "u32-to-i64",
        Instruction::S64ToI64 => "s64-to-i64",
        Instruction::U64ToI64 => "u64-to-i64",
        _ => "",
    }
}

/// Appends a core function operand: `$name` when the module names it, the
/// index otherwise.
fn push_func_idx(out: &mut String, names: &HostNames, i: u32)
    ensures
        final(out)@ == old(out)@ + sp_func_idx(names@, i),
{
    proof {
        if i < names@.len() {
            assert(names@[i as int] == opt_name_view(names.funcs@[i as int]));
        }
    }
    if (i as usize) < names.funcs.len() {
        match &names.funcs[i as usize] {
            Some(n) => {
                out.append("$");
                out.append(n.as_str());
                proof {
                    reveal_strlit("$");
                    assert(final(out)@ =~= old(out)@ + sp_func_idx(names@, i));
                }
            },
            None => {
                push_dec(out, i as u64);
            },
        }
    } else {
        push_dec(out, i as u64);
    }
}

/// Appends the text of one instruction.
fn push_instr_text(out: &mut String, names: &HostNames, instr: &Instruction)
    ensures
        final(out)@ == old(out)@ + sp_instr(names@, *instr),
{
    match instr {
        Instruction::ArgGet(n) => {
            out.append("arg.get ");
            push_dec(out, *n as u64);
            proof {
                assert(final(out)@ =~= old(out)@ + sp_instr(names@, *instr));
            }
        },
        Instruction::CallCore(n) => {
            out.append("call-core ");
            push_func_idx(out, names, *n);
            proof {
                assert(final(out)@ =~= old(out)@ + sp_instr(names@, *instr));
            }
        },
        Instruction::End => {
            out.append("end");
        },
        Instruction::MemoryToString(mem) => {
            out.append("memory-to-string");
            if *mem != 0 {
                out.append(" ");
                push_dec(out, *mem as u64);
            }
            proof {
                assert(final(out)@ =~= old(out)@ + sp_instr(names@, *instr));
            }
        },
        Instruction::StringToMemory(p) => {
            out.append("string-to-memory ");
            push_func_idx(out, names, p.malloc);
            if p.mem != 0 {
                out.append(" ");
                push_dec(out, p.mem as u64);
            }
            proof {
                assert(final(out)@ =~= old(out)@ + sp_instr(names@, *instr));
            }
        },
        Instruction::CallAdapter(n) => {
            out.append("call-adapter ");
            push_dec(out, *n as u64);
            proof {
                assert(final(out)@ =~= old(out)@ + sp_instr(names@, *instr));
            }
        },
        Instruction::DeferCallCore(n) => {
            out.append("defer-call-core ");
            push_func_idx(out, names, *n);
            proof {
                assert(final(out)@ =~= old(out)@ + sp_instr(names@, *instr));
            }
        },
        _ => {
            out.append(conv_mnemonic_str(instr));
        },
    }
}

/// Appends the text of one type item.
#[verifier::loop_isolation(false)]
fn push_type_text(out: &mut String, i: u64, t: &Type)
    ensures
        final(out)@ == old(out)@ + sp_type(i as int, t@),
{
    out.append("\n  (@interface type (;");
    push_dec(out, i);
    out.append(";) (func");
    let mut j: usize = 0;
    proof {
        assert(t@.params.skip(0) =~= t@.params);
    }
    while j < t.params.len()
        invariant
            0 <= j <= t.params@.len(),
            out@ + sp_params(t@.params.skip(j as int)) == old(out)@ + "\n  (@interface type (;"@
                + dec_digits(i as nat) + ";) (func"@ + sp_params(t@.params),
        decreases t.params@.len() - j,
    {
        let ghost rem = t@.params.skip(j as int);
        let ghost out0 = out@;
        out.append(" (param ");
        out.append(valtype_kw_str(t.params[j]));
        out.append(")");
        j = j + 1;
        proof {
            assert(rem[0] == t@.params[j - 1]);
            assert(rem.skip(1) =~= t@.params.skip(j as int));
            assert(out@ =~= out0 + (" (param "@ + valtype_kw(rem[0]) + ")"@));
            assert((out0 + (" (param "@ + valtype_kw(rem[0]) + ")"@)) + sp_params(
                t@.params.skip(j as int),
            ) =~= out0 + sp_params(rem));
        }
    }
    proof {
        assert(t@.params.skip(t@.params.len() as int) =~= Seq::<ValType>::empty());
    }
    let mut k: usize = 0;
    let ghost mid = out@;
    proof {
        assert(t@.results.skip(0) =~= t@.results);
    }
    while k < t.results.len()
        invariant
            0 <= k <= t.results@.len(),
            out@ + sp_results(t@.results.skip(k as int)) == mid + sp_results(t@.results),
        decreases t.results@.len() - k,
    {
        let ghost rem = t@.results.skip(k as int);
        let ghost out0 = out@;
        out.append(" (result ");
        out.append(valtype_kw_str(t.results[k]));
        out.append(")");
        k = k + 1;
        proof {
            assert(rem[0] == t@.results[k - 1]);
            assert(rem.skip(1) =~= t@.results.skip(k as int));
            assert(out@ =~= out0 + (" (result "@ + valtype_kw(rem[0]) + ")"@));
            assert((out0 + (" (result "@ + valtype_kw(rem[0]) + ")"@)) + sp_results(
                t@.results.skip(k as int),
            ) =~= out0 + sp_results(rem));
        }
    }
    proof {
        assert(t@.results.skip(t@.results.len() as int) =~= Seq::<ValType>::empty());
    }
    out.append("))");
    proof {
        assert(final(out)@ =~= old(out)@ + sp_type(i as int, t@));
    }
}

/// Appends the text of one import item.
fn push_import_text(out: &mut String, func: u64, im: &Import)
    ensures
        final(out)@ == old(out)@ + sp_import(func as int, im@),
{
    out.append("\n  (@interface import \"");
    out.append(im.module.as_str());
    out.append("\" \"");
    out.append(im.name.as_str());
    out.append("\" (func (;");
    push_dec(out, func);
    out.append(";) (type ");
    push_dec(out, im.ty as u64);
    out.append(")))");
    proof {
        assert(final(out)@ =~= old(out)@ + sp_import(func as int, im@));
    }
}

/// Appends the text of one export item.
fn push_export_text(out: &mut String, e: &Export)
    ensures
        final(out)@ == old(out)@ + sp_export(e@),
{
    out.append("\n  (@interface export \"");
    out.append(e.name.as_str());
    out.append("\" (func ");
    push_dec(out, e.func as u64);
    out.append("))");
    proof {
        assert(final(out)@ =~= old(out)@ + sp_export(e@));
    }
}

/// Appends the text of one function item.
#[verifier::loop_isolation(false)]
fn push_func_text(out: &mut String, names: &HostNames, func: u64, f: &Func)
    ensures
        final(out)@ == old(out)@ + sp_func(names@, func as int, f@),
{
    out.append("\n  (@interface func (;");
    push_dec(out, func);
    out.append(";) (type ");
    push_dec(out, f.ty as u64);
    out.append(")");
    let mut j: usize = 0;
    let ghost mid = out@;
    proof {
        assert(f@.instrs.skip(0) =~= f@.instrs);
    }
    while j < f.instrs.len()
        invariant
            0 <= j <= f.instrs@.len(),
            out@ + sp_instr_list(names@, f@.instrs.skip(j as int)) == mid + sp_instr_list(
                names@,
                f@.instrs,
            ),
        decreases f.instrs@.len() - j,
    {
        let ghost rem = f@.instrs.skip(j as int);
        let ghost out0 = out@;
        out.append("\n    ");
        push_instr_text(out, names, &f.instrs[j]);
        j = j + 1;
        proof {
            assert(rem[0] == f@.instrs[j - 1]);
            assert(rem.skip(1) =~= f@.instrs.skip(j as int));
            assert(out@ =~= out0 + ("\n    "@ + sp_instr(names@, rem[0])));
            assert((out0 + ("\n    "@ + sp_instr(names@, rem[0]))) + sp_instr_list(
                names@,
                f@.instrs.skip(j as int),
            ) =~= out0 + sp_instr_list(names@, rem));
        }
    }
    proof {
        assert(f@.instrs.skip(f@.instrs.len() as int) =~= Seq::<Instruction>::empty());
    }
    out.append(")");
    proof {
        assert(final(out)@ =~= old(out)@ + sp_func(names@, func as int, f@));
    }
}

/// Appends the text of one implement item.
fn push_implement_text(out: &mut String, names: &HostNames, im: &Implement)
    ensures
        final(out)@ == old(out)@ + sp_implement(names@, *im),
{
    out.append("\n  (@interface implement (func ");
    push_func_idx(out, names, im.core_func);
    out.append(") (func ");
    push_dec(out, im.adapter_func as u64);
    out.append("))");
    proof {
        assert(final(out)@ =~= old(out)@ + sp_implement(names@, *im));
    }
}

/// Renders a decoded interface-types section to its canonical text: each
/// `@interface` directive on its own indented line, function bodies
/// indented by four spaces, zero memory operands elided, and core function
/// operands printed by host-side name when one exists.
#[verifier::loop_isolation(false)]
#[verifier::rlimit(100)]
#[verifier::spinoff_prover]
pub fn print_wit(doc: &Vec<WitSection>, names: &HostNames) -> (r: String)
    requires
        total_funcs(seq_view(doc@)) <= u64::MAX,
    ensures
        r@ == sp_doc(names@, seq_view(doc@)),
{
    let ghost full = seq_view(doc@);
    let mut out = String::new();
    let mut fc: u64 = 0;
    let mut i: usize = 0;
    proof {
        assert(full.skip(0) =~= full);
        assert(Seq::<char>::empty() + sp_doc_from(names@, 0, full) =~= sp_doc_from(
            names@,
            0,
            full,
        ));
    }
    while i < doc.len()
        invariant
            0 <= i <= doc@.len(),
            full.len() == doc@.len(),
            0 <= fc,
            fc + total_funcs(full.skip(i as int)) <= u64::MAX,
            out@ + sp_doc_from(names@, fc as int, full.skip(i as int)) == sp_doc_from(
                names@,
                0,
                full,
            ),
        decreases doc@.len() - i,
    {
        let ghost rem = full.skip(i as int);
        let ghost out_sec = out@;
        let ghost fc0 = fc;
        proof {
            assert(rem[0] == full[i as int]);
            assert(full[i as int] == doc@[i as int]@);
            assert(rem.skip(1) =~= full.skip(i as int + 1));
            lemma_total_funcs_nonneg(rem.skip(1));
        }
        match &doc[i] {
            WitSection::Type(items) => {
                let mut j: usize = 0;
                let ghost iv = seq_view(items@);
                proof {
                    assert(iv.skip(0) =~= iv);
                }
                while j < items.len()
                    invariant
                        0 <= j <= items@.len(),
                        iv.len() == items@.len(),
                        out@ + sp_type_list(j as int, iv.skip(j as int)) == out_sec
                            + sp_type_list(0, iv),
                    decreases items@.len() - j,
                {
                    let ghost irem = iv.skip(j as int);
                    let ghost out0 = out@;
                    push_type_text(&mut out, j as u64, &items[j]);
                    j = j + 1;
                    proof {
                        assert(irem[0] == iv[j - 1]);
                        assert(iv[j - 1] == items@[j - 1]@);
                        assert(irem.skip(1) =~= iv.skip(j as int));
                        assert((out0 + sp_type(j - 1, irem[0])) + sp_type_list(
                            j as int,
                            iv.skip(j as int),
                        ) =~= out0 + sp_type_list(j - 1, irem));
                    }
                }
                proof {
                    assert(iv.skip(iv.len() as int) =~= Seq::<TypeView>::empty());
                    assert(out@ + Seq::<char>::empty() =~= out@);
                }
            },
            WitSection::Import(items) => {
                let mut j: usize = 0;
                let ghost iv = seq_view(items@);
                proof {
                    assert(iv.skip(0) =~= iv);
                }
                while j < items.len()
                    invariant
                        0 <= j <= items@.len(),
                        iv.len() == items@.len(),
                        fc0 + iv.len() <= u64::MAX,
                        out@ + sp_import_list(fc0 + j, iv.skip(j as int)) == out_sec
                            + sp_import_list(fc0 as int, iv),
                    decreases items@.len() - j,
                {
                    let ghost irem = iv.skip(j as int);
                    let ghost out0 = out@;
                    push_import_text(&mut out, fc + (j as u64), &items[j]);
                    j = j + 1;
                    proof {
                        assert(irem[0] == iv[j - 1]);
                        assert(iv[j - 1] == items@[j - 1]@);
                        assert(irem.skip(1) =~= iv.skip(j as int));
                        assert((out0 + sp_import(fc0 + j - 1, irem[0])) + sp_import_list(
                            fc0 + j,
                            iv.skip(j as int),
                        ) =~= out0 + sp_import_list(fc0 + j - 1, irem));
                    }
                }
                proof {
                    assert(iv.skip(iv.len() as int) =~= Seq::<ImportView>::empty());
                    assert(out@ + Seq::<char>::empty() =~= out@);
                }
                fc = fc + (items.len() as u64);
            },
            WitSection::Func(items) => {
                let mut j: usize = 0;
                let ghost iv = seq_view(items@);
                proof {
                    assert(iv.skip(0) =~= iv);
                }
                while j < items.len()
                    invariant
                        0 <= j <= items@.len(),
                        iv.len() == items@.len(),
                        fc0 + iv.len() <= u64::MAX,
                        out@ + sp_func_list(names@, fc0 + j, iv.skip(j as int)) == out_sec
                            + sp_func_list(names@, fc0 as int, iv),
                    decreases items@.len() - j,
                {
                    let ghost irem = iv.skip(j as int);
                    let ghost out0 = out@;
                    push_func_text(&mut out, names, fc + (j as u64), &items[j]);
                    j = j + 1;
                    proof {
                        assert(irem[0] == iv[j - 1]);
                        assert(iv[j - 1] == items@[j - 1]@);
                        assert(irem.skip(1) =~= iv.skip(j as int));
                        assert((out0 + sp_func(names@, fc0 + j - 1, irem[0])) + sp_func_list(
                            names@,
                            fc0 + j,
                            iv.skip(j as int),
                        ) =~= out0 + sp_func_list(names@, fc0 + j - 1, irem));
                    }
                }
                proof {
                    assert(iv.skip(iv.len() as int) =~= Seq::<FuncView>::empty());
                    assert(out@ + Seq::<char>::empty() =~= out@);
                }
                fc = fc + (items.len() as u64);
            },
            WitSection::Export(items) => {
                let mut j: usize = 0;
                let ghost iv = seq_view(items@);
                proof {
                    assert(iv.skip(0) =~= iv);
                }
                while j < items.len()
                    invariant
                        0 <= j <= items@.len(),
                        iv.len() == items@.len(),
                        out@ + sp_export_list(iv.skip(j as int)) == out_sec + sp_export_list(iv),
                    decreases items@.len() - j,
                {
                    let ghost irem = iv.skip(j as int);
                    let ghost out0 = out@;
                    push_export_text(&mut out, &items[j]);
                    j = j + 1;
                    proof {
                        assert(irem[0] == iv[j - 1]);
                        assert(iv[j - 1] == items@[j - 1]@);
                        assert(irem.skip(1) =~= iv.skip(j as int));
                        assert((out0 + sp_export(irem[0])) + sp_export_list(iv.skip(j as int))
                            =~= out0 + sp_export_list(irem));
                    }
                }
                proof {
                    assert(iv.skip(iv.len() as int) =~= Seq::<ExportView>::empty());
                    assert(out@ + Seq::<char>::empty() =~= out@);
                }
            },
            WitSection::Implement(items) => {
                let mut j: usize = 0;
                proof {
                    assert(items@.skip(0) =~= items@);
                }
                while j < items.len()
                    invariant
                        0 <= j <= items@.len(),
                        out@ + sp_implement_list(names@, items@.skip(j as int)) == out_sec
                            + sp_implement_list(names@, items@),
                    decreases items@.len() - j,
                {
                    let ghost irem = items@.skip(j as int);
                    let ghost out0 = out@;
                    push_implement_text(&mut out, names, &items[j]);
                    j = j + 1;
                    proof {
                        assert(irem[0] == items@[j - 1]);
                        assert(irem.skip(1) =~= items@.skip(j as int));
                        assert((out0 + sp_implement(names@, irem[0])) + sp_implement_list(
                            names@,
                            items@.skip(j as int),
                        ) =~= out0 + sp_implement_list(names@, irem));
                    }
                }
                proof {
                    assert(items@.skip(items@.len() as int) =~= Seq::<Implement>::empty());
                    assert(out@ + Seq::<char>::empty() =~= out@);
                }
            },
        }
        i = i + 1;
        proof {
            assert(out@ =~= out_sec + sp_section(names@, fc0 as int, rem[0]));
            assert(fc == fc0 + sp_func_count(rem[0]));
            assert((out_sec + sp_section(names@, fc0 as int, rem[0])) + sp_doc_from(
                names@,
                fc as int,
                full.skip(i as int),
            ) =~= out_sec + sp_doc_from(names@, fc0 as int, rem));
        }
    }
    proof {
        assert(full.skip(full.len() as int) =~= Seq::<SectionView>::empty());
        assert(out@ + Seq::<char>::empty() =~= out@);
    }
    out
}

} // verus!
