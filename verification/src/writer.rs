//! The binary writer: emits the payload of an interface-types custom
//! section, mirroring the reader byte for byte, and is proved against the
//! encode specification `se_*`.

use vstd::prelude::*;
use vstd::utf8::encode_utf8;
use vstd::string::StringSliceAdditionalSpecFns;
use crate::leb::{uleb_encode, uleb_write, lemma_uleb_encode_len};
use crate::reader::{
    TypeView, ImportView, ExportView, FuncView, SectionView, Type, Import, Export, Func, Implement,
    Instruction, StringToMemory,
};
use crate::valtype::{ValType, valtype_byte};
use crate::decode::{WitSection, seq_view};
use crate::schema::version_chars;

verus! {

/// The encoding of a 32-bit integer: minimal unsigned LEB128.
pub open spec fn se_u32(n: u32) -> Seq<u8> {
    uleb_encode(n as nat)
}

/// The encoding of a length-prefixed run of bytes.
pub open spec fn se_lp(b: Seq<u8>) -> Seq<u8> {
    uleb_encode(b.len() as nat) + b
}

/// The encoding of a length-prefixed UTF-8 string.
pub open spec fn se_str(s: Seq<char>) -> Seq<u8> {
    se_lp(encode_utf8(s))
}

/// The encoding of a list of value types, without a count.
pub open spec fn se_valtype_list(vs: Seq<ValType>) -> Seq<u8>
    decreases vs.len(),
{
    if vs.len() == 0 {
        Seq::empty()
    } else {
        seq![valtype_byte(vs[0])] + se_valtype_list(vs.skip(1))
    }
}

/// The encoding of one type signature.
pub open spec fn se_type(t: TypeView) -> Seq<u8> {
    uleb_encode(t.params.len() as nat) + se_valtype_list(t.params) + uleb_encode(
        t.results.len() as nat,
    ) + se_valtype_list(t.results)
}

/// The encoding of one import entry.
pub open spec fn se_import(i: ImportView) -> Seq<u8> {
    se_str(i.module) + se_str(i.name) + se_u32(i.ty)
}

/// The encoding of one export entry.
pub open spec fn se_export(e: ExportView) -> Seq<u8> {
    se_u32(e.func) + se_str(e.name)
}

/// The encoding of one implement entry.
pub open spec fn se_implement(i: Implement) -> Seq<u8> {
    se_u32(i.core_func) + se_u32(i.adapter_func)
}

/// The opcode byte of an instruction.
pub open spec fn instr_opcode(i: Instruction) -> u8 {
    match i {
        Instruction::ArgGet(_) => 0x00,
        Instruction::CallCore(_) => 0x01,
        Instruction::End => 0x02,
        Instruction::MemoryToString(_) => 0x03,
        Instruction::StringToMemory(_) => 0x04,
        Instruction::CallAdapter(_) => 0x05,
        Instruction::DeferCallCore(_) => 0x06,
        Instruction::I32ToS8 => 0x07,
        Instruction::I32ToS8X => 0x08,
        Instruction::I32ToU8 => 0x09,
        Instruction::I32ToS16 => 0x0a,
        Instruction::I32ToS16X => 0x0b,
        Instruction::I32ToU16 => 0x0c,
        Instruction::I32ToS32 => 0x0d,
        Instruction::I32ToU32 => 0x0e,
        Instruction::I32ToS64 => 0x0f,
        Instruction::I32ToU64 => 0x10,
        Instruction::I64ToS8 => 0x11,
        Instruction::I64ToS8X => 0x12,
        Instruction::I64ToU8 => 0x13,
        Instruction::I64ToS16 => 0x14,
        Instruction::I64ToS16X => 0x15,
        Instruction::I64ToU16 => 0x16,
        Instruction::I64ToS32 => 0x17,
        Instruction::I64ToS32X => 0x18,
        Instruction::I64ToU32 => 0x19,
        Instruction::I64ToS64 => 0x1a,
        Instruction::I64ToU64 => 0x1b,
        Instruction::S8ToI32 => 0x1c,
        Instruction::U8ToI32 => 0x1d,
        Instruction::S16ToI32 => 0x1e,
        Instruction::U16ToI32 => 0x1f,
        Instruction::S32ToI32 => 0x20,
        Instruction::U32ToI32 => 0x21,
        Instruction::S64ToI32 => 0x22,
        Instruction::S64ToI32X => 0x23,
        Instruction::U64ToI32 => 0x24,
        Instruction::U64ToI32X => 0x25,
        Instruction::S8ToI64 => 0x26,
        Instruction::U8ToI64 => 0x27,
        Instruction::S16ToI64 => 0x28,
        Instruction::U16ToI64 => 0x29,
        Instruction::S32ToI64 => 0x2a,
        Instruction::U32ToI64 => 0x2b,
        Instruction::S64ToI64 => 0x2c,
        Instruction::U64ToI64 => 0x2d,
    }
}

/// The encoding of one instruction: its opcode byte, then its immediates.
pub open spec fn se_instr(i: Instruction) -> Seq<u8> {
    match i {
        Instruction::ArgGet(n) => seq![0x00u8] + se_u32(n),
        Instruction::CallCore(n) => seq![0x01u8] + se_u32(n),
        Instruction::MemoryToString(n) => seq![0x03u8] + se_u32(n),
        Instruction::StringToMemory(p) => seq![0x04u8] + se_u32(p.malloc) + se_u32(p.mem),
        Instruction::CallAdapter(n) => seq![0x05u8] + se_u32(n),
        Instruction::DeferCallCore(n) => seq![0x06u8] + se_u32(n),
        _ => seq![instr_opcode(i)],
    }
}

/// The encoding of a function body's instructions, with the terminating
/// `end` appended.
pub open spec fn se_instr_list(is: Seq<Instruction>) -> Seq<u8>
    decreases is.len(),
{
    if is.len() == 0 {
        seq![0x02u8]
    } else {
        se_instr(is[0]) + se_instr_list(is.skip(1))
    }
}

/// The body of one function item, before its length prefix.
pub open spec fn se_func_body(f: FuncView) -> Seq<u8> {
    se_u32(f.ty) + se_instr_list(f.instrs)
}

/// The encoding of one function item: its body, length-prefixed.
pub open spec fn se_func(f: FuncView) -> Seq<u8> {
    se_lp(se_func_body(f))
}

/// The encoding of a list of type items.
pub open spec fn se_type_list(ts: Seq<TypeView>) -> Seq<u8>
    decreases ts.len(),
{
    if ts.len() == 0 {
        Seq::empty()
    } else {
        se_type(ts[0]) + se_type_list(ts.skip(1))
    }
}

/// The encoding of a list of import items.
pub open spec fn se_import_list(ts: Seq<ImportView>) -> Seq<u8>
    decreases ts.len(),
{
    if ts.len() == 0 {
        Seq::empty()
    } else {
        se_import(ts[0]) + se_import_list(ts.skip(1))
    }
}

/// The encoding of a list of export items.
pub open spec fn se_export_list(ts: Seq<ExportView>) -> Seq<u8>
    decreases ts.len(),
{
    if ts.len() == 0 {
        Seq::empty()
    } else {
        se_export(ts[0]) + se_export_list(ts.skip(1))
    }
}

/// The encoding of a list of function items.
pub open spec fn se_func_list(ts: Seq<FuncView>) -> Seq<u8>
    decreases ts.len(),
{
    if ts.len() == 0 {
        Seq::empty()
    } else {
        se_func(ts[0]) + se_func_list(ts.skip(1))
    }
}

/// The encoding of a list of implement items.
pub open spec fn se_implement_list(ts: Seq<Implement>) -> Seq<u8>
    decreases ts.len(),
{
    if ts.len() == 0 {
        Seq::empty()
    } else {
        se_implement(ts[0]) + se_implement_list(ts.skip(1))
    }
}

/// The subsection id of a decoded subsection.
pub open spec fn section_id(sv: SectionView) -> u8 {
    match sv {
        SectionView::Types(_) => 0x00,
        SectionView::Imports(_) => 0x01,
        SectionView::Funcs(_) => 0x02,
        SectionView::Exports(_) => 0x03,
        SectionView::Implements(_) => 0x04,
    }
}

/// How many items a decoded subsection holds.
pub open spec fn section_len(sv: SectionView) -> int {
    match sv {
        SectionView::Types(v) => v.len() as int,
        SectionView::Imports(v) => v.len() as int,
        SectionView::Funcs(v) => v.len() as int,
        SectionView::Exports(v) => v.len() as int,
        SectionView::Implements(v) => v.len() as int,
    }
}

/// The body of a subsection: the item count, then the items.
pub open spec fn se_section_body(sv: SectionView) -> Seq<u8> {
    uleb_encode(section_len(sv) as nat) + match sv {
        SectionView::Types(v) => se_type_list(v),
        SectionView::Imports(v) => se_import_list(v),
        SectionView::Funcs(v) => se_func_list(v),
        SectionView::Exports(v) => se_export_list(v),
        SectionView::Implements(v) => se_implement_list(v),
    }
}

/// The encoding of one subsection: id byte plus length-prefixed body; an
/// empty subsection is omitted entirely.
pub open spec fn se_section(sv: SectionView) -> Seq<u8> {
    if section_len(sv) == 0 {
        Seq::empty()
    } else {
        seq![section_id(sv)] + se_lp(se_section_body(sv))
    }
}

/// The encoding of a list of subsections.
pub open spec fn se_section_list(svs: Seq<SectionView>) -> Seq<u8>
    decreases svs.len(),
{
    if svs.len() == 0 {
        Seq::empty()
    } else {
        se_section(svs[0]) + se_section_list(svs.skip(1))
    }
}

/// The encoding of a whole payload: the version header, then every
/// subsection.
pub open spec fn se_payload(svs: Seq<SectionView>) -> Seq<u8> {
    se_str(version_chars()) + se_section_list(svs)
}

/// A name short enough for its length prefix.
pub open spec fn wf_name(s: Seq<char>) -> bool {
    encode_utf8(s).len() <= 0xffff_ffff
}

/// A type whose parameter and result counts fit 32 bits.
pub open spec fn wf_type(t: TypeView) -> bool {
    t.params.len() <= 0xffff_ffff && t.results.len() <= 0xffff_ffff
}

/// An import whose names are short enough.
pub open spec fn wf_import(i: ImportView) -> bool {
    wf_name(i.module) && wf_name(i.name)
}

/// An export whose name is short enough.
pub open spec fn wf_export(e: ExportView) -> bool {
    wf_name(e.name)
}

/// A function whose encoded body fits its length prefix.
pub open spec fn wf_func(f: FuncView) -> bool {
    se_func_body(f).len() <= 0xffff_ffff
}

/// A subsection whose items are encodable and whose encoded body fits its
/// length prefix.
pub open spec fn wf_section(sv: SectionView) -> bool {
    &&& section_len(sv) <= 0xffff_ffff
    &&& se_section_body(sv).len() <= 0xffff_ffff
    &&& match sv {
        SectionView::Types(v) => forall|i: int| 0 <= i < v.len() ==> wf_type(#[trigger] v[i]),
        SectionView::Imports(v) => forall|i: int| 0 <= i < v.len() ==> wf_import(#[trigger] v[i]),
        SectionView::Funcs(v) => forall|i: int| 0 <= i < v.len() ==> wf_func(#[trigger] v[i]),
        SectionView::Exports(v) => forall|i: int| 0 <= i < v.len() ==> wf_export(#[trigger] v[i]),
        SectionView::Implements(_) => true,
    }
}

/// A document the writer can emit: every subsection well-formed.
pub open spec fn wf_doc(svs: Seq<SectionView>) -> bool {
    forall|i: int| 0 <= i < svs.len() ==> wf_section(#[trigger] svs[i])
}


/// Appends every byte of `b` to `dst`.
#[verifier::loop_isolation(false)]
pub(crate) fn push_bytes(dst: &mut Vec<u8>, b: &[u8])
    ensures
        final(dst)@ == old(dst)@ + b@,
{
    let mut i: usize = 0;
    while i < b.len()
        invariant
            0 <= i <= b@.len(),
            dst@ == old(dst)@ + b@.take(i as int),
        decreases b@.len() - i,
    {
        let ghost dst0 = dst@;
        dst.push(b[i]);
        i = i + 1;
        proof {
            assert(dst@ =~= old(dst)@ + b@.take(i as int));
        }
    }
    proof {
        assert(old(dst)@ + b@.take(b@.len() as int) =~= old(dst)@ + b@);
    }
}

/// Appends a length-prefixed run of bytes to `dst`.
fn push_lp_bytes(dst: &mut Vec<u8>, b: &[u8])
    requires
        b@.len() <= 0xffff_ffff,
    ensures
        final(dst)@ == old(dst)@ + se_lp(b@),
{
    uleb_write(dst, b.len() as u32);
    push_bytes(dst, b);
    proof {
        assert(final(dst)@ =~= old(dst)@ + se_lp(b@));
    }
}

/// Appends a length-prefixed UTF-8 string to `dst`.
fn push_str(dst: &mut Vec<u8>, s: &str)
    requires
        wf_name(s@),
    ensures
        final(dst)@ == old(dst)@ + se_str(s@),
{
    push_lp_bytes(dst, s.as_bytes());
}

/// Appends one opcode byte to `dst`.
fn push_op(dst: &mut Vec<u8>, op: u8)
    ensures
        final(dst)@ == old(dst)@ + seq![op],
{
    dst.push(op);
    proof {
        assert(final(dst)@ =~= old(dst)@ + seq![op]);
    }
}

/// Appends an opcode byte and one integer immediate to `dst`.
fn push_op_u32(dst: &mut Vec<u8>, op: u8, n: u32)
    ensures
        final(dst)@ == old(dst)@ + (seq![op] + se_u32(n)),
{
    dst.push(op);
    uleb_write(dst, n);
    proof {
        assert(final(dst)@ =~= old(dst)@ + (seq![op] + se_u32(n)));
    }
}

/// Appends the value-type bytes of `vs` to `dst`.
#[verifier::loop_isolation(false)]
fn push_valtype_list(dst: &mut Vec<u8>, vs: &Vec<ValType>)
    ensures
        final(dst)@ == old(dst)@ + se_valtype_list(vs@),
{
    let mut i: usize = 0;
    proof {
        assert(vs@.skip(0) =~= vs@);
    }
    while i < vs.len()
        invariant
            0 <= i <= vs@.len(),
            dst@ + se_valtype_list(vs@.skip(i as int)) == old(dst)@ + se_valtype_list(vs@),
        decreases vs@.len() - i,
    {
        let ghost rem = vs@.skip(i as int);
        let ghost dst0 = dst@;
        let b = vs[i].to_byte();
        dst.push(b);
        i = i + 1;
        proof {
            assert(rem[0] == vs@[i - 1]);
            assert(rem.skip(1) =~= vs@.skip(i as int));
            assert(dst@ =~= dst0 + seq![b]);
            assert((dst0 + seq![b]) + se_valtype_list(vs@.skip(i as int)) =~= dst0 + (seq![b]
                + se_valtype_list(vs@.skip(i as int))));
        }
    }
    proof {
        assert(vs@.skip(vs@.len() as int) =~= Seq::<ValType>::empty());
        assert(dst@ + Seq::<u8>::empty() =~= dst@);
    }
}

/// Appends the encoding of one type signature to `dst`.
fn push_type(dst: &mut Vec<u8>, t: &Type)
    requires
        wf_type(t@),
    ensures
        final(dst)@ == old(dst)@ + se_type(t@),
{
    uleb_write(dst, t.params.len() as u32);
    push_valtype_list(dst, &t.params);
    uleb_write(dst, t.results.len() as u32);
    push_valtype_list(dst, &t.results);
    proof {
        assert(final(dst)@ =~= old(dst)@ + se_type(t@));
    }
}

/// Appends the encoding of one import entry to `dst`.
fn push_import(dst: &mut Vec<u8>, it: &Import)
    requires
        wf_import(it@),
    ensures
        final(dst)@ == old(dst)@ + se_import(it@),
{
    push_str(dst, it.module.as_str());
    push_str(dst, it.name.as_str());
    uleb_write(dst, it.ty);
    proof {
        assert(final(dst)@ =~= old(dst)@ + se_import(it@));
    }
}

/// Appends the encoding of one export entry to `dst`.
fn push_export(dst: &mut Vec<u8>, e: &Export)
    requires
        wf_export(e@),
    ensures
        final(dst)@ == old(dst)@ + se_export(e@),
{
    uleb_write(dst, e.func);
    push_str(dst, e.name.as_str());
    proof {
        assert(final(dst)@ =~= old(dst)@ + se_export(e@));
    }
}

/// Appends the encoding of one implement entry to `dst`.
fn push_implement(dst: &mut Vec<u8>, it: &Implement)
    ensures
        final(dst)@ == old(dst)@ + se_implement(*it),
{
    uleb_write(dst, it.core_func);
    uleb_write(dst, it.adapter_func);
    proof {
        assert(final(dst)@ =~= old(dst)@ + se_implement(*it));
    }
}

/// Appends the encoding of one instruction to `dst`.
fn push_instr(dst: &mut Vec<u8>, instr: &Instruction)
    ensures
        final(dst)@ == old(dst)@ + se_instr(*instr),
{
    match instr {
        Instruction::ArgGet(n) => push_op_u32(dst, 0x00, *n),
        Instruction::CallCore(n) => push_op_u32(dst, 0x01, *n),
        Instruction::End => push_op(dst, 0x02),
        Instruction::MemoryToString(n) => push_op_u32(dst, 0x03, *n),
        Instruction::StringToMemory(p) => {
            push_op_u32(dst, 0x04, p.malloc);
            uleb_write(dst, p.mem);
            proof {
                assert(final(dst)@ =~= old(dst)@ + se_instr(*instr));
            }
        },
        Instruction::CallAdapter(n) => push_op_u32(dst, 0x05, *n),
        Instruction::DeferCallCore(n) => push_op_u32(dst, 0x06, *n),
        _ => {
            let op = instr_opcode_exec(instr);
            push_op(dst, op);
        },
    }
}

/// The opcode byte of an instruction.
fn instr_opcode_exec(instr: &Instruction) -> (r: u8)
    ensures
        r == instr_opcode(*instr),
{
    match instr {
        Instruction::ArgGet(_) => 0x00,
        Instruction::CallCore(_) => 0x01,
        Instruction::End => 0x02,
        Instruction::MemoryToString(_) => 0x03,
        Instruction::StringToMemory(_) => 0x04,
        Instruction::CallAdapter(_) => 0x05,
        Instruction::DeferCallCore(_) => 0x06,
        Instruction::I32ToS8 => 0x07,
        Instruction::I32ToS8X => 0x08,
        Instruction::I32ToU8 => 0x09,
        Instruction::I32ToS16 => 0x0a,
        Instruction::I32ToS16X => 0x0b,
        Instruction::I32ToU16 => 0x0c,
        Instruction::I32ToS32 => 0x0d,
        Instruction::I32ToU32 => 0x0e,
        Instruction::I32ToS64 => 0x0f,
        Instruction::I32ToU64 => 0x10,
        Instruction::I64ToS8 => 0x11,
        Instruction::I64ToS8X => 0x12,
        Instruction::I64ToU8 => 0x13,
        Instruction::I64ToS16 => 0x14,
        Instruction::I64ToS16X => 0x15,
        Instruction::I64ToU16 => 0x16,
        Instruction::I64ToS32 => 0x17,
        Instruction::I64ToS32X => 0x18,
        Instruction::I64ToU32 => 0x19,
        Instruction::I64ToS64 => 0x1a,
        Instruction::I64ToU64 => 0x1b,
        Instruction::S8ToI32 => 0x1c,
        Instruction::U8ToI32 => 0x1d,
        Instruction::S16ToI32 => 0x1e,
        Instruction::U16ToI32 => 0x1f,
        Instruction::S32ToI32 => 0x20,
        Instruction::U32ToI32 => 0x21,
        Instruction::S64ToI32 => 0x22,
        Instruction::S64ToI32X => 0x23,
        Instruction::U64ToI32 => 0x24,
        Instruction::U64ToI32X => 0x25,
        Instruction::S8ToI64 => 0x26,
        Instruction::U8ToI64 => 0x27,
        Instruction::S16ToI64 => 0x28,
        Instruction::U16ToI64 => 0x29,
        Instruction::S32ToI64 => 0x2a,
        Instruction::U32ToI64 => 0x2b,
        Instruction::S64ToI64 => 0x2c,
        Instruction::U64ToI64 => 0x2d,
    }
}

/// Appends a body's instructions, with the terminating `end`, to `dst`.
#[verifier::loop_isolation(false)]
fn push_instr_list(dst: &mut Vec<u8>, is: &Vec<Instruction>)
    ensures
        final(dst)@ == old(dst)@ + se_instr_list(is@),
{
    let mut i: usize = 0;
    proof {
        assert(is@.skip(0) =~= is@);
    }
    while i < is.len()
        invariant
            0 <= i <= is@.len(),
            dst@ + se_instr_list(is@.skip(i as int)) == old(dst)@ + se_instr_list(is@),
        decreases is@.len() - i,
    {
        let ghost rem = is@.skip(i as int);
        let ghost dst0 = dst@;
        push_instr(dst, &is[i]);
        i = i + 1;
        proof {
            assert(rem[0] == is@[i - 1]);
            assert(rem.skip(1) =~= is@.skip(i as int));
            assert((dst0 + se_instr(is@[i - 1])) + se_instr_list(is@.skip(i as int)) =~= dst0 + (
            se_instr(is@[i - 1]) + se_instr_list(is@.skip(i as int))));
        }
    }
    push_op(dst, 0x02);
    proof {
        assert(is@.skip(is@.len() as int) =~= Seq::<Instruction>::empty());
        assert(se_instr_list(Seq::<Instruction>::empty()) == seq![0x02u8]);
    }
}

/// Appends the encoding of one function item to `dst`.
fn push_func(dst: &mut Vec<u8>, f: &Func)
    requires
        wf_func(f@),
    ensures
        final(dst)@ == old(dst)@ + se_func(f@),
{
    let mut body: Vec<u8> = Vec::new();
    uleb_write(&mut body, f.ty);
    push_instr_list(&mut body, &f.instrs);
    proof {
        assert(body@ =~= se_func_body(f@));
    }
    push_lp_bytes(dst, body.as_slice());
}


/// Appends the encodings of every item of `vs` to `dst`.
#[verifier::loop_isolation(false)]
fn push_type_list(dst: &mut Vec<u8>, vs: &Vec<Type>)
    requires
        forall|i: int| 0 <= i < vs@.len() ==> wf_type(#[trigger] vs@[i]@),
    ensures
        final(dst)@ == old(dst)@ + se_type_list(seq_view(vs@)),
{
    let ghost full = seq_view(vs@);
    let mut i: usize = 0;
    proof {
        assert(full.skip(0) =~= full);
    }
    while i < vs.len()
        invariant
            0 <= i <= vs@.len(),
            full.len() == vs@.len(),
            dst@ + se_type_list(full.skip(i as int)) == old(dst)@ + se_type_list(full),
        decreases vs@.len() - i,
    {
        let ghost rem = full.skip(i as int);
        let ghost dst0 = dst@;
        push_type(dst, &vs[i]);
        i = i + 1;
        proof {
            assert(rem[0] == full[i - 1]);
            assert(full[i - 1] == vs@[i - 1]@);
            assert(rem.skip(1) =~= full.skip(i as int));
            assert((dst0 + se_type(full[i - 1])) + se_type_list(full.skip(i as int)) =~= dst0 + (
            se_type(full[i - 1]) + se_type_list(full.skip(i as int))));
        }
    }
    proof {
        assert(full.skip(full.len() as int) =~= Seq::<TypeView>::empty());
        assert(dst@ + Seq::<u8>::empty() =~= dst@);
    }
}

/// Appends the encodings of every item of `vs` to `dst`.
#[verifier::loop_isolation(false)]
fn push_import_list(dst: &mut Vec<u8>, vs: &Vec<Import>)
    requires
        forall|i: int| 0 <= i < vs@.len() ==> wf_import(#[trigger] vs@[i]@),
    ensures
        final(dst)@ == old(dst)@ + se_import_list(seq_view(vs@)),
{
    let ghost full = seq_view(vs@);
    let mut i: usize = 0;
    proof {
        assert(full.skip(0) =~= full);
    }
    while i < vs.len()
        invariant
            0 <= i <= vs@.len(),
            full.len() == vs@.len(),
            dst@ + se_import_list(full.skip(i as int)) == old(dst)@ + se_import_list(full),
        decreases vs@.len() - i,
    {
        let ghost rem = full.skip(i as int);
        let ghost dst0 = dst@;
        push_import(dst, &vs[i]);
        i = i + 1;
        proof {
            assert(rem[0] == full[i - 1]);
            assert(full[i - 1] == vs@[i - 1]@);
            assert(rem.skip(1) =~= full.skip(i as int));
            assert((dst0 + se_import(full[i - 1])) + se_import_list(full.skip(i as int)) =~= dst0 + (
            se_import(full[i - 1]) + se_import_list(full.skip(i as int))));
        }
    }
    proof {
        assert(full.skip(full.len() as int) =~= Seq::<ImportView>::empty());
        assert(dst@ + Seq::<u8>::empty() =~= dst@);
    }
}

/// Appends the encodings of every item of `vs` to `dst`.
#[verifier::loop_isolation(false)]
fn push_export_list(dst: &mut Vec<u8>, vs: &Vec<Export>)
    requires
        forall|i: int| 0 <= i < vs@.len() ==> wf_export(#[trigger] vs@[i]@),
    ensures
        final(dst)@ == old(dst)@ + se_export_list(seq_view(vs@)),
{
    let ghost full = seq_view(vs@);
    let mut i: usize = 0;
    proof {
        assert(full.skip(0) =~= full);
    }
    while i < vs.len()
        invariant
            0 <= i <= vs@.len(),
            full.len() == vs@.len(),
            dst@ + se_export_list(full.skip(i as int)) == old(dst)@ + se_export_list(full),
        decreases vs@.len() - i,
    {
        let ghost rem = full.skip(i as int);
        let ghost dst0 = dst@;
        push_export(dst, &vs[i]);
        i = i + 1;
        proof {
            assert(rem[0] == full[i - 1]);
            assert(full[i - 1] == vs@[i - 1]@);
            assert(rem.skip(1) =~= full.skip(i as int));
            assert((dst0 + se_export(full[i - 1])) + se_export_list(full.skip(i as int)) =~= dst0 + (
            se_export(full[i - 1]) + se_export_list(full.skip(i as int))));
        }
    }
    proof {
        assert(full.skip(full.len() as int) =~= Seq::<ExportView>::empty());
        assert(dst@ + Seq::<u8>::empty() =~= dst@);
    }
}

/// Appends the encodings of every item of `vs` to `dst`.
#[verifier::loop_isolation(false)]
fn push_func_list(dst: &mut Vec<u8>, vs: &Vec<Func>)
    requires
        forall|i: int| 0 <= i < vs@.len() ==> wf_func(#[trigger] vs@[i]@),
    ensures
        final(dst)@ == old(dst)@ + se_func_list(seq_view(vs@)),
{
    let ghost full = seq_view(vs@);
    let mut i: usize = 0;
    proof {
        assert(full.skip(0) =~= full);
    }
    while i < vs.len()
        invariant
            0 <= i <= vs@.len(),
            full.len() == vs@.len(),
            dst@ + se_func_list(full.skip(i as int)) == old(dst)@ + se_func_list(full),
        decreases vs@.len() - i,
    {
        let ghost rem = full.skip(i as int);
        let ghost dst0 = dst@;
        push_func(dst, &vs[i]);
        i = i + 1;
        proof {
            assert(rem[0] == full[i - 1]);
            assert(full[i - 1] == vs@[i - 1]@);
            assert(rem.skip(1) =~= full.skip(i as int));
            assert((dst0 + se_func(full[i - 1])) + se_func_list(full.skip(i as int)) =~= dst0 + (
            se_func(full[i - 1]) + se_func_list(full.skip(i as int))));
        }
    }
    proof {
        assert(full.skip(full.len() as int) =~= Seq::<FuncView>::empty());
        assert(dst@ + Seq::<u8>::empty() =~= dst@);
    }
}

/// Appends the encodings of every item of `vs` to `dst`.
#[verifier::loop_isolation(false)]
fn push_implement_list(dst: &mut Vec<u8>, vs: &Vec<Implement>)
    ensures
        final(dst)@ == old(dst)@ + se_implement_list(vs@),
{
    let mut i: usize = 0;
    proof {
        assert(vs@.skip(0) =~= vs@);
    }
    while i < vs.len()
        invariant
            0 <= i <= vs@.len(),
            dst@ + se_implement_list(vs@.skip(i as int)) == old(dst)@ + se_implement_list(vs@),
        decreases vs@.len() - i,
    {
        let ghost rem = vs@.skip(i as int);
        let ghost dst0 = dst@;
        push_implement(dst, &vs[i]);
        i = i + 1;
        proof {
            assert(rem[0] == vs@[i - 1]);
            assert(rem.skip(1) =~= vs@.skip(i as int));
            assert((dst0 + se_implement(vs@[i - 1])) + se_implement_list(vs@.skip(i as int)) =~=
            dst0 + (se_implement(vs@[i - 1]) + se_implement_list(vs@.skip(i as int))));
        }
    }
    proof {
        assert(vs@.skip(vs@.len() as int) =~= Seq::<Implement>::empty());
        assert(dst@ + Seq::<u8>::empty() =~= dst@);
    }
}

/// A streaming emitter for the payload of an interface-types custom
/// section. It opens with the version header; each subsection method
/// appends one whole subsection, omitting it when it has no items.
pub struct Writer {
    dst: Vec<u8>,
}

impl View for Writer {
    type V = Seq<u8>;

    closed spec fn view(&self) -> Seq<u8> {
        self.dst@
    }
}

/// The bytes of a full custom section wrapping `payload`: the custom
/// section id, then the length-prefixed run of the section name followed by
/// the payload.
pub open spec fn se_custom_section(payload: Seq<u8>) -> Seq<u8> {
    seq![0x00u8] + se_lp(se_str(crate::schema::section_name_chars()) + payload)
}

impl Writer {
    /// A writer holding the version header.
    pub fn new() -> (w: Writer)
        ensures
            w@ == se_str(version_chars()),
    {
        let mut dst: Vec<u8> = Vec::new();
        proof {
            crate::schema::lemma_section_name_len();
            assert(Seq::<u8>::empty() + se_str(version_chars()) =~= se_str(version_chars()));
        }
        push_str(&mut dst, crate::schema::schema_version());
        Writer { dst }
    }

    /// Appends a type subsection holding `items`; appends nothing when
    /// `items` is empty.
    pub fn types(&mut self, items: &Vec<Type>)
        requires
            wf_section(SectionView::Types(seq_view(items@))),
        ensures
            final(self)@ == old(self)@ + se_section(SectionView::Types(seq_view(items@))),
    {
        let ghost sv = SectionView::Types(seq_view(items@));
        if items.len() == 0 {
            proof {
                assert(final(self)@ =~= old(self)@ + se_section(sv));
            }
            return;
        }
        let mut body: Vec<u8> = Vec::new();
        proof {
            assert(seq_view(items@).len() == items@.len());
            assert(Seq::<u8>::empty() + se_u32(items@.len() as u32) =~= se_u32(
                items@.len() as u32,
            ));
        }
        uleb_write(&mut body, items.len() as u32);
        proof {
            assert(forall|j: int|
                0 <= j < items@.len() ==> #[trigger] items@[j]@ == seq_view(items@)[j]);
        }
        push_type_list(&mut body, items);
        proof {
            assert(body@ =~= se_section_body(sv));
        }
        push_op(&mut self.dst, 0x00);
        push_lp_bytes(&mut self.dst, body.as_slice());
        proof {
            assert(final(self)@ =~= old(self)@ + se_section(sv));
        }
    }

    /// Appends an import subsection holding `items`; appends nothing when
    /// `items` is empty.
    pub fn imports(&mut self, items: &Vec<Import>)
        requires
            wf_section(SectionView::Imports(seq_view(items@))),
        ensures
            final(self)@ == old(self)@ + se_section(SectionView::Imports(seq_view(items@))),
    {
        let ghost sv = SectionView::Imports(seq_view(items@));
        if items.len() == 0 {
            proof {
                assert(final(self)@ =~= old(self)@ + se_section(sv));
            }
            return;
        }
        let mut body: Vec<u8> = Vec::new();
        proof {
            assert(seq_view(items@).len() == items@.len());
            assert(Seq::<u8>::empty() + se_u32(items@.len() as u32) =~= se_u32(
                items@.len() as u32,
            ));
        }
        uleb_write(&mut body, items.len() as u32);
        proof {
            assert(forall|j: int|
                0 <= j < items@.len() ==> #[trigger] items@[j]@ == seq_view(items@)[j]);
        }
        push_import_list(&mut body, items);
        proof {
            assert(body@ =~= se_section_body(sv));
        }
        push_op(&mut self.dst, 0x01);
        push_lp_bytes(&mut self.dst, body.as_slice());
        proof {
            assert(final(self)@ =~= old(self)@ + se_section(sv));
        }
    }

    /// Appends a function subsection holding `items`; appends nothing when
    /// `items` is empty.
    pub fn funcs(&mut self, items: &Vec<Func>)
        requires
            wf_section(SectionView::Funcs(seq_view(items@))),
        ensures
            final(self)@ == old(self)@ + se_section(SectionView::Funcs(seq_view(items@))),
    {
        let ghost sv = SectionView::Funcs(seq_view(items@));
        if items.len() == 0 {
            proof {
                assert(final(self)@ =~= old(self)@ + se_section(sv));
            }
            return;
        }
        let mut body: Vec<u8> = Vec::new();
        proof {
            assert(seq_view(items@).len() == items@.len());
            assert(Seq::<u8>::empty() + se_u32(items@.len() as u32) =~= se_u32(
                items@.len() as u32,
            ));
        }
        uleb_write(&mut body, items.len() as u32);
        proof {
            assert(forall|j: int|
                0 <= j < items@.len() ==> #[trigger] items@[j]@ == seq_view(items@)[j]);
        }
        push_func_list(&mut body, items);
        proof {
            assert(body@ =~= se_section_body(sv));
        }
        push_op(&mut self.dst, 0x02);
        push_lp_bytes(&mut self.dst, body.as_slice());
        proof {
            assert(final(self)@ =~= old(self)@ + se_section(sv));
        }
    }

    /// Appends an export subsection holding `items`; appends nothing when
    /// `items` is empty.
    pub fn exports(&mut self, items: &Vec<Export>)
        requires
            wf_section(SectionView::Exports(seq_view(items@))),
        ensures
            final(self)@ == old(self)@ + se_section(SectionView::Exports(seq_view(items@))),
    {
        let ghost sv = SectionView::Exports(seq_view(items@));
        if items.len() == 0 {
            proof {
                assert(final(self)@ =~= old(self)@ + se_section(sv));
            }
            return;
        }
        let mut body: Vec<u8> = Vec::new();
        proof {
            assert(seq_view(items@).len() == items@.len());
            assert(Seq::<u8>::empty() + se_u32(items@.len() as u32) =~= se_u32(
                items@.len() as u32,
            ));
        }
        uleb_write(&mut body, items.len() as u32);
        proof {
            assert(forall|j: int|
                0 <= j < items@.len() ==> #[trigger] items@[j]@ == seq_view(items@)[j]);
        }
        push_export_list(&mut body, items);
        proof {
            assert(body@ =~= se_section_body(sv));
        }
        push_op(&mut self.dst, 0x03);
        push_lp_bytes(&mut self.dst, body.as_slice());
        proof {
            assert(final(self)@ =~= old(self)@ + se_section(sv));
        }
    }

    /// Appends an implement subsection holding `items`; appends nothing
    /// when `items` is empty.
    pub fn implements(&mut self, items: &Vec<Implement>)
        requires
            wf_section(SectionView::Implements(items@)),
        ensures
            final(self)@ == old(self)@ + se_section(SectionView::Implements(items@)),
    {
        let ghost sv = SectionView::Implements(items@);
        if items.len() == 0 {
            proof {
                assert(final(self)@ =~= old(self)@ + se_section(sv));
            }
            return;
        }
        let mut body: Vec<u8> = Vec::new();
        proof {
            assert(Seq::<u8>::empty() + se_u32(items@.len() as u32) =~= se_u32(
                items@.len() as u32,
            ));
        }
        uleb_write(&mut body, items.len() as u32);
        push_implement_list(&mut body, items);
        proof {
            assert(body@ =~= se_section_body(sv));
        }
        push_op(&mut self.dst, 0x04);
        push_lp_bytes(&mut self.dst, body.as_slice());
        proof {
            assert(final(self)@ =~= old(self)@ + se_section(sv));
        }
    }

    /// Consumes the writer, returning the payload bytes written so far.
    pub fn into_payload(self) -> (r: Vec<u8>)
        ensures
            r@ == self@,
    {
        self.dst
    }

    /// Consumes the writer, returning a full custom section wrapping the
    /// payload: section id zero, then the length-prefixed section name and
    /// payload.
    pub fn into_custom_section(self) -> (r: Vec<u8>)
        requires
            se_str(crate::schema::section_name_chars()).len() + self@.len() <= 0xffff_ffff,
        ensures
            r@ == se_custom_section(self@),
    {
        let ghost payload = self@;
        let mut inner: Vec<u8> = Vec::new();
        proof {
            crate::schema::lemma_section_name_len();
            assert(Seq::<u8>::empty() + se_str(crate::schema::section_name_chars()) =~= se_str(
                crate::schema::section_name_chars(),
            ));
        }
        push_str(&mut inner, crate::schema::schema_section_name());
        push_bytes(&mut inner, self.dst.as_slice());
        let mut out: Vec<u8> = Vec::new();
        push_op(&mut out, 0x00);
        proof {
            assert(inner@ =~= se_str(crate::schema::section_name_chars()) + payload);
            assert(Seq::<u8>::empty() + seq![0x00u8] =~= seq![0x00u8]);
        }
        push_lp_bytes(&mut out, inner.as_slice());
        proof {
            assert(out@ =~= se_custom_section(payload));
        }
        out
    }
}

/// Encodes a whole document back to payload bytes: the version header, then
/// each subsection in document order.
#[verifier::loop_isolation(false)]
pub fn encode_doc(doc: &Vec<WitSection>) -> (r: Vec<u8>)
    requires
        wf_doc(seq_view(doc@)),
    ensures
        r@ == se_payload(seq_view(doc@)),
{
    let ghost full = seq_view(doc@);
    let mut w = Writer::new();
    let mut i: usize = 0;
    proof {
        assert(full.skip(0) =~= full);
        assert(se_str(version_chars()) + Seq::<u8>::empty() =~= se_str(version_chars()));
    }
    while i < doc.len()
        invariant
            0 <= i <= doc@.len(),
            full.len() == doc@.len(),
            w@ == se_str(version_chars()) + se_section_list(full.take(i as int)),
        decreases doc@.len() - i,
    {
        let ghost w0 = w@;
        proof {
            assert(wf_section(full[i as int]));
            assert(full[i as int] == doc@[i as int]@);
        }
        match &doc[i] {
            WitSection::Type(v) => w.types(v),
            WitSection::Import(v) => w.imports(v),
            WitSection::Export(v) => w.exports(v),
            WitSection::Func(v) => w.funcs(v),
            WitSection::Implement(v) => w.implements(v),
        }
        i = i + 1;
        proof {
            assert(full[i - 1] == doc@[i - 1]@);
            lemma_se_section_list_snoc(full.take(i as int));
            assert(full.take(i as int).drop_last() =~= full.take(i - 1));
            assert(full.take(i as int).last() == full[i - 1]);
            assert(w@ =~= se_str(version_chars()) + se_section_list(full.take(i as int)));
        }
    }
    proof {
        assert(full.take(full.len() as int) =~= full);
    }
    w.into_payload()
}

/// Appending one subsection to a list appends its encoding.
proof fn lemma_se_section_list_snoc(svs: Seq<SectionView>)
    requires
        svs.len() > 0,
    ensures
        se_section_list(svs) == se_section_list(svs.drop_last()) + se_section(svs.last()),
    decreases svs.len(),
{
    if svs.len() == 1 {
        assert(svs.drop_last() =~= Seq::<SectionView>::empty());
        assert(svs.skip(1) =~= Seq::<SectionView>::empty());
        assert(se_section_list(svs.drop_last()) + se_section(svs.last()) =~= se_section(
            svs.last(),
        ));
        assert(se_section_list(svs) =~= se_section(svs[0]) + Seq::<u8>::empty());
    } else {
        lemma_se_section_list_snoc(svs.skip(1));
        assert(svs.skip(1).drop_last() =~= svs.drop_last().skip(1));
        assert(svs.skip(1).last() == svs.last());
        assert(svs.drop_last()[0] == svs[0]);
        assert(se_section_list(svs.drop_last()) == se_section(svs[0]) + se_section_list(
            svs.drop_last().skip(1),
        ));
        assert((se_section(svs[0]) + se_section_list(svs.skip(1).drop_last())) + se_section(
            svs.last(),
        ) =~= se_section(svs[0]) + (se_section_list(svs.skip(1).drop_last()) + se_section(
            svs.last(),
        )));
    }
}

} // verus!
