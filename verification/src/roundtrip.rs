//! The codec round-trip laws: decoding what the writer emits yields the
//! document back, and a canonically-encoded payload re-encodes to the same
//! bytes.

use vstd::prelude::*;
use vstd::utf8::{encode_utf8, encode_utf8_valid_utf8, encode_utf8_decode_utf8};
use crate::leb::{uleb_encode, lemma_uleb_ok_round_trip, lemma_uleb_encode_len};
use crate::reader::{
    St, sd_u8, sd_u32, sd_bytes, sd_str, sd_valtype, sd_valtypes, sd_type, sd_import, sd_export,
    sd_implement, sd_instr, sd_instrs, sd_func, sd_types, sd_imports, sd_exports, sd_funcs,
    sd_implements, sd_section_header, sd_section, sd_sections, sd_new, sd_payload, TypeView,
    ImportView, ExportView, FuncView, Implement, Instruction, SectionView, conv_instr,
};
use crate::writer::{
    se_u32, se_lp, se_str, se_valtype_list, se_type, se_import, se_export, se_implement, se_instr,
    se_instr_list, se_func_body, se_func, se_type_list, se_import_list, se_export_list,
    se_func_list, se_implement_list, se_section_body, se_section, se_section_list, se_payload,
    wf_name, wf_type, wf_import, wf_export, wf_func, wf_section, wf_doc, section_id, section_len,
    instr_opcode,
};
use crate::valtype::{ValType, valtype_byte, valtype_of_byte};
use crate::error::{ErrView, KindView};
use crate::schema::{version_chars, lemma_section_name_len};

verus! {

/// Reading a 32-bit integer from its minimal encoding yields it back and
/// consumes exactly the encoding.
pub proof fn rt_u32(n: u32, rest: Seq<u8>, base: int)
    ensures
        sd_u32(St { s: se_u32(n) + rest, base }) == Ok::<(u32, St), ErrView>(
            (n, St { s: rest, base: base + se_u32(n).len() }),
        ),
{
    lemma_uleb_ok_round_trip(n as nat, rest);
    let enc = se_u32(n);
    let s = enc + rest;
    assert(s.skip(enc.len() as int) =~= rest);
}

/// Reading a length-prefixed run of bytes from its encoding yields it back.
pub proof fn rt_lp(b: Seq<u8>, rest: Seq<u8>, base: int)
    requires
        b.len() <= 0xffff_ffff,
    ensures
        sd_bytes(St { s: se_lp(b) + rest, base }) == Ok::<(Seq<u8>, St), ErrView>(
            (b, St { s: rest, base: base + se_lp(b).len() }),
        ),
{
    let n = b.len() as u32;
    let enc = se_u32(n);
    assert(se_lp(b) + rest =~= enc + (b + rest));
    rt_u32(n, b + rest, base);
    let st1 = St { s: b + rest, base: base + enc.len() };
    assert((b + rest).take(n as int) =~= b);
    assert((b + rest).skip(n as int) =~= rest);
}

/// Reading a length-prefixed string from its encoding yields it back.
pub proof fn rt_str(t: Seq<char>, rest: Seq<u8>, base: int)
    requires
        wf_name(t),
    ensures
        sd_str(St { s: se_str(t) + rest, base }) == Ok::<(Seq<char>, St), ErrView>(
            (t, St { s: rest, base: base + se_str(t).len() }),
        ),
{
    rt_lp(encode_utf8(t), rest, base);
    encode_utf8_valid_utf8(t);
    encode_utf8_decode_utf8(t);
}

/// Reading one value type from its byte yields it back.
pub proof fn rt_valtype(v: ValType, rest: Seq<u8>, base: int)
    ensures
        sd_valtype(St { s: seq![valtype_byte(v)] + rest, base }) == Ok::<(ValType, St), ErrView>(
            (v, St { s: rest, base: base + 1 }),
        ),
{
    let s = seq![valtype_byte(v)] + rest;
    assert(s[0] == valtype_byte(v));
    assert(s.skip(1) =~= rest);
}

/// Reading a list of value types from its encoding yields it back.
pub proof fn rt_valtype_list(vs: Seq<ValType>, rest: Seq<u8>, base: int)
    ensures
        sd_valtypes(St { s: se_valtype_list(vs) + rest, base }, vs.len() as nat) == Ok::<
            (Seq<ValType>, St),
            ErrView,
        >((vs, St { s: rest, base: base + se_valtype_list(vs).len() })),
    decreases vs.len(),
{
    if vs.len() == 0 {
        assert(se_valtype_list(vs) + rest =~= rest);
        assert(Seq::<ValType>::empty() =~= vs);
    } else {
        let tail = vs.skip(1);
        assert(se_valtype_list(vs) + rest =~= seq![valtype_byte(vs[0])] + (se_valtype_list(tail)
            + rest));
        rt_valtype(vs[0], se_valtype_list(tail) + rest, base);
        rt_valtype_list(tail, rest, base + 1);
        assert(seq![vs[0]] + tail =~= vs);
    }
}

/// Reading a type signature from its encoding yields it back.
pub proof fn rt_type(t: TypeView, rest: Seq<u8>, base: int)
    requires
        wf_type(t),
    ensures
        sd_type(St { s: se_type(t) + rest, base }) == Ok::<(TypeView, St), ErrView>(
            (t, St { s: rest, base: base + se_type(t).len() }),
        ),
{
    let np = t.params.len() as u32;
    let nr = t.results.len() as u32;
    let s2 = se_valtype_list(t.params) + (se_u32(nr) + (se_valtype_list(t.results) + rest));
    assert(se_type(t) + rest =~= se_u32(np) + s2);
    rt_u32(np, s2, base);
    let b1 = base + se_u32(np).len();
    assert(s2 =~= se_valtype_list(t.params) + (se_u32(nr) + (se_valtype_list(t.results) + rest)));
    rt_valtype_list(t.params, se_u32(nr) + (se_valtype_list(t.results) + rest), b1);
    let b2 = b1 + se_valtype_list(t.params).len();
    rt_u32(nr, se_valtype_list(t.results) + rest, b2);
    let b3 = b2 + se_u32(nr).len();
    rt_valtype_list(t.results, rest, b3);
}

/// Reading an import from its encoding yields it back.
pub proof fn rt_import(t: ImportView, rest: Seq<u8>, base: int)
    requires
        wf_import(t),
    ensures
        sd_import(St { s: se_import(t) + rest, base }) == Ok::<(ImportView, St), ErrView>(
            (t, St { s: rest, base: base + se_import(t).len() }),
        ),
{
    let s2 = se_str(t.name) + (se_u32(t.ty) + rest);
    assert(se_import(t) + rest =~= se_str(t.module) + s2);
    rt_str(t.module, s2, base);
    let b1 = base + se_str(t.module).len();
    rt_str(t.name, se_u32(t.ty) + rest, b1);
    let b2 = b1 + se_str(t.name).len();
    rt_u32(t.ty, rest, b2);
}

/// Reading an export from its encoding yields it back.
pub proof fn rt_export(t: ExportView, rest: Seq<u8>, base: int)
    requires
        wf_export(t),
    ensures
        sd_export(St { s: se_export(t) + rest, base }) == Ok::<(ExportView, St), ErrView>(
            (t, St { s: rest, base: base + se_export(t).len() }),
        ),
{
    let s2 = se_str(t.name) + rest;
    assert(se_export(t) + rest =~= se_u32(t.func) + s2);
    rt_u32(t.func, s2, base);
    let b1 = base + se_u32(t.func).len();
    rt_str(t.name, rest, b1);
}

/// Reading an implement entry from its encoding yields it back.
pub proof fn rt_implement(t: Implement, rest: Seq<u8>, base: int)
    ensures
        sd_implement(St { s: se_implement(t) + rest, base }) == Ok::<(Implement, St), ErrView>(
            (t, St { s: rest, base: base + se_implement(t).len() }),
        ),
{
    let s2 = se_u32(t.adapter_func) + rest;
    assert(se_implement(t) + rest =~= se_u32(t.core_func) + s2);
    rt_u32(t.core_func, s2, base);
    let b1 = base + se_u32(t.core_func).len();
    rt_u32(t.adapter_func, rest, b1);
}

/// The conversion table inverts the opcode table on conversion opcodes.
pub proof fn lemma_conv_instr_inverse(i: Instruction)
    requires
        0x07 <= instr_opcode(i) <= 0x2d,
    ensures
        conv_instr(instr_opcode(i)) == i,
{
}

/// Reading one instruction from its encoding yields it back; the `end`
/// terminator is excluded, since the stream reader treats it specially.
pub proof fn rt_instr(i: Instruction, rest: Seq<u8>, base: int)
    requires
        i != Instruction::End,
    ensures
        sd_instr(St { s: se_instr(i) + rest, base }) == Ok::<(Instruction, St), ErrView>(
            (i, St { s: rest, base: base + se_instr(i).len() }),
        ),
{
    let op = instr_opcode(i);
    match i {
        Instruction::ArgGet(n) => {
            assert(se_instr(i) + rest =~= seq![op] + (se_u32(n) + rest));
            let s = seq![op] + (se_u32(n) + rest);
            assert(s[0] == op);
            assert(s.skip(1) =~= se_u32(n) + rest);
            rt_u32(n, rest, base + 1);
        },
        Instruction::CallCore(n) => {
            assert(se_instr(i) + rest =~= seq![op] + (se_u32(n) + rest));
            let s = seq![op] + (se_u32(n) + rest);
            assert(s[0] == op);
            assert(s.skip(1) =~= se_u32(n) + rest);
            rt_u32(n, rest, base + 1);
        },
        Instruction::MemoryToString(n) => {
            assert(se_instr(i) + rest =~= seq![op] + (se_u32(n) + rest));
            let s = seq![op] + (se_u32(n) + rest);
            assert(s[0] == op);
            assert(s.skip(1) =~= se_u32(n) + rest);
            rt_u32(n, rest, base + 1);
        },
        Instruction::CallAdapter(n) => {
            assert(se_instr(i) + rest =~= seq![op] + (se_u32(n) + rest));
            let s = seq![op] + (se_u32(n) + rest);
            assert(s[0] == op);
            assert(s.skip(1) =~= se_u32(n) + rest);
            rt_u32(n, rest, base + 1);
        },
        Instruction::DeferCallCore(n) => {
            assert(se_instr(i) + rest =~= seq![op] + (se_u32(n) + rest));
            let s = seq![op] + (se_u32(n) + rest);
            assert(s[0] == op);
            assert(s.skip(1) =~= se_u32(n) + rest);
            rt_u32(n, rest, base + 1);
        },
        Instruction::StringToMemory(p) => {
            let s2 = se_u32(p.malloc) + (se_u32(p.mem) + rest);
            assert(se_instr(i) + rest =~= seq![op] + s2);
            let s = seq![op] + s2;
            assert(s[0] == op);
            assert(s.skip(1) =~= s2);
            rt_u32(p.malloc, se_u32(p.mem) + rest, base + 1);
            rt_u32(p.mem, rest, base + 1 + se_u32(p.malloc).len());
        },
        _ => {
            assert(0x07 <= op <= 0x2d);
            lemma_conv_instr_inverse(i);
            let s = seq![op] + rest;
            assert(se_instr(i) + rest =~= s);
            assert(s[0] == op);
            assert(s.skip(1) =~= rest);
        },
    }
}

/// No instruction in the list is the terminator.
pub open spec fn no_end(is: Seq<Instruction>) -> bool {
    forall|i: int| 0 <= i < is.len() ==> is[i] != Instruction::End
}

/// Reading an instruction stream from its encoding, which ends with the
/// terminator, yields the list back.
pub proof fn rt_instr_list(is: Seq<Instruction>, base: int)
    requires
        no_end(is),
    ensures
        sd_instrs(St { s: se_instr_list(is), base }) == Ok::<Seq<Instruction>, ErrView>(is),
    decreases is.len(),
{
    if is.len() == 0 {
        let s = se_instr_list(is);
        assert(s == seq![0x02u8]);
        assert(s[0] == 0x02u8);
        assert(s.skip(1) =~= Seq::<u8>::empty());
        assert(sd_instr(St { s, base }) == Ok::<(Instruction, St), ErrView>(
            (Instruction::End, St { s: Seq::empty(), base: base + 1 }),
        ));
        assert(Seq::<Instruction>::empty() =~= is);
    } else {
        let head = is[0];
        let tail = is.skip(1);
        assert(head != Instruction::End);
        assert(se_instr_list(is) =~= se_instr(head) + se_instr_list(tail));
        rt_instr(head, se_instr_list(tail), base);
        rt_instr_list(tail, base + se_instr(head).len());
        assert(seq![head] + tail =~= is);
    }
}

/// Reading one function item from its encoding yields it back.
pub proof fn rt_func(f: FuncView, rest: Seq<u8>, base: int)
    requires
        wf_func(f),
        no_end(f.instrs),
    ensures
        sd_func(St { s: se_func(f) + rest, base }) == Ok::<(FuncView, St), ErrView>(
            (f, St { s: rest, base: base + se_func(f).len() }),
        ),
{
    let body = se_func_body(f);
    rt_lp(body, rest, base);
    let st1 = St { s: rest, base: base + se_lp(body).len() };
    let sub = St { s: body, base: st1.base - body.len() };
    assert(body =~= se_u32(f.ty) + se_instr_list(f.instrs));
    rt_u32(f.ty, se_instr_list(f.instrs), sub.base);
    rt_instr_list(f.instrs, sub.base + se_u32(f.ty).len());
}

/// Reading the items of a type subsection from their encoding yields them
/// back, with the cursor exhausted exactly at the end.
pub proof fn rt_type_items(ts: Seq<TypeView>, base: int)
    requires
        forall|i: int| 0 <= i < ts.len() ==> wf_type(#[trigger] ts[i]),
    ensures
        sd_types(St { s: se_type_list(ts), base }, ts.len() as nat) == Ok::<Seq<TypeView>, ErrView>(ts),
    decreases ts.len(),
{
    if ts.len() == 0 {
        assert(se_type_list(ts).len() == 0);
        assert(Seq::<TypeView>::empty() =~= ts);
    } else {
        let head = ts[0];
        let tail = ts.skip(1);
        assert(se_type_list(ts) =~= se_type(head) + se_type_list(tail));
        rt_type(head, se_type_list(tail), base);
        rt_type_items(tail, base + se_type(head).len());
        assert(seq![head] + tail =~= ts);
    }
}

/// As `rt_type_items`, for imports.
pub proof fn rt_import_items(ts: Seq<ImportView>, base: int)
    requires
        forall|i: int| 0 <= i < ts.len() ==> wf_import(#[trigger] ts[i]),
    ensures
        sd_imports(St { s: se_import_list(ts), base }, ts.len() as nat) == Ok::<
            Seq<ImportView>,
            ErrView,
        >(ts),
    decreases ts.len(),
{
    if ts.len() == 0 {
        assert(se_import_list(ts).len() == 0);
        assert(Seq::<ImportView>::empty() =~= ts);
    } else {
        let head = ts[0];
        let tail = ts.skip(1);
        assert(se_import_list(ts) =~= se_import(head) + se_import_list(tail));
        rt_import(head, se_import_list(tail), base);
        rt_import_items(tail, base + se_import(head).len());
        assert(seq![head] + tail =~= ts);
    }
}

/// As `rt_type_items`, for exports.
pub proof fn rt_export_items(ts: Seq<ExportView>, base: int)
    requires
        forall|i: int| 0 <= i < ts.len() ==> wf_export(#[trigger] ts[i]),
    ensures
        sd_exports(St { s: se_export_list(ts), base }, ts.len() as nat) == Ok::<
            Seq<ExportView>,
            ErrView,
        >(ts),
    decreases ts.len(),
{
    if ts.len() == 0 {
        assert(se_export_list(ts).len() == 0);
        assert(Seq::<ExportView>::empty() =~= ts);
    } else {
        let head = ts[0];
        let tail = ts.skip(1);
        assert(se_export_list(ts) =~= se_export(head) + se_export_list(tail));
        rt_export(head, se_export_list(tail), base);
        rt_export_items(tail, base + se_export(head).len());
        assert(seq![head] + tail =~= ts);
    }
}

/// As `rt_type_items`, for functions.
pub proof fn rt_func_items(ts: Seq<FuncView>, base: int)
    requires
        forall|i: int| 0 <= i < ts.len() ==> wf_func(#[trigger] ts[i]),
        forall|i: int| 0 <= i < ts.len() ==> no_end((#[trigger] ts[i]).instrs),
    ensures
        sd_funcs(St { s: se_func_list(ts), base }, ts.len() as nat) == Ok::<Seq<FuncView>, ErrView>(ts),
    decreases ts.len(),
{
    if ts.len() == 0 {
        assert(se_func_list(ts).len() == 0);
        assert(Seq::<FuncView>::empty() =~= ts);
    } else {
        let head = ts[0];
        let tail = ts.skip(1);
        assert(se_func_list(ts) =~= se_func(head) + se_func_list(tail));
        rt_func(head, se_func_list(tail), base);
        rt_func_items(tail, base + se_func(head).len());
        assert(seq![head] + tail =~= ts);
    }
}

/// As `rt_type_items`, for implement entries.
pub proof fn rt_implement_items(ts: Seq<Implement>, base: int)
    ensures
        sd_implements(St { s: se_implement_list(ts), base }, ts.len() as nat) == Ok::<
            Seq<Implement>,
            ErrView,
        >(ts),
    decreases ts.len(),
{
    if ts.len() == 0 {
        assert(se_implement_list(ts).len() == 0);
        assert(Seq::<Implement>::empty() =~= ts);
    } else {
        let head = ts[0];
        let tail = ts.skip(1);
        assert(se_implement_list(ts) =~= se_implement(head) + se_implement_list(tail));
        rt_implement(head, se_implement_list(tail), base);
        rt_implement_items(tail, base + se_implement(head).len());
        assert(seq![head] + tail =~= ts);
    }
}

/// Every function of the subsection, if it is a function subsection, has a
/// terminator-free body.
pub open spec fn section_no_end(sv: SectionView) -> bool {
    match sv {
        SectionView::Funcs(v) => forall|i: int| 0 <= i < v.len() ==> no_end(
            (#[trigger] v[i]).instrs,
        ),
        _ => true,
    }
}

/// Reading one nonempty subsection from its encoding yields it back.
pub proof fn rt_section(sv: SectionView, rest: Seq<u8>, base: int)
    requires
        wf_section(sv),
        section_no_end(sv),
        section_len(sv) > 0,
    ensures
        sd_section(St { s: se_section(sv) + rest, base }) == Ok::<(SectionView, St), ErrView>(
            (sv, St { s: rest, base: base + se_section(sv).len() }),
        ),
{
    let id = section_id(sv);
    let body = se_section_body(sv);
    let cnt = section_len(sv) as u32;
    let s = se_section(sv) + rest;
    assert(s =~= seq![id] + (se_lp(body) + rest));
    assert(s[0] == id);
    assert(s.skip(1) =~= se_lp(body) + rest);
    rt_lp(body, rest, base + 1);
    let st2 = St { s: rest, base: base + 1 + se_lp(body).len() };
    let sub = St { s: body, base: st2.base - body.len() };
    match sv {
        SectionView::Types(v) => {
            assert(body =~= se_u32(cnt) + se_type_list(v));
            rt_u32(cnt, se_type_list(v), sub.base);
            rt_type_items(v, sub.base + se_u32(cnt).len());
        },
        SectionView::Imports(v) => {
            assert(body =~= se_u32(cnt) + se_import_list(v));
            rt_u32(cnt, se_import_list(v), sub.base);
            rt_import_items(v, sub.base + se_u32(cnt).len());
        },
        SectionView::Funcs(v) => {
            assert(body =~= se_u32(cnt) + se_func_list(v));
            rt_u32(cnt, se_func_list(v), sub.base);
            rt_func_items(v, sub.base + se_u32(cnt).len());
        },
        SectionView::Exports(v) => {
            assert(body =~= se_u32(cnt) + se_export_list(v));
            rt_u32(cnt, se_export_list(v), sub.base);
            rt_export_items(v, sub.base + se_u32(cnt).len());
        },
        SectionView::Implements(v) => {
            assert(body =~= se_u32(cnt) + se_implement_list(v));
            rt_u32(cnt, se_implement_list(v), sub.base);
            rt_implement_items(v, sub.base + se_u32(cnt).len());
        },
    }
}

/// A document the round trip holds of: well-formed, with no empty
/// subsection (the writer omits those) and no stray terminator inside a
/// function body (the reader never produces one).
pub open spec fn rt_wf_doc(svs: Seq<SectionView>) -> bool {
    &&& wf_doc(svs)
    &&& forall|i: int| 0 <= i < svs.len() ==> section_len(#[trigger] svs[i]) > 0
    &&& forall|i: int| 0 <= i < svs.len() ==> section_no_end(#[trigger] svs[i])
}

/// Reading a list of subsections from their concatenated encodings yields
/// them back, consuming everything.
pub proof fn rt_section_list(svs: Seq<SectionView>, base: int)
    requires
        rt_wf_doc(svs),
    ensures
        sd_sections(St { s: se_section_list(svs), base }) == Ok::<Seq<SectionView>, ErrView>(svs),
    decreases svs.len(),
{
    if svs.len() == 0 {
        assert(se_section_list(svs).len() == 0);
        assert(Seq::<SectionView>::empty() =~= svs);
    } else {
        let head = svs[0];
        let tail = svs.skip(1);
        assert(se_section_list(svs) =~= se_section(head) + se_section_list(tail));
        rt_section(head, se_section_list(tail), base);
        assert(se_section(head).len() > 0);
        rt_section_list(tail, base + se_section(head).len());
        assert(seq![head] + tail =~= svs);
    }
}

/// Decoding what the writer encodes yields the document back: the
/// round-trip law of the codec pair.
pub proof fn theorem_decode_encode(svs: Seq<SectionView>, offset: int)
    requires
        rt_wf_doc(svs),
    ensures
        sd_payload(offset, se_payload(svs)) == Ok::<Seq<SectionView>, ErrView>(svs),
{
    lemma_section_name_len();
    let s = se_payload(svs);
    assert(s =~= se_str(version_chars()) + se_section_list(svs));
    rt_str(version_chars(), se_section_list(svs), offset);
    rt_section_list(svs, offset + se_str(version_chars()).len());
}

/// Every canonically encoded payload re-encodes to itself: decoding bytes
/// that some well-formed document encodes, then encoding the result, gives
/// the same bytes, byte for byte.
pub proof fn theorem_encode_decode(svs: Seq<SectionView>, offset: int, bytes: Seq<u8>)
    requires
        rt_wf_doc(svs),
        bytes == se_payload(svs),
    ensures
        sd_payload(offset, bytes) matches Ok(doc) && se_payload(doc) == bytes,
{
    theorem_decode_encode(svs, offset);
}

/// A payload whose leading string is not the schema version always fails
/// with `InvalidVersion` reported at offset zero, carrying the string
/// found.
pub proof fn theorem_version_mismatch(offset: int, bytes: Seq<u8>)
    requires
        sd_str(St { s: bytes, base: offset }) matches Ok(t) && t.0 != version_chars(),
    ensures
        sd_payload(offset, bytes) == Err::<Seq<SectionView>, ErrView>(
            ErrView {
                at: 0,
                kind: KindView::InvalidVersion(sd_str(St { s: bytes, base: offset })->Ok_0.0),
            },
        ),
{
}

/// Replacing the opcode byte of an instruction with any byte outside the
/// known opcode range makes decoding fail with `InvalidInstruction` at that
/// byte's offset.
pub proof fn theorem_unknown_opcode(s: Seq<u8>, base: int, b: u8)
    requires
        s.len() > 0,
        b > 0x2d,
    ensures
        sd_instr(St { s: s.update(0, b), base }) == Err::<(Instruction, St), ErrView>(
            ErrView { at: base, kind: KindView::InvalidInstruction(b) },
        ),
{
    assert(s.update(0, b)[0] == b);
}

/// A valid type subsection with extra bytes after its last item always
/// produces `TrailingBytes`, at the offset where the extra bytes begin.
pub proof fn theorem_trailing_bytes_types(ts: Seq<TypeView>, junk: Seq<u8>, base: int)
    requires
        forall|i: int| 0 <= i < ts.len() ==> wf_type(#[trigger] ts[i]),
        junk.len() > 0,
    ensures
        sd_types(St { s: se_type_list(ts) + junk, base }, ts.len() as nat) == Err::<Seq<TypeView>, ErrView>(
            ErrView { at: base + se_type_list(ts).len(), kind: KindView::TrailingBytes },
        ),
    decreases ts.len(),
{
    if ts.len() == 0 {
        assert(se_type_list(ts) + junk =~= junk);
    } else {
        let head = ts[0];
        let tail = ts.skip(1);
        assert(se_type_list(ts) + junk =~= se_type(head) + (se_type_list(tail) + junk));
        rt_type(head, se_type_list(tail) + junk, base);
        assert(seq![head] + tail =~= ts);
        theorem_trailing_bytes_types(tail, junk, base + se_type(head).len());
    }
}

/// A valid import subsection with extra bytes after its last item always
/// produces `TrailingBytes`, at the offset where the extra bytes begin.
pub proof fn theorem_trailing_bytes_imports(ts: Seq<ImportView>, junk: Seq<u8>, base: int)
    requires
        forall|i: int| 0 <= i < ts.len() ==> wf_import(#[trigger] ts[i]),
        junk.len() > 0,
    ensures
        sd_imports(St { s: se_import_list(ts) + junk, base }, ts.len() as nat) == Err::<Seq<ImportView>, ErrView>(
            ErrView { at: base + se_import_list(ts).len(), kind: KindView::TrailingBytes },
        ),
    decreases ts.len(),
{
    if ts.len() == 0 {
        assert(se_import_list(ts) + junk =~= junk);
    } else {
        let head = ts[0];
        let tail = ts.skip(1);
        assert(se_import_list(ts) + junk =~= se_import(head) + (se_import_list(tail) + junk));
        rt_import(head, se_import_list(tail) + junk, base);
        assert(seq![head] + tail =~= ts);
        theorem_trailing_bytes_imports(tail, junk, base + se_import(head).len());
    }
}

/// A valid export subsection with extra bytes after its last item always
/// produces `TrailingBytes`, at the offset where the extra bytes begin.
pub proof fn theorem_trailing_bytes_exports(ts: Seq<ExportView>, junk: Seq<u8>, base: int)
    requires
        forall|i: int| 0 <= i < ts.len() ==> wf_export(#[trigger] ts[i]),
        junk.len() > 0,
    ensures
        sd_exports(St { s: se_export_list(ts) + junk, base }, ts.len() as nat) == Err::<Seq<ExportView>, ErrView>(
            ErrView { at: base + se_export_list(ts).len(), kind: KindView::TrailingBytes },
        ),
    decreases ts.len(),
{
    if ts.len() == 0 {
        assert(se_export_list(ts) + junk =~= junk);
    } else {
        let head = ts[0];
        let tail = ts.skip(1);
        assert(se_export_list(ts) + junk =~= se_export(head) + (se_export_list(tail) + junk));
        rt_export(head, se_export_list(tail) + junk, base);
        assert(seq![head] + tail =~= ts);
        theorem_trailing_bytes_exports(tail, junk, base + se_export(head).len());
    }
}

/// A valid implement subsection with extra bytes after its last item always
/// produces `TrailingBytes`, at the offset where the extra bytes begin.
pub proof fn theorem_trailing_bytes_implements(ts: Seq<Implement>, junk: Seq<u8>, base: int)
    requires
        junk.len() > 0,
    ensures
        sd_implements(St { s: se_implement_list(ts) + junk, base }, ts.len() as nat) == Err::<Seq<Implement>, ErrView>(
            ErrView { at: base + se_implement_list(ts).len(), kind: KindView::TrailingBytes },
        ),
    decreases ts.len(),
{
    if ts.len() == 0 {
        assert(se_implement_list(ts) + junk =~= junk);
    } else {
        let head = ts[0];
        let tail = ts.skip(1);
        assert(se_implement_list(ts) + junk =~= se_implement(head) + (se_implement_list(tail) + junk));
        rt_implement(head, se_implement_list(tail) + junk, base);
        assert(seq![head] + tail =~= ts);
        theorem_trailing_bytes_implements(tail, junk, base + se_implement(head).len());
    }
}

/// A valid function subsection with extra bytes after its last item always
/// produces `TrailingBytes`, at the offset where the extra bytes begin.
pub proof fn theorem_trailing_bytes_funcs(ts: Seq<FuncView>, junk: Seq<u8>, base: int)
    requires
        forall|i: int| 0 <= i < ts.len() ==> wf_func(#[trigger] ts[i]),
        forall|i: int| 0 <= i < ts.len() ==> no_end((#[trigger] ts[i]).instrs),
        junk.len() > 0,
    ensures
        sd_funcs(St { s: se_func_list(ts) + junk, base }, ts.len() as nat) == Err::<
            Seq<FuncView>,
            ErrView,
        >(ErrView { at: base + se_func_list(ts).len(), kind: KindView::TrailingBytes }),
    decreases ts.len(),
{
    if ts.len() == 0 {
        assert(se_func_list(ts) + junk =~= junk);
    } else {
        let head = ts[0];
        let tail = ts.skip(1);
        assert(se_func_list(ts) + junk =~= se_func(head) + (se_func_list(tail) + junk));
        rt_func(head, se_func_list(tail) + junk, base);
        assert(seq![head] + tail =~= ts);
        theorem_trailing_bytes_funcs(tail, junk, base + se_func(head).len());
    }
}

} // verus!
