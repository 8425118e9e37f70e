//! Lowered directives to binary: gathers the resolved items by kind and
//! emits the whole custom section through the writer, in the fixed
//! subsection order, empty subsections omitted.

use vstd::prelude::*;
use crate::ast::{Adapter, AdapterView, Index, IndexView, Instruction, InstrView, TypeView,
    TypeUseView, FuncKind, FuncKindView, Implementation, ImplementationView, Implemented,
    ImplementedView};
use crate::decode::seq_view;
use crate::resolve::names::param_tys;
use crate::valtype::ValType;
use crate::writer::{Writer, se_payload, se_section, se_custom_section, se_str, wf_section,
    se_section_body};
use crate::reader::SectionView;
use crate::schema::{version_chars, section_name_chars};

verus! {

/// Whether a reference has been resolved to a raw index.
pub open spec fn idx_resolved(i: IndexView) -> bool {
    i is Num
}

/// The raw index of a resolved reference.
pub open spec fn idx_num(i: IndexView) -> u32 {
    i->Num_0
}

/// Whether an instruction's references are all resolved.
pub open spec fn instr_resolved(i: InstrView) -> bool {
    match i {
        InstrView::ArgGet(x) => idx_resolved(x),
        InstrView::CallCore(x) => idx_resolved(x),
        InstrView::MemoryToString(m) => idx_resolved(m.mem),
        InstrView::StringToMemory(m) => idx_resolved(m.malloc) && idx_resolved(m.mem),
        InstrView::CallAdapter(x) => idx_resolved(x),
        InstrView::DeferCallCore(x) => idx_resolved(x),
        _ => true,
    }
}

/// Whether an item is in the fully lowered form the writer accepts: all
/// indices numeric, no inline sugar left.
pub open spec fn item_lowered(a: AdapterView) -> bool {
    match a {
        AdapterView::Type(_) => true,
        AdapterView::Import(i) => i.ty.index matches Some(x) && idx_resolved(x),
        AdapterView::Func(f) => {
            &&& f.export is None
            &&& f.ty.index matches Some(x) && idx_resolved(x)
            &&& f.kind matches FuncKindView::Inline { instrs } && forall|k: int|
                0 <= k < instrs.instrs.len() ==> instr_resolved(#[trigger] instrs.instrs[k])
        },
        AdapterView::Export(e) => idx_resolved(e.func),
        AdapterView::Implement(im) => {
            &&& im.implemented matches ImplementedView::ByIndex(x) && idx_resolved(x)
            &&& im.implementation matches ImplementationView::ByIndex(y) && idx_resolved(y)
        },
    }
}

/// Whether every item of a lowered module is in writable form.
pub open spec fn items_lowered(items: Seq<AdapterView>) -> bool {
    forall|k: int| 0 <= k < items.len() ==> item_lowered(#[trigger] items[k])
}

/// A lowered instruction as the binary writer sees it.
pub open spec fn conv_instr_bin(i: InstrView) -> crate::reader::Instruction {
    match i {
        InstrView::ArgGet(x) => crate::reader::Instruction::ArgGet(idx_num(x)),
        InstrView::CallCore(x) => crate::reader::Instruction::CallCore(idx_num(x)),
        InstrView::MemoryToString(m) => crate::reader::Instruction::MemoryToString(
            idx_num(m.mem),
        ),
        InstrView::StringToMemory(m) => crate::reader::Instruction::StringToMemory(
            crate::reader::StringToMemory { malloc: idx_num(m.malloc), mem: idx_num(m.mem) },
        ),
        InstrView::CallAdapter(x) => crate::reader::Instruction::CallAdapter(idx_num(x)),
        InstrView::DeferCallCore(x) => crate::reader::Instruction::DeferCallCore(idx_num(x)),
        InstrView::I32ToS8 => crate::reader::Instruction::I32ToS8,
        InstrView::I32ToS8X => crate::reader::Instruction::I32ToS8X,
        InstrView::I32ToU8 => crate::reader::Instruction::I32ToU8,
        InstrView::I32ToS16 => crate::reader::Instruction::I32ToS16,
        InstrView::I32ToS16X => crate::reader::Instruction::I32ToS16X,
        InstrView::I32ToU16 => crate::reader::Instruction::I32ToU16,
        InstrView::I32ToS32 => crate::reader::Instruction::I32ToS32,
        InstrView::I32ToU32 => crate::reader::Instruction::I32ToU32,
        InstrView::I32ToS64 => crate::reader::Instruction::I32ToS64,
        InstrView::I32ToU64 => crate::reader::Instruction::I32ToU64,
        InstrView::I64ToS8 => crate::reader::Instruction::I64ToS8,
        InstrView::I64ToS8X => crate::reader::Instruction::I64ToS8X,
        InstrView::I64ToU8 => crate::reader::Instruction::I64ToU8,
        InstrView::I64ToS16 => crate::reader::Instruction::I64ToS16,
        InstrView::I64ToS16X => crate::reader::Instruction::I64ToS16X,
        InstrView::I64ToU16 => crate::reader::Instruction::I64ToU16,
        InstrView::I64ToS32 => crate::reader::Instruction::I64ToS32,
        InstrView::I64ToS32X => crate::reader::Instruction::I64ToS32X,
        InstrView::I64ToU32 => crate::reader::Instruction::I64ToU32,
        InstrView::I64ToS64 => crate::reader::Instruction::I64ToS64,
        InstrView::I64ToU64 => crate::reader::Instruction::I64ToU64,
        InstrView::S8ToI32 => crate::reader::Instruction::S8ToI32,
        InstrView::U8ToI32 => crate::reader::Instruction::U8ToI32,
        InstrView::S16ToI32 => crate::reader::Instruction::S16ToI32,
        InstrView::U16ToI32 => crate::reader::Instruction::U16ToI32,
        InstrView::S32ToI32 => crate::reader::Instruction::S32ToI32,
        InstrView::U32ToI32 => crate::reader::Instruction::U32ToI32,
        InstrView::S64ToI32 => crate::reader::Instruction::S64ToI32,
        InstrView::S64ToI32X => crate::reader::Instruction::S64ToI32X,
        InstrView::U64ToI32 => crate::reader::Instruction::U64ToI32,
        InstrView::U64ToI32X => crate::reader::Instruction::U64ToI32X,
        InstrView::S8ToI64 => crate::reader::Instruction::S8ToI64,
        InstrView::U8ToI64 => crate::reader::Instruction::U8ToI64,
        InstrView::S16ToI64 => crate::reader::Instruction::S16ToI64,
        InstrView::U16ToI64 => crate::reader::Instruction::U16ToI64,
        InstrView::S32ToI64 => crate::reader::Instruction::S32ToI64,
        InstrView::U32ToI64 => crate::reader::Instruction::U32ToI64,
        InstrView::S64ToI64 => crate::reader::Instruction::S64ToI64,
        InstrView::U64ToI64 => crate::reader::Instruction::U64ToI64,
    }
}

/// A lowered type declaration as the binary writer sees it.
pub open spec fn conv_type_bin(t: TypeView) -> crate::reader::TypeView {
    crate::reader::TypeView { params: param_tys(t.params), results: t.results }
}

/// The items of each subsection that a lowered module yields, in the fixed
/// order: types, imports, functions, exports, implements.
pub open spec fn gather(items: Seq<AdapterView>) -> (
    Seq<crate::reader::TypeView>,
    Seq<crate::reader::ImportView>,
    Seq<crate::reader::FuncView>,
    Seq<crate::reader::ExportView>,
    Seq<crate::reader::Implement>,
)
    decreases items.len(),
{
    if items.len() == 0 {
        (Seq::empty(), Seq::empty(), Seq::empty(), Seq::empty(), Seq::empty())
    } else {
        let (ts, is_, fs, es, ms) = gather(items.drop_last());
        match items.last() {
            AdapterView::Type(t) => (ts.push(conv_type_bin(t)), is_, fs, es, ms),
            AdapterView::Import(i) => (
                ts,
                is_.push(
                    crate::reader::ImportView {
                        module: i.module,
                        name: i.name,
                        ty: idx_num(i.ty.index->0),
                    },
                ),
                fs,
                es,
                ms,
            ),
            AdapterView::Func(f) => (
                ts,
                is_,
                fs.push(
                    crate::reader::FuncView {
                        ty: idx_num(f.ty.index->0),
                        instrs: (f.kind->Inline_instrs).instrs.map_values(
                            |i: InstrView| conv_instr_bin(i),
                        ),
                    },
                ),
                es,
                ms,
            ),
            AdapterView::Export(e) => (
                ts,
                is_,
                fs,
                es.push(crate::reader::ExportView { func: idx_num(e.func), name: e.name }),
                ms,
            ),
            AdapterView::Implement(im) => (
                ts,
                is_,
                fs,
                es,
                ms.push(
                    crate::reader::Implement {
                        core_func: idx_num(im.implemented->ByIndex_0),
                        adapter_func: idx_num(im.implementation->ByIndex_0),
                    },
                ),
            ),
        }
    }
}

/// The payload a lowered module encodes to: the version header, then each
/// nonempty subsection in the fixed order.
pub open spec fn append_payload(items: Seq<AdapterView>) -> Seq<u8> {
    let (ts, is_, fs, es, ms) = gather(items);
    se_str(version_chars()) + se_section(SectionView::Types(ts)) + se_section(
        SectionView::Imports(is_),
    ) + se_section(SectionView::Funcs(fs)) + se_section(SectionView::Exports(es)) + se_section(
        SectionView::Implements(ms),
    )
}

/// The bytes `append` adds: nothing for a module with no directives, the
/// whole custom section otherwise.
pub open spec fn append_spec(items: Seq<AdapterView>) -> Seq<u8> {
    if items.len() == 0 {
        Seq::empty()
    } else {
        se_custom_section(append_payload(items))
    }
}

/// Whether the gathered subsections are all within the writer's bounds.
pub open spec fn append_wf(items: Seq<AdapterView>) -> bool {
    let (ts, is_, fs, es, ms) = gather(items);
    &&& wf_section(SectionView::Types(ts))
    &&& wf_section(SectionView::Imports(is_))
    &&& wf_section(SectionView::Funcs(fs))
    &&& wf_section(SectionView::Exports(es))
    &&& wf_section(SectionView::Implements(ms))
    &&& se_str(section_name_chars()).len() + append_payload(items).len() <= 0xffff_ffff
}

/// A lowered instruction, converted for the binary writer.
fn instr_to_binary(i: &Instruction) -> (r: crate::reader::Instruction)
    requires
        instr_resolved(i@),
    ensures
        r == conv_instr_bin(i@),
{
    match i {
        Instruction::ArgGet(Index::Num(n)) => crate::reader::Instruction::ArgGet(*n),
        Instruction::CallCore(Index::Num(n)) => crate::reader::Instruction::CallCore(*n),
        Instruction::MemoryToString(m) => match &m.mem {
            Index::Num(n) => crate::reader::Instruction::MemoryToString(*n),
            Index::Id(_) => crate::reader::Instruction::MemoryToString(0),
        },
        Instruction::StringToMemory(m) => match (&m.malloc, &m.mem) {
            (Index::Num(a), Index::Num(b)) => crate::reader::Instruction::StringToMemory(
                crate::reader::StringToMemory { malloc: *a, mem: *b },
            ),
            _ => crate::reader::Instruction::StringToMemory(
                crate::reader::StringToMemory { malloc: 0, mem: 0 },
            ),
        },
        Instruction::CallAdapter(Index::Num(n)) => crate::reader::Instruction::CallAdapter(*n),
        Instruction::DeferCallCore(Index::Num(n)) => crate::reader::Instruction::DeferCallCore(
            *n,
        ),
        Instruction::I32ToS8 => crate::reader::Instruction::I32ToS8,
        Instruction::I32ToS8X => crate::reader::Instruction::I32ToS8X,
        Instruction::I32ToU8 => crate::reader::Instruction::I32ToU8,
        Instruction::I32ToS16 => crate::reader::Instruction::I32ToS16,
        Instruction::I32ToS16X => crate::reader::Instruction::I32ToS16X,
        Instruction::I32ToU16 => crate::reader::Instruction::I32ToU16,
        Instruction::I32ToS32 => crate::reader::Instruction::I32ToS32,
        Instruction::I32ToU32 => crate::reader::Instruction::I32ToU32,
        Instruction::I32ToS64 => crate::reader::Instruction::I32ToS64,
        Instruction::I32ToU64 => crate::reader::Instruction::I32ToU64,
        Instruction::I64ToS8 => crate::reader::Instruction::I64ToS8,
        Instruction::I64ToS8X => crate::reader::Instruction::I64ToS8X,
        Instruction::I64ToU8 => crate::reader::Instruction::I64ToU8,
        Instruction::I64ToS16 => crate::reader::Instruction::I64ToS16,
        Instruction::I64ToS16X => crate::reader::Instruction::I64ToS16X,
        Instruction::I64ToU16 => crate::reader::Instruction::I64ToU16,
        Instruction::I64ToS32 => crate::reader::Instruction::I64ToS32,
        Instruction::I64ToS32X => crate::reader::Instruction::I64ToS32X,
        Instruction::I64ToU32 => crate::reader::Instruction::I64ToU32,
        Instruction::I64ToS64 => crate::reader::Instruction::I64ToS64,
        Instruction::I64ToU64 => crate::reader::Instruction::I64ToU64,
        Instruction::S8ToI32 => crate::reader::Instruction::S8ToI32,
        Instruction::U8ToI32 => crate::reader::Instruction::U8ToI32,
        Instruction::S16ToI32 => crate::reader::Instruction::S16ToI32,
        Instruction::U16ToI32 => crate::reader::Instruction::U16ToI32,
        Instruction::S32ToI32 => crate::reader::Instruction::S32ToI32,
        Instruction::U32ToI32 => crate::reader::Instruction::U32ToI32,
        Instruction::S64ToI32 => crate::reader::Instruction::S64ToI32,
        Instruction::S64ToI32X => crate::reader::Instruction::S64ToI32X,
        Instruction::U64ToI32 => crate::reader::Instruction::U64ToI32,
        Instruction::U64ToI32X => crate::reader::Instruction::U64ToI32X,
        Instruction::S8ToI64 => crate::reader::Instruction::S8ToI64,
        Instruction::U8ToI64 => crate::reader::Instruction::U8ToI64,
        Instruction::S16ToI64 => crate::reader::Instruction::S16ToI64,
        Instruction::U16ToI64 => crate::reader::Instruction::U16ToI64,
        Instruction::S32ToI64 => crate::reader::Instruction::S32ToI64,
        Instruction::U32ToI64 => crate::reader::Instruction::U32ToI64,
        Instruction::S64ToI64 => crate::reader::Instruction::S64ToI64,
        Instruction::U64ToI64 => crate::reader::Instruction::U64ToI64,
        _ => crate::reader::Instruction::ArgGet(0),
    }
}

/// Appends the custom section a lowered module encodes to onto `wasm`; a
/// module with no directives appends nothing.
#[verifier::loop_isolation(false)]
#[verifier::rlimit(100)]
pub fn append(adapters: Vec<Adapter>, wasm: &mut Vec<u8>)
    requires
        items_lowered(seq_view(adapters@)),
        append_wf(seq_view(adapters@)),
    ensures
        final(wasm)@ == old(wasm)@ + append_spec(seq_view(adapters@)),
{
    let ghost full = seq_view(adapters@);
    if adapters.is_empty() {
        proof {
            assert(final(wasm)@ =~= old(wasm)@ + append_spec(full));
        }
        return;
    }
    let mut ts: Vec<crate::reader::Type> = Vec::new();
    let mut is_: Vec<crate::reader::Import> = Vec::new();
    let mut fs: Vec<crate::reader::Func> = Vec::new();
    let mut es: Vec<crate::reader::Export> = Vec::new();
    let mut ms: Vec<crate::reader::Implement> = Vec::new();
    let mut src = adapters;
    let mut j: usize = 0;
    let n = src.len();
    proof {
        assert(full.take(0) =~= Seq::<AdapterView>::empty());
        assert(seq_view(ts@) =~= gather(full.take(0)).0);
        assert(seq_view(is_@) =~= gather(full.take(0)).1);
        assert(seq_view(fs@) =~= gather(full.take(0)).2);
        assert(seq_view(es@) =~= gather(full.take(0)).3);
        assert(ms@ =~= gather(full.take(0)).4);
    }
    while j < n
        invariant
            0 <= j <= n,
            n == full.len(),
            seq_view(src@) == full.skip(j as int),
            seq_view(ts@) == gather(full.take(j as int)).0,
            seq_view(is_@) == gather(full.take(j as int)).1,
            seq_view(fs@) == gather(full.take(j as int)).2,
            seq_view(es@) == gather(full.take(j as int)).3,
            ms@ == gather(full.take(j as int)).4,
        decreases n - j,
    {
        let ghost srcv0 = src@;
        let item = src.remove(0);
        proof {
            assert(seq_view(srcv0)[0] == srcv0[0]@);
            assert(item@ == full[j as int]);
            assert forall|k: int| 0 <= k < src@.len() implies seq_view(src@)[k] == full.skip(
                j as int + 1,
            )[k] by {
                assert(src@[k] == srcv0[k + 1]);
                assert(seq_view(srcv0)[k + 1] == srcv0[k + 1]@);
            }
            assert(seq_view(src@) =~= full.skip(j as int + 1));
            assert(item_lowered(item@));
            assert(full.take(j as int + 1).drop_last() =~= full.take(j as int));
            assert(full.take(j as int + 1).last() == full[j as int]);
        }
        match item {
            Adapter::Type(t) => {
                let ghost prev = ts@;
                ts.push(
                    crate::reader::Type {
                        params: crate::resolve::tyexpand::key_params_pub(&t.params),
                        results: t.results,
                    },
                );
                proof {
                    crate::decode::lemma_seq_view_push(prev, ts@[ts@.len() - 1]);
                    assert(seq_view(ts@) =~= gather(full.take(j as int + 1)).0);
                }
            },
            Adapter::Import(i) => {
                let ty = match &i.ty.index {
                    Some(Index::Num(x)) => *x,
                    _ => 0,
                };
                let ghost prev = is_@;
                is_.push(crate::reader::Import { module: i.module, name: i.name, ty });
                proof {
                    crate::decode::lemma_seq_view_push(prev, is_@[is_@.len() - 1]);
                    assert(seq_view(is_@) =~= gather(full.take(j as int + 1)).1);
                }
            },
            Adapter::Func(f) => {
                let ghost fv = f@;
                let ty = match &f.ty.index {
                    Some(Index::Num(x)) => *x,
                    _ => 0,
                };
                let instr_vec = match f.kind {
                    FuncKind::Inline { instrs } => instrs.instrs,
                    FuncKind::Import { .. } => Vec::new(),
                };
                let ghost goal = seq_view(instr_vec@).map_values(
                    |iv: InstrView| conv_instr_bin(iv),
                );
                let mut bins: Vec<crate::reader::Instruction> = Vec::new();
                let mut k: usize = 0;
                proof {
                    assert(bins@ =~= goal.take(0));
                    assert(item@ == AdapterView::Func(fv));
                    assert(item_lowered(item@));
                    assert(fv.kind->Inline_instrs.instrs == seq_view(instr_vec@));
                    assert(forall|x: int|
                        0 <= x < instr_vec@.len() ==> instr_resolved(
                            #[trigger] seq_view(instr_vec@)[x],
                        ));
                }
                while k < instr_vec.len()
                    invariant
                        0 <= k <= instr_vec@.len(),
                        goal.len() == instr_vec@.len(),
                        goal == seq_view(instr_vec@).map_values(
                            |iv: InstrView| conv_instr_bin(iv),
                        ),
                        forall|x: int|
                            0 <= x < instr_vec@.len() ==> instr_resolved(
                                #[trigger] seq_view(instr_vec@)[x],
                            ),
                        bins@ == goal.take(k as int),
                    decreases instr_vec@.len() - k,
                {
                    proof {
                        assert(seq_view(instr_vec@)[k as int] == instr_vec@[k as int]@);
                    }
                    bins.push(instr_to_binary(&instr_vec[k]));
                    k = k + 1;
                    proof {
                        assert(goal[k - 1] == conv_instr_bin(instr_vec@[k - 1]@));
                        assert(bins@ =~= goal.take(k as int));
                    }
                }
                proof {
                    assert(goal.take(goal.len() as int) =~= goal);
                }
                let ghost prev = fs@;
                fs.push(crate::reader::Func { ty, instrs: bins });
                proof {
                    crate::decode::lemma_seq_view_push(prev, fs@[fs@.len() - 1]);
                    assert(seq_view(fs@) =~= gather(full.take(j as int + 1)).2);
                }
            },
            Adapter::Export(e) => {
                let func = match &e.func {
                    Index::Num(x) => *x,
                    _ => 0,
                };
                let ghost prev = es@;
                es.push(crate::reader::Export { func, name: e.name });
                proof {
                    crate::decode::lemma_seq_view_push(prev, es@[es@.len() - 1]);
                    assert(seq_view(es@) =~= gather(full.take(j as int + 1)).3);
                }
            },
            Adapter::Implement(im) => {
                let core_func = match &im.implemented {
                    Implemented::ByIndex(Index::Num(x)) => *x,
                    _ => 0,
                };
                let adapter_func = match &im.implementation {
                    Implementation::ByIndex(Index::Num(x)) => *x,
                    _ => 0,
                };
                ms.push(crate::reader::Implement { core_func, adapter_func });
                proof {
                    assert(ms@ =~= gather(full.take(j as int + 1)).4);
                }
            },
        }
        j = j + 1;
    }
    proof {
        assert(full.take(n as int) =~= full);
    }
    let mut w = Writer::new();
    w.types(&ts);
    w.imports(&is_);
    w.funcs(&fs);
    w.exports(&es);
    w.implements(&ms);
    proof {
        assert(w@ =~= append_payload(full));
    }
    let cs = w.into_custom_section();
    crate::writer::push_bytes(wasm, cs.as_slice());
    proof {
        assert(final(wasm)@ =~= old(wasm)@ + append_spec(full));
    }
}

} // verus!
