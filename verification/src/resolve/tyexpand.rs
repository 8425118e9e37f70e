//! Type-use expansion: forms a canonical key for every inline signature
//! (parameter names erased), de-duplicates keys across the module, and
//! synthesizes a type entry for each key seen for the first time.

use vstd::prelude::*;
use crate::ast::{Adapter, AdapterView, Type, TypeView, TextParam, TextParamView, TypeUse,
    TypeUseView, Import, ImportView, Func, FuncView, Implement, ImplementView, Implementation,
    ImplementationView, Index, IndexView};
use crate::decode::seq_view;
use crate::valtype::ValType;

verus! {

/// One registered signature key with the type index it stands for.
pub struct TyKey {
    /// The parameter types, names erased.
    pub params: Vec<ValType>,
    /// The result types.
    pub results: Vec<ValType>,
    /// The index of the type entry this key denotes.
    pub idx: u32,
}

/// Specification-level mirror of `TyKey`.
pub struct TyKeyView {
    pub params: Seq<ValType>,
    pub results: Seq<ValType>,
    pub idx: u32,
}

impl View for TyKey {
    type V = TyKeyView;

    open spec fn view(&self) -> TyKeyView {
        TyKeyView { params: self.params@, results: self.results@, idx: self.idx }
    }
}

/// The canonical key of a signature: its parameter types with the names
/// erased, and its result types.
pub open spec fn sp_key(t: TypeView) -> (Seq<ValType>, Seq<ValType>) {
    (t.params.map_values(|p: TextParamView| p.ty), t.results)
}

/// Looks a key up in the table.
pub open spec fn sp_lookup(table: Seq<TyKeyView>, params: Seq<ValType>, results: Seq<ValType>) -> Option<
    u32,
>
    decreases table.len(),
{
    if table.len() == 0 {
        None
    } else if table[0].params == params && table[0].results == results {
        Some(table[0].idx)
    } else {
        sp_lookup(table.skip(1), params, results)
    }
}

/// Registers a type declaration: its key is recorded at the next index
/// unless already present; the running type count advances either way.
pub open spec fn sp_register_type(table: Seq<TyKeyView>, ntypes: int, t: TypeView) -> (
    Seq<TyKeyView>,
    int,
) {
    let (p, r) = sp_key(t);
    match sp_lookup(table, p, r) {
        Some(_) => (table, ntypes + 1),
        None => (table.push(TyKeyView { params: p, results: r, idx: ntypes as u32 }), ntypes + 1),
    }
}

/// The synthesized, nameless type entry for a key.
pub open spec fn sp_synth_type(params: Seq<ValType>, results: Seq<ValType>) -> TypeView {
    TypeView {
        name: None,
        params: params.map_values(|v: ValType| TextParamView { name: None, ty: v }),
        results,
    }
}

/// Expands one type use: an explicit index is left alone; an inline
/// signature is resolved through the table, synthesizing and registering a
/// fresh type entry on a miss.
pub open spec fn sp_expand_type_use(table: Seq<TyKeyView>, ntypes: int, tu: TypeUseView) -> (
    Seq<AdapterView>,
    TypeUseView,
    Seq<TyKeyView>,
    int,
) {
    if tu.index is Some {
        (Seq::empty(), tu, table, ntypes)
    } else {
        let (p, r) = sp_key(tu.ty);
        match sp_lookup(table, p, r) {
            Some(i) => (
                Seq::empty(),
                TypeUseView { index: Some(IndexView::Num(i)), ..tu },
                table,
                ntypes,
            ),
            None => (
                seq![AdapterView::Type(sp_synth_type(p, r))],
                TypeUseView { index: Some(IndexView::Num(ntypes as u32)), ..tu },
                table.push(TyKeyView { params: p, results: r, idx: ntypes as u32 }),
                ntypes + 1,
            ),
        }
    }
}

/// Expands one item.
pub open spec fn sp_expand(table: Seq<TyKeyView>, ntypes: int, item: AdapterView) -> (
    Seq<AdapterView>,
    AdapterView,
    Seq<TyKeyView>,
    int,
) {
    match item {
        AdapterView::Type(t) => {
            let (table1, n1) = sp_register_type(table, ntypes, t);
            (Seq::empty(), item, table1, n1)
        },
        AdapterView::Import(im) => {
            let (pre, tu, table1, n1) = sp_expand_type_use(table, ntypes, im.ty);
            (pre, AdapterView::Import(ImportView { ty: tu, ..im }), table1, n1)
        },
        AdapterView::Func(f) => {
            let (pre, tu, table1, n1) = sp_expand_type_use(table, ntypes, f.ty);
            (pre, AdapterView::Func(FuncView { ty: tu, ..f }), table1, n1)
        },
        AdapterView::Implement(im) => match im.implementation {
            ImplementationView::Inline { ty, instrs } => {
                let (pre, tu, table1, n1) = sp_expand_type_use(table, ntypes, ty);
                (
                    pre,
                    AdapterView::Implement(
                        ImplementView {
                            implementation: ImplementationView::Inline { ty: tu, instrs },
                            ..im
                        },
                    ),
                    table1,
                    n1,
                )
            },
            ImplementationView::ByIndex(_) => (Seq::empty(), item, table, ntypes),
        },
        AdapterView::Export(_) => (Seq::empty(), item, table, ntypes),
    }
}

/// The whole expansion pass, with synthesized entries inserted before the
/// item that needed them.
pub open spec fn sp_expand_all(table: Seq<TyKeyView>, ntypes: int, items: Seq<AdapterView>) -> (
    Seq<AdapterView>,
    Seq<TyKeyView>,
    int,
)
    decreases items.len(),
{
    if items.len() == 0 {
        (Seq::empty(), table, ntypes)
    } else {
        let (pre, it, table1, n1) = sp_expand(table, ntypes, items[0]);
        let (rest, table2, n2) = sp_expand_all(table1, n1, items.skip(1));
        (pre + seq![it] + rest, table2, n2)
    }
}

/// The type-use expander: the key table and the running count of type
/// entries.
pub struct Expander {
    types: Vec<TyKey>,
    ntypes: u32,
}

impl View for Expander {
    type V = (Seq<TyKeyView>, int);

    closed spec fn view(&self) -> (Seq<TyKeyView>, int) {
        (seq_view(self.types@), self.ntypes as int)
    }
}

/// Copies a list of value types.
fn copy_tys(vs: &Vec<ValType>) -> (r: Vec<ValType>)
    ensures
        r@ == vs@,
{
    let mut out: Vec<ValType> = Vec::new();
    let mut j: usize = 0;
    while j < vs.len()
        invariant
            0 <= j <= vs@.len(),
            out@ == vs@.take(j as int),
        decreases vs@.len() - j,
    {
        out.push(vs[j]);
        j = j + 1;
        proof {
            assert(out@ =~= vs@.take(j as int));
        }
    }
    proof {
        assert(vs@.take(vs@.len() as int) =~= vs@);
    }
    out
}

/// The parameter types of a signature, names erased.
pub fn key_params_pub(params: &Vec<TextParam>) -> (r: Vec<ValType>)
    ensures
        r@ == seq_view(params@).map_values(|p: TextParamView| p.ty),
{
    let mut out: Vec<ValType> = Vec::new();
    let mut j: usize = 0;
    let ghost goal = seq_view(params@).map_values(|p: TextParamView| p.ty);
    while j < params.len()
        invariant
            0 <= j <= params@.len(),
            goal.len() == params@.len(),
            goal == seq_view(params@).map_values(|p: TextParamView| p.ty),
            out@ == goal.take(j as int),
        decreases params@.len() - j,
    {
        out.push(params[j].ty);
        j = j + 1;
        proof {
            assert(goal[j - 1] == params@[j - 1]@.ty);
            assert(out@ =~= goal.take(j as int));
        }
    }
    proof {
        assert(goal.take(goal.len() as int) =~= goal);
    }
    out
}

/// The synthesized, nameless parameter list for a key.
fn synth_params(params: &Vec<ValType>) -> (r: Vec<TextParam>)
    ensures
        seq_view(r@) == params@.map_values(|v: ValType| TextParamView { name: None, ty: v }),
{
    let mut out: Vec<TextParam> = Vec::new();
    let mut j: usize = 0;
    let ghost goal = params@.map_values(|v: ValType| TextParamView { name: None, ty: v });
    while j < params.len()
        invariant
            0 <= j <= params@.len(),
            goal.len() == params@.len(),
            goal == params@.map_values(|v: ValType| TextParamView { name: None, ty: v }),
            seq_view(out@) == goal.take(j as int),
        decreases params@.len() - j,
    {
        let ghost prev = out@;
        out.push(TextParam { name: None, ty: params[j] });
        j = j + 1;
        proof {
            crate::decode::lemma_seq_view_push(prev, out@[out@.len() - 1]);
            assert(goal[j - 1] == (TextParamView { name: None, ty: params@[j - 1] }));
            assert(seq_view(out@) =~= goal.take(j as int));
        }
    }
    proof {
        assert(goal.take(goal.len() as int) =~= goal);
    }
    out
}

impl Expander {
    /// A fresh expander with an empty table.
    pub fn new() -> (r: Expander)
        ensures
            r@ == (Seq::<TyKeyView>::empty(), 0int),
    {
        let r = Expander { types: Vec::new(), ntypes: 0 };
        proof {
            assert(r@.0 =~= Seq::<TyKeyView>::empty());
        }
        r
    }

    /// Looks a key up in the table.
    #[verifier::loop_isolation(false)]
    fn lookup(&self, params: &Vec<ValType>, results: &Vec<ValType>) -> (r: Option<u32>)
        ensures
            r == sp_lookup(self@.0, params@, results@),
    {
        let ghost full = self@.0;
        let mut j: usize = 0;
        proof {
            assert(full.skip(0) =~= full);
        }
        while j < self.types.len()
            invariant
                0 <= j <= self.types@.len(),
                sp_lookup(full, params@, results@) == sp_lookup(
                    full.skip(j as int),
                    params@,
                    results@,
                ),
            decreases self.types@.len() - j,
        {
            let ghost rem = full.skip(j as int);
            proof {
                assert(rem[0] == full[j as int]);
                assert(full[j as int] == self.types@[j as int]@);
                assert(rem.skip(1) =~= full.skip(j as int + 1));
            }
            let k = &self.types[j];
            if crate::valtype::valtypes_eq(&k.params, params) && crate::valtype::valtypes_eq(
                &k.results,
                results,
            ) {
                return Some(k.idx);
            }
            j = j + 1;
        }
        proof {
            assert(full.skip(full.len() as int) =~= Seq::<TyKeyView>::empty());
        }
        None
    }

    /// Expands one item, returning the type entries to insert before it and
    /// the item afterwards.
    pub fn expand(&mut self, item: Adapter) -> (r: (Vec<Adapter>, Adapter))
        requires
            old(self)@.1 < 0x8000_0000,
        ensures
            ({
                let (pre, it, table, n) = sp_expand(old(self)@.0, old(self)@.1, item@);
                seq_view(r.0@) == pre && r.1@ == it && final(self)@.0 == table && final(self)@.1
                    == n
            }),
    {
        let mut pre: Vec<Adapter> = Vec::new();
        match item {
            Adapter::Type(t) => {
                let p = key_params_pub(&t.params);
                let rs = copy_tys(&t.results);
                match self.lookup(&p, &rs) {
                    Some(_) => {},
                    None => {
                        let ghost tbl0 = self.types@;
                        let nt = self.ntypes;
                        self.types.push(TyKey { params: p, results: rs, idx: nt });
                        proof {
                            crate::decode::lemma_seq_view_push(
                                tbl0,
                                self.types@[self.types@.len() - 1],
                            );
                        }
                    },
                }
                self.ntypes = self.ntypes + 1;
                proof {
                    assert(seq_view(pre@) =~= Seq::<AdapterView>::empty());
                }
                (pre, Adapter::Type(t))
            },
            Adapter::Import(im) => {
                let Import { span, id, module, name, ty } = im;
                let ty2 = self.expand_type_use(&mut pre, ty);
                (pre, Adapter::Import(Import { span, id, module, name, ty: ty2 }))
            },
            Adapter::Func(f) => {
                let Func { span, name, export, ty, kind } = f;
                let ty2 = self.expand_type_use(&mut pre, ty);
                (pre, Adapter::Func(Func { span, name, export, ty: ty2, kind }))
            },
            Adapter::Implement(im) => {
                match im.implementation {
                    Implementation::Inline { ty, instrs } => {
                        let ty2 = self.expand_type_use(&mut pre, ty);
                        (
                            pre,
                            Adapter::Implement(
                                Implement {
                                    span: im.span,
                                    implemented: im.implemented,
                                    implementation: Implementation::Inline {
                                        ty: ty2,
                                        instrs,
                                    },
                                },
                            ),
                        )
                    },
                    Implementation::ByIndex(i) => {
                        proof {
                            assert(seq_view(pre@) =~= Seq::<AdapterView>::empty());
                        }
                        (
                            pre,
                            Adapter::Implement(
                                Implement {
                                    span: im.span,
                                    implemented: im.implemented,
                                    implementation: Implementation::ByIndex(i),
                                },
                            ),
                        )
                    },
                }
            },
            Adapter::Export(e) => {
                proof {
                    assert(seq_view(pre@) =~= Seq::<AdapterView>::empty());
                }
                (pre, Adapter::Export(e))
            },
        }
    }

    /// Expands one type use, pushing a synthesized type entry when its key
    /// is new.
    fn expand_type_use(&mut self, pre: &mut Vec<Adapter>, tu: TypeUse) -> (r: TypeUse)
        requires
            old(self)@.1 < 0x8000_0000,
        ensures
            ({
                let (p, tu2, table, n) = sp_expand_type_use(old(self)@.0, old(self)@.1, tu@);
                seq_view(final(pre)@) == seq_view(old(pre)@) + p && r@ == tu2 && final(self)@.0
                    == table && final(self)@.1 == n
            }),
    {
        if tu.index.is_some() {
            proof {
                assert(seq_view(pre@) =~= seq_view(pre@) + Seq::<AdapterView>::empty());
            }
            return tu;
        }
        let TypeUse { index_span, index: _, ty } = tu;
        let p = key_params_pub(&ty.params);
        let rs = copy_tys(&ty.results);
        match self.lookup(&p, &rs) {
            Some(i) => {
                proof {
                    assert(seq_view(pre@) =~= seq_view(pre@) + Seq::<AdapterView>::empty());
                }
                TypeUse { index_span, index: Some(Index::Num(i)), ty }
            },
            None => {
                let nt = self.ntypes;
                let synth = Type { name: None, params: synth_params(&p), results: copy_tys(&rs) };
                let ghost pre0 = seq_view(old(pre)@);
                let ghost prev0 = pre@;
                pre.push(Adapter::Type(synth));
                let ghost tbl0 = self.types@;
                self.types.push(TyKey { params: p, results: rs, idx: nt });
                self.ntypes = self.ntypes + 1;
                proof {
                    crate::decode::lemma_seq_view_push(prev0, pre@[pre@.len() - 1]);
                    crate::decode::lemma_seq_view_push(tbl0, self.types@[self.types@.len() - 1]);
                    assert(seq_view(pre@) =~= pre0 + seq![
                        AdapterView::Type(
                            sp_synth_type(
                                sp_key(tu@.ty).0,
                                sp_key(tu@.ty).1,
                            ),
                        ),
                    ]);
                }
                TypeUse { index_span, index: Some(Index::Num(nt)), ty }
            },
        }
    }
}

} // verus!
