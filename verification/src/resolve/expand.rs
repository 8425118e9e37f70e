//! De-inlining: pulls sugared imports, inline exports and inline
//! implementations out into items of their own, keeping a running
//! adapter-function counter so the synthesized references point at the
//! right slots.

use vstd::prelude::*;
use vstd::string::StringExecFns;
use crate::ast::{Adapter, AdapterView, Import, ImportView, Export, ExportView, Func, FuncView,
    FuncKind, FuncKindView, Implement, ImplementView, Implemented, ImplementedView, Implementation,
    ImplementationView, Index, IndexView, CoreFuncImport, CoreFuncImportView};
use crate::decode::seq_view;
use crate::resolve::{LowerError, LErrView};

verus! {

/// What de-inlining an item in the first pass yields: the items to insert
/// before it, the item itself afterwards, and the advanced function
/// counter.
pub open spec fn sp_deinline_import(funcs: int, item: AdapterView) -> (
    Seq<AdapterView>,
    AdapterView,
    int,
) {
    match item {
        AdapterView::Func(f) => match f.kind {
            FuncKindView::Import { module, name } => {
                let imp = AdapterView::Import(
                    ImportView { span: f.span, id: f.name, module, name, ty: f.ty },
                );
                match f.export {
                    Some(e) => (
                        seq![
                            AdapterView::Export(
                                ExportView { name: e, func: IndexView::Num(funcs as u32) },
                            ),
                        ],
                        imp,
                        funcs + 1,
                    ),
                    None => (Seq::empty(), imp, funcs + 1),
                }
            },
            FuncKindView::Inline { .. } => (Seq::empty(), item, funcs),
        },
        AdapterView::Import(_) => (Seq::empty(), item, funcs + 1),
        _ => (Seq::empty(), item, funcs),
    }
}

/// The first de-inlining pass over a whole item list.
pub open spec fn sp_deinline_imports(funcs: int, items: Seq<AdapterView>) -> (
    Seq<AdapterView>,
    int,
)
    decreases items.len(),
{
    if items.len() == 0 {
        (Seq::empty(), funcs)
    } else {
        let (pre, it, f1) = sp_deinline_import(funcs, items[0]);
        let (rest, f2) = sp_deinline_imports(f1, items.skip(1));
        (pre + seq![it] + rest, f2)
    }
}

/// The message for an import listed twice in the core module.
pub open spec fn ambiguous_msg(module: Seq<char>, field: Seq<char>) -> Seq<char> {
    "import of `"@ + module + "` from `"@ + field
        + "` is ambiguous since it's listed twice in the core module"@
}

/// The message for an import missing from the core module.
pub open spec fn not_found_msg(module: Seq<char>, field: Seq<char>) -> Seq<char> {
    "import of `"@ + module + "` from `"@ + field + "` not found in core module"@
}

/// Finds the index of the unique core function import named
/// `(module, field)`; ambiguity and absence are errors reported at `at`.
pub open spec fn sp_find_func_index(
    core: Seq<CoreFuncImportView>,
    module: Seq<char>,
    field: Seq<char>,
    idx: int,
    found: Option<int>,
    at: int,
) -> Result<int, LErrView>
    decreases core.len(),
{
    if core.len() == 0 {
        match found {
            Some(i) => Ok(i),
            None => Err(LErrView { at, msg: not_found_msg(module, field) }),
        }
    } else {
        let c = core[0];
        let hit = c.module == module && c.field == Some(field);
        if hit && found is Some {
            Err(LErrView { at, msg: ambiguous_msg(module, field) })
        } else if hit {
            sp_find_func_index(core.skip(1), module, field, idx + 1, Some(idx), at)
        } else {
            sp_find_func_index(core.skip(1), module, field, idx + 1, found, at)
        }
    }
}

/// What de-inlining an item in the second pass yields.
pub open spec fn sp_deinline_non_import(
    funcs: int,
    core: Seq<CoreFuncImportView>,
    item: AdapterView,
) -> Result<(Seq<AdapterView>, AdapterView, int), LErrView> {
    match item {
        AdapterView::Func(f) => {
            let f2 = AdapterView::Func(FuncView { export: None, ..f });
            match f.export {
                Some(e) => Ok(
                    (
                        seq![
                            AdapterView::Export(
                                ExportView { name: e, func: IndexView::Num(funcs as u32) },
                            ),
                        ],
                        f2,
                        funcs + 1,
                    ),
                ),
                None => Ok((Seq::empty(), f2, funcs + 1)),
            }
        },
        AdapterView::Implement(im) => {
            let implemented = match im.implemented {
                ImplementedView::ByName { module, name } => match sp_find_func_index(
                    core,
                    module,
                    name,
                    0,
                    None,
                    im.span as int,
                ) {
                    Ok(idx) => Ok(ImplementedView::ByIndex(IndexView::Num(idx as u32))),
                    Err(e) => Err(e),
                },
                ImplementedView::ByIndex(i) => Ok(ImplementedView::ByIndex(i)),
            };
            match implemented {
                Err(e) => Err(e),
                Ok(implemented) => match im.implementation {
                    ImplementationView::Inline { ty, instrs } => Ok(
                        (
                            seq![
                                AdapterView::Func(
                                    FuncView {
                                        span: im.span,
                                        name: None,
                                        export: None,
                                        ty,
                                        kind: FuncKindView::Inline { instrs },
                                    },
                                ),
                            ],
                            AdapterView::Implement(
                                ImplementView {
                                    span: im.span,
                                    implemented,
                                    implementation: ImplementationView::ByIndex(
                                        IndexView::Num(funcs as u32),
                                    ),
                                },
                            ),
                            funcs + 1,
                        ),
                    ),
                    ImplementationView::ByIndex(i) => Ok(
                        (
                            Seq::empty(),
                            AdapterView::Implement(
                                ImplementView {
                                    span: im.span,
                                    implemented,
                                    implementation: ImplementationView::ByIndex(i),
                                },
                            ),
                            funcs,
                        ),
                    ),
                },
            }
        },
        _ => Ok((Seq::empty(), item, funcs)),
    }
}

/// The second de-inlining pass over a whole item list.
pub open spec fn sp_deinline_non_imports(
    funcs: int,
    core: Seq<CoreFuncImportView>,
    items: Seq<AdapterView>,
) -> Result<(Seq<AdapterView>, int), LErrView>
    decreases items.len(),
{
    if items.len() == 0 {
        Ok((Seq::empty(), funcs))
    } else {
        match sp_deinline_non_import(funcs, core, items[0]) {
            Err(e) => Err(e),
            Ok((pre, it, f1)) => match sp_deinline_non_imports(f1, core, items.skip(1)) {
                Err(e) => Err(e),
                Ok((rest, f2)) => Ok((pre + seq![it] + rest, f2)),
            },
        }
    }
}

/// The de-inliner: holds the running adapter-function counter that
/// synthesized references are numbered with.
pub struct Expander {
    funcs: u64,
}

impl View for Expander {
    type V = int;

    closed spec fn view(&self) -> int {
        self.funcs as int
    }
}

impl Expander {
    /// A de-inliner with the counter at zero.
    pub fn new() -> (r: Expander)
        ensures
            r@ == 0,
    {
        Expander { funcs: 0 }
    }

    /// A de-inliner whose counter starts at `fstart`, continuing a prior
    /// pass.
    pub fn new_at(fstart: u64) -> (r: Expander)
        ensures
            r@ == fstart as int,
    {
        Expander { funcs: fstart }
    }

    /// The current value of the adapter-function counter.
    pub fn count(&self) -> (r: u64)
        ensures
            r as int == self@,
    {
        self.funcs
    }

    /// First pass on one item: turns a function declared as an inline
    /// import into a top-level import, synthesizing its export.
    pub fn deinline_import(&mut self, item: Adapter) -> (r: (Vec<Adapter>, Adapter))
        requires
            old(self)@ < 0x8000_0000,
        ensures
            ({
                let (pre, it, f) = sp_deinline_import(old(self)@, item@);
                seq_view(r.0@) == pre && r.1@ == it && final(self)@ == f
            }),
    {
        let mut pre: Vec<Adapter> = Vec::new();
        match item {
            Adapter::Func(f) => {
                match f.kind {
                    FuncKind::Import { module, name } => {
                        match f.export {
                            Some(e) => {
                                pre.push(
                                    Adapter::Export(
                                        Export { name: e, func: Index::Num(self.funcs as u32) },
                                    ),
                                );
                            },
                            None => {},
                        }
                        self.funcs = self.funcs + 1;
                        let imp = Adapter::Import(
                            Import { span: f.span, id: f.name, module, name, ty: f.ty },
                        );
                        proof {
                            assert(seq_view(pre@) =~= sp_deinline_import(old(self)@, item@).0);
                        }
                        (pre, imp)
                    },
                    FuncKind::Inline { instrs } => {
                        proof {
                            assert(seq_view(pre@) =~= Seq::<AdapterView>::empty());
                        }
                        (
                            pre,
                            Adapter::Func(
                                Func {
                                    span: f.span,
                                    name: f.name,
                                    export: f.export,
                                    ty: f.ty,
                                    kind: FuncKind::Inline { instrs },
                                },
                            ),
                        )
                    },
                }
            },
            Adapter::Import(i) => {
                self.funcs = self.funcs + 1;
                proof {
                    assert(seq_view(pre@) =~= Seq::<AdapterView>::empty());
                }
                (pre, Adapter::Import(i))
            },
            other => {
                proof {
                    assert(seq_view(pre@) =~= Seq::<AdapterView>::empty());
                }
                (pre, other)
            },
        }
    }

    /// Second pass on one item: synthesizes exports for inline export
    /// names, resolves `implement` directives given by name against the
    /// core imports, and pushes inline implementations out as functions of
    /// their own.
    pub fn deinline_non_import(&mut self, item: Adapter, core: &Vec<CoreFuncImport>) -> (r:
        Result<(Vec<Adapter>, Adapter), LowerError>)
        requires
            old(self)@ < 0x8000_0000,
            core@.len() <= u32::MAX,
        ensures
            match sp_deinline_non_import(old(self)@, seq_view(core@), item@) {
                Ok((pre, it, f)) => r matches Ok(p) && seq_view(p.0@) == pre && p.1@ == it
                    && final(self)@ == f,
                Err(e) => r matches Err(er) && er@ == e,
            },
    {
        let mut pre: Vec<Adapter> = Vec::new();
        match item {
            Adapter::Func(f) => {
                match f.export {
                    Some(e) => {
                        pre.push(
                            Adapter::Export(Export { name: e, func: Index::Num(self.funcs as u32) }),
                        );
                    },
                    None => {},
                }
                self.funcs = self.funcs + 1;
                let f2 = Adapter::Func(
                    Func { span: f.span, name: f.name, export: None, ty: f.ty, kind: f.kind },
                );
                proof {
                    assert(seq_view(pre@) =~= sp_deinline_non_import(
                        old(self)@,
                        seq_view(core@),
                        item@,
                    )->Ok_0.0);
                }
                Ok((pre, f2))
            },
            Adapter::Implement(im) => {
                let implemented = match im.implemented {
                    Implemented::ByName { module, name } => {
                        match find_func_index(im.span, core, &module, &name) {
                            Ok(idx) => Implemented::ByIndex(Index::Num(idx)),
                            Err(e) => {
                                return Err(e);
                            },
                        }
                    },
                    Implemented::ByIndex(i) => Implemented::ByIndex(i),
                };
                match im.implementation {
                    Implementation::Inline { ty, instrs } => {
                        pre.push(
                            Adapter::Func(
                                Func {
                                    span: im.span,
                                    name: None,
                                    export: None,
                                    ty,
                                    kind: FuncKind::Inline { instrs },
                                },
                            ),
                        );
                        let it = Adapter::Implement(
                            Implement {
                                span: im.span,
                                implemented,
                                implementation: Implementation::ByIndex(Index::Num(self.funcs as u32)),
                            },
                        );
                        self.funcs = self.funcs + 1;
                        proof {
                            assert(seq_view(pre@) =~= sp_deinline_non_import(
                                old(self)@,
                                seq_view(core@),
                                item@,
                            )->Ok_0.0);
                        }
                        Ok((pre, it))
                    },
                    Implementation::ByIndex(i) => {
                        proof {
                            assert(seq_view(pre@) =~= Seq::<AdapterView>::empty());
                        }
                        Ok(
                            (
                                pre,
                                Adapter::Implement(
                                    Implement {
                                        span: im.span,
                                        implemented,
                                        implementation: Implementation::ByIndex(i),
                                    },
                                ),
                            ),
                        )
                    },
                }
            },
            other => {
                proof {
                    assert(seq_view(pre@) =~= Seq::<AdapterView>::empty());
                }
                Ok((pre, other))
            },
        }
    }
}

/// Finds the index of the unique core function import named
/// `(module, field)`.
#[verifier::loop_isolation(false)]
fn find_func_index(span: usize, core: &Vec<CoreFuncImport>, module: &String, field: &String) -> (r:
    Result<u32, LowerError>)
    requires
        core@.len() <= u32::MAX,
    ensures
        match sp_find_func_index(seq_view(core@), module@, field@, 0, None, span as int) {
            Ok(i) => r matches Ok(n) && n as int == i,
            Err(e) => r matches Err(er) && er@ == e,
        },
{
    let ghost full = seq_view(core@);
    let mut idx: usize = 0;
    let mut found: Option<u32> = None;
    proof {
        assert(full.skip(0) =~= full);
    }
    while idx < core.len()
        invariant
            0 <= idx <= core@.len(),
            idx <= u32::MAX,
            match found {
                Some(n) => 0 <= n < idx,
                None => true,
            },
            sp_find_func_index(full, module@, field@, 0, None, span as int)
                == sp_find_func_index(
                full.skip(idx as int),
                module@,
                field@,
                idx as int,
                match found {
                    Some(n) => Some(n as int),
                    None => None,
                },
                span as int,
            ),
        decreases core@.len() - idx,
    {
        let ghost rem = full.skip(idx as int);
        let c = &core[idx];
        proof {
            assert(rem[0] == full[idx as int]);
            assert(full[idx as int] == core@[idx as int]@);
            assert(rem.skip(1) =~= full.skip(idx as int + 1));
        }
        let hit = c.module.eq(module) && match &c.field {
            Some(fl) => fl.eq(field),
            None => false,
        };
        proof {
            assert(hit == (rem[0].module == module@ && rem[0].field == Some(field@)));
        }
        if hit {
            if found.is_some() {
                let mut msg = String::from_str("import of `");
                msg.append(module.as_str());
                msg.append("` from `");
                msg.append(field.as_str());
                msg.append("` is ambiguous since it's listed twice in the core module");
                proof {
                    assert(msg@ =~= ambiguous_msg(module@, field@));
                }
                return Err(LowerError { at: span, msg });
            }
            found = Some(idx as u32);
        }
        idx = idx + 1;
    }
    proof {
        assert(full.skip(full.len() as int) =~= Seq::<CoreFuncImportView>::empty());
    }
    match found {
        Some(n) => Ok(n),
        None => {
            let mut msg = String::from_str("import of `");
            msg.append(module.as_str());
            msg.append("` from `");
            msg.append(field.as_str());
            msg.append("` not found in core module");
            proof {
                assert(msg@ =~= not_found_msg(module@, field@));
            }
            Err(LowerError { at: span, msg })
        },
    }
}

} // verus!
