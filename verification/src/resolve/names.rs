//! Name resolution: registers the `$names` of adapter types and functions,
//! then maps every symbolic reference to its numeric index, against the
//! adapter-side namespaces and the host-side namespaces of the containing
//! module.

use vstd::prelude::*;
use vstd::string::StringExecFns;
use crate::ast::{Adapter, AdapterView, Type, TypeView, TextParam, TextParamView, TypeUse,
    TypeUseView, Import, ImportView, Export, ExportView, Func, FuncView, FuncKind, FuncKindView,
    Implement, ImplementView, Implemented, ImplementedView, Implementation, ImplementationView,
    Index, IndexView, Instruction, InstrView, Instructions, InstructionsView, MemoryToString,
    MemoryToStringView, StringToMemory, StringToMemoryView, name_view};
use crate::decode::seq_view;
use crate::resolve::{LowerError, LErrView};
use crate::valtype::ValType;

verus! {

/// A binding of one `$name` to the index it stands for.
#[derive(Debug, Clone)]
pub struct NameBinding {
    /// The name, without its leading dollar sign.
    pub name: String,
    /// The index it resolves to.
    pub idx: u32,
}

/// Specification-level view of a namespace: name and index pairs, later
/// bindings shadowing earlier ones.
pub open spec fn ns_view(s: Seq<NameBinding>) -> Seq<(Seq<char>, u32)> {
    s.map_values(|b: NameBinding| (b.name@, b.idx))
}

/// The host-side namespaces the containing module provides.
#[derive(Debug)]
pub struct CoreNames {
    /// Function names of the host module.
    pub funcs: Vec<NameBinding>,
    /// Memory names of the host module.
    pub memories: Vec<NameBinding>,
}

/// The two adapter-side namespaces.
#[derive(Clone, Copy, Debug, PartialEq, Eq, Structural)]
pub enum Ns {
    Func,
    Type,
}

impl Ns {
    /// How this namespace is named in error messages.
    pub fn desc(&self) -> (r: &'static str)
        ensures
            r@ == ns_desc(*self),
    {
        match self {
            Ns::Func => "adapter func",
            Ns::Type => "adapter type",
        }
    }
}

/// How a namespace is named in error messages.
pub open spec fn ns_desc(ns: Ns) -> Seq<char> {
    match ns {
        Ns::Func => "adapter func"@,
        Ns::Type => "adapter type"@,
    }
}

/// Looks a name up; the latest binding wins.
pub open spec fn sp_ns_lookup(ns: Seq<(Seq<char>, u32)>, id: Seq<char>) -> Option<u32>
    decreases ns.len(),
{
    if ns.len() == 0 {
        None
    } else if ns.last().0 == id {
        Some(ns.last().1)
    } else {
        sp_ns_lookup(ns.drop_last(), id)
    }
}

/// Registers one optional name at the next index; the index advances either
/// way.
pub open spec fn sp_ns_register(
    ns: Seq<(Seq<char>, u32)>,
    count: int,
    name: Option<Seq<char>>,
) -> (Seq<(Seq<char>, u32)>, int) {
    match name {
        Some(n) => (ns.push((n, count as u32)), count + 1),
        None => (ns, count + 1),
    }
}

/// The resolver's registration state.
#[verifier::ext_equal]
pub struct RSt {
    pub nsf: Seq<(Seq<char>, u32)>,
    pub fcount: int,
    pub nst: Seq<(Seq<char>, u32)>,
    pub tcount: int,
    pub tys: Seq<TypeView>,
}

/// Registers the names of one item.
pub open spec fn sp_register(st: RSt, item: AdapterView) -> RSt {
    match item {
        AdapterView::Import(i) => {
            let (ns, c) = sp_ns_register(st.nsf, st.fcount, i.id);
            RSt { nsf: ns, fcount: c, ..st }
        },
        AdapterView::Func(f) => {
            let (ns, c) = sp_ns_register(st.nsf, st.fcount, f.name);
            RSt { nsf: ns, fcount: c, ..st }
        },
        AdapterView::Type(t) => {
            let (ns, c) = sp_ns_register(st.nst, st.tcount, t.name);
            RSt { nst: ns, tcount: c, tys: st.tys.push(t), ..st }
        },
        _ => st,
    }
}

/// Registers the names of every item, in order.
pub open spec fn sp_register_all(st: RSt, items: Seq<AdapterView>) -> RSt
    decreases items.len(),
{
    if items.len() == 0 {
        st
    } else {
        sp_register_all(sp_register(st, items[0]), items.skip(1))
    }
}

/// The message for an unresolved name.
pub open spec fn unresolved_msg(desc: Seq<char>, id: Seq<char>) -> Seq<char> {
    "failed to find "@ + desc + " named `$"@ + id + "`"@
}

/// Resolves one reference against a namespace; a raw index stands as it is.
pub open spec fn sp_resolve_idx(
    ns: Seq<(Seq<char>, u32)>,
    desc: Seq<char>,
    at: int,
    idx: IndexView,
) -> Result<(IndexView, u32), LErrView> {
    match idx {
        IndexView::Num(n) => Ok((IndexView::Num(n), n)),
        IndexView::Id(s) => match sp_ns_lookup(ns, s) {
            Some(n) => Ok((IndexView::Num(n), n)),
            None => Err(LErrView { at, msg: unresolved_msg(desc, s) }),
        },
    }
}

/// The message for an inline signature disagreeing with its type reference.
pub open spec fn sig_mismatch_msg() -> Seq<char> {
    "inline function type type doesn't match type reference"@
}

/// The message for a type use that was never given an index.
pub open spec fn unresolved_type_use_msg() -> Seq<char> {
    "unresolved type use"@
}

/// The parameter types of a signature, names erased.
pub open spec fn param_tys(params: Seq<TextParamView>) -> Seq<ValType> {
    params.map_values(|p: TextParamView| p.ty)
}

/// Resolves a type use: the index is resolved against the type namespace;
/// an inline signature beside it must agree with the referenced type, and
/// an absent one is filled in from it.
pub open spec fn sp_resolve_type_use(st: RSt, span: int, tu: TypeUseView) -> Result<
    TypeUseView,
    LErrView,
> {
    let at = match tu.index_span {
        Some(s) => s as int,
        None => span,
    };
    match tu.index {
        None => Err(LErrView { at: span, msg: unresolved_type_use_msg() }),
        Some(idx) => match sp_resolve_idx(st.nst, "type"@, at, idx) {
            Err(e) => Err(e),
            Ok((ridx, n)) => {
                if n < st.tys.len() {
                    let expected = st.tys[n as int];
                    if tu.ty.params.len() > 0 || tu.ty.results.len() > 0 {
                        if param_tys(expected.params) == param_tys(tu.ty.params)
                            && expected.results == tu.ty.results {
                            Ok(TypeUseView { index: Some(ridx), ..tu })
                        } else {
                            Err(LErrView { at, msg: sig_mismatch_msg() })
                        }
                    } else {
                        Ok(
                            TypeUseView {
                                index: Some(ridx),
                                ty: TypeView {
                                    name: tu.ty.name,
                                    params: expected.params,
                                    results: expected.results,
                                },
                                ..tu
                            },
                        )
                    }
                } else {
                    Ok(TypeUseView { index: Some(ridx), ..tu })
                }
            },
        },
    }
}

/// The local namespace of a body: the declared parameters, named ones
/// registered at their positions.
pub open spec fn sp_locals(params: Seq<TextParamView>, ns: Seq<(Seq<char>, u32)>, count: int) -> (
    Seq<(Seq<char>, u32)>,
    int,
)
    decreases params.len(),
{
    if params.len() == 0 {
        (ns, count)
    } else {
        let (ns1, c1) = sp_ns_register(ns, count, params[0].name);
        sp_locals(params.skip(1), ns1, c1)
    }
}

/// Resolves the references of one instruction: `arg.get` against the
/// locals; core functions and memories against the host namespaces;
/// `call-adapter` against the adapter functions.
pub open spec fn sp_resolve_instr(
    nsf: Seq<(Seq<char>, u32)>,
    locals: Seq<(Seq<char>, u32)>,
    core_funcs: Seq<(Seq<char>, u32)>,
    core_mems: Seq<(Seq<char>, u32)>,
    at: int,
    instr: InstrView,
) -> Result<InstrView, LErrView> {
    match instr {
        InstrView::ArgGet(i) => match sp_resolve_idx(locals, "local"@, at, i) {
            Ok((r, _)) => Ok(InstrView::ArgGet(r)),
            Err(e) => Err(e),
        },
        InstrView::CallCore(i) => match sp_resolve_idx(core_funcs, "func"@, at, i) {
            Ok((r, _)) => Ok(InstrView::CallCore(r)),
            Err(e) => Err(e),
        },
        InstrView::MemoryToString(m) => match sp_resolve_idx(core_mems, "memory"@, at, m.mem) {
            Ok((r, _)) => Ok(InstrView::MemoryToString(MemoryToStringView { mem: r })),
            Err(e) => Err(e),
        },
        InstrView::StringToMemory(m) => match sp_resolve_idx(core_funcs, "func"@, at, m.malloc) {
            Err(e) => Err(e),
            Ok((rm, _)) => match sp_resolve_idx(core_mems, "memory"@, at, m.mem) {
                Ok((rmem, _)) => Ok(
                    InstrView::StringToMemory(StringToMemoryView { malloc: rm, mem: rmem }),
                ),
                Err(e) => Err(e),
            },
        },
        InstrView::CallAdapter(i) => match sp_resolve_idx(nsf, ns_desc(Ns::Func), at, i) {
            Ok((r, _)) => Ok(InstrView::CallAdapter(r)),
            Err(e) => Err(e),
        },
        InstrView::DeferCallCore(i) => match sp_resolve_idx(core_funcs, "func"@, at, i) {
            Ok((r, _)) => Ok(InstrView::DeferCallCore(r)),
            Err(e) => Err(e),
        },
        _ => Ok(instr),
    }
}

/// Resolves the references of every instruction of a body.
pub open spec fn sp_resolve_instrs(
    nsf: Seq<(Seq<char>, u32)>,
    locals: Seq<(Seq<char>, u32)>,
    core_funcs: Seq<(Seq<char>, u32)>,
    core_mems: Seq<(Seq<char>, u32)>,
    at: int,
    instrs: Seq<InstrView>,
) -> Result<Seq<InstrView>, LErrView>
    decreases instrs.len(),
{
    if instrs.len() == 0 {
        Ok(Seq::empty())
    } else {
        match sp_resolve_instr(nsf, locals, core_funcs, core_mems, at, instrs[0]) {
            Err(e) => Err(e),
            Ok(i) => match sp_resolve_instrs(
                nsf,
                locals,
                core_funcs,
                core_mems,
                at,
                instrs.skip(1),
            ) {
                Err(e) => Err(e),
                Ok(rest) => Ok(seq![i] + rest),
            },
        }
    }
}

/// Resolves one item.
pub open spec fn sp_resolve_adapter(
    st: RSt,
    core_funcs: Seq<(Seq<char>, u32)>,
    core_mems: Seq<(Seq<char>, u32)>,
    item: AdapterView,
) -> Result<AdapterView, LErrView> {
    match item {
        AdapterView::Import(i) => match sp_resolve_type_use(st, i.span as int, i.ty) {
            Ok(tu) => Ok(AdapterView::Import(ImportView { ty: tu, ..i })),
            Err(e) => Err(e),
        },
        AdapterView::Func(f) => match sp_resolve_type_use(st, f.span as int, f.ty) {
            Err(e) => Err(e),
            Ok(tu) => match f.kind {
                FuncKindView::Inline { instrs } => {
                    let (locals, _) = sp_locals(tu.ty.params, Seq::empty(), 0);
                    match sp_resolve_instrs(
                        st.nsf,
                        locals,
                        core_funcs,
                        core_mems,
                        f.span as int,
                        instrs.instrs,
                    ) {
                        Ok(ri) => Ok(
                            AdapterView::Func(
                                FuncView {
                                    ty: tu,
                                    kind: FuncKindView::Inline {
                                        instrs: InstructionsView { instrs: ri },
                                    },
                                    ..f
                                },
                            ),
                        ),
                        Err(e) => Err(e),
                    }
                },
                FuncKindView::Import { .. } => Ok(AdapterView::Func(FuncView { ty: tu, ..f })),
            },
        },
        AdapterView::Export(e) => match sp_resolve_idx(
            st.nsf,
            ns_desc(Ns::Func),
            0,
            e.func,
        ) {
            Ok((r, _)) => Ok(AdapterView::Export(ExportView { func: r, ..e })),
            Err(er) => Err(er),
        },
        AdapterView::Implement(im) => {
            let implemented = match im.implemented {
                ImplementedView::ByIndex(i) => match sp_resolve_idx(
                    core_funcs,
                    "func"@,
                    im.span as int,
                    i,
                ) {
                    Ok((r, _)) => Ok(ImplementedView::ByIndex(r)),
                    Err(e) => Err(e),
                },
                ImplementedView::ByName { module, name } => Ok(
                    ImplementedView::ByName { module, name },
                ),
            };
            match implemented {
                Err(e) => Err(e),
                Ok(implemented) => match im.implementation {
                    ImplementationView::ByIndex(i) => match sp_resolve_idx(
                        st.nsf,
                        ns_desc(Ns::Func),
                        im.span as int,
                        i,
                    ) {
                        Ok((r, _)) => Ok(
                            AdapterView::Implement(
                                ImplementView {
                                    implemented,
                                    implementation: ImplementationView::ByIndex(r),
                                    ..im
                                },
                            ),
                        ),
                        Err(e) => Err(e),
                    },
                    other => Ok(
                        AdapterView::Implement(
                            ImplementView { implemented, implementation: other, ..im },
                        ),
                    ),
                },
            }
        },
        AdapterView::Type(_) => Ok(item),
    }
}

/// Resolves every item, in order.
pub open spec fn sp_resolve_all(
    st: RSt,
    core_funcs: Seq<(Seq<char>, u32)>,
    core_mems: Seq<(Seq<char>, u32)>,
    items: Seq<AdapterView>,
) -> Result<Seq<AdapterView>, LErrView>
    decreases items.len(),
{
    if items.len() == 0 {
        Ok(Seq::empty())
    } else {
        match sp_resolve_adapter(st, core_funcs, core_mems, items[0]) {
            Err(e) => Err(e),
            Ok(it) => match sp_resolve_all(st, core_funcs, core_mems, items.skip(1)) {
                Err(e) => Err(e),
                Ok(rest) => Ok(seq![it] + rest),
            },
        }
    }
}

/// Looks a name up in a namespace; the latest binding wins.
#[verifier::loop_isolation(false)]
fn ns_lookup(ns: &Vec<NameBinding>, id: &String) -> (r: Option<u32>)
    ensures
        r == sp_ns_lookup(ns_view(ns@), id@),
{
    let ghost full = ns_view(ns@);
    let mut j: usize = ns.len();
    proof {
        assert(full.take(ns@.len() as int) =~= full);
    }
    while j > 0
        invariant
            0 <= j <= ns@.len(),
            sp_ns_lookup(full, id@) == sp_ns_lookup(full.take(j as int), id@),
        decreases j,
    {
        let ghost pre = full.take(j as int);
        proof {
            assert(pre.last() == full[j - 1]);
            assert(full[j - 1] == (ns@[j - 1].name@, ns@[j - 1].idx));
            assert(pre.drop_last() =~= full.take(j - 1));
        }
        let b = &ns[j - 1];
        if b.name.eq(id) {
            return Some(b.idx);
        }
        j = j - 1;
    }
    proof {
        assert(full.take(0) =~= Seq::<(Seq<char>, u32)>::empty());
    }
    None
}

/// Copies an optional name.
fn dup_opt_string(o: &Option<String>) -> (r: Option<String>)
    ensures
        name_view(r) == name_view(*o),
{
    match o {
        None => None,
        Some(s) => Some(s.clone()),
    }
}

/// Copies a parameter list.
#[verifier::loop_isolation(false)]
fn dup_params(ps: &Vec<TextParam>) -> (r: Vec<TextParam>)
    ensures
        seq_view(r@) == seq_view(ps@),
{
    let mut out: Vec<TextParam> = Vec::new();
    let mut j: usize = 0;
    proof {
        assert(seq_view(out@) =~= seq_view(ps@).take(0));
    }
    while j < ps.len()
        invariant
            0 <= j <= ps@.len(),
            seq_view(out@) == seq_view(ps@).take(j as int),
        decreases ps@.len() - j,
    {
        let p = &ps[j];
        let ghost prev = out@;
        out.push(TextParam { name: dup_opt_string(&p.name), ty: p.ty });
        j = j + 1;
        proof {
            crate::decode::lemma_seq_view_push(prev, out@[out@.len() - 1]);
            assert(seq_view(ps@)[j - 1] == ps@[j - 1]@);
            assert(seq_view(out@) =~= seq_view(ps@).take(j as int));
        }
    }
    proof {
        assert(seq_view(ps@).take(ps@.len() as int) =~= seq_view(ps@));
    }
    out
}

/// Copies a type declaration.
fn dup_type(t: &Type) -> (r: Type)
    ensures
        r@ == t@,
{
    let r = Type {
        name: dup_opt_string(&t.name),
        params: dup_params(&t.params),
        results: crate::validator::copy_valtypes_pub(&t.results),
    };
    proof {
        assert(r@.params =~= t@.params);
    }
    r
}

/// The resolver: the two adapter-side namespaces and the registered type
/// signatures.
pub struct Resolver {
    ns_funcs: Vec<NameBinding>,
    fcount: u64,
    ns_types: Vec<NameBinding>,
    tcount: u64,
    tys: Vec<Type>,
}

impl View for Resolver {
    type V = RSt;

    closed spec fn view(&self) -> RSt {
        RSt {
            nsf: ns_view(self.ns_funcs@),
            fcount: self.fcount as int,
            nst: ns_view(self.ns_types@),
            tcount: self.tcount as int,
            tys: seq_view(self.tys@),
        }
    }
}

/// The empty registration state.
pub open spec fn rst_empty() -> RSt {
    RSt { nsf: Seq::empty(), fcount: 0, nst: Seq::empty(), tcount: 0, tys: Seq::empty() }
}

impl Resolver {
    /// A resolver with nothing registered.
    pub fn new() -> (r: Resolver)
        ensures
            r@ == rst_empty(),
    {
        let r = Resolver {
            ns_funcs: Vec::new(),
            fcount: 0,
            ns_types: Vec::new(),
            tcount: 0,
            tys: Vec::new(),
        };
        proof {
            assert(r@.nsf =~= rst_empty().nsf);
            assert(r@.nst =~= rst_empty().nst);
            assert(r@.tys =~= rst_empty().tys);
        }
        r
    }

    /// Records the names one item declares.
    pub fn register(&mut self, item: &Adapter)
        requires
            old(self)@.fcount < 0x8000_0000_0000_0000,
            old(self)@.tcount < 0x8000_0000_0000_0000,
        ensures
            final(self)@ == sp_register(old(self)@, item@),
    {
        match item {
            Adapter::Import(i) => {
                match &i.id {
                    Some(n) => {
                        let ghost prev = self.ns_funcs@;
                        self.ns_funcs.push(
                            NameBinding { name: n.clone(), idx: self.fcount as u32 },
                        );
                        proof {
                            assert(ns_view(self.ns_funcs@) =~= ns_view(prev).push(
                                (n@, (old(self)@.fcount as u32)),
                            ));
                        }
                    },
                    None => {},
                }
                self.fcount = self.fcount + 1;
            },
            Adapter::Func(f) => {
                match &f.name {
                    Some(n) => {
                        let ghost prev = self.ns_funcs@;
                        self.ns_funcs.push(
                            NameBinding { name: n.clone(), idx: self.fcount as u32 },
                        );
                        proof {
                            assert(ns_view(self.ns_funcs@) =~= ns_view(prev).push(
                                (n@, (old(self)@.fcount as u32)),
                            ));
                        }
                    },
                    None => {},
                }
                self.fcount = self.fcount + 1;
            },
            Adapter::Type(t) => {
                match &t.name {
                    Some(n) => {
                        let ghost prev = self.ns_types@;
                        self.ns_types.push(
                            NameBinding { name: n.clone(), idx: self.tcount as u32 },
                        );
                        proof {
                            assert(ns_view(self.ns_types@) =~= ns_view(prev).push(
                                (n@, (old(self)@.tcount as u32)),
                            ));
                        }
                    },
                    None => {},
                }
                self.tcount = self.tcount + 1;
                let ghost tys0 = self.tys@;
                self.tys.push(dup_type(t));
                proof {
                    crate::decode::lemma_seq_view_push(tys0, self.tys@[self.tys@.len() - 1]);
                }
            },
            _ => {},
        }
    }
}

/// Builds an unresolved-name error.
fn unresolved_err(at: usize, desc: &str, id: &String) -> (r: LowerError)
    ensures
        r@ == (LErrView { at: at as int, msg: unresolved_msg(desc@, id@) }),
{
    let mut msg = String::from_str("failed to find ");
    msg.append(desc);
    msg.append(" named `$");
    msg.append(id.as_str());
    msg.append("`");
    proof {
        assert(msg@ =~= unresolved_msg(desc@, id@));
    }
    LowerError { at, msg }
}

/// Resolves one reference against a namespace.
fn resolve_idx(ns: &Vec<NameBinding>, desc: &str, at: usize, idx: &Index) -> (r: Result<
    (Index, u32),
    LowerError,
>)
    ensures
        match sp_resolve_idx(ns_view(ns@), desc@, at as int, idx@) {
            Ok(t) => r matches Ok(p) && p.0@ == t.0 && p.1 == t.1,
            Err(e) => r matches Err(er) && er@ == e,
        },
{
    match idx {
        Index::Num(n) => Ok((Index::Num(*n), *n)),
        Index::Id(s) => match ns_lookup(ns, s) {
            Some(n) => Ok((Index::Num(n), n)),
            None => Err(unresolved_err(at, desc, s)),
        },
    }
}

/// Builds the local namespace from a parameter list.
#[verifier::loop_isolation(false)]
fn build_locals(params: &Vec<TextParam>) -> (r: Vec<NameBinding>)
    ensures
        ns_view(r@) == sp_locals(seq_view(params@), Seq::empty(), 0).0,
{
    let ghost full = seq_view(params@);
    let mut out: Vec<NameBinding> = Vec::new();
    let mut j: usize = 0;
    proof {
        assert(full.skip(0) =~= full);
        assert(ns_view(out@) =~= Seq::<(Seq<char>, u32)>::empty());
    }
    while j < params.len()
        invariant
            0 <= j <= params@.len(),
            full.len() == params@.len(),
            sp_locals(full, Seq::empty(), 0) == sp_locals(
                full.skip(j as int),
                ns_view(out@),
                j as int,
            ),
        decreases params@.len() - j,
    {
        let ghost rem = full.skip(j as int);
        let ghost ns0 = ns_view(out@);
        proof {
            assert(rem[0] == full[j as int]);
            assert(full[j as int] == params@[j as int]@);
            assert(rem.skip(1) =~= full.skip(j as int + 1));
        }
        match &params[j].name {
            Some(n) => {
                out.push(NameBinding { name: n.clone(), idx: j as u32 });
                proof {
                    assert(ns_view(out@) =~= ns0.push((n@, j as u32)));
                }
            },
            None => {},
        }
        j = j + 1;
    }
    proof {
        assert(full.skip(full.len() as int) =~= Seq::<TextParamView>::empty());
    }
    out
}

impl Resolver {
    /// Resolves a type use against the registered types, checking an inline
    /// signature against the referenced type or filling an absent one from
    /// it.
    fn resolve_type_use(&self, span: usize, tu: TypeUse) -> (r: Result<TypeUse, LowerError>)
        ensures
            match sp_resolve_type_use(self@, span as int, tu@) {
                Ok(t) => r matches Ok(v) && v@ == t,
                Err(e) => r matches Err(er) && er@ == e,
            },
    {
        let at = match tu.index_span {
            Some(s) => s,
            None => span,
        };
        let TypeUse { index_span, index, ty } = tu;
        let idx = match index {
            Some(i) => i,
            None => {
                return Err(
                    LowerError { at: span, msg: String::from_str("unresolved type use") },
                );
            },
        };
        let (ridx, n) = match resolve_idx(&self.ns_types, "type", at, &idx) {
            Ok(p) => p,
            Err(e) => {
                return Err(e);
            },
        };
        if (n as usize) < self.tys.len() {
            let expected = &self.tys[n as usize];
            proof {
                assert(self@.tys[n as int] == self.tys@[n as int]@);
            }
            if ty.params.len() > 0 || ty.results.len() > 0 {
                let expected_ptys = crate::resolve::tyexpand::key_params_pub(&expected.params);
                let inline_ptys = crate::resolve::tyexpand::key_params_pub(&ty.params);
                if crate::valtype::valtypes_eq(&expected_ptys, &inline_ptys)
                    && crate::valtype::valtypes_eq(&expected.results, &ty.results) {
                    Ok(TypeUse { index_span, index: Some(ridx), ty })
                } else {
                    Err(
                        LowerError {
                            at,
                            msg: String::from_str(
                                "inline function type type doesn't match type reference",
                            ),
                        },
                    )
                }
            } else {
                let filled = Type {
                    name: ty.name,
                    params: dup_params(&expected.params),
                    results: crate::validator::copy_valtypes_pub(&expected.results),
                };
                Ok(TypeUse { index_span, index: Some(ridx), ty: filled })
            }
        } else {
            Ok(TypeUse { index_span, index: Some(ridx), ty })
        }
    }

    /// Resolves the references of one instruction.
    fn resolve_instr(&self, core: &CoreNames, locals: &Vec<NameBinding>, at: usize, instr:
        Instruction) -> (r: Result<Instruction, LowerError>)
        ensures
            match sp_resolve_instr(
                self@.nsf,
                ns_view(locals@),
                ns_view(core.funcs@),
                ns_view(core.memories@),
                at as int,
                instr@,
            ) {
                Ok(t) => r matches Ok(v) && v@ == t,
                Err(e) => r matches Err(er) && er@ == e,
            },
    {
        match instr {
            Instruction::ArgGet(i) => match resolve_idx(locals, "local", at, &i) {
                Ok((r, _)) => Ok(Instruction::ArgGet(r)),
                Err(e) => Err(e),
            },
            Instruction::CallCore(i) => match resolve_idx(&core.funcs, "func", at, &i) {
                Ok((r, _)) => Ok(Instruction::CallCore(r)),
                Err(e) => Err(e),
            },
            Instruction::MemoryToString(m) => match resolve_idx(
                &core.memories,
                "memory",
                at,
                &m.mem,
            ) {
                Ok((r, _)) => Ok(Instruction::MemoryToString(MemoryToString { mem: r })),
                Err(e) => Err(e),
            },
            Instruction::StringToMemory(m) => {
                let (rm, _) = match resolve_idx(&core.funcs, "func", at, &m.malloc) {
                    Ok(p) => p,
                    Err(e) => {
                        return Err(e);
                    },
                };
                match resolve_idx(&core.memories, "memory", at, &m.mem) {
                    Ok((rmem, _)) => Ok(
                        Instruction::StringToMemory(
                            StringToMemory { malloc: rm, mem: rmem },
                        ),
                    ),
                    Err(e) => Err(e),
                }
            },
            Instruction::CallAdapter(i) => match resolve_idx(
                &self.ns_funcs,
                "adapter func",
                at,
                &i,
            ) {
                Ok((r, _)) => Ok(Instruction::CallAdapter(r)),
                Err(e) => Err(e),
            },
            Instruction::DeferCallCore(i) => match resolve_idx(&core.funcs, "func", at, &i) {
                Ok((r, _)) => Ok(Instruction::DeferCallCore(r)),
                Err(e) => Err(e),
            },
            other => Ok(other),
        }
    }

    /// Resolves every reference of one item.
    #[verifier::loop_isolation(false)]
    pub fn resolve(&self, core: &CoreNames, item: Adapter) -> (r: Result<Adapter, LowerError>)
        ensures
            match sp_resolve_adapter(
                self@,
                ns_view(core.funcs@),
                ns_view(core.memories@),
                item@,
            ) {
                Ok(t) => r matches Ok(v) && v@ == t,
                Err(e) => r matches Err(er) && er@ == e,
            },
    {
        match item {
            Adapter::Import(i) => {
                let Import { span, id, module, name, ty } = i;
                match self.resolve_type_use(span, ty) {
                    Ok(tu) => Ok(Adapter::Import(Import { span, id, module, name, ty: tu })),
                    Err(e) => Err(e),
                }
            },
            Adapter::Func(f) => {
                let Func { span, name, export, ty, kind } = f;
                let tu = match self.resolve_type_use(span, ty) {
                    Ok(t) => t,
                    Err(e) => {
                        return Err(e);
                    },
                };
                match kind {
                    FuncKind::Inline { instrs } => {
                        let locals = build_locals(&tu.ty.params);
                        let ghost lv = sp_locals(seq_view(tu.ty.params@), Seq::empty(), 0).0;
                        let mut out: Vec<Instruction> = Vec::new();
                        let mut src = instrs.instrs;
                        let ghost full = seq_view(src@);
                        let mut j: usize = 0;
                        let n = src.len();
                        proof {
                            assert(full.skip(0) =~= full);
                            assert(seq_view(out@) =~= Seq::<InstrView>::empty());
                            match sp_resolve_instrs(
                                self@.nsf,
                                lv,
                                ns_view(core.funcs@),
                                ns_view(core.memories@),
                                span as int,
                                full,
                            ) {
                                Ok(t) => {
                                    assert(seq_view(out@) + t =~= t);
                                },
                                Err(_) => {},
                            }
                        }
                        while j < n
                            invariant
                                0 <= j <= n,
                                full.len() == n,
                                seq_view(src@) == full.skip(j as int),
                                ns_view(locals@) == lv,
                                sp_resolve_instrs(
                                    self@.nsf,
                                    lv,
                                    ns_view(core.funcs@),
                                    ns_view(core.memories@),
                                    span as int,
                                    full,
                                ) == match sp_resolve_instrs(
                                    self@.nsf,
                                    lv,
                                    ns_view(core.funcs@),
                                    ns_view(core.memories@),
                                    span as int,
                                    full.skip(j as int),
                                ) {
                                    Err(e) => Err::<Seq<InstrView>, LErrView>(e),
                                    Ok(rest) => Ok(seq_view(out@) + rest),
                                },
                            decreases n - j,
                        {
                            let ghost rem = full.skip(j as int);
                            let ghost out0 = seq_view(out@);
                            proof {
                                assert(rem[0] == full[j as int]);
                                assert(rem.skip(1) =~= full.skip(j as int + 1));
                            }
                            let inst = src.remove(0);
                            proof {
                                assert(inst@ == full[j as int]);
                                assert(seq_view(src@) =~= full.skip(j as int + 1));
                            }
                            match self.resolve_instr(core, &locals, span, inst) {
                                Ok(ri) => {
                                    let ghost prev = out@;
                                    out.push(ri);
                                    j = j + 1;
                                    proof {
                                        crate::decode::lemma_seq_view_push(
                                            prev,
                                            out@[out@.len() - 1],
                                        );
                                        match sp_resolve_instrs(
                                            self@.nsf,
                                            lv,
                                            ns_view(core.funcs@),
                                            ns_view(core.memories@),
                                            span as int,
                                            full.skip(j as int),
                                        ) {
                                            Ok(rest) => {
                                                assert(out0 + (seq![ri@] + rest) =~= seq_view(
                                                    out@,
                                                ) + rest);
                                            },
                                            Err(_) => {},
                                        }
                                    }
                                },
                                Err(e) => {
                                    return Err(e);
                                },
                            }
                        }
                        proof {
                            assert(full.skip(full.len() as int) =~= Seq::<InstrView>::empty());
                            assert(seq_view(out@) + Seq::<InstrView>::empty() =~= seq_view(out@));
                        }
                        Ok(
                            Adapter::Func(
                                Func {
                                    span,
                                    name,
                                    export,
                                    ty: tu,
                                    kind: FuncKind::Inline {
                                        instrs: Instructions { instrs: out },
                                    },
                                },
                            ),
                        )
                    },
                    FuncKind::Import { module, name: iname } => Ok(
                        Adapter::Func(
                            Func {
                                span,
                                name,
                                export,
                                ty: tu,
                                kind: FuncKind::Import { module, name: iname },
                            },
                        ),
                    ),
                }
            },
            Adapter::Export(e) => {
                let Export { name, func } = e;
                match resolve_idx(&self.ns_funcs, "adapter func", 0, &func) {
                    Ok((r, _)) => Ok(Adapter::Export(Export { name, func: r })),
                    Err(er) => Err(er),
                }
            },
            Adapter::Implement(im) => {
                let Implement { span, implemented, implementation } = im;
                let implemented = match implemented {
                    Implemented::ByIndex(i) => {
                        match resolve_idx(&core.funcs, "func", span, &i) {
                            Ok((r, _)) => Implemented::ByIndex(r),
                            Err(e) => {
                                return Err(e);
                            },
                        }
                    },
                    Implemented::ByName { module, name } => Implemented::ByName { module, name },
                };
                match implementation {
                    Implementation::ByIndex(i) => {
                        match resolve_idx(&self.ns_funcs, "adapter func", span, &i) {
                            Ok((r, _)) => Ok(
                                Adapter::Implement(
                                    Implement {
                                        span,
                                        implemented,
                                        implementation: Implementation::ByIndex(r),
                                    },
                                ),
                            ),
                            Err(e) => Err(e),
                        }
                    },
                    other => Ok(
                        Adapter::Implement(Implement { span, implemented, implementation: other }),
                    ),
                }
            },
            Adapter::Type(t) => Ok(Adapter::Type(t)),
        }
    }
}

} // verus!
