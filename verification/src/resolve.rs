//! Lowering of the textual surface: de-inlining of sugared imports, exports
//! and inline implementations; expansion and de-duplication of inline type
//! uses; and resolution of symbolic names to numeric indices.

pub mod expand;
pub mod names;
pub mod tyexpand;

use vstd::prelude::*;
use crate::ast::{Adapter, AdapterView, CoreFuncImport};
use crate::decode::seq_view;
use crate::resolve::names::CoreNames;

verus! {

/// A lowering failure: the offset of the directive at fault, and the
/// message text.
#[derive(Debug)]
pub struct LowerError {
    /// The source offset the error points at.
    pub at: usize,
    /// The message text.
    pub msg: String,
}

/// Specification-level mirror of `LowerError`.
pub struct LErrView {
    pub at: int,
    pub msg: Seq<char>,
}

impl View for LowerError {
    type V = LErrView;

    open spec fn view(&self) -> LErrView {
        LErrView { at: self.at as int, msg: self.msg@ }
    }
}

/// Whether an adapter item is a type declaration.
pub open spec fn is_type_item(a: AdapterView) -> bool {
    a is Type
}

/// Whether an adapter item is an import declaration.
pub open spec fn is_import_item(a: AdapterView) -> bool {
    a is Import
}

/// The items satisfying `p` first, then the rest, both sides keeping their
/// relative order: what a stable sort on the negated predicate yields.
pub open spec fn stable_front(items: Seq<AdapterView>, p: spec_fn(AdapterView) -> bool) -> Seq<
    AdapterView,
> {
    items.filter(p) + items.filter(|a: AdapterView| !p(a))
}

/// Moves the items satisfying the chosen predicate ahead of the others,
/// keeping relative order on both sides.
#[verifier::loop_isolation(false)]
fn stable_partition(adapters: Vec<Adapter>, type_side: bool) -> (r: Vec<Adapter>)
    ensures
        type_side ==> seq_view(r@) == stable_front(
            seq_view(adapters@),
            |a: AdapterView| is_type_item(a),
        ),
        !type_side ==> seq_view(r@) == stable_front(
            seq_view(adapters@),
            |a: AdapterView| is_import_item(a),
        ),
{
    let ghost p: spec_fn(AdapterView) -> bool = if type_side {
        |a: AdapterView| is_type_item(a)
    } else {
        |a: AdapterView| is_import_item(a)
    };
    let mut front: Vec<Adapter> = Vec::new();
    let mut back: Vec<Adapter> = Vec::new();
    let mut items = adapters;
    let ghost full = seq_view(items@);
    let mut i: usize = 0;
    let n: usize = items.len();
    proof {
        reveal(Seq::filter);
        assert(full.take(0) =~= Seq::<AdapterView>::empty());
        assert(seq_view(front@) =~= full.take(0).filter(p));
        assert(seq_view(back@) =~= full.take(0).filter(|a: AdapterView| !p(a)));
    }
    while items.len() > 0
        invariant
            0 <= i <= n,
            items@.len() == n - i,
            seq_view(items@) == full.skip(i as int),
            seq_view(front@) == full.take(i as int).filter(p),
            seq_view(back@) == full.take(i as int).filter(|a: AdapterView| !p(a)),
        decreases items@.len(),
    {
        let ghost fr0 = seq_view(front@);
        let ghost bk0 = seq_view(back@);
        let item = items.remove(0);
        proof {
            assert(item@ == full.skip(i as int)[0]);
            assert(item@ == full[i as int]);
            assert(full.skip(i as int).remove(0) =~= full.skip(i as int + 1));
        }
        let goes_front = if type_side {
            match &item {
                Adapter::Type(_) => true,
                _ => false,
            }
        } else {
            match &item {
                Adapter::Import(_) => true,
                _ => false,
            }
        };
        let ghost iv = item@;
        if goes_front {
            front.push(item);
        } else {
            back.push(item);
        }
        i = i + 1;
        proof {
            reveal(Seq::filter);
            let pre = full.take(i as int);
            assert(pre.drop_last() =~= full.take(i - 1));
            assert(pre.last() == full[i - 1]);
            if p(iv) {
                assert(seq_view(front@) =~= fr0.push(iv));
                assert(seq_view(back@) == bk0);
            } else {
                assert(seq_view(back@) =~= bk0.push(iv));
                assert(seq_view(front@) == fr0);
            }
        }
    }
    proof {
        assert(full.take(n as int) =~= full);
    }
    front.append(&mut back);
    proof {
        assert(seq_view(front@) =~= full.filter(p) + full.filter(|a: AdapterView| !p(a)));
    }
    front
}

/// Moves every type declaration ahead of the other items, keeping relative
/// order.
pub fn move_types_first(adapters: Vec<Adapter>) -> (r: Vec<Adapter>)
    ensures
        seq_view(r@) == stable_front(seq_view(adapters@), |a: AdapterView| is_type_item(a)),
{
    stable_partition(adapters, true)
}

/// Moves every import declaration ahead of the other items, keeping
/// relative order, so that the imports-first index discipline holds.
pub fn move_imports_first(adapters: Vec<Adapter>) -> (r: Vec<Adapter>)
    ensures
        seq_view(r@) == stable_front(seq_view(adapters@), |a: AdapterView| is_import_item(a)),
{
    stable_partition(adapters, false)
}

/// What lowering a module's directives yields: the two de-inlining passes,
/// types moved first and inline type uses expanded, imports moved first,
/// and every name resolved.
pub open spec fn sp_lower(
    core_imports: Seq<crate::ast::CoreFuncImportView>,
    core_funcs: Seq<(Seq<char>, u32)>,
    core_mems: Seq<(Seq<char>, u32)>,
    items: Seq<AdapterView>,
) -> Result<Seq<AdapterView>, crate::resolve::LErrView> {
    let (items1, f1) = crate::resolve::expand::sp_deinline_imports(0, items);
    match crate::resolve::expand::sp_deinline_non_imports(f1, core_imports, items1) {
        Err(e) => Err(e),
        Ok((items2, _)) => {
            let items3 = stable_front(items2, |a: AdapterView| is_type_item(a));
            let (items4, _, _) = crate::resolve::tyexpand::sp_expand_all(Seq::empty(), 0, items3);
            let items5 = stable_front(items4, |a: AdapterView| is_import_item(a));
            let st = crate::resolve::names::sp_register_all(
                crate::resolve::names::rst_empty(),
                items5,
            );
            crate::resolve::names::sp_resolve_all(st, core_funcs, core_mems, items5)
        },
    }
}

/// Runs the first de-inlining pass over a whole list.
#[verifier::loop_isolation(false)]
fn run_deinline_imports(adapters: Vec<Adapter>) -> (r: (Vec<Adapter>, u64))
    requires
        adapters@.len() <= 0x100_0000,
    ensures
        ({
            let (items1, f1) = crate::resolve::expand::sp_deinline_imports(0, seq_view(adapters@));
            seq_view(r.0@) == items1 && r.1 as int == f1 && f1 <= adapters@.len()
                && items1.len() <= 2 * adapters@.len()
        }),
{
    let ghost full = seq_view(adapters@);
    let mut e = crate::resolve::expand::Expander::new();
    let mut out: Vec<Adapter> = Vec::new();
    let mut src = adapters;
    let mut j: usize = 0;
    let n = src.len();
    proof {
        assert(full.skip(0) =~= full);
        match crate::resolve::expand::sp_deinline_imports(0, full) {
            (items1, f1) => {
                assert(seq_view(out@) + items1 =~= items1);
            },
        }
    }
    while j < n
        invariant
            0 <= j <= n,
            n == full.len(),
            seq_view(src@) == full.skip(j as int),
            0 <= e@ <= j,
            out@.len() <= 2 * j,
            crate::resolve::expand::sp_deinline_imports(0, full) == {
                let (rest, f2) = crate::resolve::expand::sp_deinline_imports(
                    e@,
                    full.skip(j as int),
                );
                (seq_view(out@) + rest, f2)
            },
        decreases n - j,
    {
        let ghost rem = full.skip(j as int);
        let ghost out0 = seq_view(out@);
        let ghost e0 = e@;
        let ghost srcv0 = src@;
        let item = src.remove(0);
        proof {
            assert(item@ == full[j as int]);
            assert forall|k: int| 0 <= k < src@.len() implies seq_view(src@)[k] == full.skip(
                j as int + 1,
            )[k] by {
                assert(src@[k] == srcv0[k + 1]);
                assert(seq_view(srcv0)[k + 1] == srcv0[k + 1]@);
            }
            assert(seq_view(src@) =~= full.skip(j as int + 1));
            assert(rem.skip(1) =~= full.skip(j as int + 1));
        }
        let (mut pre, it) = e.deinline_import(item);
        let ghost prev_out = out@;
        let ghost prev_pre = pre@;
        out.append(&mut pre);
        let ghost mid_out = out@;
        out.push(it);
        j = j + 1;
        proof {
            crate::decode::lemma_seq_view_concat(prev_out, prev_pre);
            assert(mid_out == prev_out + prev_pre);
            crate::decode::lemma_seq_view_push(mid_out, out@[out@.len() - 1]);
            let (p, i1, f1) = crate::resolve::expand::sp_deinline_import(e0, rem[0]);
            let (rest, f2) = crate::resolve::expand::sp_deinline_imports(
                f1,
                full.skip(j as int),
            );
            assert(seq_view(out@) =~= (out0 + p).push(i1));
            assert(seq_view(out@) + rest =~= out0 + (p + seq![i1] + rest));
        }
    }
    proof {
        assert(full.skip(n as int) =~= Seq::<AdapterView>::empty());
        let (rest, f2) = crate::resolve::expand::sp_deinline_imports(e@, full.skip(n as int));
        assert(rest =~= Seq::<AdapterView>::empty());
        assert(seq_view(out@) + rest =~= seq_view(out@));
    }
    let fc = e.count();
    (out, fc)
}

/// Runs the second de-inlining pass over a whole list.
#[verifier::loop_isolation(false)]
fn run_deinline_non_imports(
    adapters: Vec<Adapter>,
    fstart: u64,
    core: &Vec<CoreFuncImport>,
) -> (r: Result<Vec<Adapter>, LowerError>)
    requires
        adapters@.len() <= 0x200_0000,
        fstart <= 0x100_0000,
        core@.len() <= u32::MAX,
    ensures
        match crate::resolve::expand::sp_deinline_non_imports(
            fstart as int,
            seq_view(core@),
            seq_view(adapters@),
        ) {
            Ok((items2, _)) => r matches Ok(v) && seq_view(v@) == items2 && v@.len() <= 2
                * adapters@.len(),
            Err(e) => r matches Err(er) && er@ == e,
        },
{
    let ghost cv = seq_view(core@);
    let ghost full = seq_view(adapters@);
    let mut e = crate::resolve::expand::Expander::new_at(fstart);
    let mut out: Vec<Adapter> = Vec::new();
    let mut src = adapters;
    let mut j: usize = 0;
    let n = src.len();
    proof {
        assert(full.skip(0) =~= full);
        match crate::resolve::expand::sp_deinline_non_imports(fstart as int, cv, full) {
            Err(_) => {}
            Ok((items2, f2)) => {
                assert(seq_view(out@) + items2 =~= items2);
            },
        }
    }
    while j < n
        invariant
            0 <= j <= n,
            n == full.len(),
            seq_view(src@) == full.skip(j as int),
            fstart <= e@ <= fstart + j,
            out@.len() <= 2 * j,
            crate::resolve::expand::sp_deinline_non_imports(fstart as int, cv, full) == match
                crate::resolve::expand::sp_deinline_non_imports(e@, cv, full.skip(j as int)) {
                Err(er) => Err::<(Seq<AdapterView>, int), LErrView>(er),
                Ok((rest, f2)) => Ok((seq_view(out@) + rest, f2)),
            },
        decreases n - j,
    {
        let ghost rem = full.skip(j as int);
        let ghost out0 = seq_view(out@);
        let ghost e0 = e@;
        let ghost srcv0 = src@;
        let item = src.remove(0);
        proof {
            assert(item@ == full[j as int]);
            assert forall|k: int| 0 <= k < src@.len() implies seq_view(src@)[k] == full.skip(
                j as int + 1,
            )[k] by {
                assert(src@[k] == srcv0[k + 1]);
                assert(seq_view(srcv0)[k + 1] == srcv0[k + 1]@);
            }
            assert(seq_view(src@) =~= full.skip(j as int + 1));
            assert(rem.skip(1) =~= full.skip(j as int + 1));
        }
        let (mut pre, it) = match e.deinline_non_import(item, core) {
            Ok(p) => p,
            Err(er) => {
                return Err(er);
            },
        };
        let ghost prev_out = out@;
        let ghost prev_pre = pre@;
        out.append(&mut pre);
        let ghost mid_out = out@;
        out.push(it);
        j = j + 1;
        proof {
            crate::decode::lemma_seq_view_concat(prev_out, prev_pre);
            crate::decode::lemma_seq_view_push(mid_out, out@[out@.len() - 1]);
            let (p, i1, f1) = crate::resolve::expand::sp_deinline_non_import(
                e0,
                cv,
                rem[0],
            )->Ok_0;
            match crate::resolve::expand::sp_deinline_non_imports(f1, cv, full.skip(j as int)) {
                Err(_) => {}
                Ok((rest, f2)) => {
                    assert(seq_view(out@) =~= (out0 + p).push(i1));
                    assert(seq_view(out@) + rest =~= out0 + (p + seq![i1] + rest));
                },
            }
        }
    }
    proof {
        assert(full.skip(n as int) =~= Seq::<AdapterView>::empty());
        match crate::resolve::expand::sp_deinline_non_imports(e@, cv, full.skip(n as int)) {
            Err(_) => {}
            Ok((rest, _)) => {
                assert(rest =~= Seq::<AdapterView>::empty());
                assert(seq_view(out@) + rest =~= seq_view(out@));
            },
        }
    }
    Ok(out)
}

/// Runs the type-use expansion pass over a whole list.
#[verifier::loop_isolation(false)]
fn run_tyexpand(adapters: Vec<Adapter>) -> (r: Vec<Adapter>)
    requires
        adapters@.len() <= 0x800_0000,
    ensures
        ({
            let (items4, _, _) = crate::resolve::tyexpand::sp_expand_all(
                Seq::empty(),
                0,
                seq_view(adapters@),
            );
            seq_view(r@) == items4 && r@.len() <= 2 * adapters@.len()
        }),
{
    let ghost full = seq_view(adapters@);
    let mut e = crate::resolve::tyexpand::Expander::new();
    let mut out: Vec<Adapter> = Vec::new();
    let mut src = adapters;
    let mut j: usize = 0;
    let n = src.len();
    proof {
        assert(full.skip(0) =~= full);
        let (items4, t4, n4) = crate::resolve::tyexpand::sp_expand_all(Seq::empty(), 0, full);
        assert(seq_view(out@) + items4 =~= items4);
    }
    while j < n
        invariant
            0 <= j <= n,
            n == full.len(),
            seq_view(src@) == full.skip(j as int),
            0 <= e@.1 <= j,
            out@.len() <= 2 * j,
            crate::resolve::tyexpand::sp_expand_all(Seq::empty(), 0, full) == {
                let (rest, t2, n2) = crate::resolve::tyexpand::sp_expand_all(
                    e@.0,
                    e@.1,
                    full.skip(j as int),
                );
                (seq_view(out@) + rest, t2, n2)
            },
        decreases n - j,
    {
        let ghost rem = full.skip(j as int);
        let ghost out0 = seq_view(out@);
        let ghost e0 = e@;
        let ghost srcv0 = src@;
        let item = src.remove(0);
        proof {
            assert(item@ == full[j as int]);
            assert forall|k: int| 0 <= k < src@.len() implies seq_view(src@)[k] == full.skip(
                j as int + 1,
            )[k] by {
                assert(src@[k] == srcv0[k + 1]);
                assert(seq_view(srcv0)[k + 1] == srcv0[k + 1]@);
            }
            assert(seq_view(src@) =~= full.skip(j as int + 1));
            assert(rem.skip(1) =~= full.skip(j as int + 1));
        }
        let (mut pre, it) = e.expand(item);
        let ghost prev_out = out@;
        let ghost prev_pre = pre@;
        out.append(&mut pre);
        let ghost mid_out = out@;
        out.push(it);
        j = j + 1;
        proof {
            crate::decode::lemma_seq_view_concat(prev_out, prev_pre);
            crate::decode::lemma_seq_view_push(mid_out, out@[out@.len() - 1]);
            let (p, i1, t1, n1) = crate::resolve::tyexpand::sp_expand(e0.0, e0.1, rem[0]);
            let (rest, t2, n2) = crate::resolve::tyexpand::sp_expand_all(
                t1,
                n1,
                full.skip(j as int),
            );
            assert(seq_view(out@) =~= (out0 + p).push(i1));
            assert(seq_view(out@) + rest =~= out0 + (p + seq![i1] + rest));
        }
    }
    proof {
        assert(full.skip(n as int) =~= Seq::<AdapterView>::empty());
        let (rest, t2, n2) = crate::resolve::tyexpand::sp_expand_all(
            e@.0,
            e@.1,
            full.skip(n as int),
        );
        assert(rest =~= Seq::<AdapterView>::empty());
        assert(seq_view(out@) + rest =~= seq_view(out@));
    }
    out
}

/// Lowers a module's directives: de-inlines sugared declarations, moves
/// types first and expands inline type uses, moves imports first, and
/// resolves every symbolic name to its numeric index against both the
/// adapter-side and the host-side namespaces.
#[verifier::loop_isolation(false)]
#[verifier::rlimit(100)]
pub fn resolve(
    core_imports: &Vec<CoreFuncImport>,
    core_names: &CoreNames,
    adapters: Vec<Adapter>,
) -> (r: Result<Vec<Adapter>, LowerError>)
    requires
        adapters@.len() <= 0x100_0000,
        core_imports@.len() <= u32::MAX,
    ensures
        match sp_lower(
            seq_view(core_imports@),
            crate::resolve::names::ns_view(core_names.funcs@),
            crate::resolve::names::ns_view(core_names.memories@),
            seq_view(adapters@),
        ) {
            Ok(items) => r matches Ok(v) && seq_view(v@) == items,
            Err(e) => r matches Err(er) && er@ == e,
        },
{
    let (items1, f1) = run_deinline_imports(adapters);
    let items2 = match run_deinline_non_imports(items1, f1, core_imports) {
        Ok(v) => v,
        Err(e) => {
            return Err(e);
        },
    };
    let ghost iv2 = seq_view(items2@);
    let items3 = move_types_first(items2);
    proof {
        let p3 = |a: AdapterView| is_type_item(a);
        iv2.lemma_filter_len(p3);
        iv2.lemma_filter_len(|a: AdapterView| !p3(a));
    }
    let items4 = run_tyexpand(items3);
    let ghost iv4 = seq_view(items4@);
    let items5 = move_imports_first(items4);
    proof {
        let p5 = |a: AdapterView| is_import_item(a);
        iv4.lemma_filter_len(p5);
        iv4.lemma_filter_len(|a: AdapterView| !p5(a));
    }
    let mut resolver = crate::resolve::names::Resolver::new();
    let ghost full5 = seq_view(items5@);
    let mut j: usize = 0;
    let n = items5.len();
    proof {
        assert(full5.skip(0) =~= full5);
    }
    while j < n
        invariant
            0 <= j <= n,
            n == items5@.len(),
            full5 == seq_view(items5@),
            resolver@.fcount <= j,
            resolver@.tcount <= j,
            resolver@ == crate::resolve::names::sp_register_all(
                crate::resolve::names::rst_empty(),
                full5.take(j as int),
            ),
        decreases n - j,
    {
        let ghost pre = full5.take(j as int);
        resolver.register(&items5[j]);
        j = j + 1;
        proof {
            lemma_register_all_snoc(crate::resolve::names::rst_empty(), full5.take(j as int));
            assert(full5.take(j as int).drop_last() =~= pre);
            assert(full5.take(j as int).last() == full5[j - 1]);
            assert(full5[j - 1] == items5@[j - 1]@);
        }
    }
    proof {
        assert(full5.take(n as int) =~= full5);
    }
    let mut out: Vec<Adapter> = Vec::new();
    let mut src = items5;
    let mut k: usize = 0;
    proof {
        assert(full5.skip(0) =~= full5);
        match crate::resolve::names::sp_resolve_all(
            resolver@,
            crate::resolve::names::ns_view(core_names.funcs@),
            crate::resolve::names::ns_view(core_names.memories@),
            full5,
        ) {
            Err(_) => {}
            Ok(items) => {
                assert(seq_view(out@) + items =~= items);
            },
        }
    }
    while k < n
        invariant
            0 <= k <= n,
            n == full5.len(),
            seq_view(src@) == full5.skip(k as int),
            resolver@ == crate::resolve::names::sp_register_all(
                crate::resolve::names::rst_empty(),
                full5,
            ),
            crate::resolve::names::sp_resolve_all(
                resolver@,
                crate::resolve::names::ns_view(core_names.funcs@),
                crate::resolve::names::ns_view(core_names.memories@),
                full5,
            ) == match crate::resolve::names::sp_resolve_all(
                resolver@,
                crate::resolve::names::ns_view(core_names.funcs@),
                crate::resolve::names::ns_view(core_names.memories@),
                full5.skip(k as int),
            ) {
                Err(e) => Err::<Seq<AdapterView>, LErrView>(e),
                Ok(rest) => Ok(seq_view(out@) + rest),
            },
        decreases n - k,
    {
        let ghost rem = full5.skip(k as int);
        let ghost out0 = seq_view(out@);
        let ghost srcv0 = src@;
        let item = src.remove(0);
        proof {
            assert(item@ == full5[k as int]);
            assert forall|x: int| 0 <= x < src@.len() implies seq_view(src@)[x] == full5.skip(
                k as int + 1,
            )[x] by {
                assert(src@[x] == srcv0[x + 1]);
                assert(seq_view(srcv0)[x + 1] == srcv0[x + 1]@);
            }
            assert(seq_view(src@) =~= full5.skip(k as int + 1));
            assert(rem.skip(1) =~= full5.skip(k as int + 1));
        }
        match resolver.resolve(core_names, item) {
            Ok(it) => {
                let ghost prev = out@;
                out.push(it);
                k = k + 1;
                proof {
                    crate::decode::lemma_seq_view_push(prev, out@[out@.len() - 1]);
                    match crate::resolve::names::sp_resolve_all(
                        resolver@,
                        crate::resolve::names::ns_view(core_names.funcs@),
                        crate::resolve::names::ns_view(core_names.memories@),
                        full5.skip(k as int),
                    ) {
                        Err(_) => {}
                        Ok(rest) => {
                            assert(out0 + (seq![it@] + rest) =~= seq_view(out@) + rest);
                        },
                    }
                }
            },
            Err(e) => {
                return Err(e);
            },
        }
    }
    proof {
        assert(full5.skip(n as int) =~= Seq::<AdapterView>::empty());
        match crate::resolve::names::sp_resolve_all(
            resolver@,
            crate::resolve::names::ns_view(core_names.funcs@),
            crate::resolve::names::ns_view(core_names.memories@),
            full5,
        ) {
            Err(_) => {}
            Ok(items) => {
                assert(seq_view(out@) + Seq::<AdapterView>::empty() =~= seq_view(out@));
            },
        }
    }
    Ok(out)
}

/// Registering one more item is one more registration step.
proof fn lemma_register_all_snoc(st: crate::resolve::names::RSt, items: Seq<AdapterView>)
    requires
        items.len() > 0,
    ensures
        crate::resolve::names::sp_register_all(st, items) == crate::resolve::names::sp_register(
            crate::resolve::names::sp_register_all(st, items.drop_last()),
            items.last(),
        ),
    decreases items.len(),
{
    if items.len() == 1 {
        reveal_with_fuel(crate::resolve::names::sp_register_all, 3);
        assert(items.drop_last() =~= Seq::<AdapterView>::empty());
        assert(items.skip(1) =~= Seq::<AdapterView>::empty());
        assert(crate::resolve::names::sp_register_all(st, items)
            =~= crate::resolve::names::sp_register(
            crate::resolve::names::sp_register_all(st, items.drop_last()),
            items.last(),
        ));
    } else {
        reveal_with_fuel(crate::resolve::names::sp_register_all, 3);
        lemma_register_all_snoc(crate::resolve::names::sp_register(st, items[0]), items.skip(1));
        assert(items.skip(1).drop_last() =~= items.drop_last().skip(1));
        assert(items.skip(1).last() == items.last());
        assert(items.drop_last()[0] == items[0]);
        assert(crate::resolve::names::sp_register_all(st, items)
            =~= crate::resolve::names::sp_register(
            crate::resolve::names::sp_register_all(st, items.drop_last()),
            items.last(),
        ));
    }
}

/// An item the de-inlining passes have nothing left to do to: no sugared
/// import, no inline export, both sides of an `implement` given by index.
pub open spec fn deinlined_item(a: AdapterView) -> bool {
    match a {
        AdapterView::Func(f) => f.export is None && f.kind is Inline,
        AdapterView::Implement(im) => im.implemented is ByIndex && im.implementation is ByIndex,
        _ => true,
    }
}

/// A list with nothing left to de-inline.
pub open spec fn deinlined(items: Seq<AdapterView>) -> bool {
    forall|i: int| 0 <= i < items.len() ==> deinlined_item(#[trigger] items[i])
}

/// An item whose every type use already carries an index.
pub open spec fn ty_indexed_item(a: AdapterView) -> bool {
    match a {
        AdapterView::Import(i) => i.ty.index is Some,
        AdapterView::Func(f) => f.ty.index is Some,
        AdapterView::Implement(im) => match im.implementation {
            crate::ast::ImplementationView::Inline { ty, .. } => ty.index is Some,
            _ => true,
        },
        _ => true,
    }
}

/// A list whose every type use already carries an index.
pub open spec fn ty_indexed(items: Seq<AdapterView>) -> bool {
    forall|i: int| 0 <= i < items.len() ==> ty_indexed_item(#[trigger] items[i])
}

/// Lowering is idempotent, first part: on a module with nothing left to
/// de-inline, the first de-inlining pass returns it unchanged, whatever the
/// counter.
pub proof fn theorem_deinline_imports_idempotent(funcs: int, items: Seq<AdapterView>)
    requires
        deinlined(items),
    ensures
        crate::resolve::expand::sp_deinline_imports(funcs, items).0 == items,
    decreases items.len(),
{
    if items.len() > 0 {
        let (pre, it, f1) = crate::resolve::expand::sp_deinline_import(funcs, items[0]);
        assert(deinlined_item(items[0]));
        assert(pre =~= Seq::<AdapterView>::empty());
        assert(it == items[0]);
        assert(forall|i: int|
            0 <= i < items.skip(1).len() ==> deinlined_item(#[trigger] items.skip(1)[i]));
        theorem_deinline_imports_idempotent(f1, items.skip(1));
        assert(pre + seq![it] + crate::resolve::expand::sp_deinline_imports(f1, items.skip(1)).0
            =~= items);
    } else {
        assert(crate::resolve::expand::sp_deinline_imports(funcs, items).0 =~= items);
    }
}

/// Lowering is idempotent, second part: on a module with nothing left to
/// de-inline, the second de-inlining pass returns it unchanged and cannot
/// fail, whatever the counter and the core imports.
pub proof fn theorem_deinline_non_imports_idempotent(
    funcs: int,
    core: Seq<crate::ast::CoreFuncImportView>,
    items: Seq<AdapterView>,
)
    requires
        deinlined(items),
    ensures
        crate::resolve::expand::sp_deinline_non_imports(funcs, core, items) matches Ok(r) && r.0
            == items,
    decreases items.len(),
{
    if items.len() > 0 {
        assert(deinlined_item(items[0]));
        let step = crate::resolve::expand::sp_deinline_non_import(funcs, core, items[0]);
        let (pre, it, f1) = step->Ok_0;
        assert(pre =~= Seq::<AdapterView>::empty());
        match items[0] {
            AdapterView::Func(f) => {
                assert(it == AdapterView::Func(crate::ast::FuncView { export: None, ..f }));
                assert(it =~= items[0]);
            },
            AdapterView::Implement(im) => {
                assert(it =~= items[0]);
            },
            _ => {
                assert(it == items[0]);
            },
        }
        assert(forall|i: int|
            0 <= i < items.skip(1).len() ==> deinlined_item(#[trigger] items.skip(1)[i]));
        theorem_deinline_non_imports_idempotent(f1, core, items.skip(1));
        let rest = crate::resolve::expand::sp_deinline_non_imports(f1, core, items.skip(1))->Ok_0;
        assert(pre + seq![it] + rest.0 =~= items);
    }
}

/// Lowering is idempotent, third part: on a module whose every type use
/// already carries an index, the expansion pass synthesizes nothing and
/// returns the items unchanged, whatever table it starts from.
pub proof fn theorem_tyexpand_idempotent(
    table: Seq<crate::resolve::tyexpand::TyKeyView>,
    ntypes: int,
    items: Seq<AdapterView>,
)
    requires
        ty_indexed(items),
    ensures
        crate::resolve::tyexpand::sp_expand_all(table, ntypes, items).0 == items,
    decreases items.len(),
{
    if items.len() > 0 {
        let (pre, it, table1, n1) = crate::resolve::tyexpand::sp_expand(table, ntypes, items[0]);
        assert(ty_indexed_item(items[0]));
        assert(pre =~= Seq::<AdapterView>::empty());
        match items[0] {
            AdapterView::Import(im) => {
                assert(it =~= items[0]);
            },
            AdapterView::Func(f) => {
                assert(it =~= items[0]);
            },
            AdapterView::Implement(im) => {
                assert(it =~= items[0]);
            },
            _ => {
                assert(it == items[0]);
            },
        }
        assert(forall|i: int|
            0 <= i < items.skip(1).len() ==> ty_indexed_item(#[trigger] items.skip(1)[i]));
        theorem_tyexpand_idempotent(table1, n1, items.skip(1));
        assert(pre + seq![it] + crate::resolve::tyexpand::sp_expand_all(
            table1,
            n1,
            items.skip(1),
        ).0 =~= items);
    } else {
        assert(crate::resolve::tyexpand::sp_expand_all(table, ntypes, items).0 =~= items);
    }
}

/// No function item is still given as sugar for an import.
pub open spec fn no_func_import(items: Seq<AdapterView>) -> bool {
    forall|i: int|
        0 <= i < items.len() ==> match #[trigger] items[i] {
            AdapterView::Func(f) => f.kind is Inline,
            _ => true,
        }
}

/// The first de-inlining pass leaves no function given as import sugar.
proof fn lemma_deinline_imports_output(funcs: int, items: Seq<AdapterView>)
    ensures
        no_func_import(crate::resolve::expand::sp_deinline_imports(funcs, items).0),
    decreases items.len(),
{
    if items.len() > 0 {
        let (pre, it, f1) = crate::resolve::expand::sp_deinline_import(funcs, items[0]);
        let (rest, _) = crate::resolve::expand::sp_deinline_imports(f1, items.skip(1));
        lemma_deinline_imports_output(f1, items.skip(1));
        let out = pre + seq![it] + rest;
        assert forall|i: int| 0 <= i < out.len() implies match #[trigger] out[i] {
            AdapterView::Func(f) => f.kind is Inline,
            _ => true,
        } by {
            if i < pre.len() {
                assert(out[i] == pre[i]);
            } else if i == pre.len() {
                assert(out[i] == it);
            } else {
                assert(out[i] == rest[i - pre.len() - 1]);
            }
        }
    }
}

/// The second de-inlining pass leaves nothing to de-inline, when no
/// function is still given as import sugar.
proof fn lemma_deinline_non_imports_output(
    funcs: int,
    core: Seq<crate::ast::CoreFuncImportView>,
    items: Seq<AdapterView>,
)
    requires
        no_func_import(items),
        crate::resolve::expand::sp_deinline_non_imports(funcs, core, items) is Ok,
    ensures
        deinlined(crate::resolve::expand::sp_deinline_non_imports(funcs, core, items)->Ok_0.0),
    decreases items.len(),
{
    if items.len() > 0 {
        let (pre, it, f1) = crate::resolve::expand::sp_deinline_non_import(
            funcs,
            core,
            items[0],
        )->Ok_0;
        assert(forall|i: int|
            0 <= i < items.skip(1).len() ==> match #[trigger] items.skip(1)[i] {
                AdapterView::Func(f) => f.kind is Inline,
                _ => true,
            });
        lemma_deinline_non_imports_output(f1, core, items.skip(1));
        let (rest, _) = crate::resolve::expand::sp_deinline_non_imports(
            f1,
            core,
            items.skip(1),
        )->Ok_0;
        let out = pre + seq![it] + rest;
        assert forall|i: int| 0 <= i < out.len() implies deinlined_item(#[trigger] out[i]) by {
            if i < pre.len() {
                assert(out[i] == pre[i]);
                assert(pre.len() <= 1);
            } else if i == pre.len() {
                assert(out[i] == it);
            } else {
                assert(out[i] == rest[i - pre.len() - 1]);
            }
        }
    }
}

/// A stable partition keeps any pointwise property of its items.
proof fn lemma_filter_preserves(
    s: Seq<AdapterView>,
    p: spec_fn(AdapterView) -> bool,
    q: spec_fn(AdapterView) -> bool,
)
    requires
        forall|i: int| 0 <= i < s.len() ==> q(#[trigger] s[i]),
    ensures
        forall|i: int| 0 <= i < s.filter(p).len() ==> q(#[trigger] s.filter(p)[i]),
    decreases s.len(),
{
    reveal(Seq::filter);
    if s.len() > 0 {
        assert(forall|i: int| 0 <= i < s.drop_last().len() ==> q(#[trigger] s.drop_last()[i]));
        lemma_filter_preserves(s.drop_last(), p, q);
        let out = s.filter(p);
        let sub = s.drop_last().filter(p);
        assert forall|i: int| 0 <= i < out.len() implies q(out[i]) by {
            if p(s.last()) {
                if i < out.len() - 1 {
                    assert(out[i] == sub[i]);
                } else {
                    assert(out[i] == s.last());
                }
            } else {
                assert(out[i] == sub[i]);
            }
        }
    }
}

/// A stable partition keeps any pointwise property of its items.
proof fn lemma_stable_front_preserves(
    s: Seq<AdapterView>,
    p: spec_fn(AdapterView) -> bool,
    q: spec_fn(AdapterView) -> bool,
)
    requires
        forall|i: int| 0 <= i < s.len() ==> q(#[trigger] s[i]),
    ensures
        forall|i: int| 0 <= i < stable_front(s, p).len() ==> q(#[trigger] stable_front(s, p)[i]),
{
    lemma_filter_preserves(s, p, q);
    lemma_filter_preserves(s, |a: AdapterView| !p(a), q);
    let front = s.filter(p);
    let back = s.filter(|a: AdapterView| !p(a));
    assert forall|i: int| 0 <= i < stable_front(s, p).len() implies q(
        #[trigger] stable_front(s, p)[i],
    ) by {
        if i < front.len() {
            assert(stable_front(s, p)[i] == front[i]);
        } else {
            assert(stable_front(s, p)[i] == back[i - front.len()]);
        }
    }
}

/// The expansion pass gives every type use an index and de-inlines
/// nothing new.
proof fn lemma_tyexpand_output(
    table: Seq<crate::resolve::tyexpand::TyKeyView>,
    ntypes: int,
    items: Seq<AdapterView>,
)
    requires
        deinlined(items),
    ensures
        ({
            let out = crate::resolve::tyexpand::sp_expand_all(table, ntypes, items).0;
            deinlined(out) && ty_indexed(out)
        }),
    decreases items.len(),
{
    if items.len() > 0 {
        let (pre, it, table1, n1) = crate::resolve::tyexpand::sp_expand(table, ntypes, items[0]);
        assert(deinlined_item(items[0]));
        assert(forall|i: int|
            0 <= i < items.skip(1).len() ==> deinlined_item(#[trigger] items.skip(1)[i]));
        lemma_tyexpand_output(table1, n1, items.skip(1));
        let (rest, _, _) = crate::resolve::tyexpand::sp_expand_all(table1, n1, items.skip(1));
        let out = pre + seq![it] + rest;
        assert forall|i: int| 0 <= i < out.len() implies deinlined_item(#[trigger] out[i])
            && ty_indexed_item(out[i]) by {
            if i < pre.len() {
                assert(out[i] == pre[i]);
                assert(pre.len() <= 1);
            } else if i == pre.len() {
                assert(out[i] == it);
            } else {
                assert(out[i] == rest[i - pre.len() - 1]);
            }
        }
    }
}

/// Name resolution keeps the module fully de-inlined and indexed.
proof fn lemma_resolve_all_output(
    st: crate::resolve::names::RSt,
    core_funcs: Seq<(Seq<char>, u32)>,
    core_mems: Seq<(Seq<char>, u32)>,
    items: Seq<AdapterView>,
)
    requires
        deinlined(items),
        ty_indexed(items),
        crate::resolve::names::sp_resolve_all(st, core_funcs, core_mems, items) is Ok,
    ensures
        ({
            let out = crate::resolve::names::sp_resolve_all(
                st,
                core_funcs,
                core_mems,
                items,
            )->Ok_0;
            deinlined(out) && ty_indexed(out)
        }),
    decreases items.len(),
{
    if items.len() > 0 {
        let it = crate::resolve::names::sp_resolve_adapter(
            st,
            core_funcs,
            core_mems,
            items[0],
        )->Ok_0;
        assert(deinlined_item(items[0]) && ty_indexed_item(items[0]));
        assert(deinlined_item(it) && ty_indexed_item(it));
        assert(forall|i: int|
            0 <= i < items.skip(1).len() ==> deinlined_item(#[trigger] items.skip(1)[i])
                && ty_indexed_item(items.skip(1)[i]));
        lemma_resolve_all_output(st, core_funcs, core_mems, items.skip(1));
        let rest = crate::resolve::names::sp_resolve_all(
            st,
            core_funcs,
            core_mems,
            items.skip(1),
        )->Ok_0;
        let out = seq![it] + rest;
        assert forall|i: int| 0 <= i < out.len() implies deinlined_item(#[trigger] out[i])
            && ty_indexed_item(out[i]) by {
            if i == 0 {
                assert(out[i] == it);
            } else {
                assert(out[i] == rest[i - 1]);
            }
        }
    }
}

/// Lowering is idempotent: what `sp_lower` yields is fully de-inlined and
/// indexed, so by the three pass-idempotence theorems a second lowering
/// de-inlines nothing further and synthesizes no new type.
pub proof fn theorem_lower_idempotent(
    core_imports: Seq<crate::ast::CoreFuncImportView>,
    core_funcs: Seq<(Seq<char>, u32)>,
    core_mems: Seq<(Seq<char>, u32)>,
    items: Seq<AdapterView>,
)
    requires
        sp_lower(core_imports, core_funcs, core_mems, items) is Ok,
    ensures
        ({
            let out = sp_lower(core_imports, core_funcs, core_mems, items)->Ok_0;
            &&& deinlined(out)
            &&& ty_indexed(out)
            &&& forall|f: int|
                (#[trigger] crate::resolve::expand::sp_deinline_imports(f, out)).0 == out
            &&& forall|f: int|
                (#[trigger] crate::resolve::expand::sp_deinline_non_imports(
                    f,
                    core_imports,
                    out,
                )) matches Ok(r) && r.0 == out
            &&& forall|n: int|
                (#[trigger] crate::resolve::tyexpand::sp_expand_all(Seq::empty(), n, out)).0
                    == out
        }),
{
    let (items1, f1) = crate::resolve::expand::sp_deinline_imports(0, items);
    lemma_deinline_imports_output(0, items);
    lemma_deinline_non_imports_output(f1, core_imports, items1);
    let (items2, _) = crate::resolve::expand::sp_deinline_non_imports(
        f1,
        core_imports,
        items1,
    )->Ok_0;
    let p3 = |a: AdapterView| is_type_item(a);
    lemma_stable_front_preserves(items2, p3, |a: AdapterView| deinlined_item(a));
    let items3 = stable_front(items2, p3);
    lemma_tyexpand_output(Seq::empty(), 0, items3);
    let (items4, _, _) = crate::resolve::tyexpand::sp_expand_all(Seq::empty(), 0, items3);
    let p5 = |a: AdapterView| is_import_item(a);
    lemma_stable_front_preserves(items4, p5, |a: AdapterView| deinlined_item(a));
    lemma_stable_front_preserves(items4, p5, |a: AdapterView| ty_indexed_item(a));
    let items5 = stable_front(items4, p5);
    let st = crate::resolve::names::sp_register_all(crate::resolve::names::rst_empty(), items5);
    lemma_resolve_all_output(st, core_funcs, core_mems, items5);
    let out = sp_lower(core_imports, core_funcs, core_mems, items)->Ok_0;
    assert(deinlined(out));
    assert(ty_indexed(out));
    assert forall|f: int|
        (#[trigger] crate::resolve::expand::sp_deinline_imports(f, out)).0 == out by {
        theorem_deinline_imports_idempotent(f, out);
    }
    assert forall|f: int|
        (#[trigger] crate::resolve::expand::sp_deinline_non_imports(
            f,
            core_imports,
            out,
        )) matches Ok(r) && r.0 == out by {
        theorem_deinline_non_imports_idempotent(f, core_imports, out);
    }
    assert forall|n: int|
        (#[trigger] crate::resolve::tyexpand::sp_expand_all(Seq::empty(), n, out)).0 == out by {
        theorem_tyexpand_idempotent(Seq::empty(), n, out);
    }
}

} // verus!
