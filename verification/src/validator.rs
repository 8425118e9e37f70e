//! The validator: builds tables of host types, functions and memories from
//! the containing wasm module, then walks the interface section, enforcing
//! subsection order and simulating the adapter stack machine.

use vstd::prelude::*;
use crate::error::ErrView;
use crate::reader::{TypeView, ImportView, ExportView, FuncView, Implement, Instruction,
    SectionView, sd_payload};
use crate::valtype::{ValType, HostValType, spec_tys_match, spec_wasm2adapter, tys_match,
    wasm2adapter};
use crate::verror::{VError, VErrView, CoreFunc};

verus! {

/// A function type of the host module.
pub struct HostFuncType {
    /// The host parameter types, in order.
    pub params: Vec<HostValType>,
    /// The host result types, in order.
    pub results: Vec<HostValType>,
}

/// Specification-level mirror of `HostFuncType`.
pub struct HostTypeView {
    pub params: Seq<HostValType>,
    pub results: Seq<HostValType>,
}

impl View for HostFuncType {
    type V = HostTypeView;

    open spec fn view(&self) -> HostTypeView {
        HostTypeView { params: self.params@, results: self.results@ }
    }
}

/// One section of the containing wasm module, reduced to what the validator
/// reads of it.
pub enum CoreSection {
    /// The function types of the type section, in declaration order.
    Types(Vec<HostFuncType>),
    /// The import section's entries, in declaration order.
    Imports(Vec<CoreImport>),
    /// The type indices of the function section, in declaration order.
    Funcs(Vec<u32>),
    /// How many memories the memory section declares.
    Memories(u32),
    /// An interface-types custom section: its absolute offset in the file,
    /// and its payload.
    Interface(usize, Vec<u8>),
}

/// One import of the containing wasm module, reduced to what the validator
/// reads of it.
#[derive(Clone, Copy, Debug, PartialEq, Eq, Structural)]
pub enum CoreImport {
    /// A function import with its core type index.
    Func(u32),
    /// A memory import.
    Memory,
    /// Any other import.
    Other,
}

/// Specification-level mirror of `CoreSection`.
pub enum CoreSectionView {
    Types(Seq<HostTypeView>),
    Imports(Seq<CoreImport>),
    Funcs(Seq<u32>),
    Memories(u32),
    Interface(int, Seq<u8>),
}

impl View for CoreSection {
    type V = CoreSectionView;

    open spec fn view(&self) -> CoreSectionView {
        match self {
            CoreSection::Types(v) => CoreSectionView::Types(crate::decode::seq_view(v@)),
            CoreSection::Imports(v) => CoreSectionView::Imports(v@),
            CoreSection::Funcs(v) => CoreSectionView::Funcs(v@),
            CoreSection::Memories(n) => CoreSectionView::Memories(*n),
            CoreSection::Interface(off, d) => CoreSectionView::Interface(*off as int, d@),
        }
    }
}

/// The validator's whole state: the host tables built from the core
/// sections, and the interface tables built from the interface section.
#[verifier::ext_equal]
pub struct VStView {
    pub visited: bool,
    pub last_order: u8,
    pub memories: u64,
    pub types: Seq<TypeView>,
    pub funcs: Seq<u32>,
    pub exports: Seq<Seq<char>>,
    pub core_types: Seq<HostTypeView>,
    pub core_funcs: Seq<(u32, CoreFunc)>,
}

/// Looks up a core type index.
pub open spec fn core_type_at(st: VStView, idx: u32) -> Result<HostTypeView, VErrView> {
    if idx < st.core_types.len() {
        Ok(st.core_types[idx as int])
    } else {
        Err(VErrView::TypeIdxTooBig(idx))
    }
}

/// Looks up an adapter type index.
pub open spec fn adapter_type_at(st: VStView, idx: u32) -> Result<TypeView, VErrView> {
    if idx < st.types.len() {
        Ok(st.types[idx as int])
    } else {
        Err(VErrView::AdapterTypeIdxTooBig(idx))
    }
}

/// Looks up an adapter function index, yielding its type.
pub open spec fn adapter_func_at(st: VStView, idx: u32) -> Result<TypeView, VErrView> {
    if idx < st.funcs.len() {
        adapter_type_at(st, st.funcs[idx as int])
    } else {
        Err(VErrView::AdapterFuncIdxTooBig(idx))
    }
}

/// Looks up a core function index, yielding its type and its origin.
pub open spec fn core_func_at(st: VStView, idx: u32) -> Result<
    (HostTypeView, CoreFunc),
    VErrView,
> {
    if idx < st.core_funcs.len() {
        let (t, k) = st.core_funcs[idx as int];
        match core_type_at(st, t) {
            Ok(ty) => Ok((ty, k)),
            Err(e) => Err(e),
        }
    } else {
        Err(VErrView::CoreFuncIdxTooBig(idx))
    }
}

/// Pops one value that must match a host type through the equivalence
/// table.
pub open spec fn sim_expect_wasm(expected: HostValType, stack: Seq<ValType>) -> Result<
    Seq<ValType>,
    VErrView,
> {
    if stack.len() == 0 {
        Err(VErrView::ExpectedWasmType(expected, None))
    } else if spec_tys_match(stack.last(), expected) {
        Ok(stack.drop_last())
    } else {
        Err(VErrView::ExpectedWasmType(expected, Some(stack.last())))
    }
}

/// Pops one value that must be exactly the given interface type.
pub open spec fn sim_expect_interface(expected: ValType, stack: Seq<ValType>) -> Result<
    Seq<ValType>,
    VErrView,
> {
    if stack.len() == 0 {
        Err(VErrView::ExpectedInterfaceType(expected, None))
    } else if stack.last() == expected {
        Ok(stack.drop_last())
    } else {
        Err(VErrView::ExpectedInterfaceType(expected, Some(stack.last())))
    }
}

/// Pops host-typed parameters in reverse declaration order.
pub open spec fn sim_pop_wasm_rev(params: Seq<HostValType>, stack: Seq<ValType>) -> Result<
    Seq<ValType>,
    VErrView,
>
    decreases params.len(),
{
    if params.len() == 0 {
        Ok(stack)
    } else {
        match sim_expect_wasm(params.last(), stack) {
            Err(e) => Err(e),
            Ok(stack1) => sim_pop_wasm_rev(params.drop_last(), stack1),
        }
    }
}

/// Pops interface-typed parameters in reverse declaration order.
pub open spec fn sim_pop_interface_rev(params: Seq<ValType>, stack: Seq<ValType>) -> Result<
    Seq<ValType>,
    VErrView,
>
    decreases params.len(),
{
    if params.len() == 0 {
        Ok(stack)
    } else {
        match sim_expect_interface(params.last(), stack) {
            Err(e) => Err(e),
            Ok(stack1) => sim_pop_interface_rev(params.drop_last(), stack1),
        }
    }
}

/// Pushes host results in declaration order, converted to interface types.
pub open spec fn sim_push_results(results: Seq<HostValType>, stack: Seq<ValType>) -> Result<
    Seq<ValType>,
    VErrView,
>
    decreases results.len(),
{
    if results.len() == 0 {
        Ok(stack)
    } else {
        match spec_wasm2adapter(results[0]) {
            None => Err(VErrView::NotAnAdapterType(results[0])),
            Some(v) => sim_push_results(results.skip(1), stack.push(v)),
        }
    }
}

/// Checks host-typed parameters against the stack top in declaration
/// order, without consuming them in the end: what `defer-call-core` does.
pub open spec fn sim_peek_wasm(params: Seq<HostValType>, stack: Seq<ValType>) -> Result<
    Seq<ValType>,
    VErrView,
>
    decreases params.len(),
{
    if params.len() == 0 {
        Ok(stack)
    } else {
        match sim_expect_wasm(params[0], stack) {
            Err(e) => Err(e),
            Ok(stack1) => sim_peek_wasm(params.skip(1), stack1),
        }
    }
}

/// Re-pushes host parameters in reverse declaration order, converted to
/// interface types: the second half of `defer-call-core`.
pub open spec fn sim_push_rev(params: Seq<HostValType>, stack: Seq<ValType>) -> Result<
    Seq<ValType>,
    VErrView,
>
    decreases params.len(),
{
    if params.len() == 0 {
        Ok(stack)
    } else {
        match spec_wasm2adapter(params.last()) {
            None => Err(VErrView::NotAnAdapterType(params.last())),
            Some(v) => sim_push_rev(params.drop_last(), stack.push(v)),
        }
    }
}

/// The effect of one instruction on the symbolic stack.
pub open spec fn sim_instr(
    st: VStView,
    params: Seq<ValType>,
    instr: Instruction,
    stack: Seq<ValType>,
) -> Result<Seq<ValType>, VErrView> {
    match instr {
        Instruction::ArgGet(idx) => {
            if idx < params.len() {
                Ok(stack.push(params[idx as int]))
            } else {
                Err(VErrView::ParamIdxOutOfBounds(idx))
            }
        },
        Instruction::CallCore(idx) => match core_func_at(st, idx) {
            Err(e) => Err(e),
            Ok((ty, _)) => match sim_pop_wasm_rev(ty.params, stack) {
                Err(e) => Err(e),
                Ok(stack1) => sim_push_results(ty.results, stack1),
            },
        },
        Instruction::MemoryToString(mem) => {
            if mem as u64 >= st.memories {
                Err(VErrView::MemoryIdxOutOfBounds(mem))
            } else {
                match sim_expect_wasm(HostValType::I32, stack) {
                    Err(e) => Err(e),
                    Ok(stack1) => match sim_expect_wasm(HostValType::I32, stack1) {
                        Err(e) => Err(e),
                        Ok(stack2) => Ok(stack2.push(ValType::String)),
                    },
                }
            }
        },
        Instruction::StringToMemory(args) => {
            if args.mem as u64 >= st.memories {
                Err(VErrView::MemoryIdxOutOfBounds(args.mem))
            } else {
                match core_func_at(st, args.malloc) {
                    Err(e) => Err(e),
                    Ok((ty, _)) => {
                        if ty.params =~= seq![HostValType::I32] && ty.results =~= seq![
                            HostValType::I32,
                        ] {
                            match sim_expect_interface(ValType::String, stack) {
                                Err(e) => Err(e),
                                Ok(stack1) => Ok(
                                    stack1.push(ValType::I32).push(ValType::I32),
                                ),
                            }
                        } else {
                            Err(VErrView::BadMallocSignature(args.malloc))
                        }
                    },
                }
            }
        },
        Instruction::CallAdapter(idx) => match adapter_func_at(st, idx) {
            Err(e) => Err(e),
            Ok(ty) => match sim_pop_interface_rev(ty.params, stack) {
                Err(e) => Err(e),
                Ok(stack1) => Ok(stack1 + ty.results),
            },
        },
        Instruction::DeferCallCore(idx) => match core_func_at(st, idx) {
            Err(e) => Err(e),
            Ok((ty, _)) => {
                if ty.results.len() > 0 {
                    Err(VErrView::DeferredCallReturns)
                } else {
                    match sim_peek_wasm(ty.params, stack) {
                        Err(e) => Err(e),
                        Ok(stack1) => sim_push_rev(ty.params, stack1),
                    }
                }
            },
        },
        Instruction::End => Err(VErrView::ExtraEnd),
        _ => {
            let (src, dst) = conversion_types(instr);
            match src {
                ValType::I32 => match sim_expect_wasm(HostValType::I32, stack) {
                    Err(e) => Err(e),
                    Ok(stack1) => Ok(stack1.push(dst)),
                },
                ValType::I64 => match sim_expect_wasm(HostValType::I64, stack) {
                    Err(e) => Err(e),
                    Ok(stack1) => Ok(stack1.push(dst)),
                },
                _ => match sim_expect_interface(src, stack) {
                    Err(e) => Err(e),
                    Ok(stack1) => Ok(stack1.push(dst)),
                },
            }
        },
    }
}

/// The source and target value types of a conversion instruction.
pub open spec fn conversion_types(i: Instruction) -> (ValType, ValType) {
    match i {
        Instruction::I32ToS8 => (ValType::I32, ValType::S8),
        Instruction::I32ToS8X => (ValType::I32, ValType::S8),
        Instruction::I32ToU8 => (ValType::I32, ValType::U8),
        Instruction::I32ToS16 => (ValType::I32, ValType::S16),
        Instruction::I32ToS16X => (ValType::I32, ValType::S16),
        Instruction::I32ToU16 => (ValType::I32, ValType::U16),
        Instruction::I32ToS32 => (ValType::I32, ValType::S32),
        Instruction::I32ToU32 => (ValType::I32, ValType::U32),
        Instruction::I32ToS64 => (ValType::I32, ValType::S64),
        Instruction::I32ToU64 => (ValType::I32, ValType::U64),
        Instruction::I64ToS8 => (ValType::I64, ValType::S8),
        Instruction::I64ToS8X => (ValType::I64, ValType::S8),
        Instruction::I64ToU8 => (ValType::I64, ValType::U8),
        Instruction::I64ToS16 => (ValType::I64, ValType::S16),
        Instruction::I64ToS16X => (ValType::I64, ValType::S16),
        Instruction::I64ToU16 => (ValType::I64, ValType::U16),
        Instruction::I64ToS32 => (ValType::I64, ValType::S32),
        Instruction::I64ToS32X => (ValType::I64, ValType::S32),
        Instruction::I64ToU32 => (ValType::I64, ValType::U32),
        Instruction::I64ToS64 => (ValType::I64, ValType::S64),
        Instruction::I64ToU64 => (ValType::I64, ValType::U64),
        Instruction::S8ToI32 => (ValType::S8, ValType::I32),
        Instruction::U8ToI32 => (ValType::U8, ValType::I32),
        Instruction::S16ToI32 => (ValType::S16, ValType::I32),
        Instruction::U16ToI32 => (ValType::U16, ValType::I32),
        Instruction::S32ToI32 => (ValType::S32, ValType::I32),
        Instruction::U32ToI32 => (ValType::U32, ValType::I32),
        Instruction::S64ToI32 => (ValType::S64, ValType::I32),
        Instruction::S64ToI32X => (ValType::S64, ValType::I32),
        Instruction::U64ToI32 => (ValType::U64, ValType::I32),
        Instruction::U64ToI32X => (ValType::U64, ValType::I32),
        Instruction::S8ToI64 => (ValType::S8, ValType::I64),
        Instruction::U8ToI64 => (ValType::U8, ValType::I64),
        Instruction::S16ToI64 => (ValType::S16, ValType::I64),
        Instruction::U16ToI64 => (ValType::U16, ValType::I64),
        Instruction::S32ToI64 => (ValType::S32, ValType::I64),
        Instruction::U32ToI64 => (ValType::U32, ValType::I64),
        Instruction::S64ToI64 => (ValType::S64, ValType::I64),
        Instruction::U64ToI64 => (ValType::U64, ValType::I64),
        _ => (ValType::I32, ValType::I32),
    }
}

/// The effect of a whole body on the symbolic stack, instruction by
/// instruction.
pub open spec fn sim_instrs(
    st: VStView,
    params: Seq<ValType>,
    instrs: Seq<Instruction>,
    stack: Seq<ValType>,
) -> Result<Seq<ValType>, VErrView>
    decreases instrs.len(),
{
    if instrs.len() == 0 {
        Ok(stack)
    } else {
        match sim_instr(st, params, instrs[0], stack) {
            Err(e) => Err(e),
            Ok(stack1) => sim_instrs(st, params, instrs.skip(1), stack1),
        }
    }
}

/// What must hold of the residual stack at function exit: it is exactly the
/// declared results, in order.
pub open spec fn sim_check_exit(results: Seq<ValType>, stack: Seq<ValType>) -> Result<
    (),
    VErrView,
> {
    match sim_pop_interface_rev(results, stack) {
        Err(e) => Err(e),
        Ok(rest) => if rest.len() == 0 {
            Ok(())
        } else {
            Err(VErrView::StackNotEmpty)
        },
    }
}

/// Validates one function: its type index, then the simulated stack of its
/// body, which must end as exactly the declared results. The function is
/// visible to its own body.
pub open spec fn v_func(st: VStView, f: FuncView) -> Result<VStView, VErrView> {
    let st1 = VStView { funcs: st.funcs.push(f.ty), ..st };
    match adapter_type_at(st1, f.ty) {
        Err(e) => Err(e),
        Ok(ty) => match sim_instrs(st1, ty.params, f.instrs, Seq::empty()) {
            Err(e) => Err(e),
            Ok(stack) => match sim_check_exit(ty.results, stack) {
                Err(e) => Err(e),
                Ok(()) => Ok(st1),
            },
        },
    }
}

/// Validates one import: its type index must be valid; it then occupies the
/// next adapter-function slot.
pub open spec fn v_import(st: VStView, i: ImportView) -> Result<VStView, VErrView> {
    match adapter_type_at(st, i.ty) {
        Err(e) => Err(e),
        Ok(_) => Ok(VStView { funcs: st.funcs.push(i.ty), ..st }),
    }
}

/// Whether a name already occurs in the export list.
pub open spec fn name_taken(names: Seq<Seq<char>>, n: Seq<char>) -> bool {
    exists|i: int| 0 <= i < names.len() && names[i] == n
}

/// Validates one export: the function index must be valid and the name not
/// yet taken.
pub open spec fn v_export(st: VStView, e: ExportView) -> Result<VStView, VErrView> {
    match adapter_func_at(st, e.func) {
        Err(err) => Err(err),
        Ok(_) => if name_taken(st.exports, e.name) {
            Err(VErrView::DuplicateExport(e.name))
        } else {
            Ok(VStView { exports: st.exports.push(e.name), ..st })
        },
    }
}

/// Whether an adapter signature matches a core signature pointwise through
/// the equivalence table.
pub open spec fn sigs_match(a: TypeView, c: HostTypeView) -> bool {
    &&& a.params.len() == c.params.len()
    &&& forall|i: int|
        0 <= i < a.params.len() ==> spec_tys_match(#[trigger] a.params[i], c.params[i])
    &&& a.results.len() == c.results.len()
    &&& forall|i: int|
        0 <= i < a.results.len() ==> spec_tys_match(#[trigger] a.results[i], c.results[i])
}

/// Validates one implement entry: both indices valid, the core function
/// imported, and the signatures pointwise compatible.
pub open spec fn v_implement(st: VStView, im: Implement) -> Result<VStView, VErrView> {
    match adapter_func_at(st, im.adapter_func) {
        Err(e) => Err(e),
        Ok(aty) => match core_func_at(st, im.core_func) {
            Err(e) => Err(e),
            Ok((cty, kind)) => {
                if kind == CoreFunc::Local {
                    Err(VErrView::ImplementNotImport)
                } else if !sigs_match(aty, cty) {
                    Err(VErrView::SignatureMismatch(im.core_func, im.adapter_func))
                } else {
                    Ok(st)
                }
            },
        },
    }
}

/// Folds `v_func` over the items of a function subsection.
pub open spec fn v_funcs_items(st: VStView, items: Seq<FuncView>) -> Result<VStView, VErrView>
    decreases items.len(),
{
    if items.len() == 0 {
        Ok(st)
    } else {
        match v_func(st, items[0]) {
            Err(e) => Err(e),
            Ok(st1) => v_funcs_items(st1, items.skip(1)),
        }
    }
}

/// Folds `v_import` over the items of an import subsection.
pub open spec fn v_imports_items(st: VStView, items: Seq<ImportView>) -> Result<VStView, VErrView>
    decreases items.len(),
{
    if items.len() == 0 {
        Ok(st)
    } else {
        match v_import(st, items[0]) {
            Err(e) => Err(e),
            Ok(st1) => v_imports_items(st1, items.skip(1)),
        }
    }
}

/// Folds `v_export` over the items of an export subsection.
pub open spec fn v_exports_items(st: VStView, items: Seq<ExportView>) -> Result<VStView, VErrView>
    decreases items.len(),
{
    if items.len() == 0 {
        Ok(st)
    } else {
        match v_export(st, items[0]) {
            Err(e) => Err(e),
            Ok(st1) => v_exports_items(st1, items.skip(1)),
        }
    }
}

/// Folds `v_implement` over the items of an implement subsection.
pub open spec fn v_implements_items(st: VStView, items: Seq<Implement>) -> Result<
    VStView,
    VErrView,
>
    decreases items.len(),
{
    if items.len() == 0 {
        Ok(st)
    } else {
        match v_implement(st, items[0]) {
            Err(e) => Err(e),
            Ok(st1) => v_implements_items(st1, items.skip(1)),
        }
    }
}

/// The name of an interface subsection as ordering errors print it.
pub open spec fn section_order_name(sv: SectionView) -> Seq<char> {
    match sv {
        SectionView::Types(_) => "adapter type"@,
        SectionView::Imports(_) => "adapter import"@,
        SectionView::Funcs(_) => "adapter func"@,
        SectionView::Exports(_) => "adapter export"@,
        SectionView::Implements(_) => "adapter implement"@,
    }
}

/// The monotone ordering id of an interface subsection.
pub open spec fn section_order_id(sv: SectionView) -> u8 {
    match sv {
        SectionView::Types(_) => 100,
        SectionView::Imports(_) => 101,
        SectionView::Funcs(_) => 102,
        SectionView::Exports(_) => 103,
        SectionView::Implements(_) => 104,
    }
}

/// Validates one interface subsection: the ordering id must strictly
/// increase, then every item is validated in order.
pub open spec fn v_section(st: VStView, sv: SectionView) -> Result<VStView, VErrView> {
    let id = section_order_id(sv);
    if id <= st.last_order {
        Err(VErrView::OutOfOrder(section_order_name(sv)))
    } else {
        let st1 = VStView { last_order: id, ..st };
        match sv {
            SectionView::Types(items) => Ok(VStView { types: st1.types + items, ..st1 }),
            SectionView::Imports(items) => v_imports_items(st1, items),
            SectionView::Funcs(items) => v_funcs_items(st1, items),
            SectionView::Exports(items) => v_exports_items(st1, items),
            SectionView::Implements(items) => v_implements_items(st1, items),
        }
    }
}

/// Validates a decoded interface document, section by section.
pub open spec fn v_doc(st: VStView, doc: Seq<SectionView>) -> Result<VStView, VErrView>
    decreases doc.len(),
{
    if doc.len() == 0 {
        Ok(st)
    } else {
        match v_section(st, doc[0]) {
            Err(e) => Err(e),
            Ok(st1) => v_doc(st1, doc.skip(1)),
        }
    }
}

/// Validates the interface-types custom section found at `offset` holding
/// `data`: at most one per module; it must decode, and the decoded document
/// must validate.
pub open spec fn v_interface_section(st: VStView, offset: int, data: Seq<u8>) -> Result<
    VStView,
    VErrView,
> {
    if st.visited {
        Err(VErrView::TwoSections)
    } else {
        let st1 = VStView { visited: true, ..st };
        match sd_payload(offset, data) {
            Err(e) => Err(VErrView::Parse(e)),
            Ok(doc) => v_doc(st1, doc),
        }
    }
}

/// The fresh validator state: nothing seen yet.
pub open spec fn initial_vst() -> VStView {
    VStView {
        visited: false,
        last_order: 0,
        memories: 0,
        types: Seq::empty(),
        funcs: Seq::empty(),
        exports: Seq::empty(),
        core_types: Seq::empty(),
        core_funcs: Seq::empty(),
    }
}

/// Adds to the memory count, saturating at the top of the counter.
pub open spec fn mem_add(m: u64, n: u64) -> u64 {
    if m + n <= u64::MAX {
        (m + n) as u64
    } else {
        u64::MAX
    }
}

/// Folds the import entries of the core import section into the state.
pub open spec fn v_core_imports(st: VStView, items: Seq<CoreImport>) -> Result<VStView, VErrView>
    decreases items.len(),
{
    if items.len() == 0 {
        Ok(st)
    } else {
        match items[0] {
            CoreImport::Func(ty) => match core_type_at(st, ty) {
                Err(e) => Err(e),
                Ok(_) => v_core_imports(
                    VStView { core_funcs: st.core_funcs.push((ty, CoreFunc::Import)), ..st },
                    items.skip(1),
                ),
            },
            CoreImport::Memory => v_core_imports(
                VStView { memories: mem_add(st.memories, 1), ..st },
                items.skip(1),
            ),
            CoreImport::Other => v_core_imports(st, items.skip(1)),
        }
    }
}

/// Folds the type indices of the core function section into the state.
pub open spec fn v_core_funcs(st: VStView, items: Seq<u32>) -> Result<VStView, VErrView>
    decreases items.len(),
{
    if items.len() == 0 {
        Ok(st)
    } else {
        match core_type_at(st, items[0]) {
            Err(e) => Err(e),
            Ok(_) => v_core_funcs(
                VStView { core_funcs: st.core_funcs.push((items[0], CoreFunc::Local)), ..st },
                items.skip(1),
            ),
        }
    }
}

/// The monotone ordering id of a core section; the interface custom
/// section carries none.
pub open spec fn core_order_id(cs: CoreSectionView) -> u8 {
    match cs {
        CoreSectionView::Types(_) => 1,
        CoreSectionView::Imports(_) => 2,
        CoreSectionView::Funcs(_) => 3,
        CoreSectionView::Memories(_) => 4,
        CoreSectionView::Interface(_, _) => 0,
    }
}

/// The name of a core section as ordering errors print it.
pub open spec fn core_order_name(cs: CoreSectionView) -> Seq<char> {
    match cs {
        CoreSectionView::Types(_) => "type"@,
        CoreSectionView::Imports(_) => "import"@,
        CoreSectionView::Funcs(_) => "function"@,
        CoreSectionView::Memories(_) => "memory"@,
        CoreSectionView::Interface(_, _) => ""@,
    }
}

/// Validates one section of the containing wasm module, building the host
/// tables; an interface custom section is validated in full.
pub open spec fn v_core_section(st: VStView, cs: CoreSectionView) -> Result<VStView, VErrView> {
    match cs {
        CoreSectionView::Interface(offset, data) => v_interface_section(st, offset, data),
        _ => {
            let id = core_order_id(cs);
            if id <= st.last_order {
                Err(VErrView::OutOfOrder(core_order_name(cs)))
            } else {
                let st1 = VStView { last_order: id, ..st };
                match cs {
                    CoreSectionView::Types(items) => Ok(
                        VStView { core_types: st1.core_types + items, ..st1 },
                    ),
                    CoreSectionView::Imports(items) => v_core_imports(st1, items),
                    CoreSectionView::Funcs(items) => v_core_funcs(st1, items),
                    CoreSectionView::Memories(n) => Ok(
                        VStView { memories: mem_add(st1.memories, n as u64), ..st1 },
                    ),
                    CoreSectionView::Interface(_, _) => Ok(st1),
                }
            }
        },
    }
}

/// Validates the sections of a whole module, in file order.
pub open spec fn v_core(st: VStView, sections: Seq<CoreSectionView>) -> Result<VStView, VErrView>
    decreases sections.len(),
{
    if sections.len() == 0 {
        Ok(st)
    } else {
        match v_core_section(st, sections[0]) {
            Err(e) => Err(e),
            Ok(st1) => v_core(st1, sections.skip(1)),
        }
    }
}

/// Whether a whole module validates: its core sections build the host
/// tables, and its interface section, if any, type-checks against them.
pub open spec fn v_module(sections: Seq<CoreSectionView>) -> Result<(), VErrView> {
    match v_core(initial_vst(), sections) {
        Err(e) => Err(e),
        Ok(_) => Ok(()),
    }
}

/// Pops one value that must match a host type.
fn expect_wasm(expected: HostValType, stack: &mut Vec<ValType>) -> (r: Result<(), VError>)
    ensures
        match sim_expect_wasm(expected, old(stack)@) {
            Ok(s) => r is Ok && final(stack)@ == s,
            Err(e) => r matches Err(er) && er@ == e,
        },
{
    match stack.pop() {
        None => Err(VError::ExpectedWasmType(expected, None)),
        Some(actual) => {
            if tys_match(actual, expected) {
                Ok(())
            } else {
                Err(VError::ExpectedWasmType(expected, Some(actual)))
            }
        },
    }
}

/// Pops one value that must be exactly the given interface type.
fn expect_interface(expected: ValType, stack: &mut Vec<ValType>) -> (r: Result<(), VError>)
    ensures
        match sim_expect_interface(expected, old(stack)@) {
            Ok(s) => r is Ok && final(stack)@ == s,
            Err(e) => r matches Err(er) && er@ == e,
        },
{
    match stack.pop() {
        None => Err(VError::ExpectedInterfaceType(expected, None)),
        Some(actual) => {
            if actual.to_byte() == expected.to_byte() {
                proof {
                    crate::valtype::lemma_valtype_byte_round_trip(actual);
                    crate::valtype::lemma_valtype_byte_round_trip(expected);
                }
                Ok(())
            } else {
                proof {
                    crate::valtype::lemma_valtype_byte_round_trip(actual);
                    crate::valtype::lemma_valtype_byte_round_trip(expected);
                }
                Err(VError::ExpectedInterfaceType(expected, Some(actual)))
            }
        },
    }
}

/// Pops host-typed parameters in reverse declaration order.
#[verifier::loop_isolation(false)]
fn pop_wasm_rev(params: &Vec<HostValType>, stack: &mut Vec<ValType>) -> (r: Result<(), VError>)
    ensures
        match sim_pop_wasm_rev(params@, old(stack)@) {
            Ok(s) => r is Ok && final(stack)@ == s,
            Err(e) => r matches Err(er) && er@ == e,
        },
{
    let mut j: usize = params.len();
    proof {
        assert(params@.take(params@.len() as int) =~= params@);
    }
    while j > 0
        invariant
            0 <= j <= params@.len(),
            sim_pop_wasm_rev(params@, old(stack)@) == sim_pop_wasm_rev(
                params@.take(j as int),
                stack@,
            ),
        decreases j,
    {
        let ghost stack0 = stack@;
        let ghost pre = params@.take(j as int);
        match expect_wasm(params[j - 1], stack) {
            Ok(()) => {
                j = j - 1;
                proof {
                    assert(pre.last() == params@[j as int]);
                    assert(pre.drop_last() =~= params@.take(j as int));
                }
            },
            Err(e) => {
                proof {
                    assert(pre.last() == params@[j - 1]);
                }
                return Err(e);
            },
        }
    }
    proof {
        assert(params@.take(0) =~= Seq::<HostValType>::empty());
    }
    Ok(())
}

/// Pops interface-typed parameters in reverse declaration order.
#[verifier::loop_isolation(false)]
fn pop_interface_rev(params: &Vec<ValType>, stack: &mut Vec<ValType>) -> (r: Result<(), VError>)
    ensures
        match sim_pop_interface_rev(params@, old(stack)@) {
            Ok(s) => r is Ok && final(stack)@ == s,
            Err(e) => r matches Err(er) && er@ == e,
        },
{
    let mut j: usize = params.len();
    proof {
        assert(params@.take(params@.len() as int) =~= params@);
    }
    while j > 0
        invariant
            0 <= j <= params@.len(),
            sim_pop_interface_rev(params@, old(stack)@) == sim_pop_interface_rev(
                params@.take(j as int),
                stack@,
            ),
        decreases j,
    {
        let ghost pre = params@.take(j as int);
        match expect_interface(params[j - 1], stack) {
            Ok(()) => {
                j = j - 1;
                proof {
                    assert(pre.last() == params@[j as int]);
                    assert(pre.drop_last() =~= params@.take(j as int));
                }
            },
            Err(e) => {
                proof {
                    assert(pre.last() == params@[j - 1]);
                }
                return Err(e);
            },
        }
    }
    proof {
        assert(params@.take(0) =~= Seq::<ValType>::empty());
    }
    Ok(())
}

/// Pushes host results in declaration order, converted to interface types.
#[verifier::loop_isolation(false)]
fn push_results(results: &Vec<HostValType>, stack: &mut Vec<ValType>) -> (r: Result<(), VError>)
    ensures
        match sim_push_results(results@, old(stack)@) {
            Ok(s) => r is Ok && final(stack)@ == s,
            Err(e) => r matches Err(er) && er@ == e,
        },
{
    let mut j: usize = 0;
    proof {
        assert(results@.skip(0) =~= results@);
    }
    while j < results.len()
        invariant
            0 <= j <= results@.len(),
            sim_push_results(results@, old(stack)@) == sim_push_results(
                results@.skip(j as int),
                stack@,
            ),
        decreases results@.len() - j,
    {
        let ghost rem = results@.skip(j as int);
        match wasm2adapter(results[j]) {
            Some(v) => {
                stack.push(v);
                j = j + 1;
                proof {
                    assert(rem[0] == results@[j - 1]);
                    assert(rem.skip(1) =~= results@.skip(j as int));
                }
            },
            None => {
                proof {
                    assert(rem[0] == results@[j as int]);
                }
                return Err(VError::NotAnAdapterType(results[j]));
            },
        }
    }
    proof {
        assert(results@.skip(results@.len() as int) =~= Seq::<HostValType>::empty());
    }
    Ok(())
}

/// Checks host-typed parameters against the stack in declaration order.
#[verifier::loop_isolation(false)]
fn peek_wasm(params: &Vec<HostValType>, stack: &mut Vec<ValType>) -> (r: Result<(), VError>)
    ensures
        match sim_peek_wasm(params@, old(stack)@) {
            Ok(s) => r is Ok && final(stack)@ == s,
            Err(e) => r matches Err(er) && er@ == e,
        },
{
    let mut j: usize = 0;
    proof {
        assert(params@.skip(0) =~= params@);
    }
    while j < params.len()
        invariant
            0 <= j <= params@.len(),
            sim_peek_wasm(params@, old(stack)@) == sim_peek_wasm(params@.skip(j as int), stack@),
        decreases params@.len() - j,
    {
        let ghost rem = params@.skip(j as int);
        match expect_wasm(params[j], stack) {
            Ok(()) => {
                j = j + 1;
                proof {
                    assert(rem[0] == params@[j - 1]);
                    assert(rem.skip(1) =~= params@.skip(j as int));
                }
            },
            Err(e) => {
                proof {
                    assert(rem[0] == params@[j as int]);
                }
                return Err(e);
            },
        }
    }
    proof {
        assert(params@.skip(params@.len() as int) =~= Seq::<HostValType>::empty());
    }
    Ok(())
}

/// Re-pushes host parameters in reverse declaration order, converted to
/// interface types.
#[verifier::loop_isolation(false)]
fn push_rev(params: &Vec<HostValType>, stack: &mut Vec<ValType>) -> (r: Result<(), VError>)
    ensures
        match sim_push_rev(params@, old(stack)@) {
            Ok(s) => r is Ok && final(stack)@ == s,
            Err(e) => r matches Err(er) && er@ == e,
        },
{
    let mut j: usize = params.len();
    proof {
        assert(params@.take(params@.len() as int) =~= params@);
    }
    while j > 0
        invariant
            0 <= j <= params@.len(),
            sim_push_rev(params@, old(stack)@) == sim_push_rev(params@.take(j as int), stack@),
        decreases j,
    {
        let ghost pre = params@.take(j as int);
        match wasm2adapter(params[j - 1]) {
            Some(v) => {
                stack.push(v);
                j = j - 1;
                proof {
                    assert(pre.last() == params@[j as int]);
                    assert(pre.drop_last() =~= params@.take(j as int));
                }
            },
            None => {
                proof {
                    assert(pre.last() == params@[j - 1]);
                }
                return Err(VError::NotAnAdapterType(params[j - 1]));
            },
        }
    }
    proof {
        assert(params@.take(0) =~= Seq::<HostValType>::empty());
    }
    Ok(())
}

/// The source and target value types of a conversion instruction.
fn conv_types_exec(i: &Instruction) -> (r: (ValType, ValType))
    ensures
        r == conversion_types(*i),
{
    match i {
        Instruction::I32ToS8 => (ValType::I32, ValType::S8),
        Instruction::I32ToS8X => (ValType::I32, ValType::S8),
        Instruction::I32ToU8 => (ValType::I32, ValType::U8),
        Instruction::I32ToS16 => (ValType::I32, ValType::S16),
        Instruction::I32ToS16X => (ValType::I32, ValType::S16),
        Instruction::I32ToU16 => (ValType::I32, ValType::U16),
        Instruction::I32ToS32 => (ValType::I32, ValType::S32),
        Instruction::I32ToU32 => (ValType::I32, ValType::U32),
        Instruction::I32ToS64 => (ValType::I32, ValType::S64),
        Instruction::I32ToU64 => (ValType::I32, ValType::U64),
        Instruction::I64ToS8 => (ValType::I64, ValType::S8),
        Instruction::I64ToS8X => (ValType::I64, ValType::S8),
        Instruction::I64ToU8 => (ValType::I64, ValType::U8),
        Instruction::I64ToS16 => (ValType::I64, ValType::S16),
        Instruction::I64ToS16X => (ValType::I64, ValType::S16),
        Instruction::I64ToU16 => (ValType::I64, ValType::U16),
        Instruction::I64ToS32 => (ValType::I64, ValType::S32),
        Instruction::I64ToS32X => (ValType::I64, ValType::S32),
        Instruction::I64ToU32 => (ValType::I64, ValType::U32),
        Instruction::I64ToS64 => (ValType::I64, ValType::S64),
        Instruction::I64ToU64 => (ValType::I64, ValType::U64),
        Instruction::S8ToI32 => (ValType::S8, ValType::I32),
        Instruction::U8ToI32 => (ValType::U8, ValType::I32),
        Instruction::S16ToI32 => (ValType::S16, ValType::I32),
        Instruction::U16ToI32 => (ValType::U16, ValType::I32),
        Instruction::S32ToI32 => (ValType::S32, ValType::I32),
        Instruction::U32ToI32 => (ValType::U32, ValType::I32),
        Instruction::S64ToI32 => (ValType::S64, ValType::I32),
        Instruction::S64ToI32X => (ValType::S64, ValType::I32),
        Instruction::U64ToI32 => (ValType::U64, ValType::I32),
        Instruction::U64ToI32X => (ValType::U64, ValType::I32),
        Instruction::S8ToI64 => (ValType::S8, ValType::I64),
        Instruction::U8ToI64 => (ValType::U8, ValType::I64),
        Instruction::S16ToI64 => (ValType::S16, ValType::I64),
        Instruction::U16ToI64 => (ValType::U16, ValType::I64),
        Instruction::S32ToI64 => (ValType::S32, ValType::I64),
        Instruction::U32ToI64 => (ValType::U32, ValType::I64),
        Instruction::S64ToI64 => (ValType::S64, ValType::I64),
        Instruction::U64ToI64 => (ValType::U64, ValType::I64),
        _ => (ValType::I32, ValType::I32),
    }
}

/// Copies a list of interface value types.
pub fn copy_valtypes_pub(vs: &Vec<ValType>) -> (r: Vec<ValType>)
    ensures
        r@ == vs@,
{
    let mut out: Vec<ValType> = Vec::new();
    let mut j: usize = 0;
    while j < vs.len()
        invariant
            0 <= j <= vs@.len(),
            out@ == vs@.take(j as int),
        decreases vs@.len() - j,
    {
        out.push(vs[j]);
        j = j + 1;
        proof {
            assert(out@ =~= vs@.take(j as int));
        }
    }
    proof {
        assert(vs@.take(vs@.len() as int) =~= vs@);
    }
    out
}

/// Copies a list of host value types.
fn copy_host_valtypes(vs: &Vec<HostValType>) -> (r: Vec<HostValType>)
    ensures
        r@ == vs@,
{
    let mut out: Vec<HostValType> = Vec::new();
    let mut j: usize = 0;
    while j < vs.len()
        invariant
            0 <= j <= vs@.len(),
            out@ == vs@.take(j as int),
        decreases vs@.len() - j,
    {
        out.push(vs[j]);
        j = j + 1;
        proof {
            assert(out@ =~= vs@.take(j as int));
        }
    }
    proof {
        assert(vs@.take(vs@.len() as int) =~= vs@);
    }
    out
}

/// A validator for a whole module: the host tables on one side, the
/// interface tables on the other.
pub struct Validator {
    visited: bool,
    last_order: u8,
    memories: u64,
    types: Vec<crate::reader::Type>,
    funcs: Vec<u32>,
    exports: Vec<String>,
    core_types: Vec<HostFuncType>,
    core_funcs: Vec<(u32, CoreFunc)>,
}

impl View for Validator {
    type V = VStView;

    closed spec fn view(&self) -> VStView {
        VStView {
            visited: self.visited,
            last_order: self.last_order,
            memories: self.memories,
            types: crate::decode::seq_view(self.types@),
            funcs: self.funcs@,
            exports: self.exports@.map_values(|s: String| s@),
            core_types: crate::decode::seq_view(self.core_types@),
            core_funcs: self.core_funcs@,
        }
    }
}

impl Validator {
    /// A fresh validator that has seen nothing yet.
    pub fn new() -> (r: Validator)
        ensures
            r@ == initial_vst(),
    {
        let r = Validator {
            visited: false,
            last_order: 0,
            memories: 0,
            types: Vec::new(),
            funcs: Vec::new(),
            exports: Vec::new(),
            core_types: Vec::new(),
            core_funcs: Vec::new(),
        };
        proof {
            assert(r@.types =~= initial_vst().types);
            assert(r@.exports =~= initial_vst().exports);
            assert(r@.core_types =~= initial_vst().core_types);
        }
        r
    }

    /// Looks up an adapter type index.
    fn adapter_type(&self, idx: u32) -> (r: Result<&crate::reader::Type, VError>)
        ensures
            match adapter_type_at(self@, idx) {
                Ok(t) => r matches Ok(ty) && ty@ == t,
                Err(e) => r matches Err(er) && er@ == e,
            },
    {
        if (idx as usize) < self.types.len() {
            proof {
                assert(self@.types[idx as int] == self.types@[idx as int]@);
            }
            Ok(&self.types[idx as usize])
        } else {
            Err(VError::AdapterTypeIdxTooBig(idx))
        }
    }

    /// Looks up an adapter function index, yielding its type.
    fn adapter_func(&self, idx: u32) -> (r: Result<&crate::reader::Type, VError>)
        ensures
            match adapter_func_at(self@, idx) {
                Ok(t) => r matches Ok(ty) && ty@ == t,
                Err(e) => r matches Err(er) && er@ == e,
            },
    {
        if (idx as usize) < self.funcs.len() {
            self.adapter_type(self.funcs[idx as usize])
        } else {
            Err(VError::AdapterFuncIdxTooBig(idx))
        }
    }

    /// Looks up a core function index, yielding its type and origin.
    fn core_func(&self, idx: u32) -> (r: Result<(&HostFuncType, CoreFunc), VError>)
        ensures
            match core_func_at(self@, idx) {
                Ok(t) => r matches Ok(p) && p.0@ == t.0 && p.1 == t.1,
                Err(e) => r matches Err(er) && er@ == e,
            },
    {
        if (idx as usize) < self.core_funcs.len() {
            let (t, k) = self.core_funcs[idx as usize];
            if (t as usize) < self.core_types.len() {
                proof {
                    assert(self@.core_types[t as int] == self.core_types@[t as int]@);
                }
                Ok((&self.core_types[t as usize], k))
            } else {
                Err(VError::TypeIdxTooBig(t))
            }
        } else {
            Err(VError::CoreFuncIdxTooBig(idx))
        }
    }

    /// Applies one instruction to the symbolic stack.
    fn validate_instr(
        &self,
        instr: &Instruction,
        params: &Vec<ValType>,
        stack: &mut Vec<ValType>,
    ) -> (r: Result<(), VError>)
        ensures
            match sim_instr(self@, params@, *instr, old(stack)@) {
                Ok(s) => r is Ok && final(stack)@ == s,
                Err(e) => r matches Err(er) && er@ == e,
            },
    {
        match instr {
            Instruction::ArgGet(idx) => {
                if (*idx as usize) < params.len() {
                    stack.push(params[*idx as usize]);
                    Ok(())
                } else {
                    Err(VError::ParamIdxOutOfBounds(*idx))
                }
            },
            Instruction::CallCore(idx) => {
                let ty = match self.core_func(*idx) {
                    Ok((t, _)) => t,
                    Err(e) => {
                        return Err(e);
                    },
                };
                match pop_wasm_rev(&ty.params, stack) {
                    Ok(()) => push_results(&ty.results, stack),
                    Err(e) => Err(e),
                }
            },
            Instruction::MemoryToString(mem) => {
                if *mem as u64 >= self.memories {
                    return Err(VError::MemoryIdxOutOfBounds(*mem));
                }
                match expect_wasm(HostValType::I32, stack) {
                    Ok(()) => {},
                    Err(e) => {
                        return Err(e);
                    },
                }
                match expect_wasm(HostValType::I32, stack) {
                    Ok(()) => {},
                    Err(e) => {
                        return Err(e);
                    },
                }
                stack.push(ValType::String);
                Ok(())
            },
            Instruction::StringToMemory(args) => {
                if args.mem as u64 >= self.memories {
                    return Err(VError::MemoryIdxOutOfBounds(args.mem));
                }
                let ty = match self.core_func(args.malloc) {
                    Ok((t, _)) => t,
                    Err(e) => {
                        return Err(e);
                    },
                };
                let sig_ok = ty.params.len() == 1 && ty.results.len() == 1 && tys_match(
                    ValType::I32,
                    ty.params[0],
                ) && tys_match(ValType::I32, ty.results[0]);
                if !sig_ok {
                    proof {
                        let tv = core_func_at(self@, args.malloc)->Ok_0.0;
                        assert(!(tv.params =~= seq![HostValType::I32] && tv.results =~= seq![
                            HostValType::I32,
                        ]));
                    }
                    return Err(VError::BadMallocSignature(args.malloc));
                }
                proof {
                    let tv = core_func_at(self@, args.malloc)->Ok_0.0;
                    assert(tv.params =~= seq![HostValType::I32]);
                    assert(tv.results =~= seq![HostValType::I32]);
                }
                match expect_interface(ValType::String, stack) {
                    Ok(()) => {},
                    Err(e) => {
                        return Err(e);
                    },
                }
                stack.push(ValType::I32);
                stack.push(ValType::I32);
                Ok(())
            },
            Instruction::CallAdapter(idx) => {
                let ty = match self.adapter_func(*idx) {
                    Ok(t) => t,
                    Err(e) => {
                        return Err(e);
                    },
                };
                match pop_interface_rev(&ty.params, stack) {
                    Ok(()) => {},
                    Err(e) => {
                        return Err(e);
                    },
                }
                let mut j: usize = 0;
                let ghost mid = stack@;
                while j < ty.results.len()
                    invariant
                        0 <= j <= ty.results@.len(),
                        stack@ == mid + ty.results@.take(j as int),
                    decreases ty.results@.len() - j,
                {
                    stack.push(ty.results[j]);
                    j = j + 1;
                    proof {
                        assert(stack@ =~= mid + ty.results@.take(j as int));
                    }
                }
                proof {
                    assert(mid + ty.results@.take(ty.results@.len() as int) =~= mid
                        + ty.results@);
                }
                Ok(())
            },
            Instruction::DeferCallCore(idx) => {
                let ty = match self.core_func(*idx) {
                    Ok((t, _)) => t,
                    Err(e) => {
                        return Err(e);
                    },
                };
                if ty.results.len() > 0 {
                    return Err(VError::DeferredCallReturns);
                }
                match peek_wasm(&ty.params, stack) {
                    Ok(()) => push_rev(&ty.params, stack),
                    Err(e) => Err(e),
                }
            },
            Instruction::End => Err(VError::ExtraEnd),
            _ => {
                let (src, dst) = conv_types_exec(instr);
                let step = match src {
                    ValType::I32 => expect_wasm(HostValType::I32, stack),
                    ValType::I64 => expect_wasm(HostValType::I64, stack),
                    _ => expect_interface(src, stack),
                };
                match step {
                    Ok(()) => {
                        stack.push(dst);
                        Ok(())
                    },
                    Err(e) => Err(e),
                }
            },
        }
    }
}

/// Whether an adapter signature matches a core signature pointwise.
fn sigs_match_exec(a: &crate::reader::Type, c: &HostFuncType) -> (r: bool)
    ensures
        r == sigs_match(a@, c@),
{
    if a.params.len() != c.params.len() || a.results.len() != c.results.len() {
        return false;
    }
    let mut j: usize = 0;
    while j < a.params.len()
        invariant
            0 <= j <= a.params@.len(),
            a.params@.len() == c.params@.len(),
            a.results@.len() == c.results@.len(),
            forall|i: int|
                0 <= i < j ==> spec_tys_match(#[trigger] a.params@[i], c.params@[i]),
        decreases a.params@.len() - j,
    {
        if !tys_match(a.params[j], c.params[j]) {
            return false;
        }
        j = j + 1;
    }
    let mut k: usize = 0;
    while k < a.results.len()
        invariant
            0 <= k <= a.results@.len(),
            a.params@.len() == c.params@.len(),
            a.results@.len() == c.results@.len(),
            forall|i: int|
                0 <= i < a.params@.len() ==> spec_tys_match(#[trigger] a.params@[i], c.params@[i]),
            forall|i: int|
                0 <= i < k ==> spec_tys_match(#[trigger] a.results@[i], c.results@[i]),
        decreases a.results@.len() - k,
    {
        if !tys_match(a.results[k], c.results[k]) {
            return false;
        }
        k = k + 1;
    }
    true
}

impl Validator {
    /// Validates one function item: type index, body simulation, and the
    /// residual stack, which must be exactly the declared results.
    #[verifier::loop_isolation(false)]
    fn validate_func(&mut self, f: &crate::reader::Func) -> (r: Result<(), VError>)
        ensures
            match v_func(old(self)@, f@) {
                Ok(st) => r is Ok && final(self)@ == st,
                Err(e) => r matches Err(er) && er@ == e,
            },
    {
        self.funcs.push(f.ty);
        let ghost st1 = VStView { funcs: old(self)@.funcs.push(f.ty), ..old(self)@ };
        proof {
            assert(self@ =~= st1);
        }
        let ty = match self.adapter_type(f.ty) {
            Ok(t) => t,
            Err(e) => {
                return Err(e);
            },
        };
        let mut stack: Vec<ValType> = Vec::new();
        let mut j: usize = 0;
        proof {
            assert(f@.instrs.skip(0) =~= f@.instrs);
            assert(stack@ =~= Seq::<ValType>::empty());
        }
        while j < f.instrs.len()
            invariant
                0 <= j <= f.instrs@.len(),
                self@ == st1,
                adapter_type_at(st1, f@.ty) is Ok,
                ty@ == adapter_type_at(st1, f@.ty)->Ok_0,
                sim_instrs(st1, ty@.params, f@.instrs, Seq::empty()) == sim_instrs(
                    st1,
                    ty@.params,
                    f@.instrs.skip(j as int),
                    stack@,
                ),
            decreases f.instrs@.len() - j,
        {
            let ghost rem = f@.instrs.skip(j as int);
            match self.validate_instr(&f.instrs[j], &ty.params, &mut stack) {
                Ok(()) => {
                    j = j + 1;
                    proof {
                        assert(rem[0] == f@.instrs[j - 1]);
                        assert(rem.skip(1) =~= f@.instrs.skip(j as int));
                    }
                },
                Err(e) => {
                    proof {
                        assert(rem[0] == f@.instrs[j as int]);
                    }
                    return Err(e);
                },
            }
        }
        proof {
            assert(f@.instrs.skip(f@.instrs.len() as int) =~= Seq::<Instruction>::empty());
        }
        match pop_interface_rev(&ty.results, &mut stack) {
            Ok(()) => {},
            Err(e) => {
                return Err(e);
            },
        }
        if stack.len() != 0 {
            return Err(VError::StackNotEmpty);
        }
        Ok(())
    }

    /// Validates one import item: its type index, which then occupies the
    /// next adapter-function slot.
    fn validate_import(&mut self, im: &crate::reader::Import) -> (r: Result<(), VError>)
        ensures
            match v_import(old(self)@, im@) {
                Ok(st) => r is Ok && final(self)@ == st,
                Err(e) => r matches Err(er) && er@ == e,
            },
    {
        match self.adapter_type(im.ty) {
            Ok(_) => {},
            Err(e) => {
                return Err(e);
            },
        }
        self.funcs.push(im.ty);
        proof {
            assert(self@ =~= (VStView { funcs: old(self)@.funcs.push(im@.ty), ..old(self)@ }));
        }
        Ok(())
    }

    /// Validates one export item: a valid function index and a fresh name.
    #[verifier::loop_isolation(false)]
    fn validate_export(&mut self, e: &crate::reader::Export) -> (r: Result<(), VError>)
        ensures
            match v_export(old(self)@, e@) {
                Ok(st) => r is Ok && final(self)@ == st,
                Err(er) => r matches Err(x) && x@ == er,
            },
    {
        match self.adapter_func(e.func) {
            Ok(_) => {},
            Err(er) => {
                return Err(er);
            },
        }
        let mut j: usize = 0;
        while j < self.exports.len()
            invariant
                0 <= j <= self.exports@.len(),
                forall|i: int| 0 <= i < j ==> self@.exports[i] != e@.name,
            decreases self.exports@.len() - j,
        {
            if self.exports[j].eq(&e.name) {
                proof {
                    assert(self@.exports[j as int] == e@.name);
                }
                return Err(VError::DuplicateExport(e.name.clone()));
            }
            proof {
                assert(self@.exports[j as int] == self.exports@[j as int]@);
            }
            j = j + 1;
        }
        proof {
            assert(!name_taken(self@.exports, e@.name));
        }
        self.exports.push(e.name.clone());
        proof {
            assert(self@ =~= (VStView {
                exports: old(self)@.exports.push(e@.name),
                ..old(self)@
            }));
        }
        Ok(())
    }

    /// Validates one implement item: both indices, the imported origin of
    /// the core function, and the pointwise signature match.
    fn validate_implement(&mut self, im: &Implement) -> (r: Result<(), VError>)
        ensures
            match v_implement(old(self)@, *im) {
                Ok(st) => r is Ok && final(self)@ == st,
                Err(e) => r matches Err(er) && er@ == e,
            },
    {
        let aty = match self.adapter_func(im.adapter_func) {
            Ok(t) => t,
            Err(e) => {
                return Err(e);
            },
        };
        let (cty, kind) = match self.core_func(im.core_func) {
            Ok(p) => p,
            Err(e) => {
                return Err(e);
            },
        };
        if kind == CoreFunc::Local {
            return Err(VError::ImplementNotImport);
        }
        if !sigs_match_exec(aty, cty) {
            return Err(VError::SignatureMismatch(im.core_func, im.adapter_func));
        }
        Ok(())
    }
}

impl Validator {
    /// Validates one interface subsection: ordering, then every item.
    #[verifier::loop_isolation(false)]
    pub fn validate_section(&mut self, sec: &crate::decode::WitSection) -> (r: Result<
        (),
        VError,
    >)
        ensures
            match v_section(old(self)@, sec@) {
                Ok(st) => r is Ok && final(self)@ == st,
                Err(e) => r matches Err(er) && er@ == e,
            },
    {
        let (id, name) = match sec {
            crate::decode::WitSection::Type(_) => (100u8, "adapter type"),
            crate::decode::WitSection::Import(_) => (101u8, "adapter import"),
            crate::decode::WitSection::Func(_) => (102u8, "adapter func"),
            crate::decode::WitSection::Export(_) => (103u8, "adapter export"),
            crate::decode::WitSection::Implement(_) => (104u8, "adapter implement"),
        };
        if id <= self.last_order {
            proof {
                reveal_strlit("adapter type");
                reveal_strlit("adapter import");
                reveal_strlit("adapter func");
                reveal_strlit("adapter export");
                reveal_strlit("adapter implement");
            }
            return Err(VError::OutOfOrder(name.to_owned()));
        }
        self.last_order = id;
        let ghost st1 = VStView { last_order: id, ..old(self)@ };
        proof {
            assert(self@ =~= st1);
        }
        match sec {
            crate::decode::WitSection::Type(items) => {
                let mut j: usize = 0;
                while j < items.len()
                    invariant
                        0 <= j <= items@.len(),
                        self@ == (VStView {
                            types: st1.types + crate::decode::seq_view(items@).take(j as int),
                            ..st1
                        }),
                    decreases items@.len() - j,
                {
                    let t = &items[j];
                    let copied = crate::reader::Type {
                        params: copy_valtypes_pub(&t.params),
                        results: copy_valtypes_pub(&t.results),
                    };
                    let ghost prev = self.types@;
                    let ghost cv = copied@;
                    self.types.push(copied);
                    j = j + 1;
                    proof {
                        crate::decode::lemma_seq_view_push(prev, self.types@[self.types@.len()
                            - 1]);
                        assert(cv == items@[j - 1]@);
                        assert(crate::decode::seq_view(items@)[j - 1] == items@[j - 1]@);
                        assert(crate::decode::seq_view(self.types@) =~= st1.types
                            + crate::decode::seq_view(items@).take(j as int));
                        assert(self@ =~= (VStView {
                            types: st1.types + crate::decode::seq_view(items@).take(j as int),
                            ..st1
                        }));
                    }
                }
                proof {
                    assert(crate::decode::seq_view(items@).take(items@.len() as int)
                        =~= crate::decode::seq_view(items@));
                }
                Ok(())
            },
            crate::decode::WitSection::Import(items) => {
                let ghost full = crate::decode::seq_view(items@);
                let mut j: usize = 0;
                proof {
                    assert(full.skip(0) =~= full);
                }
                while j < items.len()
                    invariant
                        0 <= j <= items@.len(),
                        v_imports_items(st1, full) == v_imports_items(
                            self@,
                            full.skip(j as int),
                        ),
                    decreases items@.len() - j,
                {
                    let ghost rem = full.skip(j as int);
                    match self.validate_import(&items[j]) {
                        Ok(()) => {
                            j = j + 1;
                            proof {
                                assert(rem[0] == full[j - 1]);
                                assert(full[j - 1] == items@[j - 1]@);
                                assert(rem.skip(1) =~= full.skip(j as int));
                            }
                        },
                        Err(e) => {
                            proof {
                                assert(rem[0] == items@[j as int]@);
                            }
                            return Err(e);
                        },
                    }
                }
                proof {
                    assert(full.skip(full.len() as int) =~= Seq::<ImportView>::empty());
                }
                Ok(())
            },
            crate::decode::WitSection::Func(items) => {
                let ghost full = crate::decode::seq_view(items@);
                let mut j: usize = 0;
                proof {
                    assert(full.skip(0) =~= full);
                }
                while j < items.len()
                    invariant
                        0 <= j <= items@.len(),
                        v_funcs_items(st1, full) == v_funcs_items(self@, full.skip(j as int)),
                    decreases items@.len() - j,
                {
                    let ghost rem = full.skip(j as int);
                    match self.validate_func(&items[j]) {
                        Ok(()) => {
                            j = j + 1;
                            proof {
                                assert(rem[0] == full[j - 1]);
                                assert(full[j - 1] == items@[j - 1]@);
                                assert(rem.skip(1) =~= full.skip(j as int));
                            }
                        },
                        Err(e) => {
                            proof {
                                assert(rem[0] == items@[j as int]@);
                            }
                            return Err(e);
                        },
                    }
                }
                proof {
                    assert(full.skip(full.len() as int) =~= Seq::<FuncView>::empty());
                }
                Ok(())
            },
            crate::decode::WitSection::Export(items) => {
                let ghost full = crate::decode::seq_view(items@);
                let mut j: usize = 0;
                proof {
                    assert(full.skip(0) =~= full);
                }
                while j < items.len()
                    invariant
                        0 <= j <= items@.len(),
                        v_exports_items(st1, full) == v_exports_items(
                            self@,
                            full.skip(j as int),
                        ),
                    decreases items@.len() - j,
                {
                    let ghost rem = full.skip(j as int);
                    match self.validate_export(&items[j]) {
                        Ok(()) => {
                            j = j + 1;
                            proof {
                                assert(rem[0] == full[j - 1]);
                                assert(full[j - 1] == items@[j - 1]@);
                                assert(rem.skip(1) =~= full.skip(j as int));
                            }
                        },
                        Err(e) => {
                            proof {
                                assert(rem[0] == items@[j as int]@);
                            }
                            return Err(e);
                        },
                    }
                }
                proof {
                    assert(full.skip(full.len() as int) =~= Seq::<ExportView>::empty());
                }
                Ok(())
            },
            crate::decode::WitSection::Implement(items) => {
                let mut j: usize = 0;
                proof {
                    assert(items@.skip(0) =~= items@);
                }
                while j < items.len()
                    invariant
                        0 <= j <= items@.len(),
                        v_implements_items(st1, items@) == v_implements_items(
                            self@,
                            items@.skip(j as int),
                        ),
                    decreases items@.len() - j,
                {
                    let ghost rem = items@.skip(j as int);
                    match self.validate_implement(&items[j]) {
                        Ok(()) => {
                            j = j + 1;
                            proof {
                                assert(rem[0] == items@[j - 1]);
                                assert(rem.skip(1) =~= items@.skip(j as int));
                            }
                        },
                        Err(e) => {
                            proof {
                                assert(rem[0] == items@[j as int]);
                            }
                            return Err(e);
                        },
                    }
                }
                proof {
                    assert(items@.skip(items@.len() as int) =~= Seq::<Implement>::empty());
                }
                Ok(())
            },
        }
    }

    /// Validates the interface-types custom section found at `offset`
    /// within the file, holding `data`: it must be the only one, it must
    /// decode, and its sections must validate in order.
    #[verifier::loop_isolation(false)]
    pub fn validate_wit_custom_section(&mut self, offset: usize, data: &[u8]) -> (r: Result<
        (),
        VError,
    >)
        requires
            offset + data@.len() <= usize::MAX,
        ensures
            match v_interface_section(old(self)@, offset as int, data@) {
                Ok(st) => r is Ok && final(self)@ == st,
                Err(e) => r matches Err(er) && er@ == e,
            },
    {
        if self.visited {
            return Err(VError::TwoSections);
        }
        self.visited = true;
        let ghost st1 = VStView { visited: true, ..old(self)@ };
        proof {
            assert(self@ =~= st1);
        }
        let doc = match crate::decode::decode_payload(offset, data) {
            Ok(d) => d,
            Err(e) => {
                return Err(VError::Parse(e));
            },
        };
        let ghost full = crate::decode::seq_view(doc@);
        let mut j: usize = 0;
        proof {
            assert(full.skip(0) =~= full);
        }
        while j < doc.len()
            invariant
                0 <= j <= doc@.len(),
                v_doc(st1, full) == v_doc(self@, full.skip(j as int)),
            decreases doc@.len() - j,
        {
            let ghost rem = full.skip(j as int);
            match self.validate_section(&doc[j]) {
                Ok(()) => {
                    j = j + 1;
                    proof {
                        assert(rem[0] == full[j - 1]);
                        assert(full[j - 1] == doc@[j - 1]@);
                        assert(rem.skip(1) =~= full.skip(j as int));
                    }
                },
                Err(e) => {
                    proof {
                        assert(rem[0] == doc@[j as int]@);
                    }
                    return Err(e);
                },
            }
        }
        proof {
            assert(full.skip(full.len() as int) =~= Seq::<SectionView>::empty());
        }
        Ok(())
    }
}

/// Every interface custom section of the list ends within the machine's
/// address range.
pub open spec fn core_sections_wf(s: Seq<CoreSectionView>) -> bool {
    forall|i: int|
        0 <= i < s.len() ==> match #[trigger] s[i] {
            CoreSectionView::Interface(off, d) => off + d.len() <= usize::MAX,
            _ => true,
        }
}

/// Validates an entire module given by its sections in file order: builds
/// the host tables, then checks the interface-types custom section against
/// them.
#[verifier::loop_isolation(false)]
pub fn validate(sections: &Vec<CoreSection>) -> (r: Result<(), VError>)
    requires
        core_sections_wf(crate::decode::seq_view(sections@)),
    ensures
        match v_module(crate::decode::seq_view(sections@)) {
            Ok(()) => r is Ok,
            Err(e) => r matches Err(er) && er@ == e,
        },
{
    let ghost full = crate::decode::seq_view(sections@);
    let mut v = Validator::new();
    let mut j: usize = 0;
    proof {
        assert(full.skip(0) =~= full);
    }
    while j < sections.len()
        invariant
            0 <= j <= sections@.len(),
            v_core(initial_vst(), full) == v_core(v@, full.skip(j as int)),
        decreases sections@.len() - j,
    {
        let ghost rem = full.skip(j as int);
        proof {
            assert(rem[0] == full[j as int]);
            assert(full[j as int] == sections@[j as int]@);
        }
        match v.validate_core_section(&sections[j]) {
            Ok(()) => {
                j = j + 1;
                proof {
                    assert(rem.skip(1) =~= full.skip(j as int));
                }
            },
            Err(e) => {
                return Err(e);
            },
        }
    }
    proof {
        assert(full.skip(full.len() as int) =~= Seq::<CoreSectionView>::empty());
    }
    Ok(())
}

impl Validator {
    /// Validates one section of the containing wasm module.
    #[verifier::loop_isolation(false)]
    fn validate_core_section(&mut self, cs: &CoreSection) -> (r: Result<(), VError>)
        requires
            match cs@ {
                CoreSectionView::Interface(off, d) => off + d.len() <= usize::MAX,
                _ => true,
            },
        ensures
            match v_core_section(old(self)@, cs@) {
                Ok(st) => r is Ok && final(self)@ == st,
                Err(e) => r matches Err(er) && er@ == e,
            },
    {
        if let CoreSection::Interface(offset, data) = cs {
            return self.validate_wit_custom_section(*offset, data.as_slice());
        }
        let (id, name) = match cs {
            CoreSection::Types(_) => (1u8, "type"),
            CoreSection::Imports(_) => (2u8, "import"),
            CoreSection::Funcs(_) => (3u8, "function"),
            CoreSection::Memories(_) => (4u8, "memory"),
            CoreSection::Interface(_, _) => (0u8, ""),
        };
        if id <= self.last_order {
            proof {
                reveal_strlit("type");
                reveal_strlit("import");
                reveal_strlit("function");
                reveal_strlit("memory");
            }
            return Err(VError::OutOfOrder(name.to_owned()));
        }
        self.last_order = id;
        let ghost st1 = VStView { last_order: id, ..old(self)@ };
        proof {
            assert(self@ =~= st1);
        }
        match cs {
            CoreSection::Types(items) => {
                let mut j: usize = 0;
                while j < items.len()
                    invariant
                        0 <= j <= items@.len(),
                        self@ == (VStView {
                            core_types: st1.core_types + crate::decode::seq_view(items@).take(
                                j as int,
                            ),
                            ..st1
                        }),
                    decreases items@.len() - j,
                {
                    let t = &items[j];
                    let copied = HostFuncType {
                        params: copy_host_valtypes(&t.params),
                        results: copy_host_valtypes(&t.results),
                    };
                    let ghost prev = self.core_types@;
                    let ghost cv = copied@;
                    self.core_types.push(copied);
                    j = j + 1;
                    proof {
                        crate::decode::lemma_seq_view_push(prev, self.core_types@[
                            self.core_types@.len() - 1]);
                        assert(cv == items@[j - 1]@);
                        assert(crate::decode::seq_view(items@)[j - 1] == items@[j - 1]@);
                        assert(crate::decode::seq_view(self.core_types@) =~= st1.core_types
                            + crate::decode::seq_view(items@).take(j as int));
                        assert(self@ =~= (VStView {
                            core_types: st1.core_types + crate::decode::seq_view(items@).take(
                                j as int,
                            ),
                            ..st1
                        }));
                    }
                }
                proof {
                    assert(crate::decode::seq_view(items@).take(items@.len() as int)
                        =~= crate::decode::seq_view(items@));
                }
                Ok(())
            },
            CoreSection::Imports(items) => {
                let mut j: usize = 0;
                proof {
                    assert(items@.skip(0) =~= items@);
                }
                while j < items.len()
                    invariant
                        0 <= j <= items@.len(),
                        v_core_imports(st1, items@) == v_core_imports(
                            self@,
                            items@.skip(j as int),
                        ),
                    decreases items@.len() - j,
                {
                    let ghost rem = items@.skip(j as int);
                    let ghost st_cur = self@;
                    proof {
                        assert(rem[0] == items@[j as int]);
                    }
                    match items[j] {
                        CoreImport::Func(ty) => {
                            if (ty as usize) < self.core_types.len() {
                                self.core_funcs.push((ty, CoreFunc::Import));
                                proof {
                                    assert(self@ =~= (VStView {
                                        core_funcs: st_cur.core_funcs.push(
                                            (ty, CoreFunc::Import),
                                        ),
                                        ..st_cur
                                    }));
                                }
                            } else {
                                return Err(VError::TypeIdxTooBig(ty));
                            }
                        },
                        CoreImport::Memory => {
                            if self.memories <= u64::MAX - 1 {
                                self.memories = self.memories + 1;
                            } else {
                                self.memories = u64::MAX;
                            }
                            proof {
                                assert(self@ =~= (VStView {
                                    memories: mem_add(st_cur.memories, 1),
                                    ..st_cur
                                }));
                            }
                        },
                        CoreImport::Other => {},
                    }
                    j = j + 1;
                    proof {
                        assert(rem.skip(1) =~= items@.skip(j as int));
                    }
                }
                proof {
                    assert(items@.skip(items@.len() as int) =~= Seq::<CoreImport>::empty());
                }
                Ok(())
            },
            CoreSection::Funcs(items) => {
                let mut j: usize = 0;
                proof {
                    assert(items@.skip(0) =~= items@);
                }
                while j < items.len()
                    invariant
                        0 <= j <= items@.len(),
                        v_core_funcs(st1, items@) == v_core_funcs(self@, items@.skip(j as int)),
                    decreases items@.len() - j,
                {
                    let ghost rem = items@.skip(j as int);
                    proof {
                        assert(rem[0] == items@[j as int]);
                    }
                    let ty = items[j];
                    if (ty as usize) < self.core_types.len() {
                        self.core_funcs.push((ty, CoreFunc::Local));
                    } else {
                        return Err(VError::TypeIdxTooBig(ty));
                    }
                    j = j + 1;
                    proof {
                        assert(rem.skip(1) =~= items@.skip(j as int));
                    }
                }
                proof {
                    assert(items@.skip(items@.len() as int) =~= Seq::<u32>::empty());
                }
                Ok(())
            },
            CoreSection::Memories(n) => {
                let n64 = *n as u64;
                if self.memories <= u64::MAX - n64 {
                    self.memories = self.memories + n64;
                } else {
                    self.memories = u64::MAX;
                }
                proof {
                    assert(self@ =~= (VStView {
                        memories: mem_add(st1.memories, *n as u64),
                        ..st1
                    }));
                }
                Ok(())
            },
            CoreSection::Interface(_, _) => Ok(()),
        }
    }
}

/// A successful reverse pop means the stack ended with exactly those
/// values.
pub proof fn lemma_pop_interface_rev_shape(params: Seq<ValType>, stack: Seq<ValType>)
    ensures
        sim_pop_interface_rev(params, stack) matches Ok(rest) ==> stack =~= rest + params,
    decreases params.len(),
{
    if params.len() > 0 {
        match sim_expect_interface(params.last(), stack) {
            Err(_) => {}
            Ok(stack1) => {
                lemma_pop_interface_rev_shape(params.drop_last(), stack1);
                match sim_pop_interface_rev(params.drop_last(), stack1) {
                    Err(_) => {}
                    Ok(rest) => {
                        assert(stack1 =~= rest + params.drop_last());
                        assert(stack =~= stack1.push(params.last()));
                        assert((rest + params.drop_last()).push(params.last()) =~= rest + params);
                    }
                }
            }
        }
    }
}

/// For every function that validates, the residual simulated stack is
/// exactly the declared results, in type and order.
pub proof fn theorem_residual_stack(st: VStView, f: FuncView)
    requires
        v_func(st, f) is Ok,
    ensures
        ({
            let st1 = VStView { funcs: st.funcs.push(f.ty), ..st };
            let ty = adapter_type_at(st1, f.ty)->Ok_0;
            sim_instrs(st1, ty.params, f.instrs, Seq::empty()) matches Ok(stack) && stack
                =~= ty.results
        }),
{
    let st1 = VStView { funcs: st.funcs.push(f.ty), ..st };
    let ty = adapter_type_at(st1, f.ty)->Ok_0;
    let stack = sim_instrs(st1, ty.params, f.instrs, Seq::empty())->Ok_0;
    lemma_pop_interface_rev_shape(ty.results, stack);
    let rest = sim_pop_interface_rev(ty.results, stack)->Ok_0;
    assert(rest.len() == 0);
    assert(rest + ty.results =~= ty.results);
}

/// A name, once on the export list, stays on it.
proof fn lemma_name_taken_push(names: Seq<Seq<char>>, x: Seq<char>, n: Seq<char>)
    requires
        name_taken(names, n),
    ensures
        name_taken(names.push(x), n),
{
    let i = choose|i: int| 0 <= i < names.len() && names[i] == n;
    assert(names.push(x)[i] == n);
}

/// Exporting a name that is already taken always fails, whatever else the
/// export list holds.
proof fn lemma_exports_items_taken(st: VStView, items: Seq<ExportView>, j: int)
    requires
        0 <= j < items.len(),
        name_taken(st.exports, items[j].name),
    ensures
        v_exports_items(st, items) is Err,
    decreases j,
{
    match v_export(st, items[0]) {
        Err(_) => {}
        Ok(st1) => {
            assert(j != 0);
            lemma_name_taken_push(st.exports, items[0].name, items[j].name);
            assert(items.skip(1)[j - 1] == items[j]);
            lemma_exports_items_taken(st1, items.skip(1), j - 1);
        }
    }
}

/// Two exports with the same name in one section always fail validation.
pub proof fn theorem_duplicate_export(st: VStView, items: Seq<ExportView>, i: int, j: int)
    requires
        0 <= i < j < items.len(),
        items[i].name == items[j].name,
    ensures
        v_exports_items(st, items) is Err,
    decreases i,
{
    match v_export(st, items[0]) {
        Err(_) => {}
        Ok(st1) => {
            if i == 0 {
                assert(st1.exports.last() == items[0].name);
                assert(name_taken(st1.exports, items[j].name));
                assert(items.skip(1)[j - 1] == items[j]);
                lemma_exports_items_taken(st1, items.skip(1), j - 1);
            } else {
                assert(items.skip(1)[i - 1] == items[i]);
                assert(items.skip(1)[j - 1] == items[j]);
                theorem_duplicate_export(st1, items.skip(1), i - 1, j - 1);
            }
        }
    }
}

/// An `implement` directive whose core function is locally defined always
/// fails validation.
pub proof fn theorem_implement_local(st: VStView, im: Implement)
    requires
        core_func_at(st, im.core_func) matches Ok(p) && p.1 == CoreFunc::Local,
    ensures
        v_implement(st, im) is Err,
{
}

} // verus!
