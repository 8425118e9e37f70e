//! The abstract syntax of the textual surface: the `@interface` directives
//! as the external s-expression front-end hands them over, with symbolic
//! identifiers still unresolved.

use vstd::prelude::*;
use crate::valtype::ValType;

verus! {

/// A reference to an item: a raw zero-based index, or a symbolic `$name`
/// still to be resolved.
#[derive(Debug, Clone)]
pub enum Index {
    Num(u32),
    Id(String),
}

/// An optional source name carried next to a parameter type.
#[derive(Debug, Clone)]
pub struct TextParam {
    /// The `$name` of the parameter, if the surface text named it.
    pub name: Option<String>,
    /// The parameter's value type.
    pub ty: ValType,
}

/// A type declaration: optionally named, with named parameters and results.
#[derive(Debug, Clone)]
pub struct Type {
    /// The `$name` this type can be referred to by.
    pub name: Option<String>,
    /// The parameters, with their optional source names.
    pub params: Vec<TextParam>,
    /// The results.
    pub results: Vec<ValType>,
}

/// A use of a type: by index, by inline signature, or both, which must then
/// agree.
#[derive(Debug, Clone)]
pub struct TypeUse {
    /// Where the index was written, if it was.
    pub index_span: Option<usize>,
    /// The type referred to, once known.
    pub index: Option<Index>,
    /// The inline signature, possibly empty.
    pub ty: Type,
}

/// An import declaration.
#[derive(Debug, Clone)]
pub struct Import {
    /// Where this import was written.
    pub span: usize,
    /// The `$name` this import can be referred to by.
    pub id: Option<String>,
    /// The module imported from.
    pub module: String,
    /// The field imported.
    pub name: String,
    /// The signature of the imported function.
    pub ty: TypeUse,
}

/// An export declaration.
#[derive(Debug, Clone)]
pub struct Export {
    /// The name exported under.
    pub name: String,
    /// The adapter function exported.
    pub func: Index,
}

/// Payload of the textual `memory-to-string` instruction.
#[derive(Debug, Clone)]
pub struct MemoryToString {
    /// The host memory read from; zero when elided.
    pub mem: Index,
}

/// Payload of the textual `string-to-memory` instruction.
#[derive(Debug, Clone)]
pub struct StringToMemory {
    /// The allocator function in the host module.
    pub malloc: Index,
    /// The host memory written to; zero when elided.
    pub mem: Index,
}

/// One textual instruction.
#[derive(Debug, Clone)]
pub enum Instruction {
    ArgGet(Index),
    CallCore(Index),
    MemoryToString(MemoryToString),
    StringToMemory(StringToMemory),
    CallAdapter(Index),
    DeferCallCore(Index),
    I32ToS8,
    I32ToS8X,
    I32ToU8,
    I32ToS16,
    I32ToS16X,
    I32ToU16,
    I32ToS32,
    I32ToU32,
    I32ToS64,
    I32ToU64,
    I64ToS8,
    I64ToS8X,
    I64ToU8,
    I64ToS16,
    I64ToS16X,
    I64ToU16,
    I64ToS32,
    I64ToS32X,
    I64ToU32,
    I64ToS64,
    I64ToU64,
    S8ToI32,
    U8ToI32,
    S16ToI32,
    U16ToI32,
    S32ToI32,
    U32ToI32,
    S64ToI32,
    S64ToI32X,
    U64ToI32,
    U64ToI32X,
    S8ToI64,
    U8ToI64,
    S16ToI64,
    U16ToI64,
    S32ToI64,
    U32ToI64,
    S64ToI64,
    U64ToI64,
}

/// A list of instructions.
#[derive(Debug, Clone)]
pub struct Instructions {
    /// The instructions, in order.
    pub instrs: Vec<Instruction>,
}

/// How a function is given: as sugar for an import, or inline with a body.
#[derive(Debug, Clone)]
pub enum FuncKind {
    /// A sugared import declaration.
    Import { module: String, name: String },
    /// An inline body.
    Inline { instrs: Instructions },
}

/// An adapter function declaration.
#[derive(Debug, Clone)]
pub struct Func {
    /// Where this function was written.
    pub span: usize,
    /// The `$name` this function can be referred to by.
    pub name: Option<String>,
    /// An inline export name, if any.
    pub export: Option<String>,
    /// The signature.
    pub ty: TypeUse,
    /// The definition.
    pub kind: FuncKind,
}

/// What an `implement` directive implements.
#[derive(Debug, Clone)]
pub enum Implemented {
    /// By the module and field name of a core import.
    ByName { module: String, name: String },
    /// By core function index.
    ByIndex(Index),
}

/// How an `implement` directive implements it.
#[derive(Debug, Clone)]
pub enum Implementation {
    /// By adapter function index.
    ByIndex(Index),
    /// By an inline adapter function body.
    Inline { ty: TypeUse, instrs: Instructions },
}

/// An `implement` directive.
#[derive(Debug, Clone)]
pub struct Implement {
    /// Where this directive was written.
    pub span: usize,
    /// What is implemented.
    pub implemented: Implemented,
    /// What implements it.
    pub implementation: Implementation,
}

/// One `@interface` directive.
#[derive(Debug, Clone)]
pub enum Adapter {
    /// An interface type definition.
    Type(Type),
    /// An import using interface types.
    Import(Import),
    /// An export of an adapter function.
    Export(Export),
    /// An adapter function.
    Func(Func),
    /// A binding from a core import to an adapter function.
    Implement(Implement),
}

/// A function import of the containing core module, as the lowering's name
/// lookups see it.
#[derive(Debug, Clone)]
pub struct CoreFuncImport {
    /// The module imported from.
    pub module: String,
    /// The field imported, when the surface text named one.
    pub field: Option<String>,
}

/// Specification-level mirror of `Index`.
pub enum IndexView {
    Num(u32),
    Id(Seq<char>),
}

impl View for Index {
    type V = IndexView;

    open spec fn view(&self) -> IndexView {
        match self {
            Index::Num(n) => IndexView::Num(*n),
            Index::Id(s) => IndexView::Id(s@),
        }
    }
}

/// The view of an optional name.
pub open spec fn name_view(o: Option<String>) -> Option<Seq<char>> {
    match o {
        None => None,
        Some(s) => Some(s@),
    }
}

/// Specification-level mirror of `TextParam`.
pub struct TextParamView {
    pub name: Option<Seq<char>>,
    pub ty: ValType,
}

impl View for TextParam {
    type V = TextParamView;

    open spec fn view(&self) -> TextParamView {
        TextParamView { name: name_view(self.name), ty: self.ty }
    }
}

/// Specification-level mirror of `Type`.
pub struct TypeView {
    pub name: Option<Seq<char>>,
    pub params: Seq<TextParamView>,
    pub results: Seq<ValType>,
}

impl View for Type {
    type V = TypeView;

    open spec fn view(&self) -> TypeView {
        TypeView {
            name: name_view(self.name),
            params: self.params@.map_values(|p: TextParam| p@),
            results: self.results@,
        }
    }
}

/// Specification-level mirror of `TypeUse`.
pub struct TypeUseView {
    pub index_span: Option<usize>,
    pub index: Option<IndexView>,
    pub ty: TypeView,
}

/// The view of an optional index.
pub open spec fn index_view(o: Option<Index>) -> Option<IndexView> {
    match o {
        None => None,
        Some(i) => Some(i@),
    }
}

impl View for TypeUse {
    type V = TypeUseView;

    open spec fn view(&self) -> TypeUseView {
        TypeUseView { index_span: self.index_span, index: index_view(self.index), ty: self.ty@ }
    }
}

/// Specification-level mirror of `Import`.
pub struct ImportView {
    pub span: usize,
    pub id: Option<Seq<char>>,
    pub module: Seq<char>,
    pub name: Seq<char>,
    pub ty: TypeUseView,
}

impl View for Import {
    type V = ImportView;

    open spec fn view(&self) -> ImportView {
        ImportView {
            span: self.span,
            id: name_view(self.id),
            module: self.module@,
            name: self.name@,
            ty: self.ty@,
        }
    }
}

/// Specification-level mirror of `Export`.
pub struct ExportView {
    pub name: Seq<char>,
    pub func: IndexView,
}

impl View for Export {
    type V = ExportView;

    open spec fn view(&self) -> ExportView {
        ExportView { name: self.name@, func: self.func@ }
    }
}

/// Specification-level mirror of `MemoryToString`.
pub struct MemoryToStringView {
    pub mem: IndexView,
}

impl View for MemoryToString {
    type V = MemoryToStringView;

    open spec fn view(&self) -> MemoryToStringView {
        MemoryToStringView { mem: self.mem@ }
    }
}

/// Specification-level mirror of `StringToMemory`.
pub struct StringToMemoryView {
    pub malloc: IndexView,
    pub mem: IndexView,
}

impl View for StringToMemory {
    type V = StringToMemoryView;

    open spec fn view(&self) -> StringToMemoryView {
        StringToMemoryView { malloc: self.malloc@, mem: self.mem@ }
    }
}

/// Specification-level mirror of `Instruction`.
pub enum InstrView {
    ArgGet(IndexView),
    CallCore(IndexView),
    MemoryToString(MemoryToStringView),
    StringToMemory(StringToMemoryView),
    CallAdapter(IndexView),
    DeferCallCore(IndexView),
    I32ToS8,
    I32ToS8X,
    I32ToU8,
    I32ToS16,
    I32ToS16X,
    I32ToU16,
    I32ToS32,
    I32ToU32,
    I32ToS64,
    I32ToU64,
    I64ToS8,
    I64ToS8X,
    I64ToU8,
    I64ToS16,
    I64ToS16X,
    I64ToU16,
    I64ToS32,
    I64ToS32X,
    I64ToU32,
    I64ToS64,
    I64ToU64,
    S8ToI32,
    U8ToI32,
    S16ToI32,
    U16ToI32,
    S32ToI32,
    U32ToI32,
    S64ToI32,
    S64ToI32X,
    U64ToI32,
    U64ToI32X,
    S8ToI64,
    U8ToI64,
    S16ToI64,
    U16ToI64,
    S32ToI64,
    U32ToI64,
    S64ToI64,
    U64ToI64,
}

impl View for Instruction {
    type V = InstrView;

    open spec fn view(&self) -> InstrView {
        match self {
            Instruction::ArgGet(i) => InstrView::ArgGet(i@),
            Instruction::CallCore(i) => InstrView::CallCore(i@),
            Instruction::MemoryToString(m) => InstrView::MemoryToString(m@),
            Instruction::StringToMemory(m) => InstrView::StringToMemory(m@),
            Instruction::CallAdapter(i) => InstrView::CallAdapter(i@),
            Instruction::DeferCallCore(i) => InstrView::DeferCallCore(i@),
            Instruction::I32ToS8 => InstrView::I32ToS8,
            Instruction::I32ToS8X => InstrView::I32ToS8X,
            Instruction::I32ToU8 => InstrView::I32ToU8,
            Instruction::I32ToS16 => InstrView::I32ToS16,
            Instruction::I32ToS16X => InstrView::I32ToS16X,
            Instruction::I32ToU16 => InstrView::I32ToU16,
            Instruction::I32ToS32 => InstrView::I32ToS32,
            Instruction::I32ToU32 => InstrView::I32ToU32,
            Instruction::I32ToS64 => InstrView::I32ToS64,
            Instruction::I32ToU64 => InstrView::I32ToU64,
            Instruction::I64ToS8 => InstrView::I64ToS8,
            Instruction::I64ToS8X => InstrView::I64ToS8X,
            Instruction::I64ToU8 => InstrView::I64ToU8,
            Instruction::I64ToS16 => InstrView::I64ToS16,
            Instruction::I64ToS16X => InstrView::I64ToS16X,
            Instruction::I64ToU16 => InstrView::I64ToU16,
            Instruction::I64ToS32 => InstrView::I64ToS32,
            Instruction::I64ToS32X => InstrView::I64ToS32X,
            Instruction::I64ToU32 => InstrView::I64ToU32,
            Instruction::I64ToS64 => InstrView::I64ToS64,
            Instruction::I64ToU64 => InstrView::I64ToU64,
            Instruction::S8ToI32 => InstrView::S8ToI32,
            Instruction::U8ToI32 => InstrView::U8ToI32,
            Instruction::S16ToI32 => InstrView::S16ToI32,
            Instruction::U16ToI32 => InstrView::U16ToI32,
            Instruction::S32ToI32 => InstrView::S32ToI32,
            Instruction::U32ToI32 => InstrView::U32ToI32,
            Instruction::S64ToI32 => InstrView::S64ToI32,
            Instruction::S64ToI32X => InstrView::S64ToI32X,
            Instruction::U64ToI32 => InstrView::U64ToI32,
            Instruction::U64ToI32X => InstrView::U64ToI32X,
            Instruction::S8ToI64 => InstrView::S8ToI64,
            Instruction::U8ToI64 => InstrView::U8ToI64,
            Instruction::S16ToI64 => InstrView::S16ToI64,
            Instruction::U16ToI64 => InstrView::U16ToI64,
            Instruction::S32ToI64 => InstrView::S32ToI64,
            Instruction::U32ToI64 => InstrView::U32ToI64,
            Instruction::S64ToI64 => InstrView::S64ToI64,
            Instruction::U64ToI64 => InstrView::U64ToI64,
        }
    }
}

/// Specification-level mirror of `Instructions`.
pub struct InstructionsView {
    pub instrs: Seq<InstrView>,
}

impl View for Instructions {
    type V = InstructionsView;

    open spec fn view(&self) -> InstructionsView {
        InstructionsView { instrs: self.instrs@.map_values(|i: Instruction| i@) }
    }
}

/// Specification-level mirror of `FuncKind`.
pub enum FuncKindView {
    Import { module: Seq<char>, name: Seq<char> },
    Inline { instrs: InstructionsView },
}

impl View for FuncKind {
    type V = FuncKindView;

    open spec fn view(&self) -> FuncKindView {
        match self {
            FuncKind::Import { module, name } => FuncKindView::Import {
                module: module@,
                name: name@,
            },
            FuncKind::Inline { instrs } => FuncKindView::Inline { instrs: instrs@ },
        }
    }
}

/// Specification-level mirror of `Func`.
pub struct FuncView {
    pub span: usize,
    pub name: Option<Seq<char>>,
    pub export: Option<Seq<char>>,
    pub ty: TypeUseView,
    pub kind: FuncKindView,
}

impl View for Func {
    type V = FuncView;

    open spec fn view(&self) -> FuncView {
        FuncView {
            span: self.span,
            name: name_view(self.name),
            export: name_view(self.export),
            ty: self.ty@,
            kind: self.kind@,
        }
    }
}

/// Specification-level mirror of `Implemented`.
pub enum ImplementedView {
    ByName { module: Seq<char>, name: Seq<char> },
    ByIndex(IndexView),
}

impl View for Implemented {
    type V = ImplementedView;

    open spec fn view(&self) -> ImplementedView {
        match self {
            Implemented::ByName { module, name } => ImplementedView::ByName {
                module: module@,
                name: name@,
            },
            Implemented::ByIndex(i) => ImplementedView::ByIndex(i@),
        }
    }
}

/// Specification-level mirror of `Implementation`.
pub enum ImplementationView {
    ByIndex(IndexView),
    Inline { ty: TypeUseView, instrs: InstructionsView },
}

impl View for Implementation {
    type V = ImplementationView;

    open spec fn view(&self) -> ImplementationView {
        match self {
            Implementation::ByIndex(i) => ImplementationView::ByIndex(i@),
            Implementation::Inline { ty, instrs } => ImplementationView::Inline {
                ty: ty@,
                instrs: instrs@,
            },
        }
    }
}

/// Specification-level mirror of `Implement`.
pub struct ImplementView {
    pub span: usize,
    pub implemented: ImplementedView,
    pub implementation: ImplementationView,
}

impl View for Implement {
    type V = ImplementView;

    open spec fn view(&self) -> ImplementView {
        ImplementView {
            span: self.span,
            implemented: self.implemented@,
            implementation: self.implementation@,
        }
    }
}

/// Specification-level mirror of `Adapter`.
pub enum AdapterView {
    Type(TypeView),
    Import(ImportView),
    Export(ExportView),
    Func(FuncView),
    Implement(ImplementView),
}

impl View for Adapter {
    type V = AdapterView;

    open spec fn view(&self) -> AdapterView {
        match self {
            Adapter::Type(t) => AdapterView::Type(t@),
            Adapter::Import(i) => AdapterView::Import(i@),
            Adapter::Export(e) => AdapterView::Export(e@),
            Adapter::Func(f) => AdapterView::Func(f@),
            Adapter::Implement(i) => AdapterView::Implement(i@),
        }
    }
}

/// Specification-level mirror of `CoreFuncImport`.
pub struct CoreFuncImportView {
    pub module: Seq<char>,
    pub field: Option<Seq<char>>,
}

impl View for CoreFuncImport {
    type V = CoreFuncImportView;

    open spec fn view(&self) -> CoreFuncImportView {
        CoreFuncImportView { module: self.module@, field: name_view(self.field) }
    }
}

} // verus!
