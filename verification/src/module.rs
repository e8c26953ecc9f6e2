//! The runtime store of an instantiated module, and the pipeline that
//! builds it from a `RawModule`.

use vstd::hash_map::StringHashMap;
use vstd::prelude::*;
use crate::const_expr::evaluate_constant_expression;
use crate::entities::Stack;
use crate::host::Interpreter;
use crate::host::Resolver;
use crate::pipeline_laws::law_single_table_and_memory;
use crate::pipeline_laws::law_well_instantiated;
use crate::pipeline_laws::well_instantiated;
use crate::raw_module::has_header;
use crate::raw_module::spec_read;
use crate::raw_module::RawModule;
use crate::raw_module::RawModuleView;
use crate::types::Import;
use crate::types::ImportDesc;
use crate::types::ImportView;
use crate::const_expr::offset_from_i32;
use crate::const_expr::spec_evaluate;
use crate::const_expr::spec_offset;
use crate::const_expr::ConstantExpressionStore;
use crate::entities::addressable;
use crate::entities::StackEntry;
use crate::error::ResolverError;
use crate::error::Trap;
use crate::types::Data;
use crate::types::DataView;
use crate::types::Element;
use crate::types::ElementView;
use crate::types::Export;
use crate::types::ExportDesc;
use crate::types::ExportView;
use crate::types::Expr;
use crate::types::GlobalDef;
use crate::types::GlobalDefView;
use crate::types::GlobalType;
use crate::entities::Callable;
use crate::entities::CallableView;
use crate::entities::Global;
use crate::entities::Memory;
use crate::entities::MemoryView;
use crate::entities::Table;
use crate::entities::TableView;
use crate::entities::WasmExprCallable;
use crate::error::Error;
use crate::error::IndexSpace;
use crate::error::Limit;
use crate::types::Func;
use crate::types::FuncType;
use crate::types::FuncTypeView;
use crate::types::FuncView;
use crate::types::MemType;
use crate::types::TableType;

verus! {

/// What an export name stands for: the index of an entity in the store
/// that holds the export map.
#[derive(Clone, Copy, Debug, PartialEq, Eq)]
pub enum ExportValue {
    Function(usize),
    Table(usize),
    Memory(usize),
    Global(usize),
}

/// The store of an instantiated module: its functions, tables, memories
/// and globals, each imports first, then the module's own; the export map;
/// and the signatures that indirect calls are checked against.
pub struct Module {
    pub functions: Vec<Callable>,
    pub tables: Vec<Table>,
    pub memories: Vec<Memory>,
    pub globals: Vec<Global>,
    pub exports: StringHashMap<ExportValue>,
    pub func_types: Vec<FuncType>,
}

/// The mathematical value of a `Module`.
#[verifier::ext_equal]
pub struct ModuleView {
    pub functions: Seq<CallableView>,
    pub tables: Seq<TableView>,
    pub memories: Seq<MemoryView>,
    pub globals: Seq<Global>,
    pub exports: Map<Seq<char>, ExportValue>,
    pub func_types: Seq<FuncTypeView>,
}

impl View for Module {
    type V = ModuleView;

    open spec fn view(&self) -> ModuleView {
        ModuleView {
            functions: self.functions.deep_view(),
            tables: self.tables.deep_view(),
            memories: self.memories.deep_view(),
            globals: self.globals@,
            exports: self.exports@,
            func_types: self.func_types.deep_view(),
        }
    }
}

/// That a step of the pipeline did what its spec function says: on
/// success the store after it, on failure the error.
pub open spec fn stepped(r: Result<(), Error>, after: ModuleView, expect: Result<ModuleView, Error>) -> bool {
    match expect {
        Ok(m) => r is Ok && after == m,
        Err(e) => r == Err::<(), Error>(e),
    }
}

/// The smaller of two lengths.
pub open spec fn shorter(a: nat, b: nat) -> nat {
    if a <= b {
        a
    } else {
        b
    }
}

impl ModuleView {
    /// The store that holds nothing.
    pub open spec fn empty() -> ModuleView {
        ModuleView {
            functions: Seq::empty(),
            tables: Seq::empty(),
            memories: Seq::empty(),
            globals: Seq::empty(),
            exports: Map::empty(),
            func_types: Seq::empty(),
        }
    }

    /// The store with the module's own functions behind those it has:
    /// bodies and type indices are paired by position, and each function
    /// gets the signature that its type index names. An index that names
    /// no signature is an error.
    pub open spec fn with_functions(
        self,
        typeidx: Seq<usize>,
        funcs: Seq<FuncView>,
        types: Seq<FuncTypeView>,
    ) -> Result<ModuleView, Error> {
        let n = shorter(typeidx.len(), funcs.len());
        if exists|j: int| 0 <= j < n && typeidx[j] >= types.len() {
            Err(Error::InvalidIndex(IndexSpace::Type))
        } else {
            Ok(
                ModuleView {
                    functions: self.functions + Seq::new(
                        n,
                        |j: int|
                            CallableView::Wasm {
                                func_type: types[typeidx[j] as int],
                                func: funcs[j],
                            },
                    ),
                    ..self
                },
            )
        }
    }

    /// The store with a fresh table of each type behind those it has.
    pub open spec fn with_tables(self, tables: Seq<TableType>) -> ModuleView {
        ModuleView {
            tables: self.tables + Seq::new(tables.len(), |j: int| TableView::fresh(tables[j])),
            ..self
        }
    }

    /// The store with a fresh memory of each type behind those it has.
    pub open spec fn with_memories(self, mems: Seq<MemType>) -> ModuleView {
        ModuleView {
            memories: self.memories + Seq::new(mems.len(), |j: int| MemoryView::fresh(mems[j])),
            ..self
        }
    }

    /// The store with the given signatures for indirect calls.
    pub open spec fn with_func_types(self, types: Seq<FuncTypeView>) -> ModuleView {
        ModuleView { func_types: types, ..self }
    }

    /// The store itself, if it has at most one table and at most one
    /// memory; tables are looked at first.
    pub open spec fn validated(self) -> Result<ModuleView, Error> {
        if self.tables.len() > 1 {
            Err(Error::InstantiationLimit(Limit::Tables))
        } else if self.memories.len() > 1 {
            Err(Error::InstantiationLimit(Limit::Memories))
        } else {
            Ok(self)
        }
    }

    /// The store with the globals that the definitions from `i` on make,
    /// each behind those before it. An initializer reads the globals in
    /// `visible` only.
    pub open spec fn with_globals_from(
        self,
        defs: Seq<GlobalDefView>,
        visible: Seq<Global>,
        i: int,
    ) -> Result<ModuleView, Error>
        decreases defs.len() - i,
    {
        if i < 0 || i >= defs.len() {
            Ok(self)
        } else {
            match new_global(defs[i], visible) {
                Err(e) => Err(e),
                Ok(g) => (ModuleView { globals: self.globals.push(g), ..self }).with_globals_from(
                    defs,
                    visible,
                    i + 1,
                ),
            }
        }
    }

    /// The store with the module's own globals behind those it has, which
    /// are the imported ones and the only ones that an initializer reads.
    pub open spec fn with_globals(self, defs: Seq<GlobalDefView>) -> Result<ModuleView, Error> {
        self.with_globals_from(defs, self.globals, 0)
    }

    /// What an export descriptor stands for in this store, if its index
    /// is in range.
    pub open spec fn export_value(self, desc: ExportDesc) -> Result<ExportValue, Error> {
        match desc {
            ExportDesc::Func(i) => if i < self.functions.len() {
                Ok(ExportValue::Function(i))
            } else {
                Err(Error::InvalidIndex(IndexSpace::Function))
            },
            ExportDesc::Table(i) => if i < self.tables.len() {
                Ok(ExportValue::Table(i))
            } else {
                Err(Error::InvalidIndex(IndexSpace::Table))
            },
            ExportDesc::Mem(i) => if i < self.memories.len() {
                Ok(ExportValue::Memory(i))
            } else {
                Err(Error::InvalidIndex(IndexSpace::Memory))
            },
            ExportDesc::Global(i) => if i < self.globals.len() {
                Ok(ExportValue::Global(i))
            } else {
                Err(Error::InvalidIndex(IndexSpace::Global))
            },
        }
    }

    /// The store with the exports from `i` on entered in its export map,
    /// in their order: a name that comes again replaces the earlier entry.
    pub open spec fn with_exports_from(
        self,
        exports: Seq<ExportView>,
        i: int,
    ) -> Result<ModuleView, Error>
        decreases exports.len() - i,
    {
        if i < 0 || i >= exports.len() {
            Ok(self)
        } else {
            match self.export_value(exports[i].desc) {
                Err(e) => Err(e),
                Ok(v) => (ModuleView {
                    exports: self.exports.insert(exports[i].name, v),
                    ..self
                }).with_exports_from(exports, i + 1),
            }
        }
    }

    /// The store with every export entered in its export map.
    pub open spec fn with_exports(self, exports: Seq<ExportView>) -> Result<ModuleView, Error> {
        self.with_exports_from(exports, 0)
    }

    /// The store after an element segment has been written into its
    /// table. The checks come in this order: the table index, the offset
    /// expression, the function indices, the room in the table.
    pub open spec fn with_element(
        self,
        e: ElementView,
        visible: Seq<Global>,
    ) -> Result<ModuleView, Error> {
        if e.table_idx >= self.tables.len() {
            Err(Error::InvalidIndex(IndexSpace::Table))
        } else {
            match spec_offset(e.offset, visible) {
                Err(x) => Err(x),
                Ok(offset) => if exists|j: int|
                    0 <= j < e.func_indices.len() && e.func_indices[j] >= self.functions.len() {
                    Err(Error::InvalidIndex(IndexSpace::Function))
                } else if offset + e.func_indices.len() > self.tables[e.table_idx as int].entries.len() {
                    Err(Error::Trap(Trap::TableOutOfBounds))
                } else {
                    Ok(
                        ModuleView {
                            tables: self.tables.update(
                                e.table_idx as int,
                                self.tables[e.table_idx as int].with_entries(
                                    offset as int,
                                    e.func_indices,
                                ),
                            ),
                            ..self
                        },
                    )
                },
            }
        }
    }

    /// The store after the element segments from `i` on have been written.
    pub open spec fn with_elements_from(
        self,
        elems: Seq<ElementView>,
        visible: Seq<Global>,
        i: int,
    ) -> Result<ModuleView, Error>
        decreases elems.len() - i,
    {
        if i < 0 || i >= elems.len() {
            Ok(self)
        } else {
            match self.with_element(elems[i], visible) {
                Err(e) => Err(e),
                Ok(m) => m.with_elements_from(elems, visible, i + 1),
            }
        }
    }

    /// The store after a data segment has been copied into its memory.
    /// The checks come in this order: the memory index, the offset
    /// expression, the room in the memory.
    pub open spec fn with_data_segment(
        self,
        d: DataView,
        visible: Seq<Global>,
    ) -> Result<ModuleView, Error> {
        if d.mem_idx >= self.memories.len() {
            Err(Error::InvalidIndex(IndexSpace::Memory))
        } else {
            match spec_offset(d.offset, visible) {
                Err(x) => Err(x),
                Ok(offset) => if offset + d.bytes.len() > self.memories[d.mem_idx as int].data.len() {
                    Err(Error::Trap(Trap::MemoryOutOfBounds))
                } else {
                    Ok(
                        ModuleView {
                            memories: self.memories.update(
                                d.mem_idx as int,
                                self.memories[d.mem_idx as int].with_data(offset as int, d.bytes),
                            ),
                            ..self
                        },
                    )
                },
            }
        }
    }

    /// The store after the data segments from `i` on have been copied.
    pub open spec fn with_data_from(
        self,
        data: Seq<DataView>,
        visible: Seq<Global>,
        i: int,
    ) -> Result<ModuleView, Error>
        decreases data.len() - i,
    {
        if i < 0 || i >= data.len() {
            Ok(self)
        } else {
            match self.with_data_segment(data[i], visible) {
                Err(e) => Err(e),
                Ok(m) => m.with_data_from(data, visible, i + 1),
            }
        }
    }

    /// The store with the globals that the definitions from `i` on make,
    /// up to the first whose initializer fails: that one and those behind
    /// it add nothing.
    pub open spec fn globals_added(
        self,
        defs: Seq<GlobalDefView>,
        visible: Seq<Global>,
        i: int,
    ) -> ModuleView
        decreases defs.len() - i,
    {
        if i < 0 || i >= defs.len() {
            self
        } else {
            match new_global(defs[i], visible) {
                Err(_) => self,
                Ok(g) => (ModuleView { globals: self.globals.push(g), ..self }).globals_added(
                    defs,
                    visible,
                    i + 1,
                ),
            }
        }
    }

    /// The store with the exports from `i` on entered in its export map,
    /// up to the first that names no entity of the store: that one and
    /// those behind it enter nothing.
    pub open spec fn exports_entered(self, exports: Seq<ExportView>, i: int) -> ModuleView
        decreases exports.len() - i,
    {
        if i < 0 || i >= exports.len() {
            self
        } else {
            match self.export_value(exports[i].desc) {
                Err(_) => self,
                Ok(v) => (ModuleView {
                    exports: self.exports.insert(exports[i].name, v),
                    ..self
                }).exports_entered(exports, i + 1),
            }
        }
    }

    /// The store with the element segments from `i` on written, up to the
    /// first that fails: that one and those behind it write nothing.
    pub open spec fn elements_written(
        self,
        elems: Seq<ElementView>,
        visible: Seq<Global>,
        i: int,
    ) -> ModuleView
        decreases elems.len() - i,
    {
        if i < 0 || i >= elems.len() {
            self
        } else {
            match self.with_element(elems[i], visible) {
                Err(_) => self,
                Ok(m) => m.elements_written(elems, visible, i + 1),
            }
        }
    }

    /// The store with the data segments from `i` on copied, up to the
    /// first that fails: that one and those behind it copy nothing.
    pub open spec fn data_copied(
        self,
        data: Seq<DataView>,
        visible: Seq<Global>,
        i: int,
    ) -> ModuleView
        decreases data.len() - i,
    {
        if i < 0 || i >= data.len() {
            self
        } else {
            match self.with_data_segment(data[i], visible) {
                Err(_) => self,
                Ok(m) => m.data_copied(data, visible, i + 1),
            }
        }
    }

    /// The store with what the module defines behind what it holds: the
    /// functions, the tables, the memories, and the globals.
    pub open spec fn with_entities(self, raw: RawModuleView) -> Result<ModuleView, Error> {
        match self.with_functions(raw.typeidx, raw.funcs, raw.types) {
            Err(e) => Err(e),
            Ok(m) => m.with_tables(raw.tables).with_memories(raw.mems).with_globals(raw.globals),
        }
    }

    /// The store with the exports collected and the signatures registered,
    /// if it is within the limits.
    pub open spec fn with_interface(self, raw: RawModuleView) -> Result<ModuleView, Error> {
        match self.with_exports(raw.exports) {
            Err(e) => Err(e),
            Ok(m) => m.with_func_types(raw.types).validated(),
        }
    }

    /// The store with the element segments written, then the data
    /// segments. Their offsets read the globals in `visible` only.
    pub open spec fn with_segments(
        self,
        raw: RawModuleView,
        visible: Seq<Global>,
    ) -> Result<ModuleView, Error> {
        match self.with_elements_from(raw.elem, visible, 0) {
            Err(e) => Err(e),
            Ok(m) => m.with_data_from(raw.data, visible, 0),
        }
    }

    /// The store that the pipeline makes of a store that holds the
    /// imports: what the module defines is added, the exports are
    /// collected, the signatures registered, the limits checked, and the
    /// element and data segments written. The first step that fails gives
    /// the error. Constant expressions read the imported globals only.
    pub open spec fn instantiate(self, raw: RawModuleView) -> Result<ModuleView, Error> {
        match self.with_entities(raw) {
            Err(e) => Err(e),
            Ok(m) => match m.with_interface(raw) {
                Err(e) => Err(e),
                Ok(m) => m.with_segments(raw, self.globals),
            },
        }
    }

    /// The store with an imported entity behind those of its kind.
    pub open spec fn with_import(self, x: ImportedView) -> ModuleView {
        match x {
            ImportedView::Function(c) => ModuleView { functions: self.functions.push(c), ..self },
            ImportedView::Table(t) => ModuleView { tables: self.tables.push(t), ..self },
            ImportedView::Memory(m) => ModuleView { memories: self.memories.push(m), ..self },
            ImportedView::Global(g) => ModuleView { globals: self.globals.push(g), ..self },
        }
    }

    /// The store with the imported entities `xs`, each behind those of its
    /// kind, in their order.
    pub open spec fn with_imports(self, xs: Seq<ImportedView>) -> ModuleView
        decreases xs.len(),
    {
        if xs.len() == 0 {
            self
        } else {
            self.with_imports(xs.drop_last()).with_import(xs.last())
        }
    }

    /// That this store holds, in each index space, what `before` held
    /// and behind it as many entities as `imports` ask for in that space;
    /// the export map and the signatures are those of `before`.
    pub open spec fn holds_imports(self, before: ModuleView, imports: Seq<ImportView>) -> bool {
        &&& self.functions.len() == before.functions.len() + imports_of(
            imports,
            IndexSpace::Function,
            imports.len(),
        )
        &&& self.functions.take(before.functions.len() as int) == before.functions
        &&& self.tables.len() == before.tables.len() + imports_of(
            imports,
            IndexSpace::Table,
            imports.len(),
        )
        &&& self.tables.take(before.tables.len() as int) == before.tables
        &&& self.memories.len() == before.memories.len() + imports_of(
            imports,
            IndexSpace::Memory,
            imports.len(),
        )
        &&& self.memories.take(before.memories.len() as int) == before.memories
        &&& self.globals.len() == before.globals.len() + imports_of(
            imports,
            IndexSpace::Global,
            imports.len(),
        )
        &&& self.globals.take(before.globals.len() as int) == before.globals
        &&& self.exports == before.exports
        &&& self.func_types == before.func_types
    }
}

/// What is asked for: a function of a signature, or a table, a memory
/// or a global of a type.
#[derive(Clone, Copy, Debug, PartialEq, Eq)]
pub enum Asked<'a> {
    Function(&'a FuncType),
    Table(TableType),
    Memory(MemType),
    Global(GlobalType),
}

/// The mathematical value of an `Asked`.
#[verifier::ext_equal]
pub enum AskedView {
    Function(FuncTypeView),
    Table(TableType),
    Memory(MemType),
    Global(GlobalType),
}

impl<'a> View for Asked<'a> {
    type V = AskedView;

    open spec fn view(&self) -> AskedView {
        match self {
            Asked::Function(t) => AskedView::Function(t@),
            Asked::Table(t) => AskedView::Table(*t),
            Asked::Memory(t) => AskedView::Memory(*t),
            Asked::Global(t) => AskedView::Global(*t),
        }
    }
}

impl AskedView {
    /// The index space of what is asked for.
    pub open spec fn space(self) -> IndexSpace {
        match self {
            AskedView::Function(_) => IndexSpace::Function,
            AskedView::Table(_) => IndexSpace::Table,
            AskedView::Memory(_) => IndexSpace::Memory,
            AskedView::Global(_) => IndexSpace::Global,
        }
    }
}

/// What the resolver is asked for an import: the two names of the
/// import, and what is to stand under them.
#[derive(Clone, Copy, Debug, PartialEq, Eq)]
pub struct Request<'a> {
    pub mod_name: &'a str,
    pub name: &'a str,
    pub asked: Asked<'a>,
}

/// The mathematical value of a `Request`.
#[verifier::ext_equal]
pub struct RequestView {
    pub mod_name: Seq<char>,
    pub name: Seq<char>,
    pub asked: AskedView,
}

impl<'a> View for Request<'a> {
    type V = RequestView;

    open spec fn view(&self) -> RequestView {
        RequestView { mod_name: self.mod_name@, name: self.name@, asked: self.asked@ }
    }
}

/// The request that an import makes of the resolver: its two names, and
/// the type that its descriptor holds, or for a function the signature
/// that the descriptor's type index names. An import of a function whose
/// type index names no signature makes none, and is an error.
pub open spec fn request_for(
    import: ImportView,
    types: Seq<FuncTypeView>,
) -> Result<RequestView, Error> {
    if names_no_type(import, types.len()) {
        Err(Error::InvalidIndex(IndexSpace::Type))
    } else {
        Ok(
            RequestView {
                mod_name: import.mod_name,
                name: import.name,
                asked: match import.desc {
                    ImportDesc::TypeIdx(t) => AskedView::Function(types[t as int]),
                    ImportDesc::TableType(t) => AskedView::Table(t),
                    ImportDesc::MemType(t) => AskedView::Memory(t),
                    ImportDesc::GlobalType(t) => AskedView::Global(t),
                },
            },
        )
    }
}

/// What the resolver answered for an import.
#[derive(Debug, PartialEq, Eq)]
pub enum Imported {
    Function(Callable),
    Table(Table),
    Memory(Memory),
    Global(Global),
}

/// The mathematical value of an `Imported`.
#[verifier::ext_equal]
pub enum ImportedView {
    Function(CallableView),
    Table(TableView),
    Memory(MemoryView),
    Global(Global),
}

impl View for Imported {
    type V = ImportedView;

    open spec fn view(&self) -> ImportedView {
        match self {
            Imported::Function(c) => ImportedView::Function(c@),
            Imported::Table(t) => ImportedView::Table(t@),
            Imported::Memory(m) => ImportedView::Memory(m@),
            Imported::Global(g) => ImportedView::Global(*g),
        }
    }
}

impl ImportedView {
    /// The index space that the entity goes to.
    pub open spec fn space(self) -> IndexSpace {
        match self {
            ImportedView::Function(_) => IndexSpace::Function,
            ImportedView::Table(_) => IndexSpace::Table,
            ImportedView::Memory(_) => IndexSpace::Memory,
            ImportedView::Global(_) => IndexSpace::Global,
        }
    }
}

/// What resolving the imports gave: `answers` are the entities that the
/// resolver answered with, one for each import up to where the resolving
/// ended, each of the kind that its import asks for. None of those
/// imports names a signature that does not exist. The resolving ended
/// well behind the last import. It ended early, at the first import that
/// names a signature that does not exist, with an invalid type index, or
/// at the import that the resolver failed on, with an error of the
/// resolver.
pub open spec fn import_answers(
    r: Result<(), Error>,
    imports: Seq<ImportView>,
    types: nat,
    answers: Seq<ImportedView>,
) -> bool {
    &&& answers.len() <= imports.len()
    &&& forall|i: int|
        0 <= i < answers.len() ==> (#[trigger] answers[i]).space() == import_space(imports[i].desc)
            && !names_no_type(imports[i], types)
    &&& match r {
        Ok(_) => answers.len() == imports.len(),
        Err(e) => answers.len() < imports.len() && if names_no_type(
            imports[answers.len() as int],
            types,
        ) {
            e == Error::InvalidIndex(IndexSpace::Type)
        } else {
            e is Resolver
        },
    }
}

/// The index space that an import adds to.
pub open spec fn import_space(desc: ImportDesc) -> IndexSpace {
    match desc {
        ImportDesc::TypeIdx(_) => IndexSpace::Function,
        ImportDesc::TableType(_) => IndexSpace::Table,
        ImportDesc::MemType(_) => IndexSpace::Memory,
        ImportDesc::GlobalType(_) => IndexSpace::Global,
    }
}

/// How many of the first `n` imports add to `space`.
pub open spec fn imports_of(imports: Seq<ImportView>, space: IndexSpace, n: nat) -> nat
    decreases n,
{
    if n == 0 {
        0
    } else {
        imports_of(imports, space, (n - 1) as nat) + if import_space(imports[n - 1].desc) == space {
            1nat
        } else {
            0nat
        }
    }
}

/// The number of functions in the store of a module: those that it
/// imports and those that it defines.
pub open spec fn function_count(raw: RawModuleView) -> nat {
    imports_of(raw.imports, IndexSpace::Function, raw.imports.len()) + shorter(
        raw.typeidx.len(),
        raw.funcs.len(),
    )
}

/// Whether an import asks for a function of a signature that does not exist.
pub open spec fn names_no_type(import: ImportView, types: nat) -> bool {
    import.desc matches ImportDesc::TypeIdx(t) && t >= types
}

/// Whether a memory of each type can be made on this machine.
pub open spec fn all_addressable(mems: Seq<MemType>) -> bool {
    forall|k: int| 0 <= k < mems.len() ==> addressable(#[trigger] mems[k])
}

/// What instantiation may give for a module. The imports are resolved
/// first: where that ends early, its error is the result. Else the result
/// is what the pipeline makes of the store that holds the resolver's
/// answers, each behind those of its kind, and nothing else.
pub open spec fn instantiated(r: Result<ModuleView, Error>, raw: RawModuleView) -> bool {
    exists|answers: Seq<ImportedView>, step: Result<(), Error>| #[trigger]
        import_answers(step, raw.imports, raw.types.len(), answers) && match step {
            Err(e) => r == Err::<ModuleView, Error>(e),
            Ok(_) => r == ModuleView::empty().with_imports(answers).instantiate(raw),
        }
}

/// Whether a module has more tables or more memories than a store may
/// hold, imported and its own together.
pub open spec fn too_many_entities(raw: RawModuleView) -> bool {
    ||| imports_of(raw.imports, IndexSpace::Table, raw.imports.len()) + raw.tables.len() >= 2
    ||| imports_of(raw.imports, IndexSpace::Memory, raw.imports.len()) + raw.mems.len() >= 2
}

/// What the instantiation of a module, with the call of its start
/// function, may give. Without a start function it is what the pipeline
/// gives. An error is one of the pipeline, or says that the start
/// function does not exist, or is the trap that the start function ended
/// in. A start function that does not exist always is an error. A module
/// without imports gives exactly what the pipeline makes of the empty
/// store, up to the call of the start function.
pub open spec fn resolved(r: Result<ModuleView, Error>, raw: RawModuleView) -> bool {
    &&& raw.start is None ==> instantiated(r, raw)
    &&& raw.start is None ==> (r matches Ok(m) ==> well_instantiated(m, raw))
    &&& r matches Err(e) ==> instantiated(Err::<ModuleView, Error>(e), raw) || e
        == Error::InvalidIndex(IndexSpace::Start) || e is Trap
    &&& (raw.start matches Some(s) && s >= function_count(raw)) ==> r is Err
    &&& too_many_entities(raw) ==> r is Err
    &&& raw.imports.len() == 0 ==> (match ModuleView::empty().instantiate(raw) {
        Err(e) => r == Err::<ModuleView, Error>(e),
        Ok(m) => match raw.start {
            None => r == Ok::<ModuleView, Error>(m),
            Some(s) => if s < m.functions.len() {
                r is Ok || r matches Err(Error::Trap(_))
            } else {
                r == Err::<ModuleView, Error>(Error::InvalidIndex(IndexSpace::Start))
            },
        },
    })
}

/// Whether instantiation is sure not to ask the resolver: the module has
/// no import, or its first import names a signature that does not exist.
pub open spec fn asks_no_resolver(raw: RawModuleView) -> bool {
    raw.imports.len() == 0 || names_no_type(raw.imports[0], raw.types.len())
}

/// Whether instantiation is sure not to call a function: the module has
/// no start function, or one that does not exist, or too many tables or
/// memories, or it has no imports and the pipeline fails on it.
pub open spec fn calls_no_function(raw: RawModuleView) -> bool {
    ||| raw.start is None
    ||| too_many_entities(raw)
    ||| (raw.start matches Some(s) && s >= function_count(raw))
    ||| raw.imports.len() == 0 && ModuleView::empty().instantiate(raw) is Err
}

/// Whether loading is sure not to ask the resolver: the bytes do not
/// decode, or to a module with a memory that cannot be addressed, or to
/// one whose instantiation asks no resolver.
pub open spec fn loads_without_resolver(bytes: Seq<u8>) -> bool {
    match spec_read(bytes) {
        Err(_) => true,
        Ok(m) => !all_addressable(m.mems) || asks_no_resolver(m),
    }
}

/// Whether loading is sure not to call a function: the bytes do not
/// decode, or to a module with a memory that cannot be addressed, or to
/// one whose instantiation calls no function.
pub open spec fn loads_without_call(bytes: Seq<u8>) -> bool {
    match spec_read(bytes) {
        Err(_) => true,
        Ok(m) => !all_addressable(m.mems) || calls_no_function(m),
    }
}

/// The view of a result.
pub open spec fn result_view(r: Result<Module, Error>) -> Result<ModuleView, Error> {
    match r {
        Ok(m) => Ok(m@),
        Err(e) => Err(e),
    }
}

/// What is to be done about the start function.
#[derive(Clone, Copy, Debug, PartialEq, Eq)]
pub enum StartAction {
    /// The module names no start function.
    Done,
    /// The function at this index is to be called once, on an empty stack.
    Invoke(usize),
}

/// The global that a definition makes: the one value of its initializer,
/// which must have the declared kind.
pub open spec fn new_global(def: GlobalDefView, visible: Seq<Global>) -> Result<Global, Error> {
    match spec_evaluate(def.init, visible, 1) {
        Err(e) => Err(e),
        Ok(values) => if values[0].kind() == def.global_type.val_type {
            Ok(Global { global_type: def.global_type, value: values[0] })
        } else {
            Err(Error::TypeMismatch)
        },
    }
}

impl RawModule {
    /// Whether each memory that the module defines can be made on this
    /// machine.
    pub fn memories_addressable(&self) -> (r: bool)
        ensures
            r == all_addressable(self@.mems),
    {
        let mut j: usize = 0;
        while j < self.mems.len()
            invariant
                j <= self.mems@.len(),
                forall|k: int| 0 <= k < j ==> addressable(#[trigger] self.mems@[k]),
            decreases self.mems@.len() - j,
        {
            if !Memory::is_addressable(self.mems[j]) {
                assert(self@.mems[j as int] == self.mems@[j as int]);
                return false;
            }
            j += 1;
        }
        assert forall|k: int| 0 <= k < self@.mems.len() implies addressable(
            #[trigger] self@.mems[k],
        ) by {
            assert(self@.mems[k] == self.mems@[k]);
        }
        true
    }
}

impl Module {
    /// A store that holds nothing.
    pub fn new() -> (r: Self)
        ensures
            r@ == ModuleView::empty(),
    {
        let r = Module {
            functions: Vec::new(),
            tables: Vec::new(),
            memories: Vec::new(),
            globals: Vec::new(),
            exports: StringHashMap::new(),
            func_types: Vec::new(),
        };
        assert(r@ =~= ModuleView::empty());
        r
    }

    /// Adds the module's own functions.
    pub fn add_functions(
        &mut self,
        typeidx: &Vec<usize>,
        funcs: &Vec<Func>,
        types: &Vec<FuncType>,
    ) -> (r: Result<(), Error>)
        ensures
            stepped(
                r,
                final(self)@,
                old(self)@.with_functions(typeidx@, funcs.deep_view(), types.deep_view()),
            ),
            r is Err ==> exists|k: int|
                0 <= k < shorter(typeidx@.len(), funcs@.len()) && #[trigger] typeidx@[k]
                    >= types@.len() && (forall|j: int| 0 <= j < k ==> typeidx@[j] < types@.len())
                    && final(self)@ == (ModuleView {
                    functions: old(self)@.functions + Seq::new(
                        k as nat,
                        |j: int|
                            CallableView::Wasm {
                                func_type: types.deep_view()[typeidx@[j] as int],
                                func: funcs.deep_view()[j],
                            },
                    ),
                    ..old(self)@
                }),
    {
        let n = if typeidx.len() <= funcs.len() {
            typeidx.len()
        } else {
            funcs.len()
        };
        let ghost before = self@;
        let ghost ts = types.deep_view();
        let ghost fs = funcs.deep_view();
        let mut j: usize = 0;
        while j < n
            invariant
                j <= n,
                n == shorter(typeidx@.len(), funcs@.len()),
                before == old(self)@,
                ts == types.deep_view(),
                fs == funcs.deep_view(),
                forall|k: int| 0 <= k < j ==> typeidx@[k] < types@.len(),
                self@ == (ModuleView {
                    functions: before.functions + Seq::new(
                        j as nat,
                        |k: int|
                            CallableView::Wasm { func_type: ts[typeidx@[k] as int], func: fs[k] },
                    ),
                    ..before
                }),
            decreases n - j,
        {
            let type_idx = typeidx[j];
            if type_idx >= types.len() {
                return Err(Error::InvalidIndex(IndexSpace::Type));
            }
            let callable = Callable::Wasm(
                WasmExprCallable::new(types[type_idx].clone(), funcs[j].clone()),
            );
            let ghost prev = self.functions.deep_view();
            self.functions.push(callable);
            assert(self.functions.deep_view() =~= prev.push(
                CallableView::Wasm { func_type: ts[type_idx as int], func: fs[j as int] },
            ));
            assert(self@.functions =~= before.functions + Seq::new(
                (j + 1) as nat,
                |k: int| CallableView::Wasm { func_type: ts[typeidx@[k] as int], func: fs[k] },
            ));
            j += 1;
        }
        Ok(())
    }

    /// Adds a fresh table of each type.
    pub fn add_tables(&mut self, tables: &Vec<TableType>) -> (r: Result<(), Error>)
        ensures
            r is Ok,
            final(self)@ == old(self)@.with_tables(tables@),
    {
        let ghost before = self@;
        let mut j: usize = 0;
        while j < tables.len()
            invariant
                j <= tables@.len(),
                before == old(self)@,
                self@ == (ModuleView {
                    tables: before.tables + Seq::new(
                        j as nat,
                        |k: int| TableView::fresh(tables@[k]),
                    ),
                    ..before
                }),
            decreases tables@.len() - j,
        {
            let ghost prev = self.tables.deep_view();
            let table = Table::new(tables[j]);
            self.tables.push(table);
            assert(self.tables.deep_view() =~= prev.push(TableView::fresh(tables@[j as int])));
            assert(self@.tables =~= before.tables + Seq::new(
                (j + 1) as nat,
                |k: int| TableView::fresh(tables@[k]),
            ));
            j += 1;
        }
        Ok(())
    }

    /// Adds a fresh memory of each type.
    pub fn add_memories(&mut self, memories: &Vec<MemType>) -> (r: Result<(), Error>)
        requires
            forall|k: int| 0 <= k < memories@.len() ==> addressable(#[trigger] memories@[k]),
        ensures
            r is Ok,
            final(self)@ == old(self)@.with_memories(memories@),
    {
        let ghost before = self@;
        let mut j: usize = 0;
        while j < memories.len()
            invariant
                j <= memories@.len(),
                before == old(self)@,
                forall|k: int| 0 <= k < memories@.len() ==> addressable(#[trigger] memories@[k]),
                self@ == (ModuleView {
                    memories: before.memories + Seq::new(
                        j as nat,
                        |k: int| MemoryView::fresh(memories@[k]),
                    ),
                    ..before
                }),
            decreases memories@.len() - j,
        {
            let ghost prev = self.memories.deep_view();
            let memory = Memory::new(memories[j]);
            self.memories.push(memory);
            assert(self.memories.deep_view() =~= prev.push(MemoryView::fresh(memories@[j as int])));
            assert(self@.memories =~= before.memories + Seq::new(
                (j + 1) as nat,
                |k: int| MemoryView::fresh(memories@[k]),
            ));
            j += 1;
        }
        Ok(())
    }

    /// Registers the signatures that indirect calls are checked against.
    pub fn add_func_types(&mut self, func_types: Vec<FuncType>) -> (r: Result<(), Error>)
        ensures
            r is Ok,
            final(self)@ == old(self)@.with_func_types(func_types.deep_view()),
    {
        self.func_types = func_types;
        Ok(())
    }

    /// Checks that the store has at most one table and at most one memory.
    pub fn pre_execute_validate(&self) -> (r: Result<(), Error>)
        ensures
            stepped(r, self@, self@.validated()),
    {
        if self.tables.len() > 1 {
            Err(Error::InstantiationLimit(Limit::Tables))
        } else if self.memories.len() > 1 {
            Err(Error::InstantiationLimit(Limit::Memories))
        } else {
            Ok(())
        }
    }
    /// Adds the module's own globals. Each initializer is evaluated
    /// against the globals that the store held before: the imported ones.
    pub fn add_globals(&mut self, globals: &Vec<GlobalDef>) -> (r: Result<(), Error>)
        ensures
            stepped(r, final(self)@, old(self)@.with_globals(globals.deep_view())),
            final(self)@ == old(self)@.globals_added(globals.deep_view(), old(self)@.globals, 0),
            final(self)@.globals.take(old(self)@.globals.len() as int) == old(self)@.globals,
            final(self)@.functions == old(self)@.functions,
            final(self)@.tables == old(self)@.tables,
            final(self)@.memories == old(self)@.memories,
            final(self)@.exports == old(self)@.exports,
            final(self)@.func_types == old(self)@.func_types,
    {
        let imported = self.globals.len();
        let ghost visible = self@.globals;
        let ghost defs = globals.deep_view();
        let mut j: usize = 0;
        while j < globals.len()
            invariant
                j <= globals@.len(),
                defs == globals.deep_view(),
                visible == old(self)@.globals,
                imported == visible.len(),
                imported <= self.globals@.len(),
                self.globals@.take(imported as int) == visible,
                old(self)@.with_globals(defs) == self@.with_globals_from(defs, visible, j as int),
                old(self)@.globals_added(defs, visible, 0) == self@.globals_added(
                    defs,
                    visible,
                    j as int,
                ),
                self@.functions == old(self)@.functions,
                self@.tables == old(self)@.tables,
                self@.memories == old(self)@.memories,
                self@.exports == old(self)@.exports,
                self@.func_types == old(self)@.func_types,
            decreases globals@.len() - j,
        {
            let values = {
                let store = ConstantExpressionStore::new(&self.globals, imported);
                evaluate_constant_expression(&globals[j].init, &store, 1)?
            };
            let global = Global::new(globals[j].global_type, values[0])?;
            let ghost prev = self@;
            self.globals.push(global);
            assert(self@ == (ModuleView { globals: prev.globals.push(global), ..prev }));
            assert(self.globals@.take(imported as int) =~= visible);
            j += 1;
        }
        Ok(())
    }

    /// The offset that a constant expression gives, read against the first
    /// `imported_globals` globals of the store.
    pub fn evaluate_offset_expression(
        &self,
        expr: &Expr,
        imported_globals: usize,
    ) -> (r: Result<usize, Error>)
        requires
            imported_globals <= self@.globals.len(),
        ensures
            r == spec_offset(expr@, self@.globals.take(imported_globals as int)),
    {
        let store = ConstantExpressionStore::new(&self.globals, imported_globals);
        let result = evaluate_constant_expression(expr, &store, 1)?;
        match result[0] {
            StackEntry::I32Entry(i) => Ok(offset_from_i32(i)),
            _ => Err(Error::TypeMismatch),
        }
    }

    /// The handle of the entity at `idx` of `items`: the index itself, if
    /// it is in range.
    pub fn collect_single_export<T>(
        idx: usize,
        items: &Vec<T>,
        space: IndexSpace,
    ) -> (r: Result<usize, Error>)
        ensures
            idx < items@.len() ==> r == Ok::<usize, Error>(idx),
            idx >= items@.len() ==> r == Err::<usize, Error>(Error::InvalidIndex(space)),
    {
        if idx >= items.len() {
            return Err(Error::InvalidIndex(space));
        }
        Ok(idx)
    }

    /// Enters every export in the export map.
    pub fn collect_exports(&mut self, exports: &Vec<Export>) -> (r: Result<(), Error>)
        ensures
            stepped(r, final(self)@, old(self)@.with_exports(exports.deep_view())),
            final(self)@ == old(self)@.exports_entered(exports.deep_view(), 0),
            final(self)@.functions == old(self)@.functions,
            final(self)@.tables == old(self)@.tables,
            final(self)@.memories == old(self)@.memories,
            final(self)@.globals == old(self)@.globals,
            final(self)@.func_types == old(self)@.func_types,
    {
        let ghost all = exports.deep_view();
        let mut j: usize = 0;
        while j < exports.len()
            invariant
                j <= exports@.len(),
                all == exports.deep_view(),
                old(self)@.with_exports(all) == self@.with_exports_from(all, j as int),
                old(self)@.exports_entered(all, 0) == self@.exports_entered(all, j as int),
                self@.functions == old(self)@.functions,
                self@.tables == old(self)@.tables,
                self@.memories == old(self)@.memories,
                self@.globals == old(self)@.globals,
                self@.func_types == old(self)@.func_types,
            decreases exports@.len() - j,
        {
            let export = &exports[j];
            let value = match export.desc {
                ExportDesc::Func(idx) => ExportValue::Function(
                    Self::collect_single_export(idx, &self.functions, IndexSpace::Function)?,
                ),
                ExportDesc::Table(idx) => ExportValue::Table(
                    Self::collect_single_export(idx, &self.tables, IndexSpace::Table)?,
                ),
                ExportDesc::Mem(idx) => ExportValue::Memory(
                    Self::collect_single_export(idx, &self.memories, IndexSpace::Memory)?,
                ),
                ExportDesc::Global(idx) => ExportValue::Global(
                    Self::collect_single_export(idx, &self.globals, IndexSpace::Global)?,
                ),
            };
            let ghost prev = self@;
            self.exports.insert(export.name.clone(), value);
            assert(self@ == (ModuleView { exports: prev.exports.insert(all[j as int].name, value), ..prev }));
            j += 1;
        }
        Ok(())
    }

    /// Writes an element segment into its table.
    pub fn initialize_table_element(
        &mut self,
        element: &Element,
        imported_globals: usize,
    ) -> (r: Result<(), Error>)
        requires
            imported_globals <= old(self)@.globals.len(),
        ensures
            stepped(
                r,
                final(self)@,
                old(self)@.with_element(element@, old(self)@.globals.take(imported_globals as int)),
            ),
            r is Err ==> final(self)@ == old(self)@,
    {
        if element.table_idx >= self.tables.len() {
            return Err(Error::InvalidIndex(IndexSpace::Table));
        }
        let offset = self.evaluate_offset_expression(&element.offset, imported_globals)?;
        let mut j: usize = 0;
        while j < element.func_indices.len()
            invariant
                j <= element.func_indices@.len(),
                self@ == old(self)@,
                imported_globals <= self@.globals.len(),
                element.table_idx < self@.tables.len(),
                spec_offset(element@.offset, self@.globals.take(imported_globals as int)) == Ok::<
                    usize,
                    Error,
                >(offset),
                forall|k: int| 0 <= k < j ==> element.func_indices@[k] < self.functions@.len(),
            decreases element.func_indices@.len() - j,
        {
            if element.func_indices[j] >= self.functions.len() {
                return Err(Error::InvalidIndex(IndexSpace::Function));
            }
            j += 1;
        }
        let ghost prev = self.tables.deep_view();
        let written = self.tables[element.table_idx].set_entries(offset, &element.func_indices);
        assert(self.tables.deep_view() =~= prev.update(
            element.table_idx as int,
            self.tables@[element.table_idx as int]@,
        ));
        proof {
            if written is Err {
                assert(self.tables.deep_view() =~= prev);
            }
        }
        written
    }

    /// Writes every element segment into its table, in order.
    pub fn initialize_table_elements(
        &mut self,
        elements: &Vec<Element>,
        imported_globals: usize,
    ) -> (r: Result<(), Error>)
        requires
            imported_globals <= old(self)@.globals.len(),
        ensures
            stepped(
                r,
                final(self)@,
                old(self)@.with_elements_from(
                    elements.deep_view(),
                    old(self)@.globals.take(imported_globals as int),
                    0,
                ),
            ),
            final(self)@ == old(self)@.elements_written(
                elements.deep_view(),
                old(self)@.globals.take(imported_globals as int),
                0,
            ),
    {
        let ghost all = elements.deep_view();
        let ghost visible = self@.globals.take(imported_globals as int);
        let mut j: usize = 0;
        while j < elements.len()
            invariant
                j <= elements@.len(),
                all == elements.deep_view(),
                self@.globals == old(self)@.globals,
                imported_globals <= self@.globals.len(),
                visible == old(self)@.globals.take(imported_globals as int),
                old(self)@.with_elements_from(all, visible, 0) == self@.with_elements_from(
                    all,
                    visible,
                    j as int,
                ),
                old(self)@.elements_written(all, visible, 0) == self@.elements_written(
                    all,
                    visible,
                    j as int,
                ),
            decreases elements@.len() - j,
        {
            self.initialize_table_element(&elements[j], imported_globals)?;
            j += 1;
        }
        Ok(())
    }

    /// Copies a data segment into its memory.
    pub fn initialize_memory_data(
        &mut self,
        data: &Data,
        imported_globals: usize,
    ) -> (r: Result<(), Error>)
        requires
            imported_globals <= old(self)@.globals.len(),
        ensures
            stepped(
                r,
                final(self)@,
                old(self)@.with_data_segment(
                    data@,
                    old(self)@.globals.take(imported_globals as int),
                ),
            ),
            r is Err ==> final(self)@ == old(self)@,
    {
        if data.mem_idx >= self.memories.len() {
            return Err(Error::InvalidIndex(IndexSpace::Memory));
        }
        let offset = self.evaluate_offset_expression(&data.offset, imported_globals)?;
        let ghost prev = self.memories.deep_view();
        let written = self.memories[data.mem_idx].set_data(offset, &data.bytes);
        assert(self.memories.deep_view() =~= prev.update(
            data.mem_idx as int,
            self.memories@[data.mem_idx as int]@,
        ));
        proof {
            if written is Err {
                assert(self.memories.deep_view() =~= prev);
            }
        }
        written
    }

    /// Copies every data segment into its memory, in order.
    pub fn initialize_memory(
        &mut self,
        data: &Vec<Data>,
        imported_globals: usize,
    ) -> (r: Result<(), Error>)
        requires
            imported_globals <= old(self)@.globals.len(),
        ensures
            stepped(
                r,
                final(self)@,
                old(self)@.with_data_from(
                    data.deep_view(),
                    old(self)@.globals.take(imported_globals as int),
                    0,
                ),
            ),
            final(self)@ == old(self)@.data_copied(
                data.deep_view(),
                old(self)@.globals.take(imported_globals as int),
                0,
            ),
    {
        let ghost all = data.deep_view();
        let ghost visible = self@.globals.take(imported_globals as int);
        let mut j: usize = 0;
        while j < data.len()
            invariant
                j <= data@.len(),
                all == data.deep_view(),
                self@.globals == old(self)@.globals,
                imported_globals <= self@.globals.len(),
                visible == old(self)@.globals.take(imported_globals as int),
                old(self)@.with_data_from(all, visible, 0) == self@.with_data_from(
                    all,
                    visible,
                    j as int,
                ),
                old(self)@.data_copied(all, visible, 0) == self@.data_copied(
                    all,
                    visible,
                    j as int,
                ),
            decreases data@.len() - j,
        {
            self.initialize_memory_data(&data[j], imported_globals)?;
            j += 1;
        }
        Ok(())
    }
    /// What is to be asked of the resolver for an import: its two names,
    /// and the type of its descriptor or, for a function, the signature
    /// that its type index names. A type index that names no signature is
    /// an error, and nothing is asked.
    pub fn import_request<'a>(
        import: &'a Import,
        types: &'a Vec<FuncType>,
    ) -> (r: Result<Request<'a>, Error>)
        ensures
            match request_for(import@, types.deep_view()) {
                Ok(v) => r matches Ok(request) && request@ == v,
                Err(e) => r matches Err(x) && x == e,
            },
    {
        let asked = match import.desc {
            ImportDesc::TypeIdx(type_index) => {
                if type_index >= types.len() {
                    return Err(Error::InvalidIndex(IndexSpace::Type));
                }
                Asked::Function(&types[type_index])
            },
            ImportDesc::TableType(table_type) => Asked::Table(table_type),
            ImportDesc::MemType(mem_type) => Asked::Memory(mem_type),
            ImportDesc::GlobalType(global_type) => Asked::Global(global_type),
        };
        Ok(Request { mod_name: import.mod_name.as_str(), name: import.name.as_str(), asked })
    }

    /// Asks the resolver what a request holds: the function, table,
    /// memory or global of the two names, with the signature or the type
    /// of the request. The answer is of the kind that was asked for; what
    /// it is, and whether there is one, is the resolver's choice.
    pub fn ask_resolver<R: Resolver>(
        request: Request,
        resolver: &mut R,
    ) -> (r: Result<Imported, ResolverError>)
        ensures
            r matches Ok(x) ==> x@.space() == request@.asked.space(),
    {
        match request.asked {
            Asked::Function(func_type) => {
                match resolver.resolve_function(request.mod_name, request.name, func_type) {
                    Ok(function) => Ok(Imported::Function(function)),
                    Err(e) => Err(e),
                }
            },
            Asked::Table(table_type) => {
                match resolver.resolve_table(request.mod_name, request.name, &table_type) {
                    Ok(table) => Ok(Imported::Table(table)),
                    Err(e) => Err(e),
                }
            },
            Asked::Memory(mem_type) => {
                match resolver.resolve_memory(request.mod_name, request.name, &mem_type) {
                    Ok(memory) => Ok(Imported::Memory(memory)),
                    Err(e) => Err(e),
                }
            },
            Asked::Global(global_type) => {
                match resolver.resolve_global(request.mod_name, request.name, &global_type) {
                    Ok(global) => Ok(Imported::Global(global)),
                    Err(e) => Err(e),
                }
            },
        }
    }

    /// Takes the resolver's answer for an import: the entity goes behind
    /// those of its kind, and an error of the resolver is passed on and
    /// leaves the store as it is.
    pub fn import_outcome(
        &mut self,
        answer: Result<Imported, ResolverError>,
    ) -> (r: Result<(), Error>)
        ensures
            answer matches Ok(x) ==> r is Ok && final(self)@ == old(self)@.with_import(x@),
            answer matches Err(e) ==> r == Err::<(), Error>(Error::Resolver(e)) && final(self)@
                == old(self)@,
    {
        match answer {
            Ok(Imported::Function(function)) => {
                let ghost prev = self.functions.deep_view();
                let ghost v = function@;
                self.functions.push(function);
                assert(self.functions.deep_view() =~= prev.push(v));
                Ok(())
            },
            Ok(Imported::Table(table)) => {
                let ghost prev = self.tables.deep_view();
                let ghost v = table@;
                self.tables.push(table);
                assert(self.tables.deep_view() =~= prev.push(v));
                Ok(())
            },
            Ok(Imported::Memory(memory)) => {
                let ghost prev = self.memories.deep_view();
                let ghost v = memory@;
                self.memories.push(memory);
                assert(self.memories.deep_view() =~= prev.push(v));
                Ok(())
            },
            Ok(Imported::Global(global)) => {
                self.globals.push(global);
                Ok(())
            },
            Err(e) => Err(Error::Resolver(e)),
        }
    }

    /// Resolves the imports, in their order: each is checked, asked of
    /// the resolver, and its answer added to the store. The first import
    /// that names a signature that does not exist, or that the resolver
    /// fails on, ends the resolving; the answers before it stay in the
    /// store.
    pub fn resolve_imports<R: Resolver>(
        &mut self,
        imports: &Vec<Import>,
        types: &Vec<FuncType>,
        resolver: &mut R,
    ) -> (r: Result<(), Error>)
        ensures
            exists|answers: Seq<ImportedView>| #[trigger]
                import_answers(r, imports.deep_view(), types@.len(), answers) && final(self)@
                    == old(self)@.with_imports(answers),
            r is Ok ==> final(self)@.holds_imports(old(self)@, imports.deep_view()),
            imports@.len() == 0 ==> r is Ok && final(self)@ == old(self)@,
            imports@.len() == 0 || names_no_type(imports.deep_view()[0], types@.len())
                ==> *final(resolver) == *old(resolver),
    {
        let ghost all = imports.deep_view();
        let ghost before = self@;
        let ghost mut answers: Seq<ImportedView> = Seq::empty();
        let mut j: usize = 0;
        proof {
            lemma_imports_held(before, answers, all, 0);
        }
        while j < imports.len()
            invariant
                j <= imports@.len(),
                all == imports.deep_view(),
                before == old(self)@,
                j == 0 ==> *resolver == *old(resolver),
                j > 0 ==> !names_no_type(all[0], types@.len()),
                answers.len() == j,
                self@ == before.with_imports(answers),
                forall|i: int|
                    0 <= i < j ==> (#[trigger] answers[i]).space() == import_space(all[i].desc)
                        && !names_no_type(all[i], types@.len()),
            decreases imports@.len() - j,
        {
            let import = &imports[j];
            let request = match Self::import_request(import, types) {
                Ok(request) => request,
                Err(e) => {
                    assert(import_answers(Err::<(), Error>(e), all, types@.len(), answers));
                    return Err(e);
                },
            };
            let answer = Self::ask_resolver(request, resolver);
            let ghost answered = answer;
            match self.import_outcome(answer) {
                Ok(()) => {},
                Err(e) => {
                    assert(import_answers(Err::<(), Error>(e), all, types@.len(), answers));
                    return Err(e);
                },
            }
            proof {
                let x = answered->Ok_0@;
                let longer = answers.push(x);
                assert(longer.drop_last() =~= answers);
                assert(longer.last() == x);
                answers = longer;
            }
            j += 1;
        }
        proof {
            assert(import_answers(Ok::<(), Error>(()), all, types@.len(), answers));
            lemma_imports_held(before, answers, all, answers.len());
        }
        Ok(())
    }

    /// Adds what the module defines: functions, tables, memories, globals.
    fn add_entities(&mut self, module: &RawModule) -> (r: Result<(), Error>)
        requires
            all_addressable(module@.mems),
        ensures
            stepped(r, final(self)@, old(self)@.with_entities(module@)),
    {
        assert(module.typeidx.deep_view() =~= module.typeidx@);
        assert(module.tables.deep_view() =~= module.tables@);
        assert(module.mems.deep_view() =~= module.mems@);
        self.add_functions(&module.typeidx, &module.funcs, &module.types)?;
        self.add_tables(&module.tables)?;
        self.add_memories(&module.mems)?;
        self.add_globals(&module.globals)
    }

    /// Collects the exports, registers the signatures and checks the
    /// limits.
    fn add_interface(
        &mut self,
        exports: &Vec<Export>,
        types: Vec<FuncType>,
    ) -> (r: Result<(), Error>)
        ensures
            stepped(
                r,
                final(self)@,
                match old(self)@.with_exports(exports.deep_view()) {
                    Err(e) => Err(e),
                    Ok(m) => m.with_func_types(types.deep_view()).validated(),
                },
            ),
    {
        self.collect_exports(exports)?;
        self.add_func_types(types)?;
        self.pre_execute_validate()
    }

    /// Writes the element segments, then the data segments.
    fn initialize_segments(
        &mut self,
        module: &RawModule,
        imported_globals: usize,
    ) -> (r: Result<(), Error>)
        requires
            imported_globals <= old(self)@.globals.len(),
        ensures
            stepped(
                r,
                final(self)@,
                old(self)@.with_segments(
                    module@,
                    old(self)@.globals.take(imported_globals as int),
                ),
            ),
    {
        let ghost visible = self@.globals.take(imported_globals as int);
        self.initialize_table_elements(&module.elem, imported_globals)?;
        proof {
            lemma_elements_frame(old(self)@, module@.elem, visible, 0);
        }
        self.initialize_memory(&module.data, imported_globals)
    }

    /// Runs the pipeline on a store that holds the imports: adds what the
    /// module defines, collects the exports, registers the signatures,
    /// checks the limits, and writes the element and data segments.
    pub fn instantiate_definitions(self, module: RawModule) -> (r: Result<Module, Error>)
        requires
            all_addressable(module@.mems),
        ensures
            result_view(r) == self@.instantiate(module@),
    {
        let mut store = self;
        let imported_globals = store.globals.len();
        let mut module = module;
        let ghost raw = module@;
        store.add_entities(&module)?;
        let mut types: Vec<FuncType> = Vec::new();
        std::mem::swap(&mut types, &mut module.types);
        let ghost held = store@;
        store.add_interface(&module.exports, types)?;
        proof {
            lemma_entities_frame(self@, raw);
            lemma_exports_frame(held, raw.exports, 0);
            assert(store@.globals.take(imported_globals as int) =~= self@.globals);
            assert(module@.elem == raw.elem);
            assert(module@.data == raw.data);
        }
        store.initialize_segments(&module, imported_globals)?;
        Ok(store)
    }

    /// Builds the store of a module up to, and without, the call of its
    /// start function: resolves the imports, then runs the pipeline.
    pub fn instantiate<R: Resolver>(
        module: RawModule,
        resolver: &mut R,
    ) -> (r: Result<Module, Error>)
        requires
            all_addressable(module@.mems),
        ensures
            instantiated(result_view(r), module@),
            r matches Ok(m) ==> well_instantiated(m@, module@),
            too_many_entities(module@) ==> r is Err,
            module@.imports.len() == 0 ==> result_view(r) == ModuleView::empty().instantiate(
                module@,
            ) && *final(resolver) == *old(resolver),
            module@.imports.len() > 0 && names_no_type(module@.imports[0], module@.types.len())
                ==> *final(resolver) == *old(resolver),
    {
        let mut store = Self::new();
        let step = store.resolve_imports(&module.imports, &module.types, resolver);
        let ghost answers = choose|answers: Seq<ImportedView>| #[trigger]
            import_answers(step, module@.imports, module.types@.len(), answers) && store@
                == ModuleView::empty().with_imports(answers);
        assert(import_answers(step, module@.imports, module@.types.len(), answers));
        match step {
            Err(e) => Err(e),
            Ok(()) => {
                let ghost held = store@;
                let r = store.instantiate_definitions(module);
                proof {
                    law_single_table_and_memory(held, module@);
                    if r is Ok {
                        law_well_instantiated(held, module@);
                    }
                }
                r
            },
        }
    }

    /// What is to be done about the start function: nothing where the
    /// module names none, one call where it names a function of the
    /// store.
    pub fn start_action(&self, start: Option<usize>) -> (r: Result<StartAction, Error>)
        ensures
            start is None ==> r == Ok::<StartAction, Error>(StartAction::Done),
            start matches Some(s) ==> (if s < self@.functions.len() {
                r == Ok::<StartAction, Error>(StartAction::Invoke(s))
            } else {
                r == Err::<StartAction, Error>(Error::InvalidIndex(IndexSpace::Start))
            }),
    {
        match start {
            None => Ok(StartAction::Done),
            Some(s) => {
                if s >= self.functions.len() {
                    Err(Error::InvalidIndex(IndexSpace::Start))
                } else {
                    Ok(StartAction::Invoke(s))
                }
            },
        }
    }

    /// What instantiation returns once the start function has run: the
    /// store if the call returned, and the trap if it trapped.
    pub fn conclude_start(self, outcome: Result<(), Trap>) -> (r: Result<Module, Error>)
        ensures
            outcome is Ok ==> r == Ok::<Module, Error>(self),
            outcome matches Err(t) ==> r == Err::<Module, Error>(Error::Trap(t)),
    {
        match outcome {
            Ok(()) => Ok(self),
            Err(t) => Err(Error::Trap(t)),
        }
    }

    /// Calls the start function, if the module names one, on a fresh
    /// stack.
    pub fn run_start<I: Interpreter>(
        self,
        start: Option<usize>,
        interpreter: &mut I,
    ) -> (r: Result<Module, Error>)
        ensures
            start is None ==> r == Ok::<Module, Error>(self),
            start is None ==> *final(interpreter) == *old(interpreter),
            start matches Some(s) && s >= self@.functions.len() ==> r == Err::<Module, Error>(
                Error::InvalidIndex(IndexSpace::Start),
            ) && *final(interpreter) == *old(interpreter),
            start matches Some(s) && s < self@.functions.len() ==> r is Ok || r matches Err(
                Error::Trap(_),
            ),
    {
        match self.start_action(start) {
            Err(e) => Err(e),
            Ok(StartAction::Done) => Ok(self),
            Ok(StartAction::Invoke(function)) => {
                let mut store = self;
                let mut stack = Stack::new();
                let outcome = interpreter.call(&mut store, function, &mut stack);
                store.conclude_start(outcome)
            },
        }
    }

    /// Instantiates a module: resolves its imports, builds its store,
    /// writes its segments, and calls its start function if it has one.
    pub fn resolve_raw_module<R: Resolver, I: Interpreter>(
        module: RawModule,
        resolver: &mut R,
        interpreter: &mut I,
    ) -> (r: Result<Module, Error>)
        requires
            all_addressable(module@.mems),
        ensures
            resolved(result_view(r), module@),
            asks_no_resolver(module@) ==> *final(resolver) == *old(resolver),
            calls_no_function(module@) ==> *final(interpreter) == *old(interpreter),
    {
        let start = module.start;
        match Self::instantiate(module, resolver) {
            Err(e) => Err(e),
            Ok(store) => store.run_start(start, interpreter),
        }
    }

    /// Decodes a binary module and instantiates it. Where the bytes do
    /// not decode, or the module defines a memory that this machine
    /// cannot address, neither the resolver nor the interpreter is called.
    pub fn load_module<R: Resolver, I: Interpreter>(
        bytes: &[u8],
        resolver: &mut R,
        interpreter: &mut I,
    ) -> (r: Result<Module, Error>)
        ensures
            !has_header(bytes@) ==> r matches Err(Error::MalformedBinary(_)),
            spec_read(bytes@) matches Err(e) ==> r matches Err(x) && x == e,
            spec_read(bytes@) matches Ok(m) ==> (if all_addressable(m.mems) {
                resolved(result_view(r), m)
            } else {
                r matches Err(x) && x == Error::InstantiationLimit(Limit::MemorySize)
            }),
            loads_without_resolver(bytes@) ==> *final(resolver) == *old(resolver),
            loads_without_call(bytes@) ==> *final(interpreter) == *old(interpreter),
    {
        match RawModule::read(bytes) {
            Err(e) => Err(e),
            Ok(module) => {
                if !module.memories_addressable() {
                    return Err(Error::InstantiationLimit(Limit::MemorySize));
                }
                Self::resolve_raw_module(module, resolver, interpreter)
            },
        }
    }

    /// The global at `idx`.
    pub fn global_idx(&self, idx: usize) -> (r: Result<&Global, Error>)
        ensures
            idx < self@.globals.len() ==> r == Ok::<&Global, Error>(&self@.globals[idx as int]),
            idx >= self@.globals.len() ==> r == Err::<&Global, Error>(
                Error::InvalidIndex(IndexSpace::Global),
            ),
    {
        if idx < self.globals.len() {
            Ok(&self.globals[idx])
        } else {
            Err(Error::InvalidIndex(IndexSpace::Global))
        }
    }

    /// The signature at `idx`.
    pub fn func_type_idx(&self, idx: usize) -> (r: Result<&FuncType, Error>)
        ensures
            idx < self@.func_types.len() ==> (r matches Ok(t) && t@ == self@.func_types[idx as int]),
            idx >= self@.func_types.len() ==> (r matches Err(e) && e == Error::InvalidIndex(
                IndexSpace::Type,
            )),
    {
        if idx < self.func_types.len() {
            Ok(&self.func_types[idx])
        } else {
            Err(Error::InvalidIndex(IndexSpace::Type))
        }
    }

    /// The table at `idx`.
    pub fn table_idx(&self, idx: usize) -> (r: Result<&Table, Error>)
        ensures
            idx < self@.tables.len() ==> (r matches Ok(t) && t@ == self@.tables[idx as int]),
            idx >= self@.tables.len() ==> (r matches Err(e) && e == Error::InvalidIndex(
                IndexSpace::Table,
            )),
    {
        if idx < self.tables.len() {
            Ok(&self.tables[idx])
        } else {
            Err(Error::InvalidIndex(IndexSpace::Table))
        }
    }

    /// The callable at `idx`.
    pub fn callable_idx(&self, idx: usize) -> (r: Result<&Callable, Error>)
        ensures
            idx < self@.functions.len() ==> (r matches Ok(c) && c@ == self@.functions[idx as int]),
            idx >= self@.functions.len() ==> (r matches Err(e) && e == Error::InvalidIndex(
                IndexSpace::Function,
            )),
    {
        if idx < self.functions.len() {
            Ok(&self.functions[idx])
        } else {
            Err(Error::InvalidIndex(IndexSpace::Function))
        }
    }

    /// The memory at `idx`.
    pub fn mem_idx(&self, idx: usize) -> (r: Result<&Memory, Error>)
        ensures
            idx < self@.memories.len() ==> (r matches Ok(m) && m@ == self@.memories[idx as int]),
            idx >= self@.memories.len() ==> (r matches Err(e) && e == Error::InvalidIndex(
                IndexSpace::Memory,
            )),
    {
        if idx < self.memories.len() {
            Ok(&self.memories[idx])
        } else {
            Err(Error::InvalidIndex(IndexSpace::Memory))
        }
    }

    /// The global at `idx`, to be written.
    pub fn global_idx_mut(&mut self, idx: usize) -> (r: Result<&mut Global, Error>)
        ensures
            idx >= old(self)@.globals.len() ==> (r matches Err(e) && e == Error::InvalidIndex(
                IndexSpace::Global,
            )) && *final(self) == *old(self),
            idx < old(self)@.globals.len() ==> (r matches Ok(g) && *g == old(self)@.globals[idx as int]
                && final(self)@ == (ModuleView {
                globals: old(self)@.globals.update(idx as int, *final(g)),
                ..old(self)@
            })),
    {
        if idx < self.globals.len() {
            Ok(&mut self.globals[idx])
        } else {
            Err(Error::InvalidIndex(IndexSpace::Global))
        }
    }

    /// The memory at `idx`, to be written.
    pub fn mem_idx_mut(&mut self, idx: usize) -> (r: Result<&mut Memory, Error>)
        ensures
            idx >= old(self)@.memories.len() ==> (r matches Err(e) && e == Error::InvalidIndex(
                IndexSpace::Memory,
            )) && *final(self) == *old(self),
            idx < old(self)@.memories.len() ==> (r matches Ok(m) && m@ == old(self)@.memories[idx as int]
                && final(self)@ == (ModuleView {
                memories: old(self)@.memories.update(idx as int, final(m)@),
                ..old(self)@
            })),
    {
        if idx < self.memories.len() {
            Ok(&mut self.memories[idx])
        } else {
            Err(Error::InvalidIndex(IndexSpace::Memory))
        }
    }
}

/// A store with `n` answers added holds, in each index space, what it
/// held before and behind it as many entities as the first `n` imports
/// ask for in that space.
pub proof fn lemma_imports_held(
    before: ModuleView,
    answers: Seq<ImportedView>,
    imports: Seq<ImportView>,
    n: nat,
)
    requires
        answers.len() == n <= imports.len(),
        forall|i: int|
            0 <= i < n ==> (#[trigger] answers[i]).space() == import_space(imports[i].desc),
    ensures
        ({
            let after = before.with_imports(answers);
            &&& after.functions.len() == before.functions.len() + imports_of(
                imports,
                IndexSpace::Function,
                n,
            )
            &&& after.functions.take(before.functions.len() as int) == before.functions
            &&& after.tables.len() == before.tables.len() + imports_of(
                imports,
                IndexSpace::Table,
                n,
            )
            &&& after.tables.take(before.tables.len() as int) == before.tables
            &&& after.memories.len() == before.memories.len() + imports_of(
                imports,
                IndexSpace::Memory,
                n,
            )
            &&& after.memories.take(before.memories.len() as int) == before.memories
            &&& after.globals.len() == before.globals.len() + imports_of(
                imports,
                IndexSpace::Global,
                n,
            )
            &&& after.globals.take(before.globals.len() as int) == before.globals
            &&& after.exports == before.exports
            &&& after.func_types == before.func_types
        }),
    decreases n,
{
    if n == 0 {
        assert(before.functions.take(before.functions.len() as int) =~= before.functions);
        assert(before.tables.take(before.tables.len() as int) =~= before.tables);
        assert(before.memories.take(before.memories.len() as int) =~= before.memories);
        assert(before.globals.take(before.globals.len() as int) =~= before.globals);
    } else {
        let shorter = answers.drop_last();
        lemma_imports_held(before, shorter, imports, (n - 1) as nat);
        let mid = before.with_imports(shorter);
        let after = before.with_imports(answers);
        assert(answers.last() == answers[n - 1]);
        assert(after == mid.with_import(answers.last()));
        assert(after.functions.take(before.functions.len() as int) =~= mid.functions.take(
            before.functions.len() as int,
        ));
        assert(after.tables.take(before.tables.len() as int) =~= mid.tables.take(
            before.tables.len() as int,
        ));
        assert(after.memories.take(before.memories.len() as int) =~= mid.memories.take(
            before.memories.len() as int,
        ));
        assert(after.globals.take(before.globals.len() as int) =~= mid.globals.take(
            before.globals.len() as int,
        ));
    }
}

/// Adding the module's own globals leaves the globals before them, and
/// everything else, as it was.
pub proof fn lemma_globals_frame(m: ModuleView, defs: Seq<GlobalDefView>, visible: Seq<Global>, i: int)
    ensures
        m.with_globals_from(defs, visible, i) matches Ok(after) ==> after.globals.len()
            == m.globals.len() + (if 0 <= i < defs.len() {
            defs.len() - i
        } else {
            0
        }) && after.globals.take(m.globals.len() as int) == m.globals
            && after.functions == m.functions && after.tables == m.tables && after.memories
            == m.memories && after.exports == m.exports && after.func_types == m.func_types
            && forall|j: int|
            0 <= i <= j < defs.len() ==> new_global(defs[j], visible) == Ok::<Global, Error>(
                #[trigger] after.globals[m.globals.len() + j - i],
            ),
    decreases defs.len() - i,
{
    if 0 <= i < defs.len() {
        match new_global(defs[i], visible) {
            Err(e) => {},
            Ok(g) => {
                let next = ModuleView { globals: m.globals.push(g), ..m };
                lemma_globals_frame(next, defs, visible, i + 1);
                let after = m.with_globals_from(defs, visible, i);
                if after is Ok {
                    let a = after->Ok_0;
                    assert(a.globals.take(m.globals.len() as int) =~= m.globals);
                    assert(a.globals.take(next.globals.len() as int) == next.globals);
                    assert(a.globals[m.globals.len() as int] == next.globals[m.globals.len() as int]);
                    assert forall|j: int| i <= j < defs.len() implies new_global(
                        defs[j],
                        visible,
                    ) == Ok::<Global, Error>(#[trigger] a.globals[m.globals.len() + j - i]) by {
                        if j > i {
                            assert(a.globals[next.globals.len() + j - (i + 1)] == a.globals[m.globals.len()
                                + j - i]);
                        }
                    }
                }
            },
        }
    } else {
        assert(m.globals.take(m.globals.len() as int) =~= m.globals);
    }
}

/// Adding what a module defines leaves the entities before them, the
/// export map and the signatures as they were.
pub proof fn lemma_entities_frame(m: ModuleView, raw: RawModuleView)
    ensures
        m.with_entities(raw) matches Ok(after) ==> after.globals.len() == m.globals.len()
            + raw.globals.len() && after.globals.take(m.globals.len() as int) == m.globals && after.functions.len()
            == m.functions.len() + shorter(raw.typeidx.len(), raw.funcs.len())
            && after.functions.take(m.functions.len() as int) == m.functions && after.tables.len()
            == m.tables.len() + raw.tables.len() && after.tables.take(m.tables.len() as int)
            == m.tables && after.memories.len() == m.memories.len() + raw.mems.len()
            && after.memories.take(m.memories.len() as int) == m.memories && after.exports
            == m.exports && after.func_types == m.func_types && (forall|j: int|
            0 <= j < raw.globals.len() ==> new_global(raw.globals[j], m.globals) == Ok::<
                Global,
                Error,
            >(#[trigger] after.globals[m.globals.len() + j])) && (forall|j: int|
            0 <= j < raw.tables.len() ==> #[trigger] after.tables[m.tables.len() + j]
                == TableView::fresh(raw.tables[j])) && (forall|j: int|
            0 <= j < raw.mems.len() ==> #[trigger] after.memories[m.memories.len() + j]
                == MemoryView::fresh(raw.mems[j])),
{
    match m.with_functions(raw.typeidx, raw.funcs, raw.types) {
        Err(e) => {},
        Ok(m1) => {
            let m2 = m1.with_tables(raw.tables).with_memories(raw.mems);
            lemma_globals_frame(m2, raw.globals, m2.globals, 0);
            if m.with_entities(raw) is Ok {
                let after = m.with_entities(raw)->Ok_0;
                assert forall|j: int| 0 <= j < raw.globals.len() implies new_global(
                    raw.globals[j],
                    m.globals,
                ) == Ok::<Global, Error>(#[trigger] after.globals[m.globals.len() + j]) by {
                    assert(after.globals[m2.globals.len() + j - 0] == after.globals[m.globals.len()
                        + j]);
                }
            }
            assert(m1.functions.take(m.functions.len() as int) =~= m.functions);
            assert(m2.tables.take(m.tables.len() as int) =~= m.tables);
            assert(m2.memories.take(m.memories.len() as int) =~= m.memories);
        },
    }
}

/// Collecting exports changes the export map only.
pub proof fn lemma_exports_frame(m: ModuleView, exports: Seq<ExportView>, i: int)
    ensures
        m.with_exports_from(exports, i) matches Ok(after) ==> after.functions == m.functions
            && after.tables == m.tables && after.memories == m.memories && after.globals
            == m.globals && after.func_types == m.func_types,
    decreases exports.len() - i,
{
    if 0 <= i < exports.len() {
        match m.export_value(exports[i].desc) {
            Err(e) => {},
            Ok(v) => {
                let next = ModuleView { exports: m.exports.insert(exports[i].name, v), ..m };
                lemma_exports_frame(next, exports, i + 1);
            },
        }
    }
}

/// Writing element segments changes the entries of tables only.
pub proof fn lemma_elements_frame(m: ModuleView, elems: Seq<ElementView>, visible: Seq<Global>, i: int)
    ensures
        m.with_elements_from(elems, visible, i) matches Ok(after) ==> after.functions
            == m.functions && after.tables.len() == m.tables.len() && after.memories == m.memories
            && after.globals == m.globals && after.exports == m.exports && after.func_types
            == m.func_types && forall|k: int|
            0 <= k < m.tables.len() ==> (#[trigger] after.tables[k]).table_type
                == m.tables[k].table_type && after.tables[k].entries.len()
                == m.tables[k].entries.len(),
    decreases elems.len() - i,
{
    if 0 <= i < elems.len() {
        match m.with_element(elems[i], visible) {
            Err(e) => {},
            Ok(next) => {
                lemma_elements_frame(next, elems, visible, i + 1);
            },
        }
    }
}

/// Copying data segments changes the bytes of memories only.
pub proof fn lemma_data_frame(m: ModuleView, data: Seq<DataView>, visible: Seq<Global>, i: int)
    ensures
        m.with_data_from(data, visible, i) matches Ok(after) ==> after.functions == m.functions
            && after.tables == m.tables && after.memories.len() == m.memories.len()
            && after.globals == m.globals && after.exports == m.exports && after.func_types
            == m.func_types && forall|k: int|
            0 <= k < m.memories.len() ==> (#[trigger] after.memories[k]).mem_type
                == m.memories[k].mem_type && after.memories[k].data.len()
                == m.memories[k].data.len(),
    decreases data.len() - i,
{
    if 0 <= i < data.len() {
        match m.with_data_segment(data[i], visible) {
            Err(e) => {},
            Ok(next) => {
                lemma_data_frame(next, data, visible, i + 1);
            },
        }
    }
}

} // verus!
