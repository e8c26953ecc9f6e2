//! The static description of a module: what the sections of a binary hold.

use vstd::prelude::*;
use vstd::slice::slice_to_vec;

verus! {

/// The four numeric value kinds.
#[derive(Clone, Copy, Debug, PartialEq, Eq)]
pub enum ValType {
    I32,
    I64,
    F32,
    F64,
}

/// A function signature.
#[derive(Debug, PartialEq, Eq)]
pub struct FuncType {
    pub params: Vec<ValType>,
    pub results: Vec<ValType>,
}

/// The mathematical value of a `FuncType`.
#[verifier::ext_equal]
pub struct FuncTypeView {
    pub params: Seq<ValType>,
    pub results: Seq<ValType>,
}

impl View for FuncType {
    type V = FuncTypeView;

    open spec fn view(&self) -> FuncTypeView {
        FuncTypeView { params: self.params@, results: self.results@ }
    }
}

impl DeepView for FuncType {
    type V = FuncTypeView;

    open spec fn deep_view(&self) -> FuncTypeView {
        self@
    }
}

/// A copy of a vector of value kinds.
pub fn copy_val_types(v: &Vec<ValType>) -> (r: Vec<ValType>)
    ensures
        r@ == v@,
{
    slice_to_vec(v.as_slice())
}

/// A copy of a vector of bytes.
pub fn copy_bytes(v: &Vec<u8>) -> (r: Vec<u8>)
    ensures
        r@ == v@,
{
    slice_to_vec(v.as_slice())
}

impl Clone for FuncType {
    fn clone(&self) -> (r: Self)
        ensures
            r@ == self@,
    {
        FuncType { params: copy_val_types(&self.params), results: copy_val_types(&self.results) }
    }
}

impl DeepView for ValType {
    type V = ValType;

    open spec fn deep_view(&self) -> ValType {
        *self
    }
}

/// A table type: the element kind is always funcref.
#[derive(Clone, Copy, Debug, PartialEq, Eq)]
pub struct TableType {
    pub min: u32,
    pub max: Option<u32>,
}

impl DeepView for TableType {
    type V = TableType;

    open spec fn deep_view(&self) -> TableType {
        *self
    }
}

/// A memory type, in pages of 65 536 bytes.
#[derive(Clone, Copy, Debug, PartialEq, Eq)]
pub struct MemType {
    pub min: u32,
    pub max: Option<u32>,
}

impl DeepView for MemType {
    type V = MemType;

    open spec fn deep_view(&self) -> MemType {
        *self
    }
}

/// A global's value kind, and whether it may be written.
#[derive(Clone, Copy, Debug, PartialEq, Eq)]
pub struct GlobalType {
    pub val_type: ValType,
    pub mutable: bool,
}

impl DeepView for GlobalType {
    type V = GlobalType;

    open spec fn deep_view(&self) -> GlobalType {
        *self
    }
}

/// A run of `count` locals of one kind.
#[derive(Clone, Copy, Debug, PartialEq, Eq)]
pub struct Local {
    pub count: u32,
    pub val_type: ValType,
}

impl DeepView for Local {
    type V = Local;

    open spec fn deep_view(&self) -> Local {
        *self
    }
}

/// An instruction sequence, as the bytes that encode it.
#[derive(Debug, PartialEq, Eq)]
pub struct Expr {
    pub code: Vec<u8>,
}

impl View for Expr {
    type V = Seq<u8>;

    open spec fn view(&self) -> Seq<u8> {
        self.code@
    }
}

impl DeepView for Expr {
    type V = Seq<u8>;

    open spec fn deep_view(&self) -> Seq<u8> {
        self@
    }
}

impl Clone for Expr {
    fn clone(&self) -> (r: Self)
        ensures
            r@ == self@,
    {
        Expr { code: copy_bytes(&self.code) }
    }
}

/// The body of a locally defined function.
#[derive(Debug, PartialEq, Eq)]
pub struct Func {
    pub locals: Vec<Local>,
    pub body: Expr,
}

/// The mathematical value of a `Func`.
#[verifier::ext_equal]
pub struct FuncView {
    pub locals: Seq<Local>,
    pub body: Seq<u8>,
}

impl View for Func {
    type V = FuncView;

    open spec fn view(&self) -> FuncView {
        FuncView { locals: self.locals@, body: self.body@ }
    }
}

impl DeepView for Func {
    type V = FuncView;

    open spec fn deep_view(&self) -> FuncView {
        self@
    }
}

impl Clone for Func {
    fn clone(&self) -> (r: Self)
        ensures
            r@ == self@,
    {
        Func { locals: slice_to_vec(self.locals.as_slice()), body: self.body.clone() }
    }
}

/// A global definition: its type and the constant expression that gives
/// its first value.
#[derive(Debug, PartialEq, Eq)]
pub struct GlobalDef {
    pub global_type: GlobalType,
    pub init: Expr,
}

/// The mathematical value of a `GlobalDef`.
#[verifier::ext_equal]
pub struct GlobalDefView {
    pub global_type: GlobalType,
    pub init: Seq<u8>,
}

impl View for GlobalDef {
    type V = GlobalDefView;

    open spec fn view(&self) -> GlobalDefView {
        GlobalDefView { global_type: self.global_type, init: self.init@ }
    }
}

impl DeepView for GlobalDef {
    type V = GlobalDefView;

    open spec fn deep_view(&self) -> GlobalDefView {
        self@
    }
}

/// An element segment: function references for a table, from an offset on.
#[derive(Debug, PartialEq, Eq)]
pub struct Element {
    pub table_idx: usize,
    pub offset: Expr,
    pub func_indices: Vec<usize>,
}

/// The mathematical value of an `Element`.
#[verifier::ext_equal]
pub struct ElementView {
    pub table_idx: usize,
    pub offset: Seq<u8>,
    pub func_indices: Seq<usize>,
}

impl View for Element {
    type V = ElementView;

    open spec fn view(&self) -> ElementView {
        ElementView {
            table_idx: self.table_idx,
            offset: self.offset@,
            func_indices: self.func_indices@,
        }
    }
}

impl DeepView for Element {
    type V = ElementView;

    open spec fn deep_view(&self) -> ElementView {
        self@
    }
}

/// A data segment: bytes for a memory, from an offset on.
#[derive(Debug, PartialEq, Eq)]
pub struct Data {
    pub mem_idx: usize,
    pub offset: Expr,
    pub bytes: Vec<u8>,
}

/// The mathematical value of a `Data`.
#[verifier::ext_equal]
pub struct DataView {
    pub mem_idx: usize,
    pub offset: Seq<u8>,
    pub bytes: Seq<u8>,
}

impl View for Data {
    type V = DataView;

    open spec fn view(&self) -> DataView {
        DataView { mem_idx: self.mem_idx, offset: self.offset@, bytes: self.bytes@ }
    }
}

impl DeepView for Data {
    type V = DataView;

    open spec fn deep_view(&self) -> DataView {
        self@
    }
}

/// What an import asks the host for.
#[derive(Clone, Copy, Debug, PartialEq, Eq)]
pub enum ImportDesc {
    TypeIdx(usize),
    TableType(TableType),
    MemType(MemType),
    GlobalType(GlobalType),
}

/// An import: the module and the name to ask for, and what is expected.
#[derive(Debug, PartialEq, Eq)]
pub struct Import {
    pub mod_name: String,
    pub name: String,
    pub desc: ImportDesc,
}

/// The mathematical value of an `Import`.
#[verifier::ext_equal]
pub struct ImportView {
    pub mod_name: Seq<char>,
    pub name: Seq<char>,
    pub desc: ImportDesc,
}

impl View for Import {
    type V = ImportView;

    open spec fn view(&self) -> ImportView {
        ImportView { mod_name: self.mod_name@, name: self.name@, desc: self.desc }
    }
}

impl DeepView for Import {
    type V = ImportView;

    open spec fn deep_view(&self) -> ImportView {
        self@
    }
}

/// What an export publishes: an index into one of the four index spaces.
#[derive(Clone, Copy, Debug, PartialEq, Eq)]
pub enum ExportDesc {
    Func(usize),
    Table(usize),
    Mem(usize),
    Global(usize),
}

/// An export: a name and what it stands for.
#[derive(Debug, PartialEq, Eq)]
pub struct Export {
    pub name: String,
    pub desc: ExportDesc,
}

/// The mathematical value of an `Export`.
#[verifier::ext_equal]
pub struct ExportView {
    pub name: Seq<char>,
    pub desc: ExportDesc,
}

impl View for Export {
    type V = ExportView;

    open spec fn view(&self) -> ExportView {
        ExportView { name: self.name@, desc: self.desc }
    }
}

impl DeepView for Export {
    type V = ExportView;

    open spec fn deep_view(&self) -> ExportView {
        self@
    }
}

} // verus!
