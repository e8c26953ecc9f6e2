use wasm_core::entities::Callable;
use wasm_core::entities::Global;
use wasm_core::entities::HostCallable;
use wasm_core::entities::Memory;
use wasm_core::entities::Stack;
use wasm_core::entities::StackEntry;
use wasm_core::entities::Table;
use wasm_core::error::Error;
use wasm_core::error::IndexSpace;
use wasm_core::error::Limit;
use wasm_core::error::Malformed;
use wasm_core::error::ResolverError;
use wasm_core::error::Trap;
use wasm_core::host::Interpreter;
use wasm_core::host::Resolver;
use wasm_core::module::ExportValue;
use wasm_core::module::Asked;
use wasm_core::module::Imported;
use wasm_core::module::Request;
use wasm_core::module::Module;
use wasm_core::module::StartAction;
use wasm_core::raw_module::RawModule;
use wasm_core::types::Data;
use wasm_core::types::Element;
use wasm_core::types::Export;
use wasm_core::types::ExportDesc;
use wasm_core::types::Expr;
use wasm_core::types::Func;
use wasm_core::types::FuncType;
use wasm_core::types::GlobalDef;
use wasm_core::types::GlobalType;
use wasm_core::types::Import;
use wasm_core::types::ImportDesc;
use wasm_core::types::MemType;
use wasm_core::types::TableType;
use wasm_core::types::ValType;

/// A host that knows the names under "env" and records what it is asked.
struct Host {
    asked: Vec<String>,
}

impl Host {
    fn new() -> Self {
        Host { asked: Vec::new() }
    }
}

impl Resolver for Host {
    fn resolve_function(&mut self, mod_name: &str, name: &str, func_type: &FuncType) -> Result<Callable, ResolverError> {
        self.asked.push(format!("func {}.{}", mod_name, name));
        if mod_name != "env" {
            return Err(ResolverError::NotFound);
        }
        Ok(Callable::Host(HostCallable { func_type: func_type.clone(), id: name.len() as u64 }))
    }

    fn resolve_table(&mut self, mod_name: &str, name: &str, table_type: &TableType) -> Result<Table, ResolverError> {
        self.asked.push(format!("table {}.{}", mod_name, name));
        if mod_name != "env" {
            return Err(ResolverError::NotFound);
        }
        Ok(Table::new(*table_type))
    }

    fn resolve_memory(&mut self, mod_name: &str, name: &str, mem_type: &MemType) -> Result<Memory, ResolverError> {
        self.asked.push(format!("memory {}.{}", mod_name, name));
        if mod_name != "env" {
            return Err(ResolverError::NotFound);
        }
        Ok(Memory::new(*mem_type))
    }

    fn resolve_global(&mut self, mod_name: &str, name: &str, global_type: &GlobalType) -> Result<Global, ResolverError> {
        self.asked.push(format!("global {}.{}", mod_name, name));
        if mod_name != "env" {
            return Err(ResolverError::NotFound);
        }
        if name == "wrong" {
            return Err(ResolverError::TypeMismatch);
        }
        let value = match global_type.val_type {
            ValType::I32 => StackEntry::I32Entry(8),
            ValType::I64 => StackEntry::I64Entry(8),
            ValType::F32 => StackEntry::F32Entry(8),
            ValType::F64 => StackEntry::F64Entry(8),
        };
        Ok(Global::new(*global_type, value).unwrap())
    }
}

/// An interpreter of three instructions: `unreachable`, `local.get` and
/// `end`. It counts its calls.
struct Tiny {
    calls: Vec<usize>,
}

impl Tiny {
    fn new() -> Self {
        Tiny { calls: Vec::new() }
    }
}

impl Interpreter for Tiny {
    fn call(&mut self, store: &mut Module, function: usize, stack: &mut Stack) -> Result<(), Trap> {
        self.calls.push(function);
        let (params, code) = match store.callable_idx(function) {
            Ok(Callable::Wasm(w)) => (w.func_type.params.len(), w.func.body.code.clone()),
            Ok(Callable::Host(_)) => return Err(Trap::Host),
            Err(_) => return Err(Trap::IllegalInstruction),
        };
        let mut locals = Vec::new();
        for _ in 0..params {
            locals.push(stack.pop().ok_or(Trap::StackExhausted)?);
        }
        locals.reverse();
        let mut pc = 0;
        while pc < code.len() {
            match code[pc] {
                0x00 => return Err(Trap::Unreachable),
                0x0b => return Ok(()),
                0x20 => {
                    stack.push(locals[code[pc + 1] as usize]);
                    pc += 2;
                }
                _ => return Err(Trap::IllegalInstruction),
            }
        }
        Ok(())
    }
}

fn expr(code: &[u8]) -> Expr {
    Expr { code: code.to_vec() }
}

fn i32_const(c: u8) -> Expr {
    expr(&[0x41, c, 0x0b])
}

fn identity_type() -> FuncType {
    FuncType { params: vec![ValType::I32], results: vec![ValType::I32] }
}

fn identity_body() -> Func {
    Func { locals: vec![], body: expr(&[0x20, 0x00, 0x0b]) }
}

fn trapping_body() -> Func {
    Func { locals: vec![], body: expr(&[0x00, 0x0b]) }
}

fn export(name: &str, desc: ExportDesc) -> Export {
    Export { name: name.to_string(), desc }
}

fn import(mod_name: &str, name: &str, desc: ImportDesc) -> Import {
    Import { mod_name: mod_name.to_string(), name: name.to_string(), desc }
}

fn empty() -> RawModule {
    RawModule::new(vec![], vec![], vec![], vec![], vec![], vec![], vec![], vec![], None, vec![], vec![])
}

fn resolve(module: RawModule) -> Result<Module, Error> {
    Module::resolve_raw_module(module, &mut Host::new(), &mut Tiny::new())
}

fn failure(module: RawModule) -> Error {
    match resolve(module) {
        Err(e) => e,
        Ok(_) => panic!("expected the instantiation to fail"),
    }
}

#[test]
fn empty_valid_module() {
    let magic = [0x00u8, 0x61, 0x73, 0x6d, 0x01, 0x00, 0x00, 0x00];
    let mut host = Host::new();
    let mut tiny = Tiny::new();
    let module = Module::load_module(&magic, &mut host, &mut tiny).ok().unwrap();
    assert!(module.functions.is_empty());
    assert!(module.tables.is_empty());
    assert!(module.memories.is_empty());
    assert!(module.globals.is_empty());
    assert!(module.func_types.is_empty());
    assert!(module.exports.is_empty());
    assert_eq!(module.exports.len(), 0);
    assert!(host.asked.is_empty());
    assert!(tiny.calls.is_empty());
}

#[test]
fn header_gate_calls_no_resolver() {
    // a module that would import, behind a header of the wrong version
    let mut bytes = vec![0x00u8, 0x61, 0x73, 0x6d, 0x02, 0x00, 0x00, 0x00];
    bytes.extend([0x02, 0x0a, 0x01, 0x03, b'e', b'n', b'v', 0x01, b'g', 0x03, 0x7f, 0x00]);
    let mut host = Host::new();
    let mut tiny = Tiny::new();
    let r = Module::load_module(&bytes, &mut host, &mut tiny);
    assert_eq!(r.err(), Some(Error::MalformedBinary(Malformed::InvalidHeader)));
    assert!(host.asked.is_empty());
    assert!(tiny.calls.is_empty());
    // with the right header the resolver is asked
    bytes[4] = 0x01;
    let module = Module::load_module(&bytes, &mut host, &mut tiny).ok().unwrap();
    assert_eq!(host.asked, vec!["global env.g".to_string()]);
    assert_eq!(module.globals.len(), 1);
}

#[test]
fn identity_export() {
    let mut raw = empty();
    raw.types = vec![identity_type()];
    raw.typeidx = vec![0];
    raw.funcs = vec![identity_body()];
    raw.exports = vec![export("id", ExportDesc::Func(0))];
    let mut tiny = Tiny::new();
    let mut module = Module::resolve_raw_module(raw, &mut Host::new(), &mut tiny).ok().unwrap();
    let handle = match module.exports.get("id") {
        Some(ExportValue::Function(i)) => *i,
        other => panic!("unexpected export {:?}", other),
    };
    assert_eq!(handle, 0);
    let mut stack = Stack::new();
    stack.push(StackEntry::I32Entry(42));
    assert_eq!(tiny.call(&mut module, handle, &mut stack), Ok(()));
    assert_eq!(stack.entries, vec![StackEntry::I32Entry(42)]);
    assert_eq!(module.func_type_idx(0).unwrap(), &identity_type());
    assert_eq!(module.callable_idx(0).unwrap().func_type(), &identity_type());
}

#[test]
fn data_initializer() {
    let mut raw = empty();
    raw.mems = vec![MemType { min: 1, max: None }];
    raw.data = vec![Data { mem_idx: 0, offset: i32_const(16), bytes: vec![0xde, 0xad, 0xbe, 0xef] }];
    let module = resolve(raw).ok().unwrap();
    let memory = module.mem_idx(0).unwrap();
    assert_eq!(memory.data.len(), 65536);
    assert_eq!(memory.read(16, 4), Ok(vec![0xde, 0xad, 0xbe, 0xef]));
    assert!(memory.data[..16].iter().all(|b| *b == 0));
    assert!(memory.data[20..].iter().all(|b| *b == 0));
    assert_eq!(memory.size_pages(), 1);
}

#[test]
fn element_initializer() {
    let mut raw = empty();
    raw.types = vec![identity_type(), FuncType { params: vec![], results: vec![] }];
    raw.typeidx = vec![0, 1];
    raw.funcs = vec![identity_body(), trapping_body()];
    raw.tables = vec![TableType { min: 4, max: None }];
    raw.elem = vec![Element { table_idx: 0, offset: i32_const(2), func_indices: vec![1, 0] }];
    let mut tiny = Tiny::new();
    let mut module = Module::resolve_raw_module(raw, &mut Host::new(), &mut tiny).ok().unwrap();
    let table = module.table_idx(0).unwrap();
    assert_eq!(table.size(), 4);
    assert_eq!(table.get(0), Ok(None));
    assert_eq!(table.get(1), Ok(None));
    assert_eq!(table.get(2), Ok(Some(1)));
    assert_eq!(table.get(3), Ok(Some(0)));
    assert_eq!(table.get(4), Err(Error::Trap(Trap::TableOutOfBounds)));
    // the entry at 2 calls function 1, which traps; the entry at 3 calls function 0
    let mut stack = Stack::new();
    assert_eq!(tiny.call(&mut module, 1, &mut stack), Err(Trap::Unreachable));
    stack.push(StackEntry::I32Entry(5));
    assert_eq!(tiny.call(&mut module, 0, &mut stack), Ok(()));
    assert_eq!(stack.entries, vec![StackEntry::I32Entry(5)]);
}

#[test]
fn bad_section_order() {
    let mut bytes = vec![0x00u8, 0x61, 0x73, 0x6d, 0x01, 0x00, 0x00, 0x00];
    bytes.extend([0x01, 0x06, 0x01, 0x60, 0x01, 0x7f, 0x01, 0x7f]);
    bytes.extend([0x05, 0x03, 0x01, 0x00, 0x01]);
    bytes.extend([0x02, 0x09, 0x01, 0x03, b'e', b'n', b'v', 0x01, b'f', 0x00, 0x00]);
    let mut host = Host::new();
    let r = Module::load_module(&bytes, &mut host, &mut Tiny::new());
    assert_eq!(r.err(), Some(Error::InvalidSectionOrder));
    assert!(host.asked.is_empty());
}

#[test]
fn start_trap() {
    let mut raw = empty();
    raw.types = vec![FuncType { params: vec![], results: vec![] }];
    raw.imports = vec![import("env", "g", ImportDesc::GlobalType(GlobalType { val_type: ValType::I32, mutable: false }))];
    raw.typeidx = vec![0];
    raw.funcs = vec![trapping_body()];
    raw.start = Some(0);
    let mut host = Host::new();
    let mut tiny = Tiny::new();
    let r = Module::resolve_raw_module(raw, &mut host, &mut tiny);
    assert_eq!(r.err(), Some(Error::Trap(Trap::Unreachable)));
    assert_eq!(host.asked, vec!["global env.g".to_string()]);
    assert_eq!(tiny.calls, vec![0]);
}

#[test]
fn start_function_runs_once() {
    let mut raw = empty();
    raw.types = vec![FuncType { params: vec![], results: vec![] }];
    raw.typeidx = vec![0, 0];
    raw.funcs = vec![trapping_body(), Func { locals: vec![], body: expr(&[0x0b]) }];
    raw.start = Some(1);
    let mut tiny = Tiny::new();
    let module = Module::resolve_raw_module(raw, &mut Host::new(), &mut tiny).ok().unwrap();
    assert_eq!(tiny.calls, vec![1]);
    assert_eq!(module.functions.len(), 2);
}

#[test]
fn start_function_must_exist() {
    let mut raw = empty();
    raw.start = Some(0);
    let mut tiny = Tiny::new();
    let r = Module::resolve_raw_module(raw, &mut Host::new(), &mut tiny);
    assert_eq!(r.err(), Some(Error::InvalidIndex(IndexSpace::Start)));
    assert!(tiny.calls.is_empty());
}

#[test]
fn start_action_and_conclusion() {
    let mut raw = empty();
    raw.types = vec![identity_type()];
    raw.typeidx = vec![0];
    raw.funcs = vec![identity_body()];
    let module = Module::instantiate(raw, &mut Host::new()).ok().unwrap();
    assert_eq!(module.start_action(None), Ok(StartAction::Done));
    assert_eq!(module.start_action(Some(0)), Ok(StartAction::Invoke(0)));
    assert_eq!(module.start_action(Some(1)), Err(Error::InvalidIndex(IndexSpace::Start)));
    let module = module.conclude_start(Ok(())).ok().unwrap();
    assert_eq!(module.functions.len(), 1);
    let r = module.conclude_start(Err(Trap::StackExhausted));
    assert_eq!(r.err(), Some(Error::Trap(Trap::StackExhausted)));
}

#[test]
fn imports_come_first() {
    let mut raw = empty();
    raw.types = vec![identity_type(), FuncType { params: vec![], results: vec![] }];
    raw.imports = vec![
        import("env", "ab", ImportDesc::TypeIdx(1)),
        import("env", "g", ImportDesc::GlobalType(GlobalType { val_type: ValType::I64, mutable: false })),
        import("env", "abc", ImportDesc::TypeIdx(0)),
        import("env", "t", ImportDesc::TableType(TableType { min: 3, max: None })),
    ];
    raw.typeidx = vec![0, 1];
    raw.funcs = vec![identity_body(), trapping_body()];
    raw.mems = vec![MemType { min: 0, max: Some(1) }];
    raw.globals = vec![GlobalDef {
        global_type: GlobalType { val_type: ValType::I64, mutable: true },
        init: expr(&[0x23, 0x00, 0x0b]),
    }];
    let mut host = Host::new();
    let module = Module::instantiate(raw, &mut host).ok().unwrap();
    assert_eq!(
        host.asked,
        vec!["func env.ab".to_string(), "global env.g".to_string(), "func env.abc".to_string(), "table env.t".to_string()]
    );
    assert_eq!(module.functions.len(), 4);
    assert_eq!(
        module.functions[0],
        Callable::Host(HostCallable { func_type: FuncType { params: vec![], results: vec![] }, id: 2 })
    );
    assert_eq!(module.functions[1], Callable::Host(HostCallable { func_type: identity_type(), id: 3 }));
    match &module.functions[2] {
        Callable::Wasm(w) => {
            assert_eq!(w.func_type, identity_type());
            assert_eq!(w.func, identity_body());
        }
        other => panic!("unexpected callable {:?}", other),
    }
    match &module.functions[3] {
        Callable::Wasm(w) => {
            assert_eq!(w.func_type, FuncType { params: vec![], results: vec![] });
            assert_eq!(w.func, trapping_body());
        }
        other => panic!("unexpected callable {:?}", other),
    }
    assert_eq!(module.tables.len(), 1);
    assert_eq!(module.tables[0].entries, vec![None, None, None]);
    assert_eq!(module.memories.len(), 1);
    assert_eq!(module.memories[0].data.len(), 0);
    assert_eq!(module.globals.len(), 2);
    assert_eq!(module.globals[0].value, StackEntry::I64Entry(8));
    assert!(!module.globals[0].global_type.mutable);
    // the module's own global was initialized from the imported one
    assert_eq!(module.globals[1].value, StackEntry::I64Entry(8));
    assert!(module.globals[1].global_type.mutable);
    assert_eq!(module.func_types.len(), 2);
}

#[test]
fn function_and_body_are_paired_by_position() {
    let mut raw = empty();
    raw.types = vec![identity_type()];
    raw.typeidx = vec![0, 0, 0];
    raw.funcs = vec![identity_body()];
    let module = resolve(raw).ok().unwrap();
    assert_eq!(module.functions.len(), 1);
}

#[test]
fn import_with_invalid_type_index() {
    let mut raw = empty();
    raw.imports = vec![import("env", "f", ImportDesc::TypeIdx(0))];
    let mut host = Host::new();
    let r = Module::instantiate(raw, &mut host);
    assert_eq!(r.err(), Some(Error::InvalidIndex(IndexSpace::Type)));
    assert!(host.asked.is_empty());
}

#[test]
fn resolver_errors_surface() {
    let mut raw = empty();
    raw.imports = vec![
        import("env", "m", ImportDesc::MemType(MemType { min: 0, max: None })),
        import("other", "g", ImportDesc::GlobalType(GlobalType { val_type: ValType::I32, mutable: false })),
        import("env", "never", ImportDesc::TableType(TableType { min: 0, max: None })),
    ];
    let mut host = Host::new();
    let r = Module::instantiate(raw, &mut host);
    assert_eq!(r.err(), Some(Error::Resolver(ResolverError::NotFound)));
    assert_eq!(host.asked, vec!["memory env.m".to_string(), "global other.g".to_string()]);
    let mut raw = empty();
    raw.imports = vec![import("env", "wrong", ImportDesc::GlobalType(GlobalType { val_type: ValType::I32, mutable: false }))];
    assert_eq!(failure(raw), Error::Resolver(ResolverError::TypeMismatch));
}

#[test]
fn function_with_invalid_type_index() {
    let mut raw = empty();
    raw.types = vec![identity_type()];
    raw.typeidx = vec![0, 1];
    raw.funcs = vec![identity_body(), identity_body()];
    assert_eq!(failure(raw), Error::InvalidIndex(IndexSpace::Type));
}

#[test]
fn too_many_tables() {
    let mut raw = empty();
    raw.tables = vec![TableType { min: 0, max: None }, TableType { min: 1, max: None }];
    assert_eq!(failure(raw), Error::InstantiationLimit(Limit::Tables));
    // one imported, one defined
    let mut raw = empty();
    raw.imports = vec![import("env", "t", ImportDesc::TableType(TableType { min: 0, max: None }))];
    raw.tables = vec![TableType { min: 1, max: None }];
    assert_eq!(failure(raw), Error::InstantiationLimit(Limit::Tables));
}

#[test]
fn too_many_memories() {
    let mut raw = empty();
    raw.mems = vec![MemType { min: 0, max: None }, MemType { min: 0, max: None }];
    assert_eq!(failure(raw), Error::InstantiationLimit(Limit::Memories));
    let mut raw = empty();
    raw.imports = vec![
        import("env", "a", ImportDesc::MemType(MemType { min: 0, max: None })),
        import("env", "b", ImportDesc::MemType(MemType { min: 0, max: None })),
    ];
    assert_eq!(failure(raw), Error::InstantiationLimit(Limit::Memories));
    // tables are looked at first
    let mut raw = empty();
    raw.mems = vec![MemType { min: 0, max: None }, MemType { min: 0, max: None }];
    raw.tables = vec![TableType { min: 0, max: None }, TableType { min: 0, max: None }];
    assert_eq!(failure(raw), Error::InstantiationLimit(Limit::Tables));
}

#[test]
fn one_table_and_one_memory_are_accepted() {
    let mut raw = empty();
    raw.mems = vec![MemType { min: 0, max: None }];
    raw.tables = vec![TableType { min: 0, max: None }];
    let module = resolve(raw).ok().unwrap();
    assert_eq!(module.tables.len(), 1);
    assert_eq!(module.memories.len(), 1);
}

#[test]
fn export_map_is_complete() {
    let mut raw = empty();
    raw.types = vec![identity_type()];
    raw.typeidx = vec![0, 0];
    raw.funcs = vec![identity_body(), identity_body()];
    raw.tables = vec![TableType { min: 1, max: None }];
    raw.mems = vec![MemType { min: 0, max: None }];
    raw.globals = vec![GlobalDef {
        global_type: GlobalType { val_type: ValType::I32, mutable: false },
        init: i32_const(7),
    }];
    raw.exports = vec![
        export("f", ExportDesc::Func(1)),
        export("t", ExportDesc::Table(0)),
        export("m", ExportDesc::Mem(0)),
        export("g", ExportDesc::Global(0)),
    ];
    let module = resolve(raw).ok().unwrap();
    assert_eq!(module.exports.len(), 4);
    assert_eq!(module.exports.get("f"), Some(&ExportValue::Function(1)));
    assert_eq!(module.exports.get("t"), Some(&ExportValue::Table(0)));
    assert_eq!(module.exports.get("m"), Some(&ExportValue::Memory(0)));
    assert_eq!(module.exports.get("g"), Some(&ExportValue::Global(0)));
    assert_eq!(module.exports.get("h"), None);
    assert_eq!(module.global_idx(0).unwrap().get(), StackEntry::I32Entry(7));
}

#[test]
fn duplicate_export_is_last_wins() {
    let mut raw = empty();
    raw.types = vec![identity_type()];
    raw.typeidx = vec![0, 0];
    raw.funcs = vec![identity_body(), identity_body()];
    raw.exports = vec![export("f", ExportDesc::Func(0)), export("f", ExportDesc::Func(1))];
    let module = resolve(raw).ok().unwrap();
    assert_eq!(module.exports.len(), 1);
    assert_eq!(module.exports.get("f"), Some(&ExportValue::Function(1)));
}

#[test]
fn export_with_invalid_index() {
    for (desc, space) in [
        (ExportDesc::Func(0), IndexSpace::Function),
        (ExportDesc::Table(0), IndexSpace::Table),
        (ExportDesc::Mem(0), IndexSpace::Memory),
        (ExportDesc::Global(0), IndexSpace::Global),
    ] {
        let mut raw = empty();
        raw.exports = vec![export("x", desc)];
        assert_eq!(failure(raw), Error::InvalidIndex(space));
    }
}

#[test]
fn global_initializer_cannot_read_a_local_global() {
    let mut raw = empty();
    raw.globals = vec![
        GlobalDef { global_type: GlobalType { val_type: ValType::I32, mutable: false }, init: i32_const(1) },
        GlobalDef { global_type: GlobalType { val_type: ValType::I32, mutable: false }, init: expr(&[0x23, 0x00, 0x0b]) },
    ];
    assert_eq!(failure(raw), Error::InvalidIndex(IndexSpace::Global));
}

#[test]
fn offset_cannot_read_a_local_global() {
    let mut raw = empty();
    raw.mems = vec![MemType { min: 1, max: None }];
    raw.globals = vec![GlobalDef { global_type: GlobalType { val_type: ValType::I32, mutable: false }, init: i32_const(1) }];
    raw.data = vec![Data { mem_idx: 0, offset: expr(&[0x23, 0x00, 0x0b]), bytes: vec![1] }];
    assert_eq!(failure(raw), Error::InvalidIndex(IndexSpace::Global));
}

#[test]
fn offset_reads_an_imported_global() {
    let mut raw = empty();
    raw.imports = vec![import("env", "g", ImportDesc::GlobalType(GlobalType { val_type: ValType::I32, mutable: false }))];
    raw.mems = vec![MemType { min: 1, max: None }];
    raw.data = vec![Data { mem_idx: 0, offset: expr(&[0x23, 0x00, 0x0b]), bytes: vec![1, 2] }];
    let module = resolve(raw).ok().unwrap();
    assert_eq!(module.memories[0].read(7, 4), Ok(vec![0, 1, 2, 0]));
}

#[test]
fn constant_expression_cannot_read_a_mutable_global() {
    let mut raw = empty();
    raw.imports = vec![import("env", "g", ImportDesc::GlobalType(GlobalType { val_type: ValType::I32, mutable: true }))];
    raw.globals = vec![GlobalDef {
        global_type: GlobalType { val_type: ValType::I32, mutable: false },
        init: expr(&[0x23, 0x00, 0x0b]),
    }];
    assert_eq!(failure(raw), Error::Trap(Trap::IllegalInstruction));
}

#[test]
fn global_initializer_must_have_the_declared_kind() {
    let mut raw = empty();
    raw.globals = vec![GlobalDef { global_type: GlobalType { val_type: ValType::I64, mutable: false }, init: i32_const(1) }];
    assert_eq!(failure(raw), Error::TypeMismatch);
    // no value at all, and two values
    let mut raw = empty();
    raw.globals = vec![GlobalDef { global_type: GlobalType { val_type: ValType::I32, mutable: false }, init: expr(&[0x0b]) }];
    assert_eq!(failure(raw), Error::TypeMismatch);
    let mut raw = empty();
    raw.globals = vec![GlobalDef {
        global_type: GlobalType { val_type: ValType::I32, mutable: false },
        init: expr(&[0x41, 0x01, 0x41, 0x02, 0x0b]),
    }];
    assert_eq!(failure(raw), Error::TypeMismatch);
}

#[test]
fn global_initializers_of_every_kind() {
    let mut raw = empty();
    raw.globals = vec![
        GlobalDef { global_type: GlobalType { val_type: ValType::I32, mutable: false }, init: expr(&[0x41, 0x7f, 0x0b]) },
        GlobalDef { global_type: GlobalType { val_type: ValType::I64, mutable: true }, init: expr(&[0x42, 0x80, 0x01, 0x0b]) },
        GlobalDef { global_type: GlobalType { val_type: ValType::F32, mutable: false }, init: expr(&[0x43, 0x00, 0x00, 0x80, 0x3f, 0x0b]) },
        GlobalDef {
            global_type: GlobalType { val_type: ValType::F64, mutable: false },
            init: expr(&[0x44, 0x00, 0x00, 0x00, 0x00, 0x00, 0x00, 0xf0, 0x3f, 0x0b]),
        },
    ];
    let module = resolve(raw).ok().unwrap();
    assert_eq!(module.globals[0].value, StackEntry::I32Entry(-1));
    assert_eq!(module.globals[1].value, StackEntry::I64Entry(128));
    assert_eq!(module.globals[2].value, StackEntry::F32Entry(1.0f32.to_bits()));
    assert_eq!(module.globals[3].value, StackEntry::F64Entry(1.0f64.to_bits()));
}

#[test]
fn initializer_with_an_illegal_instruction() {
    let mut raw = empty();
    raw.globals = vec![GlobalDef {
        global_type: GlobalType { val_type: ValType::I32, mutable: false },
        init: expr(&[0x41, 0x01, 0x41, 0x02, 0x6a, 0x0b]),
    }];
    assert_eq!(failure(raw), Error::Trap(Trap::IllegalInstruction));
    let mut raw = empty();
    raw.globals = vec![GlobalDef { global_type: GlobalType { val_type: ValType::I32, mutable: false }, init: expr(&[0x41, 0x01]) }];
    assert_eq!(failure(raw), Error::MalformedBinary(Malformed::UnexpectedEof));
}

#[test]
fn offset_must_be_an_i32() {
    let mut raw = empty();
    raw.mems = vec![MemType { min: 1, max: None }];
    raw.data = vec![Data { mem_idx: 0, offset: expr(&[0x42, 0x00, 0x0b]), bytes: vec![] }];
    assert_eq!(failure(raw), Error::TypeMismatch);
}

#[test]
fn data_segment_checks() {
    let mut raw = empty();
    raw.data = vec![Data { mem_idx: 0, offset: i32_const(0), bytes: vec![] }];
    assert_eq!(failure(raw), Error::InvalidIndex(IndexSpace::Memory));
    // the memory index is checked before the offset is evaluated
    let mut raw = empty();
    raw.data = vec![Data { mem_idx: 0, offset: expr(&[0x00]), bytes: vec![] }];
    assert_eq!(failure(raw), Error::InvalidIndex(IndexSpace::Memory));
    // one byte past the end of one page: 65533 + 4 > 65536
    let mut raw = empty();
    raw.mems = vec![MemType { min: 1, max: None }];
    raw.data = vec![Data { mem_idx: 0, offset: expr(&[0x41, 0xfd, 0xff, 0x03, 0x0b]), bytes: vec![1, 2, 3, 4] }];
    assert_eq!(failure(raw), Error::Trap(Trap::MemoryOutOfBounds));
    // the last four bytes of the page
    let mut raw = empty();
    raw.mems = vec![MemType { min: 1, max: None }];
    raw.data = vec![Data { mem_idx: 0, offset: expr(&[0x41, 0xfc, 0xff, 0x03, 0x0b]), bytes: vec![1, 2, 3, 4] }];
    let module = resolve(raw).ok().unwrap();
    assert_eq!(module.memories[0].read(65532, 4), Ok(vec![1, 2, 3, 4]));
}

#[test]
fn negative_offset_is_read_as_unsigned() {
    let mut raw = empty();
    raw.mems = vec![MemType { min: 1, max: None }];
    // i32.const -1 stands for 2^32 - 1
    raw.data = vec![Data { mem_idx: 0, offset: expr(&[0x41, 0x7f, 0x0b]), bytes: vec![] }];
    assert_eq!(failure(raw), Error::Trap(Trap::MemoryOutOfBounds));
}

#[test]
fn later_data_segment_overwrites_earlier() {
    let mut raw = empty();
    raw.mems = vec![MemType { min: 1, max: None }];
    raw.data = vec![
        Data { mem_idx: 0, offset: i32_const(0), bytes: vec![1, 2, 3, 4] },
        Data { mem_idx: 0, offset: i32_const(2), bytes: vec![9, 9] },
    ];
    let module = resolve(raw).ok().unwrap();
    assert_eq!(module.memories[0].read(0, 5), Ok(vec![1, 2, 9, 9, 0]));
}

#[test]
fn element_segment_checks() {
    let mut raw = empty();
    raw.elem = vec![Element { table_idx: 0, offset: i32_const(0), func_indices: vec![] }];
    assert_eq!(failure(raw), Error::InvalidIndex(IndexSpace::Table));
    let mut raw = empty();
    raw.tables = vec![TableType { min: 2, max: None }];
    raw.elem = vec![Element { table_idx: 0, offset: i32_const(0), func_indices: vec![0] }];
    assert_eq!(failure(raw), Error::InvalidIndex(IndexSpace::Function));
    // a write past the end of the table traps
    let mut raw = empty();
    raw.types = vec![identity_type()];
    raw.typeidx = vec![0];
    raw.funcs = vec![identity_body()];
    raw.tables = vec![TableType { min: 2, max: None }];
    raw.elem = vec![Element { table_idx: 0, offset: i32_const(1), func_indices: vec![0, 0] }];
    assert_eq!(failure(raw), Error::Trap(Trap::TableOutOfBounds));
    // a function index is checked before the room in the table
    let mut raw = empty();
    raw.tables = vec![TableType { min: 0, max: None }];
    raw.elem = vec![Element { table_idx: 0, offset: i32_const(0), func_indices: vec![3] }];
    assert_eq!(failure(raw), Error::InvalidIndex(IndexSpace::Function));
}

#[test]
fn elements_are_written_before_data() {
    let mut raw = empty();
    raw.mems = vec![MemType { min: 1, max: None }];
    raw.data = vec![Data { mem_idx: 0, offset: expr(&[0x41, 0x7f, 0x0b]), bytes: vec![1] }];
    raw.elem = vec![Element { table_idx: 0, offset: i32_const(0), func_indices: vec![] }];
    assert_eq!(failure(raw), Error::InvalidIndex(IndexSpace::Table));
}

#[test]
fn store_indices_out_of_range() {
    let mut module = Module::new();
    assert_eq!(module.global_idx(0).err(), Some(Error::InvalidIndex(IndexSpace::Global)));
    assert_eq!(module.table_idx(0).err(), Some(Error::InvalidIndex(IndexSpace::Table)));
    assert_eq!(module.callable_idx(0).err(), Some(Error::InvalidIndex(IndexSpace::Function)));
    assert_eq!(module.mem_idx(0).err(), Some(Error::InvalidIndex(IndexSpace::Memory)));
    assert_eq!(module.func_type_idx(0).err(), Some(Error::InvalidIndex(IndexSpace::Type)));
    assert_eq!(module.global_idx_mut(0).err(), Some(Error::InvalidIndex(IndexSpace::Global)));
    assert_eq!(module.mem_idx_mut(0).err(), Some(Error::InvalidIndex(IndexSpace::Memory)));
    assert_eq!(Error::InvalidIndex(IndexSpace::Global).message(), "Global index out of range");
    assert_eq!(Error::InvalidIndex(IndexSpace::Table).message(), "Table index out of range");
    assert_eq!(Error::InvalidIndex(IndexSpace::Function).message(), "Callable index out of range");
    assert_eq!(Error::InvalidIndex(IndexSpace::Memory).message(), "Memory index out of range");
    assert_eq!(Error::InvalidIndex(IndexSpace::Type).message(), "FuncType index out of range");
}

#[test]
fn store_is_written_through_its_indices() {
    let mut raw = empty();
    raw.mems = vec![MemType { min: 1, max: None }];
    raw.globals = vec![GlobalDef { global_type: GlobalType { val_type: ValType::I32, mutable: true }, init: i32_const(1) }];
    let mut module = resolve(raw).ok().unwrap();
    assert_eq!(module.global_idx_mut(0).unwrap().set(StackEntry::I32Entry(5)), Ok(()));
    assert_eq!(module.global_idx(0).unwrap().get(), StackEntry::I32Entry(5));
    assert_eq!(module.global_idx_mut(0).unwrap().set(StackEntry::I64Entry(5)), Err(Error::TypeMismatch));
    assert_eq!(module.global_idx(0).unwrap().get(), StackEntry::I32Entry(5));
    assert_eq!(module.mem_idx_mut(0).unwrap().store_u32(8, 0xdead_beef), Ok(()));
    assert_eq!(module.mem_idx(0).unwrap().read(8, 4), Ok(vec![0xef, 0xbe, 0xad, 0xde]));
}

#[test]
fn error_messages() {
    assert_eq!(Error::MalformedBinary(Malformed::InvalidHeader).message(), "invalid module header");
    assert_eq!(Error::MalformedBinary(Malformed::SectionNotConsumed).message(), "failed to read whole section");
    assert_eq!(Error::InvalidSectionOrder.message(), "invalid section order");
    assert_eq!(Error::InstantiationLimit(Limit::Tables).message(), "too many tables");
    assert_eq!(Error::InstantiationLimit(Limit::Memories).message(), "too many memories");
    assert_eq!(Error::InvalidIndex(IndexSpace::Start).message(), "Start function not found");
    assert_eq!(Error::Resolver(ResolverError::NotFound).message(), "import not found");
    assert_eq!(Error::Resolver(ResolverError::TypeMismatch).message(), "import type mismatch");
    assert_eq!(Error::TypeMismatch.message(), "type mismatch");
    assert_eq!(Error::Trap(Trap::Unreachable).message(), "trap");
    assert_eq!(Error::MalformedBinary(Malformed::LebOverflow).message(), "integer too large");
    assert_eq!(Error::MalformedBinary(Malformed::InvalidUtf8).message(), "name is not UTF-8");
    assert_eq!(Error::MalformedBinary(Malformed::UnexpectedEof).message(), "unexpected end of input");
    assert_eq!(Error::MalformedBinary(Malformed::UnknownSection).message(), "malformed binary");
}

#[test]
fn memories_addressable_on_this_machine() {
    let mut raw = empty();
    raw.mems = vec![MemType { min: 1, max: None }, MemType { min: 2, max: Some(2) }];
    assert!(raw.memories_addressable());
    assert!(empty().memories_addressable());
}

#[test]
fn later_import_with_invalid_type_index() {
    let mut raw = empty();
    raw.types = vec![identity_type()];
    raw.imports = vec![
        import("env", "g", ImportDesc::GlobalType(GlobalType { val_type: ValType::I32, mutable: false })),
        import("env", "f", ImportDesc::TypeIdx(0)),
        import("env", "bad", ImportDesc::TypeIdx(1)),
        import("env", "never", ImportDesc::TypeIdx(0)),
    ];
    let mut host = Host::new();
    let r = Module::instantiate(raw, &mut host);
    assert_eq!(r.err(), Some(Error::InvalidIndex(IndexSpace::Type)));
    assert_eq!(host.asked, vec!["global env.g".to_string(), "func env.f".to_string()]);
}

#[test]
fn failed_resolving_keeps_the_answers_before() {
    let types = vec![identity_type()];
    let imports = vec![
        import("env", "g", ImportDesc::GlobalType(GlobalType { val_type: ValType::I32, mutable: false })),
        import("env", "t", ImportDesc::TableType(TableType { min: 2, max: None })),
        import("other", "m", ImportDesc::MemType(MemType { min: 0, max: None })),
        import("env", "f", ImportDesc::TypeIdx(0)),
    ];
    let mut module = Module::new();
    let mut host = Host::new();
    let r = module.resolve_imports(&imports, &types, &mut host);
    assert_eq!(r, Err(Error::Resolver(ResolverError::NotFound)));
    assert_eq!(module.globals.len(), 1);
    assert_eq!(module.tables.len(), 1);
    assert_eq!(module.memories.len(), 0);
    assert_eq!(module.functions.len(), 0);
    assert_eq!(host.asked.len(), 3);
}

#[test]
fn import_request_checks_the_type_index() {
    let types = vec![FuncType { params: vec![], results: vec![] }, identity_type()];
    let none: Vec<FuncType> = vec![];
    let good = import("env", "f", ImportDesc::TypeIdx(1));
    let request = Module::import_request(&good, &types).unwrap();
    assert_eq!(
        request,
        Request { mod_name: "env", name: "f", asked: Asked::Function(&identity_type()) }
    );
    let bad = import("env", "f", ImportDesc::TypeIdx(2));
    assert_eq!(Module::import_request(&bad, &types), Err(Error::InvalidIndex(IndexSpace::Type)));
    assert_eq!(Module::import_request(&good, &none), Err(Error::InvalidIndex(IndexSpace::Type)));
    let table_type = TableType { min: 1, max: Some(2) };
    let table = import("host", "t", ImportDesc::TableType(table_type));
    assert_eq!(
        Module::import_request(&table, &none),
        Ok(Request { mod_name: "host", name: "t", asked: Asked::Table(table_type) })
    );
    let mem_type = MemType { min: 1, max: None };
    let memory = import("env", "m", ImportDesc::MemType(mem_type));
    assert_eq!(
        Module::import_request(&memory, &none),
        Ok(Request { mod_name: "env", name: "m", asked: Asked::Memory(mem_type) })
    );
    let global_type = GlobalType { val_type: ValType::F64, mutable: true };
    let global = import("env", "g", ImportDesc::GlobalType(global_type));
    assert_eq!(
        Module::import_request(&global, &types),
        Ok(Request { mod_name: "env", name: "g", asked: Asked::Global(global_type) })
    );
}

#[test]
fn resolver_is_asked_with_the_names_and_the_type() {
    let types = vec![FuncType { params: vec![], results: vec![] }, identity_type()];
    let mut host = Host::new();
    let function = import("env", "abcd", ImportDesc::TypeIdx(1));
    let answer = Module::ask_resolver(Module::import_request(&function, &types).unwrap(), &mut host);
    assert_eq!(answer, Ok(Imported::Function(Callable::Host(HostCallable { func_type: identity_type(), id: 4 }))));
    let table = import("env", "t", ImportDesc::TableType(TableType { min: 2, max: None }));
    let answer = Module::ask_resolver(Module::import_request(&table, &types).unwrap(), &mut host);
    assert_eq!(answer, Ok(Imported::Table(Table::new(TableType { min: 2, max: None }))));
    let memory = import("env", "m", ImportDesc::MemType(MemType { min: 1, max: None }));
    let answer = Module::ask_resolver(Module::import_request(&memory, &types).unwrap(), &mut host);
    assert_eq!(answer, Ok(Imported::Memory(Memory::new(MemType { min: 1, max: None }))));
    let global_type = GlobalType { val_type: ValType::I64, mutable: false };
    let global = import("elsewhere", "g", ImportDesc::GlobalType(global_type));
    let answer = Module::ask_resolver(Module::import_request(&global, &types).unwrap(), &mut host);
    assert_eq!(answer, Err(ResolverError::NotFound));
    assert_eq!(
        host.asked,
        vec![
            "func env.abcd".to_string(),
            "table env.t".to_string(),
            "memory env.m".to_string(),
            "global elsewhere.g".to_string()
        ]
    );
}

#[test]
fn import_outcome_takes_the_answer() {
    let mut module = Module::new();
    let global = Global::new(GlobalType { val_type: ValType::I32, mutable: false }, StackEntry::I32Entry(3)).unwrap();
    assert_eq!(module.import_outcome(Ok(Imported::Global(global))), Ok(()));
    assert_eq!(module.import_outcome(Ok(Imported::Table(Table::new(TableType { min: 1, max: None })))), Ok(()));
    assert_eq!(module.import_outcome(Ok(Imported::Memory(Memory::new(MemType { min: 0, max: None })))), Ok(()));
    let function = Callable::Host(HostCallable { func_type: identity_type(), id: 9 });
    assert_eq!(module.import_outcome(Ok(Imported::Function(function))), Ok(()));
    assert_eq!(module.globals, vec![global]);
    assert_eq!(module.tables, vec![Table::new(TableType { min: 1, max: None })]);
    assert_eq!(module.memories, vec![Memory::new(MemType { min: 0, max: None })]);
    assert_eq!(module.functions, vec![Callable::Host(HostCallable { func_type: identity_type(), id: 9 })]);
    assert_eq!(
        module.import_outcome(Err(ResolverError::TypeMismatch)),
        Err(Error::Resolver(ResolverError::TypeMismatch))
    );
    assert_eq!(module.import_outcome(Err(ResolverError::NotFound)), Err(Error::Resolver(ResolverError::NotFound)));
    assert_eq!(module.globals.len(), 1);
    assert_eq!(module.tables.len(), 1);
    assert_eq!(module.memories.len(), 1);
    assert_eq!(module.functions.len(), 1);
}

#[test]
fn failed_segment_leaves_the_store_as_it_was() {
    let mut module = Module::new();
    module.functions.push(Callable::Host(HostCallable { func_type: identity_type(), id: 0 }));
    module.tables.push(Table::new(TableType { min: 4, max: None }));
    module.memories.push(Memory::new(MemType { min: 1, max: None }));
    assert_eq!(
        module.initialize_table_element(&Element { table_idx: 0, offset: i32_const(1), func_indices: vec![0] }, 0),
        Ok(())
    );
    assert_eq!(module.initialize_memory_data(&Data { mem_idx: 0, offset: i32_const(0), bytes: vec![7, 8] }, 0), Ok(()));
    let table = module.tables[0].entries.clone();
    let memory = module.memories[0].data.clone();
    // a good function index before one that is out of range
    let r = module.initialize_table_element(&Element { table_idx: 0, offset: i32_const(0), func_indices: vec![0, 1] }, 0);
    assert_eq!(r, Err(Error::InvalidIndex(IndexSpace::Function)));
    assert_eq!(module.tables[0].entries, table);
    let r = module.initialize_table_element(&Element { table_idx: 1, offset: i32_const(0), func_indices: vec![0] }, 0);
    assert_eq!(r, Err(Error::InvalidIndex(IndexSpace::Table)));
    let r = module.initialize_table_element(&Element { table_idx: 0, offset: i32_const(3), func_indices: vec![0, 0] }, 0);
    assert_eq!(r, Err(Error::Trap(Trap::TableOutOfBounds)));
    assert_eq!(module.tables[0].entries, table);
    assert_eq!(module.tables[0].entries, vec![None, Some(0), None, None]);
    let r = module.initialize_memory_data(&Data { mem_idx: 1, offset: i32_const(0), bytes: vec![1] }, 0);
    assert_eq!(r, Err(Error::InvalidIndex(IndexSpace::Memory)));
    let past_the_end = Data { mem_idx: 0, offset: expr(&[0x41, 0xff, 0xff, 0x03, 0x0b]), bytes: vec![1, 2] };
    assert_eq!(module.initialize_memory_data(&past_the_end, 0), Err(Error::Trap(Trap::MemoryOutOfBounds)));
    assert_eq!(module.memories[0].data, memory);
    assert_eq!(module.functions.len(), 1);
    assert_eq!(module.globals.len(), 0);
}

#[test]
fn segments_before_a_failing_one_stay_written() {
    let mut module = Module::new();
    module.memories.push(Memory::new(MemType { min: 1, max: None }));
    let data = vec![
        Data { mem_idx: 0, offset: i32_const(0), bytes: vec![1] },
        Data { mem_idx: 3, offset: i32_const(1), bytes: vec![2] },
        Data { mem_idx: 0, offset: i32_const(2), bytes: vec![3] },
    ];
    assert_eq!(module.initialize_memory(&data, 0), Err(Error::InvalidIndex(IndexSpace::Memory)));
    assert_eq!(module.memories[0].read(0, 3), Ok(vec![1, 0, 0]));
    module.tables.push(Table::new(TableType { min: 2, max: None }));
    module.functions.push(Callable::Host(HostCallable { func_type: identity_type(), id: 0 }));
    let elements = vec![
        Element { table_idx: 0, offset: i32_const(1), func_indices: vec![0] },
        Element { table_idx: 0, offset: i32_const(2), func_indices: vec![0] },
        Element { table_idx: 0, offset: i32_const(0), func_indices: vec![0] },
    ];
    assert_eq!(module.initialize_table_elements(&elements, 0), Err(Error::Trap(Trap::TableOutOfBounds)));
    assert_eq!(module.tables[0].entries, vec![None, Some(0)]);
}

#[test]
fn failing_global_and_later_ones_are_not_added() {
    let i32_type = GlobalType { val_type: ValType::I32, mutable: false };
    let mut module = Module::new();
    module.globals.push(Global::new(i32_type, StackEntry::I32Entry(1)).unwrap());
    let definitions = vec![
        GlobalDef { global_type: i32_type, init: i32_const(2) },
        GlobalDef { global_type: i32_type, init: expr(&[0x42, 0x00, 0x0b]) },
        GlobalDef { global_type: i32_type, init: i32_const(3) },
    ];
    assert_eq!(module.add_globals(&definitions), Err(Error::TypeMismatch));
    assert_eq!(module.globals.len(), 2);
    assert_eq!(module.globals[0].value, StackEntry::I32Entry(1));
    assert_eq!(module.globals[1].value, StackEntry::I32Entry(2));
}

#[test]
fn failing_function_and_later_ones_are_not_added() {
    let types = vec![identity_type()];
    let mut module = Module::new();
    let r = module.add_functions(&vec![0, 1, 0], &vec![identity_body(), identity_body(), identity_body()], &types);
    assert_eq!(r, Err(Error::InvalidIndex(IndexSpace::Type)));
    assert_eq!(module.functions.len(), 1);
}

#[test]
fn failed_export_keeps_the_entities() {
    let mut module = Module::new();
    module.functions.push(Callable::Host(HostCallable { func_type: identity_type(), id: 0 }));
    let exports = vec![
        export("f", ExportDesc::Func(0)),
        export("t", ExportDesc::Table(0)),
        export("g", ExportDesc::Func(0)),
    ];
    assert_eq!(module.collect_exports(&exports), Err(Error::InvalidIndex(IndexSpace::Table)));
    assert_eq!(module.functions.len(), 1);
    assert_eq!(module.tables.len(), 0);
    assert_eq!(module.memories.len(), 0);
    assert_eq!(module.globals.len(), 0);
    assert_eq!(module.exports.len(), 1);
    assert_eq!(module.exports.get("f"), Some(&ExportValue::Function(0)));
}

#[test]
fn too_many_memories_with_a_start_function() {
    let mut raw = empty();
    raw.types = vec![FuncType { params: vec![], results: vec![] }];
    raw.imports = vec![import("env", "m", ImportDesc::MemType(MemType { min: 1, max: None }))];
    raw.mems = vec![MemType { min: 1, max: None }];
    raw.typeidx = vec![0];
    raw.funcs = vec![Func { locals: vec![], body: expr(&[0x0b]) }];
    raw.data = vec![Data { mem_idx: 0, offset: i32_const(0), bytes: vec![1] }];
    raw.start = Some(0);
    let mut host = Host::new();
    let mut tiny = Tiny::new();
    let r = Module::resolve_raw_module(raw, &mut host, &mut tiny);
    assert_eq!(r.err(), Some(Error::InstantiationLimit(Limit::Memories)));
    assert!(tiny.calls.is_empty());
    assert_eq!(host.asked, vec!["memory env.m".to_string()]);
    assert_eq!(Error::InstantiationLimit(Limit::MemorySize).message(), "memory too large");
}
