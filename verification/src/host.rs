//! What the embedder supplies: the resolver that satisfies imports, and
//! the interpreter that runs a function. Neither method has a contract:
//! what the library proves holds whatever they return.

use vstd::prelude::*;
use crate::entities::Callable;
use crate::entities::Global;
use crate::entities::Memory;
use crate::entities::Stack;
use crate::entities::Table;
use crate::error::ResolverError;
use crate::error::Trap;
use crate::module::Module;
use crate::types::FuncType;
use crate::types::GlobalType;
use crate::types::MemType;
use crate::types::TableType;

verus! {

/// The host's side of instantiation: it produces the entity that an
/// import names. The store takes what it returns as it is, and does not
/// hold it against the type that was asked for.
pub trait Resolver {
    /// The function that `mod_name` exports as `name`.
    fn resolve_function(
        &mut self,
        mod_name: &str,
        name: &str,
        func_type: &FuncType,
    ) -> Result<Callable, ResolverError>;

    /// The table that `mod_name` exports as `name`.
    fn resolve_table(
        &mut self,
        mod_name: &str,
        name: &str,
        table_type: &TableType,
    ) -> Result<Table, ResolverError>;

    /// The memory that `mod_name` exports as `name`.
    fn resolve_memory(
        &mut self,
        mod_name: &str,
        name: &str,
        mem_type: &MemType,
    ) -> Result<Memory, ResolverError>;

    /// The global that `mod_name` exports as `name`.
    fn resolve_global(
        &mut self,
        mod_name: &str,
        name: &str,
        global_type: &GlobalType,
    ) -> Result<Global, ResolverError>;
}

/// The interpreter: it runs the function at an index of a store on a
/// value stack, and may read and write the store while it does.
pub trait Interpreter {
    /// Calls the function at `function` of `store`.
    fn call(&mut self, store: &mut Module, function: usize, stack: &mut Stack) -> Result<(), Trap>;
}

} // verus!
