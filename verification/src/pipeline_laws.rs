//! What holds of every store that instantiation returns.

use vstd::prelude::*;
use crate::const_expr::lemma_const_step_advances;
use crate::const_expr::offset_of;
use crate::const_expr::spec_const_run;
use crate::const_expr::spec_const_step;
use crate::const_expr::spec_evaluate;
use crate::const_expr::spec_offset;
use crate::decode::OP_END;
use crate::decode::OP_I32_CONST;
use crate::entities::CallableView;
use crate::entities::MemoryView;
use crate::entities::TableView;
use crate::module::ImportedView;
use crate::entities::Global;
use crate::entities::StackEntry;
use crate::error::Error;
use crate::error::Limit;
use crate::module::lemma_data_frame;
use crate::module::lemma_elements_frame;
use crate::module::lemma_entities_frame;
use crate::module::lemma_exports_frame;
use crate::module::lemma_globals_frame;
use crate::error::IndexSpace;
use crate::module::imports_of;
use crate::module::new_global;
use crate::module::shorter;
use crate::module::ExportValue;
use crate::module::ModuleView;
use crate::raw_module::RawModuleView;
use crate::reader::spec_leb_i32;
use crate::types::DataView;
use crate::types::ElementView;
use crate::types::ExportView;

verus! {

/// In every index space the entities that the store held before, the
/// imported ones, come first and as they were asked, and what the module
/// defines comes behind them in the order of its definition. A function
/// of the module has the signature that its type index names.
pub proof fn law_imports_first(held: ModuleView, raw: RawModuleView)
    requires
        held.instantiate(raw) is Ok,
    ensures
        ({
            let m = held.instantiate(raw)->Ok_0;
            let own = shorter(raw.typeidx.len(), raw.funcs.len());
            &&& m.functions.len() == held.functions.len() + own
            &&& m.functions.take(held.functions.len() as int) == held.functions
            &&& forall|j: int|
                0 <= j < own ==> raw.typeidx[j] < raw.types.len() && #[trigger] m.functions[held.functions.len()
                    + j] == (CallableView::Wasm {
                    func_type: raw.types[raw.typeidx[j] as int],
                    func: raw.funcs[j],
                })
            &&& m.tables.len() == held.tables.len() + raw.tables.len()
            &&& forall|j: int|
                0 <= j < raw.tables.len() ==> (#[trigger] m.tables[held.tables.len() + j]).table_type
                    == raw.tables[j]
            &&& m.memories.len() == held.memories.len() + raw.mems.len()
            &&& forall|j: int|
                0 <= j < raw.mems.len() ==> (#[trigger] m.memories[held.memories.len() + j]).mem_type
                    == raw.mems[j]
            &&& m.globals.len() == held.globals.len() + raw.globals.len()
            &&& m.globals.take(held.globals.len() as int) == held.globals
            &&& forall|j: int|
                0 <= j < raw.globals.len() ==> new_global(raw.globals[j], held.globals) == Ok::<
                    Global,
                    Error,
                >(#[trigger] m.globals[held.globals.len() + j])
            &&& m.func_types == raw.types
        }),
{
    let m1 = held.with_entities(raw)->Ok_0;
    let m2 = m1.with_exports(raw.exports)->Ok_0;
    let m3 = m2.with_func_types(raw.types);
    let m4 = m3.with_elements_from(raw.elem, held.globals, 0)->Ok_0;
    lemma_entities_frame(held, raw);
    lemma_exports_frame(m1, raw.exports, 0);
    lemma_elements_frame(m3, raw.elem, held.globals, 0);
    lemma_data_frame(m4, raw.data, held.globals, 0);
    let f1 = held.with_functions(raw.typeidx, raw.funcs, raw.types)->Ok_0;
    let f2 = f1.with_tables(raw.tables).with_memories(raw.mems);
    lemma_globals_frame(f2, raw.globals, f2.globals, 0);
    assert(m1.functions == f1.functions);
    let own = shorter(raw.typeidx.len(), raw.funcs.len());
    assert forall|j: int| 0 <= j < own implies raw.typeidx[j] < raw.types.len() by {}
    let m = held.instantiate(raw)->Ok_0;
    assert forall|j: int| 0 <= j < raw.tables.len() implies (#[trigger] m.tables[held.tables.len()
        + j]).table_type == raw.tables[j] by {
        assert(m4.tables[held.tables.len() + j].table_type == m3.tables[held.tables.len()
            + j].table_type);
    }
    assert forall|j: int| 0 <= j < raw.mems.len() implies (#[trigger] m.memories[held.memories.len()
        + j]).mem_type == raw.mems[j] by {
        assert(m.memories[held.memories.len() + j].mem_type == m4.memories[held.memories.len()
            + j].mem_type);
    }
}

/// A store that instantiation returns has at most one table and at most
/// one memory: a module that has two of either, imported or its own,
/// does not instantiate.
pub proof fn law_single_table_and_memory(held: ModuleView, raw: RawModuleView)
    ensures
        held.instantiate(raw) matches Ok(m) ==> m.tables.len() <= 1 && m.memories.len() <= 1,
        held.tables.len() + raw.tables.len() >= 2 || held.memories.len() + raw.mems.len() >= 2
            ==> held.instantiate(raw) is Err,
        held.with_entities(raw) matches Ok(m1) && m1.with_exports(raw.exports) is Ok ==> (
        held.tables.len() + raw.tables.len() >= 2 ==> held.instantiate(raw) == Err::<
            ModuleView,
            Error,
        >(Error::InstantiationLimit(Limit::Tables))) && (held.tables.len() + raw.tables.len() < 2
            && held.memories.len() + raw.mems.len() >= 2 ==> held.instantiate(raw) == Err::<
            ModuleView,
            Error,
        >(Error::InstantiationLimit(Limit::Memories))),
{
    lemma_entities_frame(held, raw);
    if held.with_entities(raw) is Ok {
        let m1 = held.with_entities(raw)->Ok_0;
        lemma_exports_frame(m1, raw.exports, 0);
        if m1.with_exports(raw.exports) is Ok {
            let m2 = m1.with_exports(raw.exports)->Ok_0;
            let m3 = m2.with_func_types(raw.types);
            if m3.validated() is Ok {
                lemma_elements_frame(m3, raw.elem, held.globals, 0);
                if m3.with_elements_from(raw.elem, held.globals, 0) is Ok {
                    let m4 = m3.with_elements_from(raw.elem, held.globals, 0)->Ok_0;
                    lemma_data_frame(m4, raw.data, held.globals, 0);
                }
            }
        }
    }
}

/// Whether no export behind the `j`-th has the name of the `j`-th.
pub open spec fn last_of_its_name(exports: Seq<ExportView>, j: int) -> bool {
    forall|k: int| j < k < exports.len() ==> (#[trigger] exports[k]).name != exports[j].name
}

/// Collecting the exports from `i` on enters each of them that is the
/// last of its name, and keeps the entries of all other names.
pub proof fn lemma_exports_entered(m: ModuleView, exports: Seq<ExportView>, i: int)
    requires
        0 <= i,
        m.with_exports_from(exports, i) is Ok,
    ensures
        ({
            let after = m.with_exports_from(exports, i)->Ok_0;
            &&& forall|j: int|
                i <= j < exports.len() && last_of_its_name(exports, j) ==> after.exports.contains_key(
                    (#[trigger] exports[j]).name,
                ) && m.export_value(exports[j].desc) == Ok::<ExportValue, Error>(
                    after.exports[exports[j].name],
                )
            &&& forall|name: Seq<char>|
                (forall|k: int| i <= k < exports.len() ==> (#[trigger] exports[k]).name != name)
                    ==> (#[trigger] after.exports.contains_key(name)) == m.exports.contains_key(
                    name,
                ) && (m.exports.contains_key(name) ==> after.exports[name] == m.exports[name])
        }),
    decreases exports.len() - i,
{
    if i < exports.len() {
        let v = m.export_value(exports[i].desc)->Ok_0;
        let next = ModuleView { exports: m.exports.insert(exports[i].name, v), ..m };
        lemma_exports_entered(next, exports, i + 1);
        let after = m.with_exports_from(exports, i)->Ok_0;
        assert forall|j: int|
            i <= j < exports.len() && last_of_its_name(exports, j) implies after.exports.contains_key(
            (#[trigger] exports[j]).name,
        ) && m.export_value(exports[j].desc) == Ok::<ExportValue, Error>(
            after.exports[exports[j].name],
        ) by {
            if j == i {
                let name = exports[i].name;
                assert(forall|k: int|
                    i + 1 <= k < exports.len() ==> (#[trigger] exports[k]).name != name);
                assert(next.exports.contains_key(name));
                assert(after.exports.contains_key(name) == next.exports.contains_key(name));
                assert(after.exports[name] == v);
            } else {
                assert(next.export_value(exports[j].desc) == m.export_value(exports[j].desc));
            }
        }
        assert forall|name: Seq<char>|
            (forall|k: int| i <= k < exports.len() ==> (#[trigger] exports[k]).name != name)
            implies (#[trigger] after.exports.contains_key(name)) == m.exports.contains_key(name)
            && (m.exports.contains_key(name) ==> after.exports[name] == m.exports[name]) by {
            assert(exports[i].name != name);
            assert(forall|k: int|
                i + 1 <= k < exports.len() ==> (#[trigger] exports[k]).name != name);
            assert(after.exports.contains_key(name) == next.exports.contains_key(name));
        }
    }
}

/// The export map is complete: each export that is the last of its name
/// has an entry under its name, and the entry is the handle of the
/// entity that the export names, which the store holds. An export whose
/// name comes again later has lost its entry to the later one.
pub proof fn law_exports_complete(held: ModuleView, raw: RawModuleView, j: int)
    requires
        held.instantiate(raw) is Ok,
        0 <= j < raw.exports.len(),
        last_of_its_name(raw.exports, j),
    ensures
        ({
            let m = held.instantiate(raw)->Ok_0;
            &&& m.exports.contains_key(raw.exports[j].name)
            &&& m.export_value(raw.exports[j].desc) == Ok::<ExportValue, Error>(
                m.exports[raw.exports[j].name],
            )
        }),
{
    let m1 = held.with_entities(raw)->Ok_0;
    let m2 = m1.with_exports(raw.exports)->Ok_0;
    let m3 = m2.with_func_types(raw.types);
    let m4 = m3.with_elements_from(raw.elem, held.globals, 0)->Ok_0;
    lemma_exports_frame(m1, raw.exports, 0);
    lemma_exports_entered(m1, raw.exports, 0);
    lemma_elements_frame(m3, raw.elem, held.globals, 0);
    lemma_data_frame(m4, raw.data, held.globals, 0);
}

/// What holds of a store that instantiation has returned for a module,
/// whatever the resolver answered: each index space holds as many
/// entities as the module imports into it, and behind them what the
/// module defines, in the order of its definition;
/// a function of the module has the signature that its type index names;
/// a global of the module has the value of its initializer over the
/// imported globals; there is at most one table and at most one memory;
/// and the export map holds, under each exported name and under no other,
/// the handle of the entity that the last export of that name names.
pub open spec fn well_instantiated(m: ModuleView, raw: RawModuleView) -> bool {
    let functions = imports_of(raw.imports, IndexSpace::Function, raw.imports.len());
    let tables = imports_of(raw.imports, IndexSpace::Table, raw.imports.len());
    let memories = imports_of(raw.imports, IndexSpace::Memory, raw.imports.len());
    let globals = imports_of(raw.imports, IndexSpace::Global, raw.imports.len());
    let own = shorter(raw.typeidx.len(), raw.funcs.len());
    &&& m.functions.len() == functions + own
    &&& forall|j: int|
        0 <= j < own ==> raw.typeidx[j] < raw.types.len() && #[trigger] m.functions[functions + j]
            == (CallableView::Wasm { func_type: raw.types[raw.typeidx[j] as int], func: raw.funcs[j] })
    &&& m.tables.len() == tables + raw.tables.len()
    &&& m.tables.len() <= 1
    &&& forall|j: int|
        0 <= j < raw.tables.len() ==> (#[trigger] m.tables[tables + j]).table_type == raw.tables[j]
    &&& m.memories.len() == memories + raw.mems.len()
    &&& m.memories.len() <= 1
    &&& forall|j: int|
        0 <= j < raw.mems.len() ==> (#[trigger] m.memories[memories + j]).mem_type == raw.mems[j]
    &&& m.globals.len() == globals + raw.globals.len()
    &&& forall|j: int|
        0 <= j < raw.globals.len() ==> new_global(raw.globals[j], m.globals.take(globals as int))
            == Ok::<Global, Error>(#[trigger] m.globals[globals + j])
    &&& m.func_types == raw.types
    &&& forall|j: int|
        0 <= j < raw.exports.len() && last_of_its_name(raw.exports, j) ==> m.exports.contains_key(
            (#[trigger] raw.exports[j]).name,
        ) && m.export_value(raw.exports[j].desc) == Ok::<ExportValue, Error>(
            m.exports[raw.exports[j].name],
        )
    &&& forall|name: Seq<char>|
        (forall|k: int| 0 <= k < raw.exports.len() ==> (#[trigger] raw.exports[k]).name != name)
            ==> !(#[trigger] m.exports.contains_key(name))
}

/// Every store that the pipeline makes of a store that holds the imports
/// and nothing else is well instantiated.
pub proof fn law_well_instantiated(held: ModuleView, raw: RawModuleView)
    requires
        held.holds_imports(ModuleView::empty(), raw.imports),
        held.instantiate(raw) is Ok,
    ensures
        well_instantiated(held.instantiate(raw)->Ok_0, raw),
{
    let m = held.instantiate(raw)->Ok_0;
    law_imports_first(held, raw);
    law_single_table_and_memory(held, raw);
    assert forall|j: int|
        0 <= j < raw.exports.len() && last_of_its_name(raw.exports, j) implies m.exports.contains_key(
        (#[trigger] raw.exports[j]).name,
    ) && m.export_value(raw.exports[j].desc) == Ok::<ExportValue, Error>(
        m.exports[raw.exports[j].name],
    ) by {
        law_exports_complete(held, raw, j);
    }
    let m1 = held.with_entities(raw)->Ok_0;
    let m2 = m1.with_exports(raw.exports)->Ok_0;
    let m3 = m2.with_func_types(raw.types);
    let m4 = m3.with_elements_from(raw.elem, held.globals, 0)->Ok_0;
    lemma_entities_frame(held, raw);
    lemma_exports_entered(m1, raw.exports, 0);
    lemma_elements_frame(m3, raw.elem, held.globals, 0);
    lemma_data_frame(m4, raw.data, held.globals, 0);
    assert(m.exports == m2.exports);
    assert(m1.exports == Map::<Seq<char>, ExportValue>::empty());
}

/// The functions among the resolver's answers, in their order.
pub open spec fn functions_of(answers: Seq<ImportedView>) -> Seq<CallableView>
    decreases answers.len(),
{
    if answers.len() == 0 {
        Seq::empty()
    } else {
        let before = functions_of(answers.drop_last());
        match answers.last() {
            ImportedView::Function(c) => before.push(c),
            _ => before,
        }
    }
}

/// The tables among the resolver's answers, in their order.
pub open spec fn tables_of(answers: Seq<ImportedView>) -> Seq<TableView>
    decreases answers.len(),
{
    if answers.len() == 0 {
        Seq::empty()
    } else {
        let before = tables_of(answers.drop_last());
        match answers.last() {
            ImportedView::Table(t) => before.push(t),
            _ => before,
        }
    }
}

/// The memories among the resolver's answers, in their order.
pub open spec fn memories_of(answers: Seq<ImportedView>) -> Seq<MemoryView>
    decreases answers.len(),
{
    if answers.len() == 0 {
        Seq::empty()
    } else {
        let before = memories_of(answers.drop_last());
        match answers.last() {
            ImportedView::Memory(m) => before.push(m),
            _ => before,
        }
    }
}

/// The globals among the resolver's answers, in their order.
pub open spec fn globals_of(answers: Seq<ImportedView>) -> Seq<Global>
    decreases answers.len(),
{
    if answers.len() == 0 {
        Seq::empty()
    } else {
        let before = globals_of(answers.drop_last());
        match answers.last() {
            ImportedView::Global(g) => before.push(g),
            _ => before,
        }
    }
}

/// A store that has taken the resolver's answers holds, in each index
/// space, what it held before and behind it the answers of that kind, in
/// the order in which they were given.
pub proof fn law_answers_in_order(before: ModuleView, answers: Seq<ImportedView>)
    ensures
        ({
            let after = before.with_imports(answers);
            &&& after.functions == before.functions + functions_of(answers)
            &&& after.tables == before.tables + tables_of(answers)
            &&& after.memories == before.memories + memories_of(answers)
            &&& after.globals == before.globals + globals_of(answers)
            &&& after.exports == before.exports
            &&& after.func_types == before.func_types
        }),
    decreases answers.len(),
{
    let after = before.with_imports(answers);
    if answers.len() == 0 {
        assert(after.functions =~= before.functions + functions_of(answers));
        assert(after.tables =~= before.tables + tables_of(answers));
        assert(after.memories =~= before.memories + memories_of(answers));
        assert(after.globals =~= before.globals + globals_of(answers));
    } else {
        law_answers_in_order(before, answers.drop_last());
        assert(after.functions =~= before.functions + functions_of(answers));
        assert(after.tables =~= before.tables + tables_of(answers));
        assert(after.memories =~= before.memories + memories_of(answers));
        assert(after.globals =~= before.globals + globals_of(answers));
    }
}

/// In the store that instantiation returns, the functions and the globals
/// that the resolver answered with come first, in the order in which they
/// were given, and as they were given; the tables and the memories that
/// it answered with come first too, with their types and sizes, and with
/// what the segments of the module have written into them.
pub proof fn law_answers_first(answers: Seq<ImportedView>, raw: RawModuleView)
    requires
        ModuleView::empty().with_imports(answers).instantiate(raw) is Ok,
    ensures
        ({
            let m = ModuleView::empty().with_imports(answers).instantiate(raw)->Ok_0;
            &&& functions_of(answers).len() <= m.functions.len()
            &&& m.functions.take(functions_of(answers).len() as int) == functions_of(answers)
            &&& globals_of(answers).len() <= m.globals.len()
            &&& m.globals.take(globals_of(answers).len() as int) == globals_of(answers)
            &&& tables_of(answers).len() <= m.tables.len()
            &&& forall|k: int|
                0 <= k < tables_of(answers).len() ==> (#[trigger] m.tables[k]).table_type
                    == tables_of(answers)[k].table_type && m.tables[k].entries.len()
                    == tables_of(answers)[k].entries.len()
            &&& memories_of(answers).len() <= m.memories.len()
            &&& forall|k: int|
                0 <= k < memories_of(answers).len() ==> (#[trigger] m.memories[k]).mem_type
                    == memories_of(answers)[k].mem_type && m.memories[k].data.len()
                    == memories_of(answers)[k].data.len()
        }),
{
    let held = ModuleView::empty().with_imports(answers);
    law_answers_in_order(ModuleView::empty(), answers);
    law_imports_first(held, raw);
    assert(held.functions =~= functions_of(answers));
    assert(held.globals =~= globals_of(answers));
    assert(held.tables =~= tables_of(answers));
    assert(held.memories =~= memories_of(answers));
    let m1 = held.with_entities(raw)->Ok_0;
    let m2 = m1.with_exports(raw.exports)->Ok_0;
    let m3 = m2.with_func_types(raw.types);
    let m4 = m3.with_elements_from(raw.elem, held.globals, 0)->Ok_0;
    let m = held.instantiate(raw)->Ok_0;
    lemma_entities_frame(held, raw);
    lemma_exports_frame(m1, raw.exports, 0);
    lemma_elements_frame(m3, raw.elem, held.globals, 0);
    lemma_data_frame(m4, raw.data, held.globals, 0);
    assert forall|k: int| 0 <= k < tables_of(answers).len() implies (#[trigger] m.tables[k]).table_type
        == tables_of(answers)[k].table_type && m.tables[k].entries.len() == tables_of(
        answers,
    )[k].entries.len() by {
        assert(m1.tables.take(held.tables.len() as int)[k] == m1.tables[k]);
        assert(m4.tables[k].table_type == m3.tables[k].table_type);
    }
    assert forall|k: int|
        0 <= k < memories_of(answers).len() implies (#[trigger] m.memories[k]).mem_type
        == memories_of(answers)[k].mem_type && m.memories[k].data.len() == memories_of(
        answers,
    )[k].data.len() by {
        assert(m1.memories.take(held.memories.len() as int)[k] == m1.memories[k]);
        assert(m.memories[k].mem_type == m4.memories[k].mem_type);
    }
}

/// Whether `code` is the expression `i32.const c`, closed by `end`.
pub open spec fn is_i32_const(code: Seq<u8>, c: i32) -> bool {
    &&& code.len() >= 1
    &&& code[0] == OP_I32_CONST
    &&& spec_leb_i32(code, 1) matches Ok((v, q))
    &&& v == c
    &&& q < code.len()
    &&& code[q] == OP_END
}

/// The offset that the expression `i32.const c` gives is `c`, read as an
/// unsigned size, whatever the globals are.
pub proof fn law_constant_offset(code: Seq<u8>, c: i32, visible: Seq<Global>)
    requires
        is_i32_const(code, c),
    ensures
        spec_evaluate(code, visible, 1) == Ok::<Seq<StackEntry>, Error>(
            seq![StackEntry::I32Entry(c)],
        ),
        spec_offset(code, visible) == Ok::<usize, Error>(offset_of(c)),
{
    let q = spec_leb_i32(code, 1)->Ok_0.1;
    let empty = Seq::<StackEntry>::empty();
    let one = empty.push(StackEntry::I32Entry(c));
    assert(spec_const_step(code, 0, empty, visible) == Ok::<(Seq<StackEntry>, int, bool), Error>(
        (one, q, false),
    ));
    assert(spec_const_step(code, q, one, visible) == Ok::<(Seq<StackEntry>, int, bool), Error>(
        (one, q + 1, true),
    ));
    lemma_const_step_advances(code, 0, empty, visible);
    assert(spec_const_run(code, q, one, visible) == Ok::<Seq<StackEntry>, Error>(one));
    assert(spec_const_run(code, 0, empty, visible) == Ok::<Seq<StackEntry>, Error>(one));
    assert(one =~= seq![StackEntry::I32Entry(c)]);
}

/// A data segment whose offset is `i32.const c` is copied to the bytes
/// from `c` on of its memory, and to no others: every other byte, and
/// every other memory, stays as it was.
pub proof fn law_data_written(m: ModuleView, d: DataView, c: i32, visible: Seq<Global>)
    requires
        is_i32_const(d.offset, c),
        m.with_data_segment(d, visible) is Ok,
    ensures
        ({
            let after = m.with_data_segment(d, visible)->Ok_0;
            let at = offset_of(c) as int;
            let memory = after.memories[d.mem_idx as int];
            &&& d.mem_idx < m.memories.len() == after.memories.len()
            &&& at + d.bytes.len() <= m.memories[d.mem_idx as int].data.len() == memory.data.len()
            &&& memory.data.subrange(at, at + d.bytes.len()) == d.bytes
            &&& forall|i: int|
                0 <= i < memory.data.len() && !(at <= i < at + d.bytes.len()) ==> memory.data[i]
                    == m.memories[d.mem_idx as int].data[i]
            &&& forall|k: int|
                0 <= k < m.memories.len() && k != d.mem_idx ==> after.memories[k] == m.memories[k]
        }),
{
    law_constant_offset(d.offset, c, visible);
    let after = m.with_data_segment(d, visible)->Ok_0;
    let at = offset_of(c) as int;
    let memory = after.memories[d.mem_idx as int];
    assert(memory.data.subrange(at, at + d.bytes.len()) =~= d.bytes);
}

/// An element segment whose offset is `i32.const c` is written to the
/// entries from `c` on of its table, and to no others: every other entry,
/// and every other table, stays as it was.
pub proof fn law_element_written(m: ModuleView, e: ElementView, c: i32, visible: Seq<Global>)
    requires
        is_i32_const(e.offset, c),
        m.with_element(e, visible) is Ok,
    ensures
        ({
            let after = m.with_element(e, visible)->Ok_0;
            let at = offset_of(c) as int;
            let table = after.tables[e.table_idx as int];
            &&& e.table_idx < m.tables.len() == after.tables.len()
            &&& at + e.func_indices.len() <= m.tables[e.table_idx as int].entries.len()
                == table.entries.len()
            &&& forall|j: int|
                0 <= j < e.func_indices.len() ==> #[trigger] table.entries[at + j] == Some(
                    e.func_indices[j],
                ) && e.func_indices[j] < m.functions.len()
            &&& forall|i: int|
                0 <= i < table.entries.len() && !(at <= i < at + e.func_indices.len())
                    ==> table.entries[i] == m.tables[e.table_idx as int].entries[i]
            &&& forall|k: int|
                0 <= k < m.tables.len() && k != e.table_idx ==> after.tables[k] == m.tables[k]
        }),
{
    law_constant_offset(e.offset, c, visible);
}

} // verus!
