//! The evaluator of constant expressions: the initializers of globals and
//! the offsets of element and data segments.

use vstd::prelude::*;
use crate::decode::OP_END;
use crate::decode::OP_F32_CONST;
use crate::decode::OP_F64_CONST;
use crate::decode::OP_GLOBAL_GET;
use crate::decode::OP_I32_CONST;
use crate::decode::OP_I64_CONST;
use crate::entities::Global;
use crate::entities::StackEntry;
use crate::error::Error;
use crate::error::IndexSpace;
use crate::error::Trap;
use crate::reader::lemma_leb_length_bounds;
use crate::reader::spec_index;
use crate::reader::spec_le_u32;
use crate::reader::spec_le_u64;
use crate::reader::spec_leb_i32;
use crate::reader::spec_leb_i64;
use crate::reader::spec_u8;
use crate::reader::Reader;
use crate::types::Expr;

verus! {

/// What a constant expression may read of a store: the globals that were
/// imported, by index. Globals that the module defines itself are not
/// among them.
pub struct ConstantExpressionStore<'a> {
    globals: &'a Vec<Global>,
    visible: usize,
}

impl<'a> View for ConstantExpressionStore<'a> {
    type V = Seq<Global>;

    closed spec fn view(&self) -> Seq<Global> {
        self.globals@.take(
            if self.visible <= self.globals@.len() {
                self.visible as int
            } else {
                self.globals@.len() as int
            },
        )
    }
}

impl<'a> ConstantExpressionStore<'a> {
    /// The capability to read the first `visible` of `globals`.
    pub fn new(globals: &'a Vec<Global>, visible: usize) -> (r: Self)
        ensures
            r@ == globals@.take(
                if visible <= globals@.len() {
                    visible as int
                } else {
                    globals@.len() as int
                },
            ),
    {
        ConstantExpressionStore { globals, visible }
    }

    /// The global at `idx`, if it is one that may be read.
    pub fn global_idx(&self, idx: usize) -> (r: Result<&Global, Error>)
        ensures
            idx < self@.len() ==> r == Ok::<&Global, Error>(&self@[idx as int]),
            idx >= self@.len() ==> r == Err::<&Global, Error>(
                Error::InvalidIndex(IndexSpace::Global),
            ),
    {
        if idx < self.visible && idx < self.globals.len() {
            Ok(&self.globals[idx])
        } else {
            Err(Error::InvalidIndex(IndexSpace::Global))
        }
    }
}

/// What one constant instruction at `pos` makes of the stack: the stack
/// after it, the position behind it, and whether it was the closing `end`.
/// The four constants push their immediate; `global.get` pushes the value
/// of a visible global that is not mutable; every other opcode traps.
pub open spec fn spec_const_step(
    code: Seq<u8>,
    pos: int,
    stack: Seq<StackEntry>,
    globals: Seq<Global>,
) -> Result<(Seq<StackEntry>, int, bool), Error> {
    match spec_u8(code, pos) {
        Err(e) => Err(e),
        Ok((op, p)) => if op == OP_END {
            Ok((stack, p, true))
        } else if op == OP_I32_CONST {
            match spec_leb_i32(code, p) {
                Err(e) => Err(e),
                Ok((v, q)) => Ok((stack.push(StackEntry::I32Entry(v)), q, false)),
            }
        } else if op == OP_I64_CONST {
            match spec_leb_i64(code, p) {
                Err(e) => Err(e),
                Ok((v, q)) => Ok((stack.push(StackEntry::I64Entry(v)), q, false)),
            }
        } else if op == OP_F32_CONST {
            match spec_le_u32(code, p) {
                Err(e) => Err(e),
                Ok((v, q)) => Ok((stack.push(StackEntry::F32Entry(v)), q, false)),
            }
        } else if op == OP_F64_CONST {
            match spec_le_u64(code, p) {
                Err(e) => Err(e),
                Ok((v, q)) => Ok((stack.push(StackEntry::F64Entry(v)), q, false)),
            }
        } else if op == OP_GLOBAL_GET {
            match spec_index(code, p) {
                Err(e) => Err(e),
                Ok((i, q)) => if i >= globals.len() {
                    Err(Error::InvalidIndex(IndexSpace::Global))
                } else if globals[i as int].global_type.mutable {
                    Err(Error::Trap(Trap::IllegalInstruction))
                } else {
                    Ok((stack.push(globals[i as int].value), q, false))
                },
            }
        } else {
            Err(Error::Trap(Trap::IllegalInstruction))
        },
    }
}

/// A constant instruction ends behind its first byte and within the code.
pub proof fn lemma_const_step_advances(
    code: Seq<u8>,
    pos: int,
    stack: Seq<StackEntry>,
    globals: Seq<Global>,
)
    ensures
        spec_const_step(code, pos, stack, globals) matches Ok((_, q, _)) ==> 0 <= pos < q
            <= code.len(),
{
    lemma_leb_length_bounds(code, pos + 1, 5);
    lemma_leb_length_bounds(code, pos + 1, 10);
}

/// The stack that the instructions from `pos` up to the closing `end`
/// make of `stack`.
pub open spec fn spec_const_run(
    code: Seq<u8>,
    pos: int,
    stack: Seq<StackEntry>,
    globals: Seq<Global>,
) -> Result<Seq<StackEntry>, Error>
    decreases code.len() - pos,
{
    match spec_const_step(code, pos, stack, globals) {
        Err(e) => Err(e),
        Ok((next, q, done)) => if done {
            Ok(next)
        } else {
            proof {
                lemma_const_step_advances(code, pos, stack, globals);
            }
            spec_const_run(code, q, next, globals)
        },
    }
}

/// The values of a constant expression over the visible globals: what its
/// instructions leave on an empty stack, which must be `arity` values.
pub open spec fn spec_evaluate(
    code: Seq<u8>,
    globals: Seq<Global>,
    arity: nat,
) -> Result<Seq<StackEntry>, Error> {
    match spec_const_run(code, 0, Seq::empty(), globals) {
        Err(e) => Err(e),
        Ok(stack) => if stack.len() != arity {
            Err(Error::TypeMismatch)
        } else {
            Ok(stack)
        },
    }
}

/// Executes one constant instruction. Returns whether it was the closing
/// `end`.
fn const_step(
    reader: &mut Reader,
    stack: &mut Vec<StackEntry>,
    store: &ConstantExpressionStore,
) -> (r: Result<bool, Error>)
    requires
        old(reader).wf(),
    ensures
        final(reader).wf(),
        final(reader).bytes() == old(reader).bytes(),
        match spec_const_step(old(reader).bytes(), old(reader).position(), old(stack)@, store@) {
            Ok((next, q, done)) => r == Ok::<bool, Error>(done) && final(stack)@ == next
                && final(reader).position() == q,
            Err(e) => r == Err::<bool, Error>(e),
        },
{
    let op = reader.read_u8()?;
    if op == OP_END {
        Ok(true)
    } else if op == OP_I32_CONST {
        let v = reader.read_leb_i32()?;
        stack.push(StackEntry::I32Entry(v));
        Ok(false)
    } else if op == OP_I64_CONST {
        let v = reader.read_leb_i64()?;
        stack.push(StackEntry::I64Entry(v));
        Ok(false)
    } else if op == OP_F32_CONST {
        let v = reader.read_le_u32()?;
        stack.push(StackEntry::F32Entry(v));
        Ok(false)
    } else if op == OP_F64_CONST {
        let v = reader.read_le_u64()?;
        stack.push(StackEntry::F64Entry(v));
        Ok(false)
    } else if op == OP_GLOBAL_GET {
        let i = reader.read_index()?;
        let global = store.global_idx(i)?;
        if global.global_type.mutable {
            return Err(Error::Trap(Trap::IllegalInstruction));
        }
        stack.push(global.get());
        Ok(false)
    } else {
        Err(Error::Trap(Trap::IllegalInstruction))
    }
}

/// Evaluates a constant expression against the globals that it may read,
/// and returns its `arity` results.
pub fn evaluate_constant_expression(
    expr: &Expr,
    store: &ConstantExpressionStore,
    arity: usize,
) -> (r: Result<Vec<StackEntry>, Error>)
    ensures
        match spec_evaluate(expr@, store@, arity as nat) {
            Ok(v) => r matches Ok(x) && x@ == v,
            Err(e) => r matches Err(x) && x == e,
        },
{
    let mut reader = Reader::new(expr.code.as_slice());
    let mut stack: Vec<StackEntry> = Vec::new();
    loop
        invariant
            reader.wf(),
            reader.bytes() == expr@,
            spec_const_run(expr@, 0, Seq::empty(), store@) == spec_const_run(
                expr@,
                reader.position(),
                stack@,
                store@,
            ),
        decreases expr@.len() - reader.position(),
    {
        proof {
            lemma_const_step_advances(expr@, reader.position(), stack@, store@);
        }
        let done = const_step(&mut reader, &mut stack, store)?;
        if done {
            if stack.len() != arity {
                return Err(Error::TypeMismatch);
            }
            return Ok(stack);
        }
    }
}

/// An `i32` read as an unsigned size: a negative number stands for itself
/// plus `2^32`.
pub open spec fn offset_of(i: i32) -> usize {
    if i >= 0 {
        i as usize
    } else {
        (i + 0x1_0000_0000) as usize
    }
}

/// The offset that a constant expression gives: its one result, which
/// must be an `i32`, read as an unsigned size.
pub open spec fn spec_offset(code: Seq<u8>, globals: Seq<Global>) -> Result<usize, Error> {
    match spec_evaluate(code, globals, 1) {
        Err(e) => Err(e),
        Ok(values) => match values[0] {
            StackEntry::I32Entry(i) => Ok(offset_of(i)),
            _ => Err(Error::TypeMismatch),
        },
    }
}

/// An `i32` read as an unsigned size.
pub fn offset_from_i32(i: i32) -> (r: usize)
    ensures
        r == offset_of(i),
{
    if i >= 0 {
        i as usize
    } else {
        (i as i64 + 0x1_0000_0000) as usize
    }
}

} // verus!
