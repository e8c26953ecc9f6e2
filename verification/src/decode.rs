//! The decoders of the values that sections are made of.
//!
//! `Decode::parse` is the grammar: a spec function from bytes and a position
//! to the value that stands there and the position behind it.
//! `Decode::decode` is the executable decoder, proved to agree with it.

use vstd::prelude::*;
use crate::error::Error;
use crate::error::Malformed;
use crate::reader::decoded;
use crate::reader::decoded_plain;
use crate::reader::lemma_leb_length_bounds;
use crate::reader::spec_bytes;
use crate::reader::spec_leb_i32;
use crate::reader::spec_leb_i64;
use crate::reader::spec_name;
use crate::reader::spec_index;
use crate::reader::spec_leb_u32;
use crate::reader::spec_u8;
use crate::reader::Reader;
use crate::types::Data;
use crate::types::DataView;
use crate::types::Element;
use crate::types::ElementView;
use crate::types::Export;
use crate::types::ExportDesc;
use crate::types::ExportView;
use crate::types::Expr;
use crate::types::Func;
use crate::types::FuncType;
use crate::types::FuncTypeView;
use crate::types::FuncView;
use crate::types::GlobalDef;
use crate::types::GlobalDefView;
use crate::types::GlobalType;
use crate::types::Import;
use crate::types::ImportDesc;
use crate::types::ImportView;
use crate::types::Local;
use crate::types::MemType;
use crate::types::TableType;
use crate::types::ValType;

verus! {

/// A value with a place in the binary format.
pub trait Decode: Sized + DeepView {
    /// The value that is encoded at `pos`, and the position behind it.
    spec fn parse(bytes: Seq<u8>, pos: int) -> Result<(<Self as DeepView>::V, int), Error>;

    /// Decodes one value and moves the reader behind it.
    fn decode(reader: &mut Reader) -> (r: Result<Self, Error>)
        requires
            old(reader).wf(),
        ensures
            final(reader).wf(),
            final(reader).bytes() == old(reader).bytes(),
            decoded(
                r,
                final(reader).position(),
                Self::parse(old(reader).bytes(), old(reader).position()),
            ),
    ;
}

/// The first `n` values of one kind from `pos` on.
pub open spec fn parse_items<T: Decode>(
    bytes: Seq<u8>,
    pos: int,
    n: nat,
) -> Result<(Seq<<T as DeepView>::V>, int), Error>
    decreases n,
{
    if n == 0 {
        Ok((Seq::empty(), pos))
    } else {
        match parse_items::<T>(bytes, pos, (n - 1) as nat) {
            Err(e) => Err(e),
            Ok((items, p)) => match T::parse(bytes, p) {
                Err(e) => Err(e),
                Ok((item, q)) => Ok((items.push(item), q)),
            },
        }
    }
}

/// A vector: a count, then that many values.
pub open spec fn parse_vec<T: Decode>(
    bytes: Seq<u8>,
    pos: int,
) -> Result<(Seq<<T as DeepView>::V>, int), Error> {
    match spec_leb_u32(bytes, pos) {
        Err(e) => Err(e),
        Ok((n, p)) => parse_items::<T>(bytes, p, n as nat),
    }
}

/// Once a value fails to decode, every longer run fails in the same way.
pub proof fn lemma_items_fail<T: Decode>(bytes: Seq<u8>, pos: int, k: nat, n: nat)
    requires
        k <= n,
        parse_items::<T>(bytes, pos, k) is Err,
    ensures
        parse_items::<T>(bytes, pos, n) == parse_items::<T>(bytes, pos, k),
    decreases n,
{
    if k < n {
        lemma_items_fail::<T>(bytes, pos, k, (n - 1) as nat);
    }
}

/// Reads a vector: a count, then that many values.
pub fn read_vec<T: Decode>(reader: &mut Reader) -> (r: Result<Vec<T>, Error>)
    requires
        old(reader).wf(),
    ensures
        final(reader).wf(),
        final(reader).bytes() == old(reader).bytes(),
        decoded(
            r,
            final(reader).position(),
            parse_vec::<T>(old(reader).bytes(), old(reader).position()),
        ),
{
    let ghost bytes = reader.bytes();
    let n = reader.read_leb_u32()?;
    let ghost first = reader.position();
    let mut items: Vec<T> = Vec::new();
    let mut i: u32 = 0;
    assert(items.deep_view() =~= Seq::<<T as DeepView>::V>::empty());
    while i < n
        invariant
            reader.wf(),
            reader.bytes() == bytes,
            bytes == old(reader).bytes(),
            parse_vec::<T>(old(reader).bytes(), old(reader).position()) == parse_items::<T>(
                bytes,
                first,
                n as nat,
            ),
            i <= n,
            parse_items::<T>(bytes, first, i as nat) == Ok::<
                (Seq<<T as DeepView>::V>, int),
                Error,
            >((items.deep_view(), reader.position())),
        decreases n - i,
    {
        let ghost before = items.deep_view();
        match T::decode(reader) {
            Err(e) => {
                proof {
                    lemma_items_fail::<T>(bytes, first, (i + 1) as nat, n as nat);
                }
                return Err(e);
            },
            Ok(item) => {
                let ghost v = item.deep_view();
                items.push(item);
                assert(items.deep_view() =~= before.push(v));
            },
        }
        i += 1;
    }
    Ok(items)
}

impl Decode for usize {
    open spec fn parse(bytes: Seq<u8>, pos: int) -> Result<(usize, int), Error> {
        spec_index(bytes, pos)
    }

    fn decode(reader: &mut Reader) -> (r: Result<Self, Error>) {
        reader.read_index()
    }
}

/// The value kind that a byte names.
pub open spec fn val_type_of(b: u8) -> Option<ValType> {
    if b == 0x7f {
        Some(ValType::I32)
    } else if b == 0x7e {
        Some(ValType::I64)
    } else if b == 0x7d {
        Some(ValType::F32)
    } else if b == 0x7c {
        Some(ValType::F64)
    } else {
        None
    }
}

impl Decode for ValType {
    open spec fn parse(bytes: Seq<u8>, pos: int) -> Result<(ValType, int), Error> {
        match spec_u8(bytes, pos) {
            Err(e) => Err(e),
            Ok((b, q)) => match val_type_of(b) {
                Some(t) => Ok((t, q)),
                None => Err(Error::MalformedBinary(Malformed::InvalidValueType)),
            },
        }
    }

    fn decode(reader: &mut Reader) -> (r: Result<Self, Error>) {
        let b = reader.read_u8()?;
        if b == 0x7f {
            Ok(ValType::I32)
        } else if b == 0x7e {
            Ok(ValType::I64)
        } else if b == 0x7d {
            Ok(ValType::F32)
        } else if b == 0x7c {
            Ok(ValType::F64)
        } else {
            Err(Error::MalformedBinary(Malformed::InvalidValueType))
        }
    }
}

impl Decode for FuncType {
    /// `0x60`, the parameter kinds, the result kinds.
    open spec fn parse(bytes: Seq<u8>, pos: int) -> Result<(FuncTypeView, int), Error> {
        match spec_u8(bytes, pos) {
            Err(e) => Err(e),
            Ok((tag, p)) => if tag != 0x60 {
                Err(Error::MalformedBinary(Malformed::InvalidFunctionType))
            } else {
                match parse_vec::<ValType>(bytes, p) {
                    Err(e) => Err(e),
                    Ok((params, q)) => match parse_vec::<ValType>(bytes, q) {
                        Err(e) => Err(e),
                        Ok((results, end)) => Ok((FuncTypeView { params, results }, end)),
                    },
                }
            },
        }
    }

    fn decode(reader: &mut Reader) -> (r: Result<Self, Error>) {
        let tag = reader.read_u8()?;
        if tag != 0x60 {
            return Err(Error::MalformedBinary(Malformed::InvalidFunctionType));
        }
        let params = read_vec::<ValType>(reader)?;
        let results = read_vec::<ValType>(reader)?;
        assert(params.deep_view() =~= params@);
        assert(results.deep_view() =~= results@);
        Ok(FuncType { params, results })
    }
}

/// Limits: a flag, the minimum, and after flag 1 the maximum.
pub open spec fn parse_limits(bytes: Seq<u8>, pos: int) -> Result<((u32, Option<u32>), int), Error> {
    match spec_u8(bytes, pos) {
        Err(e) => Err(e),
        Ok((flag, p)) => if flag > 1 {
            Err(Error::MalformedBinary(Malformed::InvalidLimits))
        } else {
            match spec_leb_u32(bytes, p) {
                Err(e) => Err(e),
                Ok((min, q)) => if flag == 0 {
                    Ok(((min, None), q))
                } else {
                    match spec_leb_u32(bytes, q) {
                        Err(e) => Err(e),
                        Ok((max, end)) => Ok(((min, Some(max)), end)),
                    }
                },
            }
        },
    }
}

/// Reads limits.
pub fn read_limits(reader: &mut Reader) -> (r: Result<(u32, Option<u32>), Error>)
    requires
        old(reader).wf(),
    ensures
        final(reader).wf(),
        final(reader).bytes() == old(reader).bytes(),
        decoded_plain(
            r,
            final(reader).position(),
            parse_limits(old(reader).bytes(), old(reader).position()),
        ),
{
    let flag = reader.read_u8()?;
    if flag > 1 {
        return Err(Error::MalformedBinary(Malformed::InvalidLimits));
    }
    let min = reader.read_leb_u32()?;
    if flag == 0 {
        Ok((min, None))
    } else {
        let max = reader.read_leb_u32()?;
        Ok((min, Some(max)))
    }
}

impl Decode for TableType {
    /// `0x70` for funcref, then the limits.
    open spec fn parse(bytes: Seq<u8>, pos: int) -> Result<(TableType, int), Error> {
        match spec_u8(bytes, pos) {
            Err(e) => Err(e),
            Ok((kind, p)) => if kind != 0x70 {
                Err(Error::MalformedBinary(Malformed::InvalidElementType))
            } else {
                match parse_limits(bytes, p) {
                    Err(e) => Err(e),
                    Ok(((min, max), q)) => Ok((TableType { min, max }, q)),
                }
            },
        }
    }

    fn decode(reader: &mut Reader) -> (r: Result<Self, Error>) {
        let kind = reader.read_u8()?;
        if kind != 0x70 {
            return Err(Error::MalformedBinary(Malformed::InvalidElementType));
        }
        let (min, max) = read_limits(reader)?;
        Ok(TableType { min, max })
    }
}

impl Decode for MemType {
    /// The limits, in pages.
    open spec fn parse(bytes: Seq<u8>, pos: int) -> Result<(MemType, int), Error> {
        match parse_limits(bytes, pos) {
            Err(e) => Err(e),
            Ok(((min, max), q)) => Ok((MemType { min, max }, q)),
        }
    }

    fn decode(reader: &mut Reader) -> (r: Result<Self, Error>) {
        let (min, max) = read_limits(reader)?;
        Ok(MemType { min, max })
    }
}

impl Decode for GlobalType {
    /// The value kind, then 0 for a constant and 1 for a variable.
    open spec fn parse(bytes: Seq<u8>, pos: int) -> Result<(GlobalType, int), Error> {
        match ValType::parse(bytes, pos) {
            Err(e) => Err(e),
            Ok((val_type, p)) => match spec_u8(bytes, p) {
                Err(e) => Err(e),
                Ok((flag, q)) => if flag > 1 {
                    Err(Error::MalformedBinary(Malformed::InvalidMutability))
                } else {
                    Ok((GlobalType { val_type, mutable: flag == 1 }, q))
                },
            },
        }
    }

    fn decode(reader: &mut Reader) -> (r: Result<Self, Error>) {
        let val_type = ValType::decode(reader)?;
        let flag = reader.read_u8()?;
        if flag > 1 {
            return Err(Error::MalformedBinary(Malformed::InvalidMutability));
        }
        Ok(GlobalType { val_type, mutable: flag == 1 })
    }
}

impl Decode for Local {
    /// A count, then the kind of that many locals.
    open spec fn parse(bytes: Seq<u8>, pos: int) -> Result<(Local, int), Error> {
        match spec_leb_u32(bytes, pos) {
            Err(e) => Err(e),
            Ok((count, p)) => match ValType::parse(bytes, p) {
                Err(e) => Err(e),
                Ok((val_type, q)) => Ok((Local { count, val_type }, q)),
            },
        }
    }

    fn decode(reader: &mut Reader) -> (r: Result<Self, Error>) {
        let count = reader.read_leb_u32()?;
        let val_type = ValType::decode(reader)?;
        Ok(Local { count, val_type })
    }
}

/// The opcode that closes an expression.
pub const OP_END: u8 = 0x0b;

/// The opcode of `global.get`.
pub const OP_GLOBAL_GET: u8 = 0x23;

/// The opcode of `i32.const`.
pub const OP_I32_CONST: u8 = 0x41;

/// The opcode of `i64.const`.
pub const OP_I64_CONST: u8 = 0x42;

/// The opcode of `f32.const`.
pub const OP_F32_CONST: u8 = 0x43;

/// The opcode of `f64.const`.
pub const OP_F64_CONST: u8 = 0x44;

/// The number of bytes that the immediate of the constant instruction `op`
/// takes at `pos`. Only the four constants and `global.get` have one.
pub open spec fn const_immediate(bytes: Seq<u8>, op: u8, pos: int) -> Result<nat, Error> {
    if op == OP_I32_CONST {
        match spec_leb_i32(bytes, pos) {
            Err(e) => Err(e),
            Ok((_, q)) => Ok((q - pos) as nat),
        }
    } else if op == OP_I64_CONST {
        match spec_leb_i64(bytes, pos) {
            Err(e) => Err(e),
            Ok((_, q)) => Ok((q - pos) as nat),
        }
    } else if op == OP_F32_CONST {
        match spec_bytes(bytes, pos, 4) {
            Err(e) => Err(e),
            Ok(_) => Ok(4),
        }
    } else if op == OP_F64_CONST {
        match spec_bytes(bytes, pos, 8) {
            Err(e) => Err(e),
            Ok(_) => Ok(8),
        }
    } else if op == OP_GLOBAL_GET {
        match spec_leb_u32(bytes, pos) {
            Err(e) => Err(e),
            Ok((_, q)) => Ok((q - pos) as nat),
        }
    } else {
        Err(Error::MalformedBinary(Malformed::InvalidConstantExpression))
    }
}

/// The immediate of a constant instruction lies within the input.
pub proof fn lemma_const_immediate_bounds(bytes: Seq<u8>, op: u8, pos: int)
    ensures
        const_immediate(bytes, op, pos) matches Ok(n) ==> 0 <= pos && pos + n <= bytes.len(),
{
    lemma_leb_length_bounds(bytes, pos, 5);
    lemma_leb_length_bounds(bytes, pos, 10);
}

/// The position behind the `end` that closes the constant expression at `pos`.
pub open spec fn const_expr_end(bytes: Seq<u8>, pos: int) -> Result<int, Error>
    decreases bytes.len() - pos,
{
    match spec_u8(bytes, pos) {
        Err(e) => Err(e),
        Ok((op, p)) => if op == OP_END {
            Ok(p)
        } else {
            match const_immediate(bytes, op, p) {
                Err(e) => Err(e),
                Ok(n) => {
                    proof {
                        lemma_const_immediate_bounds(bytes, op, p);
                    }
                    const_expr_end(bytes, p + n)
                },
            }
        },
    }
}

/// A constant expression: its instructions up to and with the closing `end`.
pub open spec fn parse_const_expr(bytes: Seq<u8>, pos: int) -> Result<(Seq<u8>, int), Error> {
    match const_expr_end(bytes, pos) {
        Err(e) => Err(e),
        Ok(end) => Ok((bytes.subrange(pos, end), end)),
    }
}

/// Reads over the immediate of the constant instruction `op`.
fn skip_const_immediate(reader: &mut Reader, op: u8) -> (r: Result<(), Error>)
    requires
        old(reader).wf(),
    ensures
        final(reader).wf(),
        final(reader).bytes() == old(reader).bytes(),
        match const_immediate(old(reader).bytes(), op, old(reader).position()) {
            Ok(n) => r is Ok && final(reader).position() == old(reader).position() + n,
            Err(e) => r == Err::<(), Error>(e),
        },
{
    if op == OP_I32_CONST {
        let _ = reader.read_leb_i32()?;
        Ok(())
    } else if op == OP_I64_CONST {
        let _ = reader.read_leb_i64()?;
        Ok(())
    } else if op == OP_F32_CONST {
        reader.skip(4)
    } else if op == OP_F64_CONST {
        reader.skip(8)
    } else if op == OP_GLOBAL_GET {
        let _ = reader.read_leb_u32()?;
        Ok(())
    } else {
        Err(Error::MalformedBinary(Malformed::InvalidConstantExpression))
    }
}

/// Reads a constant expression.
pub fn read_const_expr(reader: &mut Reader) -> (r: Result<Expr, Error>)
    requires
        old(reader).wf(),
    ensures
        final(reader).wf(),
        final(reader).bytes() == old(reader).bytes(),
        decoded(
            r,
            final(reader).position(),
            parse_const_expr(old(reader).bytes(), old(reader).position()),
        ),
{
    let start = reader.offset();
    loop
        invariant
            reader.wf(),
            reader.bytes() == old(reader).bytes(),
            start == old(reader).position(),
            start <= reader.position(),
            const_expr_end(reader.bytes(), start as int) == const_expr_end(
                reader.bytes(),
                reader.position(),
            ),
        decreases reader.bytes().len() - reader.position(),
    {
        let op = reader.read_u8()?;
        if op == OP_END {
            return Ok(Expr { code: reader.copy_since(start) });
        }
        skip_const_immediate(reader, op)?;
    }
}

impl Decode for GlobalDef {
    /// The type, then the initializer.
    open spec fn parse(bytes: Seq<u8>, pos: int) -> Result<(GlobalDefView, int), Error> {
        match GlobalType::parse(bytes, pos) {
            Err(e) => Err(e),
            Ok((global_type, p)) => match parse_const_expr(bytes, p) {
                Err(e) => Err(e),
                Ok((init, q)) => Ok((GlobalDefView { global_type, init }, q)),
            },
        }
    }

    fn decode(reader: &mut Reader) -> (r: Result<Self, Error>) {
        let global_type = GlobalType::decode(reader)?;
        let init = read_const_expr(reader)?;
        Ok(GlobalDef { global_type, init })
    }
}

/// What an import asks for: a tag, then a type index or a type.
pub open spec fn parse_import_desc(bytes: Seq<u8>, pos: int) -> Result<(ImportDesc, int), Error> {
    match spec_u8(bytes, pos) {
        Err(e) => Err(e),
        Ok((tag, p)) => if tag == 0 {
            match spec_index(bytes, p) {
                Err(e) => Err(e),
                Ok((i, q)) => Ok((ImportDesc::TypeIdx(i), q)),
            }
        } else if tag == 1 {
            match TableType::parse(bytes, p) {
                Err(e) => Err(e),
                Ok((t, q)) => Ok((ImportDesc::TableType(t), q)),
            }
        } else if tag == 2 {
            match MemType::parse(bytes, p) {
                Err(e) => Err(e),
                Ok((t, q)) => Ok((ImportDesc::MemType(t), q)),
            }
        } else if tag == 3 {
            match GlobalType::parse(bytes, p) {
                Err(e) => Err(e),
                Ok((t, q)) => Ok((ImportDesc::GlobalType(t), q)),
            }
        } else {
            Err(Error::MalformedBinary(Malformed::InvalidDescriptor))
        },
    }
}

/// Reads what an import asks for.
pub fn read_import_desc(reader: &mut Reader) -> (r: Result<ImportDesc, Error>)
    requires
        old(reader).wf(),
    ensures
        final(reader).wf(),
        final(reader).bytes() == old(reader).bytes(),
        decoded_plain(
            r,
            final(reader).position(),
            parse_import_desc(old(reader).bytes(), old(reader).position()),
        ),
{
    let tag = reader.read_u8()?;
    if tag == 0 {
        let i = reader.read_index()?;
        Ok(ImportDesc::TypeIdx(i))
    } else if tag == 1 {
        let t = TableType::decode(reader)?;
        Ok(ImportDesc::TableType(t))
    } else if tag == 2 {
        let t = MemType::decode(reader)?;
        Ok(ImportDesc::MemType(t))
    } else if tag == 3 {
        let t = GlobalType::decode(reader)?;
        Ok(ImportDesc::GlobalType(t))
    } else {
        Err(Error::MalformedBinary(Malformed::InvalidDescriptor))
    }
}

impl Decode for Import {
    /// The module name, the name, and what is asked for.
    open spec fn parse(bytes: Seq<u8>, pos: int) -> Result<(ImportView, int), Error> {
        match spec_name(bytes, pos) {
            Err(e) => Err(e),
            Ok((mod_name, p)) => match spec_name(bytes, p) {
                Err(e) => Err(e),
                Ok((name, q)) => match parse_import_desc(bytes, q) {
                    Err(e) => Err(e),
                    Ok((desc, end)) => Ok((ImportView { mod_name, name, desc }, end)),
                },
            },
        }
    }

    fn decode(reader: &mut Reader) -> (r: Result<Self, Error>) {
        let mod_name = reader.read_name()?;
        let name = reader.read_name()?;
        let desc = read_import_desc(reader)?;
        Ok(Import { mod_name, name, desc })
    }
}

/// What an export stands for: a tag, then an index.
pub open spec fn parse_export_desc(bytes: Seq<u8>, pos: int) -> Result<(ExportDesc, int), Error> {
    match spec_u8(bytes, pos) {
        Err(e) => Err(e),
        Ok((tag, p)) => if tag > 3 {
            Err(Error::MalformedBinary(Malformed::InvalidDescriptor))
        } else {
            match spec_index(bytes, p) {
                Err(e) => Err(e),
                Ok((i, q)) => Ok(
                    (
                        if tag == 0 {
                            ExportDesc::Func(i)
                        } else if tag == 1 {
                            ExportDesc::Table(i)
                        } else if tag == 2 {
                            ExportDesc::Mem(i)
                        } else {
                            ExportDesc::Global(i)
                        },
                        q,
                    ),
                ),
            }
        },
    }
}

impl Decode for Export {
    /// The name, and what it stands for.
    open spec fn parse(bytes: Seq<u8>, pos: int) -> Result<(ExportView, int), Error> {
        match spec_name(bytes, pos) {
            Err(e) => Err(e),
            Ok((name, p)) => match parse_export_desc(bytes, p) {
                Err(e) => Err(e),
                Ok((desc, q)) => Ok((ExportView { name, desc }, q)),
            },
        }
    }

    fn decode(reader: &mut Reader) -> (r: Result<Self, Error>) {
        let name = reader.read_name()?;
        let tag = reader.read_u8()?;
        if tag > 3 {
            return Err(Error::MalformedBinary(Malformed::InvalidDescriptor));
        }
        let i = reader.read_index()?;
        let desc = if tag == 0 {
            ExportDesc::Func(i)
        } else if tag == 1 {
            ExportDesc::Table(i)
        } else if tag == 2 {
            ExportDesc::Mem(i)
        } else {
            ExportDesc::Global(i)
        };
        Ok(Export { name, desc })
    }
}

impl Decode for Element {
    /// The table index, the offset expression, the function indices.
    open spec fn parse(bytes: Seq<u8>, pos: int) -> Result<(ElementView, int), Error> {
        match spec_index(bytes, pos) {
            Err(e) => Err(e),
            Ok((table_idx, p)) => match parse_const_expr(bytes, p) {
                Err(e) => Err(e),
                Ok((offset, q)) => match parse_vec::<usize>(bytes, q) {
                    Err(e) => Err(e),
                    Ok((func_indices, end)) => Ok(
                        (ElementView { table_idx, offset, func_indices }, end),
                    ),
                },
            },
        }
    }

    fn decode(reader: &mut Reader) -> (r: Result<Self, Error>) {
        let table_idx = reader.read_index()?;
        let offset = read_const_expr(reader)?;
        let func_indices = read_vec::<usize>(reader)?;
        assert(func_indices.deep_view() =~= func_indices@);
        Ok(Element { table_idx, offset, func_indices })
    }
}

impl Decode for Data {
    /// The memory index, the offset expression, a count and that many bytes.
    open spec fn parse(bytes: Seq<u8>, pos: int) -> Result<(DataView, int), Error> {
        match spec_index(bytes, pos) {
            Err(e) => Err(e),
            Ok((mem_idx, p)) => match parse_const_expr(bytes, p) {
                Err(e) => Err(e),
                Ok((offset, q)) => match spec_leb_u32(bytes, q) {
                    Err(e) => Err(e),
                    Ok((n, s)) => match spec_bytes(bytes, s, n as nat) {
                        Err(e) => Err(e),
                        Ok((content, end)) => Ok(
                            (DataView { mem_idx, offset, bytes: content }, end),
                        ),
                    },
                },
            },
        }
    }

    fn decode(reader: &mut Reader) -> (r: Result<Self, Error>) {
        let mem_idx = reader.read_index()?;
        let offset = read_const_expr(reader)?;
        let n = reader.read_leb_u32()?;
        let bytes = reader.read_exact(n as usize)?;
        Ok(Data { mem_idx, offset, bytes })
    }
}

/// A function body, given the bytes that its size prefix spans: the
/// locals, and what is left as the body's instructions.
pub open spec fn parse_func_body(body: Seq<u8>) -> Result<FuncView, Error> {
    match parse_vec::<Local>(body, 0) {
        Err(e) => Err(e),
        Ok((locals, q)) => Ok(FuncView { locals, body: body.subrange(q, body.len() as int) }),
    }
}

impl Decode for Func {
    /// A size, then that many bytes holding the locals and the instructions.
    open spec fn parse(bytes: Seq<u8>, pos: int) -> Result<(FuncView, int), Error> {
        match spec_leb_u32(bytes, pos) {
            Err(e) => Err(e),
            Ok((size, p)) => match spec_bytes(bytes, p, size as nat) {
                Err(e) => Err(e),
                Ok((body, end)) => match parse_func_body(body) {
                    Err(e) => Err(e),
                    Ok(func) => Ok((func, end)),
                },
            },
        }
    }

    fn decode(reader: &mut Reader) -> (r: Result<Self, Error>) {
        let size = reader.read_leb_u32()?;
        let mut body = reader.scoped(size as usize)?;
        let locals = read_vec::<Local>(&mut body)?;
        assert(locals.deep_view() =~= locals@);
        let code = body.read_rest();
        Ok(Func { locals, body: Expr { code } })
    }
}

} // verus!
