//! The static description of a module, and its decoder: the header check,
//! the framing of sections, and the order in which sections may come.

use vstd::prelude::*;
use crate::decode::parse_vec;
use crate::decode::read_vec;
use crate::error::Error;
use crate::error::Malformed;
use crate::reader::eof;
use crate::reader::lemma_leb_length_bounds;
use crate::reader::spec_index;
use crate::reader::spec_leb_u32;
use crate::reader::spec_name;
use crate::reader::spec_u8;
use crate::reader::Reader;
use crate::types::Data;
use crate::types::DataView;
use crate::types::Element;
use crate::types::ElementView;
use crate::types::Export;
use crate::types::ExportView;
use crate::types::Func;
use crate::types::FuncType;
use crate::types::FuncTypeView;
use crate::types::FuncView;
use crate::types::GlobalDef;
use crate::types::GlobalDefView;
use crate::types::Import;
use crate::types::ImportView;
use crate::types::MemType;
use crate::types::TableType;

verus! {

/// A fully parsed, inert description of a module.
#[derive(Debug, PartialEq, Eq)]
pub struct RawModule {
    pub types: Vec<FuncType>,
    pub typeidx: Vec<usize>,
    pub funcs: Vec<Func>,
    pub tables: Vec<TableType>,
    pub mems: Vec<MemType>,
    pub globals: Vec<GlobalDef>,
    pub elem: Vec<Element>,
    pub data: Vec<Data>,
    pub start: Option<usize>,
    pub imports: Vec<Import>,
    pub exports: Vec<Export>,
}

/// The mathematical value of a `RawModule`.
#[verifier::ext_equal]
pub struct RawModuleView {
    pub types: Seq<FuncTypeView>,
    pub typeidx: Seq<usize>,
    pub funcs: Seq<FuncView>,
    pub tables: Seq<TableType>,
    pub mems: Seq<MemType>,
    pub globals: Seq<GlobalDefView>,
    pub elem: Seq<ElementView>,
    pub data: Seq<DataView>,
    pub start: Option<usize>,
    pub imports: Seq<ImportView>,
    pub exports: Seq<ExportView>,
}

impl RawModuleView {
    /// The module without any section.
    pub open spec fn empty() -> RawModuleView {
        RawModuleView {
            types: Seq::empty(),
            typeidx: Seq::empty(),
            funcs: Seq::empty(),
            tables: Seq::empty(),
            mems: Seq::empty(),
            globals: Seq::empty(),
            elem: Seq::empty(),
            data: Seq::empty(),
            start: None,
            imports: Seq::empty(),
            exports: Seq::empty(),
        }
    }
}

impl View for RawModule {
    type V = RawModuleView;

    open spec fn view(&self) -> RawModuleView {
        RawModuleView {
            types: self.types.deep_view(),
            typeidx: self.typeidx.deep_view(),
            funcs: self.funcs.deep_view(),
            tables: self.tables.deep_view(),
            mems: self.mems.deep_view(),
            globals: self.globals.deep_view(),
            elem: self.elem.deep_view(),
            data: self.data.deep_view(),
            start: self.start,
            imports: self.imports.deep_view(),
            exports: self.exports.deep_view(),
        }
    }
}

impl RawModule {
    /// A description made of the given parts.
    pub fn new(
        types: Vec<FuncType>,
        typeidx: Vec<usize>,
        funcs: Vec<Func>,
        tables: Vec<TableType>,
        mems: Vec<MemType>,
        globals: Vec<GlobalDef>,
        elem: Vec<Element>,
        data: Vec<Data>,
        start: Option<usize>,
        imports: Vec<Import>,
        exports: Vec<Export>,
    ) -> (r: Self)
        ensures
            r@ == (RawModuleView {
                types: types.deep_view(),
                typeidx: typeidx.deep_view(),
                funcs: funcs.deep_view(),
                tables: tables.deep_view(),
                mems: mems.deep_view(),
                globals: globals.deep_view(),
                elem: elem.deep_view(),
                data: data.deep_view(),
                start: start,
                imports: imports.deep_view(),
                exports: exports.deep_view(),
            }),
    {
        RawModule { types, typeidx, funcs, tables, mems, globals, elem, data, start, imports, exports }
    }

    /// Decodes a binary module: the header, then the sections in their
    /// canonical order, with custom sections skipped wherever they stand.
    pub fn read(bytes: &[u8]) -> (r: Result<RawModule, Error>)
        ensures
            match spec_read(bytes@) {
                Ok(v) => r matches Ok(m) && m@ == v,
                Err(e) => r matches Err(x) && x == e,
            },
            !has_header(bytes@) ==> r matches Err(Error::MalformedBinary(_)),
    {
        let mut reader = Reader::new(bytes);
        if reader.remaining() < 8 {
            return Err(Error::MalformedBinary(Malformed::UnexpectedEof));
        }
        if bytes[0] != 0x00 || bytes[1] != 0x61 || bytes[2] != 0x73 || bytes[3] != 0x6d || bytes[4]
            != 0x01 || bytes[5] != 0x00 || bytes[6] != 0x00 || bytes[7] != 0x00 {
            return Err(Error::MalformedBinary(Malformed::InvalidHeader));
        }
        reader.skip(8)?;
        let mut expected: u8 = SECTION_TYPE;
        let mut builder = ModuleBuilder::new();
        while !reader.is_at_end()
            invariant
                reader.wf(),
                reader.bytes() == bytes@,
                has_header(bytes@),
                SECTION_TYPE <= expected <= SECTION_DATA,
                spec_sections(bytes@, 8, SECTION_TYPE, RawModuleView::empty()) == spec_sections(
                    bytes@,
                    reader.position(),
                    expected,
                    builder@,
                ),
            decreases bytes@.len() - reader.position(),
        {
            proof {
                lemma_section_advances(bytes@, reader.position(), expected, builder@);
            }
            expected = builder.read_section(&mut reader, expected)?;
        }
        builder.make_module()
    }
}

/// The id of custom sections.
pub const SECTION_CUSTOM: u8 = 0;

/// The id of the type section, the first in canonical order.
pub const SECTION_TYPE: u8 = 1;

/// The id of the import section.
pub const SECTION_IMPORT: u8 = 2;

/// The id of the function section.
pub const SECTION_FUNCTION: u8 = 3;

/// The id of the table section.
pub const SECTION_TABLE: u8 = 4;

/// The id of the memory section.
pub const SECTION_MEMORY: u8 = 5;

/// The id of the global section.
pub const SECTION_GLOBAL: u8 = 6;

/// The id of the export section.
pub const SECTION_EXPORT: u8 = 7;

/// The id of the start section.
pub const SECTION_START: u8 = 8;

/// The id of the element section.
pub const SECTION_ELEMENT: u8 = 9;

/// The id of the code section.
pub const SECTION_CODE: u8 = 10;

/// The id of the data section, the last in canonical order.
pub const SECTION_DATA: u8 = 11;

/// Whether `bytes` starts with the magic number and version 1.
pub open spec fn has_header(bytes: Seq<u8>) -> bool {
    &&& bytes.len() >= 8
    &&& bytes[0] == 0x00
    &&& bytes[1] == 0x61
    &&& bytes[2] == 0x73
    &&& bytes[3] == 0x6d
    &&& bytes[4] == 0x01
    &&& bytes[5] == 0x00
    &&& bytes[6] == 0x00
    &&& bytes[7] == 0x00
}

/// The frame of a section: its id and where its payload starts and ends.
pub struct Frame {
    pub id: u8,
    pub start: int,
    pub end: int,
}

/// The frame of the section at `pos`: an id of at most 11, then the
/// payload's length.
pub open spec fn spec_frame(bytes: Seq<u8>, pos: int) -> Result<Frame, Error> {
    match spec_u8(bytes, pos) {
        Err(e) => Err(e),
        Ok((id, p)) => if id > SECTION_DATA {
            Err(Error::MalformedBinary(Malformed::UnknownSection))
        } else {
            match spec_leb_u32(bytes, p) {
                Err(e) => Err(e),
                Ok((length, start)) => Ok(Frame { id, start, end: start + length }),
            }
        },
    }
}

/// A frame's payload starts behind the frame's first byte.
pub proof fn lemma_frame_advances(bytes: Seq<u8>, pos: int)
    ensures
        spec_frame(bytes, pos) matches Ok(f) ==> 0 <= pos < f.start <= f.end && f.start
            <= bytes.len(),
{
    lemma_leb_length_bounds(bytes, pos + 1, 5);
}

/// What the section `id` with the given payload makes of the module read
/// so far, and how much of the payload was decoded. A custom section is a
/// name and bytes that are passed over; a section that comes again
/// replaces what it held before.
#[verifier::opaque]
pub open spec fn spec_payload(
    id: u8,
    payload: Seq<u8>,
    acc: RawModuleView,
) -> Result<(RawModuleView, int), Error> {
    if id == SECTION_CUSTOM {
        match spec_name(payload, 0) {
            Err(e) => Err(e),
            Ok(_) => Ok((acc, payload.len() as int)),
        }
    } else if id == SECTION_TYPE {
        match parse_vec::<FuncType>(payload, 0) {
            Err(e) => Err(e),
            Ok((v, q)) => Ok((RawModuleView { types: v, ..acc }, q)),
        }
    } else if id == SECTION_IMPORT {
        match parse_vec::<Import>(payload, 0) {
            Err(e) => Err(e),
            Ok((v, q)) => Ok((RawModuleView { imports: v, ..acc }, q)),
        }
    } else if id == SECTION_FUNCTION {
        match parse_vec::<usize>(payload, 0) {
            Err(e) => Err(e),
            Ok((v, q)) => Ok((RawModuleView { typeidx: v, ..acc }, q)),
        }
    } else if id == SECTION_TABLE {
        match parse_vec::<TableType>(payload, 0) {
            Err(e) => Err(e),
            Ok((v, q)) => Ok((RawModuleView { tables: v, ..acc }, q)),
        }
    } else if id == SECTION_MEMORY {
        match parse_vec::<MemType>(payload, 0) {
            Err(e) => Err(e),
            Ok((v, q)) => Ok((RawModuleView { mems: v, ..acc }, q)),
        }
    } else if id == SECTION_GLOBAL {
        match parse_vec::<GlobalDef>(payload, 0) {
            Err(e) => Err(e),
            Ok((v, q)) => Ok((RawModuleView { globals: v, ..acc }, q)),
        }
    } else if id == SECTION_EXPORT {
        match parse_vec::<Export>(payload, 0) {
            Err(e) => Err(e),
            Ok((v, q)) => Ok((RawModuleView { exports: v, ..acc }, q)),
        }
    } else if id == SECTION_START {
        match spec_index(payload, 0) {
            Err(e) => Err(e),
            Ok((v, q)) => Ok((RawModuleView { start: Some(v), ..acc }, q)),
        }
    } else if id == SECTION_ELEMENT {
        match parse_vec::<Element>(payload, 0) {
            Err(e) => Err(e),
            Ok((v, q)) => Ok((RawModuleView { elem: v, ..acc }, q)),
        }
    } else if id == SECTION_CODE {
        match parse_vec::<Func>(payload, 0) {
            Err(e) => Err(e),
            Ok((v, q)) => Ok((RawModuleView { funcs: v, ..acc }, q)),
        }
    } else {
        match parse_vec::<Data>(payload, 0) {
            Err(e) => Err(e),
            Ok((v, q)) => Ok((RawModuleView { data: v, ..acc }, q)),
        }
    }
}

/// What the section at `pos` makes of `acc`: the module with the section
/// in it, the position behind the section, and the id that the next
/// section is held against. The last section that was not custom had the
/// id `expected` (1 before any): one that is not custom and has a smaller
/// id is out of order. A payload that is not decoded to its end is an
/// error.
#[verifier::opaque]
pub open spec fn spec_section(
    bytes: Seq<u8>,
    pos: int,
    expected: u8,
    acc: RawModuleView,
) -> Result<(RawModuleView, int, u8), Error> {
    match spec_frame(bytes, pos) {
        Err(e) => Err(e),
        Ok(f) => if f.id != SECTION_CUSTOM && f.id < expected {
            Err(Error::InvalidSectionOrder)
        } else if f.end > bytes.len() {
            Err(eof())
        } else {
            match spec_payload(f.id, bytes.subrange(f.start, f.end), acc) {
                Err(e) => Err(e),
                Ok((next, q)) => if q != f.end - f.start {
                    Err(Error::MalformedBinary(Malformed::SectionNotConsumed))
                } else {
                    Ok(
                        (
                            next,
                            f.end,
                            if f.id == SECTION_CUSTOM {
                                expected
                            } else {
                                f.id
                            },
                        ),
                    )
                },
            }
        },
    }
}

/// A section ends behind its first byte and within the input, and the id
/// that it leaves is one of the eleven.
pub proof fn lemma_section_advances(bytes: Seq<u8>, pos: int, expected: u8, acc: RawModuleView)
    ensures
        spec_section(bytes, pos, expected, acc) matches Ok((_, end, next)) ==> pos < end
            <= bytes.len() && (spec_frame(bytes, pos) matches Ok(f) && f.end == end) && (
        SECTION_TYPE <= expected <= SECTION_DATA ==> SECTION_TYPE <= next <= SECTION_DATA),
{
    reveal(spec_section);
    lemma_frame_advances(bytes, pos);
}

/// The module that the sections from `pos` on make of `acc`.
pub open spec fn spec_sections(
    bytes: Seq<u8>,
    pos: int,
    expected: u8,
    acc: RawModuleView,
) -> Result<RawModuleView, Error>
    decreases bytes.len() - pos,
{
    if pos >= bytes.len() {
        Ok(acc)
    } else {
        match spec_section(bytes, pos, expected, acc) {
            Err(e) => Err(e),
            Ok((next, end, id)) => {
                proof {
                    lemma_section_advances(bytes, pos, expected, acc);
                }
                spec_sections(bytes, end, id, next)
            },
        }
    }
}

/// What the end of the input makes of the sections read: the function
/// section and the code section must agree in length.
pub open spec fn spec_finish(acc: RawModuleView) -> Result<RawModuleView, Error> {
    if acc.typeidx.len() != acc.funcs.len() {
        Err(Error::MalformedBinary(Malformed::FunctionCountMismatch))
    } else {
        Ok(acc)
    }
}

/// The module that `bytes` encodes, or the first error in them.
pub open spec fn spec_read(bytes: Seq<u8>) -> Result<RawModuleView, Error> {
    if bytes.len() < 8 {
        Err(eof())
    } else if !has_header(bytes) {
        Err(Error::MalformedBinary(Malformed::InvalidHeader))
    } else {
        match spec_sections(bytes, 8, SECTION_TYPE, RawModuleView::empty()) {
            Err(e) => Err(e),
            Ok(acc) => spec_finish(acc),
        }
    }
}

/// Collects the sections of a module as they are decoded.
pub struct ModuleBuilder {
    module: RawModule,
}

impl View for ModuleBuilder {
    type V = RawModuleView;

    closed spec fn view(&self) -> RawModuleView {
        self.module@
    }
}

impl ModuleBuilder {
    /// A builder that has seen no section.
    pub fn new() -> (r: Self)
        ensures
            r@ == RawModuleView::empty(),
    {
        let module = RawModule {
            types: Vec::new(),
            typeidx: Vec::new(),
            funcs: Vec::new(),
            tables: Vec::new(),
            mems: Vec::new(),
            globals: Vec::new(),
            elem: Vec::new(),
            data: Vec::new(),
            start: None,
            imports: Vec::new(),
            exports: Vec::new(),
        };
        assert(module@ =~= RawModuleView::empty());
        ModuleBuilder { module }
    }

    /// Reads the id that a section starts with.
    pub fn read_next_section_header(reader: &mut Reader) -> (r: Result<u8, Error>)
        requires
            old(reader).wf(),
        ensures
            final(reader).wf(),
            final(reader).bytes() == old(reader).bytes(),
            match spec_u8(old(reader).bytes(), old(reader).position()) {
                Err(e) => r == Err::<u8, Error>(e),
                Ok((id, p)) => if id > SECTION_DATA {
                    r == Err::<u8, Error>(Error::MalformedBinary(Malformed::UnknownSection))
                } else {
                    r == Ok::<u8, Error>(id) && final(reader).position() == p
                },
            },
    {
        let id = reader.read_u8()?;
        if id > SECTION_DATA {
            return Err(Error::MalformedBinary(Malformed::UnknownSection));
        }
        Ok(id)
    }

    /// Decodes the payload of the section `id` from a reader that spans
    /// just that payload, and stores what it holds.
    pub fn process_section(&mut self, id: u8, reader: &mut Reader) -> (r: Result<(), Error>)
        requires
            old(reader).wf(),
            old(reader).position() == 0,
            id <= SECTION_DATA,
        ensures
            final(reader).wf(),
            final(reader).bytes() == old(reader).bytes(),
            match spec_payload(id, old(reader).bytes(), old(self)@) {
                Ok((next, q)) => r is Ok && final(self)@ == next && final(reader).position() == q,
                Err(e) => r == Err::<(), Error>(e),
            },
    {
        reveal(spec_payload);
        if id == SECTION_CUSTOM {
            let _ = reader.read_name()?;
            let _ = reader.read_rest();
        } else if id == SECTION_TYPE {
            self.module.types = read_vec::<FuncType>(reader)?;
        } else if id == SECTION_IMPORT {
            self.module.imports = read_vec::<Import>(reader)?;
        } else if id == SECTION_FUNCTION {
            self.module.typeidx = read_vec::<usize>(reader)?;
        } else if id == SECTION_TABLE {
            self.module.tables = read_vec::<TableType>(reader)?;
        } else if id == SECTION_MEMORY {
            self.module.mems = read_vec::<MemType>(reader)?;
        } else if id == SECTION_GLOBAL {
            self.module.globals = read_vec::<GlobalDef>(reader)?;
        } else if id == SECTION_EXPORT {
            self.module.exports = read_vec::<Export>(reader)?;
        } else if id == SECTION_START {
            self.module.start = Some(reader.read_index()?);
        } else if id == SECTION_ELEMENT {
            self.module.elem = read_vec::<Element>(reader)?;
        } else if id == SECTION_CODE {
            self.module.funcs = read_vec::<Func>(reader)?;
        } else {
            self.module.data = read_vec::<Data>(reader)?;
        }
        Ok(())
    }

    /// Reads one section and stores what it holds. Returns the id that the
    /// next section is held against.
    pub fn read_section(&mut self, reader: &mut Reader, expected: u8) -> (r: Result<u8, Error>)
        requires
            old(reader).wf(),
        ensures
            final(reader).wf(),
            final(reader).bytes() == old(reader).bytes(),
            match spec_section(old(reader).bytes(), old(reader).position(), expected, old(self)@) {
                Ok((next, end, id)) => r == Ok::<u8, Error>(id) && final(self)@ == next
                    && final(reader).position() == end,
                Err(e) => r == Err::<u8, Error>(e),
            },
    {
        reveal(spec_section);
        let id = Self::read_next_section_header(reader)?;
        let length = reader.read_leb_u32()?;
        if id != SECTION_CUSTOM && id < expected {
            return Err(Error::InvalidSectionOrder);
        }
        let mut section = reader.scoped(length as usize)?;
        self.process_section(id, &mut section)?;
        if !section.is_at_end() {
            return Err(Error::MalformedBinary(Malformed::SectionNotConsumed));
        }
        if id != SECTION_CUSTOM {
            Ok(id)
        } else {
            Ok(expected)
        }
    }

    /// The module that the sections made, once the input has ended.
    pub fn make_module(self) -> (r: Result<RawModule, Error>)
        ensures
            match spec_finish(self@) {
                Ok(v) => r matches Ok(m) && m@ == v,
                Err(e) => r matches Err(x) && x == e,
            },
    {
        if self.module.typeidx.len() != self.module.funcs.len() {
            return Err(Error::MalformedBinary(Malformed::FunctionCountMismatch));
        }
        Ok(self.module)
    }
}

} // verus!
