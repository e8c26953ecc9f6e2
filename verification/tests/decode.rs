use wasm_core::decode::read_const_expr;
use wasm_core::error::Error;
use wasm_core::error::Malformed;
use wasm_core::raw_module::RawModule;
use wasm_core::reader::Reader;
use wasm_core::types::ExportDesc;
use wasm_core::types::ImportDesc;
use wasm_core::types::Local;
use wasm_core::types::MemType;
use wasm_core::types::TableType;
use wasm_core::types::ValType;

const MAGIC: [u8; 8] = [0x00, 0x61, 0x73, 0x6d, 0x01, 0x00, 0x00, 0x00];

fn leb_u32(mut v: u32) -> Vec<u8> {
    let mut out = Vec::new();
    loop {
        let b = (v & 0x7f) as u8;
        v >>= 7;
        if v == 0 {
            out.push(b);
            return out;
        }
        out.push(b | 0x80);
    }
}

fn name(s: &str) -> Vec<u8> {
    let mut out = leb_u32(s.len() as u32);
    out.extend_from_slice(s.as_bytes());
    out
}

fn section(id: u8, payload: &[u8]) -> Vec<u8> {
    let mut out = vec![id];
    out.extend(leb_u32(payload.len() as u32));
    out.extend_from_slice(payload);
    out
}

fn module(sections: &[Vec<u8>]) -> Vec<u8> {
    let mut out = MAGIC.to_vec();
    for s in sections {
        out.extend_from_slice(s);
    }
    out
}

fn malformed(bytes: &[u8]) -> Malformed {
    match RawModule::read(bytes) {
        Err(Error::MalformedBinary(m)) => m,
        other => panic!("expected a malformed binary, got {:?}", other),
    }
}

fn type_section() -> Vec<u8> {
    // one signature: (i32) -> i32
    section(1, &[0x01, 0x60, 0x01, 0x7f, 0x01, 0x7f])
}

fn memory_section() -> Vec<u8> {
    section(5, &[0x01, 0x00, 0x01])
}

fn import_section() -> Vec<u8> {
    let mut payload = vec![0x01];
    payload.extend(name("env"));
    payload.extend(name("f"));
    payload.extend([0x00, 0x00]);
    section(2, &payload)
}

#[test]
fn empty_module_decodes() {
    let module = RawModule::read(&MAGIC).unwrap();
    assert!(module.types.is_empty());
    assert!(module.typeidx.is_empty());
    assert!(module.funcs.is_empty());
    assert!(module.tables.is_empty());
    assert!(module.mems.is_empty());
    assert!(module.globals.is_empty());
    assert!(module.elem.is_empty());
    assert!(module.data.is_empty());
    assert!(module.start.is_none());
    assert!(module.imports.is_empty());
    assert!(module.exports.is_empty());
}

#[test]
fn bad_magic_is_an_invalid_header() {
    let bytes = [0x00u8, 0x61, 0x73, 0x6d, 0x02, 0x00, 0x00, 0x00];
    assert_eq!(malformed(&bytes), Malformed::InvalidHeader);
    let bytes = [0x7fu8, 0x45, 0x4c, 0x46, 0x01, 0x00, 0x00, 0x00, 0x01, 0x00];
    assert_eq!(malformed(&bytes), Malformed::InvalidHeader);
}

#[test]
fn short_input_is_an_unexpected_end() {
    assert_eq!(malformed(&[]), Malformed::UnexpectedEof);
    assert_eq!(malformed(&MAGIC[..7]), Malformed::UnexpectedEof);
}

#[test]
fn bad_section_order_is_rejected() {
    let bytes = module(&[type_section(), memory_section(), import_section()]);
    assert_eq!(RawModule::read(&bytes), Err(Error::InvalidSectionOrder));
}

#[test]
fn only_the_canonical_permutation_is_accepted() {
    let sections = [type_section(), import_section(), memory_section()];
    let orders = [[0, 1, 2], [0, 2, 1], [1, 0, 2], [1, 2, 0], [2, 0, 1], [2, 1, 0]];
    for order in orders {
        let bytes = module(&[
            sections[order[0]].clone(),
            sections[order[1]].clone(),
            sections[order[2]].clone(),
        ]);
        let decoded = RawModule::read(&bytes);
        if order == [0, 1, 2] {
            assert!(decoded.is_ok());
        } else {
            assert_eq!(decoded, Err(Error::InvalidSectionOrder));
        }
    }
}

#[test]
fn custom_section_fits_at_every_boundary() {
    let sections = [type_section(), import_section(), memory_section()];
    let plain = RawModule::read(&module(&sections));
    let custom = section(0, &name("note"));
    for at in 0..=sections.len() {
        let mut with_custom = sections.to_vec();
        with_custom.insert(at, custom.clone());
        assert_eq!(RawModule::read(&module(&with_custom)), plain);
    }
}

#[test]
fn order_is_checked_before_the_payload() {
    // the import section comes too late, and its payload is garbage
    let bytes = module(&[memory_section(), section(2, &[0xff, 0xff])]);
    assert_eq!(RawModule::read(&bytes), Err(Error::InvalidSectionOrder));
}

#[test]
fn canonical_order_is_accepted() {
    let bytes = module(&[type_section(), import_section(), memory_section()]);
    let module = RawModule::read(&bytes).unwrap();
    assert_eq!(module.types.len(), 1);
    assert_eq!(module.types[0].params, vec![ValType::I32]);
    assert_eq!(module.types[0].results, vec![ValType::I32]);
    assert_eq!(module.imports.len(), 1);
    assert_eq!(module.imports[0].mod_name, "env");
    assert_eq!(module.imports[0].name, "f");
    assert_eq!(module.imports[0].desc, ImportDesc::TypeIdx(0));
    assert_eq!(module.mems, vec![MemType { min: 1, max: None }]);
}

#[test]
fn custom_sections_are_transparent() {
    let plain = module(&[type_section(), import_section(), memory_section()]);
    let mut custom_payload = name("producers");
    custom_payload.extend([0xde, 0xad, 0xbe, 0xef, 0xff]);
    let custom = section(0, &custom_payload);
    let empty_custom = section(0, &name(""));
    let with_customs = module(&[
        custom.clone(),
        type_section(),
        empty_custom.clone(),
        custom.clone(),
        import_section(),
        memory_section(),
        empty_custom,
    ]);
    assert_eq!(RawModule::read(&with_customs), RawModule::read(&plain));
    assert!(RawModule::read(&plain).is_ok());
}

#[test]
fn custom_section_needs_a_name() {
    // the name claims more bytes than the section has
    let bytes = module(&[section(0, &[0x05, b'a'])]);
    assert_eq!(malformed(&bytes), Malformed::UnexpectedEof);
    let bytes = module(&[section(0, &[])]);
    assert_eq!(malformed(&bytes), Malformed::UnexpectedEof);
}

#[test]
fn name_must_be_utf8() {
    let bytes = module(&[section(0, &[0x02, 0xc3, 0x28])]);
    assert_eq!(malformed(&bytes), Malformed::InvalidUtf8);
    let bytes = module(&[section(0, &[0x01, 0xff])]);
    assert_eq!(malformed(&bytes), Malformed::InvalidUtf8);
    // an overlong encoding, a surrogate, and a scalar above the last one
    for name in [[0xc0u8, 0x80].to_vec(), vec![0xed, 0xa0, 0x80], vec![0xf4, 0x90, 0x80, 0x80]] {
        let mut payload = vec![name.len() as u8];
        payload.extend(name);
        assert_eq!(malformed(&module(&[section(0, &payload)])), Malformed::InvalidUtf8);
    }
    // the last scalar there is
    let bytes = module(&[section(0, &[0x04, 0xf4, 0x8f, 0xbf, 0xbf])]);
    assert!(RawModule::read(&bytes).is_ok());
}

#[test]
fn names_are_decoded_as_utf8() {
    let mut payload = vec![0x01];
    payload.extend(name("h\u{e9}llo"));
    payload.extend(name("\u{4e16}\u{754c}"));
    payload.extend([0x02, 0x00, 0x01]);
    let bytes = module(&[section(2, &payload)]);
    let module = RawModule::read(&bytes).unwrap();
    assert_eq!(module.imports[0].mod_name, "h\u{e9}llo");
    assert_eq!(module.imports[0].name, "\u{4e16}\u{754c}");
    assert_eq!(module.imports[0].desc, ImportDesc::MemType(MemType { min: 1, max: None }));
}

#[test]
fn section_must_be_read_whole() {
    // a type section that declares no signature but holds one more byte
    let bytes = module(&[section(1, &[0x00, 0x00])]);
    assert_eq!(malformed(&bytes), Malformed::SectionNotConsumed);
    let bytes = module(&[section(8, &[0x00, 0x00])]);
    assert_eq!(malformed(&bytes), Malformed::SectionNotConsumed);
}

#[test]
fn truncated_section_is_an_unexpected_end() {
    let mut bytes = MAGIC.to_vec();
    bytes.extend([0x01, 0x06, 0x01, 0x60]);
    assert_eq!(malformed(&bytes), Malformed::UnexpectedEof);
    // a section id without a length
    let mut bytes = MAGIC.to_vec();
    bytes.push(0x01);
    assert_eq!(malformed(&bytes), Malformed::UnexpectedEof);
}

#[test]
fn unknown_section_is_rejected() {
    let bytes = module(&[section(12, &[])]);
    assert_eq!(malformed(&bytes), Malformed::UnknownSection);
    let bytes = module(&[type_section(), section(0xff, &[])]);
    assert_eq!(malformed(&bytes), Malformed::UnknownSection);
}

#[test]
fn repeated_section_replaces_the_earlier() {
    let bytes = module(&[memory_section(), section(5, &[0x01, 0x01, 0x02, 0x03])]);
    let module = RawModule::read(&bytes).unwrap();
    assert_eq!(module.mems, vec![MemType { min: 2, max: Some(3) }]);
}

#[test]
fn function_and_code_sections_must_agree() {
    let bytes = module(&[type_section(), section(3, &[0x01, 0x00])]);
    assert_eq!(malformed(&bytes), Malformed::FunctionCountMismatch);
    let bytes = module(&[type_section(), section(10, &[0x01, 0x02, 0x00, 0x0b])]);
    assert_eq!(malformed(&bytes), Malformed::FunctionCountMismatch);
}

#[test]
fn invalid_value_type_is_rejected() {
    let bytes = module(&[section(1, &[0x01, 0x60, 0x01, 0x7b, 0x00])]);
    assert_eq!(malformed(&bytes), Malformed::InvalidValueType);
}

#[test]
fn function_type_needs_its_tag() {
    let bytes = module(&[section(1, &[0x01, 0x61, 0x00, 0x00])]);
    assert_eq!(malformed(&bytes), Malformed::InvalidFunctionType);
}

#[test]
fn invalid_limits_are_rejected() {
    let bytes = module(&[section(5, &[0x01, 0x02, 0x01])]);
    assert_eq!(malformed(&bytes), Malformed::InvalidLimits);
}

#[test]
fn table_elements_must_be_funcref() {
    let bytes = module(&[section(4, &[0x01, 0x6f, 0x00, 0x01])]);
    assert_eq!(malformed(&bytes), Malformed::InvalidElementType);
    let bytes = module(&[section(4, &[0x01, 0x70, 0x01, 0x04, 0x08])]);
    let module = RawModule::read(&bytes).unwrap();
    assert_eq!(module.tables, vec![TableType { min: 4, max: Some(8) }]);
}

#[test]
fn invalid_mutability_is_rejected() {
    let bytes = module(&[section(6, &[0x01, 0x7f, 0x02, 0x41, 0x00, 0x0b])]);
    assert_eq!(malformed(&bytes), Malformed::InvalidMutability);
}

#[test]
fn invalid_descriptor_is_rejected() {
    let mut payload = vec![0x01];
    payload.extend(name("m"));
    payload.extend(name("n"));
    payload.extend([0x04, 0x00]);
    assert_eq!(malformed(&module(&[section(2, &payload)])), Malformed::InvalidDescriptor);
    let mut payload = vec![0x01];
    payload.extend(name("e"));
    payload.extend([0x04, 0x00]);
    assert_eq!(malformed(&module(&[section(7, &payload)])), Malformed::InvalidDescriptor);
}

#[test]
fn initializer_must_be_constant() {
    // i32.add is no constant instruction
    let bytes = module(&[section(6, &[0x01, 0x7f, 0x00, 0x6a, 0x0b])]);
    assert_eq!(malformed(&bytes), Malformed::InvalidConstantExpression);
    // an initializer without its end
    let bytes = module(&[section(6, &[0x01, 0x7f, 0x00, 0x41, 0x00])]);
    assert_eq!(malformed(&bytes), Malformed::UnexpectedEof);
}

#[test]
fn every_section_is_decoded() {
    let mut exports = vec![0x02];
    exports.extend(name("id"));
    exports.extend([0x00, 0x01]);
    exports.extend(name("mem"));
    exports.extend([0x02, 0x00]);
    let bytes = module(&[
        type_section(),
        import_section(),
        section(3, &[0x01, 0x00]),
        section(4, &[0x01, 0x70, 0x00, 0x04]),
        memory_section(),
        section(6, &[0x01, 0x7e, 0x01, 0x42, 0x7f, 0x0b]),
        section(7, &exports),
        section(8, &[0x01]),
        section(9, &[0x01, 0x00, 0x41, 0x02, 0x0b, 0x02, 0x01, 0x00]),
        section(10, &[0x01, 0x06, 0x01, 0x02, 0x7f, 0x20, 0x00, 0x0b]),
        section(11, &[0x01, 0x00, 0x41, 0x10, 0x0b, 0x04, 0xde, 0xad, 0xbe, 0xef]),
    ]);
    let module = RawModule::read(&bytes).unwrap();
    assert_eq!(module.typeidx, vec![0]);
    assert_eq!(module.tables, vec![TableType { min: 4, max: None }]);
    assert_eq!(module.globals.len(), 1);
    assert_eq!(module.globals[0].global_type.val_type, ValType::I64);
    assert!(module.globals[0].global_type.mutable);
    assert_eq!(module.globals[0].init.code, vec![0x42, 0x7f, 0x0b]);
    assert_eq!(module.exports.len(), 2);
    assert_eq!(module.exports[0].name, "id");
    assert_eq!(module.exports[0].desc, ExportDesc::Func(1));
    assert_eq!(module.exports[1].name, "mem");
    assert_eq!(module.exports[1].desc, ExportDesc::Mem(0));
    assert_eq!(module.start, Some(1));
    assert_eq!(module.elem.len(), 1);
    assert_eq!(module.elem[0].table_idx, 0);
    assert_eq!(module.elem[0].offset.code, vec![0x41, 0x02, 0x0b]);
    assert_eq!(module.elem[0].func_indices, vec![1, 0]);
    assert_eq!(module.funcs.len(), 1);
    assert_eq!(module.funcs[0].locals, vec![Local { count: 2, val_type: ValType::I32 }]);
    assert_eq!(module.funcs[0].body.code, vec![0x20, 0x00, 0x0b]);
    assert_eq!(module.data.len(), 1);
    assert_eq!(module.data[0].mem_idx, 0);
    assert_eq!(module.data[0].offset.code, vec![0x41, 0x10, 0x0b]);
    assert_eq!(module.data[0].bytes, vec![0xde, 0xad, 0xbe, 0xef]);
}

#[test]
fn leb_u32_values() {
    assert_eq!(Reader::new(&[0x00]).read_leb_u32(), Ok(0));
    assert_eq!(Reader::new(&[0x7f]).read_leb_u32(), Ok(127));
    assert_eq!(Reader::new(&[0x80, 0x01]).read_leb_u32(), Ok(128));
    assert_eq!(Reader::new(&[0xe5, 0x8e, 0x26]).read_leb_u32(), Ok(624485));
    assert_eq!(Reader::new(&[0xff, 0xff, 0xff, 0xff, 0x0f]).read_leb_u32(), Ok(u32::MAX));
    // zero, spelt with five bytes
    assert_eq!(Reader::new(&[0x80, 0x80, 0x80, 0x80, 0x00]).read_leb_u32(), Ok(0));
}

#[test]
fn leb_u32_overflow() {
    let overflow = Err(Error::MalformedBinary(Malformed::LebOverflow));
    // a sixth byte
    assert_eq!(Reader::new(&[0x80, 0x80, 0x80, 0x80, 0x80, 0x00]).read_leb_u32(), overflow);
    // five bytes that spell 2^32
    assert_eq!(Reader::new(&[0x80, 0x80, 0x80, 0x80, 0x10]).read_leb_u32(), overflow);
    assert_eq!(Reader::new(&[0xff, 0xff, 0xff, 0xff, 0x7f]).read_leb_u32(), overflow);
}

#[test]
fn leb_ends_with_the_input() {
    let eof = Err(Error::MalformedBinary(Malformed::UnexpectedEof));
    assert_eq!(Reader::new(&[]).read_leb_u32(), eof);
    assert_eq!(Reader::new(&[0x80]).read_leb_u32(), eof);
    assert_eq!(Reader::new(&[0xff, 0xff]).read_leb_i64(), Err(Error::MalformedBinary(Malformed::UnexpectedEof)));
}

#[test]
fn leb_i32_values() {
    assert_eq!(Reader::new(&[0x00]).read_leb_i32(), Ok(0));
    assert_eq!(Reader::new(&[0x3f]).read_leb_i32(), Ok(63));
    assert_eq!(Reader::new(&[0x40]).read_leb_i32(), Ok(-64));
    assert_eq!(Reader::new(&[0x7f]).read_leb_i32(), Ok(-1));
    assert_eq!(Reader::new(&[0x80, 0x7f]).read_leb_i32(), Ok(-128));
    assert_eq!(Reader::new(&[0xc0, 0xbb, 0x78]).read_leb_i32(), Ok(-123456));
    assert_eq!(Reader::new(&[0xff, 0xff, 0xff, 0xff, 0x07]).read_leb_i32(), Ok(i32::MAX));
    assert_eq!(Reader::new(&[0x80, 0x80, 0x80, 0x80, 0x78]).read_leb_i32(), Ok(i32::MIN));
}

#[test]
fn leb_i32_overflow() {
    let overflow = Err(Error::MalformedBinary(Malformed::LebOverflow));
    // 2^31
    assert_eq!(Reader::new(&[0x80, 0x80, 0x80, 0x80, 0x08]).read_leb_i32(), overflow);
    // -2^31 - 1
    assert_eq!(Reader::new(&[0xff, 0xff, 0xff, 0xff, 0x77]).read_leb_i32(), overflow);
    assert_eq!(Reader::new(&[0x80, 0x80, 0x80, 0x80, 0x80, 0x00]).read_leb_i32(), overflow);
}

#[test]
fn leb_i64_values() {
    assert_eq!(Reader::new(&[0x7f]).read_leb_i64(), Ok(-1));
    assert_eq!(Reader::new(&[0x80, 0x80, 0x80, 0x80, 0x08]).read_leb_i64(), Ok(1 << 31));
    assert_eq!(
        Reader::new(&[0xff, 0xff, 0xff, 0xff, 0xff, 0xff, 0xff, 0xff, 0xff, 0x00]).read_leb_i64(),
        Ok(i64::MAX)
    );
    assert_eq!(
        Reader::new(&[0x80, 0x80, 0x80, 0x80, 0x80, 0x80, 0x80, 0x80, 0x80, 0x7f]).read_leb_i64(),
        Ok(i64::MIN)
    );
}

#[test]
fn leb_i64_overflow() {
    let overflow = Err(Error::MalformedBinary(Malformed::LebOverflow));
    assert_eq!(
        Reader::new(&[0x80, 0x80, 0x80, 0x80, 0x80, 0x80, 0x80, 0x80, 0x80, 0x01]).read_leb_i64(),
        overflow
    );
    assert_eq!(
        Reader::new(&[0x80, 0x80, 0x80, 0x80, 0x80, 0x80, 0x80, 0x80, 0x80, 0x80, 0x00])
            .read_leb_i64(),
        overflow
    );
}

#[test]
fn read_exact_fails_on_short_read() {
    let data = [1u8, 2, 3, 4, 5];
    let mut reader = Reader::new(&data);
    assert_eq!(reader.read_exact(2), Ok(vec![1, 2]));
    assert_eq!(reader.read_exact(4), Err(Error::MalformedBinary(Malformed::UnexpectedEof)));
    assert_eq!(reader.read_exact(3), Ok(vec![3, 4, 5]));
    assert!(reader.is_at_end());
    assert_eq!(reader.read_u8(), Err(Error::MalformedBinary(Malformed::UnexpectedEof)));
}

#[test]
fn scoped_reader_ends_after_its_bytes() {
    let data = [1u8, 2, 3, 4, 5];
    let mut reader = Reader::new(&data);
    let mut scoped = reader.scoped(3).unwrap();
    assert!(!scoped.is_at_end());
    assert_eq!(scoped.read_exact(3), Ok(vec![1, 2, 3]));
    assert!(scoped.is_at_end());
    assert_eq!(scoped.read_u8(), Err(Error::MalformedBinary(Malformed::UnexpectedEof)));
    assert_eq!(reader.remaining(), 2);
    assert_eq!(reader.read_u8(), Ok(4));
    assert!(reader.scoped(2).is_err());
}

#[test]
fn little_endian_numbers() {
    assert_eq!(Reader::new(&[0x78, 0x56, 0x34, 0x12]).read_le_u32(), Ok(0x1234_5678));
    assert_eq!(
        Reader::new(&[0xef, 0xcd, 0xab, 0x89, 0x67, 0x45, 0x23, 0x01]).read_le_u64(),
        Ok(0x0123_4567_89ab_cdef)
    );
    assert!(Reader::new(&[0x78, 0x56, 0x34]).read_le_u32().is_err());
}

#[test]
fn constant_expression_is_delimited() {
    let data = [0x23u8, 0x01, 0x0b, 0x99];
    let mut reader = Reader::new(&data);
    let expr = read_const_expr(&mut reader).unwrap();
    assert_eq!(expr.code, vec![0x23, 0x01, 0x0b]);
    assert_eq!(reader.remaining(), 1);
    let data = [0x44u8, 1, 2, 3, 4, 5, 6, 7, 8, 0x43, 1, 2, 3, 4, 0x0b];
    let mut reader = Reader::new(&data);
    assert_eq!(read_const_expr(&mut reader).unwrap().code, data.to_vec());
}
