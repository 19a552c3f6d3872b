use object::write::{Object as ObjectWriter, Relocation, Symbol, SymbolSection};
use object::{Architecture, BinaryFormat, Endianness, RelocationFlags, SectionKind, SymbolFlags, SymbolKind, SymbolScope};
use sbpf_linker::byteparser::{link_object, parse_bytecode};
use sbpf_linker::decode::{decode_text, Operand};
use sbpf_linker::link::{locate_text, resolve_object};
use sbpf_linker::link_program;
use sbpf_linker::locate::{bytes_equal, locate_rodata, starts_with};
use sbpf_linker::object_file::{read_object, ObjectModel, RelocationInfo, SectionInfo, SymbolInfo};
use sbpf_linker::resolve::{find_entry, resolve_relocations};
use sbpf_linker::rodata::catalog_rodata;
use sbpf_linker::SbpfLinkerError;

fn mov64(dst: u8, imm: i32) -> Vec<u8> {
    let mut b = vec![0xb7, dst, 0, 0];
    b.extend_from_slice(&imm.to_le_bytes());
    b
}

fn lddw(dst: u8, imm: i64) -> Vec<u8> {
    let mut b = vec![0x18, dst, 0, 0];
    b.extend_from_slice(&(imm as i32).to_le_bytes());
    b.extend_from_slice(&[0, 0, 0, 0]);
    b.extend_from_slice(&((imm >> 32) as i32).to_le_bytes());
    b
}

fn exit() -> Vec<u8> {
    vec![0x95, 0, 0, 0, 0, 0, 0, 0]
}

fn section(index: usize, name: &str, data: Vec<u8>, relocations: Vec<RelocationInfo>) -> SectionInfo {
    SectionInfo {
        index,
        name: Some(name.as_bytes().to_vec()),
        size: data.len() as u64,
        data: Some(data),
        relocations,
    }
}

fn symbol(index: usize, name: &str, address: u64, size: u64, section: Option<usize>) -> SymbolInfo {
    SymbolInfo { index, name: Some(name.to_string()), address, size, section }
}

fn reloc(offset: u64, symbol: usize) -> RelocationInfo {
    RelocationInfo { offset, symbol: Some(symbol) }
}

/// A small object: `.rodata` holds "MSG" (4 bytes at
/// 0x10); `.text` holds two 8-byte instructions, the second with immediate
/// 0x10 and a relocation to "MSG".
fn msg_object() -> ObjectModel {
    let mut text = mov64(0, 0);
    text.extend(mov64(1, 0x10));
    let mut rodata = vec![0u8; 0x10];
    rodata.extend_from_slice(b"abcd");
    ObjectModel {
        sections: vec![
            section(0, "", vec![], vec![]),
            section(1, ".text", text, vec![reloc(8, 1)]),
            section(2, ".rodata", rodata, vec![]),
        ],
        symbols: vec![symbol(1, "MSG", 0x10, 4, Some(2))],
    }
}

#[test]
fn end_to_end_msg_example() {
    let prog = resolve_object(&msg_object()).unwrap();
    assert_eq!(prog.instructions.len(), 2);
    assert_eq!(prog.instructions[0].operand, Operand::Immediate(0));
    assert_eq!(prog.instructions[1].offset, 8);
    assert_eq!(prog.instructions[1].operand, Operand::Label("MSG".to_string()));
    assert_eq!(prog.rodata.len(), 1);
    assert_eq!(prog.rodata[0].name, "MSG");
    assert_eq!(prog.rodata[0].output_offset, 0);
    assert_eq!(prog.rodata[0].bytes, b"abcd".to_vec());
    assert_eq!(prog.rodata_size, 4);
    assert_eq!(prog.text_size, 16);
}

#[test]
fn rodata_offsets_are_running_sums_in_table_order() {
    let data: Vec<u8> = (0u8..32).collect();
    let symbols = vec![
        symbol(1, "C", 20, 3, Some(4)),
        symbol(2, "label", 0, 0, Some(4)),
        symbol(3, "A", 0, 5, Some(4)),
        symbol(4, "other", 8, 2, Some(7)),
        symbol(5, "B", 10, 2, Some(4)),
    ];
    let (entries, total) = catalog_rodata(&symbols, 4, &data).unwrap();
    let names: Vec<&str> = entries.iter().map(|e| e.name.as_str()).collect();
    assert_eq!(names, vec!["C", "A", "B"]);
    let offsets: Vec<u64> = entries.iter().map(|e| e.output_offset).collect();
    assert_eq!(offsets, vec![0, 3, 8]);
    assert_eq!(total, 10);
    assert_eq!(entries[0].bytes, vec![20, 21, 22]);
    assert_eq!(entries[1].address, 0);
    assert_eq!(entries[2].bytes, vec![10, 11]);
}

#[test]
fn rodata_without_symbols_is_empty() {
    let (entries, total) = catalog_rodata(&vec![], 1, &vec![1, 2, 3]).unwrap();
    assert!(entries.is_empty());
    assert_eq!(total, 0);
}

#[test]
fn colliding_rodata_addresses_fail() {
    let data = vec![0u8; 16];
    let symbols = vec![symbol(1, "A", 4, 2, Some(2)), symbol(2, "B", 4, 3, Some(2))];
    let r = catalog_rodata(&symbols, 2, &data);
    assert!(matches!(r, Err(SbpfLinkerError::DuplicateRodataAddress { address: 4 })));
}

#[test]
fn rodata_symbol_out_of_bounds_fails() {
    let data = vec![0u8; 8];
    let symbols = vec![symbol(1, "A", 6, 4, Some(2))];
    let r = catalog_rodata(&symbols, 2, &data);
    assert!(matches!(r, Err(SbpfLinkerError::MalformedRodataSymbol { index: 0 })));
}

#[test]
fn rodata_symbol_without_name_fails() {
    let data = vec![0u8; 8];
    let symbols = vec![SymbolInfo { index: 1, name: None, address: 0, size: 1, section: Some(2) }];
    let r = catalog_rodata(&symbols, 2, &data);
    assert!(matches!(r, Err(SbpfLinkerError::MalformedRodataSymbol { index: 0 })));
}

#[test]
fn decoder_covers_section_with_wide_instructions() {
    let mut text = mov64(1, 7);
    text.extend(lddw(2, 0x1_0000_0020));
    text.extend(exit());
    let recs = decode_text(&text).unwrap();
    let offsets: Vec<u64> = recs.iter().map(|r| r.offset).collect();
    assert_eq!(offsets, vec![0, 8, 24]);
    let sizes: Vec<u64> = recs.iter().map(|r| r.size).collect();
    assert_eq!(sizes, vec![8, 16, 8]);
    let opcodes: Vec<u8> = recs.iter().map(|r| r.opcode).collect();
    assert_eq!(opcodes, vec![0xb7, 0x18, 0x95]);
    assert_eq!(recs[0].operand, Operand::Immediate(7));
    assert_eq!(recs[1].operand, Operand::Immediate(0x1_0000_0020));
}

#[test]
fn decoder_of_empty_section_gives_nothing() {
    assert!(decode_text(&vec![]).unwrap().is_empty());
}

#[test]
fn decoder_rejects_trailing_bytes() {
    let mut text = exit();
    text.extend_from_slice(&[0x95, 0, 0, 0]);
    let r = decode_text(&text);
    assert!(matches!(r, Err(SbpfLinkerError::InstructionParseError { offset: 8, cause: None })));
}

#[test]
fn decoder_rejects_truncated_wide_instruction() {
    let mut text = exit();
    text.extend(mov64(1, 0));
    text[8] = 0x18;
    let r = decode_text(&text);
    assert!(matches!(r, Err(SbpfLinkerError::InstructionParseError { offset: 8, cause: None })));
}

#[test]
fn decoder_rejects_invalid_opcode() {
    let mut text = exit();
    text.extend_from_slice(&[0xff, 0, 0, 0, 0, 0, 0, 0]);
    let r = decode_text(&text);
    assert!(matches!(r, Err(SbpfLinkerError::InstructionParseError { offset: 8, cause: Some(_) })));
}

#[test]
fn relocation_round_trip_names_the_symbol() {
    let mut text = lddw(1, 0x20);
    text.extend(exit());
    let mut recs = decode_text(&text).unwrap();
    let data = vec![7u8; 0x28];
    let symbols = vec![symbol(1, "first", 0x8, 4, Some(3)), symbol(2, "second", 0x20, 8, Some(3))];
    let (entries, _) = catalog_rodata(&symbols, 3, &data).unwrap();
    resolve_relocations(&mut recs, &vec![reloc(0, 2)], &symbols, 3, &entries).unwrap();
    assert_eq!(recs[0].operand, Operand::Label("second".to_string()));
    assert_eq!(recs[1].operand, Operand::Other);
    assert_eq!(recs[0].offset, 0);
    assert_eq!(recs[0].size, 16);
}

#[test]
fn relocation_to_unknown_address_fails() {
    let mut recs = decode_text(&lddw(1, 0x30)).unwrap();
    let data = vec![0u8; 0x28];
    let symbols = vec![symbol(1, "s", 0x20, 8, Some(3))];
    let (entries, _) = catalog_rodata(&symbols, 3, &data).unwrap();
    let r = resolve_relocations(&mut recs, &vec![reloc(0, 1)], &symbols, 3, &entries);
    assert!(matches!(r, Err(SbpfLinkerError::RelocationTargetUnresolved { offset: 0 })));
}

#[test]
fn relocation_between_instructions_fails() {
    let mut recs = decode_text(&lddw(1, 0x20)).unwrap();
    let data = vec![0u8; 0x28];
    let symbols = vec![symbol(1, "s", 0x20, 8, Some(3))];
    let (entries, _) = catalog_rodata(&symbols, 3, &data).unwrap();
    let r = resolve_relocations(&mut recs, &vec![reloc(8, 1)], &symbols, 3, &entries);
    assert!(matches!(r, Err(SbpfLinkerError::RelocationTargetUnresolved { offset: 8 })));
}

#[test]
fn relocation_to_unknown_symbol_fails() {
    let mut recs = decode_text(&lddw(1, 0x20)).unwrap();
    let symbols = vec![symbol(1, "s", 0x20, 8, Some(3))];
    let r = resolve_relocations(&mut recs, &vec![reloc(0, 9)], &symbols, 3, &vec![]);
    assert!(matches!(r, Err(SbpfLinkerError::RelocationTargetUnresolved { offset: 0 })));
}

#[test]
fn relocations_outside_rodata_are_skipped() {
    let mut recs = decode_text(&lddw(1, 0x20)).unwrap();
    let symbols = vec![symbol(1, "f", 0x20, 8, Some(1))];
    let rels = vec![reloc(0, 1), RelocationInfo { offset: 0, symbol: None }];
    resolve_relocations(&mut recs, &rels, &symbols, 3, &vec![]).unwrap();
    assert_eq!(recs[0].operand, Operand::Immediate(0x20));
}

#[test]
fn find_entry_looks_up_object_address() {
    let data = vec![0u8; 16];
    let symbols = vec![symbol(1, "a", 8, 2, Some(1)), symbol(2, "b", 0, 4, Some(1))];
    let (entries, _) = catalog_rodata(&symbols, 1, &data).unwrap();
    assert_eq!(find_entry(&entries, 0), Some(1));
    assert_eq!(find_entry(&entries, 8), Some(0));
    assert_eq!(find_entry(&entries, 2), None);
}

#[test]
fn relocation_without_rodata_fails() {
    let text = lddw(1, 0x20);
    let obj = ObjectModel {
        sections: vec![section(1, ".text", text, vec![reloc(0, 1)])],
        symbols: vec![symbol(1, "s", 0x20, 8, Some(5))],
    };
    assert!(matches!(resolve_object(&obj), Err(SbpfLinkerError::RelocationWithoutRodata)));
}

#[test]
fn pass_through_without_rodata_or_relocations() {
    let mut text = mov64(3, 5);
    text.extend(lddw(2, -1));
    text.extend(exit());
    let obj = ObjectModel { sections: vec![section(1, ".text", text.clone(), vec![])], symbols: vec![] };
    let prog = resolve_object(&obj).unwrap();
    let total: u64 = prog.instructions.iter().map(|r| r.size).sum();
    assert_eq!(total, text.len() as u64);
    let opcodes: Vec<u8> = prog.instructions.iter().map(|r| r.opcode).collect();
    assert_eq!(opcodes, vec![0xb7, 0x18, 0x95]);
    assert_eq!(prog.instructions[1].operand, Operand::Immediate(-1));
    assert!(prog.rodata.is_empty());
    assert_eq!(prog.rodata_size, 0);
}

#[test]
fn multiple_rodata_sections_fail() {
    let obj = ObjectModel {
        sections: vec![
            section(1, ".rodata", vec![1], vec![]),
            section(2, ".text", exit(), vec![]),
            section(3, ".rodata.str1.1", vec![2], vec![]),
        ],
        symbols: vec![],
    };
    assert!(matches!(locate_rodata(&obj.sections), Err(SbpfLinkerError::MultipleRodataSections)));
    assert!(matches!(resolve_object(&obj), Err(SbpfLinkerError::MultipleRodataSections)));
}

#[test]
fn suffixed_rodata_section_is_found() {
    let sections = vec![
        section(1, ".text", exit(), vec![]),
        section(2, ".rodata.str1.1", vec![2], vec![]),
        section(3, ".rodat", vec![], vec![]),
    ];
    assert_eq!(locate_rodata(&sections).unwrap(), Some(1));
    assert_eq!(locate_text(&sections), Some(0));
}

#[test]
fn object_without_code_has_no_instructions() {
    let obj = ObjectModel { sections: vec![section(1, ".data", vec![1, 2], vec![])], symbols: vec![] };
    let prog = resolve_object(&obj).unwrap();
    assert!(prog.instructions.is_empty());
    assert_eq!(prog.text_size, 0);
}

#[test]
fn byte_prefix_and_equality() {
    assert!(starts_with(&b".rodata.x".to_vec(), &b".rodata".to_vec()));
    assert!(!starts_with(&b".rod".to_vec(), &b".rodata".to_vec()));
    assert!(bytes_equal(&b".text".to_vec(), &b".text".to_vec()));
    assert!(!bytes_equal(&b".text2".to_vec(), &b".text".to_vec()));
}

fn elf_object(with_rodata: bool) -> Vec<u8> {
    elf_object_with(with_rodata, lddw(1, 0x10))
}

fn elf_object_with(with_rodata: bool, second: Vec<u8>) -> Vec<u8> {
    let mut obj = ObjectWriter::new(BinaryFormat::Elf, Architecture::Bpf, Endianness::Little);
    let text_id = obj.add_section(vec![], b".text".to_vec(), SectionKind::Text);
    let mut text = mov64(0, 0);
    text.extend(second);
    text.extend(exit());
    obj.append_section_data(text_id, &text, 8);
    if with_rodata {
        let ro_id = obj.add_section(vec![], b".rodata".to_vec(), SectionKind::ReadOnlyData);
        let mut ro = vec![0u8; 0x10];
        ro.extend_from_slice(b"MSG!");
        obj.append_section_data(ro_id, &ro, 8);
        let sym = obj.add_symbol(Symbol {
            name: b"MSG".to_vec(),
            value: 0x10,
            size: 4,
            kind: SymbolKind::Data,
            scope: SymbolScope::Linkage,
            weak: false,
            section: SymbolSection::Section(ro_id),
            flags: SymbolFlags::None,
        });
        obj.add_relocation(text_id, Relocation {
            offset: 8,
            symbol: sym,
            addend: 0,
            flags: RelocationFlags::Elf { r_type: object::elf::R_BPF_64_64 },
        })
        .unwrap();
    }
    obj.write().unwrap()
}

#[test]
fn reads_sections_symbols_and_relocations_of_an_elf_object() {
    let bytes = elf_object(true);
    let model = read_object(&bytes).unwrap();
    let text = locate_text(&model.sections).unwrap();
    assert_eq!(model.sections[text].data.as_ref().unwrap().len(), 32);
    assert_eq!(model.sections[text].relocations.len(), 1);
    assert_eq!(model.sections[text].relocations[0].offset, 8);
    let msg = model.symbols.iter().find(|s| s.name.as_deref() == Some("MSG")).unwrap();
    assert_eq!(msg.address, 0x10);
    assert_eq!(msg.size, 4);
    let prog = resolve_object(&model).unwrap();
    assert_eq!(prog.instructions[1].operand, Operand::Label("MSG".to_string()));
    assert_eq!(prog.rodata[0].bytes, b"MSG!".to_vec());
}

#[test]
fn links_an_elf_object() {
    let bytes = elf_object(true);
    assert!(parse_bytecode(&bytes).is_ok());
    let out = link_program(&bytes).unwrap();
    assert!(out.len() > 32);
    assert_eq!(&out[0..4], b"\x7fELF");
}

#[test]
fn links_an_elf_object_without_rodata() {
    let out = link_program(&elf_object(false)).unwrap();
    assert_eq!(&out[0..4], b"\x7fELF");
}

#[test]
fn rejects_bytes_that_are_no_object() {
    let r = link_program(b"not an object file");
    assert!(matches!(r, Err(SbpfLinkerError::ObjectFileOpenError(_))));
}

#[test]
fn links_an_object_model() {
    let mut text = mov64(0, 0);
    text.extend(lddw(1, 0x10));
    text.extend(exit());
    let mut rodata = vec![0u8; 0x10];
    rodata.extend_from_slice(b"abcd");
    let good = ObjectModel {
        sections: vec![section(1, ".text", text, vec![reloc(8, 1)]), section(2, ".rodata", rodata, vec![])],
        symbols: vec![symbol(1, "MSG", 0x10, 4, Some(2))],
    };
    assert!(link_object(&good).is_ok());
    let obj = ObjectModel {
        sections: vec![section(1, ".text", lddw(1, 0x20), vec![reloc(0, 1)])],
        symbols: vec![symbol(1, "s", 0x20, 8, Some(5))],
    };
    assert!(matches!(link_object(&obj), Err(SbpfLinkerError::RelocationWithoutRodata)));
}

#[test]
fn records_keep_their_instruction_bytes() {
    let mut text = mov64(1, 7);
    text.extend(lddw(2, 0x1_0000_0020));
    let recs = decode_text(&text).unwrap();
    assert_eq!(recs[0].bytes, mov64(1, 7));
    assert_eq!(recs[1].bytes, lddw(2, 0x1_0000_0020));
}

#[test]
fn linking_the_same_bytes_twice_agrees() {
    let bytes = elf_object(true);
    assert_eq!(link_program(&bytes).unwrap(), link_program(&bytes).unwrap());
}

#[test]
fn assembler_errors_are_all_reported() {
    let bytes = elf_object_with(true, mov64(1, 0x10));
    match link_program(&bytes) {
        Err(SbpfLinkerError::BuildProgramError { errors }) => assert!(!errors.is_empty()),
        other => panic!("expected the assembler to refuse the program, got {:?}", other.map(|b| b.len())),
    }
    assert!(matches!(parse_bytecode(&bytes), Err(SbpfLinkerError::BuildProgramError { .. })));
}
