use vstd::prelude::*;
use crate::decode::{decode_spec, decode_text, layout_matches, operand_of, InstructionRecord, RecordSpec};
use crate::locate::{bytes_equal, is_rodata_section, is_text_section, locate_rodata, text_name_bytes};
use crate::object_file::{ObjectModel, RelocationInfo, SectionInfo, SymbolInfo};
use crate::resolve::{
    apply_relocations, first_where, lemma_first_where_none, lemma_first_where_some, resolve_relocations,
    slots, Slot,
};
use crate::rodata::{
    catalog_of, catalog_rodata, catalog_valid, lemma_catalog_table, rodata_symbols, symbol_table,
    total_size, RodataEntry,
};
use crate::assemble::{label_of, program_input, AsmInput};
use crate::decode::record_ready;
use crate::SbpfLinkerError;

verus! {

/// The program that resolution hands to the assembler: the decoded
/// instructions with their relocations resolved, the read-only data
/// entries, and the sizes of the code and of the read-only data.
#[derive(Debug)]
pub struct ResolvedProgram {
    pub instructions: Vec<InstructionRecord>,
    pub rodata: Vec<RodataEntry>,
    pub text_size: u64,
    pub rodata_size: u64,
}

/// Why resolving an object fails, as far as the object model decides it.
pub enum LinkFailure {
    MultipleRodata,
    BadRodata,
    Decode(int),
    RelocationWithoutRodata,
    Relocation(u64),
}

/// The kind of failure that an error reports, if it is one that resolution
/// gives.
pub open spec fn failure_of(e: SbpfLinkerError) -> Option<LinkFailure> {
    match e {
        SbpfLinkerError::MultipleRodataSections => Some(LinkFailure::MultipleRodata),
        SbpfLinkerError::MalformedRodataSymbol { .. } => Some(LinkFailure::BadRodata),
        SbpfLinkerError::DuplicateRodataAddress { .. } => Some(LinkFailure::BadRodata),
        SbpfLinkerError::RodataTooLarge => Some(LinkFailure::BadRodata),
        SbpfLinkerError::InstructionParseError { offset, .. } => Some(LinkFailure::Decode(offset as int)),
        SbpfLinkerError::RelocationWithoutRodata => Some(LinkFailure::RelocationWithoutRodata),
        SbpfLinkerError::RelocationTargetUnresolved { offset } => Some(LinkFailure::Relocation(offset)),
        _ => None,
    }
}

pub open spec fn multiple_rodata(secs: Seq<SectionInfo>) -> bool {
    exists|p: int, q: int|
        0 <= p < q < secs.len() && is_rodata_section(secs[p]) && is_rodata_section(secs[q])
}

/// The position of the read-only data section.
pub open spec fn rodata_section(secs: Seq<SectionInfo>) -> Option<int> {
    first_where(secs, |s: SectionInfo| is_rodata_section(s))
}

/// The position of the code section: the first one named `.text`.
pub open spec fn text_section(secs: Seq<SectionInfo>) -> Option<int> {
    first_where(secs, |s: SectionInfo| is_text_section(s))
}

/// The contents of a section; none where they cannot be read.
pub open spec fn section_data(s: SectionInfo) -> Seq<u8> {
    match s.data {
        Some(d) => d@,
        None => seq![],
    }
}

/// The symbols of the object that go into the read-only data.
pub open spec fn rodata_selection(obj: ObjectModel) -> Seq<SymbolInfo> {
    match rodata_section(obj.sections@) {
        Some(p) => rodata_symbols(obj.symbols@, obj.sections@[p].index),
        None => seq![],
    }
}

pub open spec fn rodata_data(obj: ObjectModel) -> Seq<u8> {
    match rodata_section(obj.sections@) {
        Some(p) => section_data(obj.sections@[p]),
        None => seq![],
    }
}

pub open spec fn text_data(obj: ObjectModel) -> Seq<u8> {
    match text_section(obj.sections@) {
        Some(t) => section_data(obj.sections@[t]),
        None => seq![],
    }
}

pub open spec fn text_relocations(obj: ObjectModel) -> Seq<RelocationInfo> {
    match text_section(obj.sections@) {
        Some(t) => obj.sections@[t].relocations@,
        None => seq![],
    }
}

pub open spec fn text_size(obj: ObjectModel) -> u64 {
    match text_section(obj.sections@) {
        Some(t) => obj.sections@[t].size,
        None => 0,
    }
}

/// The slots of freshly decoded instructions.
pub open spec fn decoded_slots(specs: Seq<RecordSpec>) -> Seq<Slot> {
    specs.map_values(|r: RecordSpec| Slot { offset: r.offset as u64, operand: operand_of(r.immediate) })
}

/// What resolving the object `obj` gives: the final slots of its
/// instructions, or the first failure, stage by stage (sections, read-only
/// data, decoding, relocations).
pub open spec fn link_outcome(obj: ObjectModel) -> Result<Seq<Slot>, LinkFailure> {
    if multiple_rodata(obj.sections@) {
        Err(LinkFailure::MultipleRodata)
    } else if !catalog_valid(rodata_selection(obj), rodata_data(obj)) {
        Err(LinkFailure::BadRodata)
    } else {
        match decode_spec(text_data(obj)) {
            Err(offset) => Err(LinkFailure::Decode(offset)),
            Ok(specs) => match rodata_section(obj.sections@) {
                None => if text_relocations(obj).len() > 0 {
                    Err(LinkFailure::RelocationWithoutRodata)
                } else {
                    Ok(decoded_slots(specs))
                },
                Some(p) => match apply_relocations(
                    decoded_slots(specs),
                    text_relocations(obj),
                    obj.symbols@,
                    obj.sections@[p].index,
                    symbol_table(rodata_selection(obj)),
                ) {
                    Ok(done) => Ok(done),
                    Err(offset) => Err(LinkFailure::Relocation(offset)),
                },
            },
        }
    }
}

/// What resolving `obj` hands to the assembler, where it succeeds: each
/// decoded instruction's bytes and offset, with the label that its
/// relocation gave it; each read-only data symbol's name and bytes, in
/// symbol-table order, at the running sum of the sizes before it; the size
/// of the code section and the total size of the read-only data.
pub open spec fn assembler_input(obj: ObjectModel) -> AsmInput {
    let data = text_data(obj);
    let specs = decode_spec(data)->Ok_0;
    let done = link_outcome(obj)->Ok_0;
    let sel = rodata_selection(obj);
    let ro = rodata_data(obj);
    AsmInput {
        code: Seq::new(
            specs.len(),
            |i: int|
                (
                    data.subrange(specs[i].offset, specs[i].offset + specs[i].size),
                    label_of(done[i].operand),
                    specs[i].offset as u64,
                ),
        ),
        rodata: Seq::new(
            sel.len(),
            |i: int|
                (
                    sel[i].name->Some_0@,
                    ro.subrange(sel[i].address as int, sel[i].address + sel[i].size),
                    total_size(sel.subrange(0, i)) as u64,
                ),
        ),
        text_size: text_size(obj),
        rodata_size: total_size(sel) as u64,
    }
}

/// Two models with the same sections and symbols resolve alike.
pub proof fn lemma_same_model(a: ObjectModel, b: ObjectModel)
    requires
        a.sections@ == b.sections@,
        a.symbols@ == b.symbols@,
    ensures
        link_outcome(a) == link_outcome(b),
        assembler_input(a) == assembler_input(b),
{
    assert(rodata_selection(a) == rodata_selection(b));
    assert(rodata_data(a) == rodata_data(b));
    assert(text_data(a) == text_data(b));
    assert(text_relocations(a) == text_relocations(b));
    assert(text_size(a) == text_size(b));
}

/// The facts that `resolve_object` establishes of its program give the
/// assembler input of the object.
proof fn lemma_program_input(obj: ObjectModel, prog: ResolvedProgram)
    requires
        link_outcome(obj) == Ok::<Seq<Slot>, LinkFailure>(slots(prog.instructions@)),
        decode_spec(text_data(obj)) matches Ok(specs) && prog.instructions@.len() == specs.len()
            && forall|i: int|
            0 <= i < specs.len() ==> layout_matches(#[trigger] prog.instructions@[i], specs[i], text_data(obj)),
        catalog_of(prog.rodata@, rodata_selection(obj), rodata_data(obj)),
        prog.rodata_size == total_size(rodata_selection(obj)),
        prog.text_size == text_size(obj),
    ensures
        program_input(prog) == assembler_input(obj),
        forall|i: int| 0 <= i < prog.instructions@.len() ==> record_ready(#[trigger] prog.instructions@[i]),
{
    let data = text_data(obj);
    let specs = decode_spec(data)->Ok_0;
    let p = program_input(prog);
    let q = assembler_input(obj);
    assert forall|i: int| 0 <= i < prog.instructions@.len() implies record_ready(#[trigger] prog.instructions@[i]) by {
        assert(layout_matches(prog.instructions@[i], specs[i], data));
        assert(prog.instructions@[i].bytes@[0] == data[specs[i].offset]);
    }
    assert forall|i: int| 0 <= i < specs.len() implies p.code[i] == q.code[i] by {
        assert(layout_matches(prog.instructions@[i], specs[i], data));
        assert(slots(prog.instructions@)[i] == crate::resolve::slot_of(prog.instructions@[i]));
    }
    assert(p.code =~= q.code);
    assert(p.rodata =~= q.rodata);
}

/// Finds the code section: the first section named `.text`.
pub fn locate_text(sections: &Vec<SectionInfo>) -> (r: Option<usize>)
    ensures
        match r {
            Some(t) => text_section(sections@) == Some(t as int),
            None => text_section(sections@) is None,
        },
{
    let name = text_name_bytes();
    let mut i: usize = 0;
    while i < sections.len()
        invariant
            i <= sections@.len(),
            name@ == crate::locate::text_name(),
            forall|q: int| 0 <= q < i ==> !is_text_section(sections@[q]),
        decreases sections@.len() - i,
    {
        let hit = match &sections[i].name {
            Some(n) => bytes_equal(n, &name),
            None => false,
        };
        if hit {
            proof { lemma_first_where_some(sections@, |s: SectionInfo| is_text_section(s), i as int); }
            return Some(i);
        }
        i = i + 1;
    }
    proof { lemma_first_where_none(sections@, |s: SectionInfo| is_text_section(s)); }
    None
}

/// Resolves the object `obj`: finds its read-only data and code sections,
/// catalogues the read-only data symbols, decodes the code, and rewrites
/// each instruction that a read-only data relocation points at so that it
/// names its symbol. Returns the program for the assembler, or the first
/// failure.
pub fn resolve_object(obj: &ObjectModel) -> (r: Result<ResolvedProgram, SbpfLinkerError>)
    ensures
        r is Ok <==> link_outcome(*obj) is Ok,
        r matches Ok(prog) ==> {
            &&& link_outcome(*obj) == Ok::<Seq<Slot>, LinkFailure>(slots(prog.instructions@))
            &&& decode_spec(text_data(*obj)) matches Ok(specs) && prog.instructions@.len() == specs.len()
                && forall|i: int|
                0 <= i < specs.len() ==> layout_matches(
                    #[trigger] prog.instructions@[i],
                    specs[i],
                    text_data(*obj),
                )
            &&& catalog_of(prog.rodata@, rodata_selection(*obj), rodata_data(*obj))
            &&& prog.rodata_size == total_size(rodata_selection(*obj))
            &&& prog.text_size == text_size(*obj)
            &&& program_input(prog) == assembler_input(*obj)
            &&& forall|i: int|
                0 <= i < prog.instructions@.len() ==> record_ready(#[trigger] prog.instructions@[i])
        },
        r matches Err(e) ==> link_outcome(*obj) matches Err(f) && failure_of(e) == Some(f),
{
    let ghost secs = obj.sections@;
    let ro = match locate_rodata(&obj.sections) {
        Ok(ro) => ro,
        Err(e) => return Err(e),
    };
    proof {
        match ro {
            Some(p) => lemma_first_where_some(secs, |s: SectionInfo| is_rodata_section(s), p as int),
            None => lemma_first_where_none(secs, |s: SectionInfo| is_rodata_section(s)),
        }
    }
    let empty: Vec<u8> = Vec::new();
    let (rodata, rodata_size) = match ro {
        Some(p) => {
            let data = match &obj.sections[p].data {
                Some(d) => d,
                None => &empty,
            };
            match catalog_rodata(&obj.symbols, obj.sections[p].index, data) {
                Ok(c) => c,
                Err(e) => return Err(e),
            }
        },
        None => {
            let v: Vec<RodataEntry> = Vec::new();
            assert(catalog_of(v@, seq![], seq![]));
            (v, 0)
        },
    };
    proof { lemma_catalog_table(rodata@, rodata_selection(*obj), rodata_data(*obj)); }
    let text = locate_text(&obj.sections);
    match text {
        None => {
            let instructions: Vec<InstructionRecord> = Vec::new();
            assert(decode_spec(seq![]) == Ok::<Seq<RecordSpec>, int>(seq![]));
            assert(slots(instructions@) =~= decoded_slots(seq![]));
            let prog = ResolvedProgram { instructions, rodata, text_size: 0, rodata_size };
            proof { lemma_program_input(*obj, prog); }
            Ok(prog)
        },
        Some(t) => {
            let data = match &obj.sections[t].data {
                Some(d) => d,
                None => &empty,
            };
            let mut recs = match decode_text(data) {
                Ok(recs) => recs,
                Err(e) => return Err(e),
            };
            let ghost specs = decode_spec(data@)->Ok_0;
            assert(slots(recs@) =~= decoded_slots(specs));
            let ghost decoded = recs@;
            match ro {
                None => {
                    if obj.sections[t].relocations.len() > 0 {
                        return Err(SbpfLinkerError::RelocationWithoutRodata);
                    }
                },
                Some(p) => {
                    match resolve_relocations(
                        &mut recs,
                        &obj.sections[t].relocations,
                        &obj.symbols,
                        obj.sections[p].index,
                        &rodata,
                    ) {
                        Ok(()) => {},
                        Err(e) => return Err(e),
                    }
                    assert forall|i: int| 0 <= i < specs.len() implies layout_matches(
                        #[trigger] recs@[i],
                        specs[i],
                        data@,
                    ) by {
                        assert(layout_matches(decoded[i], specs[i], data@));
                    }
                },
            }
            let prog = ResolvedProgram { instructions: recs, rodata, text_size: obj.sections[t].size, rodata_size };
            proof { lemma_program_input(*obj, prog); }
            Ok(prog)
        },
    }
}

} // verus!
