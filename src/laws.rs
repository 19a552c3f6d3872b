use vstd::prelude::*;
use crate::decode::{decode_from, decode_spec, record_size, RecordSpec};
use crate::locate::is_rodata_section;
use crate::link::{
    assembler_input, decoded_slots, rodata_data, link_outcome, multiple_rodata, rodata_section, rodata_selection, text_data,
    text_relocations, LinkFailure,
};
use crate::object_file::{ObjectModel, RelocationInfo, SectionInfo, SymbolInfo};
use crate::resolve::{
    apply_relocations, entry_at_address, lemma_first_where_none, lemma_first_where_some,
    record_at_offset, symbol_with_index, with_operand, Slot,
};
use crate::decode::Operand;
use crate::rodata::{catalog_of, catalog_valid, rodata_symbols, symbol_table, total_size, RodataEntry};

verus! {

/// Read-only data entries are laid out back to back in symbol-table order:
/// the first at offset 0, each next one right after the symbol before it,
/// and the total size is the sum of all the sizes, where the last one ends.
pub proof fn law_rodata_offsets(
    symbols: Seq<SymbolInfo>,
    ro: usize,
    data: Seq<u8>,
    entries: Seq<RodataEntry>,
    total: u64,
)
    requires
        catalog_of(entries, rodata_symbols(symbols, ro), data),
        total == total_size(rodata_symbols(symbols, ro)),
    ensures
        entries.len() > 0 ==> entries[0].output_offset == 0,
        forall|i: int|
            0 <= i < entries.len() - 1 ==> (#[trigger] entries[i + 1]).output_offset
                == entries[i].output_offset + rodata_symbols(symbols, ro)[i].size,
        entries.len() == 0 ==> total == 0,
        entries.len() > 0 ==> total == entries.last().output_offset + rodata_symbols(
            symbols,
            ro,
        ).last().size,
{
    let sel = rodata_symbols(symbols, ro);
    if entries.len() > 0 {
        assert(sel.subrange(0, 0) =~= Seq::<SymbolInfo>::empty());
        let n = sel.len() - 1;
        assert(entries[n] == entries.last());
        assert(sel.drop_last() =~= sel.subrange(0, n));
    }
    assert forall|i: int| 0 <= i < entries.len() - 1 implies (#[trigger] entries[i + 1]).output_offset
        == entries[i].output_offset + sel[i].size by {
        assert(sel.subrange(0, i + 1).drop_last() =~= sel.subrange(0, i));
    }
}

/// Two read-only data symbols at one address can never be catalogued:
/// resolving such an object fails rather than dropping one of them.
pub proof fn law_colliding_addresses_fail(obj: ObjectModel, i: int, j: int)
    requires
        0 <= i < j < rodata_selection(obj).len(),
        rodata_selection(obj)[i].address == rodata_selection(obj)[j].address,
    ensures
        link_outcome(obj) is Err,
{
    let sel = rodata_selection(obj);
    assert(sel[i].address == sel[j].address);
}

proof fn lemma_decode_from_covers(data: Seq<u8>, at: int)
    requires
        0 <= at <= data.len(),
        decode_from(data, at) is Ok,
    ensures
        ({
            let s = decode_from(data, at)->Ok_0;
            &&& (s.len() == 0 <==> at == data.len())
            &&& s.len() > 0 ==> s[0].offset == at && s.last().offset + s.last().size == data.len()
            &&& forall|i: int| 0 <= i < s.len() - 1 ==> (#[trigger] s[i + 1]).offset == s[i].offset + s[i].size
            &&& forall|i: int|
                0 <= i < s.len() ==> 0 <= (#[trigger] s[i]).offset < data.len() && s[i].size
                    == record_size(data[s[i].offset])
        }),
    decreases data.len() - at,
{
    if at < data.len() {
        let size = record_size(data[at]);
        let s = decode_from(data, at)->Ok_0;
        let rec = RecordSpec { offset: at, size, immediate: decode_from_first_immediate(data, at) };
        lemma_decode_from_covers(data, at + size);
        let rest = decode_from(data, at + size)->Ok_0;
        assert(s == seq![rec] + rest);
        assert forall|i: int| 0 <= i < s.len() - 1 implies (#[trigger] s[i + 1]).offset == s[i].offset
            + s[i].size by {
            assert(s[i + 1] == rest[i]);
            if i > 0 {
                assert(s[i] == rest[i - 1]);
                assert(rest[(i - 1) + 1].offset == rest[i - 1].offset + rest[i - 1].size);
            } else {
                assert(s[0] == rec);
                assert(rest.len() > 0);
                assert(rest[0].offset == at + size);
            }
        }
        assert forall|i: int| 0 <= i < s.len() implies 0 <= (#[trigger] s[i]).offset < data.len()
            && s[i].size == record_size(data[s[i].offset]) by {
            if i > 0 {
                assert(s[i] == rest[i - 1]);
            }
        }
        if rest.len() > 0 {
            assert(s.last() == rest.last());
        }
    }
}

spec fn decode_from_first_immediate(data: Seq<u8>, at: int) -> Option<i64> {
    crate::decode::decode_outcome(data.subrange(at, at + record_size(data[at])))->Some_0
}

/// Decoding a code section that decodes consumes all of it: the records
/// start at offset 0, each one starts where the one before ends, each is
/// 16 bytes long for the wide-immediate opcode and 8 otherwise, and the
/// last one ends where the section ends.
pub proof fn law_decode_covers_section(data: Seq<u8>)
    requires
        decode_spec(data) is Ok,
    ensures
        ({
            let s = decode_spec(data)->Ok_0;
            &&& (s.len() == 0 <==> data.len() == 0)
            &&& s.len() > 0 ==> s[0].offset == 0 && s.last().offset + s.last().size == data.len()
            &&& forall|i: int| 0 <= i < s.len() - 1 ==> (#[trigger] s[i + 1]).offset == s[i].offset + s[i].size
            &&& forall|i: int|
                0 <= i < s.len() ==> 0 <= (#[trigger] s[i]).offset < data.len() && s[i].size
                    == record_size(data[s[i].offset])
        }),
{
    lemma_decode_from_covers(data, 0);
}

/// A relocation that targets a read-only data symbol, applied to the
/// instruction at its offset whose immediate is that symbol's address,
/// leaves that instruction naming the symbol instead of holding the
/// address; nothing else changes.
pub proof fn law_relocation_round_trip(
    recs: Seq<Slot>,
    rel: RelocationInfo,
    symbols: Seq<SymbolInfo>,
    ro: usize,
    sel: Seq<SymbolInfo>,
    data: Seq<u8>,
    k: int,
    e: int,
)
    requires
        catalog_valid(sel, data),
        forall|a: int, b: int| 0 <= a < b < recs.len() ==> (#[trigger] recs[a]).offset != (#[trigger] recs[b]).offset,
        0 <= k < recs.len(),
        recs[k].offset == rel.offset,
        rel.symbol matches Some(si) && symbol_with_index(symbols, si) matches Some(p) && symbols[p].section
            == Some(ro),
        0 <= e < sel.len(),
        recs[k].operand matches Operand::Immediate(v) && v as u64 == sel[e].address,
    ensures
        apply_relocations(recs, seq![rel], symbols, ro, symbol_table(sel)) == Ok::<Seq<Slot>, u64>(
            with_operand(recs, k, Operand::Label(sel[e].name->Some_0)),
        ),
        with_operand(recs, k, Operand::Label(sel[e].name->Some_0))[k].operand == Operand::Label(
            sel[e].name->Some_0,
        ),
{
    let table = symbol_table(sel);
    lemma_first_where_some(recs, |r: Slot| r.offset == rel.offset, k);
    assert forall|q: int| 0 <= q < e implies !((|t: (u64, String)| t.0 == sel[e].address)(table[q])) by {
        assert(sel[q].address != sel[e].address);
    }
    lemma_first_where_some(table, |t: (u64, String)| t.0 == sel[e].address, e);
    assert(record_at_offset(recs, rel.offset) == Some(k));
    assert(entry_at_address(table, sel[e].address) == Some(e));
    assert(seq![rel].drop_last() =~= Seq::<RelocationInfo>::empty());
    assert(seq![rel].last() == rel);
    assert(apply_relocations(recs, Seq::<RelocationInfo>::empty(), symbols, ro, table) == Ok::<
        Seq<Slot>,
        u64,
    >(recs));
    assert(table[e] == (sel[e].address, sel[e].name->Some_0));
    assert(crate::resolve::addend_of(recs[k].operand) == sel[e].address);
}

/// An object with relocations in its code but no read-only data section
/// cannot be resolved: it fails with the relocation-without-rodata error
/// (where its code decodes, which is checked first).
pub proof fn law_relocation_without_rodata(obj: ObjectModel)
    requires
        forall|q: int| 0 <= q < obj.sections@.len() ==> !is_rodata_section(#[trigger] obj.sections@[q]),
        text_relocations(obj).len() > 0,
        decode_spec(text_data(obj)) is Ok,
    ensures
        link_outcome(obj) == Err::<Seq<Slot>, LinkFailure>(LinkFailure::RelocationWithoutRodata),
{
    lemma_first_where_none(obj.sections@, |s: SectionInfo| is_rodata_section(s));
    assert(!multiple_rodata(obj.sections@));
    assert(rodata_section(obj.sections@) is None);
    assert(total_size(Seq::<SymbolInfo>::empty()) == 0);
}

/// With no read-only data and no relocations, resolution passes the decoded
/// code through unchanged: every instruction keeps its offset and its
/// immediate, and the assembler is handed each instruction's own bytes with
/// no label and no read-only data.
pub proof fn law_pass_through(obj: ObjectModel)
    requires
        forall|q: int| 0 <= q < obj.sections@.len() ==> !is_rodata_section(#[trigger] obj.sections@[q]),
        text_relocations(obj).len() == 0,
        decode_spec(text_data(obj)) is Ok,
    ensures
        link_outcome(obj) == Ok::<Seq<Slot>, LinkFailure>(decoded_slots(decode_spec(text_data(obj))->Ok_0)),
        assembler_input(obj).code.len() == decode_spec(text_data(obj))->Ok_0.len(),
        forall|i: int|
            0 <= i < assembler_input(obj).code.len() ==> {
                let s = decode_spec(text_data(obj))->Ok_0[i];
                &&& (#[trigger] assembler_input(obj).code[i]).0 == text_data(obj).subrange(s.offset, s.offset + s.size)
                &&& assembler_input(obj).code[i].1 is None
                &&& assembler_input(obj).code[i].2 == s.offset as u64
            },
        assembler_input(obj).rodata.len() == 0,
        assembler_input(obj).rodata_size == 0,
{
    lemma_first_where_none(obj.sections@, |s: SectionInfo| is_rodata_section(s));
    assert(!multiple_rodata(obj.sections@));
    assert(total_size(Seq::<SymbolInfo>::empty()) == 0);
}

/// Decoded instructions stand at strictly increasing offsets.
proof fn lemma_offsets_increase(data: Seq<u8>, a: int, b: int)
    requires
        decode_spec(data) is Ok,
        0 <= a < b < decode_spec(data)->Ok_0.len(),
    ensures
        decode_spec(data)->Ok_0[a].offset < decode_spec(data)->Ok_0[b].offset,
    decreases b - a,
{
    let s = decode_spec(data)->Ok_0;
    law_decode_covers_section(data);
    assert(s[(b - 1) + 1].offset == s[b - 1].offset + s[b - 1].size);
    assert(s[b - 1].size == record_size(data[s[b - 1].offset]));
    if b > a + 1 {
        lemma_offsets_increase(data, a, b - 1);
    }
}

/// An object whose code has one relocation, targeting a read-only data
/// symbol and applied to the instruction whose immediate is that symbol's
/// address, resolves; the assembler is handed that instruction with the
/// symbol's name as its label, and every other instruction with none.
pub proof fn law_relocation_in_object(obj: ObjectModel, k: int, e: int)
    requires
        !multiple_rodata(obj.sections@),
        rodata_section(obj.sections@) is Some,
        catalog_valid(rodata_selection(obj), rodata_data(obj)),
        decode_spec(text_data(obj)) is Ok,
        text_data(obj).len() <= u64::MAX,
        text_relocations(obj).len() == 1,
        0 <= k < decode_spec(text_data(obj))->Ok_0.len(),
        decode_spec(text_data(obj))->Ok_0[k].offset == text_relocations(obj)[0].offset,
        text_relocations(obj)[0].symbol is Some,
        symbol_with_index(obj.symbols@, text_relocations(obj)[0].symbol->Some_0) is Some,
        obj.symbols@[symbol_with_index(obj.symbols@, text_relocations(obj)[0].symbol->Some_0)->Some_0].section
            == Some(obj.sections@[rodata_section(obj.sections@)->Some_0].index),
        0 <= e < rodata_selection(obj).len(),
        decode_spec(text_data(obj))->Ok_0[k].immediate is Some,
        decode_spec(text_data(obj))->Ok_0[k].immediate->Some_0 as u64 == rodata_selection(obj)[e].address,
    ensures
        link_outcome(obj) is Ok,
        assembler_input(obj).code[k].1 == Some(rodata_selection(obj)[e].name->Some_0@),
        forall|i: int|
            0 <= i < assembler_input(obj).code.len() && i != k ==> (#[trigger] assembler_input(obj).code[i]).1 is None,
{
    let data = text_data(obj);
    let specs = decode_spec(data)->Ok_0;
    let recs = decoded_slots(specs);
    let rels = text_relocations(obj);
    let sel = rodata_selection(obj);
    let ro = obj.sections@[rodata_section(obj.sections@)->Some_0].index;
    assert(rels =~= seq![rels[0]]);
    assert forall|a: int, b: int| 0 <= a < b < recs.len() implies (#[trigger] recs[a]).offset != (
    #[trigger] recs[b]).offset by {
        lemma_offsets_increase(data, a, b);
        law_decode_covers_section(data);
        assert(0 <= specs[a].offset < specs[b].offset < data.len());
        assert(recs[a].offset == specs[a].offset as u64);
        assert(recs[b].offset == specs[b].offset as u64);
    }
    law_relocation_round_trip(recs, rels[0], obj.symbols@, ro, sel, rodata_data(obj), k, e);
}

} // verus!
