use vstd::prelude::*;
use crate::decode::{InstructionRecord, Operand};
use crate::object_file::{RelocationInfo, SymbolInfo};
use crate::rodata::{rodata_table, RodataEntry};
use crate::SbpfLinkerError;

verus! {

/// The position of the first element of `s` that satisfies `pred`.
pub open spec fn first_where<A>(s: Seq<A>, pred: spec_fn(A) -> bool) -> Option<int> {
    if exists|p: int| 0 <= p < s.len() && pred(s[p]) && forall|q: int| 0 <= q < p ==> !pred(s[q]) {
        Some(choose|p: int| 0 <= p < s.len() && pred(s[p]) && forall|q: int| 0 <= q < p ==> !pred(s[q]))
    } else {
        None
    }
}

pub proof fn lemma_first_where_some<A>(s: Seq<A>, pred: spec_fn(A) -> bool, p: int)
    requires
        0 <= p < s.len(),
        pred(s[p]),
        forall|q: int| 0 <= q < p ==> !pred(s[q]),
    ensures
        first_where(s, pred) == Some(p),
{
    let c = choose|c: int| 0 <= c < s.len() && pred(s[c]) && forall|q: int| 0 <= q < c ==> !pred(s[q]);
    assert(0 <= c < s.len() && pred(s[c]) && forall|q: int| 0 <= q < c ==> !pred(s[q]));
    if c < p {
        assert(!pred(s[c]));
    } else if p < c {
        assert(!pred(s[p]));
    }
}

pub proof fn lemma_first_where_none<A>(s: Seq<A>, pred: spec_fn(A) -> bool)
    requires
        forall|q: int| 0 <= q < s.len() ==> !pred(s[q]),
    ensures
        first_where(s, pred) is None,
{
}

pub open spec fn symbol_with_index(symbols: Seq<SymbolInfo>, idx: usize) -> Option<int> {
    first_where(symbols, |s: SymbolInfo| s.index == idx)
}

/// What relocations read and write of an instruction record: where it
/// stands, and its last operand.
pub struct Slot {
    pub offset: u64,
    pub operand: Operand,
}

pub open spec fn slot_of(r: InstructionRecord) -> Slot {
    Slot { offset: r.offset, operand: r.operand }
}

pub open spec fn slots(recs: Seq<InstructionRecord>) -> Seq<Slot> {
    recs.map_values(|r: InstructionRecord| slot_of(r))
}

/// Whether `a` and `b` hold the same instructions, offsets and sizes, in
/// the same order, whatever their operands.
pub open spec fn same_instructions(a: Seq<InstructionRecord>, b: Seq<InstructionRecord>) -> bool {
    &&& a.len() == b.len()
    &&& forall|j: int|
        0 <= j < a.len() ==> {
            &&& (#[trigger] a[j]).bytes == b[j].bytes
            &&& a[j].offset == b[j].offset
            &&& a[j].size == b[j].size
            &&& a[j].opcode == b[j].opcode
        }
}

pub open spec fn record_at_offset(recs: Seq<Slot>, offset: u64) -> Option<int> {
    first_where(recs, |r: Slot| r.offset == offset)
}

pub open spec fn entry_at_address(table: Seq<(u64, String)>, address: u64) -> Option<int> {
    first_where(table, |e: (u64, String)| e.0 == address)
}

/// The addend of a relocation, read from the last operand of the
/// instruction it applies to: its integer immediate taken as an unsigned
/// address, or 0 where it has none.
pub open spec fn addend_of(op: Operand) -> u64 {
    match op {
        Operand::Immediate(v) => v as u64,
        _ => 0,
    }
}

/// The slots `recs` with the operand at `k` replaced by `op`.
pub open spec fn with_operand(recs: Seq<Slot>, k: int, op: Operand) -> Seq<Slot> {
    recs.update(k, Slot { operand: op, ..recs[k] })
}

/// Applies one relocation to the records: a relocation whose target is no
/// symbol, or a symbol outside the read-only data section `ro`, is left
/// alone; otherwise the instruction at the relocation's offset gets as its
/// last operand the name of the read-only data entry whose address is the
/// addend. Fails with the relocation's offset where the symbol, the
/// instruction or the entry is missing.
pub open spec fn apply_relocation(
    recs: Seq<Slot>,
    rel: RelocationInfo,
    symbols: Seq<SymbolInfo>,
    ro: usize,
    table: Seq<(u64, String)>,
) -> Result<Seq<Slot>, u64> {
    match rel.symbol {
        None => Ok(recs),
        Some(si) => match symbol_with_index(symbols, si) {
            None => Err(rel.offset),
            Some(p) => if symbols[p].section != Some(ro) {
                Ok(recs)
            } else {
                match record_at_offset(recs, rel.offset) {
                    None => Err(rel.offset),
                    Some(k) => match entry_at_address(table, addend_of(recs[k].operand)) {
                        None => Err(rel.offset),
                        Some(e) => Ok(with_operand(recs, k, Operand::Label(table[e].1))),
                    },
                }
            },
        },
    }
}

/// Applies the relocations `rels` one after the other, in their order.
pub open spec fn apply_relocations(
    recs: Seq<Slot>,
    rels: Seq<RelocationInfo>,
    symbols: Seq<SymbolInfo>,
    ro: usize,
    table: Seq<(u64, String)>,
) -> Result<Seq<Slot>, u64>
    decreases rels.len(),
{
    if rels.len() == 0 {
        Ok(recs)
    } else {
        match apply_relocations(recs, rels.drop_last(), symbols, ro, table) {
            Ok(done) => apply_relocation(done, rels.last(), symbols, ro, table),
            Err(e) => Err(e),
        }
    }
}

fn find_symbol(symbols: &Vec<SymbolInfo>, idx: usize) -> (r: Option<usize>)
    ensures
        match r {
            Some(p) => symbol_with_index(symbols@, idx) == Some(p as int),
            None => symbol_with_index(symbols@, idx) is None,
        },
{
    let mut i: usize = 0;
    while i < symbols.len()
        invariant
            i <= symbols@.len(),
            forall|q: int| 0 <= q < i ==> symbols@[q].index != idx,
        decreases symbols@.len() - i,
    {
        if symbols[i].index == idx {
            proof { lemma_first_where_some(symbols@, |s: SymbolInfo| s.index == idx, i as int); }
            return Some(i);
        }
        i = i + 1;
    }
    proof { lemma_first_where_none(symbols@, |s: SymbolInfo| s.index == idx); }
    None
}

fn find_record(recs: &Vec<InstructionRecord>, offset: u64) -> (r: Option<usize>)
    ensures
        match r {
            Some(k) => record_at_offset(slots(recs@), offset) == Some(k as int),
            None => record_at_offset(slots(recs@), offset) is None,
        },
{
    let mut i: usize = 0;
    while i < recs.len()
        invariant
            i <= recs@.len(),
            forall|q: int| 0 <= q < i ==> recs@[q].offset != offset,
        decreases recs@.len() - i,
    {
        if recs[i].offset == offset {
            proof { lemma_first_where_some(slots(recs@), |r: Slot| r.offset == offset, i as int); }
            return Some(i);
        }
        i = i + 1;
    }
    proof { lemma_first_where_none(slots(recs@), |r: Slot| r.offset == offset); }
    None
}

/// Finds the read-only data entry at `address`, the address it had in the
/// object.
pub fn find_entry(entries: &Vec<RodataEntry>, address: u64) -> (r: Option<usize>)
    ensures
        match r {
            Some(e) => entry_at_address(rodata_table(entries@), address) == Some(e as int),
            None => entry_at_address(rodata_table(entries@), address) is None,
        },
{
    let mut i: usize = 0;
    while i < entries.len()
        invariant
            i <= entries@.len(),
            forall|q: int| 0 <= q < i ==> entries@[q].address != address,
        decreases entries@.len() - i,
    {
        if entries[i].address == address {
            proof { lemma_first_where_some(rodata_table(entries@), |e: (u64, String)| e.0 == address, i as int); }
            return Some(i);
        }
        i = i + 1;
    }
    proof { lemma_first_where_none(rodata_table(entries@), |e: (u64, String)| e.0 == address); }
    None
}

/// Resolves the relocations `rels` of the code section against the read-only
/// data section with index `ro`, whose catalogue is `entries`: processed
/// in their order, each one that targets a symbol of that section replaces
/// the last operand of the instruction at its offset by the name of the
/// entry whose address is that operand's immediate.
pub fn resolve_relocations(
    recs: &mut Vec<InstructionRecord>,
    rels: &Vec<RelocationInfo>,
    symbols: &Vec<SymbolInfo>,
    ro: usize,
    entries: &Vec<RodataEntry>,
) -> (r: Result<(), SbpfLinkerError>)
    ensures
        match apply_relocations(slots(old(recs)@), rels@, symbols@, ro, rodata_table(entries@)) {
            Ok(done) => r is Ok && slots(final(recs)@) == done && same_instructions(
                final(recs)@,
                old(recs)@,
            ),
            Err(offset) => r == Err::<(), SbpfLinkerError>(
                SbpfLinkerError::RelocationTargetUnresolved { offset },
            ),
        },
{
    let ghost start = slots(recs@);
    let mut i: usize = 0;
    assert(rels@.subrange(0, 0) =~= Seq::<RelocationInfo>::empty());
    while i < rels.len()
        invariant
            i <= rels@.len(),
            start == slots(old(recs)@),
            apply_relocations(start, rels@.subrange(0, i as int), symbols@, ro, rodata_table(entries@)) == Ok::<
                Seq<Slot>,
                u64,
            >(slots(recs@)),
            same_instructions(recs@, old(recs)@),
        decreases rels@.len() - i,
    {
        let ghost before = recs@;
        let ghost before_slots = slots(recs@);
        assert(rels@.subrange(0, i + 1).drop_last() =~= rels@.subrange(0, i as int));
        let rel = &rels[i];
        assert(rels@.subrange(0, i + 1).last() == rels@[i as int]);
        if let Some(si) = rel.symbol {
            match find_symbol(symbols, si) {
                None => {
                    proof { lemma_apply_stops(start, rels@, symbols@, ro, rodata_table(entries@), i as int, rel.offset); }
                    return Err(SbpfLinkerError::RelocationTargetUnresolved { offset: rel.offset });
                },
                Some(p) => {
                    if symbols[p].section == Some(ro) {
                        match find_record(recs, rel.offset) {
                            None => {
                                proof { lemma_apply_stops(start, rels@, symbols@, ro, rodata_table(entries@), i as int, rel.offset); }
                                return Err(SbpfLinkerError::RelocationTargetUnresolved { offset: rel.offset });
                            },
                            Some(k) => {
                                let addend: u64 = match &recs[k].operand {
                                    Operand::Immediate(v) => *v as u64,
                                    _ => 0,
                                };
                                match find_entry(entries, addend) {
                                    None => {
                                        proof { lemma_apply_stops(start, rels@, symbols@, ro, rodata_table(entries@), i as int, rel.offset); }
                                        return Err(SbpfLinkerError::RelocationTargetUnresolved { offset: rel.offset });
                                    },
                                    Some(e) => {
                                        let name = entries[e].name.clone();
                                        let old_rec = recs.remove(k);
                                        let rec = InstructionRecord { operand: Operand::Label(name), ..old_rec };
                                        recs.insert(k, rec);
                                        assert(slots(recs@) =~= with_operand(before_slots, k as int, Operand::Label(rodata_table(entries@)[e as int].1)));
                                        assert(same_instructions(recs@, before));
                                    },
                                }
                            },
                        }
                    }
                },
            }
        }
        i = i + 1;
    }
    assert(rels@.subrange(0, i as int) =~= rels@);
    Ok(())
}

/// Once a relocation fails, so does every longer run that contains it.
proof fn lemma_apply_stops(
    start: Seq<Slot>,
    rels: Seq<RelocationInfo>,
    symbols: Seq<SymbolInfo>,
    ro: usize,
    table: Seq<(u64, String)>,
    i: int,
    offset: u64,
)
    requires
        0 <= i < rels.len(),
        apply_relocations(start, rels.subrange(0, i + 1), symbols, ro, table) == Err::<
            Seq<Slot>,
            u64,
        >(offset),
    ensures
        apply_relocations(start, rels, symbols, ro, table) == Err::<Seq<Slot>, u64>(
            offset,
        ),
    decreases rels.len(),
{
    if i + 1 == rels.len() {
        assert(rels.subrange(0, i + 1) =~= rels);
    } else {
        assert(rels.drop_last().subrange(0, i + 1) =~= rels.subrange(0, i + 1));
        lemma_apply_stops(start, rels.drop_last(), symbols, ro, table, i, offset);
    }
}

} // verus!
