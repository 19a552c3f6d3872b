use vstd::prelude::*;
use crate::object_file::SymbolInfo;
use crate::SbpfLinkerError;

verus! {

/// One read-only data symbol, as it will be laid out in the output: its
/// name, its bytes, its offset in the output's read-only data, and the
/// address it had in the object, by which relocations refer to it.
#[derive(Debug)]
pub struct RodataEntry {
    pub name: String,
    pub bytes: Vec<u8>,
    pub output_offset: u64,
    pub address: u64,
}

/// A symbol of the read-only data section with index `ro`: one that lives
/// there and has storage (labels have size zero).
pub open spec fn is_rodata_symbol(s: SymbolInfo, ro: usize) -> bool {
    s.section == Some(ro) && s.size > 0
}

/// The read-only data symbols among `syms`, in table order.
pub open spec fn rodata_symbols(syms: Seq<SymbolInfo>, ro: usize) -> Seq<SymbolInfo>
    decreases syms.len(),
{
    if syms.len() == 0 {
        seq![]
    } else {
        let before = rodata_symbols(syms.drop_last(), ro);
        if is_rodata_symbol(syms.last(), ro) {
            before.push(syms.last())
        } else {
            before
        }
    }
}

/// The sum of the sizes of `syms`.
pub open spec fn total_size(syms: Seq<SymbolInfo>) -> int
    decreases syms.len(),
{
    if syms.len() == 0 {
        0
    } else {
        total_size(syms.drop_last()) + syms.last().size
    }
}

/// Whether the symbol has a name and its bytes lie inside `data`.
pub open spec fn symbol_in_bounds(s: SymbolInfo, data: Seq<u8>) -> bool {
    s.name is Some && s.address + s.size <= data.len()
}

/// Whether the read-only data symbols `sel` can be catalogued from the
/// section contents `data`: every one is in bounds, no two share an
/// address, and their total size fits in 64 bits.
pub open spec fn catalog_valid(sel: Seq<SymbolInfo>, data: Seq<u8>) -> bool {
    &&& forall|i: int| 0 <= i < sel.len() ==> symbol_in_bounds(#[trigger] sel[i], data)
    &&& forall|i: int, j: int|
        0 <= i < j < sel.len() ==> (#[trigger] sel[i]).address != (#[trigger] sel[j]).address
    &&& total_size(sel) <= u64::MAX
}

/// Whether `entries` is the catalogue of the symbols `sel` over `data`:
/// names, addresses and bytes taken from each symbol, output offsets the
/// running sum of the sizes before it.
pub open spec fn catalog_of(entries: Seq<RodataEntry>, sel: Seq<SymbolInfo>, data: Seq<u8>) -> bool {
    &&& entries.len() == sel.len()
    &&& forall|i: int|
        0 <= i < sel.len() ==> {
            let e = #[trigger] entries[i];
            &&& e.name == sel[i].name->Some_0
            &&& e.address == sel[i].address
            &&& e.output_offset == total_size(sel.subrange(0, i))
            &&& e.bytes@ == data.subrange(sel[i].address as int, sel[i].address + sel[i].size)
        }
}

/// The address-to-name table of the catalogue `entries`, in its order.
pub open spec fn rodata_table(entries: Seq<RodataEntry>) -> Seq<(u64, String)> {
    entries.map_values(|e: RodataEntry| (e.address, e.name))
}

/// The address-to-name table that the symbols `sel` give.
pub open spec fn symbol_table(sel: Seq<SymbolInfo>) -> Seq<(u64, String)> {
    sel.map_values(|s: SymbolInfo| (s.address, s.name->Some_0))
}

/// A catalogue's table is the table of the symbols it was made from.
pub proof fn lemma_catalog_table(entries: Seq<RodataEntry>, sel: Seq<SymbolInfo>, data: Seq<u8>)
    requires
        catalog_of(entries, sel, data),
    ensures
        rodata_table(entries) == symbol_table(sel),
{
    assert(rodata_table(entries) =~= symbol_table(sel));
}

/// What is catalogued of a prefix of the symbol table is a prefix of what
/// is catalogued of a longer one.
pub proof fn lemma_rodata_symbols_prefix(syms: Seq<SymbolInfo>, ro: usize, i: int, n: int)
    requires
        0 <= i <= n <= syms.len(),
    ensures
        rodata_symbols(syms.subrange(0, i), ro).len() <= rodata_symbols(syms.subrange(0, n), ro).len(),
        rodata_symbols(syms.subrange(0, n), ro).subrange(
            0,
            rodata_symbols(syms.subrange(0, i), ro).len() as int,
        ) == rodata_symbols(syms.subrange(0, i), ro),
    decreases n - i,
{
    let a = rodata_symbols(syms.subrange(0, i), ro);
    if i == n {
        assert(a.subrange(0, a.len() as int) =~= a);
    } else {
        lemma_rodata_symbols_prefix(syms, ro, i, n - 1);
        let b = rodata_symbols(syms.subrange(0, n - 1), ro);
        assert(syms.subrange(0, n).drop_last() =~= syms.subrange(0, n - 1));
        let c = rodata_symbols(syms.subrange(0, n), ro);
        assert(c.subrange(0, a.len() as int) =~= b.subrange(0, a.len() as int));
    }
}

/// The total size of a prefix is at most the total size of the whole.
pub proof fn lemma_total_size_prefix(syms: Seq<SymbolInfo>, k: int)
    requires
        0 <= k <= syms.len(),
    ensures
        total_size(syms.subrange(0, k)) <= total_size(syms),
    decreases syms.len(),
{
    if k == syms.len() {
        assert(syms.subrange(0, k) =~= syms);
    } else {
        lemma_total_size_prefix(syms.drop_last(), k);
        assert(syms.drop_last().subrange(0, k) =~= syms.subrange(0, k));
    }
}

/// An invalid prefix of the catalogued symbols makes the whole invalid.
proof fn lemma_invalid_prefix(sel: Seq<SymbolInfo>, k: int, data: Seq<u8>)
    requires
        0 <= k <= sel.len(),
        !catalog_valid(sel.subrange(0, k), data),
    ensures
        !catalog_valid(sel, data),
{
    let p = sel.subrange(0, k);
    if forall|i: int| 0 <= i < p.len() ==> symbol_in_bounds(#[trigger] p[i], data) {
        if forall|i: int, j: int|
            0 <= i < j < p.len() ==> (#[trigger] p[i]).address != (#[trigger] p[j]).address {
            lemma_total_size_prefix(sel, k);
        } else {
            let (i, j) = choose|i: int, j: int|
                0 <= i < j < p.len() && (#[trigger] p[i]).address == (#[trigger] p[j]).address;
            assert(sel[i] == p[i] && sel[j] == p[j]);
        }
    } else {
        let i = choose|i: int| 0 <= i < p.len() && !symbol_in_bounds(#[trigger] p[i], data);
        assert(sel[i] == p[i]);
    }
}

/// Copies `data[start..end]`.
pub(crate) fn copy_range(data: &Vec<u8>, start: usize, end: usize) -> (r: Vec<u8>)
    requires
        start <= end <= data@.len(),
    ensures
        r@ == data@.subrange(start as int, end as int),
{
    let mut r: Vec<u8> = Vec::new();
    let mut j: usize = start;
    while j < end
        invariant
            start <= j <= end <= data@.len(),
            r@ == data@.subrange(start as int, j as int),
        decreases end - j,
    {
        r.push(data[j]);
        j = j + 1;
        assert(r@ =~= data@.subrange(start as int, j as int));
    }
    r
}

/// Catalogues the read-only data symbols of the section with index `ro`,
/// whose contents are `data`: each symbol of that section with a non-zero
/// size, in symbol-table order, gets its bytes and an output offset that is
/// the sum of the sizes before it. Returns the entries and the total size.
/// Fails where a symbol has no name or lies outside `data`, where two
/// symbols share an address, or where the total size overflows.
pub fn catalog_rodata(symbols: &Vec<SymbolInfo>, ro: usize, data: &Vec<u8>) -> (r: Result<
    (Vec<RodataEntry>, u64),
    SbpfLinkerError,
>)
    ensures
        r is Ok <==> catalog_valid(rodata_symbols(symbols@, ro), data@),
        r matches Ok((entries, total)) ==> catalog_of(
            entries@,
            rodata_symbols(symbols@, ro),
            data@,
        ) && total == total_size(rodata_symbols(symbols@, ro)),
        r matches Err(e) ==> e is MalformedRodataSymbol || e is DuplicateRodataAddress
            || e is RodataTooLarge,
        r matches Err(SbpfLinkerError::DuplicateRodataAddress { address }) ==> exists|i: int, j: int|
            0 <= i < j < rodata_symbols(symbols@, ro).len() && (#[trigger] rodata_symbols(
                symbols@,
                ro,
            )[i]).address == address && (#[trigger] rodata_symbols(symbols@, ro)[j]).address
                == address,
{
    let ghost all = rodata_symbols(symbols@, ro);
    let mut entries: Vec<RodataEntry> = Vec::new();
    let mut offset: u64 = 0;
    let mut i: usize = 0;
    assert(symbols@.subrange(0, 0) =~= Seq::<SymbolInfo>::empty());
    while i < symbols.len()
        invariant
            i <= symbols@.len(),
            all == rodata_symbols(symbols@, ro),
            catalog_of(entries@, rodata_symbols(symbols@.subrange(0, i as int), ro), data@),
            catalog_valid(rodata_symbols(symbols@.subrange(0, i as int), ro), data@),
            offset == total_size(rodata_symbols(symbols@.subrange(0, i as int), ro)),
        decreases symbols@.len() - i,
    {
        let ghost sel = rodata_symbols(symbols@.subrange(0, i as int), ro);
        let ghost next = rodata_symbols(symbols@.subrange(0, i + 1), ro);
        proof {
            assert(symbols@.subrange(0, i + 1).drop_last() =~= symbols@.subrange(0, i as int));
            lemma_rodata_symbols_prefix(symbols@, ro, i + 1, symbols@.len() as int);
            assert(symbols@.subrange(0, symbols@.len() as int) =~= symbols@);
        }
        let s = &symbols[i];
        if s.section == Some(ro) && s.size > 0 {
            assert(next == sel.push(symbols@[i as int]));
            let name = match &s.name {
                Some(n) => n.clone(),
                None => {
                    proof {
                        assert(!symbol_in_bounds(next[sel.len() as int], data@));
                        lemma_invalid_prefix(all, next.len() as int, data@);
                    }
                    return Err(SbpfLinkerError::MalformedRodataSymbol { index: i });
                },
            };
            if s.address > data.len() as u64 || s.size > data.len() as u64 - s.address {
                proof {
                    assert(!symbol_in_bounds(next[sel.len() as int], data@));
                    lemma_invalid_prefix(all, next.len() as int, data@);
                }
                return Err(SbpfLinkerError::MalformedRodataSymbol { index: i });
            }
            let mut k: usize = 0;
            while k < entries.len()
                invariant
                    k <= entries@.len(),
                    entries@.len() == sel.len(),
                    catalog_of(entries@, sel, data@),
                    forall|m: int| 0 <= m < k ==> sel[m].address != s.address,
                    i < symbols@.len(),
                    all == rodata_symbols(symbols@, ro),
                    next == sel.push(symbols@[i as int]),
                    symbols@[i as int] == *s,
                    all.subrange(0, next.len() as int) == next,
                    next.len() <= all.len(),
                decreases entries@.len() - k,
            {
                if entries[k].address == s.address {
                    proof {
                        assert(next[k as int].address == next[sel.len() as int].address);
                        assert(!catalog_valid(next, data@));
                        lemma_invalid_prefix(all, next.len() as int, data@);
                        assert(all[k as int] == next[k as int]);
                        assert(all[sel.len() as int] == next[sel.len() as int]);
                        assert(all[k as int].address == s.address);
                        assert(all[sel.len() as int].address == s.address);
                    }
                    return Err(SbpfLinkerError::DuplicateRodataAddress { address: s.address });
                }
                k = k + 1;
            }
            if offset > u64::MAX - s.size {
                proof {
                    assert(next.drop_last() =~= sel);
                    lemma_invalid_prefix(all, next.len() as int, data@);
                }
                return Err(SbpfLinkerError::RodataTooLarge);
            }
            let bytes = copy_range(data, s.address as usize, (s.address + s.size) as usize);
            let ghost before = entries@;
            entries.push(RodataEntry { name, bytes, output_offset: offset, address: s.address });
            proof {
                assert(next.drop_last() =~= sel);
                assert(next.subrange(0, sel.len() as int) =~= sel);
                assert forall|m: int| 0 <= m < next.len() implies {
                    let e = #[trigger] entries@[m];
                    &&& e.name == next[m].name->Some_0
                    &&& e.address == next[m].address
                    &&& e.output_offset == total_size(next.subrange(0, m))
                    &&& e.bytes@ == data@.subrange(next[m].address as int, next[m].address + next[m].size)
                } by {
                    if m < sel.len() {
                        assert(entries@[m] == before[m]);
                        assert(next.subrange(0, m) =~= sel.subrange(0, m));
                    }
                }
                assert forall|a: int, b: int|
                    0 <= a < b < next.len() implies (#[trigger] next[a]).address != (
                    #[trigger] next[b]).address by {
                    if b < sel.len() {
                        assert(next[a] == sel[a] && next[b] == sel[b]);
                    }
                }
            }
            offset = offset + s.size;
        } else {
            assert(next == sel);
        }
        i = i + 1;
    }
    assert(symbols@.subrange(0, i as int) =~= symbols@);
    Ok((entries, offset))
}

} // verus!
