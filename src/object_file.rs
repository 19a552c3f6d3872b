use vstd::prelude::*;
use object::{Object, ObjectSection, ObjectSymbol};

verus! {

/// A relocation entry of a section: where it applies, and the symbol it
/// targets when its target is a symbol.
#[derive(Debug)]
pub struct RelocationInfo {
    pub offset: u64,
    pub symbol: Option<usize>,
}

/// What the linker reads of one section of a relocatable object.
#[derive(Debug)]
pub struct SectionInfo {
    pub index: usize,
    /// The name as bytes; `None` where the name cannot be read.
    pub name: Option<Vec<u8>>,
    /// The raw contents; `None` where they cannot be read.
    pub data: Option<Vec<u8>>,
    pub size: u64,
    pub relocations: Vec<RelocationInfo>,
}

/// What the linker reads of one symbol of a relocatable object.
#[derive(Debug)]
pub struct SymbolInfo {
    pub index: usize,
    /// `None` where the name cannot be read.
    pub name: Option<String>,
    pub address: u64,
    pub size: u64,
    pub section: Option<usize>,
}

/// A relocatable object, as plain values: its sections and its symbols, each
/// in the order of the object's own tables.
#[derive(Debug)]
pub struct ObjectModel {
    pub sections: Vec<SectionInfo>,
    pub symbols: Vec<SymbolInfo>,
}

#[verifier::external_type_specification]
#[verifier::external_body]
pub struct ExObjectError(object::Error);

/// What reading the object file `bytes` gives: `None` where it is no object
/// file that can be parsed.
pub uninterp spec fn parsed_object(bytes: Seq<u8>) -> Option<ObjectModel>;

/// The model that reading `bytes` gives, where it succeeds.
pub open spec fn parsed_model(bytes: Seq<u8>) -> ObjectModel {
    parsed_object(bytes)->Some_0
}

/// Relies on object::File::parse and ObjectSection's accessors: lists the
/// sections of the object in `bytes`, with their relocations.
#[verifier::external_body]
pub(crate) fn read_sections(bytes: &[u8]) -> (r: Result<Vec<SectionInfo>, object::Error>)
    ensures
        r is Ok <==> parsed_object(bytes@) is Some,
        r matches Ok(v) ==> v@ == parsed_object(bytes@)->Some_0.sections@,
{
    let file = object::File::parse(bytes)?;
    Ok(file.sections().map(|s| SectionInfo {
        index: s.index().0,
        name: s.name_bytes().ok().map(|n| n.to_vec()),
        data: s.data().ok().map(|d| d.to_vec()),
        size: s.size(),
        relocations: s.relocations().map(|(offset, rel)| RelocationInfo {
            offset,
            symbol: match rel.target() { object::RelocationTarget::Symbol(i) => Some(i.0), _ => None },
        }).collect(),
    }).collect())
}

/// Relies on object::File::parse and ObjectSymbol's accessors: lists the
/// symbols of the object in `bytes`, in the order of its symbol table.
#[verifier::external_body]
pub(crate) fn read_symbols(bytes: &[u8]) -> (r: Result<Vec<SymbolInfo>, object::Error>)
    ensures
        r is Ok <==> parsed_object(bytes@) is Some,
        r matches Ok(v) ==> v@ == parsed_object(bytes@)->Some_0.symbols@,
{
    let file = object::File::parse(bytes)?;
    Ok(file.symbols().map(|s| SymbolInfo {
        index: s.index().0,
        name: s.name().ok().map(|n| n.to_string()),
        address: s.address(),
        size: s.size(),
        section: s.section_index().map(|i| i.0),
    }).collect())
}

/// Reads the object in `bytes` into its plain model: fails exactly where the
/// bytes are no object file, else gives the parsed sections and symbols.
pub fn read_object(bytes: &[u8]) -> (r: Result<ObjectModel, object::Error>)
    ensures
        r is Ok <==> parsed_object(bytes@) is Some,
        r matches Ok(o) ==> o.sections@ == parsed_object(bytes@)->Some_0.sections@ && o.symbols@
            == parsed_object(bytes@)->Some_0.symbols@,
{
    let sections = match read_sections(bytes) {
        Ok(v) => v,
        Err(e) => return Err(e),
    };
    let symbols = match read_symbols(bytes) {
        Ok(v) => v,
        Err(e) => return Err(e),
    };
    Ok(ObjectModel { sections, symbols })
}

} // verus!
